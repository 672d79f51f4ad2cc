use rusterizer::input::{Key, MouseKey};

#[test]
fn keys_have_their_numbers() {
    assert_eq!(Key::Null.code(), 0);
    assert_eq!(Key::A.code(), 65);
    assert_eq!(Key::Q.code(), 81);
    assert_eq!(Key::W.code(), 87);
    assert_eq!(Key::Space.code(), 32);
    assert_eq!(Key::Escape.code(), 256);
    assert_eq!(Key::F12.code(), 301);
    assert_eq!(Key::Grave.code(), 96);
    assert_eq!(MouseKey::Left.code(), 0);
    assert_eq!(MouseKey::Right.code(), 1);
    assert_eq!(MouseKey::Middle.code(), 2);
}
