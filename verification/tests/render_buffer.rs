use rusterizer::frame::Frame;
use rusterizer::primitives::Float3;
use rusterizer::render_buffer::RenderBuffer;
use rusterizer::scalar::Scalar;

fn fx(v: f64) -> Scalar {
    Scalar::from_raw((v * 4294967296.0).round() as i64)
}

fn f3(x: f64, y: f64, z: f64) -> Float3 {
    Float3::new(fx(x), fx(y), fx(z))
}

#[test]
fn test_buffer_creation() {
    let buffer = RenderBuffer::<640, 480>::default();
    assert_eq!(buffer.pixels.len(), 640 * 480);
    assert_eq!(buffer.pixels[0].lock().0, Float3::zero());
    assert_eq!(buffer.pixels[0].lock().1, Scalar::infinity());
}

#[test]
fn test_frame_creation() {
    let frame = Frame::new(640, 480);
    assert_eq!(frame.width, 640);
    assert_eq!(frame.height, 480);
    assert_eq!(frame.color.len(), 640 * 480);
    assert_eq!(frame.depth.len(), 640 * 480);
    assert_eq!(frame.color[0], Float3::zero());
    assert_eq!(frame.depth[0], Scalar::infinity());
}

#[test]
fn new_buffer_is_blank_everywhere() {
    let buffer = RenderBuffer::<7, 5>::new();
    assert_eq!(buffer.pixels.len(), 35);
    for i in 0..35 {
        assert_eq!(buffer.read(i), (Float3::zero(), Scalar::infinity()));
    }
}

#[test]
fn clear_makes_every_pixel_blank() {
    let mut buffer = RenderBuffer::<4, 3>::new();
    *buffer.pixels[5].lock() = (f3(1.0, 0.0, 0.0), fx(2.0));
    buffer.clear(f3(0.25, 0.5, 0.75));
    for i in 0..12 {
        assert_eq!(buffer.read(i), (f3(0.25, 0.5, 0.75), Scalar::infinity()));
    }
}

#[test]
fn buffer_test_frame_is_red() {
    let buffer = RenderBuffer::<4, 3>::test_frame(fx(2.0));
    let red = fx(100.0).div(fx(255.0));
    for i in 0..12 {
        assert_eq!(buffer.read(i), (Float3::new(red, fx(0.0), fx(0.0)), Scalar::infinity()));
    }
    let wrapped = RenderBuffer::<2, 2>::test_frame(fx(6.0));
    assert_eq!(wrapped.read(3).0.x, fx(45.0).div(fx(255.0)));
}

#[test]
fn rgba_bytes_follow_the_pixels() {
    let buffer = RenderBuffer::<2, 2>::new();
    *buffer.pixels[0].lock() = (f3(1.0, 0.5, 0.0), fx(2.0));
    *buffer.pixels[3].lock() = (f3(0.0, 0.0, 1.0), fx(2.0));
    let mut bytes = vec![7u8; 18];
    buffer.to_rgba_buffer(&mut bytes);
    assert_eq!(
        bytes,
        vec![255, 127, 0, 255, 0, 0, 0, 255, 0, 0, 0, 255, 0, 0, 255, 255, 7, 7]
    );
    let mut short = vec![9u8; 6];
    buffer.to_rgba_buffer(&mut short);
    assert_eq!(short, vec![255, 127, 0, 255, 9, 9]);
}

#[test]
fn frame_test_pattern_is_a_gradient() {
    let frame = Frame::test_frame(5, 3);
    assert_eq!(frame.color[0], f3(0.0, 0.0, 0.0));
    assert_eq!(frame.color[4], f3(1.0, 0.0, 0.0));
    assert_eq!(frame.color[2 * 5 + 2], f3(0.5, 1.0, 0.0));
    assert_eq!(frame.color[1 * 5 + 1], f3(0.25, 0.5, 0.0));
    assert_eq!(frame.depth[7], Scalar::infinity());
    let single = Frame::test_frame(1, 1);
    assert_eq!(single.color[0], f3(0.0, 0.0, 0.0));
}

#[test]
fn frame_clear_resets_colour_and_depth() {
    let mut frame = Frame::test_frame(4, 4);
    frame.depth[3] = fx(1.0);
    frame.clear(f3(0.1, 0.2, 0.3));
    for i in 0..16 {
        assert_eq!(frame.color[i], f3(0.1, 0.2, 0.3));
        assert_eq!(frame.depth[i], Scalar::infinity());
    }
    assert_eq!((frame.width, frame.height), (4, 4));
}
