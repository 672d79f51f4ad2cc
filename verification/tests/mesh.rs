use rusterizer::coords::{CoordinateSystem, BLENDER, ENGINE};
use rusterizer::mesh::{Mesh, MeshError, ObjBuilder, ObjCorner};
use rusterizer::obj::{parse_corner, parse_decimal, parse_index, split_words};
use rusterizer::primitives::{Float2, Float3};
use rusterizer::scalar::Scalar;

fn fx(v: f64) -> Scalar {
    Scalar::from_raw((v * 4294967296.0).round() as i64)
}

fn f2(x: f64, y: f64) -> Float2 {
    Float2::new(fx(x), fx(y))
}

fn f3(x: f64, y: f64, z: f64) -> Float3 {
    Float3::new(fx(x), fx(y), fx(z))
}

const CUBE: &str = "# a cube
o Cube
v 1.000000 1.000000 -1.000000
v 1.000000 -1.000000 -1.000000
v 1.000000 1.000000 1.000000
v 1.000000 -1.000000 1.000000
v -1.000000 1.000000 -1.000000
v -1.000000 -1.000000 -1.000000
v -1.000000 1.000000 1.000000
v -1.000000 -1.000000 1.000000
vn -0.0000 1.0000 -0.0000
vn -0.0000 -0.0000 1.0000
vn -1.0000 -0.0000 -0.0000
vn -0.0000 -1.0000 -0.0000
vn 1.0000 -0.0000 -0.0000
vn -0.0000 -0.0000 -1.0000
vt 0.625000 0.500000
vt 0.875000 0.500000
vt 0.875000 0.750000
vt 0.625000 0.750000
vt 0.375000 0.750000
vt 0.625000 1.000000
vt 0.375000 1.000000
vt 0.375000 0.000000
vt 0.625000 0.000000
vt 0.625000 0.250000
vt 0.375000 0.250000
vt 0.125000 0.500000
vt 0.375000 0.500000
vt 0.125000 0.750000
s 0
f 1/1/1 5/2/1 7/3/1 3/4/1
f 4/5/2 3/4/2 7/6/2 8/7/2
f 8/8/3 7/9/3 5/10/3 6/11/3
f 6/12/4 2/13/4 4/5/4 8/14/4
f 2/13/5 1/1/5 3/4/5 4/5/5
f 6/11/6 5/10/6 1/1/6 2/13/6
";

#[test]
fn test_mesh_from_obj() {
    let mesh = Mesh::from_obj_file(CUBE.as_bytes()).unwrap();
    assert_eq!(mesh.data.len(), 12);
}

#[test]
fn faces_are_cut_into_fans() {
    let mesh = Mesh::from_obj_file(CUBE.as_bytes()).unwrap();
    let first = &mesh.data[0];
    let second = &mesh.data[1];
    assert_eq!(first.vertices.vertices, [f3(1.0, 1.0, -1.0), f3(-1.0, 1.0, -1.0), f3(-1.0, 1.0, 1.0)]);
    assert_eq!(second.vertices.vertices, [f3(1.0, 1.0, -1.0), f3(-1.0, 1.0, 1.0), f3(1.0, 1.0, 1.0)]);
    assert_eq!(first.uvs.vertices, [f2(0.625, 0.5), f2(0.875, 0.5), f2(0.875, 0.75)]);
    assert_eq!(second.uvs.vertices, [f2(0.625, 0.5), f2(0.875, 0.75), f2(0.625, 0.75)]);
    for n in first.normals.vertices {
        assert_eq!(n, f3(0.0, 1.0, 0.0));
    }
    assert_eq!(mesh.data[11].normals.vertices[2], f3(0.0, 0.0, -1.0));
}

#[test]
fn records_are_read_in_order() {
    let text = b"v 0 0 0\nv 1 0 0\nv 0 1 0\nf 1// 2// 3//\nv 0 0 1\nf 1// 3// 4//";
    let mesh = Mesh::from_obj_file(text).unwrap();
    assert_eq!(mesh.data.len(), 2);
    assert_eq!(mesh.data[1].vertices.vertices[2], f3(0.0, 0.0, 1.0));
    assert_eq!(mesh.data[0].normals.vertices[0], Float3::zero());
    assert_eq!(mesh.data[0].uvs.vertices[0], Float2::zero());

    let early = b"v 0 0 0\nv 1 0 0\nf 1// 2// 3//\nv 0 1 0\n";
    assert_eq!(Mesh::from_obj_file(early).err(), Some(MeshError::IndexOutOfRange));
}

#[test]
fn malformed_records_are_errors() {
    assert_eq!(Mesh::from_obj_file(b"v 1 2").err(), Some(MeshError::MalformedVertex));
    assert_eq!(Mesh::from_obj_file(b"vn 1 x 2").err(), Some(MeshError::MalformedVertex));
    assert_eq!(Mesh::from_obj_file(b"vt 1").err(), Some(MeshError::MalformedVertex));
    assert_eq!(Mesh::from_obj_file(b"v 0 0 0\nf 1 1 1").err(), Some(MeshError::MalformedCorner));
    assert_eq!(Mesh::from_obj_file(b"v 0 0 0\nf 1/1 1/1 1/1").err(), Some(MeshError::MalformedCorner));
    assert_eq!(Mesh::from_obj_file(b"v 0 0 0\nf 0// 1// 1//").err(), Some(MeshError::MalformedCorner));
    assert_eq!(Mesh::from_obj_file(b"v 0 0 0\nf 1/1/ 1// 1//").err(), Some(MeshError::IndexOutOfRange));
}

#[test]
fn other_lines_are_passed_over() {
    let text = b"\n\n# comment\r\nmtllib x.mtl\nv\nf\n   \nusemtl a b c\nv 1 skip 2 3 4\r\nvt 0.5 0.25 0.0\nf 1/1/ 1/1/ 1/1/\n";
    let mesh = Mesh::from_obj_file(text).unwrap();
    assert_eq!(mesh.data.len(), 1);
    assert_eq!(mesh.data[0].vertices.vertices[1], f3(1.0, 2.0, 3.0));
    assert_eq!(mesh.data[0].uvs.vertices[1], f2(0.5, 0.25));
    assert_eq!(Mesh::from_obj_file(b"").unwrap().data.len(), 0);
    assert_eq!(Mesh::from_obj_file(b"v 1 2 3\nf 1// 1//").unwrap().data.len(), 0);
}

#[test]
fn normals_are_brought_to_unit_length() {
    let mesh = Mesh::from_obj_file(b"v 0 0 0\nvn 0 3 4\nf 1//1 1//1 1//1").unwrap();
    assert_eq!(
        mesh.data[0].normals.vertices[0],
        Float3::new(fx(0.0), fx(3.0).div(fx(5.0)), fx(4.0).div(fx(5.0)))
    );
}

#[test]
fn numbers_are_read_as_decimals() {
    assert_eq!(parse_decimal(b"1.5"), Some(fx(1.5)));
    assert_eq!(parse_decimal(b"-1.5"), Some(fx(-1.5)));
    assert_eq!(parse_decimal(b"+.25"), Some(fx(0.25)));
    assert_eq!(parse_decimal(b"7."), Some(fx(7.0)));
    assert_eq!(parse_decimal(b"007"), Some(fx(7.0)));
    assert_eq!(parse_decimal(b"-0.0"), Some(fx(0.0)));
    assert_eq!(parse_decimal(b"0.1").map(|s| s.raw()), Some(0x1999_9999));
    assert_eq!(parse_decimal(b"-0.1").map(|s| s.raw()), Some(-0x1999_9999));
    assert_eq!(parse_decimal(b"0.0000000001").map(|s| s.raw()), Some(0));
    assert_eq!(parse_decimal(b"0.00000000025").map(|s| s.raw()), Some(1));
    assert_eq!(parse_decimal(b"0.99999999999999999999999").map(|s| s.raw()), Some(0xffff_ffff));
    assert_eq!(parse_decimal(b"2147483647.5"), Some(fx(2147483647.5)));
    assert_eq!(parse_decimal(b"2147483648"), Some(Scalar::infinity()));
    assert_eq!(parse_decimal(b"-2147483648").map(|s| s.raw()), Some(i64::MIN));
    assert_eq!(parse_decimal(b"99999999999999999999999999999999999999999999"), Some(Scalar::infinity()));
    assert_eq!(parse_decimal(b"-99999999999999999999999999999999999999999999").map(|s| s.raw()), Some(i64::MIN));
    for bad in ["", ".", "-", "+", "1e5", "1.2.3", "abc", "1,5", "--1", " 1", "inf", "NaN"] {
        assert_eq!(parse_decimal(bad.as_bytes()), None, "{:?}", bad);
    }
}

#[test]
fn indices_are_whole_numbers() {
    assert_eq!(parse_index(b"12"), Some(12));
    assert_eq!(parse_index(b"+12"), Some(12));
    assert_eq!(parse_index(b"0"), Some(0));
    assert_eq!(parse_index(b"18446744073709551615"), Some(usize::MAX));
    assert_eq!(parse_index(b"18446744073709551616"), None);
    for bad in ["", "+", "-1", "1.0", "a", "1 "] {
        assert_eq!(parse_index(bad.as_bytes()), None, "{:?}", bad);
        assert_eq!(parse_index(bad.as_bytes()), bad.parse::<usize>().ok());
    }
}

#[test]
fn corners_have_three_fields() {
    assert_eq!(
        parse_corner(b"3/2/1"),
        Ok(ObjCorner { vertex: Some(2), uv: Some(1), normal: Some(0) })
    );
    assert_eq!(parse_corner(b"3//1"), Ok(ObjCorner { vertex: Some(2), uv: None, normal: Some(0) }));
    assert_eq!(parse_corner(b"//"), Ok(ObjCorner { vertex: None, uv: None, normal: None }));
    assert_eq!(parse_corner(b"x/y/z"), Ok(ObjCorner { vertex: None, uv: None, normal: None }));
    assert_eq!(
        parse_corner(b"1/2/3/4"),
        Ok(ObjCorner { vertex: Some(0), uv: Some(1), normal: Some(2) })
    );
    assert_eq!(parse_corner(b"1"), Err(MeshError::MalformedCorner));
    assert_eq!(parse_corner(b"1/2"), Err(MeshError::MalformedCorner));
    assert_eq!(parse_corner(b"1/0/1"), Err(MeshError::MalformedCorner));
}

#[test]
fn lines_are_split_at_white_space() {
    assert_eq!(split_words(b"  f  1/2/3\t4/5/6 \r"), vec![(2, 3), (5, 10), (11, 16)]);
    assert_eq!(split_words(b""), vec![]);
    assert_eq!(split_words(b" \t "), vec![]);
    assert_eq!(split_words(b"v"), vec![(0, 1)]);
}

#[test]
fn builder_collects_lists() {
    let mut b = ObjBuilder::new();
    b.push_vertex(f3(0.0, 0.0, 0.0));
    b.push_vertex(f3(1.0, 0.0, 0.0));
    b.push_vertex(f3(1.0, 1.0, 0.0));
    b.push_vertex(f3(0.0, 1.0, 0.0));
    b.push_vertex(f3(-1.0, 0.5, 0.0));
    b.push_normal(f3(0.0, 0.0, 2.0));
    b.push_uv(f2(0.5, 0.5));
    let corner = |v| ObjCorner { vertex: Some(v), uv: Some(0), normal: Some(0) };
    assert_eq!(b.push_face(&[corner(0), corner(1), corner(2), corner(3), corner(4)]), Ok(()));
    assert_eq!(b.faces.len(), 3);
    assert_eq!(b.push_face(&[corner(0), corner(1), corner(5)]), Err(MeshError::IndexOutOfRange));
    assert_eq!(b.faces.len(), 3);
    assert_eq!(b.push_line(b"f 1/1/1 2/1/1 3/1/1"), Ok(()));
    assert_eq!(b.push_line(b"f 1/1/1 2/1/1 3/1/9"), Err(MeshError::IndexOutOfRange));
    let mesh = b.finish();
    assert_eq!(mesh.data.len(), 4);
    assert_eq!(mesh.data[2].vertices.vertices, [f3(0.0, 0.0, 0.0), f3(0.0, 1.0, 0.0), f3(-1.0, 0.5, 0.0)]);
    assert_eq!(mesh.data[2].normals.vertices[1], f3(0.0, 0.0, 1.0));
    assert_eq!(Mesh::default().data.len(), 0);
}

#[test]
fn coordinate_systems_map_to_the_engine() {
    let v = f3(1.0, 2.0, 3.0);
    assert_eq!(ENGINE.to_engine_coords(v), v);
    assert_eq!(BLENDER.to_engine_coords(v), f3(1.0, 3.0, -2.0));
    assert_eq!(CoordinateSystem::LeftHandedYUp.to_engine_coords(v), f3(1.0, 2.0, -3.0));
    assert_eq!(CoordinateSystem::LeftHandedZUp.to_engine_coords(v), f3(1.0, 3.0, 2.0));
}
