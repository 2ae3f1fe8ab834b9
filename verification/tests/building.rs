use scop::geometry::parse_geometry;
use scop::mesh::{resolve_indices, synthesize_vertices, Mesh};
use scop::parse::{Face, Num, Vec3};
use scop::GeometryError;

fn num(s: &str) -> Num {
    Num { text: s.as_bytes().to_vec() }
}

fn v3(x: &str, y: &str, z: &str) -> Vec3 {
    Vec3 { x: num(x), y: num(y), z: num(z) }
}

fn gray_colors(n: usize) -> Vec<Vec3> {
    (0..n).map(|_| v3("0.5", "0.5", "0.5")).collect()
}

#[test]
fn quad_text_builds_four_vertices_and_six_indices() {
    let text = b"v 0 0 0\nv 1 0 0\nv 1 1 0\nv 0 1 0\nf 1 2 3 4\n";
    let geometry = parse_geometry(text).unwrap();
    assert_eq!(geometry.positions.len(), 4);
    assert_eq!(geometry.faces, vec![Face::Quad(0, 1, 2, 3)]);

    let mesh = Mesh::from_geometry(&geometry, &gray_colors(4)).unwrap();
    assert_eq!(mesh.vertices.len(), 4);
    assert_eq!(mesh.indices, vec![0, 1, 2, 0, 2, 3]);
}

#[test]
fn empty_text_yields_an_empty_geometry() {
    let geometry = parse_geometry(b"").unwrap();
    assert_eq!(geometry.positions.len(), 0);
    assert_eq!(geometry.texcoords.len(), 0);
    assert_eq!(geometry.normals.len(), 0);
    assert_eq!(geometry.faces.len(), 0);
    let mesh = Mesh::from_geometry(&geometry, &gray_colors(0)).unwrap();
    assert!(mesh.vertices.is_empty());
    assert!(mesh.indices.is_empty());
}

#[test]
fn vertex_count_matches_declared_positions_exactly() {
    let text = b"v 1 2 3\nvt 0 0\nv 4 5 6\nvn 1 0 0\nv 7 8 9\n";
    let geometry = parse_geometry(text).unwrap();
    assert_eq!(geometry.positions.len(), 3);
    assert_eq!(geometry.texcoords.len(), 1);
    assert_eq!(geometry.normals.len(), 1);
    assert_eq!(geometry.positions[1].x.text, b"4".to_vec());
    assert_eq!(geometry.positions[2].z.text, b"9".to_vec());
}

#[test]
fn texcoord_comes_from_the_position_not_the_pool() {
    // The declared `vt` values must be ignored: every synthesized vertex
    // derives its texture coordinate from its own position.
    let text = b"vt 0.9 0.9\nv 0.25 0.75 1\nf 1 1 1\n";
    let geometry = parse_geometry(text).unwrap();
    let mesh = Mesh::from_geometry(&geometry, &gray_colors(1)).unwrap();
    let vertex = &mesh.vertices[0];
    assert_eq!(vertex.texcoord.u.text, b"0.25".to_vec());
    assert_eq!(vertex.texcoord.v.text, b"0.75".to_vec());
    assert_eq!(vertex.position.x.text, b"0.25".to_vec());
    assert_eq!(vertex.position.y.text, b"0.75".to_vec());
    assert_eq!(vertex.position.z.text, b"1".to_vec());
}

#[test]
fn normals_are_zero_and_colors_are_taken_from_the_source() {
    let positions = vec![v3("1", "2", "3"), v3("4", "5", "6")];
    let colors = vec![v3("0.1", "0.2", "0.3"), v3("0.4", "0.5", "0.6")];
    let vertices = synthesize_vertices(&positions, &colors);
    assert_eq!(vertices.len(), 2);
    for v in &vertices {
        assert_eq!(v.normal.x.text, b"0".to_vec());
        assert_eq!(v.normal.y.text, b"0".to_vec());
        assert_eq!(v.normal.z.text, b"0".to_vec());
    }
    assert_eq!(vertices[0].color.x.text, b"0.1".to_vec());
    assert_eq!(vertices[1].color.z.text, b"0.6".to_vec());
}

#[test]
fn face_without_any_position_is_out_of_range() {
    // No `v` line at all, yet a face referencing position one: the load
    // must fail with the out-of-range condition.
    let text = b"f 1 1 1\n";
    let geometry = parse_geometry(text).unwrap();
    assert_eq!(geometry.positions.len(), 0);
    let err = Mesh::from_geometry(&geometry, &gray_colors(0)).unwrap_err();
    assert_eq!(err, GeometryError::IndexOutOfRange);
}

#[test]
fn face_referencing_past_the_pool_is_out_of_range() {
    let text = b"v 0 0 0\nv 1 0 0\nv 0 1 0\nf 1 2 4\n";
    let geometry = parse_geometry(text).unwrap();
    let err = Mesh::from_geometry(&geometry, &gray_colors(3)).unwrap_err();
    assert_eq!(err, GeometryError::IndexOutOfRange);
}

#[test]
fn one_bad_line_aborts_the_whole_load() {
    let text = b"v 0 0 0\nv 1 0 0\nv 0 1 0\nf 1 2\nf 1 2 3\n";
    assert_eq!(parse_geometry(text).unwrap_err(), GeometryError::MalformedFace);
    let text2 = b"v 0 0 0\nv oops 0 0\n";
    assert_eq!(parse_geometry(text2).unwrap_err(), GeometryError::MalformedNumber);
}

#[test]
fn faces_emit_in_declaration_order() {
    let faces = vec![Face::Tri(0, 1, 2), Face::Quad(3, 4, 5, 6), Face::Tri(2, 1, 0)];
    let indices = resolve_indices(&faces, 7).unwrap();
    assert_eq!(indices, vec![0, 1, 2, 3, 4, 5, 3, 5, 6, 2, 1, 0]);
}

#[test]
fn resolve_rejects_any_face_out_of_range() {
    let faces = vec![Face::Tri(0, 1, 2), Face::Quad(0, 1, 2, 3)];
    assert_eq!(resolve_indices(&faces, 4).unwrap(), vec![0, 1, 2, 0, 1, 2, 0, 2, 3]);
    assert_eq!(
        resolve_indices(&faces, 3).unwrap_err(),
        GeometryError::IndexOutOfRange
    );
}

#[test]
fn windows_line_endings_are_tolerated() {
    let text = b"v 0 0 0\r\nv 1 0 0\r\nv 1 1 0\r\nf 1 2 3\r\n";
    let geometry = parse_geometry(text).unwrap();
    let mesh = Mesh::from_geometry(&geometry, &gray_colors(3)).unwrap();
    assert_eq!(mesh.indices, vec![0, 1, 2]);
}
