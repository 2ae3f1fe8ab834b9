use scop::mesh::{
    attribute_layout, AttributeSlot, Mesh, SetupStep, Vertex, SCALAR_BYTES, VERTEX_STRIDE_BYTES,
};
use scop::parse::{Num, Vec2, Vec3};
use scop::render::{transpose_mat4, uniform_name, MatrixKind, RenderStep};
use scop::transform::{Axis, Event, Key, ROTATION_DEGREES};

fn num(s: &str) -> Num {
    Num { text: s.as_bytes().to_vec() }
}

fn v3(x: &str, y: &str, z: &str) -> Vec3 {
    Vec3 { x: num(x), y: num(y), z: num(z) }
}

fn unit_mesh() -> Mesh {
    let position = v3("0", "0", "0");
    let texcoord = Vec2 { u: num("0"), v: num("0") };
    let vertex = Vertex::new(position, v3("1", "1", "1"), texcoord);
    Mesh::new(vec![vertex], vec![0, 0, 0])
}

#[test]
fn a_new_mesh_has_the_identity_transform() {
    let mesh = unit_mesh();
    assert!(mesh.model.rotations.is_empty());
}

#[test]
fn non_key_events_leave_the_transform_unchanged() {
    let mut mesh = unit_mesh();
    mesh.update_pos(&Event::Other);
    mesh.update_pos(&Event::KeyDown(Key::Other));
    assert!(mesh.model.rotations.is_empty());

    mesh.update_pos(&Event::KeyDown(Key::A));
    mesh.update_pos(&Event::Other);
    mesh.update_pos(&Event::KeyDown(Key::Other));
    assert_eq!(mesh.model.rotations, vec![Axis::YNeg]);
}

#[test]
fn each_designated_key_appends_its_axis() {
    let mut mesh = unit_mesh();
    mesh.update_pos(&Event::KeyDown(Key::A));
    mesh.update_pos(&Event::KeyDown(Key::D));
    mesh.update_pos(&Event::KeyDown(Key::W));
    mesh.update_pos(&Event::KeyDown(Key::S));
    assert_eq!(
        mesh.model.rotations,
        vec![Axis::YNeg, Axis::YPos, Axis::XNeg, Axis::XPos]
    );
}

#[test]
fn four_presses_compose_four_fixed_rotations() {
    let mut mesh = unit_mesh();
    for _ in 0..4 {
        mesh.update_pos(&Event::KeyDown(Key::D));
    }
    assert_eq!(
        mesh.model.rotations,
        vec![Axis::YPos, Axis::YPos, Axis::YPos, Axis::YPos]
    );
    // Four fixed-angle steps add up to twelve degrees about that one axis.
    assert_eq!(ROTATION_DEGREES * mesh.model.rotations.len() as u32, 12);
}

#[test]
fn axis_directions_match_the_key_bindings() {
    assert_eq!(Axis::YNeg.direction(), (0, -1, 0));
    assert_eq!(Axis::YPos.direction(), (0, 1, 0));
    assert_eq!(Axis::XNeg.direction(), (-1, 0, 0));
    assert_eq!(Axis::XPos.direction(), (1, 0, 0));
}

#[test]
fn the_render_plan_is_the_fixed_protocol() {
    let mesh = unit_mesh();
    let plan = mesh.render_plan();
    assert_eq!(
        plan,
        vec![
            RenderStep::ResolveUniform(MatrixKind::ModelMatrix),
            RenderStep::ResolveUniform(MatrixKind::ViewMatrix),
            RenderStep::ResolveUniform(MatrixKind::ProjectionMatrix),
            RenderStep::UseProgram,
            RenderStep::BindTexture,
            RenderStep::UploadTransposed(MatrixKind::ModelMatrix),
            RenderStep::UploadTransposed(MatrixKind::ViewMatrix),
            RenderStep::UploadTransposed(MatrixKind::ProjectionMatrix),
            RenderStep::BindVertexArray,
            RenderStep::DrawTriangles(3),
            RenderStep::UnbindVertexArray,
        ]
    );
}

#[test]
fn the_setup_plan_uploads_once_and_unbinds() {
    let mesh = unit_mesh();
    let plan = mesh.setup_plan();
    let layout = attribute_layout();
    assert_eq!(
        plan,
        vec![
            SetupStep::BindVertexArray,
            SetupStep::BindVertexBuffer,
            SetupStep::UploadVertices(1),
            SetupStep::BindIndexBuffer,
            SetupStep::UploadIndices(3),
            SetupStep::ConfigureAttribute(layout[0]),
            SetupStep::ConfigureAttribute(layout[1]),
            SetupStep::ConfigureAttribute(layout[2]),
            SetupStep::ConfigureAttribute(layout[3]),
            SetupStep::UnbindVertexArray,
        ]
    );
    assert_eq!(plan.last(), Some(&SetupStep::UnbindVertexArray));
}

#[test]
fn uniform_names_match_the_shader_interface() {
    assert_eq!(uniform_name(&MatrixKind::ModelMatrix), "model");
    assert_eq!(uniform_name(&MatrixKind::ViewMatrix), "view");
    assert_eq!(uniform_name(&MatrixKind::ProjectionMatrix), "projection");
}

#[test]
fn the_vertex_layout_is_packed_in_field_order() {
    let layout = attribute_layout();
    assert_eq!(
        layout,
        vec![
            AttributeSlot { slot: 0, components: 3, byte_offset: 0 },
            AttributeSlot { slot: 1, components: 3, byte_offset: 12 },
            AttributeSlot { slot: 2, components: 2, byte_offset: 24 },
            AttributeSlot { slot: 3, components: 3, byte_offset: 32 },
        ]
    );
    // Packed: each slot starts where the previous one ends, and the
    // stride is the full record.
    let mut expected_offset = 0;
    for a in &layout {
        assert_eq!(a.byte_offset, expected_offset);
        expected_offset += a.components * SCALAR_BYTES;
    }
    assert_eq!(expected_offset, VERTEX_STRIDE_BYTES);
}

#[test]
fn transposing_swaps_rows_and_columns() {
    let m: Vec<u32> = (0..16).collect();
    let t = transpose_mat4(&m);
    assert_eq!(
        t,
        vec![0, 4, 8, 12, 1, 5, 9, 13, 2, 6, 10, 14, 3, 7, 11, 15]
    );
    // Transposing twice gives the matrix back.
    assert_eq!(transpose_mat4(&t), m);
}

#[test]
fn float_payloads_survive_the_transpose() {
    let values: Vec<f32> = (0..16).map(|i| i as f32 * 0.25 - 1.5).collect();
    let m: Vec<u32> = values.iter().map(|f| f.to_bits()).collect();
    let t = transpose_mat4(&m);
    for row in 0..4 {
        for col in 0..4 {
            assert_eq!(f32::from_bits(t[row * 4 + col]), values[col * 4 + row]);
        }
    }
}
