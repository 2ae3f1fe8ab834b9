//! The mesh builder and the mesh itself.
//!
//! The builder turns a parsed geometry into flat vertex and index arrays:
//! one vertex record per declared position, in declaration order, and the
//! faces triangulated into an index list (a quad becomes two triangles
//! fanned from its first corner).  A mesh owns those arrays, immutable
//! once built, together with its model transform; per-frame it takes
//! input events and yields the draw protocol.

use vstd::prelude::*;

use crate::geometry::{v3_views, Geometry};
use crate::parse::{Face, Num, Vec2, Vec3, V2, V3};
use crate::render::{spec_render_plan, RenderStep};
use crate::transform::{spec_update, Axis, Event, Transform};
use crate::GeometryError;

verus! {

/// One GPU-ready vertex record.  Its fields are laid out, in this order,
/// as the vertex attribute slots the shader reads: position, normal,
/// texture coordinate, color.
#[derive(Debug)]
pub struct Vertex {
    pub position: Vec3,
    pub normal: Vec3,
    pub texcoord: Vec2,
    pub color: Vec3,
}

/// The mathematical value of a [`Vertex`].
#[verifier::ext_equal]
pub ghost struct VertexV {
    pub position: V3,
    pub normal: V3,
    pub texcoord: V2,
    pub color: V3,
}

impl View for Vertex {
    type V = VertexV;

    open spec fn view(&self) -> VertexV {
        VertexV {
            position: self.position@,
            normal: self.normal@,
            texcoord: self.texcoord@,
            color: self.color@,
        }
    }
}

/// The numeral zero.
pub open spec fn zero_numeral() -> Seq<u8> {
    seq![48u8]
}

/// The zero vector, as numerals.
pub open spec fn zero_v3() -> V3 {
    V3 { x: zero_numeral(), y: zero_numeral(), z: zero_numeral() }
}

/// The vertex synthesized for a declared position: the position itself, a
/// zero normal (no normal is ever computed from the geometry), a texture
/// coordinate derived from the position's first two components — the
/// declared texture-coordinate pool is deliberately not consulted — and
/// the color drawn for this vertex at load time.
pub open spec fn spec_vertex(p: V3, c: V3) -> VertexV {
    VertexV { position: p, normal: zero_v3(), texcoord: V2 { u: p.x, v: p.y }, color: c }
}

fn zero_num() -> (r: Num)
    ensures
        r@ == zero_numeral(),
{
    let mut t: Vec<u8> = Vec::new();
    t.push(48);
    proof {
        assert(t@ =~= zero_numeral());
    }
    Num { text: t }
}

impl Vertex {
    /// The record for one position: the given position, color and texture
    /// coordinate, and a zero normal.
    pub fn new(position: Vec3, color: Vec3, texcoord: Vec2) -> (r: Vertex)
        ensures
            r@ == (VertexV {
                position: position@,
                normal: zero_v3(),
                texcoord: texcoord@,
                color: color@,
            }),
    {
        let normal = Vec3 { x: zero_num(), y: zero_num(), z: zero_num() };
        proof {
            assert(normal@ =~= zero_v3());
        }
        Vertex { position, normal, texcoord, color }
    }
}

/// The size in bytes of one scalar component as the GPU stores it.
pub const SCALAR_BYTES: u32 = 4;

/// The byte stride of one packed vertex record: eleven scalars, no
/// padding.
pub const VERTEX_STRIDE_BYTES: u32 = 44;

/// One vertex attribute slot of the shader interface.
#[derive(Clone, Copy, Debug, PartialEq, Eq, Structural)]
pub struct AttributeSlot {
    /// The slot's index in the shader.
    pub slot: u32,
    /// How many scalar components the attribute has.
    pub components: u32,
    /// Where the attribute starts inside one packed record.
    pub byte_offset: u32,
}

/// The four attribute slots of a vertex record, in field order: position,
/// normal, texture coordinate, color.
pub open spec fn spec_attribute_layout() -> Seq<AttributeSlot> {
    seq![
        AttributeSlot { slot: 0, components: 3, byte_offset: 0 },
        AttributeSlot { slot: 1, components: 3, byte_offset: 12 },
        AttributeSlot { slot: 2, components: 2, byte_offset: 24 },
        AttributeSlot { slot: 3, components: 3, byte_offset: 32 },
    ]
}

/// The attribute layout the shell configures the vertex buffer with.
pub fn attribute_layout() -> (r: Vec<AttributeSlot>)
    ensures
        r@ == spec_attribute_layout(),
{
    let mut out: Vec<AttributeSlot> = Vec::new();
    out.push(AttributeSlot { slot: 0, components: 3, byte_offset: 0 });
    out.push(AttributeSlot { slot: 1, components: 3, byte_offset: 12 });
    out.push(AttributeSlot { slot: 2, components: 2, byte_offset: 24 });
    out.push(AttributeSlot { slot: 3, components: 3, byte_offset: 32 });
    proof {
        assert(out@ =~= spec_attribute_layout());
    }
    out
}

/// One step of the one-time GPU setup protocol a freshly built mesh goes
/// through, in the order the shell must replay them.
#[derive(Clone, Copy, Debug, PartialEq, Eq, Structural)]
pub enum SetupStep {
    /// Bind the mesh's vertex-array object, so that the buffer bindings
    /// and attribute pointers below are recorded in it.
    BindVertexArray,
    /// Bind the vertex buffer.
    BindVertexBuffer,
    /// Upload this many vertex records as static, upload-once data.
    UploadVertices(usize),
    /// Bind the index buffer.
    BindIndexBuffer,
    /// Upload this many indices as static, upload-once data.
    UploadIndices(usize),
    /// Enable one attribute slot and point it into the packed record.
    ConfigureAttribute(AttributeSlot),
    /// Leave no vertex-array binding behind once setup is done.
    UnbindVertexArray,
}

/// The setup protocol for a mesh with the given vertex and index counts:
/// bind, upload both arrays once, configure the four packed attribute
/// slots, and unbind.
pub open spec fn spec_setup_plan(vertex_count: usize, index_count: usize) -> Seq<SetupStep> {
    seq![
        SetupStep::BindVertexArray,
        SetupStep::BindVertexBuffer,
        SetupStep::UploadVertices(vertex_count),
        SetupStep::BindIndexBuffer,
        SetupStep::UploadIndices(index_count),
        SetupStep::ConfigureAttribute(spec_attribute_layout()[0]),
        SetupStep::ConfigureAttribute(spec_attribute_layout()[1]),
        SetupStep::ConfigureAttribute(spec_attribute_layout()[2]),
        SetupStep::ConfigureAttribute(spec_attribute_layout()[3]),
        SetupStep::UnbindVertexArray,
    ]
}

/// Law: the attribute layout is packed in field order — the first
/// attribute starts at offset zero, each further one starts exactly where
/// the one before it ends, and the record stride is where the last one
/// ends.  This is the invariant the GPU attribute pointers rely on.
pub proof fn lemma_layout_is_packed()
    ensures
        spec_attribute_layout().len() == 4,
        forall|i: int| 0 <= i < 4 ==> (#[trigger] spec_attribute_layout()[i]).slot == i,
        spec_attribute_layout()[0].byte_offset == 0,
        forall|i: int|
            0 <= i < 3 ==> (#[trigger] spec_attribute_layout()[i + 1]).byte_offset
                == spec_attribute_layout()[i].byte_offset + spec_attribute_layout()[i].components
                * SCALAR_BYTES,
        spec_attribute_layout()[3].byte_offset + spec_attribute_layout()[3].components
            * SCALAR_BYTES == VERTEX_STRIDE_BYTES,
{
    assert forall|i: int|
        0 <= i < 3 implies (#[trigger] spec_attribute_layout()[i + 1]).byte_offset
        == spec_attribute_layout()[i].byte_offset + spec_attribute_layout()[i].components
        * SCALAR_BYTES by {
        assert(0 <= i < 3);
    }
}

/// Synthesize one vertex record per declared position, in declaration
/// order, colored by the matching entry of `colors`.
pub fn synthesize_vertices(positions: &Vec<Vec3>, colors: &Vec<Vec3>) -> (r: Vec<Vertex>)
    requires
        colors@.len() == positions@.len(),
    ensures
        r@.len() == positions@.len(),
        forall|i: int|
            0 <= i < r@.len() ==> (#[trigger] r@[i])@ == spec_vertex(
                v3_views(positions@)[i],
                v3_views(colors@)[i],
            ),
{
    let mut out: Vec<Vertex> = Vec::new();
    let mut i: usize = 0;
    while i < positions.len()
        invariant
            i <= positions@.len() == colors@.len(),
            out@.len() == i,
            forall|k: int|
                0 <= k < i ==> (#[trigger] out@[k])@ == spec_vertex(
                    v3_views(positions@)[k],
                    v3_views(colors@)[k],
                ),
        decreases positions@.len() - i,
    {
        let p = positions[i].duplicate();
        let texcoord = Vec2 { u: p.x.duplicate(), v: p.y.duplicate() };
        let v = Vertex::new(p, colors[i].duplicate(), texcoord);
        proof {
            assert(v@ == spec_vertex(v3_views(positions@)[i as int], v3_views(colors@)[i as int]));
        }
        out.push(v);
        i = i + 1;
    }
    out
}

/// The indices one face emits: a triangle as it stands, a quad as two
/// triangles fanned from its first corner and sharing its first-to-third
/// diagonal.
pub open spec fn emitted_indices(f: Face) -> Seq<u32> {
    match f {
        Face::Tri(a, b, c) => seq![a, b, c],
        Face::Quad(a, b, c, d) => seq![a, b, c, a, c, d],
    }
}

/// The indices of all faces, in face order.
pub open spec fn all_emitted_indices(faces: Seq<Face>) -> Seq<u32>
    decreases faces.len(),
{
    if faces.len() == 0 {
        Seq::empty()
    } else {
        all_emitted_indices(faces.drop_last()) + emitted_indices(faces.last())
    }
}

/// Every corner of `f` references one of `n` resolved vertices.
pub open spec fn face_in_range(f: Face, n: int) -> bool {
    match f {
        Face::Tri(a, b, c) => a < n && b < n && c < n,
        Face::Quad(a, b, c, d) => a < n && b < n && c < n && d < n,
    }
}

/// Every face references only resolved vertices.
pub open spec fn faces_in_range(faces: Seq<Face>, n: int) -> bool {
    forall|i: int| 0 <= i < faces.len() ==> face_in_range(#[trigger] faces[i], n)
}

/// Emit the flat index array of all faces, in face order, after checking
/// every reference against the resolved vertex count.
pub fn resolve_indices(faces: &Vec<Face>, vertex_count: usize) -> (r: Result<
    Vec<u32>,
    GeometryError,
>)
    ensures
        match r {
            Ok(ix) => faces_in_range(faces@, vertex_count as int) && ix@ == all_emitted_indices(
                faces@,
            ),
            Err(e) => e == GeometryError::IndexOutOfRange && !faces_in_range(
                faces@,
                vertex_count as int,
            ),
        },
{
    let mut out: Vec<u32> = Vec::new();
    let mut i: usize = 0;
    while i < faces.len()
        invariant
            i <= faces@.len(),
            forall|k: int| 0 <= k < i ==> face_in_range(#[trigger] faces@[k], vertex_count as int),
            out@ == all_emitted_indices(faces@.take(i as int)),
        decreases faces@.len() - i,
    {
        let f = faces[i];
        let in_range = match f {
            Face::Tri(a, b, c) => {
                (a as usize) < vertex_count && (b as usize) < vertex_count && (c as usize)
                    < vertex_count
            },
            Face::Quad(a, b, c, d) => {
                (a as usize) < vertex_count && (b as usize) < vertex_count && (c as usize)
                    < vertex_count && (d as usize) < vertex_count
            },
        };
        if !in_range {
            assert(!face_in_range(faces@[i as int], vertex_count as int));
            return Err(GeometryError::IndexOutOfRange);
        }
        match f {
            Face::Tri(a, b, c) => {
                out.push(a);
                out.push(b);
                out.push(c);
            },
            Face::Quad(a, b, c, d) => {
                out.push(a);
                out.push(b);
                out.push(c);
                out.push(a);
                out.push(c);
                out.push(d);
            },
        }
        proof {
            assert(faces@.take(i as int + 1).drop_last() =~= faces@.take(i as int));
            assert(out@ =~= all_emitted_indices(faces@.take(i as int)) + emitted_indices(
                faces@[i as int],
            ));
        }
        i = i + 1;
    }
    proof {
        assert(faces@.take(faces@.len() as int) =~= faces@);
    }
    Ok(out)
}

/// Law: with no position resolved, any face at all — in particular one
/// referencing the first position — is out of range, so resolving the
/// indices of a geometry with faces but no positions always fails.
pub proof fn lemma_faces_without_positions(faces: Seq<Face>)
    requires
        faces.len() >= 1,
    ensures
        !faces_in_range(faces, 0),
{
    assert(!face_in_range(faces[0], 0));
}

/// A mesh: the resolved vertex and index arrays, immutable once built,
/// and the model transform that input events rotate.  The graphics
/// handles that shadow these arrays live in the unverified shell.
#[derive(Debug)]
pub struct Mesh {
    pub vertices: Vec<Vertex>,
    pub indices: Vec<u32>,
    pub model: Transform,
}

impl Mesh {
    /// A mesh over raw vertex and index arrays, with the identity
    /// transform.
    pub fn new(vertices: Vec<Vertex>, indices: Vec<u32>) -> (r: Mesh)
        ensures
            r.vertices == vertices,
            r.indices == indices,
            r.model.rotations@ == Seq::<Axis>::empty(),
    {
        Mesh { vertices, indices, model: Transform::identity() }
    }

    /// Build a mesh from a parsed geometry and one color per declared
    /// position: synthesize the vertices, then resolve every face against
    /// the vertex count and emit the index array.
    pub fn from_geometry(geometry: &Geometry, colors: &Vec<Vec3>) -> (r: Result<
        Mesh,
        GeometryError,
    >)
        requires
            colors@.len() == geometry.positions@.len(),
        ensures
            match r {
                Ok(m) => {
                    &&& faces_in_range(geometry@.faces, geometry@.positions.len() as int)
                    &&& m.vertices@.len() == geometry@.positions.len()
                    &&& forall|i: int|
                        0 <= i < m.vertices@.len() ==> (#[trigger] m.vertices@[i])@ == spec_vertex(
                            geometry@.positions[i],
                            v3_views(colors@)[i],
                        )
                    &&& m.indices@ == all_emitted_indices(geometry@.faces)
                    &&& m.model.rotations@ == Seq::<Axis>::empty()
                },
                Err(e) => e == GeometryError::IndexOutOfRange && !faces_in_range(
                    geometry@.faces,
                    geometry@.positions.len() as int,
                ),
            },
    {
        let vertices = synthesize_vertices(&geometry.positions, colors);
        let indices = match resolve_indices(&geometry.faces, vertices.len()) {
            Ok(ix) => ix,
            Err(e) => {
                return Err(e);
            },
        };
        Ok(Mesh::new(vertices, indices))
    }

    /// Apply one input event to the model transform, as `spec_update`
    /// describes; the mesh data itself never changes.
    pub fn update_pos(&mut self, event: &Event)
        ensures
            final(self).model.rotations@ == spec_update(old(self).model.rotations@, *event),
            final(self).vertices == old(self).vertices,
            final(self).indices == old(self).indices,
    {
        self.model.apply_event(event);
    }

    /// The one-time GPU setup protocol for this mesh, as
    /// `spec_setup_plan` describes: both arrays uploaded once, the four
    /// attribute slots configured against the packed record layout, and
    /// no binding left behind.
    pub fn setup_plan(&self) -> (r: Vec<SetupStep>)
        ensures
            r@ == spec_setup_plan(self.vertices@.len() as usize, self.indices@.len() as usize),
    {
        let layout = attribute_layout();
        let mut out: Vec<SetupStep> = Vec::new();
        out.push(SetupStep::BindVertexArray);
        out.push(SetupStep::BindVertexBuffer);
        out.push(SetupStep::UploadVertices(self.vertices.len()));
        out.push(SetupStep::BindIndexBuffer);
        out.push(SetupStep::UploadIndices(self.indices.len()));
        out.push(SetupStep::ConfigureAttribute(layout[0]));
        out.push(SetupStep::ConfigureAttribute(layout[1]));
        out.push(SetupStep::ConfigureAttribute(layout[2]));
        out.push(SetupStep::ConfigureAttribute(layout[3]));
        out.push(SetupStep::UnbindVertexArray);
        proof {
            assert(out@ =~= spec_setup_plan(
                self.vertices@.len() as usize,
                self.indices@.len() as usize,
            ));
        }
        out
    }

    /// The draw protocol for this mesh: exactly the fixed step sequence,
    /// with one indexed triangle-list draw call over the whole index
    /// array.
    pub fn render_plan(&self) -> (r: Vec<RenderStep>)
        ensures
            r@ == spec_render_plan(self.indices@.len() as usize),
    {
        let mut out: Vec<RenderStep> = Vec::new();
        out.push(RenderStep::ResolveUniform(crate::render::MatrixKind::ModelMatrix));
        out.push(RenderStep::ResolveUniform(crate::render::MatrixKind::ViewMatrix));
        out.push(RenderStep::ResolveUniform(crate::render::MatrixKind::ProjectionMatrix));
        out.push(RenderStep::UseProgram);
        out.push(RenderStep::BindTexture);
        out.push(RenderStep::UploadTransposed(crate::render::MatrixKind::ModelMatrix));
        out.push(RenderStep::UploadTransposed(crate::render::MatrixKind::ViewMatrix));
        out.push(RenderStep::UploadTransposed(crate::render::MatrixKind::ProjectionMatrix));
        out.push(RenderStep::BindVertexArray);
        out.push(RenderStep::DrawTriangles(self.indices.len()));
        out.push(RenderStep::UnbindVertexArray);
        proof {
            assert(out@ =~= spec_render_plan(self.indices@.len() as usize));
        }
        out
    }
}

} // verus!
