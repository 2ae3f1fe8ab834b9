//! The per-frame render protocol.
//!
//! Drawing a mesh is a fixed sequence of graphics-state steps; the
//! library decides the sequence and the unverified shell replays it
//! against the graphics context.  Matrices cross that boundary as flat
//! buffers of sixteen opaque scalar payloads, transposed here because the
//! library stores matrices row-major while the upload target expects
//! columns.

use vstd::prelude::*;

verus! {

/// Which of the three transform matrices a step concerns.
#[derive(Clone, Copy, Debug, PartialEq, Eq, Structural)]
pub enum MatrixKind {
    ModelMatrix,
    ViewMatrix,
    ProjectionMatrix,
}

/// One step of the draw protocol, in the order the shell must replay
/// them.
#[derive(Clone, Copy, Debug, PartialEq, Eq, Structural)]
pub enum RenderStep {
    /// Look the matrix's uniform location up in the shader program; a
    /// failed lookup is tolerated by the graphics interface and must not
    /// abort the frame.
    ResolveUniform(MatrixKind),
    /// Make the mesh's shader program current.
    UseProgram,
    /// Bind the mesh's texture to the unit the shader samples.
    BindTexture,
    /// Upload the matrix, transposed, to its resolved location.
    UploadTransposed(MatrixKind),
    /// Bind the mesh's vertex-array object.
    BindVertexArray,
    /// One indexed triangle-list draw call over this many indices.
    DrawTriangles(usize),
    /// Leave no vertex-array binding behind.
    UnbindVertexArray,
}

/// The draw protocol for a mesh with `index_count` indices.
pub open spec fn spec_render_plan(index_count: usize) -> Seq<RenderStep> {
    seq![
        RenderStep::ResolveUniform(MatrixKind::ModelMatrix),
        RenderStep::ResolveUniform(MatrixKind::ViewMatrix),
        RenderStep::ResolveUniform(MatrixKind::ProjectionMatrix),
        RenderStep::UseProgram,
        RenderStep::BindTexture,
        RenderStep::UploadTransposed(MatrixKind::ModelMatrix),
        RenderStep::UploadTransposed(MatrixKind::ViewMatrix),
        RenderStep::UploadTransposed(MatrixKind::ProjectionMatrix),
        RenderStep::BindVertexArray,
        RenderStep::DrawTriangles(index_count),
        RenderStep::UnbindVertexArray,
    ]
}

/// The uniform name each matrix is bound to in the shader.
pub open spec fn spec_uniform_name(k: MatrixKind) -> Seq<char> {
    match k {
        MatrixKind::ModelMatrix => "model"@,
        MatrixKind::ViewMatrix => "view"@,
        MatrixKind::ProjectionMatrix => "projection"@,
    }
}

/// The uniform name to resolve for a matrix.
pub fn uniform_name(k: &MatrixKind) -> (r: &'static str)
    ensures
        r@ == spec_uniform_name(*k),
{
    match k {
        MatrixKind::ModelMatrix => "model",
        MatrixKind::ViewMatrix => "view",
        MatrixKind::ProjectionMatrix => "projection",
    }
}

/// Transpose a four-by-four matrix kept row-major as sixteen opaque
/// scalar payloads: entry `(row, col)` of the result is entry
/// `(col, row)` of the argument.
pub fn transpose_mat4(m: &Vec<u32>) -> (r: Vec<u32>)
    requires
        m@.len() == 16,
    ensures
        r@.len() == 16,
        forall|row: int, col: int|
            0 <= row < 4 && 0 <= col < 4 ==> #[trigger] r@[row * 4 + col] == m@[col * 4 + row],
{
    let mut out: Vec<u32> = Vec::new();
    let mut row: usize = 0;
    while row < 4
        invariant
            row <= 4,
            m@.len() == 16,
            out@.len() == row * 4,
            forall|i: int, j: int|
                0 <= i < row && 0 <= j < 4 ==> #[trigger] out@[i * 4 + j] == m@[j * 4 + i],
        decreases 4 - row,
    {
        let mut col: usize = 0;
        while col < 4
            invariant
                row < 4,
                col <= 4,
                m@.len() == 16,
                out@.len() == row * 4 + col,
                forall|i: int, j: int|
                    0 <= i < row && 0 <= j < 4 ==> #[trigger] out@[i * 4 + j] == m@[j * 4 + i],
                forall|j: int|
                    0 <= j < col ==> #[trigger] out@[row * 4 + j] == m@[j * 4 + row as int],
            decreases 4 - col,
        {
            out.push(m[col * 4 + row]);
            col = col + 1;
        }
        row = row + 1;
    }
    out
}

} // verus!
