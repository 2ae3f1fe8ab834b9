//! Accumulating parsed lines into a geometry: the attribute pools and the
//! face list of one model, ready for the mesh builder.
//!
//! Parsing a whole text is a fold over its lines that stops at the first
//! error; nothing partial is ever returned.

use vstd::prelude::*;

use crate::parse::{parse_line, spec_classify, Face, Line, LineV, Vec2, Vec3, V2, V3};
use crate::text::{byte_views, spec_lines, split_lines};
use crate::GeometryError;

verus! {

/// The attribute pools and faces declared by a geometry text, in
/// declaration order.  The texture-coordinate and normal pools are kept
/// as declared but are not consulted by the mesh builder, which derives
/// both attributes itself.
#[derive(Debug)]
pub struct Geometry {
    pub positions: Vec<Vec3>,
    pub texcoords: Vec<Vec2>,
    pub normals: Vec<Vec3>,
    pub faces: Vec<Face>,
}

/// The mathematical value of a [`Geometry`].
#[verifier::ext_equal]
pub ghost struct GeomV {
    pub positions: Seq<V3>,
    pub texcoords: Seq<V2>,
    pub normals: Seq<V3>,
    pub faces: Seq<Face>,
}

/// The views of a sequence of three-component vectors.
pub open spec fn v3_views(s: Seq<Vec3>) -> Seq<V3> {
    s.map_values(|p: Vec3| p@)
}

/// The views of a sequence of two-component vectors.
pub open spec fn v2_views(s: Seq<Vec2>) -> Seq<V2> {
    s.map_values(|p: Vec2| p@)
}

impl View for Geometry {
    type V = GeomV;

    open spec fn view(&self) -> GeomV {
        GeomV {
            positions: v3_views(self.positions@),
            texcoords: v2_views(self.texcoords@),
            normals: v3_views(self.normals@),
            faces: self.faces@,
        }
    }
}

/// The geometry of an empty text: everything empty.
pub open spec fn empty_geometry() -> GeomV {
    GeomV {
        positions: Seq::empty(),
        texcoords: Seq::empty(),
        normals: Seq::empty(),
        faces: Seq::empty(),
    }
}

/// How one parsed line extends a geometry.
pub open spec fn geometry_step(g: GeomV, l: LineV) -> GeomV {
    match l {
        LineV::Pos(p) => GeomV { positions: g.positions.push(p), ..g },
        LineV::Tex(t) => GeomV { texcoords: g.texcoords.push(t), ..g },
        LineV::Norm(p) => GeomV { normals: g.normals.push(p), ..g },
        LineV::FaceRef(f) => GeomV { faces: g.faces.push(f), ..g },
        LineV::Blank => g,
    }
}

/// The geometry declared by a sequence of lines: a fold, stopping at the
/// first line that provokes an error.
pub open spec fn spec_geometry(lines: Seq<Seq<u8>>) -> Result<GeomV, GeometryError>
    decreases lines.len(),
{
    if lines.len() == 0 {
        Ok(empty_geometry())
    } else {
        match spec_geometry(lines.drop_last()) {
            Err(e) => Err(e),
            Ok(g) => match spec_classify(lines.last()) {
                Err(e) => Err(e),
                Ok(l) => Ok(geometry_step(g, l)),
            },
        }
    }
}

/// The geometry declared by a whole text.
pub open spec fn spec_parse_geometry(text: Seq<u8>) -> Result<GeomV, GeometryError> {
    spec_geometry(spec_lines(text))
}

/// If every line before `i` parses and line `i` provokes `e`, the whole
/// sequence of lines parses to exactly that error.
proof fn lemma_geometry_error_propagates(lines: Seq<Seq<u8>>, i: int, e: GeometryError)
    requires
        0 <= i < lines.len(),
        spec_geometry(lines.take(i)) is Ok,
        spec_classify(lines[i]) == Err::<LineV, GeometryError>(e),
    ensures
        spec_geometry(lines) == Err::<GeomV, GeometryError>(e),
    decreases lines.len(),
{
    if i == lines.len() - 1 {
        assert(lines.drop_last() =~= lines.take(i));
        assert(lines.last() == lines[i]);
    } else {
        let ll = lines.drop_last();
        assert(ll.take(i) =~= lines.take(i));
        assert(ll[i] == lines[i]);
        lemma_geometry_error_propagates(ll, i, e);
    }
}

/// Parse a whole geometry text, as `spec_parse_geometry` describes.
pub fn parse_geometry(text: &[u8]) -> (r: Result<Geometry, GeometryError>)
    ensures
        match r {
            Ok(g) => spec_parse_geometry(text@) == Ok::<GeomV, GeometryError>(g@),
            Err(e) => spec_parse_geometry(text@) == Err::<GeomV, GeometryError>(e),
        },
{
    let lines = split_lines(text);
    let ghost lsv = spec_lines(text@);
    proof {
        assert(byte_views(lines@) == lsv);
        assert(forall|k: int| 0 <= k < lines@.len() ==> lsv[k] == #[trigger] lines@[k]@);
    }
    let mut g = Geometry {
        positions: Vec::new(),
        texcoords: Vec::new(),
        normals: Vec::new(),
        faces: Vec::new(),
    };
    proof {
        assert(lsv.take(0) =~= Seq::<Seq<u8>>::empty());
        assert(g@ =~= empty_geometry());
    }
    let mut i: usize = 0;
    while i < lines.len()
        invariant
            i <= lines@.len(),
            byte_views(lines@) == lsv,
            lsv == spec_lines(text@),
            forall|k: int| 0 <= k < lines@.len() ==> lsv[k] == #[trigger] lines@[k]@,
            spec_geometry(lsv.take(i as int)) == Ok::<GeomV, GeometryError>(g@),
        decreases lines@.len() - i,
    {
        proof {
            assert(lsv.take(i as int + 1).drop_last() =~= lsv.take(i as int));
            assert(lsv.take(i as int + 1).last() == lsv[i as int]);
        }
        let ghost pre = g@;
        match parse_line(lines[i].as_slice()) {
            Err(e) => {
                proof {
                    lemma_geometry_error_propagates(lsv, i as int, e);
                }
                return Err(e);
            },
            Ok(l) => {
                let ghost lv = l@;
                match l {
                    Line::Position(p) => g.positions.push(p),
                    Line::TexCoord(t) => g.texcoords.push(t),
                    Line::Normal(p) => g.normals.push(p),
                    Line::FaceRef(f) => g.faces.push(f),
                    Line::Ignored => (),
                }
                proof {
                    assert(g@ =~= geometry_step(pre, lv));
                }
            },
        }
        i = i + 1;
    }
    proof {
        assert(lsv.take(lines@.len() as int) =~= lsv);
    }
    Ok(g)
}

/// How many `v` lines a sequence of lines declares.
pub open spec fn count_position_lines(lines: Seq<Seq<u8>>) -> int
    decreases lines.len(),
{
    if lines.len() == 0 {
        0
    } else {
        count_position_lines(lines.drop_last()) + if spec_classify(lines.last()) matches Ok(
            LineV::Pos(_),
        ) {
            1int
        } else {
            0int
        }
    }
}

/// Law: a successfully parsed geometry resolves exactly one position per
/// declared `v` line; together with `parse_geometry`'s contract this pins
/// the vertex pool to the declared positions, in declaration order.
pub proof fn lemma_position_count(lines: Seq<Seq<u8>>, g: GeomV)
    requires
        spec_geometry(lines) == Ok::<GeomV, GeometryError>(g),
    ensures
        g.positions.len() == count_position_lines(lines),
    decreases lines.len(),
{
    if lines.len() == 0 {
        assert(g == empty_geometry());
    } else {
        let r0 = spec_geometry(lines.drop_last());
        assert(r0 is Ok);
        let g0 = r0->Ok_0;
        lemma_position_count(lines.drop_last(), g0);
    }
}

} // verus!
