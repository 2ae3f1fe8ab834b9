//! The face parser and the geometry accumulator.
//!
//! One line of geometry text declares a position (`v x y z`), a texture
//! coordinate (`vt u v`), a normal (`vn x y z`) or a face
//! (`f c1 c2 c3 [c4]`); a blank line, or one with any other leading token,
//! is ignored.  A face corner is either a bare position index or a
//! `/`-delimited triple of which only the position part is consulted.
//! Indices count from one in the text and are stored zero-based.  Every
//! line shape is pinned by a specification function, and whole-text
//! parsing is a fold over the lines that stops at the first error.

use vstd::prelude::*;

use crate::numeral::{
    dec_val, is_coord_numeral, is_index_numeral, check_coord_numeral, parse_index_prefix,
};
use crate::text::{byte_views, spec_tokens, tokenize};
use crate::GeometryError;

verus! {

/// One numeric field, kept as its validated source text.  The unverified
/// shell turns it into a machine float at the GPU boundary.
#[derive(Debug)]
pub struct Num {
    pub text: Vec<u8>,
}

impl View for Num {
    type V = Seq<u8>;

    open spec fn view(&self) -> Seq<u8> {
        self.text@
    }
}

impl Num {
    /// An equal numeral in fresh storage.
    pub fn duplicate(&self) -> (r: Num)
        ensures
            r@ == self@,
    {
        Num { text: copy_bytes(&self.text) }
    }
}

/// A three-component vector of numerals.
#[derive(Debug)]
pub struct Vec3 {
    pub x: Num,
    pub y: Num,
    pub z: Num,
}

impl Vec3 {
    /// An equal vector in fresh storage.
    pub fn duplicate(&self) -> (r: Vec3)
        ensures
            r@ == self@,
    {
        Vec3 { x: self.x.duplicate(), y: self.y.duplicate(), z: self.z.duplicate() }
    }
}

/// The mathematical value of a [`Vec3`]: its three numeral texts.
#[verifier::ext_equal]
pub ghost struct V3 {
    pub x: Seq<u8>,
    pub y: Seq<u8>,
    pub z: Seq<u8>,
}

impl View for Vec3 {
    type V = V3;

    open spec fn view(&self) -> V3 {
        V3 { x: self.x@, y: self.y@, z: self.z@ }
    }
}

/// A two-component vector of numerals.
#[derive(Debug)]
pub struct Vec2 {
    pub u: Num,
    pub v: Num,
}

/// The mathematical value of a [`Vec2`].
#[verifier::ext_equal]
pub ghost struct V2 {
    pub u: Seq<u8>,
    pub v: Seq<u8>,
}

impl View for Vec2 {
    type V = V2;

    open spec fn view(&self) -> V2 {
        V2 { u: self.u@, v: self.v@ }
    }
}

/// A face, with zero-based position indices: a triangle or a quad.
#[derive(Clone, Copy, Debug, PartialEq, Eq, Structural)]
pub enum Face {
    Tri(u32, u32, u32),
    Quad(u32, u32, u32, u32),
}

/// What one line of geometry text declares.
#[derive(Debug)]
pub enum Line {
    Position(Vec3),
    TexCoord(Vec2),
    Normal(Vec3),
    FaceRef(Face),
    Ignored,
}

/// The mathematical value of a [`Line`].
#[verifier::ext_equal]
pub ghost enum LineV {
    Pos(V3),
    Tex(V2),
    Norm(V3),
    FaceRef(Face),
    Blank,
}

impl View for Line {
    type V = LineV;

    open spec fn view(&self) -> LineV {
        match self {
            Line::Position(p) => LineV::Pos(p@),
            Line::TexCoord(t) => LineV::Tex(t@),
            Line::Normal(n) => LineV::Norm(n@),
            Line::FaceRef(f) => LineV::FaceRef(*f),
            Line::Ignored => LineV::Blank,
        }
    }
}

/// The leading token of a position line.
pub open spec fn kw_position() -> Seq<u8> {
    seq![118u8]
}

/// The leading token of a texture-coordinate line.
pub open spec fn kw_texcoord() -> Seq<u8> {
    seq![118u8, 116u8]
}

/// The leading token of a normal line.
pub open spec fn kw_normal() -> Seq<u8> {
    seq![118u8, 110u8]
}

/// The leading token of a face line.
pub open spec fn kw_face() -> Seq<u8> {
    seq![102u8]
}

/// The length of the corner token's position part: everything before the
/// first slash, or the whole token if it has none.
pub open spec fn corner_prefix_len(t: Seq<u8>) -> int
    decreases t.len(),
{
    if t.len() == 0 {
        0
    } else if t[0] == 47 {
        0
    } else {
        1 + corner_prefix_len(t.drop_first())
    }
}

/// The position part of a corner token.
pub open spec fn corner_numeral(t: Seq<u8>) -> Seq<u8> {
    t.take(corner_prefix_len(t))
}

/// `corner_prefix_len` is exactly the index of the first slash, or the
/// token length if there is none.
proof fn lemma_corner_prefix_len_at(t: Seq<u8>, j: int)
    requires
        0 <= j <= t.len(),
        forall|k: int| 0 <= k < j ==> t[k] != 47,
        j == t.len() || t[j] == 47,
    ensures
        corner_prefix_len(t) == j,
    decreases t.len(),
{
    if t.len() == 0 {
    } else if t[0] == 47 {
        assert(j == 0);
    } else {
        assert(j >= 1);
        assert(forall|k: int| 0 <= k < j - 1 ==> #[trigger] t.drop_first()[k] == t[k + 1]);
        lemma_corner_prefix_len_at(t.drop_first(), j - 1);
    }
}

/// Does the token hold a slash anywhere?
pub open spec fn has_slash(t: Seq<u8>) -> bool {
    exists|k: int| 0 <= k < t.len() && t[k] == 47
}

/// The part of a corner token that carries the position index.  A face
/// whose first corner is slash-delimited reads every corner's part
/// before the first slash; in a face of bare corners the whole token is
/// the index, so a stray slash makes it malformed.
pub open spec fn corner_part(t: Seq<u8>, composite: bool) -> Seq<u8> {
    if composite {
        corner_numeral(t)
    } else {
        t
    }
}

/// What one corner token resolves to: its zero-based index, or the error
/// the token provokes.  An index numeral of zero is already out of range,
/// since the text counts from one.
pub open spec fn spec_corner(t: Seq<u8>, composite: bool) -> Result<u32, GeometryError> {
    let p = corner_part(t, composite);
    if !is_index_numeral(p) {
        Err(GeometryError::MalformedNumber)
    } else if dec_val(p) == 0 {
        Err(GeometryError::IndexOutOfRange)
    } else {
        Ok((dec_val(p) - 1) as u32)
    }
}

/// Resolve the corner tokens of a face, left to right, stopping at the
/// first bad one.
pub open spec fn spec_corners(ts: Seq<Seq<u8>>, composite: bool) -> Result<Seq<u32>, GeometryError>
    decreases ts.len(),
{
    if ts.len() == 0 {
        Ok(Seq::empty())
    } else {
        match spec_corner(ts[0], composite) {
            Err(e) => Err(e),
            Ok(v) => match spec_corners(ts.drop_first(), composite) {
                Err(e) => Err(e),
                Ok(rest) => Ok(seq![v] + rest),
            },
        }
    }
}

/// What a face line yields: a triangle for three corner tokens, a quad
/// for four, and a malformed-face error for any other corner count.  The
/// first corner token decides for the whole face whether corners are
/// slash-delimited.
pub open spec fn spec_face_line(ts: Seq<Seq<u8>>) -> Result<LineV, GeometryError> {
    if ts.len() != 4 && ts.len() != 5 {
        Err(GeometryError::MalformedFace)
    } else {
        match spec_corners(ts.skip(1), has_slash(ts[1])) {
            Err(e) => Err(e),
            Ok(ids) => if ts.len() == 4 {
                Ok(LineV::FaceRef(Face::Tri(ids[0], ids[1], ids[2])))
            } else {
                Ok(LineV::FaceRef(Face::Quad(ids[0], ids[1], ids[2], ids[3])))
            },
        }
    }
}

/// What one line of text declares, or the error it provokes.  A line
/// whose leading token is none of the four keywords is ignored, as is a
/// blank line.  Coordinate lines need three (two for `vt`) well-formed
/// coordinate numerals right after the keyword; extra tokens are ignored.
pub open spec fn spec_classify(line: Seq<u8>) -> Result<LineV, GeometryError> {
    let ts = spec_tokens(line);
    if ts.len() == 0 {
        Ok(LineV::Blank)
    } else if ts[0] == kw_position() {
        if ts.len() >= 4 && is_coord_numeral(ts[1]) && is_coord_numeral(ts[2]) && is_coord_numeral(
            ts[3],
        ) {
            Ok(LineV::Pos(V3 { x: ts[1], y: ts[2], z: ts[3] }))
        } else {
            Err(GeometryError::MalformedNumber)
        }
    } else if ts[0] == kw_texcoord() {
        if ts.len() >= 3 && is_coord_numeral(ts[1]) && is_coord_numeral(ts[2]) {
            Ok(LineV::Tex(V2 { u: ts[1], v: ts[2] }))
        } else {
            Err(GeometryError::MalformedNumber)
        }
    } else if ts[0] == kw_normal() {
        if ts.len() >= 4 && is_coord_numeral(ts[1]) && is_coord_numeral(ts[2]) && is_coord_numeral(
            ts[3],
        ) {
            Ok(LineV::Norm(V3 { x: ts[1], y: ts[2], z: ts[3] }))
        } else {
            Err(GeometryError::MalformedNumber)
        }
    } else if ts[0] == kw_face() {
        spec_face_line(ts)
    } else {
        Ok(LineV::Blank)
    }
}

/// The one-based position index a corner token carries.
pub open spec fn corner_value(t: Seq<u8>, composite: bool) -> int {
    dec_val(corner_part(t, composite))
}

/// A corner token that resolves: its position part is a well-formed index
/// numeral with a value of at least one.
pub open spec fn valid_corner(t: Seq<u8>, composite: bool) -> bool {
    is_index_numeral(corner_part(t, composite)) && corner_value(t, composite) >= 1
}

proof fn lemma_keyword_heads(ts: Seq<Seq<u8>>)
    requires
        ts.len() >= 1,
        ts[0] == kw_face(),
    ensures
        ts[0] != kw_position(),
        ts[0] != kw_texcoord(),
        ts[0] != kw_normal(),
{
    assert(ts[0] != kw_position()) by {
        if ts[0] == kw_position() {
            assert(kw_face()[0] == kw_position()[0]);
        }
    }
    assert(ts[0] != kw_texcoord()) by {
        if ts[0] == kw_texcoord() {
            assert(kw_face().len() == kw_texcoord().len());
        }
    }
    assert(ts[0] != kw_normal()) by {
        if ts[0] == kw_normal() {
            assert(kw_face().len() == kw_normal().len());
        }
    }
}

/// Law: a face line of exactly three valid corners `a b c` yields the
/// triangle whose emitted indices are the one-based corner values each
/// lowered by one, in corner order.
pub proof fn lemma_triangle_face(line: Seq<u8>, ta: Seq<u8>, tb: Seq<u8>, tc: Seq<u8>)
    requires
        spec_tokens(line) == seq![kw_face(), ta, tb, tc],
        valid_corner(ta, has_slash(ta)),
        valid_corner(tb, has_slash(ta)),
        valid_corner(tc, has_slash(ta)),
    ensures
        spec_classify(line) == Ok::<LineV, GeometryError>(LineV::FaceRef(Face::Tri(
            (corner_value(ta, has_slash(ta)) - 1) as u32,
            (corner_value(tb, has_slash(ta)) - 1) as u32,
            (corner_value(tc, has_slash(ta)) - 1) as u32,
        ))),
{
    let ts = spec_tokens(line);
    lemma_keyword_heads(ts);
    let m = has_slash(ta);
    let a = (corner_value(ta, m) - 1) as u32;
    let b = (corner_value(tb, m) - 1) as u32;
    let c = (corner_value(tc, m) - 1) as u32;
    assert(spec_corner(ta, m) == Ok::<u32, GeometryError>(a));
    assert(spec_corner(tb, m) == Ok::<u32, GeometryError>(b));
    assert(spec_corner(tc, m) == Ok::<u32, GeometryError>(c));
    let cs = ts.skip(1);
    assert(cs =~= seq![ta, tb, tc]);
    assert(ts[1] == ta);
    assert(cs.drop_first() =~= seq![tb, tc]);
    assert(seq![tb, tc].drop_first() =~= seq![tc]);
    assert(seq![tc].drop_first() =~= Seq::<Seq<u8>>::empty());
    assert(spec_corners(Seq::empty(), m) == Ok::<Seq<u32>, GeometryError>(Seq::empty()));
    assert(spec_corners(seq![tc], m) == Ok::<Seq<u32>, GeometryError>(seq![c] + Seq::empty()));
    assert(spec_corners(seq![tb, tc], m) == Ok::<Seq<u32>, GeometryError>(
        seq![b] + (seq![c] + Seq::empty()),
    ));
    assert(spec_corners(cs, m) == Ok::<Seq<u32>, GeometryError>(
        seq![a] + (seq![b] + (seq![c] + Seq::empty())),
    ));
    assert(seq![a] + (seq![b] + (seq![c] + Seq::<u32>::empty())) =~= seq![a, b, c]);
}

/// Law: a face line of exactly four valid corners `a b c d` yields the
/// quad that emits six indices — the two triangles `(a-1, b-1, c-1)` and
/// `(a-1, c-1, d-1)`, sharing the `a`-to-`c` diagonal.
pub proof fn lemma_quad_face(line: Seq<u8>, ta: Seq<u8>, tb: Seq<u8>, tc: Seq<u8>, td: Seq<u8>)
    requires
        spec_tokens(line) == seq![kw_face(), ta, tb, tc, td],
        valid_corner(ta, has_slash(ta)),
        valid_corner(tb, has_slash(ta)),
        valid_corner(tc, has_slash(ta)),
        valid_corner(td, has_slash(ta)),
    ensures
        spec_classify(line) == Ok::<LineV, GeometryError>(LineV::FaceRef(Face::Quad(
            (corner_value(ta, has_slash(ta)) - 1) as u32,
            (corner_value(tb, has_slash(ta)) - 1) as u32,
            (corner_value(tc, has_slash(ta)) - 1) as u32,
            (corner_value(td, has_slash(ta)) - 1) as u32,
        ))),
{
    let ts = spec_tokens(line);
    lemma_keyword_heads(ts);
    let m = has_slash(ta);
    let a = (corner_value(ta, m) - 1) as u32;
    let b = (corner_value(tb, m) - 1) as u32;
    let c = (corner_value(tc, m) - 1) as u32;
    let d = (corner_value(td, m) - 1) as u32;
    assert(spec_corner(ta, m) == Ok::<u32, GeometryError>(a));
    assert(spec_corner(tb, m) == Ok::<u32, GeometryError>(b));
    assert(spec_corner(tc, m) == Ok::<u32, GeometryError>(c));
    assert(spec_corner(td, m) == Ok::<u32, GeometryError>(d));
    let cs = ts.skip(1);
    assert(cs =~= seq![ta, tb, tc, td]);
    assert(ts[1] == ta);
    assert(cs.drop_first() =~= seq![tb, tc, td]);
    assert(seq![tb, tc, td].drop_first() =~= seq![tc, td]);
    assert(seq![tc, td].drop_first() =~= seq![td]);
    assert(seq![td].drop_first() =~= Seq::<Seq<u8>>::empty());
    assert(spec_corners(Seq::empty(), m) == Ok::<Seq<u32>, GeometryError>(Seq::empty()));
    assert(spec_corners(seq![td], m) == Ok::<Seq<u32>, GeometryError>(seq![d] + Seq::empty()));
    assert(spec_corners(seq![tc, td], m) == Ok::<Seq<u32>, GeometryError>(
        seq![c] + (seq![d] + Seq::empty()),
    ));
    assert(spec_corners(seq![tb, tc, td], m) == Ok::<Seq<u32>, GeometryError>(
        seq![b] + (seq![c] + (seq![d] + Seq::empty())),
    ));
    assert(spec_corners(cs, m) == Ok::<Seq<u32>, GeometryError>(
        seq![a] + (seq![b] + (seq![c] + (seq![d] + Seq::empty()))),
    ));
    assert(seq![a] + (seq![b] + (seq![c] + (seq![d] + Seq::<u32>::empty()))) =~= seq![a, b, c, d]);
}

/// Law: a face line with any corner count other than three or four — two
/// corners, five, or more — is rejected as a malformed face, whatever its
/// corner tokens hold.
pub proof fn lemma_bad_corner_count(line: Seq<u8>)
    requires
        spec_tokens(line).len() >= 1,
        spec_tokens(line)[0] == kw_face(),
        spec_tokens(line).len() != 4,
        spec_tokens(line).len() != 5,
    ensures
        spec_classify(line) == Err::<LineV, GeometryError>(GeometryError::MalformedFace),
{
    lemma_keyword_heads(spec_tokens(line));
}

/// Copy a byte vector.
fn copy_bytes(v: &Vec<u8>) -> (r: Vec<u8>)
    ensures
        r@ == v@,
{
    let mut out: Vec<u8> = Vec::new();
    let mut i: usize = 0;
    while i < v.len()
        invariant
            i <= v@.len(),
            out@ == v@.take(i as int),
        decreases v@.len() - i,
    {
        out.push(v[i]);
        proof {
            assert(v@.take(i as int + 1).drop_last() =~= v@.take(i as int));
            assert(out@ =~= v@.take(i as int + 1));
        }
        i = i + 1;
    }
    proof {
        assert(v@.take(v@.len() as int) =~= v@);
    }
    out
}

/// Does the token hold a slash anywhere?
fn contains_slash(t: &Vec<u8>) -> (r: bool)
    ensures
        r == has_slash(t@),
{
    let mut j: usize = 0;
    while j < t.len()
        invariant
            j <= t@.len(),
            forall|k: int| 0 <= k < j ==> t@[k] != 47,
        decreases t@.len() - j,
    {
        if t[j] == 47 {
            return true;
        }
        j = j + 1;
    }
    false
}

/// Resolve one corner token, as `spec_corner` describes.
fn parse_corner(t: &Vec<u8>, composite: bool) -> (r: Result<u32, GeometryError>)
    ensures
        r == spec_corner(t@, composite),
{
    let n: usize = t.len();
    let mut j: usize = n;
    if composite {
        j = 0;
        while j < n && t[j] != 47
            invariant
                j <= n == t@.len(),
                forall|k: int| 0 <= k < j ==> t@[k] != 47,
            decreases n - j,
        {
            j = j + 1;
        }
        proof {
            lemma_corner_prefix_len_at(t@, j as int);
        }
    }
    proof {
        assert(t@.take(n as int) =~= t@);
    }
    match parse_index_prefix(t, j) {
        None => Err(GeometryError::MalformedNumber),
        Some(v) => if v == 0 {
            Err(GeometryError::IndexOutOfRange)
        } else {
            Ok(v - 1)
        },
    }
}

/// Read one numeral field out of a token.
fn take_numeral(t: &Vec<u8>) -> (r: Num)
    ensures
        r@ == t@,
{
    Num { text: copy_bytes(t) }
}

/// Classify one line of geometry text, as `spec_classify` describes.
pub fn parse_line(line: &[u8]) -> (r: Result<Line, GeometryError>)
    ensures
        match r {
            Ok(l) => spec_classify(line@) == Ok::<LineV, GeometryError>(l@),
            Err(e) => spec_classify(line@) == Err::<LineV, GeometryError>(e),
        },
{
    let toks = tokenize(line);
    let ghost ts = spec_tokens(line@);
    proof {
        assert(byte_views(toks@) == ts);
        assert(forall|k: int| 0 <= k < toks@.len() ==> ts[k] == #[trigger] toks@[k]@);
    }
    if toks.len() == 0 {
        return Ok(Line::Ignored);
    }
    let t0: &Vec<u8> = &toks[0];
    if t0.len() == 1 && t0[0] == 118 {
        // `v x y z`
        proof {
            assert(ts[0] =~= kw_position());
        }
        if toks.len() < 4 || !check_coord_numeral(&toks[1]) || !check_coord_numeral(&toks[2])
            || !check_coord_numeral(&toks[3]) {
            return Err(GeometryError::MalformedNumber);
        }
        let p = Vec3 {
            x: take_numeral(&toks[1]),
            y: take_numeral(&toks[2]),
            z: take_numeral(&toks[3]),
        };
        proof {
            assert(p@ =~= V3 { x: ts[1], y: ts[2], z: ts[3] });
        }
        Ok(Line::Position(p))
    } else if t0.len() == 2 && t0[0] == 118 && t0[1] == 116 {
        // `vt u v`
        proof {
            assert(ts[0] =~= kw_texcoord());
            assert(ts[0] != kw_position());
        }
        if toks.len() < 3 || !check_coord_numeral(&toks[1]) || !check_coord_numeral(&toks[2]) {
            return Err(GeometryError::MalformedNumber);
        }
        let t = Vec2 { u: take_numeral(&toks[1]), v: take_numeral(&toks[2]) };
        proof {
            assert(t@ =~= V2 { u: ts[1], v: ts[2] });
        }
        Ok(Line::TexCoord(t))
    } else if t0.len() == 2 && t0[0] == 118 && t0[1] == 110 {
        // `vn x y z`
        proof {
            assert(ts[0] =~= kw_normal());
            assert(ts[0] != kw_position() && ts[0] != kw_texcoord());
        }
        if toks.len() < 4 || !check_coord_numeral(&toks[1]) || !check_coord_numeral(&toks[2])
            || !check_coord_numeral(&toks[3]) {
            return Err(GeometryError::MalformedNumber);
        }
        let p = Vec3 {
            x: take_numeral(&toks[1]),
            y: take_numeral(&toks[2]),
            z: take_numeral(&toks[3]),
        };
        proof {
            assert(p@ =~= V3 { x: ts[1], y: ts[2], z: ts[3] });
        }
        Ok(Line::Normal(p))
    } else if t0.len() == 1 && t0[0] == 102 {
        // `f c1 c2 c3 [c4]`
        proof {
            assert(ts[0] =~= kw_face());
            assert(ts[0] != kw_position() && ts[0] != kw_texcoord() && ts[0] != kw_normal());
        }
        parse_face_line(&toks, Ghost(ts))
    } else {
        proof {
            assert(ts[0] != kw_position()) by {
                if ts[0] == kw_position() {
                    assert(ts[0].len() == 1 && ts[0][0] == 118);
                }
            }
            assert(ts[0] != kw_texcoord()) by {
                if ts[0] == kw_texcoord() {
                    assert(ts[0].len() == 2 && ts[0][0] == 118 && ts[0][1] == 116);
                }
            }
            assert(ts[0] != kw_normal()) by {
                if ts[0] == kw_normal() {
                    assert(ts[0].len() == 2 && ts[0][0] == 118 && ts[0][1] == 110);
                }
            }
            assert(ts[0] != kw_face()) by {
                if ts[0] == kw_face() {
                    assert(ts[0].len() == 1 && ts[0][0] == 102);
                }
            }
        }
        Ok(Line::Ignored)
    }
}

/// Resolve the corner tokens of a face line that is known to start with
/// the face keyword.
fn parse_face_line(toks: &Vec<Vec<u8>>, Ghost(ts): Ghost<Seq<Seq<u8>>>) -> (r: Result<
    Line,
    GeometryError,
>)
    requires
        byte_views(toks@) == ts,
        ts.len() >= 1,
        ts[0] == kw_face(),
    ensures
        match r {
            Ok(l) => spec_face_line(ts) == Ok::<LineV, GeometryError>(l@),
            Err(e) => spec_face_line(ts) == Err::<LineV, GeometryError>(e),
        },
{
    proof {
        assert(forall|k: int| 0 <= k < toks@.len() ==> ts[k] == #[trigger] toks@[k]@);
    }
    let n: usize = toks.len();
    if n != 4 && n != 5 {
        return Err(GeometryError::MalformedFace);
    }
    let composite = contains_slash(&toks[1]);
    let ghost m = has_slash(ts[1]);
    let ghost cs = ts.skip(1);
    proof {
        assert(cs.len() == n - 1);
        assert(forall|k: int| 0 <= k < cs.len() ==> #[trigger] cs[k] == ts[k + 1]);
        assert(cs.drop_first() =~= ts.skip(2));
        assert(ts.skip(2).drop_first() =~= ts.skip(3));
        assert(ts.skip(3).drop_first() =~= ts.skip(4));
        assert(forall|k: int| 0 <= k < ts.skip(2).len() ==> #[trigger] ts.skip(2)[k] == ts[k + 2]);
        assert(forall|k: int| 0 <= k < ts.skip(3).len() ==> #[trigger] ts.skip(3)[k] == ts[k + 3]);
        assert(forall|k: int| 0 <= k < ts.skip(4).len() ==> #[trigger] ts.skip(4)[k] == ts[k + 4]);
    }
    let a = match parse_corner(&toks[1], composite) {
        Ok(v) => v,
        Err(e) => {
            return Err(e);
        },
    };
    let b = match parse_corner(&toks[2], composite) {
        Ok(v) => v,
        Err(e) => {
            proof {
                assert(spec_corners(ts.skip(2), m) == Err::<Seq<u32>, GeometryError>(e));
                assert(spec_corners(cs, m) == Err::<Seq<u32>, GeometryError>(e));
            }
            return Err(e);
        },
    };
    let c = match parse_corner(&toks[3], composite) {
        Ok(v) => v,
        Err(e) => {
            proof {
                assert(spec_corners(ts.skip(3), m) == Err::<Seq<u32>, GeometryError>(e));
                assert(spec_corners(ts.skip(2), m) == Err::<Seq<u32>, GeometryError>(e));
                assert(spec_corners(cs, m) == Err::<Seq<u32>, GeometryError>(e));
            }
            return Err(e);
        },
    };
    if n == 4 {
        proof {
            assert(ts.skip(4).len() == 0);
            assert(spec_corners(ts.skip(4), m) == Ok::<Seq<u32>, GeometryError>(Seq::empty()));
            assert(spec_corners(ts.skip(3), m) == Ok::<Seq<u32>, GeometryError>(
                seq![c] + Seq::empty(),
            ));
            assert(spec_corners(ts.skip(2), m) == Ok::<Seq<u32>, GeometryError>(
                seq![b] + (seq![c] + Seq::empty()),
            ));
            assert(spec_corners(cs, m) == Ok::<Seq<u32>, GeometryError>(
                seq![a] + (seq![b] + (seq![c] + Seq::empty())),
            ));
            assert(seq![a] + (seq![b] + (seq![c] + Seq::<u32>::empty())) =~= seq![a, b, c]);
        }
        Ok(Line::FaceRef(Face::Tri(a, b, c)))
    } else {
        let d = match parse_corner(&toks[4], composite) {
            Ok(v) => v,
            Err(e) => {
                proof {
                    assert(spec_corners(ts.skip(4), m) == Err::<Seq<u32>, GeometryError>(e));
                    assert(spec_corners(ts.skip(3), m) == Err::<Seq<u32>, GeometryError>(e));
                    assert(spec_corners(ts.skip(2), m) == Err::<Seq<u32>, GeometryError>(e));
                    assert(spec_corners(cs, m) == Err::<Seq<u32>, GeometryError>(e));
                }
                return Err(e);
            },
        };
        proof {
            assert(ts.skip(5).len() == 0);
            assert(ts.skip(4).drop_first() =~= ts.skip(5));
            assert(spec_corners(ts.skip(5), m) == Ok::<Seq<u32>, GeometryError>(Seq::empty()));
            assert(spec_corners(ts.skip(4), m) == Ok::<Seq<u32>, GeometryError>(
                seq![d] + Seq::empty(),
            ));
            assert(spec_corners(ts.skip(3), m) == Ok::<Seq<u32>, GeometryError>(
                seq![c] + (seq![d] + Seq::empty()),
            ));
            assert(spec_corners(ts.skip(2), m) == Ok::<Seq<u32>, GeometryError>(
                seq![b] + (seq![c] + (seq![d] + Seq::empty())),
            ));
            assert(spec_corners(cs, m) == Ok::<Seq<u32>, GeometryError>(
                seq![a] + (seq![b] + (seq![c] + (seq![d] + Seq::empty()))),
            ));
            assert(seq![a] + (seq![b] + (seq![c] + (seq![d] + Seq::<u32>::empty()))) =~= seq![
                a,
                b,
                c,
                d,
            ]);
        }
        Ok(Line::FaceRef(Face::Quad(a, b, c, d)))
    }
}

} // verus!
