//! The model transform and the input events that rotate it.
//!
//! The viewer rotates the mesh by a fixed small angle whenever one of four
//! designated keys is pressed: two keys turn it about the vertical axis in
//! opposite directions, two about the horizontal axis.  The transform is
//! kept symbolically as the ordered list of rotations applied so far
//! (starting from the identity); the unverified shell replays that list as
//! floating-point matrix products when it uploads the matrix.

use vstd::prelude::*;

verus! {

/// The fixed rotation angle, in degrees, that one key press applies.
pub const ROTATION_DEGREES: u32 = 3;

/// One of the four fixed rotation axes, as a unit direction.
#[derive(Clone, Copy, Debug, PartialEq, Eq, Structural)]
pub enum Axis {
    /// About `(0, -1, 0)`.
    YNeg,
    /// About `(0, 1, 0)`.
    YPos,
    /// About `(-1, 0, 0)`.
    XNeg,
    /// About `(1, 0, 0)`.
    XPos,
}

impl Axis {
    /// The axis as an integer unit vector `(x, y, z)`.
    pub fn direction(&self) -> (r: (i8, i8, i8))
        ensures
            r == match *self {
                Axis::YNeg => (0i8, -1i8, 0i8),
                Axis::YPos => (0i8, 1i8, 0i8),
                Axis::XNeg => (-1i8, 0i8, 0i8),
                Axis::XPos => (1i8, 0i8, 0i8),
            },
    {
        match *self {
            Axis::YNeg => (0, -1, 0),
            Axis::YPos => (0, 1, 0),
            Axis::XNeg => (-1, 0, 0),
            Axis::XPos => (1, 0, 0),
        }
    }
}

/// The keys the viewer reacts to.  Every key that is not one of the four
/// designated rotation keys is modelled as `Other`.
#[derive(Clone, Copy, Debug, PartialEq, Eq, Structural)]
pub enum Key {
    A,
    D,
    W,
    S,
    Other,
}

/// One input event, as the library sees it: a key press, or anything else
/// (key releases, mouse and window events), which the mesh ignores.
#[derive(Clone, Copy, Debug, PartialEq, Eq, Structural)]
pub enum Event {
    KeyDown(Key),
    Other,
}

/// The rotation axis a key is bound to, or `None` for a key that is not
/// one of the four designated rotation keys.
pub open spec fn designated_axis(k: Key) -> Option<Axis> {
    match k {
        Key::A => Some(Axis::YNeg),
        Key::D => Some(Axis::YPos),
        Key::W => Some(Axis::XNeg),
        Key::S => Some(Axis::XPos),
        Key::Other => None,
    }
}

/// How one event changes the rotation list: a designated key press appends
/// its fixed rotation, everything else leaves the list as it is.
pub open spec fn spec_update(t: Seq<Axis>, e: Event) -> Seq<Axis> {
    match e {
        Event::KeyDown(k) => match designated_axis(k) {
            Some(a) => t.push(a),
            None => t,
        },
        Event::Other => t,
    }
}

/// The model transform: the rotations applied so far, oldest first.  An
/// empty list is the identity transform a mesh starts with.
#[derive(Debug)]
pub struct Transform {
    pub rotations: Vec<Axis>,
}

impl Transform {
    /// The identity transform: no rotation applied yet.
    pub fn identity() -> (r: Transform)
        ensures
            r.rotations@ == Seq::<Axis>::empty(),
    {
        Transform { rotations: Vec::new() }
    }

    /// Apply one input event, as `spec_update` describes.
    pub fn apply_event(&mut self, e: &Event)
        ensures
            final(self).rotations@ == spec_update(old(self).rotations@, *e),
    {
        match *e {
            Event::KeyDown(k) => {
                let axis = match k {
                    Key::A => Some(Axis::YNeg),
                    Key::D => Some(Axis::YPos),
                    Key::W => Some(Axis::XNeg),
                    Key::S => Some(Axis::XPos),
                    Key::Other => None,
                };
                match axis {
                    Some(a) => self.rotations.push(a),
                    None => (),
                }
            },
            Event::Other => (),
        }
    }
}

/// Law: an event that is not a designated key press leaves the transform
/// unchanged.
pub proof fn lemma_non_designated_is_no_op(t: Seq<Axis>, e: Event)
    requires
        match e {
            Event::KeyDown(k) => designated_axis(k) is None,
            Event::Other => true,
        },
    ensures
        spec_update(t, e) == t,
{
}

/// Law: four consecutive presses of one designated rotation key compose
/// four fixed-angle rotations about that key's axis, appended in order to
/// whatever transform was accumulated before.
pub proof fn lemma_four_presses_compose(t: Seq<Axis>, k: Key, a: Axis)
    requires
        designated_axis(k) == Some(a),
    ensures
        spec_update(
            spec_update(spec_update(spec_update(t, Event::KeyDown(k)), Event::KeyDown(k)), Event::KeyDown(k)),
            Event::KeyDown(k),
        ) == t + seq![a, a, a, a],
{
    assert(spec_update(
        spec_update(spec_update(spec_update(t, Event::KeyDown(k)), Event::KeyDown(k)), Event::KeyDown(k)),
        Event::KeyDown(k),
    ) =~= t + seq![a, a, a, a]);
}

} // verus!
