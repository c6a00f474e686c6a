//! Where each light of a scene goes in the uniform block of lights.
//!
//! The block has room for a fixed number of point lights and of directional
//! lights. Lights are placed in the order in which the scene lists them;
//! those for which no room is left are dropped.

use vstd::prelude::*;

verus! {

/// Point lights that the block has room for.
pub const POINT_LIGHT_MAX: usize = 480;

/// Directional lights that the block has room for.
pub const DIRECTIONAL_MAX: usize = 8;

#[derive(Clone, Copy, Debug, PartialEq, Eq, Structural)]
pub enum LightKind {
    Point,
    Directional,
}

/// The place of a light in the block.
#[derive(Clone, Copy, Debug, PartialEq, Eq, Structural)]
pub enum LightSlot {
    /// This entry of the array of point lights.
    Point(usize),
    /// This entry of the array of directional lights.
    Directional(usize),
    /// Nowhere: the array for its kind was full.
    Dropped,
}

/// The layout of the lights of a scene.
pub struct LightLayout {
    /// For each light, in the order of the scene, its place.
    pub slots: Vec<LightSlot>,
    /// Entries of the array of point lights that are in use.
    pub point_count: u32,
    /// Entries of the array of directional lights that are in use.
    pub direction_count: u32,
}

impl LightKind {
    /// The room that the block has for lights of this kind.
    pub open spec fn capacity(self) -> nat {
        match self {
            LightKind::Point => POINT_LIGHT_MAX as nat,
            LightKind::Directional => DIRECTIONAL_MAX as nat,
        }
    }
}

/// How many of `kinds` are of `kind`.
pub open spec fn count_kind(kinds: Seq<LightKind>, kind: LightKind) -> nat
    decreases kinds.len(),
{
    if kinds.len() == 0 {
        0
    } else {
        count_kind(kinds.drop_last(), kind) + if kinds.last() == kind {
            1nat
        } else {
            0nat
        }
    }
}

/// The place of the light `i`: the next entry of the array for its kind, by
/// the number of lights of that kind before it, if that entry exists.
pub open spec fn slot_of(kinds: Seq<LightKind>, i: int) -> LightSlot
    recommends
        0 <= i < kinds.len(),
{
    let before = count_kind(kinds.take(i), kinds[i]);
    if before >= kinds[i].capacity() {
        LightSlot::Dropped
    } else {
        match kinds[i] {
            LightKind::Point => LightSlot::Point(before as usize),
            LightKind::Directional => LightSlot::Directional(before as usize),
        }
    }
}

/// The entries in use of the array for `kind`: as many as there are lights
/// of that kind, up to the room there is.
pub open spec fn used(kinds: Seq<LightKind>, kind: LightKind) -> nat {
    if count_kind(kinds, kind) <= kind.capacity() {
        count_kind(kinds, kind)
    } else {
        kind.capacity()
    }
}

/// Places the lights of a scene, given the kind of each in the order in
/// which the scene lists them.
pub fn build(kinds: &Vec<LightKind>) -> (layout: LightLayout)
    ensures
        layout.slots@.len() == kinds@.len(),
        forall|i: int| 0 <= i < kinds@.len() ==> layout.slots@[i] == slot_of(kinds@, i),
        layout.point_count == used(kinds@, LightKind::Point),
        layout.direction_count == used(kinds@, LightKind::Directional),
{
    let mut slots: Vec<LightSlot> = Vec::new();
    let mut point_count: usize = 0;
    let mut direction_count: usize = 0;
    let mut i: usize = 0;
    while i < kinds.len()
        invariant
            i <= kinds.len(),
            slots@.len() == i,
            forall|j: int| 0 <= j < i ==> slots@[j] == slot_of(kinds@, j),
            point_count == used(kinds@.take(i as int), LightKind::Point),
            direction_count == used(kinds@.take(i as int), LightKind::Directional),
        decreases kinds.len() - i,
    {
        proof {
            assert(kinds@.take(i + 1).drop_last() == kinds@.take(i as int));
        }
        match kinds[i] {
            LightKind::Point => {
                if point_count == POINT_LIGHT_MAX {
                    slots.push(LightSlot::Dropped);
                } else {
                    slots.push(LightSlot::Point(point_count));
                    point_count += 1;
                }
            },
            LightKind::Directional => {
                if direction_count == DIRECTIONAL_MAX {
                    slots.push(LightSlot::Dropped);
                } else {
                    slots.push(LightSlot::Directional(direction_count));
                    direction_count += 1;
                }
            },
        }
        i += 1;
    }
    proof {
        assert(kinds@.take(kinds.len() as int) == kinds@);
    }
    LightLayout {
        slots,
        point_count: point_count as u32,
        direction_count: direction_count as u32,
    }
}

} // verus!
