//! The random outcomes the simulation consumes.
//!
//! All randomness enters through the two small functions at the top of this
//! file. Everything a rule needs from them for one dispatch is gathered in a
//! [`Draw`], so that the rules themselves are deterministic functions of the
//! grid and a draw.

use crate::material::MaterialKind;
use rand::seq::SliceRandom;
use vstd::prelude::*;

verus! {

/// Lowest brightness, in thousandths, a coloured cell can have.
pub const TINT_LOW: u16 = 900;

/// One past the highest brightness, in thousandths, a coloured cell can have.
pub const TINT_HIGH: u16 = 1100;

/// Brightness, in thousandths, of a cell drawn in its plain base colour.
pub const TINT_PLAIN: u16 = 1000;

/// Calls `rand::seq::SliceRandom::shuffle` on a copy of `items` with the
/// thread-local generator. Trusted: the result holds the same items as the
/// argument, each as often, in some order (the shuffle only swaps elements).
#[verifier::external_body]
fn shuffled<const N: usize>(items: [(i64, i64); N]) -> (mixed: [(i64, i64); N])
    ensures
        mixed@.to_multiset() == items@.to_multiset(),
{
    let mut mixed = items;
    mixed.shuffle(&mut rand::rng());
    mixed
}

/// Calls `rand::random_range` on the half-open range `0..bound` with the
/// thread-local generator. Trusted: the result lies in that range. The call
/// panics on an empty range, which the precondition rules out.
#[verifier::external_body]
fn index_below(bound: usize) -> (index: usize)
    requires
        bound > 0,
    ensures
        index < bound,
{
    rand::random_range(0..bound)
}

/// Whether `tint` is a brightness a coloured cell may have.
pub open spec fn is_tint(tint: u16) -> bool {
    TINT_LOW <= tint < TINT_HIGH
}

/// Whether `order` lists exactly `a` and `b`, in either order.
pub open spec fn arranges_pair(order: Seq<(i64, i64)>, a: (i64, i64), b: (i64, i64)) -> bool {
    &&& order.len() == 2
    &&& (order[0] == a && order[1] == b) || (order[0] == b && order[1] == a)
}

/// Whether `order` lists exactly `a`, `b` and `c`, in any order.
pub open spec fn arranges_triple(
    order: Seq<(i64, i64)>,
    a: (i64, i64),
    b: (i64, i64),
    c: (i64, i64),
) -> bool {
    &&& order.len() == 3
    &&& order.contains(a)
    &&& order.contains(b)
    &&& order.contains(c)
}

/// A shuffle of two distinct offsets lists them in one of the two orders.
proof fn lemma_shuffled_pair(mixed: Seq<(i64, i64)>, items: Seq<(i64, i64)>)
    requires
        items.len() == 2,
        items[0] != items[1],
        mixed.to_multiset() == items.to_multiset(),
    ensures
        arranges_pair(mixed, items[0], items[1]),
{
    mixed.to_multiset_ensures();
    items.to_multiset_ensures();
    assert(items.contains(items[0]) && items.contains(items[1]));
    assert(mixed.to_multiset().count(items[0]) > 0);
    assert(mixed.to_multiset().count(items[1]) > 0);
    assert(mixed.contains(items[0]) && mixed.contains(items[1]));
}

/// A shuffle of three offsets lists each of them.
proof fn lemma_shuffled_triple(mixed: Seq<(i64, i64)>, items: Seq<(i64, i64)>)
    requires
        items.len() == 3,
        mixed.to_multiset() == items.to_multiset(),
    ensures
        arranges_triple(mixed, items[0], items[1], items[2]),
{
    mixed.to_multiset_ensures();
    items.to_multiset_ensures();
    assert(items.contains(items[0]) && items.contains(items[1]) && items.contains(items[2]));
    assert(mixed.to_multiset().count(items[0]) > 0);
    assert(mixed.to_multiset().count(items[1]) > 0);
    assert(mixed.to_multiset().count(items[2]) > 0);
}

/// Whether two offsets are the same.
fn same_offset(p: (i64, i64), q: (i64, i64)) -> (same: bool)
    ensures
        same == (p == q),
{
    p.0 == q.0 && p.1 == q.1
}

/// Draws a brightness for a freshly coloured cell.
pub fn random_tint() -> (tint: u16)
    ensures
        is_tint(tint),
{
    let spread: usize = index_below(200);
    TINT_LOW + spread as u16
}

/// The random outcomes one dispatch of a rule may consume.
///
/// Orders are lists of offsets `(dx, dy)` from the dispatched cell, with `y`
/// growing downwards. A rule reads only the fields it needs.
#[derive(Clone, Copy, Debug)]
pub struct Draw {
    /// Order in which the two diagonal-down targets are tried.
    pub fall: [(i64, i64); 2],
    /// Order in which the three upward targets are tried.
    pub rise: [(i64, i64); 3],
    /// Order in which the two horizontal targets are tried.
    pub side: [(i64, i64); 2],
    /// A percentage roll; fire spawns smoke when it exceeds 98.
    pub roll: usize,
    /// Which cell of the in-bounds neighbourhood spawned smoke goes to.
    pub pick: usize,
    /// Brightness for a cell converted in each of the nine neighbourhood slots.
    pub tints: [u16; 9],
    /// Brightness of spawned smoke.
    pub smoke_tint: u16,
}

impl Draw {
    /// A draw is well formed when its orders are arrangements of the
    /// candidate offsets, its roll is a percentage and its tints are in range.
    pub open spec fn wf(self) -> bool {
        &&& arranges_pair(self.fall@, (-1i64, 1i64), (1i64, 1i64))
        &&& arranges_triple(self.rise@, (0i64, -1i64), (-1i64, -1i64), (1i64, -1i64))
        &&& arranges_pair(self.side@, (-1i64, 0i64), (1i64, 0i64))
        &&& self.roll < 100
        &&& forall|slot: int| 0 <= slot < 9 ==> is_tint(#[trigger] self.tints@[slot])
        &&& is_tint(self.smoke_tint)
    }

    /// The draw with every order in its listed form, no smoke and plain tints.
    pub open spec fn plain() -> Draw {
        Draw {
            fall: [(-1i64, 1i64), (1i64, 1i64)],
            rise: [(0i64, -1i64), (-1i64, -1i64), (1i64, -1i64)],
            side: [(-1i64, 0i64), (1i64, 0i64)],
            roll: 0,
            pick: 0,
            tints: [
                TINT_PLAIN,
                TINT_PLAIN,
                TINT_PLAIN,
                TINT_PLAIN,
                TINT_PLAIN,
                TINT_PLAIN,
                TINT_PLAIN,
                TINT_PLAIN,
                TINT_PLAIN,
            ],
            smoke_tint: TINT_PLAIN,
        }
    }

    /// Whether the rule for `kind` reads the order of the diagonals.
    pub open spec fn reads_fall(kind: MaterialKind) -> bool {
        kind == MaterialKind::Sand || kind == MaterialKind::Water
    }

    /// Whether the rule for `kind` reads the order of the upward targets.
    pub open spec fn reads_rise(kind: MaterialKind) -> bool {
        kind == MaterialKind::Fire || kind == MaterialKind::Smoke || kind == MaterialKind::Steam
    }

    /// Whether the rule for `kind` reads the order of the horizontal targets.
    pub open spec fn reads_side(kind: MaterialKind) -> bool {
        kind == MaterialKind::Water || Draw::reads_rise(kind)
    }

    /// Whether the rule for `kind` converts cells and so reads the tints.
    pub open spec fn reads_tints(kind: MaterialKind) -> bool {
        kind == MaterialKind::Water || kind == MaterialKind::Fire
    }

    /// Every offset of a well-formed draw is one step away, in the direction
    /// its list is for.
    pub proof fn lemma_offsets_unit(self)
        requires
            self.wf(),
        ensures
            forall|i: int|
                0 <= i < 2 ==> -1 <= (#[trigger] self.fall@[i]).0 <= 1 && self.fall@[i].0 != 0
                    && self.fall@[i].1 == 1,
            forall|i: int|
                0 <= i < 3 ==> -1 <= (#[trigger] self.rise@[i]).0 <= 1 && self.rise@[i].1 == -1,
            forall|i: int|
                0 <= i < 2 ==> -1 <= (#[trigger] self.side@[i]).0 <= 1 && self.side@[i].0 != 0
                    && self.side@[i].1 == 0,
    {
        let rise = self.rise@;
        let up = choose|i: int| 0 <= i < rise.len() && rise[i] == (0i64, -1i64);
        let left = choose|i: int| 0 <= i < rise.len() && rise[i] == (-1i64, -1i64);
        let right = choose|i: int| 0 <= i < rise.len() && rise[i] == (1i64, -1i64);
        assert(rise[up] == (0i64, -1i64) && rise[left] == (-1i64, -1i64) && rise[right] == (
            1i64,
            -1i64,
        ));
    }

    /// The plain draw is well formed.
    pub proof fn lemma_plain_wf()
        ensures
            Draw::plain().wf(),
    {
        let rise = Draw::plain().rise@;
        assert(rise[0] == (0i64, -1i64));
        assert(rise[1] == (-1i64, -1i64));
        assert(rise[2] == (1i64, -1i64));
    }

    /// Builds the plain draw: left before right, straight up first, no smoke.
    pub fn still() -> (draw: Draw)
        ensures
            draw == Draw::plain(),
            draw.wf(),
    {
        let draw = Draw {
            fall: [(-1i64, 1i64), (1i64, 1i64)],
            rise: [(0i64, -1i64), (-1i64, -1i64), (1i64, -1i64)],
            side: [(-1i64, 0i64), (1i64, 0i64)],
            roll: 0,
            pick: 0,
            tints: [
                TINT_PLAIN,
                TINT_PLAIN,
                TINT_PLAIN,
                TINT_PLAIN,
                TINT_PLAIN,
                TINT_PLAIN,
                TINT_PLAIN,
                TINT_PLAIN,
                TINT_PLAIN,
            ],
            smoke_tint: TINT_PLAIN,
        };
        assert(draw.rise@[0] == (0i64, -1i64));
        assert(draw.rise@[1] == (-1i64, -1i64));
        assert(draw.rise@[2] == (1i64, -1i64));
        draw
    }
    /// Checks at run time that the draw is well formed.
    pub fn is_valid(&self) -> (valid: bool)
        ensures
            valid == self.wf(),
    {
        let fall_ok = (same_offset(self.fall[0], (-1, 1)) && same_offset(self.fall[1], (1, 1)))
            || (same_offset(self.fall[0], (1, 1)) && same_offset(self.fall[1], (-1, 1)));
        let side_ok = (same_offset(self.side[0], (-1, 0)) && same_offset(self.side[1], (1, 0)))
            || (same_offset(self.side[0], (1, 0)) && same_offset(self.side[1], (-1, 0)));
        let has_up = same_offset(self.rise[0], (0, -1)) || same_offset(self.rise[1], (0, -1))
            || same_offset(self.rise[2], (0, -1));
        let has_left = same_offset(self.rise[0], (-1, -1)) || same_offset(self.rise[1], (-1, -1))
            || same_offset(self.rise[2], (-1, -1));
        let has_right = same_offset(self.rise[0], (1, -1)) || same_offset(self.rise[1], (1, -1))
            || same_offset(self.rise[2], (1, -1));
        proof {
            let rise = self.rise@;
            assert(has_up == rise.contains((0i64, -1i64))) by {
                if has_up {
                    assert(rise[0] == (0i64, -1i64) || rise[1] == (0i64, -1i64) || rise[2] == (
                        0i64,
                        -1i64,
                    ));
                }
            }
            assert(has_left == rise.contains((-1i64, -1i64))) by {
                if has_left {
                    assert(rise[0] == (-1i64, -1i64) || rise[1] == (-1i64, -1i64) || rise[2] == (
                        -1i64,
                        -1i64,
                    ));
                }
            }
            assert(has_right == rise.contains((1i64, -1i64))) by {
                if has_right {
                    assert(rise[0] == (1i64, -1i64) || rise[1] == (1i64, -1i64) || rise[2] == (
                        1i64,
                        -1i64,
                    ));
                }
            }
        }
        let mut tints_ok = true;
        let mut slot: usize = 0;
        while slot < 9
            invariant
                slot <= 9,
                tints_ok == (forall|k: int| 0 <= k < slot ==> is_tint(#[trigger] self.tints@[k])),
            decreases 9 - slot,
        {
            let tint = self.tints[slot];
            if !(TINT_LOW <= tint && tint < TINT_HIGH) {
                tints_ok = false;
            }
            slot = slot + 1;
        }
        let smoke_ok = TINT_LOW <= self.smoke_tint && self.smoke_tint < TINT_HIGH;
        fall_ok && side_ok && has_up && has_left && has_right && self.roll < 100 && tints_ok
            && smoke_ok
    }

    /// Draws what one dispatch of the rule for `kind` consumes, for a cell
    /// whose in-bounds neighbourhood holds `neighbours` cells. Fields the
    /// rule does not read keep their plain value.
    pub fn random_for(kind: MaterialKind, neighbours: usize) -> (draw: Draw)
        requires
            neighbours > 0,
        ensures
            draw.wf(),
            draw.pick < neighbours,
            Draw::reads_fall(kind) || draw.fall == Draw::plain().fall,
            Draw::reads_rise(kind) || draw.rise == Draw::plain().rise,
            Draw::reads_side(kind) || draw.side == Draw::plain().side,
            Draw::reads_tints(kind) || draw.tints == Draw::plain().tints,
            kind == MaterialKind::Fire || (draw.roll == 0 && draw.pick == 0 && draw.smoke_tint
                == TINT_PLAIN),
    {
        let mut draw = Draw::still();
        match kind {
            MaterialKind::Sand => {
                draw.fall = Draw::shuffled_pair(draw.fall);
            },
            MaterialKind::Water => {
                draw.tints = Draw::random_tints();
                draw.fall = Draw::shuffled_pair(draw.fall);
                draw.side = Draw::shuffled_pair(draw.side);
            },
            MaterialKind::Fire => {
                draw.tints = Draw::random_tints();
                draw.roll = index_below(100);
                draw.pick = index_below(neighbours);
                draw.smoke_tint = random_tint();
                draw.rise = Draw::shuffled_triple(draw.rise);
                draw.side = Draw::shuffled_pair(draw.side);
            },
            MaterialKind::Smoke | MaterialKind::Steam => {
                draw.rise = Draw::shuffled_triple(draw.rise);
                draw.side = Draw::shuffled_pair(draw.side);
            },
            _ => {},
        }
        draw
    }

    /// Shuffles two distinct offsets: the result lists both, in one of the
    /// two orders, which may be the one given.
    fn shuffled_pair(items: [(i64, i64); 2]) -> (mixed: [(i64, i64); 2])
        requires
            items@[0] != items@[1],
        ensures
            arranges_pair(mixed@, items@[0], items@[1]),
    {
        let mixed = shuffled(items);
        proof {
            lemma_shuffled_pair(mixed@, items@);
        }
        mixed
    }

    /// Shuffles three offsets: the result holds the same offsets, each as
    /// often, in an order that may also be the one given.
    fn shuffled_triple(items: [(i64, i64); 3]) -> (mixed: [(i64, i64); 3])
        ensures
            mixed@.to_multiset() == items@.to_multiset(),
            arranges_triple(mixed@, items@[0], items@[1], items@[2]),
    {
        let mixed = shuffled(items);
        proof {
            lemma_shuffled_triple(mixed@, items@);
        }
        mixed
    }

    /// Draws a brightness for each neighbourhood slot.
    fn random_tints() -> (tints: [u16; 9])
        ensures
            forall|slot: int| 0 <= slot < 9 ==> is_tint(#[trigger] tints@[slot]),
    {
        [
            random_tint(),
            random_tint(),
            random_tint(),
            random_tint(),
            random_tint(),
            random_tint(),
            random_tint(),
            random_tint(),
            random_tint(),
        ]
    }
}

} // verus!
