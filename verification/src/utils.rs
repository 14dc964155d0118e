//! Loop timing and small math utilities.

use vstd::prelude::*;
use crate::rat::Rat;
use crate::matrix::{add_rv, mul_rv};

verus! {

/// Whether a driving loop should keep running after a frame callback.
pub enum Action {
    /// Stop the loop.
    Stop,
    /// Keep looping.
    Continue,
}

/// The fixed simulation timestep, in nanoseconds.
pub const FIXED_TIME_STAMP: u64 = 16666667;

/// One pass of the fixed-timestep accumulator that drives the update
/// loop: fold the elapsed nanoseconds into the accumulator, pay out one
/// update tick per whole timestep, and report how long to sleep until the
/// next tick is due.
///
/// Returns `(new_accumulator, update_ticks, sleep_ms)`.
pub fn advance_accumulator(accumulator: u64, elapsed: u64) -> (r: (u64, u64, u32))
    requires
        accumulator < FIXED_TIME_STAMP,
        elapsed <= u64::MAX - FIXED_TIME_STAMP,
    ensures
        r.0 == (accumulator + elapsed) % (FIXED_TIME_STAMP as int),
        r.1 == (accumulator + elapsed) / (FIXED_TIME_STAMP as int),
        r.0 < FIXED_TIME_STAMP,
        r.2 == (FIXED_TIME_STAMP - r.0) / 1000000,
{
    let total: u64 = accumulator + elapsed;
    let new_acc: u64 = total % FIXED_TIME_STAMP;
    let ticks: u64 = total / FIXED_TIME_STAMP;
    let sleep_ms: u32 = ((FIXED_TIME_STAMP - new_acc) / 1000000) as u32;
    (new_acc, ticks, sleep_ms)
}

/// The views of a sequence of rationals.
pub open spec fn rat_views(s: Seq<Rat>) -> Seq<(int, int)> {
    s.map_values(|r: Rat| r@)
}

/// All entries well formed.
pub open spec fn rats_wf(s: Seq<Rat>) -> bool {
    forall|i: int| 0 <= i < s.len() ==> (#[trigger] s[i]).wf()
}

/// The checked, lowest-terms dot product, step for step as the
/// executable code folds it left to right from an accumulator of zero.
pub open spec fn dot_rv(a: Seq<(int, int)>, b: Seq<(int, int)>) -> Option<(int, int)>
    decreases a.len(),
{
    if a.len() == 0 {
        Some((0int, 1int))
    } else {
        match (dot_rv(a.drop_last(), b.drop_last()), mul_rv(a.last(), b.last())) {
            (Some(s), Some(p)) => add_rv(s, p),
            _ => None,
        }
    }
}

/// The dot product of two equally long rational vectors; `None` exactly
/// when a checked step overflows. The dimensions must be equal.
pub fn dotp(this: &Vec<Rat>, other: &Vec<Rat>) -> (r: Option<Rat>)
    requires
        this@.len() == other@.len(),
        rats_wf(this@),
        rats_wf(other@),
    ensures
        (r matches Some(v) ==> v.wf() && Some(v@) == dot_rv(rat_views(this@), rat_views(other@))),
        r is None <==> dot_rv(rat_views(this@), rat_views(other@)) is None,
{
    let mut acc = Rat::from_int(0);
    let mut i: usize = 0;
    while i < this.len()
        invariant
            this@.len() == other@.len(),
            rats_wf(this@),
            rats_wf(other@),
            i <= this@.len(),
            acc.wf(),
            Some(acc@) == dot_rv(
                rat_views(this@).take(i as int),
                rat_views(other@).take(i as int),
            ),
        decreases this@.len() - i,
    {
        let p = match this[i].mul(other[i]) {
            Some(v) => v,
            None => {
                proof {
                    lemma_dot_rv_none(rat_views(this@), rat_views(other@), i as int);
                }
                return None;
            },
        };
        let next = match acc.add(p) {
            Some(v) => v,
            None => {
                proof {
                    lemma_dot_rv_none(rat_views(this@), rat_views(other@), i as int);
                }
                return None;
            },
        };
        proof {
            let av = rat_views(this@);
            let bv = rat_views(other@);
            assert(av.take(i + 1).drop_last() =~= av.take(i as int));
            assert(bv.take(i + 1).drop_last() =~= bv.take(i as int));
            assert(av.take(i + 1).last() == av[i as int]);
        }
        acc = next;
        i = i + 1;
    }
    proof {
        assert(rat_views(this@).take(this@.len() as int) =~= rat_views(this@));
        assert(rat_views(other@).take(other@.len() as int) =~= rat_views(other@));
    }
    Some(acc)
}

/// If a checked step at position `i` fails, the whole checked dot
/// product fails.
proof fn lemma_dot_rv_none(a: Seq<(int, int)>, b: Seq<(int, int)>, i: int)
    requires
        a.len() == b.len(),
        0 <= i < a.len(),
        ({
            mul_rv(a[i], b[i]) is None || (dot_rv(a.take(i), b.take(i)) matches Some(s)
                && mul_rv(a[i], b[i]) matches Some(p) && add_rv(s, p) is None)
            || dot_rv(a.take(i), b.take(i)) is None
        }),
    ensures
        dot_rv(a, b) is None,
    decreases a.len() - i,
{
    if i == a.len() - 1 {
        assert(a.take(i) =~= a.drop_last());
        assert(b.take(i) =~= b.drop_last());
    } else {
        assert(a.drop_last().take(i) =~= a.take(i));
        assert(b.drop_last().take(i) =~= b.take(i));
        assert(a.drop_last()[i] == a[i]);
        assert(b.drop_last()[i] == b[i]);
        lemma_dot_rv_none(a.drop_last(), b.drop_last(), i);
    }
}

} // verus!
