//! Axis-aligned overlap tests for squares and cubes.

use vstd::prelude::*;
use crate::rat::{
    Rat, q_add, q_sub, q_abs, q_eq, q_le, q_wf, q_bounded, lemma_q_le_congr, lemma_q_sub_congr,
    lemma_q_abs_congr, lemma_q_eq_trans, lemma_mul_bound,
};
use crate::matrix::{lemma_q_ops_wf, lemma_fits_bound, SCALAR_BOUND};

verus! {

/// What an overlap test found.
pub enum CollisionInfo {
    /// The separating distances in 3d space.
    Separate3D {
        /// The overlapping distance at the front of the objects.
        top: Rat,
        /// The overlapping distance at the back of the objects.
        bottom: Rat,
        /// The overlapping distance at the right of the objects.
        right: Rat,
        /// The overlapping distance at the left of the objects.
        left: Rat,
        /// The overlapping distance above the objects.
        up: Rat,
        /// The overlapping distance below the objects.
        down: Rat,
    },
    /// The separating distances in 2d space.
    Separate2D {
        /// The overlapping distance at the top of the objects.
        top: Rat,
        /// The overlapping distance at the bottom of the objects.
        bottom: Rat,
        /// The overlapping distance at the right of the objects.
        right: Rat,
        /// The overlapping distance at the left of the objects.
        left: Rat,
    },
    /// The objects overlap.
    Overlapping,
    /// No collision has taken place.
    NoCollision,
}

/// A well-formed, machine-bounded rational pair.
pub open spec fn pair_ok(p: (Rat, Rat)) -> bool {
    &&& p.0.wf() && p.1.wf()
    &&& q_bounded(p.0@, SCALAR_BOUND as int)
    &&& q_bounded(p.1@, SCALAR_BOUND as int)
}

/// A well-formed, machine-bounded rational triple.
pub open spec fn triple_ok(p: (Rat, Rat, Rat)) -> bool {
    &&& p.0.wf() && p.1.wf() && p.2.wf()
    &&& q_bounded(p.0@, SCALAR_BOUND as int)
    &&& q_bounded(p.1@, SCALAR_BOUND as int)
    &&& q_bounded(p.2@, SCALAR_BOUND as int)
}

/// The squares' axis intervals do not overlap: one ends before the
/// other begins, on either axis.
pub open spec fn spec_no_collision_2d(
    pa: ((int, int), (int, int)),
    sa: ((int, int), (int, int)),
    pb: ((int, int), (int, int)),
    sb: ((int, int), (int, int)),
) -> bool {
    ||| q_le(q_add(pa.1, sa.1), pb.1)
    ||| q_le(q_add(pb.1, sb.1), pa.1)
    ||| q_le(q_add(pa.0, sa.0), pb.0)
    ||| q_le(q_add(pb.0, sb.0), pa.0)
}

/// The checked sum of two bounded scalars; always representable.
fn edge(p: Rat, s: Rat) -> (r: Rat)
    requires
        p.wf(),
        s.wf(),
        q_bounded(p@, SCALAR_BOUND as int),
        q_bounded(s@, SCALAR_BOUND as int),
    ensures
        r.wf(),
        q_eq(r@, q_add(p@, s@)),
        q_bounded(r@, 0x8000_0000),
{
    proof {
        lemma_mul_bound(p@.0, s@.1, SCALAR_BOUND as int, SCALAR_BOUND as int);
        lemma_mul_bound(s@.0, p@.1, SCALAR_BOUND as int, SCALAR_BOUND as int);
        lemma_mul_bound(p@.1, s@.1, SCALAR_BOUND as int, SCALAR_BOUND as int);
        lemma_q_ops_wf(p@, s@);
        lemma_fits_bound(q_add(p@, s@), 0x8000_0000);
    }
    p.add(s).unwrap()
}

/// The magnitude of the gap between an edge and a raw coordinate (one
/// of the two stays within the scalar bound).
fn gap(x: Rat, y: Rat) -> (r: Rat)
    requires
        x.wf(),
        y.wf(),
        q_bounded(x@, 0x8000_0000),
        q_bounded(y@, 0x8000_0000),
        q_bounded(x@, SCALAR_BOUND as int) || q_bounded(y@, SCALAR_BOUND as int),
    ensures
        r.wf(),
        q_eq(r@, q_abs(q_sub(x@, y@))),
{
    proof {
        if q_bounded(x@, SCALAR_BOUND as int) {
            lemma_mul_bound(x@.0, y@.1, 0x8000, 0x8000_0000);
            lemma_mul_bound(y@.0, x@.1, 0x8000_0000, 0x8000);
            lemma_mul_bound(x@.1, y@.1, 0x8000, 0x8000_0000);
        } else {
            lemma_mul_bound(x@.0, y@.1, 0x8000_0000, 0x8000);
            lemma_mul_bound(y@.0, x@.1, 0x8000, 0x8000_0000);
            lemma_mul_bound(x@.1, y@.1, 0x8000_0000, 0x8000);
        }
        lemma_q_ops_wf(x@, y@);
        lemma_fits_bound(q_sub(x@, y@), 0x8000_0000_0000);
    }
    let d = x.sub(y).unwrap();
    proof {
        d.lemma_wf_props();
        lemma_q_abs_congr(d@, q_sub(x@, y@));
    }
    d.abs_r()
}

/// Whether two axis-aligned squares overlap; with `separate`, by how
/// much on each side.
pub fn overlapping(
    pos_a: &(Rat, Rat),
    size_a: &(Rat, Rat),
    pos_b: &(Rat, Rat),
    size_b: &(Rat, Rat),
    separate: bool,
) -> (r: CollisionInfo)
    requires
        pair_ok(*pos_a),
        pair_ok(*size_a),
        pair_ok(*pos_b),
        pair_ok(*size_b),
    ensures
        ({
            let pa = (pos_a.0@, pos_a.1@);
            let sa = (size_a.0@, size_a.1@);
            let pb = (pos_b.0@, pos_b.1@);
            let sb = (size_b.0@, size_b.1@);
            if spec_no_collision_2d(pa, sa, pb, sb) {
                r == CollisionInfo::NoCollision
            } else if separate {
                r matches CollisionInfo::Separate2D { top, bottom, right, left }
                    && top.wf() && q_eq(top@, q_abs(q_sub(pa.1, q_add(pb.1, sb.1))))
                    && bottom.wf() && q_eq(bottom@, q_abs(q_sub(q_add(pa.1, sa.1), pb.1)))
                    && right.wf() && q_eq(right@, q_abs(q_sub(q_add(pa.0, sa.0), pb.0)))
                    && left.wf() && q_eq(left@, q_abs(q_sub(pa.0, q_add(pb.0, sb.0))))
            } else {
                r == CollisionInfo::Overlapping
            }
        }),
{
    let bottom_a = edge(pos_a.1, size_a.1);
    let bottom_b = edge(pos_b.1, size_b.1);
    let right_a = edge(pos_a.0, size_a.0);
    let right_b = edge(pos_b.0, size_b.0);
    proof {
        pos_a.0.lemma_wf_props();
        pos_a.1.lemma_wf_props();
        pos_b.0.lemma_wf_props();
        pos_b.1.lemma_wf_props();
        bottom_a.lemma_wf_props();
        bottom_b.lemma_wf_props();
        right_a.lemma_wf_props();
        right_b.lemma_wf_props();
        lemma_q_ops_wf(pos_a.1@, size_a.1@);
        lemma_q_ops_wf(pos_b.1@, size_b.1@);
        lemma_q_ops_wf(pos_a.0@, size_a.0@);
        lemma_q_ops_wf(pos_b.0@, size_b.0@);
        lemma_q_le_congr(bottom_a@, q_add(pos_a.1@, size_a.1@), pos_b.1@, pos_b.1@);
        lemma_q_le_congr(bottom_b@, q_add(pos_b.1@, size_b.1@), pos_a.1@, pos_a.1@);
        lemma_q_le_congr(right_a@, q_add(pos_a.0@, size_a.0@), pos_b.0@, pos_b.0@);
        lemma_q_le_congr(right_b@, q_add(pos_b.0@, size_b.0@), pos_a.0@, pos_a.0@);
    }
    if bottom_a.le(pos_b.1) {
        return CollisionInfo::NoCollision;
    }
    if bottom_b.le(pos_a.1) {
        return CollisionInfo::NoCollision;
    }
    if right_a.le(pos_b.0) {
        return CollisionInfo::NoCollision;
    }
    if right_b.le(pos_a.0) {
        return CollisionInfo::NoCollision;
    }

    if separate {
        let bottom_diff = gap(bottom_a, pos_b.1);
        let top_diff = gap(pos_a.1, bottom_b);
        let right_diff = gap(right_a, pos_b.0);
        let left_diff = gap(pos_a.0, right_b);
        proof {
            lemma_q_ops_wf(bottom_a@, pos_b.1@);
            lemma_q_ops_wf(q_add(pos_a.1@, size_a.1@), pos_b.1@);
            lemma_q_ops_wf(pos_a.1@, bottom_b@);
            lemma_q_ops_wf(pos_a.1@, q_add(pos_b.1@, size_b.1@));
            lemma_q_ops_wf(right_a@, pos_b.0@);
            lemma_q_ops_wf(q_add(pos_a.0@, size_a.0@), pos_b.0@);
            lemma_q_ops_wf(pos_a.0@, right_b@);
            lemma_q_ops_wf(pos_a.0@, q_add(pos_b.0@, size_b.0@));
            lemma_q_sub_congr(bottom_a@, q_add(pos_a.1@, size_a.1@), pos_b.1@, pos_b.1@);
            lemma_q_abs_congr(q_sub(bottom_a@, pos_b.1@), q_sub(q_add(pos_a.1@, size_a.1@), pos_b.1@));
            bottom_diff.lemma_wf_props();
            lemma_abs_chain(bottom_diff@, q_sub(bottom_a@, pos_b.1@), q_sub(q_add(pos_a.1@, size_a.1@), pos_b.1@));
            lemma_q_sub_congr(pos_a.1@, pos_a.1@, bottom_b@, q_add(pos_b.1@, size_b.1@));
            lemma_q_abs_congr(q_sub(pos_a.1@, bottom_b@), q_sub(pos_a.1@, q_add(pos_b.1@, size_b.1@)));
            top_diff.lemma_wf_props();
            lemma_abs_chain(top_diff@, q_sub(pos_a.1@, bottom_b@), q_sub(pos_a.1@, q_add(pos_b.1@, size_b.1@)));
            lemma_q_sub_congr(right_a@, q_add(pos_a.0@, size_a.0@), pos_b.0@, pos_b.0@);
            lemma_q_abs_congr(q_sub(right_a@, pos_b.0@), q_sub(q_add(pos_a.0@, size_a.0@), pos_b.0@));
            right_diff.lemma_wf_props();
            lemma_abs_chain(right_diff@, q_sub(right_a@, pos_b.0@), q_sub(q_add(pos_a.0@, size_a.0@), pos_b.0@));
            lemma_q_sub_congr(pos_a.0@, pos_a.0@, right_b@, q_add(pos_b.0@, size_b.0@));
            lemma_q_abs_congr(q_sub(pos_a.0@, right_b@), q_sub(pos_a.0@, q_add(pos_b.0@, size_b.0@)));
            left_diff.lemma_wf_props();
            lemma_abs_chain(left_diff@, q_sub(pos_a.0@, right_b@), q_sub(pos_a.0@, q_add(pos_b.0@, size_b.0@)));
        }
        return CollisionInfo::Separate2D {
            top: top_diff,
            bottom: bottom_diff,
            right: right_diff,
            left: left_diff,
        };
    }

    CollisionInfo::Overlapping
}

/// Chain a computed magnitude through the congruence of subtraction.
proof fn lemma_abs_chain(v: (int, int), mid: (int, int), target: (int, int))
    requires
        q_wf(v),
        q_wf(mid),
        q_wf(target),
        q_eq(v, q_abs(mid)),
        q_eq(q_abs(mid), q_abs(target)),
    ensures
        q_eq(v, q_abs(target)),
{
    assert(q_wf(q_abs(mid)));
    assert(q_wf(q_abs(target)));
    lemma_q_eq_trans(v, q_abs(mid), q_abs(target));
}

/// The cubes' intervals fail to meet on some axis.
pub open spec fn spec_no_collision_3d(
    pa: ((int, int), (int, int), (int, int)),
    sa: ((int, int), (int, int), (int, int)),
    pb: ((int, int), (int, int), (int, int)),
    sb: ((int, int), (int, int), (int, int)),
) -> bool {
    ||| spec_no_collision_2d((pa.0, pa.2), (sa.0, sa.2), (pb.0, pb.2), (sb.0, sb.2))
    ||| q_le(q_add(pa.1, sa.1), pb.1)
    ||| q_le(q_add(pb.1, sb.1), pa.1)
}

/// Whether two axis-aligned cubes overlap; with `separate`, by how much
/// on each side.
pub fn overlapping_3d(
    pos_a: &(Rat, Rat, Rat),
    size_a: &(Rat, Rat, Rat),
    pos_b: &(Rat, Rat, Rat),
    size_b: &(Rat, Rat, Rat),
    separate: bool,
) -> (r: CollisionInfo)
    requires
        triple_ok(*pos_a),
        triple_ok(*size_a),
        triple_ok(*pos_b),
        triple_ok(*size_b),
    ensures
        ({
            let pa = (pos_a.0@, pos_a.1@, pos_a.2@);
            let sa = (size_a.0@, size_a.1@, size_a.2@);
            let pb = (pos_b.0@, pos_b.1@, pos_b.2@);
            let sb = (size_b.0@, size_b.1@, size_b.2@);
            if spec_no_collision_3d(pa, sa, pb, sb) {
                r == CollisionInfo::NoCollision
            } else if separate {
                r matches CollisionInfo::Separate3D { top, bottom, right, left, up, down }
                    && top.wf() && q_eq(top@, q_abs(q_sub(pa.2, q_add(pb.2, sb.2))))
                    && bottom.wf() && q_eq(bottom@, q_abs(q_sub(q_add(pa.2, sa.2), pb.2)))
                    && right.wf() && q_eq(right@, q_abs(q_sub(q_add(pa.0, sa.0), pb.0)))
                    && left.wf() && q_eq(left@, q_abs(q_sub(pa.0, q_add(pb.0, sb.0))))
                    && up.wf() && q_eq(up@, q_abs(q_sub(pa.1, q_add(pb.1, sb.1))))
                    && down.wf() && q_eq(down@, q_abs(q_sub(q_add(pa.1, sa.1), pb.1)))
            } else {
                r == CollisionInfo::Overlapping
            }
        }),
{
    let check_2d = overlapping(
        &(pos_a.0, pos_a.2),
        &(size_a.0, size_a.2),
        &(pos_b.0, pos_b.2),
        &(size_b.0, size_b.2),
        separate,
    );
    if let CollisionInfo::NoCollision = check_2d {
        return CollisionInfo::NoCollision;
    }

    let down_a = edge(pos_a.1, size_a.1);
    let down_b = edge(pos_b.1, size_b.1);
    proof {
        pos_a.1.lemma_wf_props();
        pos_b.1.lemma_wf_props();
        down_a.lemma_wf_props();
        down_b.lemma_wf_props();
        lemma_q_ops_wf(pos_a.1@, size_a.1@);
        lemma_q_ops_wf(pos_b.1@, size_b.1@);
        lemma_q_le_congr(down_a@, q_add(pos_a.1@, size_a.1@), pos_b.1@, pos_b.1@);
        lemma_q_le_congr(down_b@, q_add(pos_b.1@, size_b.1@), pos_a.1@, pos_a.1@);
    }
    if down_a.le(pos_b.1) {
        return CollisionInfo::NoCollision;
    }
    if down_b.le(pos_a.1) {
        return CollisionInfo::NoCollision;
    }

    if let CollisionInfo::Separate2D { top: t, bottom: b, right: rg, left: l } = check_2d {
        let up_diff = gap(pos_a.1, down_b);
        let down_diff = gap(down_a, pos_b.1);
        proof {
            lemma_q_ops_wf(pos_a.1@, down_b@);
            lemma_q_ops_wf(pos_a.1@, q_add(pos_b.1@, size_b.1@));
            lemma_q_ops_wf(down_a@, pos_b.1@);
            lemma_q_ops_wf(q_add(pos_a.1@, size_a.1@), pos_b.1@);
            lemma_q_sub_congr(pos_a.1@, pos_a.1@, down_b@, q_add(pos_b.1@, size_b.1@));
            lemma_q_abs_congr(q_sub(pos_a.1@, down_b@), q_sub(pos_a.1@, q_add(pos_b.1@, size_b.1@)));
            up_diff.lemma_wf_props();
            lemma_abs_chain(up_diff@, q_sub(pos_a.1@, down_b@), q_sub(pos_a.1@, q_add(pos_b.1@, size_b.1@)));
            lemma_q_sub_congr(down_a@, q_add(pos_a.1@, size_a.1@), pos_b.1@, pos_b.1@);
            lemma_q_abs_congr(q_sub(down_a@, pos_b.1@), q_sub(q_add(pos_a.1@, size_a.1@), pos_b.1@));
            down_diff.lemma_wf_props();
            lemma_abs_chain(down_diff@, q_sub(down_a@, pos_b.1@), q_sub(q_add(pos_a.1@, size_a.1@), pos_b.1@));
        }
        return CollisionInfo::Separate3D {
            top: t,
            bottom: b,
            right: rg,
            left: l,
            up: up_diff,
            down: down_diff,
        };
    }

    CollisionInfo::Overlapping
}

} // verus!
