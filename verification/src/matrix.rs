//! Camera matrices over exact rationals.
//!
//! Matrices are stored column major, as the graphics backend expects:
//! `m[c][r]` is the entry in column `c`, row `r`, and a matrix is applied
//! to column vectors. The product `mul_mat4(p, v)` therefore composes `v`
//! first and `p` second, the order the camera pipeline uses for
//! `projection x view`.

use vstd::prelude::*;
use crate::rat::{
    Rat, q_add, q_sub, q_mul, q_neg, q_div, q_eq, q_lt, q_wf, q_bounded, q_fits, q_reduced,
    lemma_reduced_eq, lemma_q_eq_trans, lemma_q_add_congr, lemma_q_mul_congr,
    lemma_q_div_congr, lemma_q_eq_sign, lemma_mul_bound, lemma_q_neg_congr,
};

verus! {

/// A 4x4 rational matrix, column major: `m[c][r]` is row `r` of column `c`.
pub type Matrix4 = [[Rat; 4]; 4];

/// The magnitude bound on scalar components under which the projection
/// builder is total.
pub const SCALAR_BOUND: i64 = 32768;

/// Every entry is a well-formed rational.
pub open spec fn mat_wf(m: Matrix4) -> bool {
    forall|c: int, r: int| 0 <= c < 4 && 0 <= r < 4 ==> (#[trigger] m[c][r]).wf()
}

/// The checked, lowest-terms sum: what `Rat::add` yields.
pub open spec fn add_rv(a: (int, int), b: (int, int)) -> Option<(int, int)> {
    if q_fits(q_add(a, b)) {
        Some(q_reduced(q_add(a, b)))
    } else {
        None
    }
}

/// The checked, lowest-terms product: what `Rat::mul` yields.
pub open spec fn mul_rv(a: (int, int), b: (int, int)) -> Option<(int, int)> {
    if q_fits(q_mul(a, b)) {
        Some(q_reduced(q_mul(a, b)))
    } else {
        None
    }
}

/// The textbook entry of the column-major product: row `r` of column `c`
/// of `a x b`, as an unreduced rational.
pub open spec fn q_mm(a: Matrix4, b: Matrix4, c: int, r: int) -> (int, int) {
    q_add(
        q_add(
            q_add(q_mul(a[0][r]@, b[c][0]@), q_mul(a[1][r]@, b[c][1]@)),
            q_mul(a[2][r]@, b[c][2]@),
        ),
        q_mul(a[3][r]@, b[c][3]@),
    )
}

/// The checked evaluation of one product entry, step for step as the
/// executable code performs it.
pub open spec fn mm_entry(a: Matrix4, b: Matrix4, c: int, r: int) -> Option<(int, int)> {
    match (
        mul_rv(a[0][r]@, b[c][0]@),
        mul_rv(a[1][r]@, b[c][1]@),
        mul_rv(a[2][r]@, b[c][2]@),
        mul_rv(a[3][r]@, b[c][3]@),
    ) {
        (Some(p0), Some(p1), Some(p2), Some(p3)) => match add_rv(p0, p1) {
            Some(s1) => match add_rv(s1, p2) {
                Some(s2) => add_rv(s2, p3),
                None => None,
            },
            None => None,
        },
        _ => None,
    }
}

/// When the checked evaluation of a product entry comes through, its
/// value is the textbook entry of the column-major product.
pub proof fn lemma_mm_entry_value(a: Matrix4, b: Matrix4, c: int, r: int)
    requires
        mat_wf(a),
        mat_wf(b),
        0 <= c < 4,
        0 <= r < 4,
        mm_entry(a, b, c, r) is Some,
    ensures
        q_wf(mm_entry(a, b, c, r).unwrap()),
        q_eq(mm_entry(a, b, c, r).unwrap(), q_mm(a, b, c, r)),
{
    a[0][r].lemma_wf_props();
    a[1][r].lemma_wf_props();
    a[2][r].lemma_wf_props();
    a[3][r].lemma_wf_props();
    b[c][0].lemma_wf_props();
    b[c][1].lemma_wf_props();
    b[c][2].lemma_wf_props();
    b[c][3].lemma_wf_props();
    let p0u = q_mul(a[0][r]@, b[c][0]@);
    let p1u = q_mul(a[1][r]@, b[c][1]@);
    let p2u = q_mul(a[2][r]@, b[c][2]@);
    let p3u = q_mul(a[3][r]@, b[c][3]@);
    lemma_q_ops_wf(a[0][r]@, b[c][0]@);
    lemma_q_ops_wf(a[1][r]@, b[c][1]@);
    lemma_q_ops_wf(a[2][r]@, b[c][2]@);
    lemma_q_ops_wf(a[3][r]@, b[c][3]@);
    let p0 = q_reduced(p0u);
    let p1 = q_reduced(p1u);
    let p2 = q_reduced(p2u);
    let p3 = q_reduced(p3u);
    lemma_reduced_eq(p0u);
    lemma_reduced_eq(p1u);
    lemma_reduced_eq(p2u);
    lemma_reduced_eq(p3u);
    let s1u = q_add(p0, p1);
    let s1 = q_reduced(s1u);
    lemma_q_ops_wf(p0, p1);
    lemma_reduced_eq(s1u);
    lemma_q_add_congr(p0, p0u, p1, p1u);
    lemma_q_ops_wf(p0u, p1u);
    lemma_q_eq_trans(s1, s1u, q_add(p0u, p1u));
    let s2u = q_add(s1, p2);
    let s2 = q_reduced(s2u);
    lemma_q_ops_wf(s1, p2);
    lemma_reduced_eq(s2u);
    lemma_q_add_congr(s1, q_add(p0u, p1u), p2, p2u);
    lemma_q_ops_wf(q_add(p0u, p1u), p2u);
    lemma_q_eq_trans(s2, s2u, q_add(q_add(p0u, p1u), p2u));
    let s3u = q_add(s2, p3);
    let s3 = q_reduced(s3u);
    lemma_q_ops_wf(s2, p3);
    lemma_reduced_eq(s3u);
    lemma_q_add_congr(s2, q_add(q_add(p0u, p1u), p2u), p3, p3u);
    lemma_q_ops_wf(q_add(q_add(p0u, p1u), p2u), p3u);
    lemma_q_eq_trans(s3, s3u, q_mm(a, b, c, r));
    assert(mm_entry(a, b, c, r) == Some(s3));
}

/// Well-formedness of the unreduced rational operations.
pub proof fn lemma_q_ops_wf(a: (int, int), b: (int, int))
    by (nonlinear_arith)
    requires
        q_wf(a),
        q_wf(b),
    ensures
        q_wf(q_add(a, b)),
        q_wf(q_sub(a, b)),
        q_wf(q_mul(a, b)),
        q_wf(q_neg(a)),
{
}

/// Well-formedness of the unreduced quotient.
pub proof fn lemma_q_div_wf(a: (int, int), b: (int, int))
    by (nonlinear_arith)
    requires
        q_wf(a),
        q_wf(b),
        b.0 != 0,
    ensures
        q_wf(q_div(a, b)),
{
}

/// A rational whose components stay within `b` fits after reduction, and
/// its lowest terms stay within `b` as well.
pub proof fn lemma_fits_bound(x: (int, int), b: int)
    requires
        q_wf(x),
        -b <= x.0 <= b,
        x.1 <= b,
        0 < b <= 0x7fff_ffff_ffff_ffff,
    ensures
        q_fits(x),
        q_bounded(q_reduced(x), b),
        q_eq(q_reduced(x), x),
        q_wf(q_reduced(x)),
{
    lemma_reduced_eq(x);
}

/// The `w` term `2*znear/(xmax - xmin)` of the standard symmetric
/// perspective projection, where `xmax = znear*tan(fov/2)*aspect` and
/// `xmin = -xmax`.
pub open spec fn proj_w_q(t: (int, int), asp: (int, int), zn: (int, int)) -> (int, int) {
    q_div(
        q_mul((2int, 1int), zn),
        q_sub(q_mul(q_mul(zn, t), asp), q_neg(q_mul(q_mul(zn, t), asp))),
    )
}

/// The `h` term `2*znear/(ymax - ymin)`, where `ymax = znear*tan(fov/2)`
/// and `ymin = -ymax`.
pub open spec fn proj_h_q(t: (int, int), zn: (int, int)) -> (int, int) {
    q_div(q_mul((2int, 1int), zn), q_sub(q_mul(zn, t), q_neg(q_mul(zn, t))))
}

/// The depth term `q = -(zfar + znear)/(zfar - znear)`.
pub open spec fn proj_q_q(zn: (int, int), zf: (int, int)) -> (int, int) {
    q_div(q_neg(q_add(zf, zn)), q_sub(zf, zn))
}

/// The depth term `qn = -2*zfar*znear/(zfar - znear)`.
pub open spec fn proj_qn_q(zn: (int, int), zf: (int, int)) -> (int, int) {
    q_div(q_neg(q_mul((2int, 1int), q_mul(zf, zn))), q_sub(zf, zn))
}

/// Doubling a rational equals subtracting its negation from it.
proof fn lemma_two_x(x: (int, int))
    by (nonlinear_arith)
    requires
        q_wf(x),
    ensures
        q_eq(q_mul((2int, 1int), x), q_sub(x, q_neg(x))),
        q_wf(q_sub(x, q_neg(x))),
        x.0 > 0 ==> q_sub(x, q_neg(x)).0 > 0,
{
}

/// The standard symmetric perspective projection, column major, mapping
/// view-space `z` to the clip range `[-1, 1]`.
///
/// `t` is the tangent of half the vertical field of view; `asp` the
/// aspect ratio; `zn` and `zf` the near and far distances. Entries:
/// column 0 is `[w, 0, 0, 0]`, column 1 `[0, h, 0, 0]`, column 2
/// `[0, 0, q, -1]`, column 3 `[0, 0, qn, 0]`, with the terms as in the
/// spec functions above.
pub fn build_persp_proj_mat(t: Rat, asp: Rat, zn: Rat, zf: Rat) -> (m: Matrix4)
    requires
        t.wf(),
        asp.wf(),
        zn.wf(),
        zf.wf(),
        q_bounded(t@, SCALAR_BOUND as int),
        q_bounded(asp@, SCALAR_BOUND as int),
        q_bounded(zn@, SCALAR_BOUND as int),
        q_bounded(zf@, SCALAR_BOUND as int),
        t@.0 > 0,
        asp@.0 > 0,
        zn@.0 > 0,
        q_lt(zn@, zf@),
    ensures
        mat_wf(m),
        q_eq(m[0][0]@, proj_w_q(t@, asp@, zn@)),
        q_eq(m[1][1]@, proj_h_q(t@, zn@)),
        q_eq(m[2][2]@, proj_q_q(zn@, zf@)),
        q_eq(m[3][2]@, proj_qn_q(zn@, zf@)),
        m[2][3]@ == (-1int, 1int),
        m[0][1]@ == (0int, 1int) && m[0][2]@ == (0int, 1int) && m[0][3]@ == (0int, 1int),
        m[1][0]@ == (0int, 1int) && m[1][2]@ == (0int, 1int) && m[1][3]@ == (0int, 1int),
        m[2][0]@ == (0int, 1int) && m[2][1]@ == (0int, 1int),
        m[3][0]@ == (0int, 1int) && m[3][1]@ == (0int, 1int) && m[3][3]@ == (0int, 1int),
{
    let two = Rat::from_int(2);
    let ghost b0: int = SCALAR_BOUND as int;

    // ymax = znear * tan(fov/2)
    proof {
        lemma_mul_bound(t@.0, zn@.0, b0, b0);
        lemma_mul_bound(zn@.0, t@.0, b0, b0);
        lemma_mul_bound(zn@.1, t@.1, b0, b0);
        lemma_q_ops_wf(zn@, t@);
        lemma_fits_bound(q_mul(zn@, t@), 0x4000_0000);
    }
    let ymax = zn.mul(t).unwrap();
    proof {
        assert(q_mul(zn@, t@).0 > 0) by (nonlinear_arith)
            requires zn@.0 > 0 && t@.0 > 0,
        ;
        ymax.lemma_wf_props();
        lemma_q_eq_sign(ymax@, q_mul(zn@, t@));
    }

    // xmax = ymax * aspect
    proof {
        lemma_mul_bound(ymax@.0, asp@.0, 0x4000_0000, b0);
        lemma_mul_bound(ymax@.1, asp@.1, 0x4000_0000, b0);
        lemma_q_ops_wf(ymax@, asp@);
        lemma_fits_bound(q_mul(ymax@, asp@), 0x2000_0000_0000);
    }
    let xmax = ymax.mul(asp).unwrap();
    proof {
        assert(q_mul(ymax@, asp@).0 > 0) by (nonlinear_arith)
            requires ymax@.0 > 0 && asp@.0 > 0,
        ;
        xmax.lemma_wf_props();
        lemma_q_eq_sign(xmax@, q_mul(ymax@, asp@));
    }

    // width = xmax - xmin = 2 * xmax
    proof {
        lemma_mul_bound(two@.0, xmax@.0, 2, 0x2000_0000_0000);
        lemma_mul_bound(two@.1, xmax@.1, 1, 0x2000_0000_0000);
        lemma_q_ops_wf(two@, xmax@);
        lemma_fits_bound(q_mul(two@, xmax@), 0x4000_0000_0000);
    }
    let width = two.mul(xmax).unwrap();
    proof {
        assert(q_mul(two@, xmax@).0 > 0) by (nonlinear_arith)
            requires xmax@.0 > 0 && two@.0 == 2,
        ;
        width.lemma_wf_props();
        lemma_q_eq_sign(width@, q_mul(two@, xmax@));
    }

    // height = ymax - ymin = 2 * ymax
    proof {
        lemma_mul_bound(two@.0, ymax@.0, 2, 0x4000_0000);
        lemma_mul_bound(two@.1, ymax@.1, 1, 0x4000_0000);
        lemma_q_ops_wf(two@, ymax@);
        lemma_fits_bound(q_mul(two@, ymax@), 0x8000_0000);
    }
    let height = two.mul(ymax).unwrap();
    proof {
        assert(q_mul(two@, ymax@).0 > 0) by (nonlinear_arith)
            requires ymax@.0 > 0 && two@.0 == 2,
        ;
        height.lemma_wf_props();
        lemma_q_eq_sign(height@, q_mul(two@, ymax@));
    }

    // 2 * znear
    proof {
        lemma_mul_bound(two@.0, zn@.0, 2, b0);
        lemma_mul_bound(two@.1, zn@.1, 1, b0);
        lemma_q_ops_wf(two@, zn@);
        lemma_fits_bound(q_mul(two@, zn@), 0x1_0000);
    }
    let n2zn = two.mul(zn).unwrap();
    proof {
        n2zn.lemma_wf_props();
    }

    // w = 2*znear / width
    proof {
        lemma_mul_bound(n2zn@.0, width@.1, 0x1_0000, 0x4000_0000_0000);
        lemma_mul_bound(n2zn@.1, width@.0, 0x1_0000, 0x4000_0000_0000);
        lemma_q_div_wf(n2zn@, width@);
        lemma_fits_bound(q_div(n2zn@, width@), 0x4000_0000_0000_0000);
    }
    let wv = n2zn.div(width).unwrap();
    proof {
        wv.lemma_wf_props();
    }

    // h = 2*znear / height
    proof {
        lemma_mul_bound(n2zn@.0, height@.1, 0x1_0000, 0x8000_0000);
        lemma_mul_bound(n2zn@.1, height@.0, 0x1_0000, 0x8000_0000);
        lemma_q_div_wf(n2zn@, height@);
        lemma_fits_bound(q_div(n2zn@, height@), 0x4000_0000_0000_0000);
    }
    let hv = n2zn.div(height).unwrap();
    proof {
        hv.lemma_wf_props();
    }

    // zfar + znear and zfar - znear
    proof {
        lemma_mul_bound(zf@.0, zn@.1, b0, b0);
        lemma_mul_bound(zn@.0, zf@.1, b0, b0);
        lemma_mul_bound(zf@.1, zn@.1, b0, b0);
        lemma_q_ops_wf(zf@, zn@);
        lemma_fits_bound(q_add(zf@, zn@), 0x8000_0000);
        lemma_fits_bound(q_sub(zf@, zn@), 0x8000_0000);
    }
    let qsum = zf.add(zn).unwrap();
    let depth = zf.sub(zn).unwrap();
    proof {
        qsum.lemma_wf_props();
        depth.lemma_wf_props();
        assert(q_sub(zf@, zn@).0 > 0);
        lemma_q_eq_sign(depth@, q_sub(zf@, zn@));
    }

    // q = -(zfar + znear) / (zfar - znear)
    let qneg = qsum.neg();
    proof {
        qneg.lemma_wf_props();
        lemma_mul_bound(qneg@.0, depth@.1, 0x8000_0000, 0x8000_0000);
        lemma_mul_bound(qneg@.1, depth@.0, 0x8000_0000, 0x8000_0000);
        lemma_q_div_wf(qneg@, depth@);
        lemma_fits_bound(q_div(qneg@, depth@), 0x4000_0000_0000_0000);
    }
    let qv = qneg.div(depth).unwrap();
    proof {
        qv.lemma_wf_props();
    }

    // qn = -2*zfar*znear / (zfar - znear)
    proof {
        lemma_mul_bound(zf@.0, zn@.0, b0, b0);
        lemma_q_ops_wf(zf@, zn@);
        lemma_fits_bound(q_mul(zf@, zn@), 0x4000_0000);
    }
    let zfzn = zf.mul(zn).unwrap();
    proof {
        zfzn.lemma_wf_props();
        lemma_mul_bound(two@.0, zfzn@.0, 2, 0x4000_0000);
        lemma_mul_bound(two@.1, zfzn@.1, 1, 0x4000_0000);
        lemma_q_ops_wf(two@, zfzn@);
        lemma_fits_bound(q_mul(two@, zfzn@), 0x8000_0000);
    }
    let n2zfzn = two.mul(zfzn).unwrap();
    let qnneg = n2zfzn.neg();
    proof {
        n2zfzn.lemma_wf_props();
        qnneg.lemma_wf_props();
        lemma_mul_bound(qnneg@.0, depth@.1, 0x8000_0000, 0x8000_0000);
        lemma_mul_bound(qnneg@.1, depth@.0, 0x8000_0000, 0x8000_0000);
        lemma_q_div_wf(qnneg@, depth@);
        lemma_fits_bound(q_div(qnneg@, depth@), 0x4000_0000_0000_0000);
    }
    let qnv = qnneg.div(depth).unwrap();
    proof {
        qnv.lemma_wf_props();
    }

    let zero = Rat::from_int(0);
    let negone = Rat::from_int(-1);
    let m: Matrix4 = [
        [wv, zero, zero, zero],
        [zero, hv, zero, zero],
        [zero, zero, qv, negone],
        [zero, zero, qnv, zero],
    ];
    proof {
        // w matches the spec formula
        let xm = q_mul(q_mul(zn@, t@), asp@);
        lemma_q_ops_wf(q_mul(zn@, t@), asp@);
        lemma_q_mul_congr(ymax@, q_mul(zn@, t@), asp@, asp@);
        lemma_q_eq_trans(xmax@, q_mul(ymax@, asp@), xm);
        lemma_q_mul_congr(two@, two@, xmax@, xm);
        lemma_q_ops_wf(two@, xm);
        lemma_q_eq_trans(width@, q_mul(two@, xmax@), q_mul((2int, 1int), xm));
        lemma_two_x(xm);
        assert((zn@.0 * t@.0) * asp@.0 > 0) by (nonlinear_arith)
            requires
                zn@.0 > 0 && t@.0 > 0 && asp@.0 > 0,
        ;
        assert(xm.0 == (zn@.0 * t@.0) * asp@.0);
        lemma_q_eq_trans(width@, q_mul((2int, 1int), xm), q_sub(xm, q_neg(xm)));
        lemma_q_eq_sign(width@, q_sub(xm, q_neg(xm)));
        lemma_q_div_congr(n2zn@, q_mul((2int, 1int), zn@), width@, q_sub(xm, q_neg(xm)));
        lemma_q_div_wf(q_mul((2int, 1int), zn@), q_sub(xm, q_neg(xm)));
        lemma_q_eq_trans(wv@, q_div(n2zn@, width@), proj_w_q(t@, asp@, zn@));

        // h matches the spec formula
        let ym = q_mul(zn@, t@);
        lemma_q_mul_congr(two@, two@, ymax@, ym);
        lemma_q_ops_wf(two@, ym);
        lemma_q_eq_trans(height@, q_mul(two@, ymax@), q_mul((2int, 1int), ym));
        lemma_two_x(ym);
        lemma_q_eq_trans(height@, q_mul((2int, 1int), ym), q_sub(ym, q_neg(ym)));
        lemma_q_eq_sign(height@, q_sub(ym, q_neg(ym)));
        lemma_q_div_congr(n2zn@, q_mul((2int, 1int), zn@), height@, q_sub(ym, q_neg(ym)));
        lemma_q_div_wf(q_mul((2int, 1int), zn@), q_sub(ym, q_neg(ym)));
        lemma_q_eq_trans(hv@, q_div(n2zn@, height@), proj_h_q(t@, zn@));

        // q matches the spec formula
        lemma_q_ops_wf(zf@, zn@);
        lemma_q_neg_congr(qsum@, q_add(zf@, zn@));
        assert(q_eq(qneg@, q_neg(q_add(zf@, zn@))));
        lemma_q_eq_sign(depth@, q_sub(zf@, zn@));
        lemma_q_div_congr(qneg@, q_neg(q_add(zf@, zn@)), depth@, q_sub(zf@, zn@));
        lemma_q_div_wf(q_neg(q_add(zf@, zn@)), q_sub(zf@, zn@));
        lemma_q_eq_trans(qv@, q_div(qneg@, depth@), proj_q_q(zn@, zf@));

        // qn matches the spec formula
        lemma_q_mul_congr(two@, two@, zfzn@, q_mul(zf@, zn@));
        lemma_q_ops_wf(two@, q_mul(zf@, zn@));
        lemma_q_eq_trans(n2zfzn@, q_mul(two@, zfzn@), q_mul((2int, 1int), q_mul(zf@, zn@)));
        lemma_q_neg_congr(n2zfzn@, q_mul((2int, 1int), q_mul(zf@, zn@)));
        assert(q_eq(qnneg@, q_neg(q_mul((2int, 1int), q_mul(zf@, zn@)))));
        lemma_q_div_congr(
            qnneg@,
            q_neg(q_mul((2int, 1int), q_mul(zf@, zn@))),
            depth@,
            q_sub(zf@, zn@),
        );
        lemma_q_div_wf(q_neg(q_mul((2int, 1int), q_mul(zf@, zn@))), q_sub(zf@, zn@));
        lemma_q_eq_trans(qnv@, q_div(qnneg@, depth@), proj_qn_q(zn@, zf@));

        assert forall|c: int, r: int| 0 <= c < 4 && 0 <= r < 4 implies (#[trigger] m[c][r]).wf()
        by {
            if c == 0 {
                assert(m[0][0] == wv && m[0][1] == zero && m[0][2] == zero && m[0][3] == zero);
            } else if c == 1 {
                assert(m[1][0] == zero && m[1][1] == hv && m[1][2] == zero && m[1][3] == zero);
            } else if c == 2 {
                assert(m[2][0] == zero && m[2][1] == zero && m[2][2] == qv && m[2][3] == negone);
            } else {
                assert(m[3][0] == zero && m[3][1] == zero && m[3][2] == qnv && m[3][3] == zero);
            }
        }
    }
    m
}

/// One entry of the column-major matrix product, checked.
fn mul_entry(a: &Matrix4, b: &Matrix4, c: usize, r: usize) -> (res: Option<Rat>)
    requires
        mat_wf(*a),
        mat_wf(*b),
        c < 4,
        r < 4,
    ensures
        (res matches Some(v) ==> v.wf() && mm_entry(*a, *b, c as int, r as int) == Some(v@)),
        res is None <==> mm_entry(*a, *b, c as int, r as int) is None,
{
    let p0 = match a[0][r].mul(b[c][0]) {
        Some(v) => v,
        None => {
            return None;
        },
    };
    let p1 = match a[1][r].mul(b[c][1]) {
        Some(v) => v,
        None => {
            return None;
        },
    };
    let p2 = match a[2][r].mul(b[c][2]) {
        Some(v) => v,
        None => {
            return None;
        },
    };
    let p3 = match a[3][r].mul(b[c][3]) {
        Some(v) => v,
        None => {
            return None;
        },
    };
    let s1 = match p0.add(p1) {
        Some(v) => v,
        None => {
            return None;
        },
    };
    let s2 = match s1.add(p2) {
        Some(v) => v,
        None => {
            return None;
        },
    };
    s2.add(p3)
}

/// The column-major product of two matrices: `r` composes `b` first and
/// `a` second. `None` exactly when some entry's checked evaluation
/// overflows.
pub fn mul_mat4(a: &Matrix4, b: &Matrix4) -> (res: Option<Matrix4>)
    requires
        mat_wf(*a),
        mat_wf(*b),
    ensures
        (res matches Some(m) ==> mat_wf(m) && forall|c: int, r: int|
            0 <= c < 4 && 0 <= r < 4 ==> #[trigger] mm_entry(*a, *b, c, r) == Some(m[c][r]@)),
        res is None ==> exists|c: int, r: int|
            0 <= c < 4 && 0 <= r < 4 && #[trigger] mm_entry(*a, *b, c, r) is None,
{
    let e00 = match mul_entry(a, b, 0, 0) {
        Some(v) => v,
        None => {
            return None;
        },
    };
    let e01 = match mul_entry(a, b, 0, 1) {
        Some(v) => v,
        None => {
            return None;
        },
    };
    let e02 = match mul_entry(a, b, 0, 2) {
        Some(v) => v,
        None => {
            return None;
        },
    };
    let e03 = match mul_entry(a, b, 0, 3) {
        Some(v) => v,
        None => {
            return None;
        },
    };
    let e10 = match mul_entry(a, b, 1, 0) {
        Some(v) => v,
        None => {
            return None;
        },
    };
    let e11 = match mul_entry(a, b, 1, 1) {
        Some(v) => v,
        None => {
            return None;
        },
    };
    let e12 = match mul_entry(a, b, 1, 2) {
        Some(v) => v,
        None => {
            return None;
        },
    };
    let e13 = match mul_entry(a, b, 1, 3) {
        Some(v) => v,
        None => {
            return None;
        },
    };
    let e20 = match mul_entry(a, b, 2, 0) {
        Some(v) => v,
        None => {
            return None;
        },
    };
    let e21 = match mul_entry(a, b, 2, 1) {
        Some(v) => v,
        None => {
            return None;
        },
    };
    let e22 = match mul_entry(a, b, 2, 2) {
        Some(v) => v,
        None => {
            return None;
        },
    };
    let e23 = match mul_entry(a, b, 2, 3) {
        Some(v) => v,
        None => {
            return None;
        },
    };
    let e30 = match mul_entry(a, b, 3, 0) {
        Some(v) => v,
        None => {
            return None;
        },
    };
    let e31 = match mul_entry(a, b, 3, 1) {
        Some(v) => v,
        None => {
            return None;
        },
    };
    let e32 = match mul_entry(a, b, 3, 2) {
        Some(v) => v,
        None => {
            return None;
        },
    };
    let e33 = match mul_entry(a, b, 3, 3) {
        Some(v) => v,
        None => {
            return None;
        },
    };
    let m: Matrix4 = [
        [e00, e01, e02, e03],
        [e10, e11, e12, e13],
        [e20, e21, e22, e23],
        [e30, e31, e32, e33],
    ];
    proof {
        assert forall|c: int, r: int| 0 <= c < 4 && 0 <= r < 4 implies #[trigger] mm_entry(
            *a,
            *b,
            c,
            r,
        ) == Some(m[c][r]@) && m[c][r].wf() by {
            if c == 0 {
                assert(m[0][0] == e00 && m[0][1] == e01 && m[0][2] == e02 && m[0][3] == e03);
            } else if c == 1 {
                assert(m[1][0] == e10 && m[1][1] == e11 && m[1][2] == e12 && m[1][3] == e13);
            } else if c == 2 {
                assert(m[2][0] == e20 && m[2][1] == e21 && m[2][2] == e22 && m[2][3] == e23);
            } else {
                assert(m[3][0] == e30 && m[3][1] == e31 && m[3][2] == e32 && m[3][3] == e33);
            }
        }
    }
    Some(m)
}

/// The checked dot product of two rational 3-vectors, step for step as
/// the executable code folds it.
pub open spec fn dot3_rv(
    a: ((int, int), (int, int), (int, int)),
    b: ((int, int), (int, int), (int, int)),
) -> Option<(int, int)> {
    match (mul_rv(a.0, b.0), mul_rv(a.1, b.1), mul_rv(a.2, b.2)) {
        (Some(p0), Some(p1), Some(p2)) => match add_rv(p0, p1) {
            Some(s) => add_rv(s, p2),
            _ => None,
        },
        _ => None,
    }
}

/// The views of a rational 3-vector.
pub open spec fn v3(p: (Rat, Rat, Rat)) -> ((int, int), (int, int), (int, int)) {
    (p.0@, p.1@, p.2@)
}

/// All three components are well formed.
pub open spec fn v3_wf(p: (Rat, Rat, Rat)) -> bool {
    p.0.wf() && p.1.wf() && p.2.wf()
}

/// Checked dot product of two 3-vectors.
fn dot3(a: &(Rat, Rat, Rat), b: &(Rat, Rat, Rat)) -> (res: Option<Rat>)
    requires
        v3_wf(*a),
        v3_wf(*b),
    ensures
        (res matches Some(v) ==> v.wf() && dot3_rv(v3(*a), v3(*b)) == Some(v@)),
        res is None <==> dot3_rv(v3(*a), v3(*b)) is None,
{
    let p0 = match a.0.mul(b.0) {
        Some(v) => v,
        None => {
            return None;
        },
    };
    let p1 = match a.1.mul(b.1) {
        Some(v) => v,
        None => {
            return None;
        },
    };
    let p2 = match a.2.mul(b.2) {
        Some(v) => v,
        None => {
            return None;
        },
    };
    let s = match p0.add(p1) {
        Some(v) => v,
        None => {
            return None;
        },
    };
    s.add(p2)
}

/// The first-person view matrix: translate by the negated camera
/// position, then rotate into the camera's orthonormal basis. Rows 0 to
/// 2 of the column-major result hold the right, up and forward axes; the
/// last column holds the negated dot of each axis with the position.
/// `None` exactly when a checked translation term overflows.
pub fn build_fp_view_matrix(
    xaxis: (Rat, Rat, Rat),
    yaxis: (Rat, Rat, Rat),
    zaxis: (Rat, Rat, Rat),
    cam_pos: (Rat, Rat, Rat),
) -> (res: Option<Matrix4>)
    requires
        v3_wf(xaxis),
        v3_wf(yaxis),
        v3_wf(zaxis),
        v3_wf(cam_pos),
    ensures
        (res matches Some(m) ==> {
            &&& mat_wf(m)
            &&& m[0][0] == xaxis.0 && m[1][0] == xaxis.1 && m[2][0] == xaxis.2
            &&& m[0][1] == yaxis.0 && m[1][1] == yaxis.1 && m[2][1] == yaxis.2
            &&& m[0][2] == zaxis.0 && m[1][2] == zaxis.1 && m[2][2] == zaxis.2
            &&& m[0][3]@ == (0int, 1int) && m[1][3]@ == (0int, 1int) && m[2][3]@ == (0int, 1int)
            &&& m[3][3]@ == (1int, 1int)
            &&& (dot3_rv(v3(xaxis), v3(cam_pos)) matches Some(d) && m[3][0]@ == q_neg(d))
            &&& (dot3_rv(v3(yaxis), v3(cam_pos)) matches Some(d) && m[3][1]@ == q_neg(d))
            &&& (dot3_rv(v3(zaxis), v3(cam_pos)) matches Some(d) && m[3][2]@ == q_neg(d))
        }),
        res is None <==> (dot3_rv(v3(xaxis), v3(cam_pos)) is None || dot3_rv(
            v3(yaxis),
            v3(cam_pos),
        ) is None || dot3_rv(v3(zaxis), v3(cam_pos)) is None),
{
    let tx = match dot3(&xaxis, &cam_pos) {
        Some(v) => v,
        None => {
            return None;
        },
    };
    let ty = match dot3(&yaxis, &cam_pos) {
        Some(v) => v,
        None => {
            return None;
        },
    };
    let tz = match dot3(&zaxis, &cam_pos) {
        Some(v) => v,
        None => {
            return None;
        },
    };
    let zero = Rat::from_int(0);
    let one = Rat::from_int(1);
    let ntx = tx.neg();
    let nty = ty.neg();
    let ntz = tz.neg();
    let m: Matrix4 = [
        [xaxis.0, yaxis.0, zaxis.0, zero],
        [xaxis.1, yaxis.1, zaxis.1, zero],
        [xaxis.2, yaxis.2, zaxis.2, zero],
        [ntx, nty, ntz, one],
    ];
    proof {
        assert forall|c: int, r: int| 0 <= c < 4 && 0 <= r < 4 implies (#[trigger] m[c][r]).wf()
        by {
            if c == 0 {
                assert(m[0][0] == xaxis.0 && m[0][1] == yaxis.0 && m[0][2] == zaxis.0 && m[0][3]
                    == zero);
            } else if c == 1 {
                assert(m[1][0] == xaxis.1 && m[1][1] == yaxis.1 && m[1][2] == zaxis.1 && m[1][3]
                    == zero);
            } else if c == 2 {
                assert(m[2][0] == xaxis.2 && m[2][1] == yaxis.2 && m[2][2] == zaxis.2 && m[2][3]
                    == zero);
            } else {
                assert(m[3][0] == ntx && m[3][1] == nty && m[3][2] == ntz && m[3][3] == one);
            }
        }
    }
    Some(m)
}

} // verus!
