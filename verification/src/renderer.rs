//! The per-frame draw orchestration: frustum-plane extraction,
//! bounding-sphere culling, instance batching into a frame plan, capture
//! bookkeeping and frame statistics.
//!
//! The renderer here owns the pipeline's decisions; an outer shell
//! executes the returned plan against the graphics backend, then reports
//! back whether the frame was presented.

use vstd::prelude::*;
use vstd::string::StringExecFns;
use crate::rat::{
    Rat, q_add, q_sub, q_mul, q_neg, q_le, q_bounded, q_fits, q_reduced, lemma_mul_bound,
    lemma_reduced_eq,
};
use crate::matrix::{Matrix4, mat_wf, add_rv, SCALAR_BOUND};
use crate::posteffect::{PostEffect, post_effect_wf, post_shader_options_default, spec_scaled_dim, scaled_dimensions};
use crate::types::{RenderItem, Transform, Material, Attr, items_wf, item_wf, transform_wf};

verus! {

/// The checked, lowest-terms difference: what `Rat::sub` yields.
pub open spec fn sub_rv(a: (int, int), b: (int, int)) -> Option<(int, int)> {
    if q_fits(q_sub(a, b)) {
        Some(q_reduced(q_sub(a, b)))
    } else {
        None
    }
}

/// One frustum clip plane `(a, b, c, d)`: the half space
/// `a*x + b*y + c*z + d >= 0` is inside.
#[derive(Clone, Copy)]
pub struct Plane {
    /// The x coefficient.
    pub a: Rat,
    /// The y coefficient.
    pub b: Rat,
    /// The z coefficient.
    pub c: Rat,
    /// The offset.
    pub d: Rat,
}

/// All four components are well formed.
pub open spec fn plane_wf(p: Plane) -> bool {
    p.a.wf() && p.b.wf() && p.c.wf() && p.d.wf()
}

/// Component `k` of a plane, in `a, b, c, d` order.
pub open spec fn plane_comp(p: Plane, k: int) -> (int, int) {
    if k == 0 {
        p.a@
    } else if k == 1 {
        p.b@
    } else if k == 2 {
        p.c@
    } else {
        p.d@
    }
}

/// Every plane in the sequence is well formed.
pub open spec fn planes_wf(planes: Seq<Plane>) -> bool {
    forall|i: int| 0 <= i < planes.len() ==> plane_wf(#[trigger] planes[i])
}

/// Every component of every plane stays within `b`.
pub open spec fn planes_bounded(planes: Seq<Plane>, b: int) -> bool {
    forall|i: int| 0 <= i < planes.len() ==> {
        &&& q_bounded((#[trigger] planes[i]).a@, b)
        &&& q_bounded(planes[i].b@, b)
        &&& q_bounded(planes[i].c@, b)
        &&& q_bounded(planes[i].d@, b)
    }
}

/// The views of a rational 3-vector.
pub open spec fn vec3_view(p: (Rat, Rat, Rat)) -> ((int, int), (int, int), (int, int)) {
    (p.0@, p.1@, p.2@)
}

/// The sphere lies entirely outside the plane:
/// `dot(center, plane.xyz) + plane.w <= -radius`.
pub open spec fn sphere_outside_plane(
    c: ((int, int), (int, int), (int, int)),
    r: (int, int),
    p: Plane,
) -> bool {
    q_le(
        q_add(
            q_add(q_add(q_mul(c.0, p.a@), q_mul(c.1, p.b@)), q_mul(c.2, p.c@)),
            p.d@,
        ),
        q_neg(r),
    )
}

/// The sphere is inside or crossing every plane of the frustum.
pub open spec fn spec_sphere_in_frustum(
    c: ((int, int), (int, int), (int, int)),
    r: (int, int),
    planes: Seq<Plane>,
) -> bool {
    forall|i: int| 0 <= i < planes.len() ==> !sphere_outside_plane(c, r, #[trigger] planes[i])
}

/// The magnitude bound on a culling radius.
pub const RADIUS_BOUND: i64 = 262144;

/// Exact evaluation of the one-plane test, inside `i128` intermediates.
fn outside_plane(pos: &(Rat, Rat, Rat), radius: Rat, p: &Plane) -> (r: bool)
    requires
        pos.0.wf() && pos.1.wf() && pos.2.wf(),
        radius.wf(),
        plane_wf(*p),
        q_bounded(pos.0@, SCALAR_BOUND as int),
        q_bounded(pos.1@, SCALAR_BOUND as int),
        q_bounded(pos.2@, SCALAR_BOUND as int),
        q_bounded(p.a@, SCALAR_BOUND as int),
        q_bounded(p.b@, SCALAR_BOUND as int),
        q_bounded(p.c@, SCALAR_BOUND as int),
        q_bounded(p.d@, SCALAR_BOUND as int),
        q_bounded(radius@, RADIUS_BOUND as int),
    ensures
        r == sphere_outside_plane(vec3_view(*pos), radius@, *p),
{
    let c0n: i128 = pos.0.num() as i128;
    let c0d: i128 = pos.0.den() as i128;
    let c1n: i128 = pos.1.num() as i128;
    let c1d: i128 = pos.1.den() as i128;
    let c2n: i128 = pos.2.num() as i128;
    let c2d: i128 = pos.2.den() as i128;
    let pan: i128 = p.a.num() as i128;
    let pad: i128 = p.a.den() as i128;
    let pbn: i128 = p.b.num() as i128;
    let pbd: i128 = p.b.den() as i128;
    let pcn: i128 = p.c.num() as i128;
    let pcd: i128 = p.c.den() as i128;
    let pdn: i128 = p.d.num() as i128;
    let pdd: i128 = p.d.den() as i128;
    let rn: i128 = radius.num() as i128;
    let rd: i128 = radius.den() as i128;
    proof {
        lemma_mul_bound(c0n as int, pan as int, 0x8000, 0x8000);
        lemma_mul_bound(c0d as int, pad as int, 0x8000, 0x8000);
        lemma_mul_bound(c1n as int, pbn as int, 0x8000, 0x8000);
        lemma_mul_bound(c1d as int, pbd as int, 0x8000, 0x8000);
        lemma_mul_bound(c2n as int, pcn as int, 0x8000, 0x8000);
        lemma_mul_bound(c2d as int, pcd as int, 0x8000, 0x8000);
    }
    let t0n: i128 = c0n * pan;
    let t0d: i128 = c0d * pad;
    let t1n: i128 = c1n * pbn;
    let t1d: i128 = c1d * pbd;
    let t2n: i128 = c2n * pcn;
    let t2d: i128 = c2d * pcd;
    proof {
        lemma_mul_bound(t0n as int, t1d as int, 0x4000_0000, 0x4000_0000);
        lemma_mul_bound(t1n as int, t0d as int, 0x4000_0000, 0x4000_0000);
        lemma_mul_bound(t0d as int, t1d as int, 0x4000_0000, 0x4000_0000);
    }
    let s1n: i128 = t0n * t1d + t1n * t0d;
    let s1d: i128 = t0d * t1d;
    proof {
        lemma_mul_bound(s1n as int, t2d as int, 0x2000_0000_0000_0000, 0x4000_0000);
        lemma_mul_bound(t2n as int, s1d as int, 0x4000_0000, 0x1000_0000_0000_0000);
        lemma_mul_bound(s1d as int, t2d as int, 0x1000_0000_0000_0000, 0x4000_0000);
    }
    let s2n: i128 = s1n * t2d + t2n * s1d;
    let s2d: i128 = s1d * t2d;
    proof {
        let b92: int = 0x2000_0000_0000_0000int * 0x4000_0000 + 0x4000_0000int
            * 0x1000_0000_0000_0000;
        let b90: int = 0x1000_0000_0000_0000int * 0x4000_0000;
        lemma_mul_bound(s2n as int, pdd as int, b92, 0x8000);
        lemma_mul_bound(pdn as int, s2d as int, 0x8000, b90);
        lemma_mul_bound(s2d as int, pdd as int, b90, 0x8000);
    }
    let s3n: i128 = s2n * pdd + pdn * s2d;
    let s3d: i128 = s2d * pdd;
    proof {
        let b92: int = 0x2000_0000_0000_0000int * 0x4000_0000 + 0x4000_0000int
            * 0x1000_0000_0000_0000;
        let b90: int = 0x1000_0000_0000_0000int * 0x4000_0000;
        let b108: int = b92 * 0x8000 + 0x8000 * b90;
        let b105: int = b90 * 0x8000;
        lemma_mul_bound(s3n as int, rd as int, b108, 0x4_0000);
        lemma_mul_bound(rn as int, s3d as int, 0x4_0000, b105);
        lemma_mul_bound(-(rn as int), s3d as int, 0x4_0000, b105);
    }
    (s3n * rd) <= (-rn) * s3d
}

/// Whether the bounding sphere is at least partly inside the frustum:
/// `false` as soon as one plane has the sphere entirely outside.
pub fn frustrum_test(pos: (Rat, Rat, Rat), radius: Rat, frustrum_planes: &Vec<Plane>) -> (r:
    bool)
    requires
        pos.0.wf() && pos.1.wf() && pos.2.wf(),
        radius.wf(),
        planes_wf(frustrum_planes@),
        planes_bounded(frustrum_planes@, SCALAR_BOUND as int),
        q_bounded(pos.0@, SCALAR_BOUND as int),
        q_bounded(pos.1@, SCALAR_BOUND as int),
        q_bounded(pos.2@, SCALAR_BOUND as int),
        q_bounded(radius@, RADIUS_BOUND as int),
    ensures
        r == spec_sphere_in_frustum(vec3_view(pos), radius@, frustrum_planes@),
{
    let mut i: usize = 0;
    while i < frustrum_planes.len()
        invariant
            pos.0.wf() && pos.1.wf() && pos.2.wf(),
            radius.wf(),
            planes_wf(frustrum_planes@),
            planes_bounded(frustrum_planes@, SCALAR_BOUND as int),
            q_bounded(pos.0@, SCALAR_BOUND as int),
            q_bounded(pos.1@, SCALAR_BOUND as int),
            q_bounded(pos.2@, SCALAR_BOUND as int),
            q_bounded(radius@, RADIUS_BOUND as int),
            i <= frustrum_planes@.len(),
            forall|k: int| 0 <= k < i ==> !sphere_outside_plane(
                vec3_view(pos),
                radius@,
                #[trigger] frustrum_planes@[k],
            ),
        decreases frustrum_planes@.len() - i,
    {
        if outside_plane(&pos, radius, &frustrum_planes[i]) {
            return false;
        }
        i = i + 1;
    }
    true
}

/// Which column the Gribb-Hartmann combination for plane `i` uses.
pub open spec fn gh_col(i: int) -> int {
    if i < 2 {
        0
    } else if i < 4 {
        1
    } else {
        2
    }
}

/// Whether plane `i` adds its row to the w row (else subtracts).
pub open spec fn gh_add(i: int) -> bool {
    i == 0 || i == 3 || i == 4
}

/// The checked sum or difference used for one plane component.
pub open spec fn gh_checked(add_op: bool, x: (int, int), y: (int, int)) -> Option<(int, int)> {
    if add_op {
        add_rv(x, y)
    } else {
        sub_rv(x, y)
    }
}

/// Checked sum or difference of two scalars.
fn addsub(x: Rat, y: Rat, add_op: bool) -> (r: Option<Rat>)
    requires
        x.wf(),
        y.wf(),
    ensures
        (r matches Some(v) ==> v.wf() && gh_checked(add_op, x@, y@) == Some(v@)),
        r is None <==> gh_checked(add_op, x@, y@) is None,
{
    if add_op {
        x.add(y)
    } else {
        x.sub(y)
    }
}

/// One frustum plane: row 3 of the matrix combined with row `col`.
fn mk_plane(m: &Matrix4, col: usize, add_op: bool) -> (res: Option<Plane>)
    requires
        mat_wf(*m),
        col < 3,
    ensures
        (res matches Some(p) ==> plane_wf(p) && forall|k: int| 0 <= k < 4 ==> gh_checked(
            add_op,
            m[k][3]@,
            m[k][col as int]@,
        ) == Some(#[trigger] plane_comp(p, k))),
        res is None ==> exists|k: int| 0 <= k < 4 && (#[trigger] gh_checked(
            add_op,
            m[k][3]@,
            m[k][col as int]@,
        )) is None,
{
    let ca = match addsub(m[0][3], m[0][col], add_op) {
        Some(v) => v,
        None => {
            return None;
        },
    };
    let cb = match addsub(m[1][3], m[1][col], add_op) {
        Some(v) => v,
        None => {
            return None;
        },
    };
    let cc = match addsub(m[2][3], m[2][col], add_op) {
        Some(v) => v,
        None => {
            return None;
        },
    };
    let cd = match addsub(m[3][3], m[3][col], add_op) {
        Some(v) => v,
        None => {
            return None;
        },
    };
    let p = Plane { a: ca, b: cb, c: cc, d: cd };
    proof {
        assert(plane_comp(p, 0) == ca@ && plane_comp(p, 1) == cb@ && plane_comp(p, 2) == cc@
            && plane_comp(p, 3) == cd@);
    }
    Some(p)
}

/// The six frustum clip planes of a combined `projection x view` matrix,
/// by the Gribb-Hartmann method for a column-major matrix applied to
/// column vectors: each plane is the matrix's w row plus or minus its
/// x, y or z row, in the order left, right, top, bottom, near, far.
/// `None` exactly when a checked component overflows.
pub fn get_frustum_planes(matrix: Matrix4) -> (res: Option<Vec<Plane>>)
    requires
        mat_wf(matrix),
    ensures
        (res matches Some(planes) ==> planes@.len() == 6 && forall|i: int, k: int|
            0 <= i < 6 && 0 <= k < 4 ==> gh_checked(
                gh_add(i),
                matrix[k][3]@,
                matrix[k][gh_col(i)]@,
            ) == Some(#[trigger] plane_comp(planes@[i], k)) && plane_wf(planes@[i])),
        res is None ==> exists|i: int, k: int|
            0 <= i < 6 && 0 <= k < 4 && (#[trigger] gh_checked(
                gh_add(i),
                matrix[k][3]@,
                matrix[k][gh_col(i)]@,
            )) is None,
{
    let p0 = match mk_plane(&matrix, 0, true) {
        Some(v) => v,
        None => {
            proof {
                let k = choose|k: int|
                    0 <= k < 4 && gh_checked(true, matrix[k][3]@, matrix[k][0]@) is None;
                assert(gh_checked(
                    gh_add(0),
                    matrix[k][3]@,
                    matrix[k][gh_col(0)]@,
                ) is None);
            }
            return None;
        },
    };
    let p1 = match mk_plane(&matrix, 0, false) {
        Some(v) => v,
        None => {
            proof {
                let k = choose|k: int|
                    0 <= k < 4 && gh_checked(false, matrix[k][3]@, matrix[k][0]@) is None;
                assert(gh_checked(
                    gh_add(1),
                    matrix[k][3]@,
                    matrix[k][gh_col(1)]@,
                ) is None);
            }
            return None;
        },
    };
    let p2 = match mk_plane(&matrix, 1, false) {
        Some(v) => v,
        None => {
            proof {
                let k = choose|k: int|
                    0 <= k < 4 && gh_checked(false, matrix[k][3]@, matrix[k][1]@) is None;
                assert(gh_checked(
                    gh_add(2),
                    matrix[k][3]@,
                    matrix[k][gh_col(2)]@,
                ) is None);
            }
            return None;
        },
    };
    let p3 = match mk_plane(&matrix, 1, true) {
        Some(v) => v,
        None => {
            proof {
                let k = choose|k: int|
                    0 <= k < 4 && gh_checked(true, matrix[k][3]@, matrix[k][1]@) is None;
                assert(gh_checked(
                    gh_add(3),
                    matrix[k][3]@,
                    matrix[k][gh_col(3)]@,
                ) is None);
            }
            return None;
        },
    };
    let p4 = match mk_plane(&matrix, 2, true) {
        Some(v) => v,
        None => {
            proof {
                let k = choose|k: int|
                    0 <= k < 4 && gh_checked(true, matrix[k][3]@, matrix[k][2]@) is None;
                assert(gh_checked(
                    gh_add(4),
                    matrix[k][3]@,
                    matrix[k][gh_col(4)]@,
                ) is None);
            }
            return None;
        },
    };
    let p5 = match mk_plane(&matrix, 2, false) {
        Some(v) => v,
        None => {
            proof {
                let k = choose|k: int|
                    0 <= k < 4 && gh_checked(false, matrix[k][3]@, matrix[k][2]@) is None;
                assert(gh_checked(
                    gh_add(5),
                    matrix[k][3]@,
                    matrix[k][gh_col(5)]@,
                ) is None);
            }
            return None;
        },
    };
    let planes: Vec<Plane> = vec![p0, p1, p2, p3, p4, p5];
    proof {
        assert(planes@[0] == p0 && planes@[1] == p1 && planes@[2] == p2 && planes@[3] == p3
            && planes@[4] == p4 && planes@[5] == p5);
        assert forall|i: int, k: int| 0 <= i < 6 && 0 <= k < 4 implies gh_checked(
            gh_add(i),
            matrix[k][3]@,
            matrix[k][gh_col(i)]@,
        ) == Some(#[trigger] plane_comp(planes@[i], k)) && plane_wf(planes@[i]) by {
            if i == 0 {
                assert(gh_add(0) && gh_col(0) == 0);
            } else if i == 1 {
                assert(!gh_add(1) && gh_col(1) == 0);
            } else if i == 2 {
                assert(!gh_add(2) && gh_col(2) == 1);
            } else if i == 3 {
                assert(gh_add(3) && gh_col(3) == 1);
            } else if i == 4 {
                assert(gh_add(4) && gh_col(4) == 2);
            } else {
                assert(!gh_add(5) && gh_col(5) == 2);
            }
        }
    }
    Some(planes)
}

/// The largest of the three scale components, by value, as the
/// executable code folds it.
pub open spec fn spec_max3(s: (Rat, Rat, Rat)) -> (int, int) {
    let m12 = if q_le(s.1@, s.2@) {
        s.2@
    } else {
        s.1@
    };
    if q_le(s.0@, m12) {
        m12
    } else {
        s.0@
    }
}

/// The culling radius of an instance: the largest scale component times
/// five halves, a deliberately generous bound for a unit-sized mesh
/// under non-uniform scale.
pub open spec fn spec_radius(s: (Rat, Rat, Rat)) -> (int, int) {
    q_reduced(q_mul(spec_max3(s), q_reduced((5int, 2int))))
}

/// Whether the exact culling test applies to this instance: every
/// quantity the evaluation touches stays within the machine bounds.
pub open spec fn spec_culling_applicable(t: Transform, planes: Seq<Plane>) -> bool {
    &&& planes_bounded(planes, SCALAR_BOUND as int)
    &&& q_bounded(t.pos.0@, SCALAR_BOUND as int)
    &&& q_bounded(t.pos.1@, SCALAR_BOUND as int)
    &&& q_bounded(t.pos.2@, SCALAR_BOUND as int)
    &&& q_bounded(spec_max3(t.scale), SCALAR_BOUND as int)
}

/// An instance takes part in the frame when it is active and, where the
/// exact test applies, its bounding sphere touches the frustum; an
/// instance beyond the machine bounds is conservatively kept.
pub open spec fn spec_instance_visible(t: Transform, planes: Seq<Plane>) -> bool {
    &&& t.active
    &&& (!spec_culling_applicable(t, planes) || spec_sphere_in_frustum(
        vec3_view(t.pos),
        spec_radius(t.scale),
        planes,
    ))
}

/// The visible instances of a list, in caller order.
pub open spec fn spec_visible_seq(ts: Seq<Transform>, planes: Seq<Plane>) -> Seq<Transform>
    decreases ts.len(),
{
    if ts.len() == 0 {
        Seq::empty()
    } else {
        let pre = spec_visible_seq(ts.drop_last(), planes);
        if spec_instance_visible(ts.last(), planes) {
            pre.push(ts.last())
        } else {
            pre
        }
    }
}

/// An item is drawn when it is active, has vertices, and keeps at least
/// one visible instance.
pub open spec fn spec_item_included(item: RenderItem, planes: Seq<Plane>) -> bool {
    &&& item.active
    &&& item.vertices@.len() > 0
    &&& spec_visible_seq(item.instance_transforms@, planes).len() > 0
}

/// How many instances the item adds to the frame's `render_count`.
pub open spec fn spec_item_contribution(item: RenderItem, planes: Seq<Plane>) -> nat {
    if spec_item_included(item, planes) {
        spec_visible_seq(item.instance_transforms@, planes).len()
    } else {
        0
    }
}

/// The frame's visible-instance count: the sum of every item's
/// contribution.
pub open spec fn spec_render_count(items: Seq<RenderItem>, planes: Seq<Plane>) -> nat
    decreases items.len(),
{
    if items.len() == 0 {
        0
    } else {
        spec_render_count(items.drop_last(), planes) + spec_item_contribution(
            items.last(),
            planes,
        )
    }
}

/// The indices of the items that are drawn, in caller order.
pub open spec fn spec_draw_indices(items: Seq<RenderItem>, planes: Seq<Plane>) -> Seq<int>
    decreases items.len(),
{
    if items.len() == 0 {
        Seq::empty()
    } else {
        let pre = spec_draw_indices(items.drop_last(), planes);
        if spec_item_included(items.last(), planes) {
            pre.push(items.len() - 1)
        } else {
            pre
        }
    }
}

/// The attribute record of one instance.
pub open spec fn spec_attr_of(t: Transform) -> Attr {
    Attr { world_position: t.pos, world_rotation: t.rot, world_scale: t.scale }
}

/// The attribute records of a list of instances.
pub open spec fn spec_attrs(ts: Seq<Transform>) -> Seq<Attr> {
    ts.map_values(|t: Transform| spec_attr_of(t))
}

/// The texture an item resolves to: its own name, or `"default"`.
pub open spec fn spec_texture_name(m: Material) -> Seq<char> {
    match m.texture_name {
        Some(s) => s@,
        None => "default"@,
    }
}

/// The normal map an item resolves to: its own name, or
/// `"default_normal"`.
pub open spec fn spec_normal_texture_name(m: Material) -> Seq<char> {
    match m.normal_texture_name {
        Some(s) => s@,
        None => "default_normal"@,
    }
}

/// One instanced draw call of a frame plan.
pub struct DrawCall {
    /// Which item of the frame's item list this call draws.
    pub item_index: usize,
    /// One attribute record per surviving instance, in caller order.
    pub instances: Vec<Attr>,
    /// The shader to draw with; unresolvable names are a fatal setup
    /// error for the executing shell.
    pub shader_name: String,
    /// The resolved texture name.
    pub texture_name: String,
    /// The resolved normal-map name.
    pub normal_texture_name: String,
}

/// The call at position `j` of the plan draws item `idx` with exactly
/// its visible instances and resolved names.
pub open spec fn draw_call_matches(
    d: DrawCall,
    items: Seq<RenderItem>,
    planes: Seq<Plane>,
    idx: int,
) -> bool {
    &&& d.item_index == idx
    &&& 0 <= idx < items.len()
    &&& d.instances@ == spec_attrs(spec_visible_seq(items[idx].instance_transforms@, planes))
    &&& d.shader_name@ == items[idx].material.shader_name@
    &&& d.texture_name@ == spec_texture_name(items[idx].material)
    &&& d.normal_texture_name@ == spec_normal_texture_name(items[idx].material)
}

/// Everything the executing shell needs for one frame: the offscreen
/// target's size for the scene pass, and one instanced call per drawn
/// item.
pub struct FramePlan {
    /// The draw calls, one per included item, in caller order.
    pub draws: Vec<DrawCall>,
    /// The number of visible instances over all items.
    pub render_count: usize,
    /// The offscreen target's width for this frame.
    pub target_width: u32,
    /// The offscreen target's height for this frame.
    pub target_height: u32,
}

/// A live capture stream: where frames are appended, and how many have
/// been written.
pub struct GifInfo {
    /// The file the stream writes to.
    pub path: String,
    /// How many frames this stream has been handed.
    pub frames: u64,
}

/// What the executing shell must do for a capture call.
#[derive(Clone, Copy, PartialEq, Eq, Structural, Debug)]
pub enum CaptureAction {
    /// Open a fresh encoder for the path and write the first frame.
    Start,
    /// Append one frame to the already open stream.
    Append,
}

/// A prefix of the item list never counts more instances than the whole.
proof fn lemma_render_count_mono(items: Seq<RenderItem>, planes: Seq<Plane>, n: int)
    requires
        0 <= n <= items.len(),
    ensures
        spec_render_count(items.take(n), planes) <= spec_render_count(items, planes),
    decreases items.len(),
{
    if n < items.len() {
        assert(items.drop_last().take(n) =~= items.take(n));
        lemma_render_count_mono(items.drop_last(), planes, n);
    } else {
        assert(items.take(n) =~= items);
    }
}

/// The render state: the compositor's configuration, capture stream and
/// frame statistics.
pub struct Renderer {
    /// The two-pass post-effect compositor's configuration.
    pub post_effect: PostEffect,
    /// Frames counted over the last second, updated when a frame is
    /// presented.
    pub fps: usize,
    /// The number of instances drawn by the last completed frame; not
    /// valid mid-frame.
    pub render_count: usize,
    /// The live capture stream, if one is open.
    pub gif_info: Option<GifInfo>,
    /// The rolling one-second frame counter behind `fps`.
    pub fps_counter: fps_counter::FPSCounter,
}

#[verifier::external_type_specification]
#[verifier::external_body]
pub struct ExFPSCounter(fps_counter::FPSCounter);

/// Relies on fps_counter::FPSCounter::new: a fresh rolling counter.
pub assume_specification[ fps_counter::FPSCounter::new ]() -> fps_counter::FPSCounter;

/// Relies on fps_counter::FPSCounter::tick: it drops the instants older
/// than a second, records the present one, and returns how many remain,
/// so the result is at least one.
pub assume_specification[ fps_counter::FPSCounter::tick ](
    c: &mut fps_counter::FPSCounter,
) -> (n: usize)
    ensures
        n >= 1,
;

impl Renderer {
    /// A fresh renderer: default compositor, no capture stream, zeroed
    /// statistics.
    pub fn new() -> (r: Renderer)
        ensures
            post_effect_wf(r.post_effect),
            r.post_effect.current_shader@ == "default"@,
            r.post_effect.downscale_factor@ == (1int, 1int),
            post_shader_options_default(r.post_effect.post_shader_options),
            r.fps == 0,
            r.render_count == 0,
            r.gif_info is None,
    {
        Renderer {
            post_effect: PostEffect::new(),
            fps: 0,
            render_count: 0,
            gif_info: None,
            fps_counter: fps_counter::FPSCounter::new(),
        }
    }

    /// One frame's decisions: cull every active item's instances against
    /// the given frustum planes, batch the survivors into one call per
    /// item, count them into `render_count`, and size the offscreen
    /// target from the window extent and the current downscale factor.
    ///
    /// The planes are those extracted this frame; nothing is cached
    /// across frames.
    pub fn draw(
        &mut self,
        frustum_planes: &Vec<Plane>,
        render_items: &Vec<RenderItem>,
        width: u32,
        height: u32,
    ) -> (plan: FramePlan)
        requires
            items_wf(render_items@),
            planes_wf(frustum_planes@),
            post_effect_wf(old(self).post_effect),
            spec_render_count(render_items@, frustum_planes@) <= usize::MAX,
        ensures
            plan.render_count == spec_render_count(render_items@, frustum_planes@),
            final(self).render_count == plan.render_count,
            plan.draws@.len() == spec_draw_indices(render_items@, frustum_planes@).len(),
            forall|j: int| 0 <= j < plan.draws@.len() ==> draw_call_matches(
                #[trigger] plan.draws@[j],
                render_items@,
                frustum_planes@,
                spec_draw_indices(render_items@, frustum_planes@)[j],
            ),
            plan.target_width as int == spec_scaled_dim(
                width as int,
                old(self).post_effect.downscale_factor@,
            ),
            plan.target_height as int == spec_scaled_dim(
                height as int,
                old(self).post_effect.downscale_factor@,
            ),
            final(self).fps == old(self).fps,
            final(self).gif_info == old(self).gif_info,
            final(self).post_effect == old(self).post_effect,
    {
        let dims = scaled_dimensions(width, height, self.post_effect.downscale_factor);
        let planes_ok = planes_bounded_exec(frustum_planes);
        let mut draws: Vec<DrawCall> = Vec::new();
        let mut count: usize = 0;
        let mut i: usize = 0;
        while i < render_items.len()
            invariant
                items_wf(render_items@),
                planes_wf(frustum_planes@),
                planes_ok == planes_bounded(frustum_planes@, SCALAR_BOUND as int),
                spec_render_count(render_items@, frustum_planes@) <= usize::MAX,
                i <= render_items@.len(),
                count == spec_render_count(render_items@.take(i as int), frustum_planes@),
                draws@.len() == spec_draw_indices(
                    render_items@.take(i as int),
                    frustum_planes@,
                ).len(),
                forall|j: int| 0 <= j < draws@.len() ==> draw_call_matches(
                    #[trigger] draws@[j],
                    render_items@,
                    frustum_planes@,
                    spec_draw_indices(render_items@.take(i as int), frustum_planes@)[j],
                ),
            decreases render_items@.len() - i,
        {
            let ghost pre_items = render_items@.take(i as int);
            let ghost cur_items = render_items@.take(i + 1);
            proof {
                assert(cur_items.drop_last() =~= pre_items);
                assert(cur_items.last() == render_items@[i as int]);
            }
            let item = &render_items[i];
            if item.active && item.vertices.len() > 0 {
                let attrs = visible_attrs(item, frustum_planes, planes_ok);
                if attrs.len() > 0 {
                    proof {
                        lemma_render_count_mono(render_items@, frustum_planes@, i + 1);
                    }
                    count = count + attrs.len();
                    let texture_name = match &item.material.texture_name {
                        Some(s) => s.clone(),
                        None => String::from_str("default"),
                    };
                    let normal_texture_name = match &item.material.normal_texture_name {
                        Some(s) => s.clone(),
                        None => String::from_str("default_normal"),
                    };
                    let call = DrawCall {
                        item_index: i,
                        instances: attrs,
                        shader_name: item.material.shader_name.clone(),
                        texture_name,
                        normal_texture_name,
                    };
                    draws.push(call);
                } else {
                    proof {
                        assert(!spec_item_included(render_items@[i as int], frustum_planes@));
                    }
                }
            } else {
                proof {
                    assert(spec_visible_seq(
                        render_items@[i as int].instance_transforms@,
                        frustum_planes@,
                    ).len() >= 0);
                    assert(!spec_item_included(render_items@[i as int], frustum_planes@));
                }
            }
            i = i + 1;
        }
        proof {
            assert(render_items@.take(render_items@.len() as int) =~= render_items@);
        }
        self.render_count = count;
        FramePlan {
            draws,
            render_count: count,
            target_width: dims.0,
            target_height: dims.1,
        }
    }

    /// One capture call. The first call for a path, or a call with a new
    /// path, starts a fresh stream whose first frame is this one; a call
    /// with the open stream's path appends a frame. At most one stream
    /// is live at a time; switching paths discards the old stream's
    /// encoder state, never its file.
    pub fn save_add_to_gif(&mut self, path: &str) -> (action: CaptureAction)
        ensures
            (match old(self).gif_info {
                Some(g) => {
                    if g.path@ == path@ {
                        &&& action == CaptureAction::Append
                        &&& (final(self).gif_info matches Some(n) && n.path@ == g.path@
                            && n.frames == (if g.frames == u64::MAX {
                                u64::MAX as int
                            } else {
                                g.frames + 1
                            }))
                    } else {
                        &&& action == CaptureAction::Start
                        &&& (final(self).gif_info matches Some(n) && n.path@ == path@
                            && n.frames == 1)
                    }
                },
                None => {
                    &&& action == CaptureAction::Start
                    &&& (final(self).gif_info matches Some(n) && n.path@ == path@ && n.frames
                        == 1)
                },
            }),
            final(self).fps == old(self).fps,
            final(self).render_count == old(self).render_count,
            final(self).post_effect == old(self).post_effect,
    {
        let same = match &self.gif_info {
            Some(info) => {
                let p: String = path.to_owned();
                info.path == p
            },
            None => false,
        };
        if same {
            if let Some(info) = &mut self.gif_info {
                info.frames = if info.frames == u64::MAX {
                    u64::MAX
                } else {
                    info.frames + 1
                };
            }
            CaptureAction::Append
        } else {
            self.gif_info = Some(GifInfo { path: path.to_owned(), frames: 1 });
            CaptureAction::Start
        }
    }

    /// Close out a frame: when it was presented, advance the rolling
    /// frame counter; when the present failed and the frame was
    /// dropped, leave every statistic as it was.
    pub fn end_frame(&mut self, presented: bool) -> (fps: usize)
        ensures
            presented ==> final(self).fps >= 1,
            !presented ==> final(self).fps == old(self).fps,
            fps == final(self).fps,
            final(self).render_count == old(self).render_count,
            final(self).gif_info == old(self).gif_info,
            final(self).post_effect == old(self).post_effect,
    {
        if presented {
            self.fps = self.fps_counter.tick();
        }
        self.fps
    }
}

/// Whether every plane's components stay within the culling bound.
fn planes_bounded_exec(planes: &Vec<Plane>) -> (r: bool)
    ensures
        r == planes_bounded(planes@, SCALAR_BOUND as int),
{
    let mut i: usize = 0;
    while i < planes.len()
        invariant
            i <= planes@.len(),
            forall|k: int| 0 <= k < i ==> {
                &&& q_bounded((#[trigger] planes@[k]).a@, SCALAR_BOUND as int)
                &&& q_bounded(planes@[k].b@, SCALAR_BOUND as int)
                &&& q_bounded(planes@[k].c@, SCALAR_BOUND as int)
                &&& q_bounded(planes@[k].d@, SCALAR_BOUND as int)
            },
        decreases planes@.len() - i,
    {
        let p = &planes[i];
        if !(p.a.bounded(SCALAR_BOUND) && p.b.bounded(SCALAR_BOUND) && p.c.bounded(SCALAR_BOUND)
            && p.d.bounded(SCALAR_BOUND)) {
            return false;
        }
        i = i + 1;
    }
    true
}

/// The attribute records of an item's visible instances, in caller
/// order.
fn visible_attrs(item: &RenderItem, planes: &Vec<Plane>, planes_ok: bool) -> (attrs: Vec<Attr>)
    requires
        item_wf(*item),
        planes_wf(planes@),
        planes_ok == planes_bounded(planes@, SCALAR_BOUND as int),
    ensures
        attrs@ == spec_attrs(spec_visible_seq(item.instance_transforms@, planes@)),
{
    let five_halves = Rat::new(5, 2);
    let mut attrs: Vec<Attr> = Vec::new();
    let mut j: usize = 0;
    while j < item.instance_transforms.len()
        invariant
            item_wf(*item),
            planes_wf(planes@),
            planes_ok == planes_bounded(planes@, SCALAR_BOUND as int),
            five_halves.wf(),
            five_halves@ == q_reduced((5int, 2int)),
            j <= item.instance_transforms@.len(),
            attrs@ == spec_attrs(
                spec_visible_seq(item.instance_transforms@.take(j as int), planes@),
            ),
        decreases item.instance_transforms@.len() - j,
    {
        let ghost pre_ts = item.instance_transforms@.take(j as int);
        let ghost cur_ts = item.instance_transforms@.take(j + 1);
        proof {
            assert(cur_ts.drop_last() =~= pre_ts);
            assert(cur_ts.last() == item.instance_transforms@[j as int]);
        }
        let t = item.instance_transforms[j];
        let visible: bool = if t.active {
            let m12 = t.scale.1.max_r(t.scale.2);
            let mx = t.scale.0.max_r(m12);
            proof {
                assert(mx@ == spec_max3(t.scale));
            }
            let applicable = planes_ok && t.pos.0.bounded(SCALAR_BOUND) && t.pos.1.bounded(
                SCALAR_BOUND,
            ) && t.pos.2.bounded(SCALAR_BOUND) && mx.bounded(SCALAR_BOUND);
            if applicable {
                proof {
                    lemma_reduced_eq((5int, 2int));
                    mx.lemma_wf_props();
                    five_halves.lemma_wf_props();
                    crate::matrix::lemma_q_ops_wf(mx@, five_halves@);
                    lemma_mul_bound(mx@.0, five_halves@.0, SCALAR_BOUND as int, 5);
                    lemma_mul_bound(mx@.1, five_halves@.1, SCALAR_BOUND as int, 2);
                    crate::matrix::lemma_fits_bound(
                        q_mul(mx@, five_halves@),
                        RADIUS_BOUND as int,
                    );
                }
                let radius = mx.mul(five_halves).unwrap();
                proof {
                    radius.lemma_wf_props();
                    assert(radius@ == spec_radius(t.scale));
                }
                frustrum_test(t.pos, radius, planes)
            } else {
                true
            }
        } else {
            false
        };
        proof {
            assert(visible == spec_instance_visible(
                item.instance_transforms@[j as int],
                planes@,
            ));
        }
        if visible {
            attrs.push(
                Attr { world_position: t.pos, world_rotation: t.rot, world_scale: t.scale },
            );
            proof {
                assert(spec_attrs(spec_visible_seq(cur_ts, planes@)) =~= spec_attrs(
                    spec_visible_seq(pre_ts, planes@),
                ).push(spec_attr_of(item.instance_transforms@[j as int])));
            }
        }
        j = j + 1;
    }
    proof {
        assert(item.instance_transforms@.take(item.instance_transforms@.len() as int)
            =~= item.instance_transforms@);
    }
    attrs
}

/// A sphere entirely outside any one clip plane is outside the frustum,
/// whatever the other planes say.
pub proof fn lemma_sphere_outside_one_plane(
    c: ((int, int), (int, int), (int, int)),
    r: (int, int),
    planes: Seq<Plane>,
    i: int,
)
    requires
        0 <= i < planes.len(),
        sphere_outside_plane(c, r, planes[i]),
    ensures
        !spec_sphere_in_frustum(c, r, planes),
{
}

/// A list of instances none of which is active keeps no visible
/// instance.
proof fn lemma_visible_empty(ts: Seq<Transform>, planes: Seq<Plane>)
    requires
        forall|j: int| 0 <= j < ts.len() ==> !(#[trigger] ts[j]).active,
    ensures
        spec_visible_seq(ts, planes).len() == 0,
    decreases ts.len(),
{
    if ts.len() > 0 {
        assert(forall|j: int| 0 <= j < ts.drop_last().len() ==> ts.drop_last()[j] == ts[j]);
        lemma_visible_empty(ts.drop_last(), planes);
    }
}

/// An item with no active instance, or with an empty vertex list, adds
/// nothing to the frame's `render_count` and is not drawn.
pub proof fn lemma_idle_item_contributes_nothing(item: RenderItem, planes: Seq<Plane>)
    requires
        item.vertices@.len() == 0 || forall|j: int|
            0 <= j < item.instance_transforms@.len() ==> !(
            #[trigger] item.instance_transforms@[j]).active,
    ensures
        spec_item_contribution(item, planes) == 0,
        !spec_item_included(item, planes),
{
    if item.vertices@.len() != 0 {
        lemma_visible_empty(item.instance_transforms@, planes);
    }
}

/// Every drawn index points into the item list.
proof fn lemma_draw_indices_range(items: Seq<RenderItem>, planes: Seq<Plane>)
    ensures
        forall|j: int| 0 <= j < spec_draw_indices(items, planes).len() ==> 0 <= (
        #[trigger] spec_draw_indices(items, planes)[j]) < items.len(),
    decreases items.len(),
{
    if items.len() > 0 {
        lemma_draw_indices_range(items.drop_last(), planes);
        let pre = spec_draw_indices(items.drop_last(), planes);
        if spec_item_included(items.last(), planes) {
            let full = pre.push(items.len() - 1);
            assert(spec_draw_indices(items, planes) == full);
            assert forall|j: int| 0 <= j < full.len() implies 0 <= #[trigger] full[j]
                < items.len() by {
                if j < pre.len() {
                    assert(full[j] == pre[j]);
                } else {
                    assert(full[j] == items.len() - 1);
                }
            }
        }
    }
}

/// An item that is not included in the frame has no draw call: no drawn
/// index names it.
pub proof fn lemma_excluded_item_not_drawn(items: Seq<RenderItem>, planes: Seq<Plane>, i: int)
    requires
        0 <= i < items.len(),
        !spec_item_included(items[i], planes),
    ensures
        forall|j: int| 0 <= j < spec_draw_indices(items, planes).len() ==> (
        #[trigger] spec_draw_indices(items, planes)[j]) != i,
    decreases items.len(),
{
    lemma_draw_indices_range(items.drop_last(), planes);
    if i == items.len() - 1 {
        assert(!spec_item_included(items.last(), planes));
    } else {
        assert(items.drop_last()[i] == items[i]);
        lemma_excluded_item_not_drawn(items.drop_last(), planes, i);
        if spec_item_included(items.last(), planes) {
            assert(forall|j: int| 0 <= j < spec_draw_indices(items, planes).len() - 1
                ==> spec_draw_indices(items, planes)[j] == spec_draw_indices(
                items.drop_last(),
                planes,
            )[j]);
        }
    }
}

} // verus!
