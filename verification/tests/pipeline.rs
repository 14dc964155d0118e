use caper::matrix::{build_fp_view_matrix, build_persp_proj_mat, mul_mat4, Matrix4};
use caper::posteffect::{scaled_dimensions, PostEffect};
use caper::rat::Rat;
use caper::renderer::{get_frustum_planes, frustrum_test, CaptureAction, Plane, Renderer};
use caper::types::{Material, RenderItem, Transform, Vertex};
use caper::utils::{advance_accumulator, dotp, FIXED_TIME_STAMP};

fn rat(n: i64, d: i64) -> Rat {
    Rat::new(n, d)
}

fn ri(n: i64) -> Rat {
    Rat::from_int(n)
}

fn vertex() -> Vertex {
    Vertex {
        position: (ri(0), ri(0), ri(0)),
        normal: (ri(0), ri(1), ri(0)),
        texture: (ri(0), ri(0)),
    }
}

fn transform_at(x: i64, y: i64, z: i64, active: bool) -> Transform {
    Transform {
        active,
        pos: (ri(x), ri(y), ri(z)),
        rot: (ri(0), ri(0), ri(0), ri(1)),
        scale: (ri(1), ri(1), ri(1)),
    }
}

fn material(shader: &str) -> Material {
    Material {
        shader_name: String::from(shader),
        texture_name: None,
        normal_texture_name: None,
    }
}

fn item(transforms: Vec<Transform>, active: bool) -> RenderItem {
    RenderItem {
        vertices: vec![vertex()],
        material: material("dist"),
        instance_transforms: transforms,
        active,
    }
}

/// The six planes of the axis-aligned box [-10, 10]^3.
fn box_planes() -> Vec<Plane> {
    let mk = |a: i64, b: i64, c: i64| Plane {
        a: ri(a),
        b: ri(b),
        c: ri(c),
        d: ri(10),
    };
    vec![
        mk(1, 0, 0),
        mk(-1, 0, 0),
        mk(0, 1, 0),
        mk(0, -1, 0),
        mk(0, 0, 1),
        mk(0, 0, -1),
    ]
}

#[test]
fn projection_depth_terms_match_formula() {
    // fov 90 degrees: tan(fov/2) = 1; aspect 1; znear 0.1; zfar 100.
    let m: Matrix4 = build_persp_proj_mat(ri(1), ri(1), rat(1, 10), ri(100));
    // q = -(100 + 0.1)/(100 - 0.1) = -1001/999
    assert_eq!(m[2][2].num(), -1001);
    assert_eq!(m[2][2].den(), 999);
    // the w row keeps -1 next to q
    assert_eq!(m[2][3].num(), -1);
    assert_eq!(m[2][3].den(), 1);
    // qn = -2*100*0.1/(100 - 0.1) = -200/999
    assert_eq!(m[3][2].num(), -200);
    assert_eq!(m[3][2].den(), 999);
    // w = h = 1 for this fov and aspect
    assert_eq!(m[0][0].num(), 1);
    assert_eq!(m[0][0].den(), 1);
    assert_eq!(m[1][1].num(), 1);
    assert_eq!(m[1][1].den(), 1);
    // the rest of the matrix is zero
    assert_eq!(m[0][1].num(), 0);
    assert_eq!(m[3][3].num(), 0);
    assert_eq!(m[1][0].num(), 0);
}

#[test]
fn identity_product_keeps_projection() {
    let m = build_persp_proj_mat(ri(1), ri(1), rat(1, 10), ri(100));
    let mut id: Matrix4 = [[ri(0); 4]; 4];
    for k in 0..4 {
        id[k][k] = ri(1);
    }
    let combined = mul_mat4(&m, &id).expect("product fits");
    assert_eq!(combined[2][2].num(), -1001);
    assert_eq!(combined[2][2].den(), 999);
    assert_eq!(combined[2][3].num(), -1);
    assert_eq!(combined[3][2].num(), -200);
    assert_eq!(combined[0][0].num(), 1);
    assert_eq!(combined[1][0].num(), 0);
}

#[test]
fn frustum_planes_of_projection() {
    let m = build_persp_proj_mat(ri(1), ri(1), rat(1, 10), ri(100));
    let planes = get_frustum_planes(m).expect("planes fit");
    assert_eq!(planes.len(), 6);
    // near plane: w row plus z row = (0, 0, -1 + q, qn)
    assert_eq!(planes[4].a.num(), 0);
    assert_eq!(planes[4].b.num(), 0);
    assert_eq!(planes[4].c.num(), -2000);
    assert_eq!(planes[4].c.den(), 999);
    assert_eq!(planes[4].d.num(), -200);
    assert_eq!(planes[4].d.den(), 999);
    // left plane: w row plus x row = (1, 0, -1, 0)
    assert_eq!(planes[0].a.num(), 1);
    assert_eq!(planes[0].c.num(), -1);
    assert_eq!(planes[0].d.num(), 0);
}

#[test]
fn sphere_outside_one_plane_is_out() {
    let planes = box_planes();
    // x = 100 violates the -x + 10 >= 0 plane alone
    assert!(!frustrum_test((ri(100), ri(0), ri(0)), rat(5, 2), &planes));
    // the origin is inside every plane
    assert!(frustrum_test((ri(0), ri(0), ri(0)), rat(5, 2), &planes));
    // just beyond a face but within the radius still passes
    assert!(frustrum_test((ri(11), ri(0), ri(0)), rat(5, 2), &planes));
}

#[test]
fn culled_scene_counts_two_instances() {
    let planes = box_planes();
    let mut r = Renderer::new();
    // item A: one instance fully inside; item B: one inside, one outside
    let items = vec![
        item(vec![transform_at(0, 0, 0, true)], true),
        item(
            vec![transform_at(1, 1, 1, true), transform_at(100, 0, 0, true)],
            true,
        ),
    ];
    let plan = r.draw(&planes, &items, 800, 600);
    assert_eq!(plan.render_count, 2);
    assert_eq!(r.render_count, 2);
    assert_eq!(plan.draws.len(), 2);
    assert_eq!(plan.draws[0].item_index, 0);
    assert_eq!(plan.draws[0].instances.len(), 1);
    assert_eq!(plan.draws[1].item_index, 1);
    assert_eq!(plan.draws[1].instances.len(), 1);
    assert_eq!(plan.draws[1].instances[0].world_position.0.num(), 1);
}

#[test]
fn idle_items_issue_no_draw_call() {
    let planes = box_planes();
    let mut r = Renderer::new();
    let items = vec![
        // active item whose only instance is inactive
        item(vec![transform_at(0, 0, 0, false)], true),
        // inactive item with an active instance
        item(vec![transform_at(0, 0, 0, true)], false),
        // active item with no vertices
        RenderItem {
            vertices: vec![],
            material: material("dist"),
            instance_transforms: vec![transform_at(0, 0, 0, true)],
            active: true,
        },
    ];
    let plan = r.draw(&planes, &items, 800, 600);
    assert_eq!(plan.render_count, 0);
    assert_eq!(plan.draws.len(), 0);
}

#[test]
fn texture_names_fall_back_to_defaults() {
    let planes = box_planes();
    let mut r = Renderer::new();
    let mut with_tex = item(vec![transform_at(0, 0, 0, true)], true);
    with_tex.material.texture_name = Some(String::from("bricks"));
    let plain = item(vec![transform_at(0, 0, 0, true)], true);
    let items = vec![with_tex, plain];
    let plan = r.draw(&planes, &items, 800, 600);
    assert_eq!(plan.draws[0].texture_name, "bricks");
    assert_eq!(plan.draws[0].normal_texture_name, "default_normal");
    assert_eq!(plan.draws[1].texture_name, "default");
    assert_eq!(plan.draws[1].shader_name, "dist");
}

#[test]
fn downscale_halves_dimensions_next_frame_only() {
    let planes = box_planes();
    let mut r = Renderer::new();
    let items = vec![item(vec![transform_at(0, 0, 0, true)], true)];
    let plan = r.draw(&planes, &items, 800, 600);
    assert_eq!((plan.target_width, plan.target_height), (800, 600));
    // the new factor takes effect on the next frame's pass-1 allocation
    r.post_effect.downscale_factor = rat(1, 2);
    let plan2 = r.draw(&planes, &items, 800, 600);
    assert_eq!((plan2.target_width, plan2.target_height), (400, 300));
}

#[test]
fn scaled_dimensions_floor_and_clamp() {
    assert_eq!(scaled_dimensions(801, 601, rat(1, 2)), (400, 300));
    assert_eq!(scaled_dimensions(1, 1, rat(1, 2)), (1, 1));
    assert_eq!(scaled_dimensions(0, 5, rat(1, 2)), (1, 2));
    assert_eq!(scaled_dimensions(640, 480, ri(1)), (640, 480));
    assert_eq!(scaled_dimensions(100, 100, rat(3, 10)), (30, 30));
}

#[test]
fn gif_capture_streams_never_mix() {
    let mut r = Renderer::new();
    assert!(r.gif_info.is_none());
    assert_eq!(r.save_add_to_gif("a.gif"), CaptureAction::Start);
    assert_eq!(r.save_add_to_gif("a.gif"), CaptureAction::Append);
    {
        let info = r.gif_info.as_ref().expect("stream open");
        assert_eq!(info.path, "a.gif");
        assert_eq!(info.frames, 2);
    }
    assert_eq!(r.save_add_to_gif("b.gif"), CaptureAction::Start);
    let info = r.gif_info.as_ref().expect("stream open");
    assert_eq!(info.path, "b.gif");
    assert_eq!(info.frames, 1);
}

#[test]
fn fps_counts_presented_frames_only() {
    let mut r = Renderer::new();
    assert_eq!(r.fps, 0);
    let fps = r.end_frame(true);
    assert!(fps >= 1);
    assert_eq!(r.fps, fps);
    let before = r.fps;
    r.end_frame(false);
    assert_eq!(r.fps, before);
}

#[test]
fn renderer_defaults() {
    let r = Renderer::new();
    assert_eq!(r.render_count, 0);
    assert_eq!(r.post_effect.current_shader, "default");
    assert_eq!(r.post_effect.downscale_factor.num(), 1);
    assert_eq!(r.post_effect.downscale_factor.den(), 1);
    let o = &r.post_effect.post_shader_options;
    assert_eq!(o.chrom_offset.num(), 3);
    assert_eq!(o.chrom_offset.den(), 1000);
    assert_eq!(o.chrom_amt.num(), 0);
    assert!(!o.blur);
    assert!(!o.bokeh);
    assert_eq!(o.bokeh_focal_depth.num(), 1);
    assert_eq!(o.bokeh_focal_depth.den(), 5);
    assert!(!o.greyscale);
    assert_eq!(o.noise.num(), 0);
    let p = PostEffect::new();
    assert_eq!(p.current_shader, "default");
}

#[test]
fn dot_product_is_exact() {
    let a = vec![ri(1), ri(2), ri(3)];
    let b = vec![ri(4), ri(5), ri(6)];
    let d = dotp(&a, &b).expect("fits");
    assert_eq!(d.num(), 32);
    assert_eq!(d.den(), 1);
    let c = vec![rat(1, 2), rat(1, 3)];
    let e = vec![rat(2, 1), rat(3, 1)];
    let f = dotp(&c, &e).expect("fits");
    assert_eq!(f.num(), 2);
    assert_eq!(f.den(), 1);
}

#[test]
fn accumulator_pays_out_whole_ticks() {
    let (acc, ticks, sleep_ms) = advance_accumulator(0, 2 * FIXED_TIME_STAMP + 5);
    assert_eq!(acc, 5);
    assert_eq!(ticks, 2);
    assert_eq!(sleep_ms, ((FIXED_TIME_STAMP - 5) / 1_000_000) as u32);
    let (acc2, ticks2, _) = advance_accumulator(FIXED_TIME_STAMP - 1, 1);
    assert_eq!(acc2, 0);
    assert_eq!(ticks2, 1);
}

#[test]
fn extracted_planes_agree_with_culling() {
    // the layout check: planes extracted from the projection itself must
    // cull points against the camera's own view volume
    let m = build_persp_proj_mat(ri(1), ri(1), rat(1, 10), ri(100));
    let planes = get_frustum_planes(m).expect("planes fit");
    let r = rat(1, 10);
    // in front of the camera, within the depth range
    assert!(frustrum_test((ri(0), ri(0), ri(-5)), r, &planes));
    // behind the camera
    assert!(!frustrum_test((ri(0), ri(0), ri(5)), r, &planes));
    // beyond the far distance
    assert!(!frustrum_test((ri(0), ri(0), ri(-200)), r, &planes));
    // far off to the side
    assert!(!frustrum_test((ri(50), ri(0), ri(-5)), r, &planes));
}

#[test]
fn view_matrix_translates_by_negated_position() {
    let x = (ri(1), ri(0), ri(0));
    let y = (ri(0), ri(1), ri(0));
    let z = (ri(0), ri(0), ri(1));
    let m = build_fp_view_matrix(x, y, z, (ri(1), ri(2), ri(3))).expect("fits");
    // identity rotation
    assert_eq!(m[0][0].num(), 1);
    assert_eq!(m[1][1].num(), 1);
    assert_eq!(m[2][2].num(), 1);
    assert_eq!(m[1][0].num(), 0);
    // translation column holds the negated position
    assert_eq!(m[3][0].num(), -1);
    assert_eq!(m[3][1].num(), -2);
    assert_eq!(m[3][2].num(), -3);
    assert_eq!(m[3][3].num(), 1);
}
