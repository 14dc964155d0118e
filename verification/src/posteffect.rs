//! The post-effect compositor's configuration and offscreen sizing.
//!
//! The scene is first drawn into an offscreen target whose pixel
//! dimensions are the window's, scaled by `downscale_factor` and floored
//! to at least one pixel per axis; a second pass then composites that
//! target onto the presentation surface under the options held here.

use vstd::prelude::*;
use vstd::arithmetic::div_mod::{lemma_div_is_ordered, lemma_div_multiples_vanish};
use vstd::arithmetic::mul::lemma_mul_inequality;
use vstd::string::StringExecFns;
use crate::rat::{Rat, q_lt, q_le, q_eq, lemma_mul_bound};

verus! {

/// Options for the composite pass's shader.
pub struct PostShaderOptions {
    /// The offset for the chromatic aberration.
    pub chrom_offset: Rat,
    /// The mix amount for the chromatic aberration; at zero the effect is
    /// off.
    pub chrom_amt: Rat,
    /// Whether blur is on.
    pub blur: bool,
    /// The amount of blur.
    pub blur_amt: Rat,
    /// The radius of the blur.
    pub blur_radius: Rat,
    /// The weight of the blur.
    pub blur_weight: Rat,
    /// Whether bokeh is on.
    pub bokeh: bool,
    /// Bokeh focal depth.
    pub bokeh_focal_depth: Rat,
    /// Bokeh focal width.
    pub bokeh_focal_width: Rat,
    /// Colour grading offset.
    pub color_offset: (Rat, Rat, Rat, Rat),
    /// Greyscale.
    pub greyscale: bool,
    /// Noise amount.
    pub noise: Rat,
}

/// The default options: chromatic aberration mixed out, blur and bokeh
/// off, neutral colour grading, no noise.
pub open spec fn post_shader_options_default(o: PostShaderOptions) -> bool {
    &&& o.chrom_offset.wf() && q_eq(o.chrom_offset@, (3int, 1000int))
    &&& o.chrom_amt@ == (0int, 1int)
    &&& o.blur == false
    &&& o.blur_amt@ == (1int, 1int)
    &&& o.blur_radius@ == (1int, 1int)
    &&& o.blur_weight@ == (1int, 1int)
    &&& o.bokeh == false
    &&& o.bokeh_focal_depth.wf() && q_eq(o.bokeh_focal_depth@, (1int, 5int))
    &&& o.bokeh_focal_width.wf() && q_eq(o.bokeh_focal_width@, (1int, 5int))
    &&& o.color_offset.0@ == (1int, 1int)
    &&& o.color_offset.1@ == (1int, 1int)
    &&& o.color_offset.2@ == (1int, 1int)
    &&& o.color_offset.3@ == (1int, 1int)
    &&& o.greyscale == false
    &&& o.noise@ == (0int, 1int)
}

impl Default for PostShaderOptions {
    /// The default post-shader options.
    fn default() -> (o: PostShaderOptions)
        ensures
            post_shader_options_default(o),
    {
        PostShaderOptions {
            chrom_offset: Rat::new(3, 1000),
            chrom_amt: Rat::from_int(0),
            blur: false,
            blur_amt: Rat::from_int(1),
            blur_radius: Rat::from_int(1),
            blur_weight: Rat::from_int(1),
            bokeh: false,
            bokeh_focal_depth: Rat::new(1, 5),
            bokeh_focal_width: Rat::new(1, 5),
            color_offset: (
                Rat::from_int(1),
                Rat::from_int(1),
                Rat::from_int(1),
                Rat::from_int(1),
            ),
            greyscale: false,
            noise: Rat::from_int(0),
        }
    }
}

/// The compositor's state: which post shader runs, at which offscreen
/// scale, with which options.
pub struct PostEffect {
    /// The name of the post shader the composite pass uses; an unknown
    /// name falls back to this default.
    pub current_shader: String,
    /// The scale of the offscreen target relative to the window, in
    /// `(0, 1]`.
    pub downscale_factor: Rat,
    /// Options for the post shader.
    pub post_shader_options: PostShaderOptions,
}

/// The downscale factor is a well-formed rational in `(0, 1]`.
pub open spec fn post_effect_wf(p: PostEffect) -> bool {
    &&& p.downscale_factor.wf()
    &&& q_lt((0int, 1int), p.downscale_factor@)
    &&& q_le(p.downscale_factor@, (1int, 1int))
}

impl PostEffect {
    /// A fresh compositor: the default shader at full resolution with
    /// default options.
    pub fn new() -> (p: PostEffect)
        ensures
            post_effect_wf(p),
            p.current_shader@ == "default"@,
            p.downscale_factor@ == (1int, 1int),
            post_shader_options_default(p.post_shader_options),
    {
        PostEffect {
            current_shader: String::from_str("default"),
            downscale_factor: Rat::from_int(1),
            post_shader_options: PostShaderOptions::default(),
        }
    }
}

/// One axis of the offscreen target: the window extent scaled by the
/// factor, floored, and at least one pixel.
pub open spec fn spec_scaled_dim(w: int, f: (int, int)) -> int {
    let d = (w * f.0) / f.1;
    if d < 1 {
        1
    } else {
        d
    }
}

/// The offscreen target's pixel dimensions for a window of
/// `width x height` under a downscale factor in `(0, 1]`: each axis is
/// floored and clamped to at least 1.
pub fn scaled_dimensions(width: u32, height: u32, factor: Rat) -> (r: (u32, u32))
    requires
        factor.wf(),
        q_lt((0int, 1int), factor@),
        q_le(factor@, (1int, 1int)),
    ensures
        r.0 as int == spec_scaled_dim(width as int, factor@),
        r.1 as int == spec_scaled_dim(height as int, factor@),
{
    let w = scaled_axis(width, factor);
    let h = scaled_axis(height, factor);
    (w, h)
}

/// One axis of `scaled_dimensions`.
fn scaled_axis(w: u32, factor: Rat) -> (r: u32)
    requires
        factor.wf(),
        q_lt((0int, 1int), factor@),
        q_le(factor@, (1int, 1int)),
    ensures
        r as int == spec_scaled_dim(w as int, factor@),
{
    let num = factor.num();
    let den = factor.den();
    proof {
        lemma_mul_bound(w as int, factor@.0, 0x1_0000_0000, 0x7fff_ffff_ffff_ffff);
    }
    let n: u128 = (w as u128) * (num as u128);
    let d: u128 = n / (den as u128);
    proof {
        lemma_mul_inequality(factor@.0, factor@.1, w as int);
        assert(w as int * factor@.0 == factor@.0 * (w as int)) by (nonlinear_arith);
        assert(w as int * factor@.1 == factor@.1 * (w as int)) by (nonlinear_arith);
        lemma_div_is_ordered(w as int * factor@.0, w as int * factor@.1, factor@.1);
        lemma_div_multiples_vanish(w as int, factor@.1);
        assert(factor@.1 * (w as int) == (w as int) * factor@.1) by (nonlinear_arith);
        assert((w as int * factor@.1) / factor@.1 == w as int);
        assert(d as int <= w as int);
    }
    if d < 1 {
        1
    } else {
        d as u32
    }
}

/// Halving the downscale factor halves each floored offscreen axis,
/// still clamped to at least one pixel, while the full factor keeps the
/// window's own extent.
pub proof fn lemma_downscale_half(w: int)
    requires
        w >= 0,
    ensures
        spec_scaled_dim(w, (1int, 2int)) == (if w / 2 < 1 { 1int } else { w / 2 }),
        spec_scaled_dim(w, (1int, 1int)) == (if w < 1 { 1int } else { w }),
{
    assert(w * 1 == w);
    lemma_div_multiples_vanish(w, 1);
}

} // verus!
