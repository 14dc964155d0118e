//! The scene data the per-frame pipeline consumes.

use vstd::prelude::*;
use crate::rat::Rat;

verus! {

/// One vertex of a drawable mesh.
#[derive(Clone, Copy)]
pub struct Vertex {
    /// Position in model space.
    pub position: (Rat, Rat, Rat),
    /// The vertex normal.
    pub normal: (Rat, Rat, Rat),
    /// Texture coordinates.
    pub texture: (Rat, Rat),
}

/// The placement of one instance of a drawable.
#[derive(Clone, Copy)]
pub struct Transform {
    /// Whether this instance takes part in the frame at all.
    pub active: bool,
    /// World position.
    pub pos: (Rat, Rat, Rat),
    /// World rotation, as a quaternion.
    pub rot: (Rat, Rat, Rat, Rat),
    /// Non-uniform world scale.
    pub scale: (Rat, Rat, Rat),
}

/// All rational components of a transform are well formed.
pub open spec fn transform_wf(t: Transform) -> bool {
    &&& t.pos.0.wf() && t.pos.1.wf() && t.pos.2.wf()
    &&& t.rot.0.wf() && t.rot.1.wf() && t.rot.2.wf() && t.rot.3.wf()
    &&& t.scale.0.wf() && t.scale.1.wf() && t.scale.2.wf()
}

/// How a drawable is shaded: a shader and optional texture names.
pub struct Material {
    /// The shader that draws the item; a missing entry in the registry is
    /// a fatal setup error.
    pub shader_name: String,
    /// The texture, or the registry's `"default"` when unset.
    pub texture_name: Option<String>,
    /// The normal map, or the registry's `"default_normal"` when unset.
    pub normal_texture_name: Option<String>,
}

/// One drawable: a shared vertex list drawn once per surviving instance.
pub struct RenderItem {
    /// The shared vertex list.
    pub vertices: Vec<Vertex>,
    /// How the item is shaded.
    pub material: Material,
    /// The instances, in caller order.
    pub instance_transforms: Vec<Transform>,
    /// Whether the item takes part in the frame at all.
    pub active: bool,
}

/// Every instance's components are well formed.
pub open spec fn item_wf(item: RenderItem) -> bool {
    forall|j: int| 0 <= j < item.instance_transforms@.len() ==> transform_wf(
        #[trigger] item.instance_transforms@[j],
    )
}

/// Every item is well formed.
pub open spec fn items_wf(items: Seq<RenderItem>) -> bool {
    forall|i: int| 0 <= i < items.len() ==> item_wf(#[trigger] items[i])
}

/// The per-instance attribute record handed to the instanced draw call.
#[derive(Clone, Copy)]
pub struct Attr {
    /// World position.
    pub world_position: (Rat, Rat, Rat),
    /// World rotation.
    pub world_rotation: (Rat, Rat, Rat, Rat),
    /// World scale.
    pub world_scale: (Rat, Rat, Rat),
}

} // verus!
