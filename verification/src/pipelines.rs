//! Tag types (unit structs, never constructed by the renderer) for typed pipelines and bind group layouts, and the grouping
//! struct for the renderer's pipelines.
use vstd::prelude::*;

verus! {

/// Tag of the terrain pipeline.
pub struct TerrainPass;

/// Tag of the instanced-mesh pipeline.
pub struct InstancedPass;

/// Tag of the sky pipeline.
pub struct SkyPass;

/// Tag of the ambient-occlusion pipeline.
pub struct AoPass;

/// Tag of the screen-space global illumination pipeline.
pub struct SsgiPass;

/// Tag of the screen-space reflections pipeline.
pub struct SsrPass;

/// Tag of the bloom pipeline.
pub struct BloomPass;

/// Grouping of the renderer's pipelines.
pub struct Pipelines;

impl Default for Pipelines {
    fn default() -> (r: Self) {
        Pipelines
    }
}

} // verus!
