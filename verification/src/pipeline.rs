use vstd::prelude::*;
use crate::cascade::{
    adjusted_spacing, atlas_side, geometry_fault, is_base_interval, AtlasLayout, CascadeGeometry,
};
use crate::config::ConfigError;
use crate::hi_z::{last_level, reduction_pass_at, reduction_passes, ReductionPass};
use crate::grid::sides_fault;
use crate::voxel::{resolution_fault, voxel_count};

verus! {

/// The parameters of the 3D pipeline that are counted in whole numbers.
/// They are set once per session and do not change during a frame.
#[derive(Debug, Clone, Copy, PartialEq, Eq, Structural)]
pub struct PipelineConfig {
    pub screen_width: u32,
    pub screen_height: u32,
    pub cascade_count: u32,
    /// Distance between the probes of the finest cascade, in pixels.
    pub probe_spacing: u32,
    /// Texels per probe along each axis of the atlas.
    pub probe_texels: u32,
    pub voxel_width: u32,
    pub voxel_height: u32,
    pub voxel_depth: u32,
    /// The coarsest level of the depth pyramid that may be built.
    pub hi_z_max_level: u32,
}

/// The fault, if any, of a configuration: that of the screen first, then
/// that of the cascades, then that of the voxel grid.
pub open spec fn config_fault(c: PipelineConfig) -> Option<ConfigError> {
    if sides_fault(c.screen_width as nat, c.screen_height as nat) is Some {
        sides_fault(c.screen_width as nat, c.screen_height as nat)
    } else if geometry_fault(
        AtlasLayout::Halving,
        c.cascade_count as nat,
        c.screen_width as nat,
        c.screen_height as nat,
        c.probe_spacing as nat,
        c.probe_texels as nat,
    ) is Some {
        geometry_fault(
            AtlasLayout::Halving,
            c.cascade_count as nat,
            c.screen_width as nat,
            c.screen_height as nat,
            c.probe_spacing as nat,
            c.probe_texels as nat,
        )
    } else {
        resolution_fault(
            c.voxel_width as nat,
            c.voxel_height as nat,
            c.voxel_depth as nat,
        )
    }
}

/// What a valid configuration comes to.
pub struct Pipeline {
    /// The geometry of the cascade hierarchy.
    pub geometry: CascadeGeometry,
    /// The number of voxels of the grid.
    pub voxel_count: u32,
    /// The passes that build the depth pyramid above level 0.
    pub depth_passes: Vec<ReductionPass>,
}

impl PipelineConfig {
    /// Checks the configuration and derives from it what the stages of the
    /// pipeline are set up with. A configuration with a fault is refused
    /// with the error that names it; nothing is clamped or filled in.
    pub fn validate(&self) -> (r: Result<Pipeline, ConfigError>)
        ensures
            match r {
                Ok(p) => {
                    &&& config_fault(*self) is None
                    &&& p.geometry.layout() == AtlasLayout::Halving
                    &&& p.geometry.count() == self.cascade_count
                    &&& p.geometry.base_spacing() == adjusted_spacing(self.probe_spacing as nat)
                    &&& is_base_interval(self.probe_spacing as nat, p.geometry.base_interval())
                    &&& p.geometry.columns() == atlas_side(
                        self.screen_width as nat,
                        self.probe_texels as nat,
                        self.probe_spacing as nat,
                    )
                    &&& p.geometry.rows() == atlas_side(
                        self.screen_height as nat,
                        self.probe_texels as nat,
                        self.probe_spacing as nat,
                    )
                    &&& p.voxel_count == self.voxel_width * self.voxel_height * self.voxel_depth
                    &&& p.depth_passes.len() == last_level(
                        self.screen_width as nat,
                        self.screen_height as nat,
                        self.hi_z_max_level as nat,
                    )
                    &&& forall|i: int|
                        0 <= i < p.depth_passes.len() ==> p.depth_passes[i] == reduction_pass_at(
                            self.screen_width as nat,
                            self.screen_height as nat,
                            (i + 1) as nat,
                        )
                },
                Err(e) => config_fault(*self) == Some(e),
            },
    {
        let depth_passes = match reduction_passes(
            self.screen_width,
            self.screen_height,
            self.hi_z_max_level,
        ) {
            Ok(passes) => passes,
            Err(e) => {
                return Err(e);
            },
        };
        let geometry = match CascadeGeometry::new(
            self.cascade_count,
            self.screen_width,
            self.screen_height,
            self.probe_spacing,
            self.probe_texels,
        ) {
            Ok(geometry) => geometry,
            Err(e) => {
                return Err(e);
            },
        };
        let voxels = match voxel_count(self.voxel_width, self.voxel_height, self.voxel_depth) {
            Ok(n) => n,
            Err(e) => {
                return Err(e);
            },
        };
        Ok(Pipeline { geometry, voxel_count: voxels, depth_passes })
    }
}

} // verus!
