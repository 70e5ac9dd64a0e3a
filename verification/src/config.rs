use vstd::prelude::*;

verus! {

/// Why a pipeline configuration is refused.
#[derive(Debug, Clone, Copy, PartialEq, Eq, Structural)]
pub enum ConfigError {
    /// The cascade count is zero.
    NoCascades,
    /// A grid has a width or a height of zero, or the coarsest cascade
    /// would have no rows left.
    EmptyGrid,
    /// The probe spacing, or the number of texels per probe, is zero.
    ZeroProbeSpacing,
    /// The voxel grid has a side of zero.
    EmptyVoxelGrid,
    /// A derived size does not fit the integers that carry it.
    TooLarge,
    /// A buffer does not hold one value per cell of its grid.
    SizeMismatch,
}

impl ConfigError {
    /// A sentence that names the fault.
    pub fn message(&self) -> (s: &'static str)
        ensures
            s@ == self.message_text(),
    {
        match self {
            ConfigError::NoCascades => "cascade count must be at least one",
            ConfigError::EmptyGrid => "grid dimensions must be non-zero at every level",
            ConfigError::ZeroProbeSpacing => "probe spacing and texels per probe must be non-zero",
            ConfigError::EmptyVoxelGrid => "voxel resolution must be non-zero on every axis",
            ConfigError::TooLarge => "a derived size exceeds the supported range",
            ConfigError::SizeMismatch => "buffer length does not match the grid dimensions",
        }
    }

    /// The text of `message`, as a sequence of characters.
    pub open spec fn message_text(&self) -> Seq<char> {
        match self {
            ConfigError::NoCascades => "cascade count must be at least one"@,
            ConfigError::EmptyGrid => "grid dimensions must be non-zero at every level"@,
            ConfigError::ZeroProbeSpacing => "probe spacing and texels per probe must be non-zero"@,
            ConfigError::EmptyVoxelGrid => "voxel resolution must be non-zero on every axis"@,
            ConfigError::TooLarge => "a derived size exceeds the supported range"@,
            ConfigError::SizeMismatch => "buffer length does not match the grid dimensions"@,
        }
    }
}

} // verus!
