//! The variants of the compute shader that draws the world.

use vstd::prelude::*;

verus! {

/// A variant of the compute shader.
#[derive(Clone, Copy, Debug, PartialEq, Eq, Structural)]
pub enum ShaderType {
    Basic,
    Organic,
    Balanced,
    Cubes,
}

impl ShaderType {
    /// Where the source of this variant is kept.
    pub open spec fn spec_source_path(self) -> Seq<char> {
        match self {
            ShaderType::Basic => "shaders/compute_shader_basic.glsl"@,
            ShaderType::Organic => "shaders/compute_shader_organic.glsl"@,
            ShaderType::Balanced => "shaders/compute_shader_balanced.glsl"@,
            ShaderType::Cubes => "shaders/compute_shader_cubes.glsl"@,
        }
    }

    /// Whether this variant reads the world in the layout of the flattened
    /// buffer. `Balanced` and `Cubes` do; `Basic` and `Organic` expect another.
    pub open spec fn spec_is_compatible(self) -> bool {
        self == ShaderType::Balanced || self == ShaderType::Cubes
    }

    /// Gives the path of the file that holds the source of this variant.
    pub fn source_path(self) -> (path: &'static str)
        ensures
            path@ == self.spec_source_path(),
    {
        match self {
            ShaderType::Basic => "shaders/compute_shader_basic.glsl",
            ShaderType::Organic => "shaders/compute_shader_organic.glsl",
            ShaderType::Balanced => "shaders/compute_shader_balanced.glsl",
            ShaderType::Cubes => "shaders/compute_shader_cubes.glsl",
        }
    }

    /// Tells whether this variant can draw the flattened buffer.
    #[verifier::when_used_as_spec(spec_is_compatible)]
    pub fn is_compatible(self) -> (compatible: bool)
        ensures
            compatible == self.spec_is_compatible(),
    {
        match self {
            ShaderType::Balanced | ShaderType::Cubes => true,
            ShaderType::Basic | ShaderType::Organic => false,
        }
    }
}

} // verus!
