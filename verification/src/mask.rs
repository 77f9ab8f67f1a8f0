//! The mask effect: its variants, its per-instance parameters, and the
//! packed uniform record the shaders consume.

use vstd::prelude::*;

verus! {

/// Bit pattern of the single-precision value twenty, the conventional
/// strength of a square mask.
pub const SQUARE_STRENGTH_BITS: u32 = 0x41A0_0000;

/// Bit pattern of the single-precision value eighty thousand, the
/// conventional strength of a CRT mask.
pub const CRT_STRENGTH_BITS: u32 = 0x479C_4000;

/// Bit pattern of the single-precision value sixty-six hundredths, the
/// conventional strength of a vignette mask.
pub const VIGNETTE_STRENGTH_BITS: u32 = 0x3F28_F5C3;

/// Bit pattern of the single-precision value zero: a mask not faded at all,
/// in full effect.
pub const FADE_NONE_BITS: u32 = 0x0000_0000;

/// Which mask shape an effect instance selects.
///
/// The variant is the pipeline specialization key: distinct variants select
/// distinct shader code paths and so require distinct compiled pipelines.
#[derive(Debug, PartialEq, Eq, Structural, Hash, Copy, Clone)]
pub enum MaskVariant {
    /// Rounded square mask, e.g. to attenuate artifacts near the edges.
    Square,
    /// Rounded, oval mask like a CRT television.
    Crt,
    /// Classic photographic light attenuation towards the edges.
    Vignette,
}

impl MaskVariant {
    /// The shader define that selects this variant's code path at pipeline
    /// compilation.
    pub open spec fn spec_shader_def(self) -> Seq<char> {
        match self {
            MaskVariant::Square => "SQUARE"@,
            MaskVariant::Crt => "CRT"@,
            MaskVariant::Vignette => "VIGNETTE"@,
        }
    }

    /// Maps the variant to the string define compiled into its pipeline.
    pub fn shader_def(self) -> (r: &'static str)
        ensures
            r@ == self.spec_shader_def(),
    {
        match self {
            MaskVariant::Square => "SQUARE",
            MaskVariant::Crt => "CRT",
            MaskVariant::Vignette => "VIGNETTE",
        }
    }

    /// The define list a pipeline specialized for this variant is compiled
    /// with: exactly the variant's own define.
    pub fn shader_defs(self) -> (r: Vec<&'static str>)
        ensures
            r@.len() == 1,
            r@[0]@ == self.spec_shader_def(),
    {
        let mut defs: Vec<&'static str> = Vec::new();
        defs.push(self.shader_def());
        defs
    }
}

/// One mask effect instance's parameters, as set by the host scene.
///
/// `strength` and `fade` hold the bit patterns of the single-precision
/// values the shader reads; the pipeline only ever copies them, so carrying
/// the bits keeps extraction and packing exact. `fade` ranges from zero
/// (full effect) to one (no effect).
#[derive(Debug, PartialEq, Eq, Structural, Copy, Clone)]
pub struct Mask {
    /// Bit pattern of the strength parameter of the mask in use.
    pub strength: u32,
    /// Bit pattern of how much the mask is faded: one means no effect,
    /// zero means full effect.
    pub fade: u32,
    /// Which [`MaskVariant`] to produce.
    pub variant: MaskVariant,
}

impl Mask {
    /// A square mask with a reasonable strength value.
    pub fn square() -> (r: Self)
        ensures
            r == (Mask {
                strength: SQUARE_STRENGTH_BITS,
                fade: FADE_NONE_BITS,
                variant: MaskVariant::Square,
            }),
    {
        Mask { strength: SQUARE_STRENGTH_BITS, fade: FADE_NONE_BITS, variant: MaskVariant::Square }
    }

    /// A CRT mask with a reasonable strength value.
    pub fn crt() -> (r: Self)
        ensures
            r == (Mask {
                strength: CRT_STRENGTH_BITS,
                fade: FADE_NONE_BITS,
                variant: MaskVariant::Crt,
            }),
    {
        Mask { strength: CRT_STRENGTH_BITS, fade: FADE_NONE_BITS, variant: MaskVariant::Crt }
    }

    /// A vignette mask with a reasonable strength value.
    pub fn vignette() -> (r: Self)
        ensures
            r == (Mask {
                strength: VIGNETTE_STRENGTH_BITS,
                fade: FADE_NONE_BITS,
                variant: MaskVariant::Vignette,
            }),
    {
        Mask {
            strength: VIGNETTE_STRENGTH_BITS,
            fade: FADE_NONE_BITS,
            variant: MaskVariant::Vignette,
        }
    }
}

impl Default for Mask {
    /// The default mask is the vignette.
    fn default() -> (r: Self)
        ensures
            r == (Mask {
                strength: VIGNETTE_STRENGTH_BITS,
                fade: FADE_NONE_BITS,
                variant: MaskVariant::Vignette,
            }),
    {
        Mask::vignette()
    }
}

/// The packed numeric subset of a [`Mask`] suitable for GPU buffer layout:
/// the variant is excluded, since it selects the pipeline rather than
/// runtime data.
#[derive(Debug, PartialEq, Eq, Structural, Copy, Clone)]
pub struct MaskUniform {
    /// Bit pattern of the strength parameter.
    pub strength: u32,
    /// Bit pattern of the fade parameter.
    pub fade: u32,
}

/// The uniform record a mask packs to: its strength and fade, bitwise.
pub open spec fn spec_uniform_of(mask: Mask) -> MaskUniform {
    MaskUniform { strength: mask.strength, fade: mask.fade }
}

impl From<Mask> for MaskUniform {
    /// Drops the variant and keeps the numeric parameters.
    fn from(mask: Mask) -> (r: Self) {
        MaskUniform { strength: mask.strength, fade: mask.fade }
    }
}

impl vstd::std_specs::convert::FromSpecImpl<Mask> for MaskUniform {
    open spec fn obeys_from_spec() -> bool {
        true
    }

    open spec fn from_spec(mask: Mask) -> Self {
        spec_uniform_of(mask)
    }
}

} // verus!
