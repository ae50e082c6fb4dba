//! Processor features the kernel needs, and the extended (x87, SSE, AVX)
//! register state it saves and restores for each process.
use vstd::prelude::*;

verus! {

/// The CPUID leaf that lists processor features.
pub const PROCESSOR_FEATURES_LEAF: u32 = 0x01;

/// The CPUID leaf that describes the extended state.
pub const EXTENDED_STATE_LEAF: u32 = 0x0d;

/// Feature bits of CPUID leaf 1, ECX.
pub const XSAVE_FEATURE_BIT: u32 = 0x0400_0000;

pub const SSE3_FEATURE_BIT: u32 = 0x1;

pub const SSSE3_FEATURE_BIT: u32 = 0x200;

pub const SSE4_1_FEATURE_BIT: u32 = 0x8_0000;

pub const SSE4_2_FEATURE_BIT: u32 = 0x10_0000;

pub const AVX_FEATURE_BIT: u32 = 0x1000_0000;

/// Feature bit of CPUID leaf 7, EBX.
pub const AVX2_FEATURE_BIT: u32 = 0x20;

/// The state components the kernel enables in XCR0: x87, SSE and AVX.
pub const REQUIRED_STATE_MASK: u64 = 0x7;

/// Bytes of the save area kept for each process.
pub const XSAVE_AREA_SIZE: usize = 832;

/// Offset of MXCSR in the save area.
pub const MXCSR_OFFSET: usize = 24;

/// MXCSR at reset: all exceptions masked, round to nearest.
pub const INITIAL_MXCSR: u32 = 0x1f80;

/// A processor feature the kernel cannot run without.
#[derive(Debug, Clone, Copy, PartialEq, Eq, Structural)]
pub enum MissingFeature {
    ExtendedStateEnumeration,
    Xsave,
    Sse3,
    Ssse3,
    Sse4_1,
    Sse4_2,
    Avx,
    Avx2,
    ExtendedStateComponents,
    SaveAreaSize,
}

/// What CPUID reports that the kernel checks: the highest basic leaf, leaf
/// 1's ECX, leaf 7's EBX, and the state components leaf 0x0d supports
/// (EDX:EAX).
#[derive(Debug, Clone, Copy, PartialEq, Eq, Structural)]
pub struct ProcessorFeatures {
    pub maximum_basic_leaf: u32,
    pub features_ecx: u32,
    pub extended_features_ebx: u32,
    pub supported_state_mask: u64,
}

/// The first missing feature, in the order they are checked, if any.
pub open spec fn first_missing(f: ProcessorFeatures) -> Option<MissingFeature> {
    if f.maximum_basic_leaf < EXTENDED_STATE_LEAF {
        Some(MissingFeature::ExtendedStateEnumeration)
    } else if f.features_ecx & XSAVE_FEATURE_BIT == 0 {
        Some(MissingFeature::Xsave)
    } else if f.features_ecx & SSE3_FEATURE_BIT == 0 {
        Some(MissingFeature::Sse3)
    } else if f.features_ecx & SSSE3_FEATURE_BIT == 0 {
        Some(MissingFeature::Ssse3)
    } else if f.features_ecx & SSE4_1_FEATURE_BIT == 0 {
        Some(MissingFeature::Sse4_1)
    } else if f.features_ecx & SSE4_2_FEATURE_BIT == 0 {
        Some(MissingFeature::Sse4_2)
    } else if f.features_ecx & AVX_FEATURE_BIT == 0 {
        Some(MissingFeature::Avx)
    } else if f.extended_features_ebx & AVX2_FEATURE_BIT == 0 {
        Some(MissingFeature::Avx2)
    } else if f.supported_state_mask & REQUIRED_STATE_MASK != REQUIRED_STATE_MASK {
        Some(MissingFeature::ExtendedStateComponents)
    } else {
        None
    }
}

/// Checks that the processor has every feature the kernel needs; on
/// success, the state components to enable in XCR0.
pub fn check_features(f: ProcessorFeatures) -> (r: Result<u64, MissingFeature>)
    ensures
        r == match first_missing(f) {
            Some(m) => Err::<u64, MissingFeature>(m),
            None => Ok::<u64, MissingFeature>(REQUIRED_STATE_MASK),
        },
{
    if f.maximum_basic_leaf < EXTENDED_STATE_LEAF {
        return Err(MissingFeature::ExtendedStateEnumeration);
    }
    if f.features_ecx & XSAVE_FEATURE_BIT == 0 {
        return Err(MissingFeature::Xsave);
    }
    if f.features_ecx & SSE3_FEATURE_BIT == 0 {
        return Err(MissingFeature::Sse3);
    }
    if f.features_ecx & SSSE3_FEATURE_BIT == 0 {
        return Err(MissingFeature::Ssse3);
    }
    if f.features_ecx & SSE4_1_FEATURE_BIT == 0 {
        return Err(MissingFeature::Sse4_1);
    }
    if f.features_ecx & SSE4_2_FEATURE_BIT == 0 {
        return Err(MissingFeature::Sse4_2);
    }
    if f.features_ecx & AVX_FEATURE_BIT == 0 {
        return Err(MissingFeature::Avx);
    }
    if f.extended_features_ebx & AVX2_FEATURE_BIT == 0 {
        return Err(MissingFeature::Avx2);
    }
    if f.supported_state_mask & REQUIRED_STATE_MASK != REQUIRED_STATE_MASK {
        return Err(MissingFeature::ExtendedStateComponents);
    }
    Ok(REQUIRED_STATE_MASK)
}

/// The extended state the kernel saves: which components, and the size of
/// their save area.
#[derive(Debug, Clone, Copy, PartialEq, Eq, Structural)]
pub struct ExtendedStateConfiguration {
    pub mask: u64,
    pub size: usize,
}

/// The configuration once the components in `mask` are enabled and CPUID
/// reports a save area of `size` bytes, which must not be 0.
pub fn configuration(mask: u64, size: usize) -> (r: Result<ExtendedStateConfiguration, MissingFeature>)
    ensures
        r == if size == 0 {
            Err::<ExtendedStateConfiguration, MissingFeature>(MissingFeature::SaveAreaSize)
        } else {
            Ok::<ExtendedStateConfiguration, MissingFeature>(ExtendedStateConfiguration { mask, size })
        },
{
    if size == 0 {
        return Err(MissingFeature::SaveAreaSize);
    }
    Ok(ExtendedStateConfiguration { mask, size })
}

/// The extended register state of a process, in the layout `xsave`
/// writes.
pub struct ExtendedProcessorState {
    area: Vec<u8>,
}

/// The save area of a process that has not run yet: all zero but MXCSR,
/// which holds its reset value 0x1f80 (little-endian).
pub open spec fn initial_area() -> Seq<u8> {
    Seq::new(
        XSAVE_AREA_SIZE as nat,
        |i: int|
            if i == 24 {
                0x80u8
            } else if i == 25 {
                0x1fu8
            } else {
                0u8
            },
    )
}

impl ExtendedProcessorState {
    pub closed spec fn spec_area(&self) -> Seq<u8> {
        self.area@
    }

    /// The state of a process that has not run yet. The processor's save
    /// area must fit in [`XSAVE_AREA_SIZE`] bytes.
    pub fn new(configuration: ExtendedStateConfiguration) -> (r: Self)
        requires
            configuration.size <= XSAVE_AREA_SIZE,
        ensures
            r.spec_area() == initial_area(),
    {
        let mut area: Vec<u8> = Vec::new();
        let mut i: usize = 0;
        while i < XSAVE_AREA_SIZE
            invariant
                i <= XSAVE_AREA_SIZE,
                area@.len() == i,
                forall|j: int| 0 <= j < i ==> #[trigger] area@[j] == initial_area()[j],
            decreases XSAVE_AREA_SIZE - i,
        {
            let byte: u8 = if i == MXCSR_OFFSET {
                (INITIAL_MXCSR & 0xff) as u8
            } else if i == MXCSR_OFFSET + 1 {
                (INITIAL_MXCSR >> 8u32) as u8
            } else {
                0
            };
            proof {
                assert(INITIAL_MXCSR & 0xff == 0x80) by (bit_vector);
                assert(INITIAL_MXCSR >> 8u32 == 0x1f) by (bit_vector);
            }
            area.push(byte);
            i = i + 1;
        }
        proof {
            assert(area@ =~= initial_area());
        }
        Self { area }
    }

    /// The saved bytes.
    pub fn area(&self) -> (r: &Vec<u8>)
        ensures
            r@ == self.spec_area(),
    {
        &self.area
    }
}

} // verus!
