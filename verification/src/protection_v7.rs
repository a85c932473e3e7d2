//! PMSAv7 (ARMv7-M) memory protection.
//!
//! A PMSAv7 region spans a power of two of bytes, from 32 bytes up, and
//! starts at a multiple of its size. It is cut into eight sub-regions of
//! equal size, each of which can be taken out of effect on its own. A range
//! of addresses is given the smallest such region that holds it, with the
//! sub-regions that touch no byte of the range taken out of effect.
//!
//! A sub-region that holds any byte of the range stays in effect as a whole,
//! so up to one byte less than a sub-region's size may be reachable below
//! the start of the range, and as much beyond its end.

use vstd::prelude::*;
use vstd::arithmetic::logarithm::{lemma_log0, lemma_log_pow, lemma_log_s, log};
use vstd::arithmetic::div_mod::{lemma_fundamental_div_mod, lemma_mod_bound};
use vstd::arithmetic::power2::{
    is_pow2, is_pow2_equiv, is_pow2_exists, lemma2_to64, lemma_pow2, lemma_pow2_adds,
    lemma_pow2_pos, lemma_pow2_strictly_increases, lemma_pow2_unfold, pow2,
};
use crate::alignment::{
    align_down, block_covers, lemma_align_down_bounds, lemma_clear_low_bits_aligns_down,
    lemma_covered_range_straddles_nothing, lemma_covering_block_is_large,
    lemma_multiple_of_smaller_pow2, lemma_uncovered_range_straddles, straddles,
};
use crate::memory_config::{MemoryRegion, MemoryRegionType};
use crate::mpu::{
    CtrlFields, CtrlVal, Mpu, MpuState, Register, RegisterWrite, RnrVal, ADDR_MASK,
};
use crate::mpu_v7::{RasrAp, RasrVal, RbarVal};
use crate::ops::{
    lemma_cut_to_field, lemma_field_max_values, lemma_get_after_set, spec_get_bool_u32,
    spec_get_masked_u32, spec_set_bool_u32, spec_set_masked_u32, spec_set_u32,
};

verus! {

/// Size in bytes of the smallest region.
pub const MIN_REGION_SIZE: u32 = 32;

/// Size in bytes of the largest region that a range is given: 2 GiB.
pub const MAX_REGION_SIZE: u32 = 0x8000_0000;

/// Why a memory configuration cannot be built.
#[derive(Clone, Copy, Debug, PartialEq, Eq, Structural)]
pub enum ConfigError {
    /// No region of at most `MAX_REGION_SIZE` bytes holds the range.
    RegionTooLarge,
    /// The list holds more regions than the unit has.
    TooManyRegions,
}

/// Size in bytes of the region that the SIZE field `size_field` stands for.
pub open spec fn region_bytes(size_field: int) -> int {
    pow2((size_field + 1) as nat) as int
}

/// The SIZE field for a region of `size_bytes` bytes: one less than the
/// binary logarithm, rounded down, and never less than 4.
pub open spec fn spec_size_field(size_bytes: int) -> int {
    if log(2, size_bytes) < 5 {
        4
    } else {
        log(2, size_bytes) - 1
    }
}

/// The SIZE field of a region of `2^exp` bytes is `exp - 1`.
pub proof fn lemma_size_field_of_pow2(exp: nat)
    requires
        5 <= exp,
    ensures
        spec_size_field(pow2(exp) as int) == exp - 1,
        region_bytes(exp - 1) == pow2(exp),
{
    lemma_pow2(exp);
    lemma_log_pow(2, exp);
}

/// Whether bit `index` of the sub-region mask `srd_mask` is set.
pub open spec fn subregion_disabled(srd_mask: u8, index: int) -> bool {
    spec_get_bool_u32(srd_mask as u32, index as u32)
}

/// Base, SIZE field and sub-region mask of the region for one range.
#[derive(Clone, Copy, Debug, PartialEq, Eq, Structural)]
pub struct AlignedRegion {
    pub base: u32,
    pub size_field: u8,
    pub srd_mask: u8,
}

impl AlignedRegion {
    /// Size of the region in bytes.
    pub open spec fn region_size(&self) -> int {
        region_bytes(self.size_field as int)
    }

    /// Size of each of the eight sub-regions in bytes.
    pub open spec fn subregion_size(&self) -> int {
        self.region_size() / 8
    }

    /// First address of sub-region `index`.
    pub open spec fn subregion_start(&self, index: int) -> int {
        self.base + index * self.subregion_size()
    }

    /// Whether sub-region `index` shares an address with the range from
    /// `start` to `end`.
    pub open spec fn subregion_overlaps(&self, index: int, start: int, end: int) -> bool {
        &&& self.subregion_start(index) < end
        &&& self.subregion_start(index) + self.subregion_size() > start
    }

    /// Whether this is the region for the range from `start` to `end`: the
    /// smallest aligned region of a legal size that holds the range, with
    /// exactly the sub-regions that share no address with the range taken
    /// out of effect.
    pub open spec fn is_region_of(&self, start: int, end: int) -> bool {
        &&& 4 <= self.size_field <= 30
        &&& self.base == align_down(start, self.region_size())
        &&& block_covers(start, end, self.region_size())
        &&& forall|smaller: int|
            4 <= smaller < self.size_field ==> !block_covers(
                start,
                end,
                #[trigger] region_bytes(smaller),
            )
        &&& forall|index: int|
            0 <= index < 8 ==> (subregion_disabled(self.srd_mask, index)
                <==> !#[trigger] self.subregion_overlaps(index, start, end))
    }
}

/// The attribute fields of a region descriptor.
pub struct RegionAttributes {
    /// Execute-never.
    pub xn: bool,
    /// Type extension.
    pub tex: u8,
    /// Shareable.
    pub s: bool,
    /// Cacheable.
    pub c: bool,
    /// Bufferable.
    pub b: bool,
    /// Access permissions.
    pub ap: RasrAp,
}

/// The attributes that a region of type `ty` is given.
///
/// Ordinary memory is normal memory, write-back in the outer and the inner
/// cache; data may not be executed; what is read-only is read-only to
/// everyone; all but read-write data is shareable.
pub open spec fn spec_attributes(ty: MemoryRegionType) -> RegionAttributes {
    match ty {
        MemoryRegionType::ReadOnlyData => RegionAttributes {
            xn: true,
            tex: 0b001,
            s: true,
            c: true,
            b: true,
            ap: RasrAp::RoAny,
        },
        MemoryRegionType::ReadWriteData => RegionAttributes {
            xn: true,
            tex: 0b001,
            s: false,
            c: true,
            b: true,
            ap: RasrAp::RwAny,
        },
        MemoryRegionType::ReadOnlyExecutable => RegionAttributes {
            xn: false,
            tex: 0b001,
            s: true,
            c: true,
            b: true,
            ap: RasrAp::RoAny,
        },
        MemoryRegionType::ReadWriteExecutable => RegionAttributes {
            xn: false,
            tex: 0b001,
            s: true,
            c: true,
            b: true,
            ap: RasrAp::RwAny,
        },
        MemoryRegionType::Device => RegionAttributes {
            xn: true,
            tex: 0b000,
            s: true,
            c: false,
            b: true,
            ap: RasrAp::RoAny,
        },
    }
}

/// PMSAv7 MPU Region
#[derive(Clone, Copy, Debug, PartialEq, Eq, Structural)]
pub struct MpuRegion {
    pub rbar: RbarVal,
    pub rasr: RasrVal,
}

impl MpuRegion {
    /// Base, SIZE field and sub-region mask that the descriptor holds.
    pub open spec fn aligned(&self) -> AlignedRegion {
        AlignedRegion {
            base: self.rbar@.addr,
            size_field: self.rasr@.size,
            srd_mask: self.rasr@.srd,
        }
    }

    /// The attribute fields that the descriptor holds.
    pub open spec fn attributes(&self) -> RegionAttributes {
        RegionAttributes {
            xn: self.rasr@.xn,
            tex: self.rasr@.tex,
            s: self.rasr@.s,
            c: self.rasr@.c,
            b: self.rasr@.b,
            ap: self.rasr@.ap,
        }
    }

    /// Whether the descriptor is the one for `region`: an enabled region
    /// with the base, size and sub-region mask for the region's range and
    /// the attributes for its type, selected by region number register,
    /// and with no other bit set in either register value.
    pub open spec fn describes(&self, region: &MemoryRegion) -> bool {
        &&& self.aligned().is_region_of(region.start as int, region.end as int)
        &&& self.attributes() == spec_attributes(region.ty)
        &&& self.rasr@.enable
        &&& self.rasr.0 == self.rasr@.bits()
        &&& !self.rbar@.valid
        &&& self.rbar.0 == self.rbar@.addr
    }

    /// The descriptor of a region that is not in effect.
    pub fn const_default() -> (descriptor: Self)
        ensures
            descriptor == Self::spec_const_default(),
    {
        Self { rbar: RbarVal::const_default(), rasr: RasrVal::const_default() }
    }

    /// The descriptor with no bit set in either register value.
    pub open spec fn spec_const_default() -> MpuRegion {
        MpuRegion { rbar: RbarVal(0), rasr: RasrVal(0) }
    }

    /// The writes that put the descriptor into region `region_number`:
    /// select the region, then write its base address, then its attributes.
    pub open spec fn spec_writes(&self, region_number: int) -> Seq<RegisterWrite> {
        seq![
            RegisterWrite {
                register: Register::Rnr,
                value: spec_set_u32(0, 0, 7, region_number as u32),
            },
            RegisterWrite { register: Register::Rbar, value: self.rbar.0 },
            RegisterWrite { register: Register::Rasr, value: self.rasr.0 },
        ]
    }


    /// The descriptor for `region`.
    ///
    /// The range is refused when it has addresses on both sides of
    /// `MAX_REGION_SIZE`: that is when no region of a legal size holds it.
    pub fn from_memory_region(region: &MemoryRegion) -> (result: Result<Self, ConfigError>)
        requires
            region.wf(),
        ensures
            result is Err <==> straddles(
                region.start as int,
                region.end as int,
                MAX_REGION_SIZE as int,
            ),
            result matches Ok(descriptor) ==> descriptor.describes(region),
            result matches Err(error) ==> error == ConfigError::RegionTooLarge,
    {
        // PMSAv7 requires power-of-2 sized regions aligned to their size.
        // Use sub-regions to handle arbitrary ranges.
        let aligned_region = match Self::calculate_aligned_region(region.start, region.end) {
            Ok(aligned_region) => aligned_region,
            Err(error) => {
                return Err(error);
            },
        };

        // Ordinary memory is normal memory, outer and inner write-back
        // (TEX 0b001 with C and B); device memory is TEX 0b000 with B alone.
        let (xn, tex, s, c, b, ap) = match region.ty {
            MemoryRegionType::ReadOnlyData => (true, 0b001u8, true, true, true, RasrAp::RoAny),
            MemoryRegionType::ReadWriteData => (true, 0b001u8, false, true, true, RasrAp::RwAny),
            MemoryRegionType::ReadOnlyExecutable => (
                false,
                0b001u8,
                true,
                true,
                true,
                RasrAp::RoAny,
            ),
            MemoryRegionType::ReadWriteExecutable => (
                false,
                0b001u8,
                true,
                true,
                true,
                RasrAp::RwAny,
            ),
            MemoryRegionType::Device => (true, 0b000u8, true, false, true, RasrAp::RoAny),
        };

        let descriptor = Self {
            rbar: RbarVal::const_default()
                .with_valid(false)  // Region selected by RNR, not by RBAR.REGION
                .with_addr(aligned_region.base),
            rasr: RasrVal::const_default()
                .with_enable(true)
                .with_size(aligned_region.size_field)
                .with_srd(aligned_region.srd_mask)
                .with_tex(tex)
                .with_s(s)
                .with_c(c)
                .with_b(b)
                .with_ap(ap)
                .with_xn(xn),
        };
        proof {
            let exp = (aligned_region.size_field + 1) as nat;
            lemma2_to64();
            lemma_pow2_pos(exp);
            lemma_align_down_bounds(region.start as int, aligned_region.region_size());
            lemma_multiple_of_smaller_pow2(aligned_region.base as int, exp, 5);
            lemma_base_bits(aligned_region.base);
            lemma_attribute_bits(
                aligned_region.size_field,
                aligned_region.srd_mask,
                tex,
                s,
                c,
                b,
                ap.spec_bits(),
                xn,
            );
            assert(descriptor.aligned() == aligned_region);
        }
        Ok(descriptor)
    }


    /// Helper to calculate SIZE field from region size in bytes.
    pub fn calculate_size_field(size_bytes: u32) -> (size_field: u8)
        ensures
            size_field == spec_size_field(size_bytes as int),
            4 <= size_field <= 30,
    {
        let mut size: u32 = size_bytes;
        let mut bits: u8 = 0;
        proof {
            lemma2_to64();
        }
        while size > 1
            invariant
                log(2, size_bytes as int) == bits + log(2, size as int),
                size as int * pow2(bits as nat) <= size_bytes,
                bits <= 31,
            decreases size,
        {
            proof {
                lemma_log_s(2, size as int);
                lemma_pow2_unfold((bits + 1) as nat);
                lemma_pow2_pos(bits as nat);
                let p = pow2(bits as nat) as int;
                let half = (size / 2) as int;
                assert(half * (2 * p) <= size * p) by (nonlinear_arith)
                    requires
                        2 * half <= size,
                        p > 0,
                ;
                assert(half * (2 * p) >= 2 * p) by (nonlinear_arith)
                    requires
                        half >= 1,
                        p > 0,
                ;
                lemma2_to64();
                assert(size >> 1 == size / 2) by (bit_vector);
            }
            size >>= 1;
            bits += 1;
        }
        proof {
            lemma_log0(2, size as int);
        }
        if bits < 5 {
            4
        } else {
            bits - 1
        }
    }


    /// Calculate an aligned region that covers the range from `start` to `end`
    /// using sub-regions.
    ///
    /// The range is refused when it has addresses on both sides of
    /// `MAX_REGION_SIZE`: that is when no region of a legal size holds it.
    pub fn calculate_aligned_region(start: u32, end: u32) -> (result: Result<
        AlignedRegion,
        ConfigError,
    >)
        requires
            start <= end,
        ensures
            result is Err <==> straddles(start as int, end as int, MAX_REGION_SIZE as int),
            result matches Ok(aligned) ==> aligned.is_region_of(start as int, end as int),
            result matches Err(error) ==> error == ConfigError::RegionTooLarge,
    {
        let requested_size: u64 = (end - start) as u64;
        let limit: u64 = MAX_REGION_SIZE as u64;
        if requested_size > limit {
            return Err(ConfigError::RegionTooLarge);
        }
        // Find the smallest power-of-2 region that is as large as the range.
        let mut region_size: u64 = MIN_REGION_SIZE as u64;
        let ghost mut exp: nat = 5;
        proof {
            lemma2_to64();
        }
        while region_size < requested_size
            invariant
                start <= end,
                requested_size == end - start,
                requested_size <= limit,
                limit == 0x8000_0000,
                region_size == pow2(exp),
                5 <= exp <= 31,
                forall|smaller: int|
                    4 <= smaller < exp - 1 ==> !block_covers(
                        start as int,
                        end as int,
                        #[trigger] region_bytes(smaller),
                    ),
            decreases 31 - exp,
        {
            proof {
                lemma2_to64();
                if exp >= 31 {
                    lemma_pow2_strictly_increases(31, exp);
                }
                lemma_pow2_unfold(exp + 1);
                if block_covers(start as int, end as int, region_size as int) {
                    lemma_covering_block_is_large(start as int, end as int, region_size as int);
                }
                assert(region_bytes(exp - 1) == region_size);
            }
            region_size *= 2;
            proof {
                exp = exp + 1;
            }
        }
        // Find an aligned base from which the region reaches the end address;
        // where it does not, a larger region is needed.
        let mut aligned_base: u64 = (start as u64) & !(region_size - 1);
        proof {
            lemma_clear_low_bits_aligns_down(start as u64, region_size, exp);
            lemma_pow2_pos(exp);
            lemma_align_down_bounds(start as int, region_size as int);
        }
        while aligned_base + region_size < end as u64
            invariant
                start <= end,
                limit == 0x8000_0000,
                region_size == pow2(exp),
                region_size <= limit,
                5 <= exp <= 31,
                aligned_base == align_down(start as int, region_size as int),
                aligned_base <= start,
                forall|smaller: int|
                    4 <= smaller < exp - 1 ==> !block_covers(
                        start as int,
                        end as int,
                        #[trigger] region_bytes(smaller),
                    ),
            decreases 31 - exp,
        {
            proof {
                lemma2_to64();
                lemma_pow2_unfold(exp + 1);
                assert(region_bytes(exp - 1) == region_size);
                assert(!block_covers(start as int, end as int, region_size as int));
            }
            region_size *= 2;
            aligned_base = (start as u64) & !(region_size - 1);
            if region_size > limit {
                proof {
                    assert(exp == 31) by {
                        if exp < 31 {
                            lemma_pow2_strictly_increases(exp, 31);
                        }
                    }
                    lemma_uncovered_range_straddles(start as int, end as int);
                }
                return Err(ConfigError::RegionTooLarge);
            }
            proof {
                exp = exp + 1;
                lemma_clear_low_bits_aligns_down(start as u64, region_size, exp);
                lemma_pow2_pos(exp);
                lemma_align_down_bounds(start as int, region_size as int);
            }
        }
        proof {
            lemma2_to64();
            lemma_size_field_of_pow2(exp);
            lemma_covered_range_straddles_nothing(start as int, end as int, exp, 31);
            lemma_pow2_strictly_increases(4, exp);
            if exp < 31 {
                lemma_pow2_strictly_increases(exp, 31);
            }
        }
        let size_field: u8 = Self::calculate_size_field(region_size as u32);

        let srd_mask: u8 = Self::calculate_srd_mask(aligned_base, region_size / 8, start, end);
        let aligned = AlignedRegion { base: aligned_base as u32, size_field, srd_mask };
        proof {
            assert(aligned.region_size() == region_size);
            assert forall|index: int| 0 <= index < 8 implies (subregion_disabled(srd_mask, index)
                <==> !#[trigger] aligned.subregion_overlaps(index, start as int, end as int)) by {
                assert(aligned.subregion_start(index) == aligned_base + index * (region_size / 8));
            }
        }
        Ok(aligned)
    }

    /// The sub-region mask for the range from `start` to `end` in the region
    /// that starts at `base` and has sub-regions of `subregion_size` bytes: bit
    /// `index` is set where sub-region `index` shares no address with the
    /// range.
    fn calculate_srd_mask(base: u64, subregion_size: u64, start: u32, end: u32) -> (srd_mask: u8)
        requires
            base <= u32::MAX,
            subregion_size <= 0x1000_0000,
        ensures
            forall|index: int|
                0 <= index < 8 ==> (#[trigger] subregion_disabled(srd_mask, index) <==> !(base
                    + index * subregion_size < end && base + index * subregion_size
                    + subregion_size > start)),
    {
        let mut srd_mask: u8 = 0;
        let mut i: u8 = 0;
        proof {
            assert forall|index: int| 0 <= index < 8 implies !subregion_disabled(
                srd_mask,
                index,
            ) by {
                lemma_disable_subregion(0, 0, index as u32);
            }
        }
        while i < 8
            invariant
                i <= 8,
                base <= u32::MAX,
                subregion_size <= 0x1000_0000,
                forall|index: int|
                    0 <= index < i ==> (#[trigger] subregion_disabled(srd_mask, index) <==> !(base
                        + index * subregion_size < end && base + index * subregion_size
                        + subregion_size > start)),
                forall|index: int|
                    i <= index < 8 ==> !#[trigger] subregion_disabled(srd_mask, index),
            decreases 8 - i,
        {
            assert(i as u64 * subregion_size <= 7 * subregion_size) by (nonlinear_arith)
                requires
                    i <= 7,
            ;
            let subregion_start: u64 = base + (i as u64) * subregion_size;
            let subregion_end: u64 = subregion_start + subregion_size;
            // A sub-region overlaps if: subregion_start < end AND subregion_end > start.
            let overlaps: bool = subregion_start < (end as u64) && subregion_end > (start as u64);
            let ghost before = srd_mask;
            if !overlaps {
                srd_mask |= 1u8 << i;
            }
            proof {
                assert forall|index: int| 0 <= index < 8 implies (#[trigger] subregion_disabled(
                    srd_mask,
                    index,
                ) <==> ((index == i && !overlaps) || subregion_disabled(before, index))) by {
                    lemma_disable_subregion(before, i, index as u32);
                }
            }
            i += 1;
        }
        srd_mask
    }

    /// The region that the writes of the descriptor to region
    /// `region_number` change: `region_number`, unless the descriptor names
    /// a region itself by the VALID bit of its base-address value.
    pub open spec fn spec_target(&self, region_number: int) -> int {
        if self.rbar@.valid {
            self.rbar@.region as int
        } else {
            region_number
        }
    }

    /// Write the descriptor to region `region_number` of the bank. The
    /// region written must be one that the unit has.
    pub fn write(&self, mpu: &mut Mpu, region_number: usize)
        requires
            region_number < 255,
            self.spec_target(region_number as int) < old(mpu)@.regions.len(),
        ensures
            final(mpu)@ == old(mpu)@.run(self.spec_writes(region_number as int)),
            final(mpu)@.regions == old(mpu)@.regions.update(
                self.spec_target(region_number as int),
                (self.rbar, self.rasr),
            ),
            final(mpu)@.ctrl == old(mpu)@.ctrl,
            final(mpu)@.rnr.spec_region() == self.spec_target(region_number as int),
            final(mpu)@.writes == old(mpu)@.writes + self.spec_writes(region_number as int),
            final(mpu).spec_type() == old(mpu).spec_type(),
    {
        proof {
            self.lemma_writes_effect(region_number as int, mpu@);
        }
        mpu.write_rnr(RnrVal::default().with_region(region_number as u8));
        mpu.write_rbar(self.rbar);
        mpu.write_rasr(self.rasr);
    }
}

/// Two sub-region masks that agree in each of their eight bits are equal,
/// and every bit of the full mask is set.
proof fn lemma_mask_by_bits(first: u8, second: u8, index: u32)
    by (bit_vector)
    requires
        index < 8,
    ensures
        spec_get_bool_u32(0xffu8 as u32, index),
        (spec_get_bool_u32(first as u32, 0) == spec_get_bool_u32(second as u32, 0)
            && spec_get_bool_u32(first as u32, 1) == spec_get_bool_u32(second as u32, 1)
            && spec_get_bool_u32(first as u32, 2) == spec_get_bool_u32(second as u32, 2)
            && spec_get_bool_u32(first as u32, 3) == spec_get_bool_u32(second as u32, 3)
            && spec_get_bool_u32(first as u32, 4) == spec_get_bool_u32(second as u32, 4)
            && spec_get_bool_u32(first as u32, 5) == spec_get_bool_u32(second as u32, 5)
            && spec_get_bool_u32(first as u32, 6) == spec_get_bool_u32(second as u32, 6)
            && spec_get_bool_u32(first as u32, 7) == spec_get_bool_u32(second as u32, 7)) ==> first
            == second,
{
}

/// Setting bit `index` of a sub-region mask takes sub-region `index` out of
/// effect and changes no other; the empty mask leaves all eight in effect.
proof fn lemma_disable_subregion(srd_mask: u8, index: u8, other: u32)
    by (bit_vector)
    requires
        index < 8,
        other < 8,
    ensures
        spec_get_bool_u32((srd_mask | (1u8 << index)) as u32, other) == (other == index
            || spec_get_bool_u32(srd_mask as u32, other)),
        !spec_get_bool_u32(0u8 as u32, other),
{
}

/// A base-address register value made of a base address that is a multiple
/// of 32, with the region number left to the region number register, is the
/// address itself.
proof fn lemma_base_bits(base: u32)
    by (bit_vector)
    requires
        base % 32 == 0,
    ensures
        spec_set_masked_u32(spec_set_bool_u32(0, 4, false), ADDR_MASK, base) == base,
        spec_get_masked_u32(base, ADDR_MASK) == base,
{
}

/// An attribute-and-size register value put together field by field is the
/// sum of the fields, each at its position.
proof fn lemma_attribute_bits(
    size: u8,
    srd: u8,
    tex: u8,
    s: bool,
    c: bool,
    b: bool,
    ap: u8,
    xn: bool,
)
    by (bit_vector)
    requires
        size < 32,
        tex < 8,
        ap < 8,
    ensures
        ({
            let enabled = spec_set_bool_u32(0, 0, true);
            let sized = spec_set_u32(enabled, 1, 5, size as u32);
            let masked = spec_set_u32(sized, 8, 15, srd as u32);
            let typed = spec_set_u32(masked, 19, 21, tex as u32);
            let shared = spec_set_bool_u32(typed, 18, s);
            let cached = spec_set_bool_u32(shared, 17, c);
            let buffered = spec_set_bool_u32(cached, 16, b);
            let permitted = spec_set_u32(buffered, 24, 26, ap as u32);
            spec_set_bool_u32(permitted, 28, xn)
        }) == 1 + 0x2 * size + 0x100 * srd + (if b { 0x1_0000u32 } else { 0u32 }) + (if c {
            0x2_0000u32
        } else {
            0u32
        }) + (if s { 0x4_0000u32 } else { 0u32 }) + 0x8_0000 * tex + 0x100_0000 * ap + (if xn {
            0x1000_0000u32
        } else {
            0u32
        }),
{
}

impl AlignedRegion {
    /// A region is eight sub-regions of equal size, of at least 4 bytes
    /// each.
    pub proof fn lemma_subregions_fill_region(self)
        requires
            4 <= self.size_field <= 30,
        ensures
            self.region_size() == 8 * self.subregion_size(),
            self.subregion_size() >= 4,
    {
        lemma2_to64();
        lemma_pow2_adds(3, (self.size_field - 2) as nat);
        lemma_pow2_strictly_increases(1, (self.size_field - 2) as nat);
    }

    /// The region of a range starts at a multiple of its size, at or below
    /// the start of the range, and does not end before the range ends.
    pub proof fn lemma_region_holds_range(self, start: int, end: int)
        requires
            self.is_region_of(start, end),
        ensures
            self.base as int % self.region_size() == 0,
            self.base <= start,
            self.base + self.region_size() >= end,
    {
        lemma_pow2_pos((self.size_field + 1) as nat);
        lemma_align_down_bounds(start, self.region_size());
    }

    /// The size of the region of a range is a power of two, from 32 bytes to
    /// 2 GiB, and the SIZE field is one less than its binary logarithm.
    pub proof fn lemma_region_size_is_legal(self, start: int, end: int)
        requires
            self.is_region_of(start, end),
        ensures
            is_pow2(self.region_size()),
            32 <= self.region_size() <= 0x8000_0000,
            self.size_field == log(2, self.region_size()) - 1,
            4 <= self.size_field <= 30,
    {
        let exp = (self.size_field + 1) as nat;
        lemma2_to64();
        lemma_pow2(exp);
        lemma_log_pow(2, exp);
        assert(is_pow2_exists(self.region_size()));
        is_pow2_equiv(self.region_size());
        if exp > 5 {
            lemma_pow2_strictly_increases(5, exp);
        }
        if exp < 31 {
            lemma_pow2_strictly_increases(exp, 31);
        }
    }

    /// A sub-region of the region of a range is in effect if and only if
    /// it shares an address with the range.
    pub proof fn lemma_subregion_enabled_iff_overlaps(self, start: int, end: int, index: int)
        requires
            self.is_region_of(start, end),
            0 <= index < 8,
        ensures
            !subregion_disabled(self.srd_mask, index) <==> self.subregion_overlaps(
                index,
                start,
                end,
            ),
    {
    }

    /// Every address of a range lies in a sub-region of its region that is
    /// in effect.
    pub proof fn lemma_range_is_enabled(self, start: int, end: int, addr: int)
        requires
            self.is_region_of(start, end),
            start <= addr < end,
        ensures
            exists|index: int|
                0 <= index < 8 && !subregion_disabled(self.srd_mask, index)
                    && #[trigger] self.subregion_start(index) <= addr < self.subregion_start(index)
                    + self.subregion_size(),
    {
        self.lemma_subregions_fill_region();
        self.lemma_region_holds_range(start, end);
        let size = self.subregion_size();
        let offset = addr - self.base;
        let index = offset / size;
        lemma_fundamental_div_mod(offset, size);
        lemma_mod_bound(offset, size);
        assert(0 <= index < 8) by (nonlinear_arith)
            requires
                0 <= offset < 8 * size,
                size > 0,
                offset == size * index + offset % size,
                0 <= offset % size < size,
        ;
        assert(index * size == size * index) by (nonlinear_arith);
        assert(self.subregion_start(index) <= addr < self.subregion_start(index) + size);
        assert(self.subregion_overlaps(index, start, end));
    }

    /// An address in a sub-region that is in effect lies less than the size
    /// of a sub-region below the first address of the range, or beyond its
    /// last: that much may be reachable outside the range, and no more.
    pub proof fn lemma_enabled_subregion_is_near_range(
        self,
        start: int,
        end: int,
        index: int,
        addr: int,
    )
        requires
            self.is_region_of(start, end),
            0 <= index < 8,
            !subregion_disabled(self.srd_mask, index),
            self.subregion_start(index) <= addr < self.subregion_start(index)
                + self.subregion_size(),
        ensures
            start - addr < self.subregion_size(),
            addr - (end - 1) < self.subregion_size(),
    {
        assert(self.subregion_overlaps(index, start, end));
    }

    /// The region of a range that holds an address has at least one
    /// sub-region in effect.
    pub proof fn lemma_some_subregion_enabled(self, start: int, end: int)
        requires
            self.is_region_of(start, end),
            start < end,
        ensures
            self.srd_mask != 0xff,
    {
        self.lemma_range_is_enabled(start, end, start);
        let index = choose|index: int|
            0 <= index < 8 && !subregion_disabled(self.srd_mask, index)
                && #[trigger] self.subregion_start(index) <= start < self.subregion_start(index)
                + self.subregion_size();
        lemma_mask_by_bits(self.srd_mask, 0xff, index as u32);
    }

    /// A range has one region: base, SIZE field and sub-region mask follow
    /// from the range.
    pub proof fn lemma_region_is_unique(self, other: AlignedRegion, start: int, end: int)
        requires
            self.is_region_of(start, end),
            other.is_region_of(start, end),
        ensures
            self == other,
    {
        if self.size_field < other.size_field {
            assert(!block_covers(start, end, region_bytes(self.size_field as int)));
        }
        if other.size_field < self.size_field {
            assert(!block_covers(start, end, region_bytes(other.size_field as int)));
        }
        assert forall|index: int| 0 <= index < 8 implies subregion_disabled(self.srd_mask, index)
            == subregion_disabled(other.srd_mask, index) by {
            assert(self.subregion_overlaps(index, start, end) == other.subregion_overlaps(
                index,
                start,
                end,
            ));
        }
        assert(subregion_disabled(self.srd_mask, 0) == subregion_disabled(other.srd_mask, 0));
        assert(subregion_disabled(self.srd_mask, 1) == subregion_disabled(other.srd_mask, 1));
        assert(subregion_disabled(self.srd_mask, 2) == subregion_disabled(other.srd_mask, 2));
        assert(subregion_disabled(self.srd_mask, 3) == subregion_disabled(other.srd_mask, 3));
        assert(subregion_disabled(self.srd_mask, 4) == subregion_disabled(other.srd_mask, 4));
        assert(subregion_disabled(self.srd_mask, 5) == subregion_disabled(other.srd_mask, 5));
        assert(subregion_disabled(self.srd_mask, 6) == subregion_disabled(other.srd_mask, 6));
        assert(subregion_disabled(self.srd_mask, 7) == subregion_disabled(other.srd_mask, 7));
        lemma_mask_by_bits(self.srd_mask, other.srd_mask, 0);
    }
}

/// A range of 32-bit addresses has addresses on both sides of
/// `MAX_REGION_SIZE` if and only if no region of a legal size holds it.
pub proof fn lemma_refused_iff_no_region_holds(start: int, end: int)
    requires
        0 <= start <= end <= u32::MAX,
    ensures
        straddles(start, end, MAX_REGION_SIZE as int) <==> (forall|size_field: int|
            4 <= size_field <= 30 ==> !block_covers(
                start,
                end,
                #[trigger] region_bytes(size_field),
            )),
{
    lemma2_to64();
    if straddles(start, end, MAX_REGION_SIZE as int) {
        assert forall|size_field: int| 4 <= size_field <= 30 implies !block_covers(
            start,
            end,
            #[trigger] region_bytes(size_field),
        ) by {
            if block_covers(start, end, region_bytes(size_field)) {
                lemma_covered_range_straddles_nothing(start, end, (size_field + 1) as nat, 31);
            }
        }
    } else {
        if !block_covers(start, end, region_bytes(30)) {
            lemma_uncovered_range_straddles(start, end);
        }
    }
}

impl MpuRegion {
    /// A region has one descriptor: whenever it is made, it is the same two
    /// register values, bit for bit.
    pub proof fn lemma_descriptor_is_unique(
        region: MemoryRegion,
        first: MpuRegion,
        second: MpuRegion,
    )
        requires
            first.describes(&region),
            second.describes(&region),
        ensures
            first == second,
    {
        first.aligned().lemma_region_is_unique(
            second.aligned(),
            region.start as int,
            region.end as int,
        );
        assert(first.rasr@ == second.rasr@);
    }

    /// What the writes of a descriptor to region `region_number` do to a
    /// bank that has the region written: the bank takes them, the region
    /// holds the descriptor and is selected, and nothing else changes. The
    /// region written is `region_number`, unless the descriptor names one
    /// itself by the VALID bit of its base-address value.
    pub proof fn lemma_writes_effect(self, region_number: int, state: MpuState)
        requires
            0 <= region_number < 255,
            self.spec_target(region_number) < state.regions.len(),
        ensures
            state.accepts_all(self.spec_writes(region_number)),
            state.run(self.spec_writes(region_number)) == state.step(
                self.spec_writes(region_number)[0],
            ).step(self.spec_writes(region_number)[1]).step(self.spec_writes(region_number)[2]),
            state.run(self.spec_writes(region_number)).ctrl == state.ctrl,
            state.run(self.spec_writes(region_number)).rnr.spec_region() == self.spec_target(
                region_number,
            ),
            !self.rbar@.valid ==> state.run(self.spec_writes(region_number)).rnr == RnrVal(
                spec_set_u32(0, 0, 7, region_number as u32),
            ),
            state.run(self.spec_writes(region_number)).regions == state.regions.update(
                self.spec_target(region_number),
                (self.rbar, self.rasr),
            ),
            state.run(self.spec_writes(region_number)).writes == state.writes + self.spec_writes(
                region_number,
            ),
    {
        let writes = self.spec_writes(region_number);
        let first = state.step(writes[0]);
        let second = first.step(writes[1]);
        let third = second.step(writes[2]);
        lemma_get_after_set(0, 0, 7, region_number as u32);
        lemma_cut_to_field(region_number as u32, 0, 7);
        lemma_get_after_set(first.rnr.0, 0, 7, self.rbar@.region as u32);
        lemma_cut_to_field(self.rbar@.region as u32, 0, 7);
        lemma_field_max_values(0, 7);
        assert(writes =~= seq![writes[0]] + seq![writes[1]] + seq![writes[2]]);
        state.lemma_run_one(writes[0]);
        first.lemma_run_one(writes[1]);
        second.lemma_run_one(writes[2]);
        state.lemma_run_concat(seq![writes[0]], seq![writes[1]]);
        state.lemma_run_concat(seq![writes[0]] + seq![writes[1]], seq![writes[2]]);
        state.lemma_accepts_one(writes[0]);
        first.lemma_accepts_one(writes[1]);
        second.lemma_accepts_one(writes[2]);
        state.lemma_accepts_all_concat(seq![writes[0]], seq![writes[1]]);
        state.lemma_accepts_all_concat(seq![writes[0]] + seq![writes[1]], seq![writes[2]]);
        assert(third.regions =~= state.regions.update(
            self.spec_target(region_number),
            (self.rbar, self.rasr),
        ));
        assert(third.writes =~= state.writes + writes);
    }
}


/// Number of regions of a memory configuration.
pub const NUM_MPU_REGIONS: usize = 8;

/// Why `const_new` refuses a list of regions, if it does: the first eight
/// regions are taken in turn, and a ninth is one too many.
pub open spec fn spec_config_error(regions: Seq<MemoryRegion>) -> Option<ConfigError> {
    if exists|i: int|
        0 <= i < regions.len() && i < NUM_MPU_REGIONS && straddles(
            (#[trigger] regions[i]).start as int,
            regions[i].end as int,
            MAX_REGION_SIZE as int,
        ) {
        Some(ConfigError::RegionTooLarge)
    } else if regions.len() > NUM_MPU_REGIONS {
        Some(ConfigError::TooManyRegions)
    } else {
        None
    }
}

/// The region of kernel threads: the low 2 GiB of the address space,
/// readable, writeable and executable.
pub open spec fn spec_kernel_thread_region() -> MemoryRegion {
    MemoryRegion {
        ty: MemoryRegionType::ReadWriteExecutable,
        start: 0x0000_0000,
        end: 0x8000_0000,
    }
}

/// Represents the full configuration of the Cortex-M memory configuration
/// through the MPU block for ARMv7-M processors (PMSAv7).
pub struct MemoryConfig {
    mpu_regions: [MpuRegion; NUM_MPU_REGIONS],
    generic_regions: &'static [MemoryRegion],
}

impl MemoryConfig {
    /// The descriptors of the configuration, one for each region of the
    /// unit.
    pub closed spec fn slots(&self) -> Seq<MpuRegion> {
        self.mpu_regions@
    }

    /// The regions that the configuration was made from.
    pub closed spec fn sources(&self) -> Seq<MemoryRegion> {
        self.generic_regions@
    }

    /// Whether the descriptors are those for the regions `sources`: one for
    /// each region, in the order of the list, and after them descriptors
    /// of regions that are not in effect.
    pub open spec fn slots_describe(slots: Seq<MpuRegion>, sources: Seq<MemoryRegion>) -> bool {
        &&& slots.len() == NUM_MPU_REGIONS
        &&& sources.len() <= NUM_MPU_REGIONS
        &&& forall|i: int|
            0 <= i < sources.len() ==> (#[trigger] slots[i]).describes(&sources[i])
        &&& forall|i: int|
            sources.len() <= i < NUM_MPU_REGIONS ==> #[trigger] slots[i]
                == MpuRegion::spec_const_default()
    }

    #[verifier::type_invariant]
    closed spec fn inv(&self) -> bool {
        Self::slots_describe(self.mpu_regions@, self.generic_regions@)
    }

    /// Create a new `MemoryConfig` from a list of at most
    /// `NUM_MPU_REGIONS` regions.
    pub fn const_new(regions: &'static [MemoryRegion]) -> (result: Result<Self, ConfigError>)
        requires
            forall|i: int| 0 <= i < regions@.len() ==> (#[trigger] regions@[i]).wf(),
        ensures
            match result {
                Ok(config) => {
                    &&& spec_config_error(regions@) is None
                    &&& config.sources() == regions@
                    &&& Self::slots_describe(config.slots(), regions@)
                },
                Err(error) => spec_config_error(regions@) == Some(error),
            },
    {
        let mut mpu_regions = [MpuRegion::const_default();NUM_MPU_REGIONS];
        let mut i: usize = 0;
        while i < regions.len()
            invariant
                i <= regions@.len(),
                i <= NUM_MPU_REGIONS,
                forall|j: int| 0 <= j < regions@.len() ==> (#[trigger] regions@[j]).wf(),
                forall|j: int|
                    0 <= j < i ==> !straddles(
                        (#[trigger] regions@[j]).start as int,
                        regions@[j].end as int,
                        MAX_REGION_SIZE as int,
                    ),
                forall|j: int| 0 <= j < i ==> (#[trigger] mpu_regions@[j]).describes(&regions@[j]),
                forall|j: int|
                    i <= j < NUM_MPU_REGIONS ==> #[trigger] mpu_regions@[j]
                        == MpuRegion::spec_const_default(),
            decreases regions@.len() - i,
        {
            if i >= NUM_MPU_REGIONS {
                return Err(ConfigError::TooManyRegions);
            }
            match MpuRegion::from_memory_region(&regions[i]) {
                Ok(descriptor) => {
                    mpu_regions[i] = descriptor;
                },
                Err(error) => {
                    return Err(error);
                },
            }
            i += 1;
        }
        Ok(Self { mpu_regions, generic_regions: regions })
    }

    /// The control value that the writing of a configuration starts with:
    /// `ctrl` with the unit out of effect, also in the HardFault and NMI
    /// handlers, and with the default map for privileged code.
    pub open spec fn spec_disabled(ctrl: CtrlVal) -> CtrlVal {
        CtrlVal(
            spec_set_bool_u32(
                spec_set_bool_u32(spec_set_bool_u32(ctrl.0, 0, false), 1, false),
                2,
                true,
            ),
        )
    }

    /// The control value that the writing of a configuration ends with:
    /// `ctrl` with the unit in effect.
    pub open spec fn spec_enabled(ctrl: CtrlVal) -> CtrlVal {
        CtrlVal(spec_set_bool_u32(ctrl.0, 0, true))
    }

    /// The writes that put the first `count` descriptors of `slots` each
    /// into the region of its index, the lowest region first.
    pub open spec fn spec_region_writes(slots: Seq<MpuRegion>, count: int) -> Seq<RegisterWrite>
        decreases count,
    {
        if count <= 0 {
            Seq::empty()
        } else {
            Self::spec_region_writes(slots, count - 1) + slots[count - 1].spec_writes(count - 1)
        }
    }

    /// The writes that put the configuration into a unit whose control
    /// register holds `ctrl`: first the unit is taken out of effect, then
    /// each region is written, then the unit is put into effect.
    pub open spec fn spec_write_sequence(&self, ctrl: CtrlVal) -> Seq<RegisterWrite> {
        seq![RegisterWrite { register: Register::Ctrl, value: Self::spec_disabled(ctrl).0 }]
            + Self::spec_region_writes(self.slots(), NUM_MPU_REGIONS as int)
            + seq![
            RegisterWrite {
                register: Register::Ctrl,
                value: Self::spec_enabled(Self::spec_disabled(ctrl)).0,
            },
        ]
    }

    /// The memory configuration of kernel threads: one region for the low
    /// 2 GiB of the address space, readable, writeable and executable.
    ///
    /// The region is held to 2 GiB, the largest that a range is given; this
    /// covers the flash, RAM and peripheral ranges of Cortex-M devices.
    pub fn kernel_thread_memory_config() -> (config: Self)
        ensures
            config.sources() == seq![spec_kernel_thread_region()],
            Self::slots_describe(config.slots(), config.sources()),
    {
        let regions: &'static [MemoryRegion] = &[
            MemoryRegion {
                ty: MemoryRegionType::ReadWriteExecutable,
                start: 0x0000_0000,
                end: 0x8000_0000,
            },
        ];
        proof {
            assert(regions@ =~= seq![spec_kernel_thread_region()]);
        }
        match Self::const_new(regions) {
            Ok(config) => config,
            Err(_) => {
                proof {
                    assert(false);
                }
                vstd::pervasive::unreached()
            },
        }
    }

    /// What the writes of the first `count` descriptors do to a bank that
    /// has as many regions: the bank takes them, each of the regions holds
    /// its descriptor, and no other region and not the control register
    /// changes.
    pub proof fn lemma_region_writes_effect(slots: Seq<MpuRegion>, count: int, state: MpuState)
        requires
            0 <= count <= slots.len(),
            count <= NUM_MPU_REGIONS,
            count <= state.regions.len(),
            forall|i: int| 0 <= i < count ==> !(#[trigger] slots[i]).rbar@.valid,
        ensures
            state.accepts_all(Self::spec_region_writes(slots, count)),
            state.run(Self::spec_region_writes(slots, count)).ctrl == state.ctrl,
            state.run(Self::spec_region_writes(slots, count)).regions.len()
                == state.regions.len(),
            forall|i: int|
                0 <= i < count ==> #[trigger] state.run(
                    Self::spec_region_writes(slots, count),
                ).regions[i] == (slots[i].rbar, slots[i].rasr),
            forall|i: int|
                count <= i < state.regions.len() ==> #[trigger] state.run(
                    Self::spec_region_writes(slots, count),
                ).regions[i] == state.regions[i],
            count > 0 ==> state.run(Self::spec_region_writes(slots, count)).rnr == RnrVal(
                spec_set_u32(0, 0, 7, (count - 1) as u32),
            ),
            count == 0 ==> state.run(Self::spec_region_writes(slots, count)) == state,
        decreases count,
    {
        if count > 0 {
            let earlier = Self::spec_region_writes(slots, count - 1);
            let last = slots[count - 1].spec_writes(count - 1);
            Self::lemma_region_writes_effect(slots, count - 1, state);
            state.lemma_run_concat(earlier, last);
            state.lemma_accepts_all_concat(earlier, last);
            slots[count - 1].lemma_writes_effect(count - 1, state.run(earlier));
        }
    }

    /// What the writes of the configuration do to a bank that has at least
    /// `NUM_MPU_REGIONS` regions: the bank takes them; afterwards the unit
    /// is in effect, with the default map for privileged code, and each of
    /// the first `NUM_MPU_REGIONS` regions holds its descriptor.
    pub proof fn lemma_write_sequence_effect(self, state: MpuState)
        requires
            Self::slots_describe(self.slots(), self.sources()),
            state.regions.len() >= NUM_MPU_REGIONS,
        ensures
            state.accepts_all(self.spec_write_sequence(state.ctrl)),
            state.run(self.spec_write_sequence(state.ctrl)).ctrl == Self::spec_enabled(
                Self::spec_disabled(state.ctrl),
            ),
            state.run(self.spec_write_sequence(state.ctrl)).ctrl@.enable,
            state.run(self.spec_write_sequence(state.ctrl)).ctrl@.privdefena,
            !state.run(self.spec_write_sequence(state.ctrl)).ctrl@.hfnmiena,
            state.run(self.spec_write_sequence(state.ctrl)).rnr == RnrVal(
                spec_set_u32(0, 0, 7, (NUM_MPU_REGIONS - 1) as u32),
            ),
            state.run(self.spec_write_sequence(state.ctrl)).regions.len() == state.regions.len(),
            forall|i: int|
                0 <= i < NUM_MPU_REGIONS ==> #[trigger] state.run(
                    self.spec_write_sequence(state.ctrl),
                ).regions[i] == (self.slots()[i].rbar, self.slots()[i].rasr),
            forall|i: int|
                NUM_MPU_REGIONS <= i < state.regions.len() ==> #[trigger] state.run(
                    self.spec_write_sequence(state.ctrl),
                ).regions[i] == state.regions[i],
    {
        let slots = self.slots();
        let disable = RegisterWrite {
            register: Register::Ctrl,
            value: Self::spec_disabled(state.ctrl).0,
        };
        let enable = RegisterWrite {
            register: Register::Ctrl,
            value: Self::spec_enabled(Self::spec_disabled(state.ctrl)).0,
        };
        let regions = Self::spec_region_writes(slots, NUM_MPU_REGIONS as int);
        let disabled = state.step(disable);
        let programmed = disabled.run(regions);
        assert forall|i: int| 0 <= i < NUM_MPU_REGIONS implies !(#[trigger] slots[i]).rbar@.valid
        by {
            if i >= self.sources().len() {
                RbarVal::lemma_zero();
            }
        }
        Self::lemma_region_writes_effect(slots, NUM_MPU_REGIONS as int, disabled);
        state.lemma_run_one(disable);
        state.lemma_accepts_one(disable);
        programmed.lemma_run_one(enable);
        programmed.lemma_accepts_one(enable);
        state.lemma_run_concat(seq![disable], regions);
        state.lemma_run_concat(seq![disable] + regions, seq![enable]);
        state.lemma_accepts_all_concat(seq![disable], regions);
        state.lemma_accepts_all_concat(seq![disable] + regions, seq![enable]);
        Self::lemma_control_values(state.ctrl);
    }

    /// The control value that the writing ends with has the unit in
    /// effect, with the default map for privileged code and not in the
    /// HardFault and NMI handlers; and from that value the writing ends
    /// with the same value again.
    pub proof fn lemma_control_values(ctrl: CtrlVal)
        ensures
            Self::spec_enabled(Self::spec_disabled(ctrl))@ == (CtrlFields {
                enable: true,
                hfnmiena: false,
                privdefena: true,
            }),
            Self::spec_enabled(Self::spec_disabled(Self::spec_enabled(Self::spec_disabled(ctrl))))
                == Self::spec_enabled(Self::spec_disabled(ctrl)),
    {
        let raw = ctrl.0;
        assert({
            let cleared = spec_set_bool_u32(spec_set_bool_u32(raw, 0, false), 1, false);
            let written = spec_set_bool_u32(spec_set_bool_u32(cleared, 2, true), 0, true);
            let cleared_again = spec_set_bool_u32(spec_set_bool_u32(written, 0, false), 1, false);
            &&& spec_get_bool_u32(written, 0)
            &&& !spec_get_bool_u32(written, 1)
            &&& spec_get_bool_u32(written, 2)
            &&& spec_set_bool_u32(spec_set_bool_u32(cleared_again, 2, true), 0, true) == written
        }) by (bit_vector);
    }

    /// Writing a configuration a second time changes no register: the bank
    /// holds after the second writing what it held after the first.
    pub proof fn lemma_write_is_idempotent(self, state: MpuState)
        requires
            Self::slots_describe(self.slots(), self.sources()),
            state.regions.len() >= NUM_MPU_REGIONS,
        ensures
            ({
                let once = state.run(self.spec_write_sequence(state.ctrl));
                let twice = once.run(self.spec_write_sequence(once.ctrl));
                &&& twice.ctrl == once.ctrl
                &&& twice.rnr == once.rnr
                &&& twice.regions == once.regions
            }),
    {
        let once = state.run(self.spec_write_sequence(state.ctrl));
        let twice = once.run(self.spec_write_sequence(once.ctrl));
        self.lemma_write_sequence_effect(state);
        self.lemma_write_sequence_effect(once);
        Self::lemma_control_values(state.ctrl);
        assert(twice.regions =~= once.regions);
    }

    /// Every address of a range that the access check permits lies in a
    /// sub-region that is in effect, in the descriptor of a region of the
    /// list that permits the access: what the check permits, the unit
    /// permits.
    pub proof fn lemma_permitted_range_is_enabled(
        self,
        access_type: MemoryRegionType,
        start_addr: u32,
        end_addr: u32,
        addr: int,
    )
        requires
            Self::slots_describe(self.slots(), self.sources()),
            MemoryRegion::spec_regions_have_access(
                self.sources(),
                &(MemoryRegion { ty: access_type, start: start_addr, end: end_addr }),
            ),
            start_addr <= addr < end_addr,
        ensures
            exists|i: int, index: int|
                0 <= i < self.sources().len() && 0 <= index < 8
                    && (#[trigger] self.sources()[i]).ty.spec_has_access(access_type)
                    && !subregion_disabled(self.slots()[i].aligned().srd_mask, index)
                    && #[trigger] self.slots()[i].aligned().subregion_start(index) <= addr
                    < self.slots()[i].aligned().subregion_start(index)
                    + self.slots()[i].aligned().subregion_size(),
    {
        let request = MemoryRegion { ty: access_type, start: start_addr, end: end_addr };
        let i = choose|i: int|
            0 <= i < self.sources().len() && (#[trigger] self.sources()[i]).spec_has_access(
                &request,
            );
        let source = self.sources()[i];
        let aligned = self.slots()[i].aligned();
        assert(self.slots()[i].describes(&source));
        aligned.lemma_range_is_enabled(source.start as int, source.end as int, addr);
        let index = choose|index: int|
            0 <= index < 8 && !subregion_disabled(aligned.srd_mask, index)
                && #[trigger] aligned.subregion_start(index) <= addr < aligned.subregion_start(
                index,
            ) + aligned.subregion_size();
        assert(self.sources()[i].ty.spec_has_access(access_type) && self.slots()[i].aligned(
        ).subregion_start(index) <= addr);
    }

    /// Write this memory configuration to the registers of the bank.
    ///
    /// The unit is out of effect while its regions are written, so that no
    /// region is in effect before all are written. Privileged code keeps
    /// the default map throughout.
    pub fn write(&self, mpu: &mut Mpu)
        requires
            old(mpu)@.regions.len() >= NUM_MPU_REGIONS,
        ensures
            final(mpu)@ == old(mpu)@.run(self.spec_write_sequence(old(mpu)@.ctrl)),
            final(mpu)@.writes == old(mpu)@.writes + self.spec_write_sequence(old(mpu)@.ctrl),
            final(mpu)@.ctrl@.enable,
            final(mpu)@.ctrl@.privdefena,
            !final(mpu)@.ctrl@.hfnmiena,
            final(mpu)@.regions.len() == old(mpu)@.regions.len(),
            forall|i: int|
                0 <= i < NUM_MPU_REGIONS ==> #[trigger] final(mpu)@.regions[i] == (
                    self.slots()[i].rbar,
                    self.slots()[i].rasr,
                ),
            forall|i: int|
                0 <= i < self.sources().len() ==> (MpuRegion {
                    rbar: (#[trigger] final(mpu)@.regions[i]).0,
                    rasr: final(mpu)@.regions[i].1,
                }).describes(&self.sources()[i]),
            forall|i: int|
                NUM_MPU_REGIONS <= i < old(mpu)@.regions.len() ==> #[trigger] final(mpu)@.regions[i]
                    == old(mpu)@.regions[i],
            final(mpu).spec_type() == old(mpu).spec_type(),
    {
        let ghost before = mpu@;
        let ghost disable = RegisterWrite {
            register: Register::Ctrl,
            value: Self::spec_disabled(before.ctrl).0,
        };
        let ghost enable = RegisterWrite {
            register: Register::Ctrl,
            value: Self::spec_enabled(Self::spec_disabled(before.ctrl)).0,
        };
        let ghost slots = self.slots();
        proof {
            use_type_invariant(self);
            self.lemma_write_sequence_effect(before);
            before.lemma_run_keeps_writes(self.spec_write_sequence(before.ctrl));
            assert forall|i: int|
                0 <= i < NUM_MPU_REGIONS implies !(#[trigger] slots[i]).rbar@.valid by {
                if i >= self.sources().len() {
                    RbarVal::lemma_zero();
                }
            }
        }

        // Disable MPU before configuration
        mpu.write_ctrl(
            mpu.read_ctrl().with_enable(false).with_hfnmiena(false).with_privdefena(true),
        );
        let ghost disabled = mpu@;

        let mut index: usize = 0;
        while index < NUM_MPU_REGIONS
            invariant
                index <= NUM_MPU_REGIONS,
                slots == self.slots(),
                slots.len() == NUM_MPU_REGIONS,
                forall|i: int| 0 <= i < NUM_MPU_REGIONS ==> !(#[trigger] slots[i]).rbar@.valid,
                mpu@ == disabled.run(Self::spec_region_writes(slots, index as int)),
                disabled.regions.len() >= NUM_MPU_REGIONS,
                mpu.spec_type() == old(mpu).spec_type(),
            decreases NUM_MPU_REGIONS - index,
        {
            let region: &MpuRegion = &self.mpu_regions[index];
            proof {
                Self::lemma_region_writes_effect(slots, index as int, disabled);
                disabled.lemma_run_concat(
                    Self::spec_region_writes(slots, index as int),
                    region.spec_writes(index as int),
                );
            }
            region.write(mpu, index);
            index += 1;
        }
        proof {
            Self::lemma_region_writes_effect(slots, NUM_MPU_REGIONS as int, disabled);
        }

        // Enable the MPU
        mpu.write_ctrl(mpu.read_ctrl().with_enable(true));
        proof {
            let regions = Self::spec_region_writes(slots, NUM_MPU_REGIONS as int);
            disabled.run(regions).lemma_run_one(enable);
            before.lemma_run_one(disable);
            before.lemma_run_concat(seq![disable], regions);
            before.lemma_run_concat(seq![disable] + regions, seq![enable]);
        }
    }

    /// The raw register values of every region of the configuration, for a
    /// log: the index of the region, its base-address value and its
    /// attribute-and-size value, the lowest region first.
    pub fn dump(&self) -> (lines: Vec<(usize, u32, u32)>)
        ensures
            lines@.len() == NUM_MPU_REGIONS,
            forall|i: int|
                0 <= i < NUM_MPU_REGIONS ==> #[trigger] lines@[i] == (
                    i as usize,
                    self.slots()[i].rbar.0,
                    self.slots()[i].rasr.0,
                ),
    {
        let mut lines: Vec<(usize, u32, u32)> = Vec::new();
        let mut index: usize = 0;
        while index < NUM_MPU_REGIONS
            invariant
                index <= NUM_MPU_REGIONS,
                lines@.len() == index,
                forall|i: int|
                    0 <= i < index ==> #[trigger] lines@[i] == (
                        i as usize,
                        self.slots()[i].rbar.0,
                        self.slots()[i].rasr.0,
                    ),
            decreases NUM_MPU_REGIONS - index,
        {
            let region: &MpuRegion = &self.mpu_regions[index];
            lines.push((index, region.rbar.0, region.rasr.0));
            index += 1;
        }
        lines
    }

    /// Whether one region of the list that the configuration was made from
    /// lies around the range from `start_addr` to `end_addr` and permits
    /// the access that `access_type` stands for.
    pub fn range_has_access(
        &self,
        access_type: MemoryRegionType,
        start_addr: u32,
        end_addr: u32,
    ) -> (permitted: bool)
        ensures
            permitted == MemoryRegion::spec_regions_have_access(
                self.sources(),
                &(MemoryRegion { ty: access_type, start: start_addr, end: end_addr }),
            ),
    {
        let validation_region = MemoryRegion::new(access_type, start_addr, end_addr);
        MemoryRegion::regions_have_access(self.generic_regions, &validation_region)
    }
}

/// Initialize the MPU for supporting user space memory protection (PMSAv7).
///
/// PMSAv7 doesn't use MAIR registers - memory attributes are encoded directly
/// in the RASR register using TEX, C, B, S fields - so nothing is done.
pub fn init() {
}

} // verus!
