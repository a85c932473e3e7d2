//! Register values of the PMSAv7 memory protection unit (ARMv7-M).

use vstd::prelude::*;
use crate::mpu::{lemma_addr_mask, ADDR_MASK};
use crate::ops::{
    get_bool_u32, get_masked_u32, get_u32, lemma_bool_after_set, lemma_bool_frame,
    lemma_bool_frame_bool, lemma_cut_to_field, lemma_field_max_values, lemma_get_after_set,
    lemma_get_after_set_other, lemma_get_bounded, lemma_masked_frame, lemma_masked_frame_bool,
    lemma_masked_get_after_set, lemma_masked_zero, lemma_zero_fields, set_bool_u32,
    set_masked_u32, set_u32, spec_get_bool_u32, spec_get_masked_u32, spec_get_u32,
    spec_set_bool_u32, spec_set_masked_u32, spec_set_u32,
};

verus! {

/// Access permissions of a region, as the three bits of the attribute
/// register encode them.
#[derive(Clone, Copy, Debug, PartialEq, Eq, Structural)]
pub enum RasrAp {
    NoAccess,
    RwPrivileged,
    RoPrivileged,
    RwAny,
    Reserved1,
    RoPrivileged2,
    RoAny,
    RoAny2,
}

impl RasrAp {
    /// The three-bit encoding of the permission.
    pub open spec fn spec_bits(&self) -> u8 {
        match self {
            RasrAp::NoAccess => 0b000,
            RasrAp::RwPrivileged => 0b001,
            RasrAp::RoPrivileged => 0b010,
            RasrAp::RwAny => 0b011,
            RasrAp::Reserved1 => 0b100,
            RasrAp::RoPrivileged2 => 0b101,
            RasrAp::RoAny => 0b110,
            RasrAp::RoAny2 => 0b111,
        }
    }

    /// The permission that the low three bits of `bits` encode.
    pub open spec fn spec_from_bits(bits: u8) -> RasrAp {
        let low = bits % 8;
        if low == 0b000 {
            RasrAp::NoAccess
        } else if low == 0b001 {
            RasrAp::RwPrivileged
        } else if low == 0b010 {
            RasrAp::RoPrivileged
        } else if low == 0b011 {
            RasrAp::RwAny
        } else if low == 0b100 {
            RasrAp::Reserved1
        } else if low == 0b101 {
            RasrAp::RoPrivileged2
        } else if low == 0b110 {
            RasrAp::RoAny
        } else {
            RasrAp::RoAny2
        }
    }

    #[verifier::when_used_as_spec(spec_bits)]
    pub fn bits(&self) -> (bits: u8)
        ensures
            bits == self.spec_bits(),
            bits < 8,
    {
        match self {
            RasrAp::NoAccess => 0b000,
            RasrAp::RwPrivileged => 0b001,
            RasrAp::RoPrivileged => 0b010,
            RasrAp::RwAny => 0b011,
            RasrAp::Reserved1 => 0b100,
            RasrAp::RoPrivileged2 => 0b101,
            RasrAp::RoAny => 0b110,
            RasrAp::RoAny2 => 0b111,
        }
    }

    /// Convert a 3-bit field value to the corresponding access permission.
    #[verifier::when_used_as_spec(spec_from_bits)]
    pub fn from_bits(bits: u8) -> (ap: Self)
        ensures
            ap == Self::spec_from_bits(bits),
            ap.spec_bits() == bits % 8,
    {
        let low: u8 = bits & 0b111;
        assert(low == bits % 8) by (bit_vector)
            requires
                low == bits & 0b111,
        ;
        match low {
            0b000 => Self::NoAccess,
            0b001 => Self::RwPrivileged,
            0b010 => Self::RoPrivileged,
            0b011 => Self::RwAny,
            0b100 => Self::Reserved1,
            0b101 => Self::RoPrivileged2,
            0b110 => Self::RoAny,
            _ => Self::RoAny2,
        }
    }

    /// Decoding the encoding of a permission gives the permission back.
    pub proof fn lemma_from_bits_of_bits(ap: RasrAp)
        ensures
            Self::spec_from_bits(ap.spec_bits()) == ap,
    {
    }
}

/// Region Base Address Register value.
#[derive(Clone, Copy, Debug, PartialEq, Eq, Structural)]
pub struct RbarVal(pub u32);

/// The fields of a base-address register value.
pub struct RbarFields {
    /// Region number, used when `valid` is set.
    pub region: u8,
    /// Whether the write selects the region by `region`.
    pub valid: bool,
    /// Region base address; its low five bits are zero.
    pub addr: u32,
}

impl View for RbarVal {
    type V = RbarFields;

    open spec fn view(&self) -> RbarFields {
        RbarFields {
            region: spec_get_u32(self.0, 0, 3) as u8,
            valid: spec_get_bool_u32(self.0, 4),
            addr: spec_get_masked_u32(self.0, ADDR_MASK),
        }
    }
}

impl Default for RbarVal {
    fn default() -> (val: Self)
        ensures
            val == RbarVal(0),
    {
        RbarVal(0)
    }
}

impl RbarVal {
    /// The value with no bit set: region 0, not valid, address 0.
    pub fn const_default() -> (val: Self)
        ensures
            val == RbarVal(0),
            val@ == (RbarFields { region: 0, valid: false, addr: 0 }),
    {
        proof {
            Self::lemma_zero();
        }
        RbarVal(0)
    }

    /// Every field of the value with no bit set is zero.
    pub proof fn lemma_zero()
        ensures
            RbarVal(0)@ == (RbarFields { region: 0, valid: false, addr: 0 }),
    {
        lemma_zero_fields(0, 3);
        lemma_zero_fields(4, 4);
        lemma_masked_zero(ADDR_MASK);
    }

    /// Extract MPU region number valid field.
    pub fn valid(&self) -> (val: bool)
        ensures
            val == self@.valid,
    {
        get_bool_u32(self.0, 4)
    }

    /// Update MPU region number valid field.
    pub fn with_valid(self, val: bool) -> (updated: Self)
        ensures
            updated.0 == spec_set_bool_u32(self.0, 4, val),
            updated@ == (RbarFields { valid: val, ..self@ }),
    {
        proof {
            lemma_addr_mask();
            lemma_bool_after_set(self.0, 4, val);
            lemma_bool_frame(self.0, 4, 0, 3, 0);
            lemma_masked_frame_bool(self.0, 5, 31, 0, 4);
        }
        RbarVal(set_bool_u32(self.0, 4, val))
    }

    /// Extract region field (used when VALID bit is set).
    pub fn region(&self) -> (val: u8)
        ensures
            val == self@.region,
            val < 16,
    {
        proof {
            lemma_get_bounded(self.0, 0, 3);
            lemma_field_max_values(0, 3);
        }
        get_u32(self.0, 0, 3) as u8
    }

    /// Update region field.
    pub fn with_region(self, val: u8) -> (updated: Self)
        ensures
            updated.0 == spec_set_u32(self.0, 0, 3, val as u32),
            updated@ == (RbarFields { region: val % 16, ..self@ }),
    {
        proof {
            lemma_addr_mask();
            lemma_get_after_set(self.0, 0, 3, val as u32);
            lemma_field_max_values(0, 3);
            lemma_cut_to_field(val as u32, 0, 3);
            lemma_bool_frame(self.0, 4, 0, 3, val as u32);
            lemma_masked_frame(self.0, 5, 31, val as u32, 0, 3);
        }
        RbarVal(set_u32(self.0, 0, 3, val as u32))
    }

    /// Extract region base address field.
    pub fn addr(&self) -> (val: u32)
        ensures
            val == self@.addr,
    {
        get_masked_u32(self.0, ADDR_MASK)
    }

    /// Update region base address field.
    pub fn with_addr(self, val: u32) -> (updated: Self)
        ensures
            updated.0 == spec_set_masked_u32(self.0, ADDR_MASK, val),
            updated@ == (RbarFields { addr: spec_get_masked_u32(val, ADDR_MASK), ..self@ }),
    {
        proof {
            lemma_addr_mask();
            lemma_masked_get_after_set(self.0, ADDR_MASK, val);
            lemma_masked_frame(self.0, 5, 31, val, 0, 3);
            lemma_masked_frame_bool(self.0, 5, 31, val, 4);
        }
        RbarVal(set_masked_u32(self.0, ADDR_MASK, val))
    }
}

/// Memory type of a region, as the TEX, S, C and B bits encode it together.
#[derive(Clone, Copy, Debug, PartialEq, Eq, Structural)]
pub enum RasrTexScb {
    /// Strongly-ordered, shareable
    StronglyOrdered,
    /// Device, shareable
    Device,
    /// Normal, write-through, no write allocate
    NormalWriteThrough,
    /// Normal, write-back, no write allocate
    NormalWriteBack,
    /// Normal, non-cacheable
    NormalNonCacheable,
    /// Normal, write-back, write and read allocate
    NormalWriteBackAllocate,
    /// Device, not shareable
    DeviceNonShareable,
}

impl RasrTexScb {
    /// The encoding of the memory type: TEX in bits 3 and 4, then C and B.
    pub open spec fn spec_bits(&self) -> u8 {
        match self {
            RasrTexScb::StronglyOrdered => 0b00000,
            RasrTexScb::Device => 0b00001,
            RasrTexScb::NormalWriteThrough => 0b00010,
            RasrTexScb::NormalWriteBack => 0b00011,
            RasrTexScb::NormalNonCacheable => 0b01000,
            RasrTexScb::NormalWriteBackAllocate => 0b01011,
            RasrTexScb::DeviceNonShareable => 0b10000,
        }
    }

    #[verifier::when_used_as_spec(spec_bits)]
    pub fn bits(&self) -> (bits: u8)
        ensures
            bits == self.spec_bits(),
    {
        match self {
            RasrTexScb::StronglyOrdered => 0b00000,
            RasrTexScb::Device => 0b00001,
            RasrTexScb::NormalWriteThrough => 0b00010,
            RasrTexScb::NormalWriteBack => 0b00011,
            RasrTexScb::NormalNonCacheable => 0b01000,
            RasrTexScb::NormalWriteBackAllocate => 0b01011,
            RasrTexScb::DeviceNonShareable => 0b10000,
        }
    }
}

/// Region Attribute and Size Register value.
#[derive(Clone, Copy, Debug, PartialEq, Eq, Structural)]
pub struct RasrVal(pub u32);

/// The fields of an attribute-and-size register value.
pub struct RasrFields {
    /// Whether the region is in effect.
    pub enable: bool,
    /// SIZE: the region spans `2^(size + 1)` bytes.
    pub size: u8,
    /// SRD: bit `i` set takes sub-region `i` out of effect.
    pub srd: u8,
    /// Bufferable.
    pub b: bool,
    /// Cacheable.
    pub c: bool,
    /// Shareable.
    pub s: bool,
    /// Type extension.
    pub tex: u8,
    /// Access permissions.
    pub ap: RasrAp,
    /// Execute-never.
    pub xn: bool,
}

impl RasrFields {
    /// The fields of a region that is not in effect, all of them zero.
    pub open spec fn spec_zero() -> RasrFields {
        RasrFields {
            enable: false,
            size: 0,
            srd: 0,
            b: false,
            c: false,
            s: false,
            tex: 0,
            ap: RasrAp::NoAccess,
            xn: false,
        }
    }

    /// The register value that holds these fields and has every other bit
    /// clear, as a sum of the fields, each at its position.
    pub open spec fn bits(&self) -> int {
        (if self.enable { 1int } else { 0int })
            + 0x2 * self.size
            + 0x100 * self.srd
            + (if self.b { 0x1_0000int } else { 0int })
            + (if self.c { 0x2_0000int } else { 0int })
            + (if self.s { 0x4_0000int } else { 0int })
            + 0x8_0000 * self.tex
            + 0x100_0000 * self.ap.spec_bits()
            + (if self.xn { 0x1000_0000int } else { 0int })
    }
}

impl View for RasrVal {
    type V = RasrFields;

    open spec fn view(&self) -> RasrFields {
        RasrFields {
            enable: spec_get_bool_u32(self.0, 0),
            size: spec_get_u32(self.0, 1, 5) as u8,
            srd: spec_get_u32(self.0, 8, 15) as u8,
            b: spec_get_bool_u32(self.0, 16),
            c: spec_get_bool_u32(self.0, 17),
            s: spec_get_bool_u32(self.0, 18),
            tex: spec_get_u32(self.0, 19, 21) as u8,
            ap: RasrAp::spec_from_bits(spec_get_u32(self.0, 24, 26) as u8),
            xn: spec_get_bool_u32(self.0, 28),
        }
    }
}

impl Default for RasrVal {
    fn default() -> (val: Self)
        ensures
            val == RasrVal(0),
    {
        RasrVal(0)
    }
}

impl RasrVal {
    /// The value with no bit set: a region that is not in effect.
    pub fn const_default() -> (val: Self)
        ensures
            val == RasrVal(0),
            val@ == RasrFields::spec_zero(),
    {
        proof {
            Self::lemma_zero();
        }
        RasrVal(0)
    }

    /// Every field of the value with no bit set is zero.
    pub proof fn lemma_zero()
        ensures
            RasrVal(0)@ == RasrFields::spec_zero(),
    {
        lemma_zero_fields(0, 0);
        lemma_zero_fields(1, 5);
        lemma_zero_fields(8, 15);
        lemma_zero_fields(16, 16);
        lemma_zero_fields(17, 17);
        lemma_zero_fields(18, 18);
        lemma_zero_fields(19, 21);
        lemma_zero_fields(24, 26);
        lemma_zero_fields(28, 28);
    }

    /// Extract region enable field.
    pub fn enable(&self) -> (val: bool)
        ensures
            val == self@.enable,
    {
        get_bool_u32(self.0, 0)
    }

    /// Update region enable field.
    pub fn with_enable(self, val: bool) -> (updated: Self)
        ensures
            updated.0 == spec_set_bool_u32(self.0, 0, val),
            updated@ == (RasrFields { enable: val, ..self@ }),
    {
        proof {
            lemma_bool_after_set(self.0, 0, val);
            lemma_bool_frame_bool(self.0, 0, 16);
            lemma_bool_frame_bool(self.0, 0, 17);
            lemma_bool_frame_bool(self.0, 0, 18);
            lemma_bool_frame_bool(self.0, 0, 28);
            lemma_bool_frame(self.0, 0, 1, 5, 0);
            lemma_bool_frame(self.0, 0, 8, 15, 0);
            lemma_bool_frame(self.0, 0, 19, 21, 0);
            lemma_bool_frame(self.0, 0, 24, 26, 0);
        }
        RasrVal(set_bool_u32(self.0, 0, val))
    }

    /// Extract bufferable field.
    pub fn b(&self) -> (val: bool)
        ensures
            val == self@.b,
    {
        get_bool_u32(self.0, 16)
    }

    /// Update bufferable field.
    pub fn with_b(self, val: bool) -> (updated: Self)
        ensures
            updated.0 == spec_set_bool_u32(self.0, 16, val),
            updated@ == (RasrFields { b: val, ..self@ }),
    {
        proof {
            lemma_bool_after_set(self.0, 16, val);
            lemma_bool_frame_bool(self.0, 16, 0);
            lemma_bool_frame_bool(self.0, 16, 17);
            lemma_bool_frame_bool(self.0, 16, 18);
            lemma_bool_frame_bool(self.0, 16, 28);
            lemma_bool_frame(self.0, 16, 1, 5, 0);
            lemma_bool_frame(self.0, 16, 8, 15, 0);
            lemma_bool_frame(self.0, 16, 19, 21, 0);
            lemma_bool_frame(self.0, 16, 24, 26, 0);
        }
        RasrVal(set_bool_u32(self.0, 16, val))
    }

    /// Extract cacheable field.
    pub fn c(&self) -> (val: bool)
        ensures
            val == self@.c,
    {
        get_bool_u32(self.0, 17)
    }

    /// Update cacheable field.
    pub fn with_c(self, val: bool) -> (updated: Self)
        ensures
            updated.0 == spec_set_bool_u32(self.0, 17, val),
            updated@ == (RasrFields { c: val, ..self@ }),
    {
        proof {
            lemma_bool_after_set(self.0, 17, val);
            lemma_bool_frame_bool(self.0, 17, 0);
            lemma_bool_frame_bool(self.0, 17, 16);
            lemma_bool_frame_bool(self.0, 17, 18);
            lemma_bool_frame_bool(self.0, 17, 28);
            lemma_bool_frame(self.0, 17, 1, 5, 0);
            lemma_bool_frame(self.0, 17, 8, 15, 0);
            lemma_bool_frame(self.0, 17, 19, 21, 0);
            lemma_bool_frame(self.0, 17, 24, 26, 0);
        }
        RasrVal(set_bool_u32(self.0, 17, val))
    }

    /// Extract shareable field.
    pub fn s(&self) -> (val: bool)
        ensures
            val == self@.s,
    {
        get_bool_u32(self.0, 18)
    }

    /// Update shareable field.
    pub fn with_s(self, val: bool) -> (updated: Self)
        ensures
            updated.0 == spec_set_bool_u32(self.0, 18, val),
            updated@ == (RasrFields { s: val, ..self@ }),
    {
        proof {
            lemma_bool_after_set(self.0, 18, val);
            lemma_bool_frame_bool(self.0, 18, 0);
            lemma_bool_frame_bool(self.0, 18, 16);
            lemma_bool_frame_bool(self.0, 18, 17);
            lemma_bool_frame_bool(self.0, 18, 28);
            lemma_bool_frame(self.0, 18, 1, 5, 0);
            lemma_bool_frame(self.0, 18, 8, 15, 0);
            lemma_bool_frame(self.0, 18, 19, 21, 0);
            lemma_bool_frame(self.0, 18, 24, 26, 0);
        }
        RasrVal(set_bool_u32(self.0, 18, val))
    }

    /// Extract execute-never field.
    pub fn xn(&self) -> (val: bool)
        ensures
            val == self@.xn,
    {
        get_bool_u32(self.0, 28)
    }

    /// Update execute-never field.
    pub fn with_xn(self, val: bool) -> (updated: Self)
        ensures
            updated.0 == spec_set_bool_u32(self.0, 28, val),
            updated@ == (RasrFields { xn: val, ..self@ }),
    {
        proof {
            lemma_bool_after_set(self.0, 28, val);
            lemma_bool_frame_bool(self.0, 28, 0);
            lemma_bool_frame_bool(self.0, 28, 16);
            lemma_bool_frame_bool(self.0, 28, 17);
            lemma_bool_frame_bool(self.0, 28, 18);
            lemma_bool_frame(self.0, 28, 1, 5, 0);
            lemma_bool_frame(self.0, 28, 8, 15, 0);
            lemma_bool_frame(self.0, 28, 19, 21, 0);
            lemma_bool_frame(self.0, 28, 24, 26, 0);
        }
        RasrVal(set_bool_u32(self.0, 28, val))
    }

    /// Extract region size field (SIZE).
    /// Region size is 2^(SIZE+1) bytes, so SIZE=4 means 32 bytes, SIZE=31 means 4GB.
    pub fn size(&self) -> (val: u8)
        ensures
            val == self@.size,
            val < 32,
    {
        proof {
            lemma_get_bounded(self.0, 1, 5);
            lemma_field_max_values(1, 5);
        }
        get_u32(self.0, 1, 5) as u8
    }

    /// Update region size field.
    pub fn with_size(self, val: u8) -> (updated: Self)
        ensures
            updated.0 == spec_set_u32(self.0, 1, 5, val as u32),
            updated@ == (RasrFields { size: val % 32, ..self@ }),
    {
        proof {
            lemma_get_after_set(self.0, 1, 5, val as u32);
            lemma_cut_to_field(val as u32, 1, 5);
            lemma_bool_frame(self.0, 0, 1, 5, val as u32);
            lemma_bool_frame(self.0, 16, 1, 5, val as u32);
            lemma_bool_frame(self.0, 17, 1, 5, val as u32);
            lemma_bool_frame(self.0, 18, 1, 5, val as u32);
            lemma_bool_frame(self.0, 28, 1, 5, val as u32);
            lemma_get_after_set_other(self.0, 1, 5, val as u32, 8, 15);
            lemma_get_after_set_other(self.0, 1, 5, val as u32, 19, 21);
            lemma_get_after_set_other(self.0, 1, 5, val as u32, 24, 26);
        }
        RasrVal(set_u32(self.0, 1, 5, val as u32))
    }

    /// Extract sub-region disable field (SRD).
    pub fn srd(&self) -> (val: u8)
        ensures
            val == self@.srd,
    {
        proof {
            lemma_get_bounded(self.0, 8, 15);
            lemma_field_max_values(8, 15);
        }
        get_u32(self.0, 8, 15) as u8
    }

    /// Update sub-region disable field.
    pub fn with_srd(self, val: u8) -> (updated: Self)
        ensures
            updated.0 == spec_set_u32(self.0, 8, 15, val as u32),
            updated@ == (RasrFields { srd: val, ..self@ }),
    {
        proof {
            lemma_get_after_set(self.0, 8, 15, val as u32);
            lemma_cut_to_field(val as u32, 8, 15);
            lemma_bool_frame(self.0, 0, 8, 15, val as u32);
            lemma_bool_frame(self.0, 16, 8, 15, val as u32);
            lemma_bool_frame(self.0, 17, 8, 15, val as u32);
            lemma_bool_frame(self.0, 18, 8, 15, val as u32);
            lemma_bool_frame(self.0, 28, 8, 15, val as u32);
            lemma_get_after_set_other(self.0, 8, 15, val as u32, 1, 5);
            lemma_get_after_set_other(self.0, 8, 15, val as u32, 19, 21);
            lemma_get_after_set_other(self.0, 8, 15, val as u32, 24, 26);
        }
        RasrVal(set_u32(self.0, 8, 15, val as u32))
    }

    /// Extract TEX (Type Extension) field.
    pub fn tex(&self) -> (val: u8)
        ensures
            val == self@.tex,
            val < 8,
    {
        proof {
            lemma_get_bounded(self.0, 19, 21);
            lemma_field_max_values(19, 21);
        }
        get_u32(self.0, 19, 21) as u8
    }

    /// Update TEX field.
    pub fn with_tex(self, val: u8) -> (updated: Self)
        ensures
            updated.0 == spec_set_u32(self.0, 19, 21, val as u32),
            updated@ == (RasrFields { tex: val % 8, ..self@ }),
    {
        proof {
            lemma_get_after_set(self.0, 19, 21, val as u32);
            lemma_cut_to_field(val as u32, 19, 21);
            lemma_bool_frame(self.0, 0, 19, 21, val as u32);
            lemma_bool_frame(self.0, 16, 19, 21, val as u32);
            lemma_bool_frame(self.0, 17, 19, 21, val as u32);
            lemma_bool_frame(self.0, 18, 19, 21, val as u32);
            lemma_bool_frame(self.0, 28, 19, 21, val as u32);
            lemma_get_after_set_other(self.0, 19, 21, val as u32, 1, 5);
            lemma_get_after_set_other(self.0, 19, 21, val as u32, 8, 15);
            lemma_get_after_set_other(self.0, 19, 21, val as u32, 24, 26);
        }
        RasrVal(set_u32(self.0, 19, 21, val as u32))
    }

    /// Extract access permissions field.
    pub fn ap(&self) -> (val: RasrAp)
        ensures
            val == self@.ap,
    {
        proof {
            lemma_get_bounded(self.0, 24, 26);
            lemma_field_max_values(24, 26);
        }
        RasrAp::from_bits(get_u32(self.0, 24, 26) as u8)
    }

    /// Update access permissions field.
    pub fn with_ap(self, val: RasrAp) -> (updated: Self)
        ensures
            updated.0 == spec_set_u32(self.0, 24, 26, val.spec_bits() as u32),
            updated@ == (RasrFields { ap: val, ..self@ }),
    {
        let bits: u8 = val.bits();
        proof {
            lemma_get_after_set(self.0, 24, 26, bits as u32);
            lemma_cut_to_field(bits as u32, 24, 26);
            lemma_field_max_values(24, 26);
            RasrAp::lemma_from_bits_of_bits(val);
            lemma_bool_frame(self.0, 0, 24, 26, bits as u32);
            lemma_bool_frame(self.0, 16, 24, 26, bits as u32);
            lemma_bool_frame(self.0, 17, 24, 26, bits as u32);
            lemma_bool_frame(self.0, 18, 24, 26, bits as u32);
            lemma_bool_frame(self.0, 28, 24, 26, bits as u32);
            lemma_get_after_set_other(self.0, 24, 26, bits as u32, 1, 5);
            lemma_get_after_set_other(self.0, 24, 26, bits as u32, 8, 15);
            lemma_get_after_set_other(self.0, 24, 26, bits as u32, 19, 21);
        }
        RasrVal(set_u32(self.0, 24, 26, bits as u32))
    }
}

} // verus!
