//! Register values of the PMSAv8 memory protection unit (ARMv8-M).

use vstd::prelude::*;
use crate::mpu::{lemma_addr_mask, ADDR_MASK};
use crate::ops::{
    get_bool_u32, get_masked_u32, get_u32, lemma_bool_after_set, lemma_bool_frame,
    lemma_bool_frame_bool, lemma_cut_to_field, lemma_field_max_values, lemma_get_after_set,
    lemma_get_after_set_other, lemma_get_bounded, lemma_masked_frame, lemma_masked_frame_bool,
    lemma_masked_get_after_set, lemma_masked_zero, lemma_zero_fields, set_bool_u32,
    set_masked_u32, set_u32, spec_get_bool_u32, spec_get_masked_u32, spec_get_u32,
    spec_set_bool_u32, spec_set_masked_u32, spec_set_u32,
};

verus! {

/// Address of the MPU Region Base Address Register.
pub const RBAR_ADDRESS: u32 = 0xe000_ed9c;

/// Address of the MPU Region Limit Address Register.
pub const RLAR_ADDRESS: u32 = 0xe000_eda0;

/// Address of the MPU Memory Attribute Indirection Register 0.
pub const MAIR0_ADDRESS: u32 = 0xe000_edc0;

/// Address of the MPU Memory Attribute Indirection Register 1.
pub const MAIR1_ADDRESS: u32 = 0xe000_edc4;

/// Access permissions of a region, as the two bits of the base-address
/// register encode them.
#[derive(Clone, Copy, Debug, PartialEq, Eq, Structural)]
pub enum RbarAp {
    RwPrivileged,
    RwAny,
    RoPrivileged,
    RoAny,
}

impl RbarAp {
    /// The 2-bit encoding.
    pub open spec fn spec_bits(&self) -> u8 {
        match self {
            RbarAp::RwPrivileged => 0b00,
            RbarAp::RwAny => 0b01,
            RbarAp::RoPrivileged => 0b10,
            RbarAp::RoAny => 0b11,
        }
    }

    #[verifier::when_used_as_spec(spec_bits)]
    pub fn bits(&self) -> (bits: u8)
        ensures
            bits == self.spec_bits(),
            bits < 4,
    {
        match self {
            RbarAp::RwPrivileged => 0b00,
            RbarAp::RwAny => 0b01,
            RbarAp::RoPrivileged => 0b10,
            RbarAp::RoAny => 0b11,
        }
    }

    /// What the low 2 bits of `bits` encode.
    pub open spec fn spec_from_bits(bits: u8) -> RbarAp {
        let low = bits % 4;
        if low == 0b00 {
            RbarAp::RwPrivileged
        } else if low == 0b01 {
            RbarAp::RwAny
        } else if low == 0b10 {
            RbarAp::RoPrivileged
        } else {
            RbarAp::RoAny
        }
    }

    /// Convert a 2-bit field value to the corresponding access permission.
    #[verifier::when_used_as_spec(spec_from_bits)]
    pub fn from_bits(bits: u8) -> (decoded: Self)
        ensures
            decoded == Self::spec_from_bits(bits),
            decoded.spec_bits() == bits % 4,
    {
        let low: u8 = bits & 0b11;
        assert(low == bits % 4) by (bit_vector)
            requires
                low == bits & 0b11,
        ;
        match low {
            0b00 => Self::RwPrivileged,
            0b01 => Self::RwAny,
            0b10 => Self::RoPrivileged,
            _ => Self::RoAny,
        }
    }

    /// Decoding an encoding gives back what was encoded.
    pub proof fn lemma_from_bits_of_bits(encoded: RbarAp)
        ensures
            Self::spec_from_bits(encoded.spec_bits()) == encoded,
    {
    }
}

/// Shareability of a region, as the two bits of the base-address register
/// encode it.
#[derive(Clone, Copy, Debug, PartialEq, Eq, Structural)]
pub enum RbarSh {
    NonShareable,
    Reserved,
    OuterShareable,
    InnerShareable,
}

impl RbarSh {
    /// The 2-bit encoding.
    pub open spec fn spec_bits(&self) -> u8 {
        match self {
            RbarSh::NonShareable => 0b00,
            RbarSh::Reserved => 0b01,
            RbarSh::OuterShareable => 0b10,
            RbarSh::InnerShareable => 0b11,
        }
    }

    #[verifier::when_used_as_spec(spec_bits)]
    pub fn bits(&self) -> (bits: u8)
        ensures
            bits == self.spec_bits(),
            bits < 4,
    {
        match self {
            RbarSh::NonShareable => 0b00,
            RbarSh::Reserved => 0b01,
            RbarSh::OuterShareable => 0b10,
            RbarSh::InnerShareable => 0b11,
        }
    }

    /// What the low 2 bits of `bits` encode.
    pub open spec fn spec_from_bits(bits: u8) -> RbarSh {
        let low = bits % 4;
        if low == 0b00 {
            RbarSh::NonShareable
        } else if low == 0b01 {
            RbarSh::Reserved
        } else if low == 0b10 {
            RbarSh::OuterShareable
        } else {
            RbarSh::InnerShareable
        }
    }

    /// Convert a 2-bit field value to the corresponding shareability.
    #[verifier::when_used_as_spec(spec_from_bits)]
    pub fn from_bits(bits: u8) -> (decoded: Self)
        ensures
            decoded == Self::spec_from_bits(bits),
            decoded.spec_bits() == bits % 4,
    {
        let low: u8 = bits & 0b11;
        assert(low == bits % 4) by (bit_vector)
            requires
                low == bits & 0b11,
        ;
        match low {
            0b00 => Self::NonShareable,
            0b01 => Self::Reserved,
            0b10 => Self::OuterShareable,
            _ => Self::InnerShareable,
        }
    }

    /// Decoding an encoding gives back what was encoded.
    pub proof fn lemma_from_bits_of_bits(encoded: RbarSh)
        ensures
            Self::spec_from_bits(encoded.spec_bits()) == encoded,
    {
    }
}

/// Region Base Address Register value.
#[derive(Clone, Copy, Debug, PartialEq, Eq, Structural)]
pub struct RbarVal(pub u32);

/// The fields of a base-address register value.
pub struct RbarFields {
    /// Execute-never.
    pub xn: bool,
    /// Access permissions.
    pub ap: RbarAp,
    /// Shareability.
    pub sh: RbarSh,
    /// Base address.
    pub base: u32,
}

impl View for RbarVal {
    type V = RbarFields;

    open spec fn view(&self) -> RbarFields {
        RbarFields {
            xn: spec_get_bool_u32(self.0, 0),
            ap: RbarAp::spec_from_bits(spec_get_u32(self.0, 1, 2) as u8),
            sh: RbarSh::spec_from_bits(spec_get_u32(self.0, 3, 4) as u8),
            base: spec_get_masked_u32(self.0, ADDR_MASK),
        }
    }
}

impl Default for RbarVal {
    fn default() -> (val: Self)
        ensures
            val == RbarVal(0),
    {
        RbarVal(0)
    }
}

impl RbarVal {
    /// The value with no bit set.
    pub fn const_default() -> (val: Self)
        ensures
            val == RbarVal(0),
            val@ == (RbarFields {
                xn: false,
                ap: RbarAp::RwPrivileged,
                sh: RbarSh::NonShareable,
                base: 0,
            }),
    {
        proof {
            Self::lemma_zero();
        }
        RbarVal(0)
    }

    /// Every field of the value with no bit set is zero.
    pub proof fn lemma_zero()
        ensures
            RbarVal(0)@ == (RbarFields {
                xn: false,
                ap: RbarAp::RwPrivileged,
                sh: RbarSh::NonShareable,
                base: 0,
            }),
    {
        lemma_zero_fields(0, 0);
        lemma_zero_fields(1, 2);
        lemma_zero_fields(3, 4);
        lemma_addr_mask();
        lemma_masked_zero(ADDR_MASK);
    }

    /// Extract execute-never field.
    pub fn xn(&self) -> (val: bool)
        ensures
            val == self@.xn,
    {
        get_bool_u32(self.0, 0)
    }

    /// Update execute-never field.
    pub fn with_xn(self, val: bool) -> (updated: Self)
        ensures
            updated.0 == spec_set_bool_u32(self.0, 0, val),
            updated@ == (RbarFields { xn: val, ..self@ }),
    {
        proof {
            lemma_addr_mask();
            lemma_bool_after_set(self.0, 0, val);
            lemma_bool_frame(self.0, 0, 1, 2, 0);
            lemma_bool_frame(self.0, 0, 3, 4, 0);
            lemma_masked_frame_bool(self.0, 5, 31, 0, 0);
        }
        RbarVal(set_bool_u32(self.0, 0, val))
    }

    /// Extract access permissions field.
    pub fn ap(&self) -> (val: RbarAp)
        ensures
            val == self@.ap,
    {
        proof {
            lemma_get_bounded(self.0, 1, 2);
            lemma_field_max_values(1, 2);
        }
        RbarAp::from_bits(get_u32(self.0, 1, 2) as u8)
    }

    /// Update access permissions field.
    pub fn with_ap(self, val: RbarAp) -> (updated: Self)
        ensures
            updated.0 == spec_set_u32(self.0, 1, 2, val.spec_bits() as u32),
            updated@ == (RbarFields { ap: val, ..self@ }),
    {
        let bits: u8 = val.bits();
        proof {
            lemma_addr_mask();
            lemma_get_after_set(self.0, 1, 2, bits as u32);
            lemma_cut_to_field(bits as u32, 1, 2);
            lemma_field_max_values(1, 2);
            RbarAp::lemma_from_bits_of_bits(val);
            lemma_bool_frame(self.0, 0, 1, 2, bits as u32);
            lemma_get_after_set_other(self.0, 1, 2, bits as u32, 3, 4);
            lemma_masked_frame(self.0, 5, 31, bits as u32, 1, 2);
        }
        RbarVal(set_u32(self.0, 1, 2, bits as u32))
    }

    /// Extract shareability field.
    pub fn sh(&self) -> (val: RbarSh)
        ensures
            val == self@.sh,
    {
        proof {
            lemma_get_bounded(self.0, 3, 4);
            lemma_field_max_values(3, 4);
        }
        RbarSh::from_bits(get_u32(self.0, 3, 4) as u8)
    }

    /// Update shareability field.
    pub fn with_sh(self, val: RbarSh) -> (updated: Self)
        ensures
            updated.0 == spec_set_u32(self.0, 3, 4, val.spec_bits() as u32),
            updated@ == (RbarFields { sh: val, ..self@ }),
    {
        let bits: u8 = val.bits();
        proof {
            lemma_addr_mask();
            lemma_get_after_set(self.0, 3, 4, bits as u32);
            lemma_cut_to_field(bits as u32, 3, 4);
            lemma_field_max_values(3, 4);
            RbarSh::lemma_from_bits_of_bits(val);
            lemma_bool_frame(self.0, 0, 3, 4, bits as u32);
            lemma_get_after_set_other(self.0, 3, 4, bits as u32, 1, 2);
            lemma_masked_frame(self.0, 5, 31, bits as u32, 3, 4);
        }
        RbarVal(set_u32(self.0, 3, 4, bits as u32))
    }

    /// Extract base address field.
    pub fn base(&self) -> (val: u32)
        ensures
            val == self@.base,
    {
        get_masked_u32(self.0, ADDR_MASK)
    }

    /// Update base address field.
    pub fn with_base(self, val: u32) -> (updated: Self)
        ensures
            updated.0 == spec_set_masked_u32(self.0, ADDR_MASK, val),
            updated@ == (RbarFields { base: spec_get_masked_u32(val, ADDR_MASK), ..self@ }),
    {
        proof {
            lemma_addr_mask();
            lemma_masked_get_after_set(self.0, ADDR_MASK, val);
            lemma_masked_frame_bool(self.0, 5, 31, val, 0);
            lemma_masked_frame(self.0, 5, 31, val, 1, 2);
            lemma_masked_frame(self.0, 5, 31, val, 3, 4);
        }
        RbarVal(set_masked_u32(self.0, ADDR_MASK, val))
    }
}

/// Region Limit Address Register value.
#[derive(Clone, Copy, Debug, PartialEq, Eq, Structural)]
pub struct RlarVal(pub u32);

/// The fields of a limit-address register value.
pub struct RlarFields {
    /// Region enable.
    pub en: bool,
    /// Attribute index.
    pub attrindx: u8,
    /// Privileged execute-never.
    pub pxn: bool,
    /// Limit address.
    pub limit: u32,
}

impl View for RlarVal {
    type V = RlarFields;

    open spec fn view(&self) -> RlarFields {
        RlarFields {
            en: spec_get_bool_u32(self.0, 0),
            attrindx: spec_get_u32(self.0, 1, 3) as u8,
            pxn: spec_get_bool_u32(self.0, 4),
            limit: spec_get_masked_u32(self.0, ADDR_MASK),
        }
    }
}

impl Default for RlarVal {
    fn default() -> (val: Self)
        ensures
            val == RlarVal(0),
    {
        RlarVal(0)
    }
}

impl RlarVal {
    /// The value with no bit set.
    pub fn const_default() -> (val: Self)
        ensures
            val == RlarVal(0),
            val@ == (RlarFields { en: false, attrindx: 0, pxn: false, limit: 0 }),
    {
        proof {
            Self::lemma_zero();
        }
        RlarVal(0)
    }

    /// Every field of the value with no bit set is zero.
    pub proof fn lemma_zero()
        ensures
            RlarVal(0)@ == (RlarFields { en: false, attrindx: 0, pxn: false, limit: 0 }),
    {
        lemma_zero_fields(0, 0);
        lemma_zero_fields(1, 3);
        lemma_zero_fields(4, 4);
        lemma_addr_mask();
        lemma_masked_zero(ADDR_MASK);
    }

    /// Extract region enable field.
    pub fn en(&self) -> (val: bool)
        ensures
            val == self@.en,
    {
        get_bool_u32(self.0, 0)
    }

    /// Update region enable field.
    pub fn with_en(self, val: bool) -> (updated: Self)
        ensures
            updated.0 == spec_set_bool_u32(self.0, 0, val),
            updated@ == (RlarFields { en: val, ..self@ }),
    {
        proof {
            lemma_addr_mask();
            lemma_bool_after_set(self.0, 0, val);
            lemma_bool_frame(self.0, 0, 1, 3, 0);
            lemma_bool_frame_bool(self.0, 0, 4);
            lemma_masked_frame_bool(self.0, 5, 31, 0, 0);
        }
        RlarVal(set_bool_u32(self.0, 0, val))
    }

    /// Extract attribute index field.
    pub fn attrindx(&self) -> (val: u8)
        ensures
            val == self@.attrindx,
            val < 8,
    {
        proof {
            lemma_get_bounded(self.0, 1, 3);
            lemma_field_max_values(1, 3);
        }
        get_u32(self.0, 1, 3) as u8
    }

    /// Update attribute index field.
    pub fn with_attrindx(self, val: u8) -> (updated: Self)
        ensures
            updated.0 == spec_set_u32(self.0, 1, 3, val as u32),
            updated@ == (RlarFields { attrindx: val % 8, ..self@ }),
    {
        proof {
            lemma_addr_mask();
            lemma_get_after_set(self.0, 1, 3, val as u32);
            lemma_cut_to_field(val as u32, 1, 3);
            lemma_field_max_values(1, 3);
            lemma_bool_frame(self.0, 0, 1, 3, val as u32);
            lemma_bool_frame(self.0, 4, 1, 3, val as u32);
            lemma_masked_frame(self.0, 5, 31, val as u32, 1, 3);
        }
        RlarVal(set_u32(self.0, 1, 3, val as u32))
    }

    /// Extract privileged execute-never field.
    pub fn pxn(&self) -> (val: bool)
        ensures
            val == self@.pxn,
    {
        get_bool_u32(self.0, 4)
    }

    /// Update privileged execute-never field.
    pub fn with_pxn(self, val: bool) -> (updated: Self)
        ensures
            updated.0 == spec_set_bool_u32(self.0, 4, val),
            updated@ == (RlarFields { pxn: val, ..self@ }),
    {
        proof {
            lemma_addr_mask();
            lemma_bool_after_set(self.0, 4, val);
            lemma_bool_frame_bool(self.0, 4, 0);
            lemma_bool_frame(self.0, 4, 1, 3, 0);
            lemma_masked_frame_bool(self.0, 5, 31, 0, 4);
        }
        RlarVal(set_bool_u32(self.0, 4, val))
    }

    /// Extract limit address field.
    pub fn limit(&self) -> (val: u32)
        ensures
            val == self@.limit,
    {
        get_masked_u32(self.0, ADDR_MASK)
    }

    /// Update limit address field.
    pub fn with_limit(self, val: u32) -> (updated: Self)
        ensures
            updated.0 == spec_set_masked_u32(self.0, ADDR_MASK, val),
            updated@ == (RlarFields { limit: spec_get_masked_u32(val, ADDR_MASK), ..self@ }),
    {
        proof {
            lemma_addr_mask();
            lemma_masked_get_after_set(self.0, ADDR_MASK, val);
            lemma_masked_frame_bool(self.0, 5, 31, val, 0);
            lemma_masked_frame(self.0, 5, 31, val, 1, 3);
            lemma_masked_frame_bool(self.0, 5, 31, val, 4);
        }
        RlarVal(set_masked_u32(self.0, ADDR_MASK, val))
    }
}

/// How accesses to device memory may be gathered, reordered and
/// acknowledged.
#[allow(non_camel_case_types)]
#[derive(Clone, Copy, Debug, PartialEq, Eq, Structural)]
pub enum MairDeviceMemoryOrdering {
    /// non-Gathering, non-Reordering, no Early Write acknowledgement.
    nGnRnE,
    /// non-Gathering, non-Reordering, Early Write acknowledgement.
    nGnRE,
    /// non-Gathering, Reordering, Early Write acknowledgement.
    nGRE,
    /// Gathering, Reordering, Early Write acknowledgement.
    GRE,
}

impl MairDeviceMemoryOrdering {
    /// The 2-bit encoding.
    pub open spec fn spec_bits(&self) -> u8 {
        match self {
            MairDeviceMemoryOrdering::nGnRnE => 0b00,
            MairDeviceMemoryOrdering::nGnRE => 0b01,
            MairDeviceMemoryOrdering::nGRE => 0b10,
            MairDeviceMemoryOrdering::GRE => 0b11,
        }
    }

    #[verifier::when_used_as_spec(spec_bits)]
    pub fn bits(&self) -> (bits: u8)
        ensures
            bits == self.spec_bits(),
            bits < 4,
    {
        match self {
            MairDeviceMemoryOrdering::nGnRnE => 0b00,
            MairDeviceMemoryOrdering::nGnRE => 0b01,
            MairDeviceMemoryOrdering::nGRE => 0b10,
            MairDeviceMemoryOrdering::GRE => 0b11,
        }
    }
}

/// How normal memory is cached.
#[derive(Clone, Copy, Debug, PartialEq, Eq, Structural)]
pub enum MairNormalMemoryCaching {
    /// Write-Through Transient Write Only
    WriteThroughTransientWO,
    /// Write-Through Transient Read Only
    WriteThroughTransientRO,
    /// Write-Through Transient Read / Write
    WriteThroughTransientRW,
    /// Non-cacheable
    NonCacheable,
    /// Write-Back Transient Write Only
    WriteBackTransientWO,
    /// Write-Back Transient Read Only
    WriteBackTransientRO,
    /// Write-Back Transient Read / Write
    WriteBackTransientRW,
    /// Write-Through Non-Transient Write Only
    WriteThroughNonTransientWO,
    /// Write-Through Non-Transient Read Only
    WriteThroughNonTransientRO,
    /// Write-Through Non-Transient Read / Write
    WriteThroughNonTransientRW,
    /// Write-Back Non-Transient Write Only
    WriteBackNonTransientWO,
    /// Write-Back Non-Transient Read Only
    WriteBackNonTransientRO,
    /// Write-Back Non-Transient Read / Write
    WriteBackNonTransientRW,
}

impl MairNormalMemoryCaching {
    /// The 4-bit encoding.
    pub open spec fn spec_bits(&self) -> u8 {
        match self {
            MairNormalMemoryCaching::WriteThroughTransientWO => 0b0001,
            MairNormalMemoryCaching::WriteThroughTransientRO => 0b0010,
            MairNormalMemoryCaching::WriteThroughTransientRW => 0b0011,
            MairNormalMemoryCaching::NonCacheable => 0b0100,
            MairNormalMemoryCaching::WriteBackTransientWO => 0b0101,
            MairNormalMemoryCaching::WriteBackTransientRO => 0b0110,
            MairNormalMemoryCaching::WriteBackTransientRW => 0b0111,
            MairNormalMemoryCaching::WriteThroughNonTransientWO => 0b1001,
            MairNormalMemoryCaching::WriteThroughNonTransientRO => 0b1010,
            MairNormalMemoryCaching::WriteThroughNonTransientRW => 0b1011,
            MairNormalMemoryCaching::WriteBackNonTransientWO => 0b1101,
            MairNormalMemoryCaching::WriteBackNonTransientRO => 0b1110,
            MairNormalMemoryCaching::WriteBackNonTransientRW => 0b1111,
        }
    }

    #[verifier::when_used_as_spec(spec_bits)]
    pub fn bits(&self) -> (bits: u8)
        ensures
            bits == self.spec_bits(),
            bits < 16,
    {
        match self {
            MairNormalMemoryCaching::WriteThroughTransientWO => 0b0001,
            MairNormalMemoryCaching::WriteThroughTransientRO => 0b0010,
            MairNormalMemoryCaching::WriteThroughTransientRW => 0b0011,
            MairNormalMemoryCaching::NonCacheable => 0b0100,
            MairNormalMemoryCaching::WriteBackTransientWO => 0b0101,
            MairNormalMemoryCaching::WriteBackTransientRO => 0b0110,
            MairNormalMemoryCaching::WriteBackTransientRW => 0b0111,
            MairNormalMemoryCaching::WriteThroughNonTransientWO => 0b1001,
            MairNormalMemoryCaching::WriteThroughNonTransientRO => 0b1010,
            MairNormalMemoryCaching::WriteThroughNonTransientRW => 0b1011,
            MairNormalMemoryCaching::WriteBackNonTransientWO => 0b1101,
            MairNormalMemoryCaching::WriteBackNonTransientRO => 0b1110,
            MairNormalMemoryCaching::WriteBackNonTransientRW => 0b1111,
        }
    }
}

/// Memory Attribute Indirection Value
///
/// There are no accessors for `MairAttr`: a value is made from what it
/// stands for and put into an attribute field.
#[derive(Clone, Copy, Debug, PartialEq, Eq, Structural)]
pub struct MairAttr(pub u8);

impl MairAttr {
    /// The attribute of device memory: the ordering in bits 2 and 3, every
    /// other bit clear.
    pub fn device_memory(ordering: MairDeviceMemoryOrdering) -> (attr: Self)
        ensures
            attr.0 == 4 * ordering.spec_bits(),
    {
        // Value layout for device memory:
        // | 7     4 | 3     2 | 1  0 |
        // +--------+----------+------+
        // | 0b0000 | ordering | RES0 |
        let ordering: u8 = ordering.bits();
        assert(ordering << 2 == 4 * ordering) by (bit_vector)
            requires
                ordering < 4,
        ;
        Self(ordering << 2)
    }

    /// The attribute of normal memory: the caching of the outer cache in
    /// the high four bits, that of the inner cache in the low four.
    pub fn normal_memory(inner: MairNormalMemoryCaching, outer: MairNormalMemoryCaching) -> (attr:
        Self)
        ensures
            attr.0 == 16 * outer.spec_bits() + inner.spec_bits(),
    {
        // Value layout for normal memory:
        // | 7      4 | 3      0 |
        // +----------+----------+
        // |  outer   |  inner   |
        let outer: u8 = outer.bits();
        let inner: u8 = inner.bits();
        assert((outer << 4) | inner == 16 * outer + inner) by (bit_vector)
            requires
                outer < 16,
                inner < 16,
        ;
        Self((outer << 4) | inner)
    }
}

/// MAIR0 register value
#[derive(Clone, Copy, Debug, PartialEq, Eq, Structural)]
pub struct Mair0Val(pub u32);

/// The fields of a value of the first attribute indirection register.
pub struct Mair0Fields {
    /// Attribute 0.
    pub attr0: u8,
    /// Attribute 1.
    pub attr1: u8,
    /// Attribute 2.
    pub attr2: u8,
    /// Attribute 3.
    pub attr3: u8,
}

impl View for Mair0Val {
    type V = Mair0Fields;

    open spec fn view(&self) -> Mair0Fields {
        Mair0Fields {
            attr0: spec_get_u32(self.0, 0, 7) as u8,
            attr1: spec_get_u32(self.0, 8, 15) as u8,
            attr2: spec_get_u32(self.0, 16, 23) as u8,
            attr3: spec_get_u32(self.0, 24, 31) as u8,
        }
    }
}

impl Default for Mair0Val {
    fn default() -> (val: Self)
        ensures
            val == Mair0Val(0),
    {
        Mair0Val(0)
    }
}

impl Mair0Val {
    /// Extract Attribute 0 field.
    pub fn attr0(&self) -> (val: u8)
        ensures
            val == self@.attr0,
    {
        proof {
            lemma_get_bounded(self.0, 0, 7);
            lemma_field_max_values(0, 7);
        }
        get_u32(self.0, 0, 7) as u8
    }

    /// Update Attribute 0 field.
    pub fn with_attr0(&mut self, val: MairAttr) -> (updated: Self)
        ensures
            *final(self) == *old(self),
            updated.0 == spec_set_u32(old(self).0, 0, 7, val.0 as u32),
            updated@ == (Mair0Fields { attr0: val.0, ..old(self)@ }),
    {
        proof {
            lemma_get_after_set(self.0, 0, 7, val.0 as u32);
            lemma_cut_to_field(val.0 as u32, 0, 7);
            lemma_field_max_values(0, 7);
            lemma_get_after_set_other(self.0, 0, 7, val.0 as u32, 8, 15);
            lemma_get_after_set_other(self.0, 0, 7, val.0 as u32, 16, 23);
            lemma_get_after_set_other(self.0, 0, 7, val.0 as u32, 24, 31);
        }
        Mair0Val(set_u32(self.0, 0, 7, val.0 as u32))
    }

    /// Extract Attribute 1 field.
    pub fn attr1(&self) -> (val: u8)
        ensures
            val == self@.attr1,
    {
        proof {
            lemma_get_bounded(self.0, 8, 15);
            lemma_field_max_values(8, 15);
        }
        get_u32(self.0, 8, 15) as u8
    }

    /// Update Attribute 1 field.
    pub fn with_attr1(&mut self, val: MairAttr) -> (updated: Self)
        ensures
            *final(self) == *old(self),
            updated.0 == spec_set_u32(old(self).0, 8, 15, val.0 as u32),
            updated@ == (Mair0Fields { attr1: val.0, ..old(self)@ }),
    {
        proof {
            lemma_get_after_set(self.0, 8, 15, val.0 as u32);
            lemma_cut_to_field(val.0 as u32, 8, 15);
            lemma_field_max_values(8, 15);
            lemma_get_after_set_other(self.0, 8, 15, val.0 as u32, 0, 7);
            lemma_get_after_set_other(self.0, 8, 15, val.0 as u32, 16, 23);
            lemma_get_after_set_other(self.0, 8, 15, val.0 as u32, 24, 31);
        }
        Mair0Val(set_u32(self.0, 8, 15, val.0 as u32))
    }

    /// Extract Attribute 2 field.
    pub fn attr2(&self) -> (val: u8)
        ensures
            val == self@.attr2,
    {
        proof {
            lemma_get_bounded(self.0, 16, 23);
            lemma_field_max_values(16, 23);
        }
        get_u32(self.0, 16, 23) as u8
    }

    /// Update Attribute 2 field.
    pub fn with_attr2(&mut self, val: MairAttr) -> (updated: Self)
        ensures
            *final(self) == *old(self),
            updated.0 == spec_set_u32(old(self).0, 16, 23, val.0 as u32),
            updated@ == (Mair0Fields { attr2: val.0, ..old(self)@ }),
    {
        proof {
            lemma_get_after_set(self.0, 16, 23, val.0 as u32);
            lemma_cut_to_field(val.0 as u32, 16, 23);
            lemma_field_max_values(16, 23);
            lemma_get_after_set_other(self.0, 16, 23, val.0 as u32, 0, 7);
            lemma_get_after_set_other(self.0, 16, 23, val.0 as u32, 8, 15);
            lemma_get_after_set_other(self.0, 16, 23, val.0 as u32, 24, 31);
        }
        Mair0Val(set_u32(self.0, 16, 23, val.0 as u32))
    }

    /// Extract Attribute 3 field.
    pub fn attr3(&self) -> (val: u8)
        ensures
            val == self@.attr3,
    {
        proof {
            lemma_get_bounded(self.0, 24, 31);
            lemma_field_max_values(24, 31);
        }
        get_u32(self.0, 24, 31) as u8
    }

    /// Update Attribute 3 field.
    pub fn with_attr3(&mut self, val: MairAttr) -> (updated: Self)
        ensures
            *final(self) == *old(self),
            updated.0 == spec_set_u32(old(self).0, 24, 31, val.0 as u32),
            updated@ == (Mair0Fields { attr3: val.0, ..old(self)@ }),
    {
        proof {
            lemma_get_after_set(self.0, 24, 31, val.0 as u32);
            lemma_cut_to_field(val.0 as u32, 24, 31);
            lemma_field_max_values(24, 31);
            lemma_get_after_set_other(self.0, 24, 31, val.0 as u32, 0, 7);
            lemma_get_after_set_other(self.0, 24, 31, val.0 as u32, 8, 15);
            lemma_get_after_set_other(self.0, 24, 31, val.0 as u32, 16, 23);
        }
        Mair0Val(set_u32(self.0, 24, 31, val.0 as u32))
    }
}

/// MAIR1 register value
#[derive(Clone, Copy, Debug, PartialEq, Eq, Structural)]
pub struct Mair1Val(pub u32);

/// The fields of a value of the second attribute indirection register.
pub struct Mair1Fields {
    /// Attribute 4.
    pub attr4: u8,
    /// Attribute 5.
    pub attr5: u8,
    /// Attribute 6.
    pub attr6: u8,
    /// Attribute 7.
    pub attr7: u8,
}

impl View for Mair1Val {
    type V = Mair1Fields;

    open spec fn view(&self) -> Mair1Fields {
        Mair1Fields {
            attr4: spec_get_u32(self.0, 0, 7) as u8,
            attr5: spec_get_u32(self.0, 8, 15) as u8,
            attr6: spec_get_u32(self.0, 16, 23) as u8,
            attr7: spec_get_u32(self.0, 24, 31) as u8,
        }
    }
}

impl Mair1Val {
    /// Extract Attribute 4 field.
    pub fn attr4(&self) -> (val: u8)
        ensures
            val == self@.attr4,
    {
        proof {
            lemma_get_bounded(self.0, 0, 7);
            lemma_field_max_values(0, 7);
        }
        get_u32(self.0, 0, 7) as u8
    }

    /// Update Attribute 4 field.
    pub fn with_attr4(&mut self, val: MairAttr) -> (updated: Self)
        ensures
            *final(self) == *old(self),
            updated.0 == spec_set_u32(old(self).0, 0, 7, val.0 as u32),
            updated@ == (Mair1Fields { attr4: val.0, ..old(self)@ }),
    {
        proof {
            lemma_get_after_set(self.0, 0, 7, val.0 as u32);
            lemma_cut_to_field(val.0 as u32, 0, 7);
            lemma_field_max_values(0, 7);
            lemma_get_after_set_other(self.0, 0, 7, val.0 as u32, 8, 15);
            lemma_get_after_set_other(self.0, 0, 7, val.0 as u32, 16, 23);
            lemma_get_after_set_other(self.0, 0, 7, val.0 as u32, 24, 31);
        }
        Mair1Val(set_u32(self.0, 0, 7, val.0 as u32))
    }

    /// Extract Attribute 5 field.
    pub fn attr5(&self) -> (val: u8)
        ensures
            val == self@.attr5,
    {
        proof {
            lemma_get_bounded(self.0, 8, 15);
            lemma_field_max_values(8, 15);
        }
        get_u32(self.0, 8, 15) as u8
    }

    /// Update Attribute 5 field.
    pub fn with_attr5(&mut self, val: MairAttr) -> (updated: Self)
        ensures
            *final(self) == *old(self),
            updated.0 == spec_set_u32(old(self).0, 8, 15, val.0 as u32),
            updated@ == (Mair1Fields { attr5: val.0, ..old(self)@ }),
    {
        proof {
            lemma_get_after_set(self.0, 8, 15, val.0 as u32);
            lemma_cut_to_field(val.0 as u32, 8, 15);
            lemma_field_max_values(8, 15);
            lemma_get_after_set_other(self.0, 8, 15, val.0 as u32, 0, 7);
            lemma_get_after_set_other(self.0, 8, 15, val.0 as u32, 16, 23);
            lemma_get_after_set_other(self.0, 8, 15, val.0 as u32, 24, 31);
        }
        Mair1Val(set_u32(self.0, 8, 15, val.0 as u32))
    }

    /// Extract Attribute 6 field.
    pub fn attr6(&self) -> (val: u8)
        ensures
            val == self@.attr6,
    {
        proof {
            lemma_get_bounded(self.0, 16, 23);
            lemma_field_max_values(16, 23);
        }
        get_u32(self.0, 16, 23) as u8
    }

    /// Update Attribute 6 field.
    pub fn with_attr6(&mut self, val: MairAttr) -> (updated: Self)
        ensures
            *final(self) == *old(self),
            updated.0 == spec_set_u32(old(self).0, 16, 23, val.0 as u32),
            updated@ == (Mair1Fields { attr6: val.0, ..old(self)@ }),
    {
        proof {
            lemma_get_after_set(self.0, 16, 23, val.0 as u32);
            lemma_cut_to_field(val.0 as u32, 16, 23);
            lemma_field_max_values(16, 23);
            lemma_get_after_set_other(self.0, 16, 23, val.0 as u32, 0, 7);
            lemma_get_after_set_other(self.0, 16, 23, val.0 as u32, 8, 15);
            lemma_get_after_set_other(self.0, 16, 23, val.0 as u32, 24, 31);
        }
        Mair1Val(set_u32(self.0, 16, 23, val.0 as u32))
    }

    /// Extract Attribute 7 field.
    pub fn attr7(&self) -> (val: u8)
        ensures
            val == self@.attr7,
    {
        proof {
            lemma_get_bounded(self.0, 24, 31);
            lemma_field_max_values(24, 31);
        }
        get_u32(self.0, 24, 31) as u8
    }

    /// Update Attribute 7 field.
    pub fn with_attr7(&mut self, val: MairAttr) -> (updated: Self)
        ensures
            *final(self) == *old(self),
            updated.0 == spec_set_u32(old(self).0, 24, 31, val.0 as u32),
            updated@ == (Mair1Fields { attr7: val.0, ..old(self)@ }),
    {
        proof {
            lemma_get_after_set(self.0, 24, 31, val.0 as u32);
            lemma_cut_to_field(val.0 as u32, 24, 31);
            lemma_field_max_values(24, 31);
            lemma_get_after_set_other(self.0, 24, 31, val.0 as u32, 0, 7);
            lemma_get_after_set_other(self.0, 24, 31, val.0 as u32, 8, 15);
            lemma_get_after_set_other(self.0, 24, 31, val.0 as u32, 16, 23);
        }
        Mair1Val(set_u32(self.0, 24, 31, val.0 as u32))
    }
}

} // verus!
