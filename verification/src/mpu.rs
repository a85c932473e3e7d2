//! The registers of the memory protection unit that ARMv7-M and ARMv8-M
//! share, and the register bank of a PMSAv7 unit as a state that register
//! writes act on.

use vstd::prelude::*;
use crate::mpu_v7::{RasrVal, RbarVal};
use crate::ops::{
    get_bool_u32, get_u32, lemma_bool_after_set, lemma_bool_frame_bool, lemma_cut_to_field,
    lemma_field_max_values, lemma_get_after_set, lemma_get_bounded, lemma_zero_fields,
    set_bool_u32, set_u32,
    spec_get_bool_u32, spec_get_u32, spec_mask_u32, spec_set_bool_u32, spec_set_u32,
};

verus! {

/// MPU Type Register value.
#[derive(Clone, Copy, Debug, PartialEq, Eq, Structural)]
pub struct TypeVal(pub u32);

/// The fields of a type register value.
pub struct TypeFields {
    /// Whether instruction and data regions are separate.
    pub separate: bool,
    /// Number of data regions.
    pub dregion: u8,
}

impl View for TypeVal {
    type V = TypeFields;

    open spec fn view(&self) -> TypeFields {
        TypeFields {
            separate: spec_get_bool_u32(self.0, 0),
            dregion: spec_get_u32(self.0, 8, 15) as u8,
        }
    }
}

impl TypeVal {
    /// Extract separate instruction and data regions field.
    pub fn separate(&self) -> (val: bool)
        ensures
            val == self@.separate,
    {
        get_bool_u32(self.0, 0)
    }

    /// Extract number of data regions field.
    pub fn dregion(&self) -> (val: u8)
        ensures
            val == self@.dregion,
    {
        proof {
            lemma_get_bounded(self.0, 8, 15);
            lemma_field_max_values(8, 15);
        }
        get_u32(self.0, 8, 15) as u8
    }
}

/// MPU Control Register value.
#[derive(Clone, Copy, Debug, PartialEq, Eq, Structural)]
pub struct CtrlVal(pub u32);

/// The fields of a control register value.
pub struct CtrlFields {
    /// Whether the unit is in effect.
    pub enable: bool,
    /// Whether the unit stays in effect in the HardFault and NMI handlers.
    pub hfnmiena: bool,
    /// Whether privileged code may touch what no region covers.
    pub privdefena: bool,
}

impl View for CtrlVal {
    type V = CtrlFields;

    open spec fn view(&self) -> CtrlFields {
        CtrlFields {
            enable: spec_get_bool_u32(self.0, 0),
            hfnmiena: spec_get_bool_u32(self.0, 1),
            privdefena: spec_get_bool_u32(self.0, 2),
        }
    }
}

impl CtrlVal {
    /// Extract enable field.
    pub fn enable(&self) -> (val: bool)
        ensures
            val == self@.enable,
    {
        get_bool_u32(self.0, 0)
    }

    /// Update enable field.
    pub fn with_enable(self, val: bool) -> (updated: Self)
        ensures
            updated.0 == spec_set_bool_u32(self.0, 0, val),
            updated@ == (CtrlFields { enable: val, ..self@ }),
    {
        proof {
            lemma_bool_after_set(self.0, 0, val);
            lemma_bool_frame_bool(self.0, 0, 1);
            lemma_bool_frame_bool(self.0, 0, 2);
        }
        CtrlVal(set_bool_u32(self.0, 0, val))
    }

    /// Extract HardFault, NMI enable field.
    pub fn hfnmiena(&self) -> (val: bool)
        ensures
            val == self@.hfnmiena,
    {
        get_bool_u32(self.0, 1)
    }

    /// Update HardFault, NMI enable field.
    pub fn with_hfnmiena(self, val: bool) -> (updated: Self)
        ensures
            updated.0 == spec_set_bool_u32(self.0, 1, val),
            updated@ == (CtrlFields { hfnmiena: val, ..self@ }),
    {
        proof {
            lemma_bool_after_set(self.0, 1, val);
            lemma_bool_frame_bool(self.0, 1, 0);
            lemma_bool_frame_bool(self.0, 1, 2);
        }
        CtrlVal(set_bool_u32(self.0, 1, val))
    }

    /// Extract Privileged default enable field.
    pub fn privdefena(&self) -> (val: bool)
        ensures
            val == self@.privdefena,
    {
        get_bool_u32(self.0, 2)
    }

    /// Update Privileged default enable field.
    pub fn with_privdefena(self, val: bool) -> (updated: Self)
        ensures
            updated.0 == spec_set_bool_u32(self.0, 2, val),
            updated@ == (CtrlFields { privdefena: val, ..self@ }),
    {
        proof {
            lemma_bool_after_set(self.0, 2, val);
            lemma_bool_frame_bool(self.0, 2, 0);
            lemma_bool_frame_bool(self.0, 2, 1);
        }
        CtrlVal(set_bool_u32(self.0, 2, val))
    }
}

/// MPU Region Number Register value.
#[derive(Clone, Copy, Debug, PartialEq, Eq, Structural)]
pub struct RnrVal(pub u32);

impl Default for RnrVal {
    fn default() -> (val: Self)
        ensures
            val == RnrVal(0),
            val.spec_region() == 0,
    {
        proof {
            lemma_zero_fields(0, 7);
        }
        RnrVal(0)
    }
}

impl RnrVal {
    /// The region number that the value holds.
    pub open spec fn spec_region(&self) -> u8 {
        spec_get_u32(self.0, 0, 7) as u8
    }

    /// Extract region number field.
    #[verifier::when_used_as_spec(spec_region)]
    pub fn region(&self) -> (val: u8)
        ensures
            val == self.spec_region(),
    {
        proof {
            lemma_get_bounded(self.0, 0, 7);
            lemma_field_max_values(0, 7);
        }
        get_u32(self.0, 0, 7) as u8
    }

    /// Update region number field.
    pub fn with_region(self, val: u8) -> (updated: Self)
        ensures
            updated.0 == spec_set_u32(self.0, 0, 7, val as u32),
            updated.spec_region() == val,
    {
        proof {
            lemma_get_after_set(self.0, 0, 7, val as u32);
            lemma_cut_to_field(val as u32, 0, 7);
            lemma_field_max_values(0, 7);
        }
        RnrVal(set_u32(self.0, 0, 7, val as u32))
    }
}

/// The bits of a register that hold an address: all but the low five.
pub const ADDR_MASK: u32 = 0xffff_ffe0;

/// The address bits are the field from bit 5 to bit 31.
pub proof fn lemma_addr_mask()
    by (bit_vector)
    ensures
        ADDR_MASK == spec_mask_u32(5, 31),
{
}

/// Address of the MPU Type Register.
pub const TYPE_ADDRESS: u32 = 0xe000_ed90;

/// Address of the MPU Control Register.
pub const CTRL_ADDRESS: u32 = 0xe000_ed94;

/// Address of the MPU Region Number Register.
pub const RNR_ADDRESS: u32 = 0xe000_ed98;

/// Address of the MPU Region Base Address Register.
pub const RBAR_ADDRESS: u32 = 0xe000_ed9c;

/// Address of the MPU Region Attribute and Size Register.
pub const RASR_ADDRESS: u32 = 0xe000_eda0;

/// The registers of the unit that can be written.
#[derive(Clone, Copy, Debug, PartialEq, Eq, Structural)]
pub enum Register {
    /// Control Register
    Ctrl,
    /// Region Number Register
    Rnr,
    /// Region Base Address Register
    Rbar,
    /// Region Attribute and Size Register
    Rasr,
}

impl Register {
    /// The address of the register.
    pub open spec fn spec_address(&self) -> u32 {
        match self {
            Register::Ctrl => CTRL_ADDRESS,
            Register::Rnr => RNR_ADDRESS,
            Register::Rbar => RBAR_ADDRESS,
            Register::Rasr => RASR_ADDRESS,
        }
    }

    #[verifier::when_used_as_spec(spec_address)]
    pub fn address(&self) -> (address: u32)
        ensures
            address == self.spec_address(),
    {
        match self {
            Register::Ctrl => CTRL_ADDRESS,
            Register::Rnr => RNR_ADDRESS,
            Register::Rbar => RBAR_ADDRESS,
            Register::Rasr => RASR_ADDRESS,
        }
    }
}

/// One write of a value to a register.
#[derive(Clone, Copy, Debug, PartialEq, Eq, Structural)]
pub struct RegisterWrite {
    pub register: Register,
    pub value: u32,
}

/// What the register bank holds, and the writes that brought it there.
///
/// The base-address and the attribute-and-size register are a window on the
/// region that the region number register selects: each region keeps the two
/// values last written to it.
pub struct MpuState {
    /// The control register.
    pub ctrl: CtrlVal,
    /// The region number register.
    pub rnr: RnrVal,
    /// For each region of the unit, its base-address and its
    /// attribute-and-size value.
    pub regions: Seq<(RbarVal, RasrVal)>,
    /// Every write made so far, the oldest first.
    pub writes: Seq<RegisterWrite>,
}

impl MpuState {
    /// The region that writing `val` to the base-address register changes:
    /// the one that `val` names where its VALID bit is set, else the one
    /// that the region number register selects.
    pub open spec fn rbar_target(self, val: RbarVal) -> int {
        if val@.valid {
            val@.region as int
        } else {
            self.rnr.spec_region() as int
        }
    }

    /// Whether the bank can take the write: a write to a region's registers
    /// must go to a region that the unit has.
    pub open spec fn accepts(self, write: RegisterWrite) -> bool {
        match write.register {
            Register::Ctrl => true,
            Register::Rnr => true,
            Register::Rbar => self.rbar_target(RbarVal(write.value)) < self.regions.len(),
            Register::Rasr => self.rnr.spec_region() < self.regions.len(),
        }
    }

    /// The bank after the write.
    pub open spec fn step(self, write: RegisterWrite) -> MpuState {
        let writes = self.writes.push(write);
        match write.register {
            Register::Ctrl => MpuState { ctrl: CtrlVal(write.value), writes, ..self },
            Register::Rnr => MpuState { rnr: RnrVal(write.value), writes, ..self },
            Register::Rbar => {
                let val = RbarVal(write.value);
                let target = self.rbar_target(val);
                MpuState {
                    rnr: if val@.valid {
                        RnrVal(spec_set_u32(self.rnr.0, 0, 7, val@.region as u32))
                    } else {
                        self.rnr
                    },
                    regions: self.regions.update(target, (val, self.regions[target].1)),
                    writes,
                    ..self
                }
            },
            Register::Rasr => {
                let target = self.rnr.spec_region() as int;
                MpuState {
                    regions: self.regions.update(
                        target,
                        (self.regions[target].0, RasrVal(write.value)),
                    ),
                    writes,
                    ..self
                }
            },
        }
    }

    /// Whether the bank can take the writes of `writes` one after another.
    pub open spec fn accepts_all(self, writes: Seq<RegisterWrite>) -> bool
        decreases writes.len(),
    {
        writes.len() == 0 || (self.accepts(writes[0]) && self.step(writes[0]).accepts_all(
            writes.skip(1),
        ))
    }

    /// The bank after the writes of `writes`, made one after another.
    pub open spec fn run(self, writes: Seq<RegisterWrite>) -> MpuState
        decreases writes.len(),
    {
        if writes.len() == 0 {
            self
        } else {
            self.step(writes[0]).run(writes.skip(1))
        }
    }
}

impl MpuState {
    /// Making the one write of a list of one is making that write.
    pub proof fn lemma_run_one(self, write: RegisterWrite)
        ensures
            self.run(seq![write]) == self.step(write),
    {
        let writes = seq![write];
        assert(writes.skip(1) =~= Seq::<RegisterWrite>::empty());
        assert(self.step(write).run(writes.skip(1)) == self.step(write));
    }

    /// Making the writes of one list and then those of another is making
    /// the writes of the two lists joined.
    pub proof fn lemma_run_concat(self, first: Seq<RegisterWrite>, second: Seq<RegisterWrite>)
        ensures
            self.run(first + second) == self.run(first).run(second),
        decreases first.len(),
    {
        if first.len() == 0 {
            assert(first + second =~= second);
        } else {
            assert((first + second).skip(1) =~= first.skip(1) + second);
            self.step(first[0]).lemma_run_concat(first.skip(1), second);
        }
    }

    /// The bank can take the writes of two lists joined when it can take
    /// those of the first and, after them, those of the second.
    pub proof fn lemma_accepts_all_concat(
        self,
        first: Seq<RegisterWrite>,
        second: Seq<RegisterWrite>,
    )
        ensures
            self.accepts_all(first + second) <==> self.accepts_all(first) && self.run(
                first,
            ).accepts_all(second),
        decreases first.len(),
    {
        if first.len() == 0 {
            assert(first + second =~= second);
        } else {
            assert((first + second).skip(1) =~= first.skip(1) + second);
            self.step(first[0]).lemma_accepts_all_concat(first.skip(1), second);
        }
    }

    /// The bank can take the one write of a list of one when it can take
    /// that write.
    pub proof fn lemma_accepts_one(self, write: RegisterWrite)
        ensures
            self.accepts_all(seq![write]) <==> self.accepts(write),
    {
        let writes = seq![write];
        assert(writes.skip(1) =~= Seq::<RegisterWrite>::empty());
        assert(self.step(write).accepts_all(writes.skip(1)));
    }

    /// Every write made is kept, in the order made, behind those kept
    /// before.
    pub proof fn lemma_run_keeps_writes(self, writes: Seq<RegisterWrite>)
        ensures
            self.run(writes).writes == self.writes + writes,
        decreases writes.len(),
    {
        if writes.len() == 0 {
            assert(self.writes + writes =~= self.writes);
        } else {
            self.step(writes[0]).lemma_run_keeps_writes(writes.skip(1));
            assert(self.writes.push(writes[0]) + writes.skip(1) =~= self.writes + writes);
        }
    }
}

/// Memory Protection Unit register bank.
///
/// The bank holds what the registers of a unit hold and takes writes as the
/// unit does. It keeps every write in the order made, so that the same
/// writes can be made to the unit itself.
pub struct Mpu {
    /// Type Register
    _type: TypeVal,
    /// Control Register
    ctrl: CtrlVal,
    /// Region Number Register
    rnr: RnrVal,
    /// Region Base Address Register and Region Attribute and Size Register
    /// of each region
    regions: Vec<(RbarVal, RasrVal)>,
    /// The writes made so far
    writes: Vec<RegisterWrite>,
}

impl View for Mpu {
    type V = MpuState;

    closed spec fn view(&self) -> MpuState {
        MpuState { ctrl: self.ctrl, rnr: self.rnr, regions: self.regions@, writes: self.writes@ }
    }
}

impl Mpu {
    /// The value of the type register.
    pub closed spec fn spec_type(&self) -> TypeVal {
        self._type
    }

    /// The bank of a unit whose type register holds `type_val` and whose
    /// control register holds `ctrl`: as many regions as the type register
    /// says, none of them in effect, the first one selected, and no write
    /// made yet.
    pub fn new(type_val: TypeVal, ctrl: CtrlVal) -> (mpu: Self)
        ensures
            mpu.spec_type() == type_val,
            mpu@.ctrl == ctrl,
            mpu@.rnr == RnrVal(0),
            mpu@.regions == Seq::new(
                type_val@.dregion as nat,
                |i: int| (RbarVal(0), RasrVal(0)),
            ),
            mpu@.writes == Seq::<RegisterWrite>::empty(),
    {
        let count: u8 = type_val.dregion();
        let mut regions: Vec<(RbarVal, RasrVal)> = Vec::new();
        let mut i: u8 = 0;
        while i < count
            invariant
                i <= count,
                regions@ == Seq::new(i as nat, |i: int| (RbarVal(0), RasrVal(0))),
            decreases count - i,
        {
            regions.push((RbarVal(0), RasrVal(0)));
            i += 1;
            assert(regions@ =~= Seq::new(i as nat, |i: int| (RbarVal(0), RasrVal(0))));
        }
        Mpu { _type: type_val, ctrl, rnr: RnrVal(0), regions, writes: Vec::new() }
    }

    /// The number of regions that the unit has.
    pub fn num_regions(&self) -> (count: usize)
        ensures
            count == self@.regions.len(),
    {
        self.regions.len()
    }

    /// What the type register holds.
    pub fn read_type(&self) -> (val: TypeVal)
        ensures
            val == self.spec_type(),
    {
        self._type
    }

    /// What the control register holds.
    pub fn read_ctrl(&self) -> (val: CtrlVal)
        ensures
            val == self@.ctrl,
    {
        self.ctrl
    }

    /// What the region number register holds.
    pub fn read_rnr(&self) -> (val: RnrVal)
        ensures
            val == self@.rnr,
    {
        self.rnr
    }

    /// What the base-address register holds: the value of the selected
    /// region, which must be one that the unit has.
    pub fn read_rbar(&self) -> (val: RbarVal)
        requires
            self@.rnr.spec_region() < self@.regions.len(),
        ensures
            val == self@.regions[self@.rnr.spec_region() as int].0,
    {
        self.regions[self.rnr.region() as usize].0
    }

    /// What the attribute-and-size register holds: the value of the selected
    /// region, which must be one that the unit has.
    pub fn read_rasr(&self) -> (val: RasrVal)
        requires
            self@.rnr.spec_region() < self@.regions.len(),
        ensures
            val == self@.regions[self@.rnr.spec_region() as int].1,
    {
        self.regions[self.rnr.region() as usize].1
    }

    /// Write the control register.
    pub fn write_ctrl(&mut self, val: CtrlVal)
        ensures
            final(self)@ == old(self)@.step(
                RegisterWrite { register: Register::Ctrl, value: val.0 },
            ),
            final(self).spec_type() == old(self).spec_type(),
    {
        self.ctrl = val;
        self.writes.push(RegisterWrite { register: Register::Ctrl, value: val.0 });
    }

    /// Write the region number register: select a region.
    pub fn write_rnr(&mut self, val: RnrVal)
        ensures
            final(self)@ == old(self)@.step(
                RegisterWrite { register: Register::Rnr, value: val.0 },
            ),
            final(self).spec_type() == old(self).spec_type(),
    {
        self.rnr = val;
        self.writes.push(RegisterWrite { register: Register::Rnr, value: val.0 });
    }

    /// Write the base-address register. The region that the write goes to
    /// must be one that the unit has.
    pub fn write_rbar(&mut self, val: RbarVal)
        requires
            old(self)@.accepts(RegisterWrite { register: Register::Rbar, value: val.0 }),
        ensures
            final(self)@ == old(self)@.step(
                RegisterWrite { register: Register::Rbar, value: val.0 },
            ),
            final(self).spec_type() == old(self).spec_type(),
    {
        if val.valid() {
            self.rnr = self.rnr.with_region(val.region());
        }
        let target: usize = self.rnr.region() as usize;
        let rasr: RasrVal = self.regions[target].1;
        self.regions.set(target, (val, rasr));
        self.writes.push(RegisterWrite { register: Register::Rbar, value: val.0 });
    }

    /// Write the attribute-and-size register. The selected region must be
    /// one that the unit has.
    pub fn write_rasr(&mut self, val: RasrVal)
        requires
            old(self)@.accepts(RegisterWrite { register: Register::Rasr, value: val.0 }),
        ensures
            final(self)@ == old(self)@.step(
                RegisterWrite { register: Register::Rasr, value: val.0 },
            ),
            final(self).spec_type() == old(self).spec_type(),
    {
        let target: usize = self.rnr.region() as usize;
        let rbar: RbarVal = self.regions[target].0;
        self.regions.set(target, (rbar, val));
        self.writes.push(RegisterWrite { register: Register::Rasr, value: val.0 });
    }

    /// The writes made to the bank so far, the oldest first.
    pub fn writes(&self) -> (writes: &Vec<RegisterWrite>)
        ensures
            writes@ == self@.writes,
    {
        &self.writes
    }
}

} // verus!
