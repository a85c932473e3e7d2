use cortex_m_mpu::memory_config::{MemoryRegion, MemoryRegionType};
use cortex_m_mpu::mpu::{
    CtrlVal, Mpu, Register, RegisterWrite, RnrVal, TypeVal, CTRL_ADDRESS, RASR_ADDRESS,
    RBAR_ADDRESS, RNR_ADDRESS, TYPE_ADDRESS,
};
use cortex_m_mpu::mpu_v7::{RasrVal, RbarVal};
use cortex_m_mpu::protection_v7::{MemoryConfig, MpuRegion, NUM_MPU_REGIONS};

fn unit(regions: u32, ctrl: u32) -> Mpu {
    Mpu::new(TypeVal(regions << 8), CtrlVal(ctrl))
}

fn sample_config() -> MemoryConfig {
    let regions = vec![
        MemoryRegion::new(MemoryRegionType::ReadOnlyExecutable, 0x0000_0000, 0x0002_0000),
        MemoryRegion::new(MemoryRegionType::ReadWriteData, 0x2000_0000, 0x2000_4000),
        MemoryRegion::new(MemoryRegionType::ReadWriteData, 0x2000_4100, 0x2000_4300),
    ];
    MemoryConfig::const_new(Box::leak(regions.into_boxed_slice())).ok().unwrap()
}

fn region_values(mpu: &mut Mpu, index: u8) -> (u32, u32) {
    mpu.write_rnr(RnrVal::default().with_region(index));
    (mpu.read_rbar().0, mpu.read_rasr().0)
}

#[test]
fn register_addresses() {
    assert_eq!(TYPE_ADDRESS, 0xe000_ed90);
    assert_eq!(CTRL_ADDRESS, 0xe000_ed94);
    assert_eq!(RNR_ADDRESS, 0xe000_ed98);
    assert_eq!(RBAR_ADDRESS, 0xe000_ed9c);
    assert_eq!(RASR_ADDRESS, 0xe000_eda0);
    assert_eq!(Register::Ctrl.address(), 0xe000_ed94);
    assert_eq!(Register::Rnr.address(), 0xe000_ed98);
    assert_eq!(Register::Rbar.address(), 0xe000_ed9c);
    assert_eq!(Register::Rasr.address(), 0xe000_eda0);
}

#[test]
fn new_bank_has_the_regions_of_its_type_register() {
    let mut mpu = unit(8, 0x5);
    assert_eq!(mpu.num_regions(), 8);
    assert_eq!(mpu.read_type(), TypeVal(0x800));
    assert_eq!(mpu.read_ctrl(), CtrlVal(0x5));
    assert_eq!(mpu.read_rnr(), RnrVal(0));
    assert!(mpu.writes().is_empty());
    for index in 0..8 {
        assert_eq!(region_values(&mut mpu, index), (0, 0));
    }
    assert_eq!(unit(16, 0).num_regions(), 16);
    assert_eq!(unit(0, 0).num_regions(), 0);
}

#[test]
fn region_registers_are_a_window_on_the_selected_region() {
    let mut mpu = unit(8, 0);
    mpu.write_rnr(RnrVal(3));
    mpu.write_rbar(RbarVal(0x2000_0000));
    mpu.write_rasr(RasrVal(0x130b_001b));
    mpu.write_rnr(RnrVal(4));
    assert_eq!(mpu.read_rbar(), RbarVal(0));
    assert_eq!(mpu.read_rasr(), RasrVal(0));
    mpu.write_rnr(RnrVal(3));
    assert_eq!(mpu.read_rbar(), RbarVal(0x2000_0000));
    assert_eq!(mpu.read_rasr(), RasrVal(0x130b_001b));
}

#[test]
fn base_address_write_with_valid_bit_selects_its_region() {
    let mut mpu = unit(8, 0);
    mpu.write_rnr(RnrVal(1));
    let value = RbarVal::const_default().with_addr(0x1000_0000).with_valid(true).with_region(5);
    mpu.write_rbar(value);
    assert_eq!(mpu.read_rnr().region(), 5);
    assert_eq!(mpu.read_rbar(), value);
    mpu.write_rnr(RnrVal(1));
    assert_eq!(mpu.read_rbar(), RbarVal(0));
}

#[test]
fn descriptor_write_selects_then_writes_base_then_attributes() {
    let mut mpu = unit(8, 0);
    let descriptor = MpuRegion { rbar: RbarVal(0x2000_0000), rasr: RasrVal(0x130b_001b) };
    descriptor.write(&mut mpu, 6);
    assert_eq!(
        *mpu.writes(),
        vec![
            RegisterWrite { register: Register::Rnr, value: 6 },
            RegisterWrite { register: Register::Rbar, value: 0x2000_0000 },
            RegisterWrite { register: Register::Rasr, value: 0x130b_001b },
        ]
    );
    assert_eq!(mpu.read_rnr().region(), 6);
    assert_eq!(mpu.read_rbar(), RbarVal(0x2000_0000));
    assert_eq!(mpu.read_rasr(), RasrVal(0x130b_001b));
    assert_eq!(mpu.read_ctrl(), CtrlVal(0));
    for index in 0..6 {
        assert_eq!(region_values(&mut mpu, index), (0, 0));
    }
    assert_eq!(region_values(&mut mpu, 7), (0, 0));
}

#[test]
fn descriptor_with_valid_bit_goes_to_the_region_that_it_names() {
    let mut mpu = unit(8, 0);
    let rbar = RbarVal::const_default().with_addr(0x2000_0000).with_valid(true).with_region(5);
    let descriptor = MpuRegion { rbar, rasr: RasrVal(0x130b_001b) };
    descriptor.write(&mut mpu, 2);
    assert_eq!(mpu.read_rnr().region(), 5);
    assert_eq!(region_values(&mut mpu, 5), (rbar.0, 0x130b_001b));
    assert_eq!(region_values(&mut mpu, 2), (0, 0));
}

#[test]
fn written_configuration_is_what_the_unit_holds() {
    let config = sample_config();
    let mut mpu = unit(8, 0);
    config.write(&mut mpu);
    let ctrl = mpu.read_ctrl();
    assert!(ctrl.enable());
    assert!(ctrl.privdefena());
    assert!(!ctrl.hfnmiena());
    assert_eq!(ctrl.0, 0b101);
    for (index, rbar, rasr) in config.dump() {
        assert_eq!(region_values(&mut mpu, index as u8), (rbar, rasr));
    }
}

#[test]
fn writing_keeps_the_other_bits_of_the_control_register() {
    let config = sample_config();
    let mut mpu = unit(8, 0xffff_fff2);
    config.write(&mut mpu);
    assert_eq!(mpu.read_ctrl().0, 0xffff_fff5);
}

#[test]
fn unit_is_out_of_effect_while_its_regions_are_written() {
    let config = sample_config();
    let mut mpu = unit(8, 0b011);
    config.write(&mut mpu);
    let writes = mpu.writes();
    assert_eq!(writes.len(), 2 + 3 * NUM_MPU_REGIONS);
    assert_eq!(writes[0], RegisterWrite { register: Register::Ctrl, value: 0b100 });
    assert_eq!(*writes.last().unwrap(), RegisterWrite { register: Register::Ctrl, value: 0b101 });
    let lines = config.dump();
    for (i, chunk) in writes[1..writes.len() - 1].chunks(3).enumerate() {
        assert_eq!(chunk[0], RegisterWrite { register: Register::Rnr, value: i as u32 });
        assert_eq!(chunk[1], RegisterWrite { register: Register::Rbar, value: lines[i].1 });
        assert_eq!(chunk[2], RegisterWrite { register: Register::Rasr, value: lines[i].2 });
    }
}

#[test]
fn regions_beyond_the_configuration_are_left_alone() {
    let config = sample_config();
    let mut mpu = unit(16, 0);
    mpu.write_rnr(RnrVal(12));
    mpu.write_rbar(RbarVal(0x6000_0000));
    mpu.write_rasr(RasrVal(0x0300_0013));
    config.write(&mut mpu);
    assert_eq!(region_values(&mut mpu, 12), (0x6000_0000, 0x0300_0013));
    assert_eq!(region_values(&mut mpu, 8), (0, 0));
}

#[test]
fn writing_twice_leaves_the_unit_as_writing_once() {
    let config = sample_config();
    let mut once = unit(8, 0x2);
    config.write(&mut once);
    let mut twice = unit(8, 0x2);
    config.write(&mut twice);
    config.write(&mut twice);
    assert_eq!(once.read_ctrl(), twice.read_ctrl());
    assert_eq!(once.read_rnr(), twice.read_rnr());
    for index in 0..8 {
        assert_eq!(region_values(&mut once, index), region_values(&mut twice, index));
    }
}

#[test]
fn another_configuration_replaces_every_region() {
    let first = sample_config();
    let second = MemoryConfig::kernel_thread_memory_config();
    let mut mpu = unit(8, 0);
    first.write(&mut mpu);
    second.write(&mut mpu);
    for (index, rbar, rasr) in second.dump() {
        assert_eq!(region_values(&mut mpu, index as u8), (rbar, rasr));
    }
}

#[test]
fn what_the_access_check_permits_the_unit_permits() {
    let regions = vec![
        MemoryRegion::new(MemoryRegionType::ReadOnlyExecutable, 0x0000_0000, 0x0002_0000),
        MemoryRegion::new(MemoryRegionType::ReadWriteData, 0x2000_0000, 0x2000_4000),
        MemoryRegion::new(MemoryRegionType::ReadWriteData, 0x2000_4110, 0x2000_42f0),
    ];
    let config =
        MemoryConfig::const_new(Box::leak(regions.clone().into_boxed_slice())).ok().unwrap();
    let mut mpu = unit(8, 0);
    config.write(&mut mpu);
    let probes = [
        (MemoryRegionType::ReadOnlyData, 0x0000_0100u32, 0x0000_0140u32),
        (MemoryRegionType::ReadOnlyExecutable, 0x0001_ffc0, 0x0002_0000),
        (MemoryRegionType::ReadWriteData, 0x2000_0000, 0x2000_0040),
        (MemoryRegionType::ReadWriteData, 0x2000_4110, 0x2000_4150),
        (MemoryRegionType::ReadOnlyData, 0x2000_42e0, 0x2000_42f0),
    ];
    for (ty, start, end) in probes {
        assert!(config.range_has_access(ty, start, end));
        for addr in start..end {
            let enabled = (0..regions.len()).any(|i| {
                let (rbar, rasr) = region_values(&mut mpu, i as u8);
                let (rbar, rasr) = (RbarVal(rbar), RasrVal(rasr));
                let size = 1u64 << (rasr.size() + 1);
                let stride = size / 8;
                let offset = (addr as u64).wrapping_sub(rbar.addr() as u64);
                rasr.enable()
                    && regions[i].ty.has_access(ty)
                    && offset < size
                    && (rasr.srd() >> (offset / stride)) & 1 == 0
            });
            assert!(enabled, "{:#x}", addr);
        }
    }
}
