use cortex_m_mpu::memory_config::{MemoryRegion, MemoryRegionType};
use cortex_m_mpu::mpu_v7::RasrAp;
use cortex_m_mpu::protection_v7::{
    AlignedRegion, ConfigError, MpuRegion, MAX_REGION_SIZE, MIN_REGION_SIZE,
};

fn descriptor_of(ty: MemoryRegionType, start: u32, end: u32) -> MpuRegion {
    MpuRegion::from_memory_region(&MemoryRegion::new(ty, start, end)).unwrap()
}

fn region_size(descriptor: &MpuRegion) -> u64 {
    1u64 << (descriptor.rasr.size() + 1)
}

#[test]
fn aligned_16k_data_region() {
    let descriptor = descriptor_of(MemoryRegionType::ReadWriteData, 0x2000_0000, 0x2000_4000);
    assert_eq!(descriptor.rbar.addr(), 0x2000_0000);
    assert_eq!(region_size(&descriptor), 16384);
    assert_eq!(descriptor.rasr.size(), 13);
    assert_eq!(descriptor.rasr.srd(), 0x00);
    assert!(descriptor.rasr.xn());
    assert_eq!(descriptor.rasr.tex(), 0b001);
    assert!(!descriptor.rasr.s());
    assert!(descriptor.rasr.c());
    assert!(descriptor.rasr.b());
    assert_eq!(descriptor.rasr.ap(), RasrAp::RwAny);
    assert!(descriptor.rasr.enable());
    assert!(!descriptor.rbar.valid());
    assert_eq!(descriptor.rbar.0, 0x2000_0000);
    assert_eq!(descriptor.rasr.0, 0x130b_001b);
}

#[test]
fn aligned_256_byte_data_region() {
    let descriptor = descriptor_of(MemoryRegionType::ReadWriteData, 0x2000_0000, 0x2000_0100);
    assert_eq!(descriptor.rbar.addr(), 0x2000_0000);
    assert_eq!(region_size(&descriptor), 256);
    assert_eq!(descriptor.rasr.size(), 7);
    assert_eq!(descriptor.rasr.srd(), 0x00);
    assert_eq!(descriptor.rasr.0, 0x130b_000f);
}

#[test]
fn size_field_is_never_below_the_hardware_minimum() {
    let descriptor = descriptor_of(MemoryRegionType::ReadWriteData, 0x2000_0000, 0x2000_0100);
    assert!(descriptor.rasr.size() >= 4);

    // A request below 32 bytes gets a region of 32 bytes.
    let small = descriptor_of(MemoryRegionType::ReadWriteData, 0x2000_0000, 0x2000_0008);
    assert_eq!(small.rasr.size(), 4);
    assert_eq!(region_size(&small), 32);
    assert_eq!(small.rbar.addr(), 0x2000_0000);
    // Sub-regions of 4 bytes: the first two hold the range.
    assert_eq!(small.rasr.srd(), 0b1111_1100);
}

#[test]
fn range_that_starts_at_a_multiple_of_its_size_gets_its_own_block() {
    // 256 bytes from an address that is a multiple of 256: the block of
    // 256 bytes at that address holds the range, and no larger one is taken.
    let descriptor = descriptor_of(MemoryRegionType::ReadWriteData, 0x2000_0100, 0x2000_0200);
    assert_eq!(descriptor.rbar.addr(), 0x2000_0100);
    assert_eq!(region_size(&descriptor), 256);
    assert_eq!(descriptor.rasr.size(), 7);
    assert_eq!(descriptor.rasr.srd(), 0x00);
}

#[test]
fn range_across_block_boundaries_takes_a_larger_region() {
    // 512 bytes from 0x2000_0100: the block of 512 bytes around the start
    // ends at 0x2000_0200, so the region is the block of 1024 bytes.
    let descriptor = descriptor_of(MemoryRegionType::ReadWriteData, 0x2000_0100, 0x2000_0300);
    assert_eq!(descriptor.rbar.addr(), 0x2000_0000);
    assert_eq!(region_size(&descriptor), 1024);
    assert_eq!(descriptor.rasr.size(), 9);
    // Sub-regions of 128 bytes: 2 to 5 hold the range; 0, 1, 6 and 7 do not.
    assert_eq!(descriptor.rasr.srd(), 0b1100_0011);
}

#[test]
fn flash_region_is_read_only_and_executable() {
    let descriptor = descriptor_of(MemoryRegionType::ReadOnlyExecutable, 0x0000_0000, 0x0002_0000);
    assert_eq!(descriptor.rbar.addr(), 0);
    assert_eq!(region_size(&descriptor), 131072);
    assert_eq!(descriptor.rasr.size(), 16);
    assert_eq!(descriptor.rasr.srd(), 0x00);
    assert!(!descriptor.rasr.xn());
    assert_eq!(descriptor.rasr.ap(), RasrAp::RoAny);
    assert_eq!(descriptor.rasr.0, 0x060f_0021);
}

#[test]
fn kernel_wide_two_gigabyte_region() {
    let descriptor =
        descriptor_of(MemoryRegionType::ReadWriteExecutable, 0x0000_0000, 0x8000_0000);
    assert_eq!(descriptor.rbar.addr(), 0);
    assert_eq!(descriptor.rasr.size(), 30);
    assert_eq!(descriptor.rasr.srd(), 0x00);
    assert_eq!(descriptor.rbar.0, 0);
    assert_eq!(descriptor.rasr.0, 0x030f_003d);
}

#[test]
fn upper_two_gigabytes_are_a_region_too() {
    let descriptor = descriptor_of(MemoryRegionType::Device, 0x8000_0000, 0xffff_ffff);
    assert_eq!(descriptor.rbar.addr(), 0x8000_0000);
    assert_eq!(descriptor.rasr.size(), 30);
    assert_eq!(descriptor.rasr.srd(), 0x00);
}

#[test]
fn attributes_follow_the_region_type() {
    let cases = [
        (MemoryRegionType::ReadOnlyData, true, 0b001u8, true, true, true, RasrAp::RoAny),
        (MemoryRegionType::ReadWriteData, true, 0b001, false, true, true, RasrAp::RwAny),
        (MemoryRegionType::ReadOnlyExecutable, false, 0b001, true, true, true, RasrAp::RoAny),
        (MemoryRegionType::ReadWriteExecutable, false, 0b001, true, true, true, RasrAp::RwAny),
        (MemoryRegionType::Device, true, 0b000, true, false, true, RasrAp::RoAny),
    ];
    for (ty, xn, tex, s, c, b, ap) in cases {
        for (start, end) in [(0x2000_0000u32, 0x2000_4000u32), (0x0800_0040, 0x0800_1234)] {
            let descriptor = descriptor_of(ty, start, end);
            assert_eq!(descriptor.rasr.xn(), xn);
            assert_eq!(descriptor.rasr.tex(), tex);
            assert_eq!(descriptor.rasr.s(), s);
            assert_eq!(descriptor.rasr.c(), c);
            assert_eq!(descriptor.rasr.b(), b);
            assert_eq!(descriptor.rasr.ap(), ap);
            assert!(descriptor.rasr.enable());
        }
    }
}

#[test]
fn range_across_2g_is_too_large() {
    let region = MemoryRegion::new(MemoryRegionType::ReadWriteData, 0x7fff_fff0, 0x8000_0010);
    assert_eq!(MpuRegion::from_memory_region(&region), Err(ConfigError::RegionTooLarge));
}

#[test]
fn range_of_more_than_2g_is_too_large() {
    let region = MemoryRegion::new(MemoryRegionType::ReadWriteExecutable, 0, 0x8000_0001);
    assert_eq!(MpuRegion::from_memory_region(&region), Err(ConfigError::RegionTooLarge));
    let whole = MemoryRegion::new(MemoryRegionType::ReadWriteExecutable, 0, 0xffff_ffff);
    assert_eq!(MpuRegion::from_memory_region(&whole), Err(ConfigError::RegionTooLarge));
    assert_eq!(
        MpuRegion::calculate_aligned_region(0, 0xffff_ffff),
        Err(ConfigError::RegionTooLarge)
    );
}

#[test]
fn range_up_to_2g_boundary_is_accepted() {
    let below = MpuRegion::calculate_aligned_region(0x7fff_fff0, 0x8000_0000).unwrap();
    assert_eq!(below, AlignedRegion { base: 0x7fff_ffe0, size_field: 4, srd_mask: 0b0000_1111 });
    let above = MpuRegion::calculate_aligned_region(0x8000_0000, 0x8000_0010).unwrap();
    assert_eq!(above, AlignedRegion { base: 0x8000_0000, size_field: 4, srd_mask: 0b1111_0000 });
}

#[test]
fn size_field_is_one_less_than_the_binary_logarithm() {
    assert_eq!(MpuRegion::calculate_size_field(32), 4);
    assert_eq!(MpuRegion::calculate_size_field(64), 5);
    assert_eq!(MpuRegion::calculate_size_field(256), 7);
    assert_eq!(MpuRegion::calculate_size_field(512), 8);
    assert_eq!(MpuRegion::calculate_size_field(16384), 13);
    assert_eq!(MpuRegion::calculate_size_field(131072), 16);
    assert_eq!(MpuRegion::calculate_size_field(0x8000_0000), 30);
    // Rounded down between powers of two.
    assert_eq!(MpuRegion::calculate_size_field(100), 5);
    assert_eq!(MpuRegion::calculate_size_field(u32::MAX), 30);
    // Never below 4.
    assert_eq!(MpuRegion::calculate_size_field(0), 4);
    assert_eq!(MpuRegion::calculate_size_field(1), 4);
    assert_eq!(MpuRegion::calculate_size_field(16), 4);
    assert_eq!(MpuRegion::calculate_size_field(31), 4);
}

#[test]
fn region_size_limits() {
    assert_eq!(MIN_REGION_SIZE, 32);
    assert_eq!(MAX_REGION_SIZE, 0x8000_0000);
}

const SAMPLE_RANGES: [(u32, u32); 12] = [
    (0x2000_0000, 0x2000_4000),
    (0x2000_0100, 0x2000_0200),
    (0x2000_0100, 0x2000_0300),
    (0x2000_0110, 0x2000_02f0),
    (0x0000_0000, 0x8000_0000),
    (0x0000_0001, 0x0000_0002),
    (0x1fff_fff0, 0x2000_0010),
    (0x0800_0040, 0x0800_1234),
    (0xffff_ff00, 0xffff_ffff),
    (0x8000_0000, 0xffff_ffff),
    (0x3fff_ffff, 0x4000_0001),
    (0x0000_0020, 0x0000_0021),
];

#[test]
fn region_is_aligned_and_holds_the_range() {
    for (start, end) in SAMPLE_RANGES {
        let aligned = MpuRegion::calculate_aligned_region(start, end).unwrap();
        let size = 1u64 << (aligned.size_field + 1);
        assert_eq!(aligned.base as u64 % size, 0);
        assert!(aligned.base <= start);
        assert!(aligned.base as u64 + size >= end as u64);
    }
}

#[test]
fn region_size_is_a_legal_power_of_two() {
    for (start, end) in SAMPLE_RANGES {
        let aligned = MpuRegion::calculate_aligned_region(start, end).unwrap();
        assert!((4..=30).contains(&aligned.size_field));
        let size = 1u64 << (aligned.size_field + 1);
        assert!(size.is_power_of_two());
        assert!((32..=0x8000_0000).contains(&size));
        assert_eq!(MpuRegion::calculate_size_field(size as u32), aligned.size_field);
    }
}

#[test]
fn region_is_the_smallest_that_holds_the_range() {
    for (start, end) in SAMPLE_RANGES {
        let aligned = MpuRegion::calculate_aligned_region(start, end).unwrap();
        for smaller in 4..aligned.size_field {
            let size = 1u64 << (smaller + 1);
            let base = start as u64 - start as u64 % size;
            assert!(base + size < end as u64);
        }
    }
}

#[test]
fn subregion_is_disabled_iff_it_misses_the_range() {
    for (start, end) in SAMPLE_RANGES {
        let aligned = MpuRegion::calculate_aligned_region(start, end).unwrap();
        let stride = (1u64 << (aligned.size_field + 1)) / 8;
        for index in 0..8u64 {
            let sub_start = aligned.base as u64 + index * stride;
            let sub_end = sub_start + stride;
            let overlaps = sub_start < end as u64 && sub_end > start as u64;
            let disabled = (aligned.srd_mask >> index) & 1 == 1;
            assert_eq!(disabled, !overlaps);
        }
    }
}

#[test]
fn some_subregion_is_enabled_for_a_range_that_holds_an_address() {
    for (start, end) in SAMPLE_RANGES {
        let aligned = MpuRegion::calculate_aligned_region(start, end).unwrap();
        assert_ne!(aligned.srd_mask, 0xff);
    }
}

#[test]
fn empty_range_may_leave_no_subregion_enabled() {
    // No address lies in an empty range, so no sub-region shares one with it
    // where the range sits on a sub-region boundary.
    let aligned = MpuRegion::calculate_aligned_region(0x2000_0000, 0x2000_0000).unwrap();
    assert_eq!(aligned, AlignedRegion { base: 0x2000_0000, size_field: 4, srd_mask: 0xff });
    // Inside a sub-region, that sub-region stays enabled.
    let inside = MpuRegion::calculate_aligned_region(0x2000_0002, 0x2000_0002).unwrap();
    assert_eq!(inside, AlignedRegion { base: 0x2000_0000, size_field: 4, srd_mask: 0xfe });
}

#[test]
fn enabled_subregions_reach_less_than_one_subregion_beyond_the_range() {
    // [0x2000_0110, 0x2000_02f0) in a region of 1024 bytes: sub-regions of
    // 128 bytes. Sub-region 2 starts 16 bytes below the range, sub-region 5
    // ends 16 bytes beyond it.
    let (start, end) = (0x2000_0110u32, 0x2000_02f0u32);
    let aligned = MpuRegion::calculate_aligned_region(start, end).unwrap();
    assert_eq!(aligned, AlignedRegion { base: 0x2000_0000, size_field: 9, srd_mask: 0b1100_0011 });
    let stride = 128u32;
    let first_enabled = aligned.base + 2 * stride;
    let end_enabled = aligned.base + 6 * stride;
    assert_eq!(first_enabled, 0x2000_0100);
    assert_eq!(end_enabled, 0x2000_0300);
    assert!(start - first_enabled < stride);
    assert!(end_enabled - end < stride);
}

#[test]
fn same_region_gives_identical_descriptors() {
    for (start, end) in SAMPLE_RANGES {
        let region = MemoryRegion::new(MemoryRegionType::ReadOnlyData, start, end);
        let first = MpuRegion::from_memory_region(&region).unwrap();
        let second = MpuRegion::from_memory_region(&region).unwrap();
        assert_eq!(first, second);
        assert_eq!(first.rbar.0, second.rbar.0);
        assert_eq!(first.rasr.0, second.rasr.0);
    }
}

#[test]
fn default_descriptor_is_not_in_effect() {
    let descriptor = MpuRegion::const_default();
    assert_eq!(descriptor.rbar.0, 0);
    assert_eq!(descriptor.rasr.0, 0);
    assert!(!descriptor.rasr.enable());
}
