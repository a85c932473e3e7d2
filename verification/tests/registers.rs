use cortex_m_mpu::mpu::{CtrlVal, RnrVal, TypeVal, ADDR_MASK};
use cortex_m_mpu::mpu_v7::{RasrAp, RasrTexScb, RasrVal, RbarVal};
use cortex_m_mpu::mpu_v8::{
    Mair0Val, Mair1Val, MairAttr, MairDeviceMemoryOrdering, MairNormalMemoryCaching, RbarAp,
    RbarSh, RlarVal,
};
use cortex_m_mpu::ops::{
    get_bool_u32, get_masked_u32, get_u32, mask_u32, set_bool_u32, set_masked_u32, set_u32,
};

#[test]
fn mask_has_the_bits_of_the_field() {
    assert_eq!(mask_u32(0, 0), 0x0000_0001);
    assert_eq!(mask_u32(1, 5), 0x0000_003e);
    assert_eq!(mask_u32(8, 15), 0x0000_ff00);
    assert_eq!(mask_u32(5, 31), 0xffff_ffe0);
    assert_eq!(mask_u32(31, 31), 0x8000_0000);
    assert_eq!(mask_u32(0, 31), 0xffff_ffff);
}

#[test]
fn field_is_read_from_its_position() {
    assert_eq!(get_u32(0x1234_5678, 0, 3), 0x8);
    assert_eq!(get_u32(0x1234_5678, 4, 11), 0x67);
    assert_eq!(get_u32(0x1234_5678, 28, 31), 0x1);
    assert_eq!(get_u32(0x1234_5678, 0, 31), 0x1234_5678);
    assert!(get_bool_u32(0x0000_0010, 4));
    assert!(!get_bool_u32(0xffff_ffef, 4));
    assert_eq!(get_masked_u32(0x1234_5678, 0xffff_ffe0), 0x1234_5660);
}

#[test]
fn field_is_written_at_its_position_and_cut_to_its_width() {
    assert_eq!(set_u32(0, 1, 5, 13), 26);
    assert_eq!(set_u32(0xffff_ffff, 8, 15, 0), 0xffff_00ff);
    assert_eq!(set_u32(0xffff_ffff, 8, 15, 0x1a5), 0xffff_a5ff);
    assert_eq!(set_u32(0, 19, 21, 0xf), 0x0038_0000);
    assert_eq!(set_u32(0x1234_5678, 0, 31, 0x9abc_def0), 0x9abc_def0);
    assert_eq!(set_bool_u32(0, 28, true), 0x1000_0000);
    assert_eq!(set_bool_u32(0xffff_ffff, 28, false), 0xefff_ffff);
    assert_eq!(set_masked_u32(0x0000_001f, 0xffff_ffe0, 0x2000_0123), 0x2000_013f);
}

#[test]
fn written_field_is_read_back_and_leaves_the_others() {
    let fields = [(0u32, 0u32), (1, 5), (8, 15), (16, 16), (19, 21), (24, 26), (28, 28)];
    for word in [0u32, 0xffff_ffff, 0x1234_5678, 0xa5a5_5a5a] {
        for (start, end) in fields {
            let max = mask_u32(start, end) >> start;
            for value in [0u32, 1, 5, 0x7f, 0xffff_ffff] {
                let updated = set_u32(word, start, end, value);
                assert_eq!(get_u32(updated, start, end), value & max);
                for (other_start, other_end) in fields {
                    if (other_start, other_end) != (start, end) {
                        assert_eq!(
                            get_u32(updated, other_start, other_end),
                            get_u32(word, other_start, other_end)
                        );
                    }
                }
            }
        }
    }
}

#[test]
fn type_register_fields() {
    let value = TypeVal(0x0000_0801);
    assert!(value.separate());
    assert_eq!(value.dregion(), 8);
    let none = TypeVal(0xffff_00fe);
    assert!(!none.separate());
    assert_eq!(none.dregion(), 0);
}

#[test]
fn control_register_fields() {
    let value = CtrlVal(0).with_enable(true).with_privdefena(true);
    assert_eq!(value.0, 0b101);
    assert!(value.enable());
    assert!(!value.hfnmiena());
    assert!(value.privdefena());
    let value = value.with_hfnmiena(true).with_enable(false);
    assert_eq!(value.0, 0b110);
    assert_eq!(CtrlVal(0xffff_ffff).with_privdefena(false).0, 0xffff_fffb);
}

#[test]
fn region_number_register_field() {
    assert_eq!(RnrVal::default(), RnrVal(0));
    assert_eq!(RnrVal::default().with_region(7).0, 7);
    assert_eq!(RnrVal(0xffff_ff00).with_region(0xa5).0, 0xffff_ffa5);
    assert_eq!(RnrVal(0x1234_5678).region(), 0x78);
}

#[test]
fn v7_base_address_fields() {
    assert_eq!(ADDR_MASK, 0xffff_ffe0);
    assert_eq!(RbarVal::const_default(), RbarVal(0));
    assert_eq!(RbarVal::default(), RbarVal(0));
    let value = RbarVal::const_default().with_valid(true).with_region(5).with_addr(0x2000_0100);
    assert_eq!(value.0, 0x2000_0115);
    assert!(value.valid());
    assert_eq!(value.region(), 5);
    assert_eq!(value.addr(), 0x2000_0100);
    // The low five bits of an address are not part of the field.
    assert_eq!(RbarVal(0).with_addr(0x2000_011f).0, 0x2000_0100);
    // A region number is cut to four bits.
    assert_eq!(RbarVal(0).with_region(0x1f).0, 0xf);
    assert_eq!(value.with_valid(false).0, 0x2000_0105);
}

#[test]
fn v7_access_permission_encoding() {
    let all = [
        (RasrAp::NoAccess, 0b000u8),
        (RasrAp::RwPrivileged, 0b001),
        (RasrAp::RoPrivileged, 0b010),
        (RasrAp::RwAny, 0b011),
        (RasrAp::Reserved1, 0b100),
        (RasrAp::RoPrivileged2, 0b101),
        (RasrAp::RoAny, 0b110),
        (RasrAp::RoAny2, 0b111),
    ];
    for (ap, bits) in all {
        assert_eq!(ap.bits(), bits);
        assert_eq!(RasrAp::from_bits(bits), ap);
        // Only the low three bits count.
        assert_eq!(RasrAp::from_bits(bits | 0xf8), ap);
        assert_eq!(RasrVal(0).with_ap(ap).0, (bits as u32) << 24);
        assert_eq!(RasrVal((bits as u32) << 24).ap(), ap);
    }
}

#[test]
fn v7_memory_type_encoding() {
    assert_eq!(RasrTexScb::StronglyOrdered.bits(), 0b00000);
    assert_eq!(RasrTexScb::Device.bits(), 0b00001);
    assert_eq!(RasrTexScb::NormalWriteThrough.bits(), 0b00010);
    assert_eq!(RasrTexScb::NormalWriteBack.bits(), 0b00011);
    assert_eq!(RasrTexScb::NormalNonCacheable.bits(), 0b01000);
    assert_eq!(RasrTexScb::NormalWriteBackAllocate.bits(), 0b01011);
    assert_eq!(RasrTexScb::DeviceNonShareable.bits(), 0b10000);
}

#[test]
fn v7_attribute_and_size_fields() {
    assert_eq!(RasrVal::const_default(), RasrVal(0));
    assert_eq!(RasrVal::default(), RasrVal(0));
    assert_eq!(RasrVal(0).with_enable(true).0, 0x0000_0001);
    assert_eq!(RasrVal(0).with_size(0x1f).0, 0x0000_003e);
    assert_eq!(RasrVal(0).with_srd(0xff).0, 0x0000_ff00);
    assert_eq!(RasrVal(0).with_b(true).0, 0x0001_0000);
    assert_eq!(RasrVal(0).with_c(true).0, 0x0002_0000);
    assert_eq!(RasrVal(0).with_s(true).0, 0x0004_0000);
    assert_eq!(RasrVal(0).with_tex(0b111).0, 0x0038_0000);
    assert_eq!(RasrVal(0).with_ap(RasrAp::RoAny2).0, 0x0700_0000);
    assert_eq!(RasrVal(0).with_xn(true).0, 0x1000_0000);
    // Values that do not fit are cut to the field's width.
    assert_eq!(RasrVal(0).with_size(0x2d).size(), 0x0d);
    assert_eq!(RasrVal(0).with_tex(0x9).tex(), 0x1);

    let value = RasrVal(0xffff_ffff).with_size(13).with_srd(0xc3).with_s(false).with_tex(1);
    assert_eq!(value.0, 0xffcb_c3db);
    assert!(value.enable());
    assert_eq!(value.size(), 13);
    assert_eq!(value.srd(), 0xc3);
    assert!(value.b());
    assert!(value.c());
    assert!(!value.s());
    assert_eq!(value.tex(), 1);
    assert_eq!(value.ap(), RasrAp::RoAny2);
    assert!(value.xn());
}

#[test]
fn v8_access_permission_and_shareability_encoding() {
    let permissions = [
        (RbarAp::RwPrivileged, 0b00u8),
        (RbarAp::RwAny, 0b01),
        (RbarAp::RoPrivileged, 0b10),
        (RbarAp::RoAny, 0b11),
    ];
    for (ap, bits) in permissions {
        assert_eq!(ap.bits(), bits);
        assert_eq!(RbarAp::from_bits(bits), ap);
        assert_eq!(RbarAp::from_bits(bits | 0xfc), ap);
    }
    let shareabilities = [
        (RbarSh::NonShareable, 0b00u8),
        (RbarSh::Reserved, 0b01),
        (RbarSh::OuterShareable, 0b10),
        (RbarSh::InnerShareable, 0b11),
    ];
    for (sh, bits) in shareabilities {
        assert_eq!(sh.bits(), bits);
        assert_eq!(RbarSh::from_bits(bits), sh);
        assert_eq!(RbarSh::from_bits(bits | 0xfc), sh);
    }
}

#[test]
fn v8_base_address_fields() {
    assert_eq!(cortex_m_mpu::mpu_v8::RbarVal::const_default(), cortex_m_mpu::mpu_v8::RbarVal(0));
    let value = cortex_m_mpu::mpu_v8::RbarVal::const_default()
        .with_xn(true)
        .with_ap(RbarAp::RoAny)
        .with_sh(RbarSh::OuterShareable)
        .with_base(0x2000_4000);
    assert_eq!(value.0, 0x2000_4017);
    assert!(value.xn());
    assert_eq!(value.ap(), RbarAp::RoAny);
    assert_eq!(value.sh(), RbarSh::OuterShareable);
    assert_eq!(value.base(), 0x2000_4000);
    assert_eq!(value.with_ap(RbarAp::RwPrivileged).0, 0x2000_4011);
    assert_eq!(value.with_base(0xffff_ffff).0, 0xffff_fff7);
}

#[test]
fn v8_register_addresses() {
    assert_eq!(cortex_m_mpu::mpu_v8::RBAR_ADDRESS, 0xe000_ed9c);
    assert_eq!(cortex_m_mpu::mpu_v8::RLAR_ADDRESS, 0xe000_eda0);
    assert_eq!(cortex_m_mpu::mpu_v8::MAIR0_ADDRESS, 0xe000_edc0);
    assert_eq!(cortex_m_mpu::mpu_v8::MAIR1_ADDRESS, 0xe000_edc4);
}

#[test]
fn v8_limit_address_fields() {
    assert_eq!(RlarVal::const_default(), RlarVal(0));
    let value = RlarVal::const_default()
        .with_en(true)
        .with_attrindx(5)
        .with_pxn(true)
        .with_limit(0x2000_7fe0);
    assert_eq!(value.0, 0x2000_7ffb);
    assert!(value.en());
    assert_eq!(value.attrindx(), 5);
    assert!(value.pxn());
    assert_eq!(value.limit(), 0x2000_7fe0);
    assert_eq!(RlarVal(0).with_attrindx(0xf).0, 0xe);
}

#[test]
fn v8_memory_attributes() {
    assert_eq!(MairAttr::device_memory(MairDeviceMemoryOrdering::nGnRnE).0, 0b0000_0000);
    assert_eq!(MairAttr::device_memory(MairDeviceMemoryOrdering::nGnRE).0, 0b0000_0100);
    assert_eq!(MairAttr::device_memory(MairDeviceMemoryOrdering::nGRE).0, 0b0000_1000);
    assert_eq!(MairAttr::device_memory(MairDeviceMemoryOrdering::GRE).0, 0b0000_1100);
    assert_eq!(
        MairAttr::normal_memory(
            MairNormalMemoryCaching::WriteBackNonTransientRW,
            MairNormalMemoryCaching::NonCacheable,
        )
        .0,
        0x4f
    );
    assert_eq!(
        MairAttr::normal_memory(
            MairNormalMemoryCaching::WriteThroughTransientWO,
            MairNormalMemoryCaching::WriteBackNonTransientRO,
        )
        .0,
        0xe1
    );
    let codes = [
        (MairNormalMemoryCaching::WriteThroughTransientWO, 0b0001u8),
        (MairNormalMemoryCaching::WriteThroughTransientRO, 0b0010),
        (MairNormalMemoryCaching::WriteThroughTransientRW, 0b0011),
        (MairNormalMemoryCaching::NonCacheable, 0b0100),
        (MairNormalMemoryCaching::WriteBackTransientWO, 0b0101),
        (MairNormalMemoryCaching::WriteBackTransientRO, 0b0110),
        (MairNormalMemoryCaching::WriteBackTransientRW, 0b0111),
        (MairNormalMemoryCaching::WriteThroughNonTransientWO, 0b1001),
        (MairNormalMemoryCaching::WriteThroughNonTransientRO, 0b1010),
        (MairNormalMemoryCaching::WriteThroughNonTransientRW, 0b1011),
        (MairNormalMemoryCaching::WriteBackNonTransientWO, 0b1101),
        (MairNormalMemoryCaching::WriteBackNonTransientRO, 0b1110),
        (MairNormalMemoryCaching::WriteBackNonTransientRW, 0b1111),
    ];
    for (caching, bits) in codes {
        assert_eq!(caching.bits(), bits);
    }
}

#[test]
fn v8_attribute_indirection_fields() {
    let mut first = Mair0Val::default();
    assert_eq!(first, Mair0Val(0));
    let updated = first.with_attr1(MairAttr(0x4f));
    // The update is returned; the value it was made from stays as it was.
    assert_eq!(first, Mair0Val(0));
    assert_eq!(updated.0, 0x0000_4f00);
    let mut updated = updated;
    let mut updated = updated.with_attr0(MairAttr(0x04));
    let mut updated = updated.with_attr3(MairAttr(0xff));
    let updated = updated.with_attr2(MairAttr(0x12));
    assert_eq!(updated.0, 0xff12_4f04);
    assert_eq!(updated.attr0(), 0x04);
    assert_eq!(updated.attr1(), 0x4f);
    assert_eq!(updated.attr2(), 0x12);
    assert_eq!(updated.attr3(), 0xff);

    let mut second = Mair1Val(0x1122_3344);
    assert_eq!(second.attr4(), 0x44);
    assert_eq!(second.attr5(), 0x33);
    assert_eq!(second.attr6(), 0x22);
    assert_eq!(second.attr7(), 0x11);
    assert_eq!(second.with_attr4(MairAttr(0xaa)).0, 0x1122_33aa);
    assert_eq!(second.with_attr5(MairAttr(0xaa)).0, 0x1122_aa44);
    assert_eq!(second.with_attr6(MairAttr(0xaa)).0, 0x11aa_3344);
    assert_eq!(second.with_attr7(MairAttr(0xaa)).0, 0xaa22_3344);
}
