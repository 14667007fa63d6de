//! The interrupt route of the RP1.

use axiomos::platform::memory_map::{BCM2712_MIP0_BASE_PHYS, RP1_PERIPHERAL_BASE_PHYS};
use axiomos::platform::rp1_irq::{
    mip_window, outbound_window, MIP_MESSAGE_ADDRESS, RP1_OUTBOUND_SIZE_MIB,
};

#[test]
fn outbound_window_encodes_nine_mib_at_rp1_aperture() {
    let base_mib = (RP1_PERIPHERAL_BASE_PHYS >> 20) as u32;
    let limit_mib = base_mib + RP1_OUTBOUND_SIZE_MIB - 1;
    let encoded = ((base_mib & 0xFFF) << 4) | ((limit_mib & 0xFFF) << 20);
    assert_eq!(base_mib, 0x1F000);
    assert_eq!(limit_mib, 0x1F008);
    assert_eq!(encoded, 0x0080_0000);
    let window = outbound_window();
    assert_eq!(window.base_mib, 0x1F000);
    assert_eq!(window.limit_mib, 0x1F008);
    assert_eq!(window.base_limit, 0x0080_0000);
}

#[test]
fn mip_window_encoding_matches_bcm2712_register_format() {
    assert_eq!(
        (MIP_MESSAGE_ADDRESS as u32 & 0xFFFF_F000) | 0x1C,
        0xFFFF_F01C
    );
    assert_eq!((MIP_MESSAGE_ADDRESS >> 32) as u32, 0xFF);
    assert_eq!(
        (BCM2712_MIP0_BASE_PHYS as u32 & 0xFFFF_F000) | 1,
        0x0013_0001
    );
    assert_eq!((BCM2712_MIP0_BASE_PHYS >> 32) as u32, 0x10);
    let window = mip_window();
    assert_eq!(window.pci_low, 0xFFFF_F01C);
    assert_eq!(window.pci_high, 0xFF);
    assert_eq!(window.cpu_low, 0x0013_0001);
    assert_eq!(window.cpu_high, 0x10);
}
