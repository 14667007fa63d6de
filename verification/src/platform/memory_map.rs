//! Addresses of the Raspberry Pi 5.
//!
//! The peripherals of the RP1 chip appear at fixed physical addresses. The
//! kernel reaches physical memory through a window in its half of the address
//! space.

use vstd::prelude::*;

verus! {

/// Where the window on physical memory begins.
pub const PHYS_WINDOW: u64 = 0xFFFF_8000_0000_0000;

/// The window holds 2 to the 47 bytes.
pub const PHYS_WINDOW_SIZE: u64 = 0x0000_8000_0000_0000;

/// The kernel address of a physical address.
pub fn phys_to_virt(phys: u64) -> (virt: u64)
    requires
        phys < PHYS_WINDOW_SIZE,
    ensures
        virt == PHYS_WINDOW + phys,
{
    PHYS_WINDOW + phys
}

pub const RP1_PERIPHERAL_BASE_PHYS: u64 = 0x1F_0000_0000;

pub const RP1_PERIPHERAL_BASE: u64 = 0xFFFF_801F_0000_0000;

/// Debug UART.
pub const BCM2712_UART10_BASE_PHYS: u64 = 0x10_7D00_1000;

pub const BCM2712_UART10_BASE: u64 = 0xFFFF_8010_7D00_1000;

/// Second PCIe controller, which leads to the RP1.
pub const BCM2712_PCIE2_BASE_PHYS: u64 = 0x10_0012_0000;

pub const BCM2712_PCIE2_BASE: u64 = 0xFFFF_8010_0012_0000;

/// Message interrupt block behind it.
pub const BCM2712_MIP0_BASE_PHYS: u64 = 0x10_0013_0000;

pub const BCM2712_MIP0_BASE: u64 = 0xFFFF_8010_0013_0000;

pub const RP1_UART0_OFFSET: u64 = 0x0003_0000;

pub const RP1_UART1_OFFSET: u64 = 0x0003_4000;

pub const RP1_GPIO_OFFSET: u64 = 0x000D_0000;

pub const RP1_PADS_BANK0_OFFSET: u64 = 0x000F_0000;

pub const RP1_I2C0_OFFSET: u64 = 0x0007_0000;

pub const RP1_SPI0_OFFSET: u64 = 0x0005_0000;

pub const RP1_PWM0_OFFSET: u64 = 0x0009_8000;

pub const RP1_PWM1_OFFSET: u64 = 0x0009_C000;

/// PCIe configuration block of the RP1.
pub const RP1_PCIE_APBS_OFFSET: u64 = 0x0010_8000;

/// Clock block of the RP1.
pub const RP1_CLOCKS_OFFSET: u64 = 0x0001_8000;

/// The kernel address of an RP1 peripheral.
pub fn rp1_peripheral_addr(offset: u64) -> (addr: u64)
    ensures
        addr == (RP1_PERIPHERAL_BASE + offset) % 0x1_0000_0000_0000_0000,
{
    RP1_PERIPHERAL_BASE.wrapping_add(offset)
}

pub const RP1_UART0_BASE: u64 = RP1_PERIPHERAL_BASE + RP1_UART0_OFFSET;

pub const RP1_UART1_BASE: u64 = RP1_PERIPHERAL_BASE + RP1_UART1_OFFSET;

pub const RP1_GPIO_BASE: u64 = RP1_PERIPHERAL_BASE + RP1_GPIO_OFFSET;

pub const RP1_PADS_BANK0_BASE: u64 = RP1_PERIPHERAL_BASE + RP1_PADS_BANK0_OFFSET;

pub const RP1_PWM0_BASE: u64 = RP1_PERIPHERAL_BASE + RP1_PWM0_OFFSET;

pub const RP1_PWM1_BASE: u64 = RP1_PERIPHERAL_BASE + RP1_PWM1_OFFSET;

pub const RP1_PCIE_APBS_BASE: u64 = RP1_PERIPHERAL_BASE + RP1_PCIE_APBS_OFFSET;

pub const RP1_CLOCKS_BASE: u64 = RP1_PERIPHERAL_BASE + RP1_CLOCKS_OFFSET;

/// Interrupt distributor.
pub const GICD_BASE_PHYS: u64 = 0x10_7FFF_9000;

pub const GICD_BASE: u64 = 0xFFFF_8010_7FFF_9000;

/// Interrupt interface of the processor.
pub const GICC_BASE_PHYS: u64 = 0x10_7FFF_A000;

pub const GICC_BASE: u64 = 0xFFFF_8010_7FFF_A000;

/// Start of memory.
pub const DRAM_BASE: u64 = 0x0;

/// Where the firmware loads the kernel.
pub const KERNEL_LOAD_ADDR: u64 = 0x8_0000;

/// Law: the kernel addresses of the platform are the window's images of the
/// physical ones.
pub proof fn law_bases_lie_in_window()
    ensures
        RP1_PERIPHERAL_BASE == PHYS_WINDOW + RP1_PERIPHERAL_BASE_PHYS,
        BCM2712_UART10_BASE == PHYS_WINDOW + BCM2712_UART10_BASE_PHYS,
        BCM2712_PCIE2_BASE == PHYS_WINDOW + BCM2712_PCIE2_BASE_PHYS,
        BCM2712_MIP0_BASE == PHYS_WINDOW + BCM2712_MIP0_BASE_PHYS,
        GICD_BASE == PHYS_WINDOW + GICD_BASE_PHYS,
        GICC_BASE == PHYS_WINDOW + GICC_BASE_PHYS,
{
}

/// Law: where the hardware stands, and that the window keeps distances: two physical
/// addresses are as far apart as their kernel addresses.
pub proof fn law_where_the_hardware_stands(a: u64, b: u64, at_a: u64, at_b: u64, offset: u64, at: u64)
    requires
        a < 0x8000_0000_0000,
        b < 0x8000_0000_0000,
        call_ensures(phys_to_virt, (a,), at_a),
        call_ensures(phys_to_virt, (b,), at_b),
        offset < 0x100_0000_0000,
        call_ensures(rp1_peripheral_addr, (offset,), at),
    ensures
        at_a - at_b == a - b,
        at_a >= 0xFFFF_8000_0000_0000,
        at_a - 0xFFFF_8000_0000_0000 == a,
        at == 0xFFFF_801F_0000_0000 + offset,
        RP1_PERIPHERAL_BASE_PHYS == 0x1F_0000_0000,
        BCM2712_UART10_BASE_PHYS == 0x10_7D00_1000,
        BCM2712_PCIE2_BASE_PHYS == 0x10_0012_0000,
        BCM2712_MIP0_BASE_PHYS == 0x10_0013_0000,
        GICD_BASE_PHYS == 0x10_7FFF_9000,
        GICC_BASE_PHYS == 0x10_7FFF_A000,
        RP1_UART0_BASE - RP1_PERIPHERAL_BASE == 0x3_0000,
        RP1_UART1_BASE - RP1_PERIPHERAL_BASE == 0x3_4000,
        RP1_GPIO_BASE - RP1_PERIPHERAL_BASE == 0xD_0000,
        RP1_PADS_BANK0_BASE - RP1_PERIPHERAL_BASE == 0xF_0000,
        RP1_PWM0_BASE - RP1_PERIPHERAL_BASE == 0x9_8000,
        RP1_PWM1_BASE - RP1_PERIPHERAL_BASE == 0x9_C000,
        RP1_PCIE_APBS_BASE - RP1_PERIPHERAL_BASE == 0x10_8000,
        RP1_CLOCKS_BASE - RP1_PERIPHERAL_BASE == 0x1_8000,
        RP1_I2C0_OFFSET == 0x7_0000,
        RP1_SPI0_OFFSET == 0x5_0000,
        DRAM_BASE == 0,
        KERNEL_LOAD_ADDR == 0x8_0000,
{
}

} // verus!
