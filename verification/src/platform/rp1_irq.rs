//! Interrupt route from the GPIO bank of the RP1 to the processor.
//!
//! The firmware leaves the PCIe link to the RP1 trained, but that alone brings
//! no interrupt. [`RouteInit`] completes the route for vector 0 (the GPIO bank):
//! RP1 source, message table of the RP1, message block of the BCM2712, interrupt
//! controller. It tells the embedding program which registers to write and
//! which one to read next, and is told what was read. Every stage that can be
//! read back is checked before the next one is connected.

use vstd::prelude::*;

use crate::platform::memory_map::{
    BCM2712_MIP0_BASE, BCM2712_MIP0_BASE_PHYS, BCM2712_PCIE2_BASE, RP1_PCIE_APBS_BASE,
    RP1_PERIPHERAL_BASE, RP1_PERIPHERAL_BASE_PHYS,
};
use crate::platform::mmio::RegOp;

verus! {

pub const RP1_VENDOR_DEVICE: u32 = 0x0001_1DE4;

pub const RP1_CHIP_ID: u32 = 0x2000_1927;

/// What a failed configuration read returns.
pub const PCI_CONFIG_READ_ERROR: u32 = 0xDEAD_DEAD;

pub const PCIE_LINK_STATUS: u64 = 0x4068;

pub const PCIE_LINK_UP: u32 = 0x30;

pub const PCIE_OUT_WIN0_LO: u64 = 0x400C;

pub const PCIE_OUT_WIN0_HI: u64 = 0x4010;

pub const PCIE_OUT_WIN0_BASE_LIMIT: u64 = 0x4070;

pub const PCIE_OUT_WIN0_BASE_HI: u64 = 0x4080;

pub const PCIE_OUT_WIN0_LIMIT_HI: u64 = 0x4084;

pub const PCIE_RC_BAR1_CONFIG_LO: u64 = 0x402C;

pub const PCIE_RC_BAR1_CONFIG_HI: u64 = 0x4030;

pub const PCIE_UBUS_BAR1_REMAP_LO: u64 = 0x40AC;

pub const PCIE_UBUS_BAR1_REMAP_HI: u64 = 0x40B0;

pub const PCIE_CONFIG_DATA: u64 = 0x8000;

pub const PCIE_CONFIG_ADDRESS: u64 = 0x9000;

/// Selects bus 1, device 0, function 0.
pub const PCIE_CONFIG_SELECT: u32 = 0x0010_0000;

pub const PCI_COMMAND_STATUS: u64 = 0x04;

pub const PCI_BAR0: u64 = 0x10;

pub const PCI_BAR1: u64 = 0x14;

pub const PCI_BAR2: u64 = 0x18;

/// Bus numbers of the root port.
pub const PCI_PRIMARY_BUS: u64 = 0x18;

pub const PCI_CAP_PTR: u64 = 0x34;

/// Bus 1 is both the secondary and the subordinate bus.
pub const RC_BUS_NUMBERS: u32 = 0x0001_0100;

pub const RC_BUS_MASK: u32 = 0x00FF_FFFF;

pub const PCI_COMMAND_MEMORY: u32 = 0x0002;

pub const PCI_COMMAND_MASTER: u32 = 0x0004;

pub const PCI_COMMAND_INTX_DISABLE: u32 = 0x0400;

pub const PCI_CAP_ID_MSIX: u32 = 0x11;

pub const PCI_MSIX_FUNCTION_MASK: u32 = 0x4000_0000;

pub const PCI_MSIX_ENABLE: u32 = 0x8000_0000;

/// PCI addresses of the RP1: peripherals, memory, message table.
pub const RP1_BAR1_PCI: u32 = 0x0000_0000;

pub const RP1_BAR2_PCI: u32 = 0x0040_0000;

pub const RP1_BAR0_PCI: u32 = 0x0080_0000;

pub const RP1_OUTBOUND_SIZE_MIB: u32 = 9;

pub const RP1_IO_BANK0_OFFSET: u64 = 0x000D_0000;

pub const RP1_IO_BANK0_PCIE_INTE: u64 = 0x11C;

pub const RP1_IO_BANK0_ATOMIC_SET: u64 = 0x2000;

pub const RP1_IO_BANK0_ATOMIC_CLEAR: u64 = 0x3000;

pub const RP1_GPIO_CTRL: u64 = 0x04;

pub const RP1_GPIO_STRIDE: u64 = 0x08;

pub const RP1_GPIO_COUNT: u64 = 28;

/// One bit for every pin.
pub const RP1_GPIO_ALL: u32 = 0x0FFF_FFFF;

pub const RP1_GPIO_EVENT_ENABLE_MASK: u32 = 0x00F0_0000;

pub const RP1_GPIO_IRQRESET: u32 = 0x1000_0000;

/// Where messages go.
pub const MIP_MESSAGE_ADDRESS: u64 = 0x00FF_FFFF_F000;

pub const MIP_INT_CFGL_HOST: u64 = 0x20;

pub const MIP_INT_CFGH_HOST: u64 = 0x30;

pub const MIP_INT_MASKL_HOST: u64 = 0x40;

pub const MIP_INT_MASKH_HOST: u64 = 0x50;

pub const MIP_INT_MASKL_VPU: u64 = 0x60;

pub const MIP_INT_MASKH_VPU: u64 = 0x70;

pub const MSIX_CFG_0: u64 = 0x008;

pub const RP1_PCIE_REG_SET: u64 = 0x800;

pub const RP1_PCIE_REG_CLEAR: u64 = 0xC00;

pub const MSIX_CFG_ENABLE: u32 = 0x01;

pub const MSIX_CFG_IACK: u32 = 0x04;

pub const MSIX_CFG_IACK_ENABLE: u32 = 0x08;

pub const MSI_VECTOR_IO_BANK0: u32 = 0;

pub const MSIX_ENTRY_SIZE: u64 = 16;

pub const RP1_MSIX_BAR_SIZE: u64 = 0x1_0000;

/// Capabilities looked at before the walk is given up.
pub const MAX_CAPABILITIES: u8 = 48;

/// Readings that show every stage of the route in place.
#[derive(Debug, Clone, Copy, PartialEq, Eq, Structural)]
pub struct Rp1InterruptRoute {
    pub pcie_link_status: u32,
    pub vendor_device: u32,
    pub chip_id: u32,
    pub msix_cap_offset: u8,
    pub msix_table_size: u16,
    pub msix_control: u32,
    pub vector0_config: u32,
}

#[derive(Debug, Clone, Copy, PartialEq, Eq, Structural)]
pub enum Rp1InterruptRouteError {
    PcieLinkDown(u32),
    RootBusReadback(u32),
    EndpointUnavailable(u32),
    MissingMsixCapability,
    InvalidMsixCapability(u32),
    InvalidBarConfiguration { bar0: u32, bar1: u32, bar2: u32 },
    InvalidMsixTable { bir: u8, offset: u32, size: u16 },
    Rp1BarUnavailable(u32),
    InboundWindowReadback,
    MipReadback,
    MsixTableReadback,
    Rp1VectorReadback(u32),
    GlobalMsixReadback(u32),
}

/// The window through which the processor reaches the RP1.
#[derive(Debug, Clone, Copy, PartialEq, Eq, Structural)]
pub struct OutboundWindow {
    pub base_mib: u32,
    pub limit_mib: u32,
    pub base_limit: u32,
    pub base_hi: u32,
    pub limit_hi: u32,
}

/// Nine mebibytes at the RP1's place.
pub fn outbound_window() -> (window: OutboundWindow)
    ensures
        window.base_mib == RP1_PERIPHERAL_BASE_PHYS / 0x10_0000,
        window.limit_mib == window.base_mib + RP1_OUTBOUND_SIZE_MIB - 1,
        window.base_limit == ((window.base_mib & 0xFFF) << 4) | ((window.limit_mib & 0xFFF) << 20),
        window.base_hi == (window.base_mib >> 12) & 0xFF,
        window.limit_hi == (window.limit_mib >> 12) & 0xFF,
{
    let base_mib: u32 = (RP1_PERIPHERAL_BASE_PHYS / 0x10_0000) as u32;
    let limit_mib: u32 = base_mib + RP1_OUTBOUND_SIZE_MIB - 1;
    OutboundWindow {
        base_mib,
        limit_mib,
        base_limit: ((base_mib & 0xFFF) << 4) | ((limit_mib & 0xFFF) << 20),
        base_hi: (base_mib >> 12) & 0xFF,
        limit_hi: (limit_mib >> 12) & 0xFF,
    }
}

/// The window through which messages reach the message block: PCI side low and
/// high, processor side low and high.
#[derive(Debug, Clone, Copy, PartialEq, Eq, Structural)]
pub struct MipWindow {
    pub pci_low: u32,
    pub pci_high: u32,
    pub cpu_low: u32,
    pub cpu_high: u32,
}

pub open spec fn mip_window_of() -> MipWindow {
    MipWindow {
        pci_low: 0xFFFF_F01C,
        pci_high: 0xFF,
        cpu_low: 0x0013_0001,
        cpu_high: 0x10,
    }
}

/// Four kibibytes, whose size is encoded as 0x1C; the processor side is
/// enabled by bit 0.
pub fn mip_window() -> (window: MipWindow)
    ensures
        window == mip_window_of(),
        window.pci_high * 0x1_0000_0000 + (window.pci_low - 0x1C) == MIP_MESSAGE_ADDRESS,
        window.cpu_high * 0x1_0000_0000 + (window.cpu_low - 1) == BCM2712_MIP0_BASE_PHYS,
{
    MipWindow {
        pci_low: (MIP_MESSAGE_ADDRESS % 0x1_0000_0000) as u32 + 0x1C,
        pci_high: (MIP_MESSAGE_ADDRESS / 0x1_0000_0000) as u32,
        cpu_low: (BCM2712_MIP0_BASE_PHYS % 0x1_0000_0000) as u32 + 1,
        cpu_high: (BCM2712_MIP0_BASE_PHYS / 0x1_0000_0000) as u32,
    }
}

/// A reading of a register that must come out in a certain way.
#[derive(Debug, Clone, Copy, PartialEq, Eq, Structural)]
pub struct Check {
    pub addr: u64,
    pub mask: u32,
    pub expect: u32,
}

/// Which stage is being read back.
#[derive(Debug, Clone, Copy, PartialEq, Eq, Structural)]
pub enum Readback {
    Inbound,
    Mip,
    Table,
}

/// What is known so far.
#[derive(Debug, Clone, Copy, PartialEq, Eq, Structural)]
pub struct Found {
    pub link_status: u32,
    pub vendor_device: u32,
    pub cap_offset: u8,
    pub control: u32,
    pub bar0: u32,
    pub bar1: u32,
    pub chip_id: u32,
    pub table_offset: u32,
    pub table_size: u16,
    pub vector0: u32,
}

/// The register that is read next.
#[derive(Debug, Clone, Copy, PartialEq, Eq, Structural)]
pub enum Stage {
    LinkStatus,
    RootBus,
    RootCommand,
    RootBusBack,
    VendorDevice,
    CapabilityPointer,
    Capability { offset: u8, left: u8 },
    InitialControl,
    Bar0,
    Bar1,
    Bar2,
    Command,
    ChipId,
    TableInfo,
    Verify { readback: Readback, index: u8 },
    Vector0,
    FinalControl,
}

/// What comes next.
#[derive(Debug, Clone, Copy, PartialEq, Eq)]
pub enum Next {
    /// Read this register and report it.
    Read(u64),
    /// The route is complete.
    Done(Rp1InterruptRoute),
    /// The route cannot be completed.
    Failed(Rp1InterruptRouteError),
}

/// The set-up of the route.
#[derive(Debug, Clone, Copy, PartialEq, Eq)]
pub struct RouteInit {
    pub stage: Stage,
    pub found: Found,
}

/// A configuration register of the RP1.
pub open spec fn config_addr(offset: int) -> u64 {
    (BCM2712_PCIE2_BASE + PCIE_CONFIG_DATA + offset) as u64
}

/// Select the RP1 for the next configuration access.
pub open spec fn select_op() -> RegOp {
    RegOp::Write {
        addr: (BCM2712_PCIE2_BASE + PCIE_CONFIG_ADDRESS) as u64,
        value: PCIE_CONFIG_SELECT,
    }
}

/// Write a configuration register.
pub open spec fn config_write(offset: int, value: u32) -> Seq<RegOp> {
    seq![select_op(), (RegOp::Write { addr: config_addr(offset), value })]
}

pub open spec fn pcie_write(offset: u64, value: u32) -> RegOp {
    RegOp::Write { addr: (BCM2712_PCIE2_BASE + offset) as u64, value }
}

pub open spec fn mip_write(offset: u64, value: u32) -> RegOp {
    RegOp::Write { addr: (BCM2712_MIP0_BASE + offset) as u64, value }
}

/// A configuration register that could be read.
pub open spec fn readable(value: u32) -> bool {
    value != PCI_CONFIG_READ_ERROR && value != u32::MAX
}

/// A plausible memory BAR: 32-bit, not prefetchable in a wider form, no I/O.
pub open spec fn valid_bar(value: u32) -> bool {
    readable(value) && value & 0x7 == 0
}

/// A place where a capability can stand.
pub open spec fn capability_place(offset: u8) -> bool {
    0x40 <= offset <= 0xFC && offset & 0x3 == 0
}

/// Five accesses that open the outbound window.
pub open spec fn outbound_ops() -> Seq<RegOp> {
    seq![
        pcie_write(PCIE_OUT_WIN0_LO, 0),
        pcie_write(PCIE_OUT_WIN0_HI, 0),
        pcie_write(PCIE_OUT_WIN0_BASE_LIMIT, 0x0080_0000),
        pcie_write(PCIE_OUT_WIN0_BASE_HI, 0x1F),
        pcie_write(PCIE_OUT_WIN0_LIMIT_HI, 0x1F),
    ]
}

/// Place the BARs, keeping their type bits.
pub open spec fn bar_ops(bar0: u32, bar1: u32, bar2: u32) -> Seq<RegOp> {
    config_write(PCI_BAR0 as int, RP1_BAR0_PCI | (bar0 & 0xF)) + config_write(
        PCI_BAR1 as int,
        RP1_BAR1_PCI | (bar1 & 0xF),
    ) + config_write(PCI_BAR2 as int, RP1_BAR2_PCI | (bar2 & 0xF)) + outbound_ops()
}

/// Quiet one pin: no events, nothing pending.
pub open spec fn quiesce_pin(pin: int) -> Seq<RegOp> {
    let bank = RP1_PERIPHERAL_BASE + RP1_IO_BANK0_OFFSET;
    let ctrl = pin * RP1_GPIO_STRIDE + RP1_GPIO_CTRL;
    seq![
        (RegOp::Write {
            addr: (bank + RP1_IO_BANK0_ATOMIC_CLEAR + ctrl) as u64,
            value: RP1_GPIO_EVENT_ENABLE_MASK,
        }),
        (RegOp::Write {
            addr: (bank + RP1_IO_BANK0_ATOMIC_SET + ctrl) as u64,
            value: RP1_GPIO_IRQRESET,
        }),
    ]
}

/// Quiet the first `count` pins.
pub open spec fn quiesce_pins(count: nat) -> Seq<RegOp>
    decreases count,
{
    if count == 0 {
        Seq::empty()
    } else {
        quiesce_pins((count - 1) as nat) + quiesce_pin(count - 1)
    }
}

/// Quiet the bank: no pin enabled, then pin by pin.
pub open spec fn quiesce_ops() -> Seq<RegOp> {
    seq![
        (RegOp::Write {
            addr: (RP1_PERIPHERAL_BASE + RP1_IO_BANK0_OFFSET + RP1_IO_BANK0_ATOMIC_CLEAR
                + RP1_IO_BANK0_PCIE_INTE) as u64,
            value: RP1_GPIO_ALL,
        }),
    ] + quiesce_pins(RP1_GPIO_COUNT as nat)
}

/// Open the inbound window for messages.
pub open spec fn inbound_ops() -> Seq<RegOp> {
    let window = mip_window_of();
    seq![
        pcie_write(PCIE_RC_BAR1_CONFIG_LO, window.pci_low),
        pcie_write(PCIE_RC_BAR1_CONFIG_HI, window.pci_high),
        pcie_write(PCIE_UBUS_BAR1_REMAP_LO, window.cpu_low),
        pcie_write(PCIE_UBUS_BAR1_REMAP_HI, window.cpu_high),
    ]
}

/// Host unmasked, video processor masked, all inputs edge triggered.
pub open spec fn mip_ops() -> Seq<RegOp> {
    seq![
        mip_write(MIP_INT_MASKL_HOST, 0),
        mip_write(MIP_INT_MASKH_HOST, 0),
        mip_write(MIP_INT_MASKL_VPU, u32::MAX),
        mip_write(MIP_INT_MASKH_VPU, u32::MAX),
        mip_write(MIP_INT_CFGL_HOST, u32::MAX),
        mip_write(MIP_INT_CFGH_HOST, u32::MAX),
    ]
}

/// First address of the message table.
pub open spec fn table_addr(table_offset: u32) -> int {
    RP1_PERIPHERAL_BASE + RP1_BAR0_PCI + table_offset
}

/// Mask the first `count` vectors of the table.
pub open spec fn mask_ops(table_offset: u32, count: nat) -> Seq<RegOp>
    decreases count,
{
    if count == 0 {
        Seq::empty()
    } else {
        mask_ops(table_offset, (count - 1) as nat).push(
            RegOp::Write {
                addr: (table_addr(table_offset) + (count - 1) * MSIX_ENTRY_SIZE + 12) as u64,
                value: 1,
            },
        )
    }
}

/// Mask every vector, then fill in and unmask vector 0.
pub open spec fn table_ops(table_offset: u32, table_size: u16) -> Seq<RegOp> {
    let table = table_addr(table_offset);
    mask_ops(table_offset, table_size as nat) + seq![
        (RegOp::Write { addr: table as u64, value: 0xFFFF_F000 }),
        (RegOp::Write { addr: (table + 4) as u64, value: 0xFF }),
        (RegOp::Write { addr: (table + 8) as u64, value: MSI_VECTOR_IO_BANK0 }),
        (RegOp::Write { addr: (table + 12) as u64, value: 0 }),
    ]
}

/// How many readings a read-back takes.
pub open spec fn check_count(readback: Readback) -> int {
    match readback {
        Readback::Inbound => 4,
        Readback::Mip => 6,
        Readback::Table => 4,
    }
}

/// The readings of a read-back: what was written reads the same.
pub open spec fn check_at(readback: Readback, index: int, table_offset: u32) -> Check {
    let window = mip_window_of();
    let table = table_addr(table_offset);
    let all = u32::MAX;
    match readback {
        Readback::Inbound => if index == 0 {
            Check {
                addr: (BCM2712_PCIE2_BASE + PCIE_RC_BAR1_CONFIG_LO) as u64,
                mask: all,
                expect: window.pci_low,
            }
        } else if index == 1 {
            Check {
                addr: (BCM2712_PCIE2_BASE + PCIE_RC_BAR1_CONFIG_HI) as u64,
                mask: all,
                expect: window.pci_high,
            }
        } else if index == 2 {
            Check {
                addr: (BCM2712_PCIE2_BASE + PCIE_UBUS_BAR1_REMAP_LO) as u64,
                mask: all,
                expect: window.cpu_low,
            }
        } else {
            Check {
                addr: (BCM2712_PCIE2_BASE + PCIE_UBUS_BAR1_REMAP_HI) as u64,
                mask: all,
                expect: window.cpu_high,
            }
        },
        Readback::Mip => if index == 0 {
            Check { addr: (BCM2712_MIP0_BASE + MIP_INT_MASKL_HOST) as u64, mask: all, expect: 0 }
        } else if index == 1 {
            Check { addr: (BCM2712_MIP0_BASE + MIP_INT_MASKH_HOST) as u64, mask: all, expect: 0 }
        } else if index == 2 {
            Check { addr: (BCM2712_MIP0_BASE + MIP_INT_MASKL_VPU) as u64, mask: all, expect: all }
        } else if index == 3 {
            Check { addr: (BCM2712_MIP0_BASE + MIP_INT_MASKH_VPU) as u64, mask: all, expect: all }
        } else if index == 4 {
            Check { addr: (BCM2712_MIP0_BASE + MIP_INT_CFGL_HOST) as u64, mask: all, expect: all }
        } else {
            Check { addr: (BCM2712_MIP0_BASE + MIP_INT_CFGH_HOST) as u64, mask: all, expect: all }
        },
        Readback::Table => if index == 0 {
            Check { addr: table as u64, mask: all, expect: 0xFFFF_F000 }
        } else if index == 1 {
            Check { addr: (table + 4) as u64, mask: all, expect: 0xFF }
        } else if index == 2 {
            Check { addr: (table + 8) as u64, mask: all, expect: MSI_VECTOR_IO_BANK0 }
        } else {
            Check { addr: (table + 12) as u64, mask: 1, expect: 0 }
        },
    }
}

/// Why a read-back fails.
pub open spec fn check_error(readback: Readback) -> Rp1InterruptRouteError {
    match readback {
        Readback::Inbound => Rp1InterruptRouteError::InboundWindowReadback,
        Readback::Mip => Rp1InterruptRouteError::MipReadback,
        Readback::Table => Rp1InterruptRouteError::MsixTableReadback,
    }
}

/// Vectors of the message table, from the control register.
pub open spec fn table_size_of(control: u32) -> u16 {
    (((control >> 16) & 0x7FF) + 1) as u16
}

/// The message table is where it can be: in BAR 0, within its size.
pub open spec fn table_fits(info: u32, control: u32) -> bool {
    &&& info & 0x7 == 0
    &&& table_size_of(control) <= 64
    &&& (info & !0x7u32) + table_size_of(control) * MSIX_ENTRY_SIZE <= RP1_MSIX_BAR_SIZE
}

/// The register that a stage reads.
pub open spec fn stage_addr(stage: Stage, found: Found) -> u64 {
    match stage {
        Stage::LinkStatus => (BCM2712_PCIE2_BASE + PCIE_LINK_STATUS) as u64,
        Stage::RootBus => (BCM2712_PCIE2_BASE + PCI_PRIMARY_BUS) as u64,
        Stage::RootCommand => (BCM2712_PCIE2_BASE + PCI_COMMAND_STATUS) as u64,
        Stage::RootBusBack => (BCM2712_PCIE2_BASE + PCI_PRIMARY_BUS) as u64,
        Stage::VendorDevice => config_addr(0),
        Stage::CapabilityPointer => config_addr(PCI_CAP_PTR as int),
        Stage::Capability { offset, .. } => config_addr(offset as int),
        Stage::InitialControl => config_addr(found.cap_offset as int),
        Stage::Bar0 => config_addr(PCI_BAR0 as int),
        Stage::Bar1 => config_addr(PCI_BAR1 as int),
        Stage::Bar2 => config_addr(PCI_BAR2 as int),
        Stage::Command => config_addr(PCI_COMMAND_STATUS as int),
        Stage::ChipId => RP1_PERIPHERAL_BASE,
        Stage::TableInfo => config_addr(found.cap_offset + 4),
        Stage::Verify { readback, index } => check_at(
            readback,
            index as int,
            found.table_offset,
        ).addr,
        Stage::Vector0 => (RP1_PCIE_APBS_BASE + MSIX_CFG_0) as u64,
        Stage::FinalControl => config_addr(found.cap_offset as int),
    }
}

/// The RP1 must be selected before the stage's register is read.
pub open spec fn needs_select(stage: Stage) -> bool {
    match stage {
        Stage::VendorDevice => true,
        Stage::CapabilityPointer => true,
        Stage::Capability { .. } => true,
        Stage::InitialControl => true,
        Stage::Bar0 => true,
        Stage::Bar1 => true,
        Stage::Bar2 => true,
        Stage::Command => true,
        Stage::TableInfo => true,
        Stage::FinalControl => true,
        _ => false,
    }
}

/// The outcome of a reading: the stage to go on with, what is then known, and
/// the writes in between; or the end.
pub ghost enum Turn {
    Go { stage: Stage, found: Found, ops: Seq<RegOp> },
    End(Next),
}

/// Fail with an error.
pub open spec fn fail(error: Rp1InterruptRouteError) -> Turn {
    Turn::End(Next::Failed(error))
}

/// Look at the capability at `offset`, if it can stand there.
pub open spec fn capability_turn(offset: u8, left: u8, found: Found) -> Turn {
    if left > 0 && capability_place(offset) {
        Turn::Go { stage: Stage::Capability { offset, left }, found, ops: Seq::empty() }
    } else {
        fail(Rp1InterruptRouteError::MissingMsixCapability)
    }
}

/// What a reading of the stage's register leads to.
pub open spec fn turn(stage: Stage, found: Found, value: u32) -> Turn {
    let none = Seq::<RegOp>::empty();
    match stage {
        Stage::LinkStatus => if value & PCIE_LINK_UP != PCIE_LINK_UP {
            fail(Rp1InterruptRouteError::PcieLinkDown(value))
        } else {
            Turn::Go {
                stage: Stage::RootBus,
                found: Found { link_status: value, ..found },
                ops: none,
            }
        },
        Stage::RootBus => Turn::Go {
            stage: Stage::RootCommand,
            found,
            ops: if value & RC_BUS_MASK != RC_BUS_NUMBERS {
                seq![pcie_write(PCI_PRIMARY_BUS, (value & !RC_BUS_MASK) | RC_BUS_NUMBERS)]
            } else {
                none
            },
        },
        Stage::RootCommand => Turn::Go {
            stage: Stage::RootBusBack,
            found,
            ops: seq![
                pcie_write(PCI_COMMAND_STATUS, value | PCI_COMMAND_MEMORY | PCI_COMMAND_MASTER),
            ],
        },
        Stage::RootBusBack => if value & RC_BUS_MASK != RC_BUS_NUMBERS {
            fail(Rp1InterruptRouteError::RootBusReadback(value))
        } else {
            Turn::Go { stage: Stage::VendorDevice, found, ops: none }
        },
        Stage::VendorDevice => if value != RP1_VENDOR_DEVICE {
            fail(Rp1InterruptRouteError::EndpointUnavailable(value))
        } else {
            Turn::Go {
                stage: Stage::CapabilityPointer,
                found: Found { vendor_device: value, ..found },
                ops: none,
            }
        },
        Stage::CapabilityPointer => capability_turn((value & 0xFC) as u8, MAX_CAPABILITIES, found),
        Stage::Capability { offset, left } => if !readable(value) {
            fail(Rp1InterruptRouteError::MissingMsixCapability)
        } else if value & 0xFF == PCI_CAP_ID_MSIX {
            Turn::Go {
                stage: Stage::InitialControl,
                found: Found { cap_offset: offset, ..found },
                ops: none,
            }
        } else {
            let next = ((value >> 8) & 0xFC) as u8;
            if next == 0 || next == offset {
                fail(Rp1InterruptRouteError::MissingMsixCapability)
            } else {
                capability_turn(next, (left - 1) as u8, found)
            }
        },
        Stage::InitialControl => if !readable(value) {
            fail(Rp1InterruptRouteError::InvalidMsixCapability(value))
        } else {
            Turn::Go {
                stage: Stage::Bar0,
                found: Found { control: value, ..found },
                ops: config_write(
                    found.cap_offset as int,
                    (value | PCI_MSIX_FUNCTION_MASK) & !PCI_MSIX_ENABLE,
                ),
            }
        },
        Stage::Bar0 => Turn::Go {
            stage: Stage::Bar1,
            found: Found { bar0: value, ..found },
            ops: none,
        },
        Stage::Bar1 => Turn::Go {
            stage: Stage::Bar2,
            found: Found { bar1: value, ..found },
            ops: none,
        },
        Stage::Bar2 => if valid_bar(found.bar0) && valid_bar(found.bar1) && valid_bar(value) {
            Turn::Go {
                stage: Stage::Command,
                found,
                ops: bar_ops(found.bar0, found.bar1, value),
            }
        } else {
            fail(
                Rp1InterruptRouteError::InvalidBarConfiguration {
                    bar0: found.bar0,
                    bar1: found.bar1,
                    bar2: value,
                },
            )
        },
        Stage::Command => Turn::Go {
            stage: Stage::ChipId,
            found,
            ops: config_write(
                PCI_COMMAND_STATUS as int,
                (value & 0xFFFF_0000) | (((value & 0xFFFF) | PCI_COMMAND_MEMORY
                    | PCI_COMMAND_MASTER) & !PCI_COMMAND_INTX_DISABLE),
            ),
        },
        Stage::ChipId => if value != RP1_CHIP_ID {
            fail(Rp1InterruptRouteError::Rp1BarUnavailable(value))
        } else {
            Turn::Go {
                stage: Stage::TableInfo,
                found: Found { chip_id: value, ..found },
                ops: quiesce_ops().push(
                    RegOp::Write {
                        addr: (RP1_PCIE_APBS_BASE + RP1_PCIE_REG_CLEAR + MSIX_CFG_0) as u64,
                        value: u32::MAX,
                    },
                ),
            }
        },
        Stage::TableInfo => if !table_fits(value, found.control) {
            fail(
                Rp1InterruptRouteError::InvalidMsixTable {
                    bir: (value & 0x7) as u8,
                    offset: value & !0x7u32,
                    size: table_size_of(found.control),
                },
            )
        } else {
            Turn::Go {
                stage: Stage::Verify { readback: Readback::Inbound, index: 0 },
                found: Found {
                    table_offset: value & !0x7u32,
                    table_size: table_size_of(found.control),
                    ..found
                },
                ops: inbound_ops(),
            }
        },
        Stage::Verify { readback, index } => {
            let check = check_at(readback, index as int, found.table_offset);
            if value & check.mask != check.expect {
                fail(check_error(readback))
            } else if index + 1 < check_count(readback) {
                Turn::Go {
                    stage: Stage::Verify { readback, index: (index + 1) as u8 },
                    found,
                    ops: none,
                }
            } else {
                match readback {
                    Readback::Inbound => Turn::Go {
                        stage: Stage::Verify { readback: Readback::Mip, index: 0 },
                        found,
                        ops: mip_ops(),
                    },
                    Readback::Mip => Turn::Go {
                        stage: Stage::Verify { readback: Readback::Table, index: 0 },
                        found,
                        ops: table_ops(found.table_offset, found.table_size),
                    },
                    Readback::Table => Turn::Go {
                        stage: Stage::Vector0,
                        found,
                        ops: seq![
                            (RegOp::Write {
                                addr: (RP1_PCIE_APBS_BASE + RP1_PCIE_REG_SET + MSIX_CFG_0) as u64,
                                value: MSIX_CFG_ENABLE | MSIX_CFG_IACK_ENABLE,
                            }),
                        ],
                    },
                }
            }
        },
        Stage::Vector0 => if value == PCI_CONFIG_READ_ERROR || value & (MSIX_CFG_ENABLE
            | MSIX_CFG_IACK_ENABLE) != MSIX_CFG_ENABLE | MSIX_CFG_IACK_ENABLE {
            fail(Rp1InterruptRouteError::Rp1VectorReadback(value))
        } else {
            Turn::Go {
                stage: Stage::FinalControl,
                found: Found { vector0: value, ..found },
                ops: config_write(
                    found.cap_offset as int,
                    (found.control | PCI_MSIX_ENABLE) & !PCI_MSIX_FUNCTION_MASK,
                ),
            }
        },
        Stage::FinalControl => if value & (PCI_MSIX_ENABLE | PCI_MSIX_FUNCTION_MASK)
            != PCI_MSIX_ENABLE {
            fail(Rp1InterruptRouteError::GlobalMsixReadback(value))
        } else {
            Turn::End(
                Next::Done(
                    Rp1InterruptRoute {
                        pcie_link_status: found.link_status,
                        vendor_device: found.vendor_device,
                        chip_id: found.chip_id,
                        msix_cap_offset: found.cap_offset,
                        msix_table_size: found.table_size,
                        msix_control: value,
                        vector0_config: found.vector0,
                    },
                ),
            )
        },
    }
}

/// How far the route has come: a number that only grows.
pub open spec fn progress(stage: Stage) -> int {
    match stage {
        Stage::LinkStatus => 0,
        Stage::RootBus => 1,
        Stage::RootCommand => 2,
        Stage::RootBusBack => 3,
        Stage::VendorDevice => 4,
        Stage::CapabilityPointer => 5,
        Stage::Capability { left, .. } => 6 + MAX_CAPABILITIES - left,
        Stage::InitialControl => 60,
        Stage::Bar0 => 61,
        Stage::Bar1 => 62,
        Stage::Bar2 => 63,
        Stage::Command => 64,
        Stage::ChipId => 65,
        Stage::TableInfo => 66,
        Stage::Verify { readback, index } => match readback {
            Readback::Inbound => 70 + index,
            Readback::Mip => 80 + index,
            Readback::Table => 90 + index,
        },
        Stage::Vector0 => 100,
        Stage::FinalControl => 101,
    }
}

impl RouteInit {
    /// What is known is what the stages so far have checked.
    pub open spec fn wf(self) -> bool {
        let at = progress(self.stage);
        &&& match self.stage {
            Stage::Capability { offset, left } => 0 < left <= MAX_CAPABILITIES && capability_place(
                offset,
            ),
            Stage::Verify { readback, index } => index < check_count(readback),
            _ => true,
        }
        &&& at > 0 ==> self.found.link_status & PCIE_LINK_UP == PCIE_LINK_UP
        &&& at > 4 ==> self.found.vendor_device == RP1_VENDOR_DEVICE
        &&& at >= 60 ==> capability_place(self.found.cap_offset)
        &&& at > 65 ==> self.found.chip_id == RP1_CHIP_ID
        &&& at > 66 ==> {
            &&& 1 <= self.found.table_size <= 64
            &&& self.found.table_offset + self.found.table_size * MSIX_ENTRY_SIZE
                <= RP1_MSIX_BAR_SIZE
        }
        &&& at > 100 ==> self.found.vector0 & (MSIX_CFG_ENABLE | MSIX_CFG_IACK_ENABLE)
            == MSIX_CFG_ENABLE | MSIX_CFG_IACK_ENABLE
    }

    /// Before the first reading.
    pub fn new() -> (init: Self)
        ensures
            init.wf(),
            init == RouteInit::start(),
    {
        RouteInit {
            stage: Stage::LinkStatus,
            found: Found {
                link_status: 0,
                vendor_device: 0,
                cap_offset: 0,
                control: 0,
                bar0: 0,
                bar1: 0,
                chip_id: 0,
                table_offset: 0,
                table_size: 0,
                vector0: 0,
            },
        }
    }

    /// The link status is read first, and nothing is known yet.
    pub open spec fn start() -> RouteInit {
        RouteInit {
            stage: Stage::LinkStatus,
            found: Found {
                link_status: 0,
                vendor_device: 0,
                cap_offset: 0,
                control: 0,
                bar0: 0,
                bar1: 0,
                chip_id: 0,
                table_offset: 0,
                table_size: 0,
                vector0: 0,
            },
        }
    }

    /// The register to read first.
    pub fn first_read(&self) -> (addr: u64)
        requires
            self.stage == Stage::LinkStatus,
        ensures
            addr == stage_addr(self.stage, self.found),
    {
        BCM2712_PCIE2_BASE + PCIE_LINK_STATUS
    }

    /// Take a reading. The writes come first, in order, then what is next.
    pub fn on_read(&mut self, value: u32) -> (result: (Vec<RegOp>, Next))
        requires
            old(self).wf(),
        ensures
            final(self).wf(),
            match turn(old(self).stage, old(self).found, value) {
                Turn::Go { stage, found, ops } => {
                    &&& final(self).stage == stage
                    &&& final(self).found == found
                    &&& progress(stage) > progress(old(self).stage)
                    &&& result.1 == Next::Read(stage_addr(stage, found))
                    &&& result.0@ == if needs_select(stage) {
                        ops.push(select_op())
                    } else {
                        ops
                    }
                },
                Turn::End(next) => {
                    &&& *final(self) == *old(self)
                    &&& result.1 == next
                    &&& result.0@ == Seq::<RegOp>::empty()
                },
            },
    {
        let mut ops: Vec<RegOp> = Vec::new();
        assert(ops@ =~= Seq::<RegOp>::empty());
        match self.stage {
            Stage::LinkStatus => {
                if value & PCIE_LINK_UP != PCIE_LINK_UP {
                    return (ops, Next::Failed(Rp1InterruptRouteError::PcieLinkDown(value)));
                }
                self.found.link_status = value;
                self.stage = Stage::RootBus;
            },
            Stage::RootBus => {
                if value & RC_BUS_MASK != RC_BUS_NUMBERS {
                    ops.push(
                        RegOp::Write {
                            addr: BCM2712_PCIE2_BASE + PCI_PRIMARY_BUS,
                            value: (value & !RC_BUS_MASK) | RC_BUS_NUMBERS,
                        },
                    );
                }
                self.stage = Stage::RootCommand;
            },
            Stage::RootCommand => {
                ops.push(
                    RegOp::Write {
                        addr: BCM2712_PCIE2_BASE + PCI_COMMAND_STATUS,
                        value: value | PCI_COMMAND_MEMORY | PCI_COMMAND_MASTER,
                    },
                );
                self.stage = Stage::RootBusBack;
            },
            Stage::RootBusBack => {
                if value & RC_BUS_MASK != RC_BUS_NUMBERS {
                    return (ops, Next::Failed(Rp1InterruptRouteError::RootBusReadback(value)));
                }
                self.stage = Stage::VendorDevice;
            },
            Stage::VendorDevice => {
                if value != RP1_VENDOR_DEVICE {
                    return (ops, Next::Failed(Rp1InterruptRouteError::EndpointUnavailable(value)));
                }
                self.found.vendor_device = value;
                self.stage = Stage::CapabilityPointer;
            },
            Stage::CapabilityPointer => {
                let offset: u8 = (value & 0xFC) as u8;
                if !can_hold_capability(offset) {
                    return (ops, Next::Failed(Rp1InterruptRouteError::MissingMsixCapability));
                }
                self.stage = Stage::Capability { offset, left: MAX_CAPABILITIES };
            },
            Stage::Capability { offset, left } => {
                if value == PCI_CONFIG_READ_ERROR || value == u32::MAX {
                    return (ops, Next::Failed(Rp1InterruptRouteError::MissingMsixCapability));
                }
                if value & 0xFF == PCI_CAP_ID_MSIX {
                    self.found.cap_offset = offset;
                    self.stage = Stage::InitialControl;
                } else {
                    let next: u8 = ((value >> 8) & 0xFC) as u8;
                    if next == 0 || next == offset || left == 1 || !can_hold_capability(next) {
                        return (ops, Next::Failed(Rp1InterruptRouteError::MissingMsixCapability));
                    }
                    self.stage = Stage::Capability { offset: next, left: left - 1 };
                }
            },
            Stage::InitialControl => {
                if value == PCI_CONFIG_READ_ERROR || value == u32::MAX {
                    return (
                        ops,
                        Next::Failed(Rp1InterruptRouteError::InvalidMsixCapability(value)),
                    );
                }
                push_config_write(
                    &mut ops,
                    self.found.cap_offset as u64,
                    (value | PCI_MSIX_FUNCTION_MASK) & !PCI_MSIX_ENABLE,
                );
                self.found.control = value;
                self.stage = Stage::Bar0;
            },
            Stage::Bar0 => {
                self.found.bar0 = value;
                self.stage = Stage::Bar1;
            },
            Stage::Bar1 => {
                self.found.bar1 = value;
                self.stage = Stage::Bar2;
            },
            Stage::Bar2 => {
                if !is_memory_bar(self.found.bar0) || !is_memory_bar(self.found.bar1)
                    || !is_memory_bar(value) {
                    return (
                        ops,
                        Next::Failed(
                            Rp1InterruptRouteError::InvalidBarConfiguration {
                                bar0: self.found.bar0,
                                bar1: self.found.bar1,
                                bar2: value,
                            },
                        ),
                    );
                }
                push_bar_ops(&mut ops, self.found.bar0, self.found.bar1, value);
                self.stage = Stage::Command;
            },
            Stage::Command => {
                let command: u32 = ((value & 0xFFFF) | PCI_COMMAND_MEMORY | PCI_COMMAND_MASTER)
                    & !PCI_COMMAND_INTX_DISABLE;
                push_config_write(&mut ops, PCI_COMMAND_STATUS, (value & 0xFFFF_0000) | command);
                self.stage = Stage::ChipId;
            },
            Stage::ChipId => {
                if value != RP1_CHIP_ID {
                    return (ops, Next::Failed(Rp1InterruptRouteError::Rp1BarUnavailable(value)));
                }
                push_quiesce(&mut ops);
                ops.push(
                    RegOp::Write {
                        addr: RP1_PCIE_APBS_BASE + RP1_PCIE_REG_CLEAR + MSIX_CFG_0,
                        value: u32::MAX,
                    },
                );
                self.found.chip_id = value;
                self.stage = Stage::TableInfo;
            },
            Stage::TableInfo => {
                let bir: u8 = (value & 0x7) as u8;
                let offset: u32 = value & !0x7u32;
                let field: u32 = (self.found.control >> 16) & 0x7FF;
                proof {
                    let control = self.found.control;
                    assert((control >> 16) & 0x7FF <= 0x7FF) by (bit_vector);
                    assert(value & 0x7 <= 7) by (bit_vector);
                }
                let size: u16 = (field + 1) as u16;
                let end: u64 = offset as u64 + size as u64 * MSIX_ENTRY_SIZE;
                if value & 0x7 != 0 || size > 64 || end > RP1_MSIX_BAR_SIZE {
                    return (
                        ops,
                        Next::Failed(
                            Rp1InterruptRouteError::InvalidMsixTable { bir, offset, size },
                        ),
                    );
                }
                push_inbound(&mut ops);
                self.found.table_offset = offset;
                self.found.table_size = size;
                self.stage = Stage::Verify { readback: Readback::Inbound, index: 0 };
            },
            Stage::Verify { readback, index } => {
                let check = expected(readback, index, self.found.table_offset);
                if value & check.mask != check.expect {
                    let error = match readback {
                        Readback::Inbound => Rp1InterruptRouteError::InboundWindowReadback,
                        Readback::Mip => Rp1InterruptRouteError::MipReadback,
                        Readback::Table => Rp1InterruptRouteError::MsixTableReadback,
                    };
                    return (ops, Next::Failed(error));
                }
                let count: u8 = match readback {
                    Readback::Inbound => 4,
                    Readback::Mip => 6,
                    Readback::Table => 4,
                };
                if index + 1 < count {
                    self.stage = Stage::Verify { readback, index: index + 1 };
                } else {
                    match readback {
                        Readback::Inbound => {
                            push_mip(&mut ops);
                            self.stage = Stage::Verify { readback: Readback::Mip, index: 0 };
                        },
                        Readback::Mip => {
                            push_table(&mut ops, self.found.table_offset, self.found.table_size);
                            self.stage = Stage::Verify { readback: Readback::Table, index: 0 };
                        },
                        Readback::Table => {
                            ops.push(
                                RegOp::Write {
                                    addr: RP1_PCIE_APBS_BASE + RP1_PCIE_REG_SET + MSIX_CFG_0,
                                    value: MSIX_CFG_ENABLE | MSIX_CFG_IACK_ENABLE,
                                },
                            );
                            self.stage = Stage::Vector0;
                        },
                    }
                }
            },
            Stage::Vector0 => {
                if value == PCI_CONFIG_READ_ERROR || value & (MSIX_CFG_ENABLE
                    | MSIX_CFG_IACK_ENABLE) != MSIX_CFG_ENABLE | MSIX_CFG_IACK_ENABLE {
                    return (ops, Next::Failed(Rp1InterruptRouteError::Rp1VectorReadback(value)));
                }
                push_config_write(
                    &mut ops,
                    self.found.cap_offset as u64,
                    (self.found.control | PCI_MSIX_ENABLE) & !PCI_MSIX_FUNCTION_MASK,
                );
                self.found.vector0 = value;
                self.stage = Stage::FinalControl;
            },
            Stage::FinalControl => {
                if value & (PCI_MSIX_ENABLE | PCI_MSIX_FUNCTION_MASK) != PCI_MSIX_ENABLE {
                    return (ops, Next::Failed(Rp1InterruptRouteError::GlobalMsixReadback(value)));
                }
                return (
                    ops,
                    Next::Done(
                        Rp1InterruptRoute {
                            pcie_link_status: self.found.link_status,
                            vendor_device: self.found.vendor_device,
                            chip_id: self.found.chip_id,
                            msix_cap_offset: self.found.cap_offset,
                            msix_table_size: self.found.table_size,
                            msix_control: value,
                            vector0_config: self.found.vector0,
                        },
                    ),
                );
            },
        }
        let (select, addr): (bool, u64) = self.next_register();
        if select {
            ops.push(
                RegOp::Write {
                    addr: BCM2712_PCIE2_BASE + PCIE_CONFIG_ADDRESS,
                    value: PCIE_CONFIG_SELECT,
                },
            );
        }
        (ops, Next::Read(addr))
    }

    /// The register of the current stage, and whether to select the RP1 first.
    fn next_register(&self) -> (result: (bool, u64))
        requires
            self.wf(),
        ensures
            result.0 == needs_select(self.stage),
            result.1 == stage_addr(self.stage, self.found),
    {
        let config: u64 = BCM2712_PCIE2_BASE + PCIE_CONFIG_DATA;
        match self.stage {
            Stage::LinkStatus => (false, BCM2712_PCIE2_BASE + PCIE_LINK_STATUS),
            Stage::RootBus => (false, BCM2712_PCIE2_BASE + PCI_PRIMARY_BUS),
            Stage::RootCommand => (false, BCM2712_PCIE2_BASE + PCI_COMMAND_STATUS),
            Stage::RootBusBack => (false, BCM2712_PCIE2_BASE + PCI_PRIMARY_BUS),
            Stage::VendorDevice => (true, config),
            Stage::CapabilityPointer => (true, config + PCI_CAP_PTR),
            Stage::Capability { offset, .. } => (true, config + offset as u64),
            Stage::InitialControl => (true, config + self.found.cap_offset as u64),
            Stage::Bar0 => (true, config + PCI_BAR0),
            Stage::Bar1 => (true, config + PCI_BAR1),
            Stage::Bar2 => (true, config + PCI_BAR2),
            Stage::Command => (true, config + PCI_COMMAND_STATUS),
            Stage::ChipId => (false, RP1_PERIPHERAL_BASE),
            Stage::TableInfo => (true, config + (self.found.cap_offset as u64 + 4)),
            Stage::Verify { readback, index } => (
                false,
                expected(readback, index, self.found.table_offset).addr,
            ),
            Stage::Vector0 => (false, RP1_PCIE_APBS_BASE + MSIX_CFG_0),
            Stage::FinalControl => (true, config + self.found.cap_offset as u64),
        }
    }
}

fn can_hold_capability(offset: u8) -> (can: bool)
    ensures
        can == capability_place(offset),
{
    offset >= 0x40 && offset <= 0xFC && offset & 0x3 == 0
}

fn is_memory_bar(value: u32) -> (valid: bool)
    ensures
        valid == valid_bar(value),
{
    value != PCI_CONFIG_READ_ERROR && value != u32::MAX && value & 0x7 == 0
}

fn push_config_write(ops: &mut Vec<RegOp>, offset: u64, value: u32)
    requires
        offset < 0x1000,
    ensures
        final(ops)@ == old(ops)@ + config_write(offset as int, value),
{
    ops.push(
        RegOp::Write { addr: BCM2712_PCIE2_BASE + PCIE_CONFIG_ADDRESS, value: PCIE_CONFIG_SELECT },
    );
    ops.push(RegOp::Write { addr: BCM2712_PCIE2_BASE + PCIE_CONFIG_DATA + offset, value });
    assert(ops@ =~= old(ops)@ + config_write(offset as int, value));
}

fn push_bar_ops(ops: &mut Vec<RegOp>, bar0: u32, bar1: u32, bar2: u32)
    ensures
        final(ops)@ == old(ops)@ + bar_ops(bar0, bar1, bar2),
{
    push_config_write(ops, PCI_BAR0, RP1_BAR0_PCI | (bar0 & 0xF));
    push_config_write(ops, PCI_BAR1, RP1_BAR1_PCI | (bar1 & 0xF));
    push_config_write(ops, PCI_BAR2, RP1_BAR2_PCI | (bar2 & 0xF));
    let window = outbound_window();
    proof {
        assert(0x1F000u32 & 0xFFF == 0 && 0x1F008u32 & 0xFFF == 8 && 0u32 << 4 == 0 && 8u32 << 20
            == 0x0080_0000 && 0u32 | 0x0080_0000u32 == 0x0080_0000) by (bit_vector);
        assert((0x1F000u32 >> 12) & 0xFF == 0x1F && (0x1F008u32 >> 12) & 0xFF == 0x1F)
            by (bit_vector);
    }
    ops.push(RegOp::Write { addr: BCM2712_PCIE2_BASE + PCIE_OUT_WIN0_LO, value: 0 });
    ops.push(RegOp::Write { addr: BCM2712_PCIE2_BASE + PCIE_OUT_WIN0_HI, value: 0 });
    ops.push(
        RegOp::Write {
            addr: BCM2712_PCIE2_BASE + PCIE_OUT_WIN0_BASE_LIMIT,
            value: window.base_limit,
        },
    );
    ops.push(
        RegOp::Write { addr: BCM2712_PCIE2_BASE + PCIE_OUT_WIN0_BASE_HI, value: window.base_hi },
    );
    ops.push(
        RegOp::Write { addr: BCM2712_PCIE2_BASE + PCIE_OUT_WIN0_LIMIT_HI, value: window.limit_hi },
    );
    assert(ops@ =~= old(ops)@ + bar_ops(bar0, bar1, bar2));
}

fn push_quiesce(ops: &mut Vec<RegOp>)
    ensures
        final(ops)@ == old(ops)@ + quiesce_ops(),
{
    let bank: u64 = RP1_PERIPHERAL_BASE + RP1_IO_BANK0_OFFSET;
    ops.push(
        RegOp::Write {
            addr: bank + RP1_IO_BANK0_ATOMIC_CLEAR + RP1_IO_BANK0_PCIE_INTE,
            value: RP1_GPIO_ALL,
        },
    );
    let ghost start = ops@;
    let mut pin: u64 = 0;
    while pin < RP1_GPIO_COUNT
        invariant
            pin <= RP1_GPIO_COUNT,
            bank == RP1_PERIPHERAL_BASE + RP1_IO_BANK0_OFFSET,
            ops@ =~= start + quiesce_pins(pin as nat),
        decreases RP1_GPIO_COUNT - pin,
    {
        let ctrl: u64 = pin * RP1_GPIO_STRIDE + RP1_GPIO_CTRL;
        ops.push(
            RegOp::Write {
                addr: bank + RP1_IO_BANK0_ATOMIC_CLEAR + ctrl,
                value: RP1_GPIO_EVENT_ENABLE_MASK,
            },
        );
        ops.push(
            RegOp::Write { addr: bank + RP1_IO_BANK0_ATOMIC_SET + ctrl, value: RP1_GPIO_IRQRESET },
        );
        pin = pin + 1;
    }
    assert(ops@ =~= old(ops)@ + quiesce_ops());
}

fn push_inbound(ops: &mut Vec<RegOp>)
    ensures
        final(ops)@ == old(ops)@ + inbound_ops(),
{
    let window = mip_window();
    ops.push(
        RegOp::Write { addr: BCM2712_PCIE2_BASE + PCIE_RC_BAR1_CONFIG_LO, value: window.pci_low },
    );
    ops.push(
        RegOp::Write { addr: BCM2712_PCIE2_BASE + PCIE_RC_BAR1_CONFIG_HI, value: window.pci_high },
    );
    ops.push(
        RegOp::Write { addr: BCM2712_PCIE2_BASE + PCIE_UBUS_BAR1_REMAP_LO, value: window.cpu_low },
    );
    ops.push(
        RegOp::Write { addr: BCM2712_PCIE2_BASE + PCIE_UBUS_BAR1_REMAP_HI, value: window.cpu_high },
    );
    assert(ops@ =~= old(ops)@ + inbound_ops());
}

fn push_mip(ops: &mut Vec<RegOp>)
    ensures
        final(ops)@ == old(ops)@ + mip_ops(),
{
    ops.push(RegOp::Write { addr: BCM2712_MIP0_BASE + MIP_INT_MASKL_HOST, value: 0 });
    ops.push(RegOp::Write { addr: BCM2712_MIP0_BASE + MIP_INT_MASKH_HOST, value: 0 });
    ops.push(RegOp::Write { addr: BCM2712_MIP0_BASE + MIP_INT_MASKL_VPU, value: u32::MAX });
    ops.push(RegOp::Write { addr: BCM2712_MIP0_BASE + MIP_INT_MASKH_VPU, value: u32::MAX });
    ops.push(RegOp::Write { addr: BCM2712_MIP0_BASE + MIP_INT_CFGL_HOST, value: u32::MAX });
    ops.push(RegOp::Write { addr: BCM2712_MIP0_BASE + MIP_INT_CFGH_HOST, value: u32::MAX });
    assert(ops@ =~= old(ops)@ + mip_ops());
}

fn push_table(ops: &mut Vec<RegOp>, table_offset: u32, table_size: u16)
    requires
        table_size <= 64,
        table_offset <= RP1_MSIX_BAR_SIZE,
    ensures
        final(ops)@ == old(ops)@ + table_ops(table_offset, table_size),
{
    let table: u64 = RP1_PERIPHERAL_BASE + RP1_BAR0_PCI as u64 + table_offset as u64;
    let ghost start = ops@;
    let mut vector: u16 = 0;
    while vector < table_size
        invariant
            vector <= table_size,
            table_size <= 64,
            table_offset <= RP1_MSIX_BAR_SIZE,
            table == table_addr(table_offset),
            ops@ =~= start + mask_ops(table_offset, vector as nat),
        decreases table_size - vector,
    {
        ops.push(
            RegOp::Write { addr: table + vector as u64 * MSIX_ENTRY_SIZE + 12, value: 1 },
        );
        vector = vector + 1;
    }
    ops.push(RegOp::Write { addr: table, value: 0xFFFF_F000 });
    ops.push(RegOp::Write { addr: table + 4, value: 0xFF });
    ops.push(RegOp::Write { addr: table + 8, value: MSI_VECTOR_IO_BANK0 });
    ops.push(RegOp::Write { addr: table + 12, value: 0 });
    assert(ops@ =~= old(ops)@ + table_ops(table_offset, table_size));
}

fn expected(readback: Readback, index: u8, table_offset: u32) -> (check: Check)
    requires
        index < check_count(readback),
    ensures
        check == check_at(readback, index as int, table_offset),
{
    let all: u32 = u32::MAX;
    let table: u64 = RP1_PERIPHERAL_BASE + RP1_BAR0_PCI as u64 + table_offset as u64;
    match readback {
        Readback::Inbound => {
            let window = mip_window();
            if index == 0 {
                Check {
                    addr: BCM2712_PCIE2_BASE + PCIE_RC_BAR1_CONFIG_LO,
                    mask: all,
                    expect: window.pci_low,
                }
            } else if index == 1 {
                Check {
                    addr: BCM2712_PCIE2_BASE + PCIE_RC_BAR1_CONFIG_HI,
                    mask: all,
                    expect: window.pci_high,
                }
            } else if index == 2 {
                Check {
                    addr: BCM2712_PCIE2_BASE + PCIE_UBUS_BAR1_REMAP_LO,
                    mask: all,
                    expect: window.cpu_low,
                }
            } else {
                Check {
                    addr: BCM2712_PCIE2_BASE + PCIE_UBUS_BAR1_REMAP_HI,
                    mask: all,
                    expect: window.cpu_high,
                }
            }
        },
        Readback::Mip => {
            if index == 0 {
                Check { addr: BCM2712_MIP0_BASE + MIP_INT_MASKL_HOST, mask: all, expect: 0 }
            } else if index == 1 {
                Check { addr: BCM2712_MIP0_BASE + MIP_INT_MASKH_HOST, mask: all, expect: 0 }
            } else if index == 2 {
                Check { addr: BCM2712_MIP0_BASE + MIP_INT_MASKL_VPU, mask: all, expect: all }
            } else if index == 3 {
                Check { addr: BCM2712_MIP0_BASE + MIP_INT_MASKH_VPU, mask: all, expect: all }
            } else if index == 4 {
                Check { addr: BCM2712_MIP0_BASE + MIP_INT_CFGL_HOST, mask: all, expect: all }
            } else {
                Check { addr: BCM2712_MIP0_BASE + MIP_INT_CFGH_HOST, mask: all, expect: all }
            }
        },
        Readback::Table => {
            if index == 0 {
                Check { addr: table, mask: all, expect: 0xFFFF_F000 }
            } else if index == 1 {
                Check { addr: table + 4, mask: all, expect: 0xFF }
            } else if index == 2 {
                Check { addr: table + 8, mask: all, expect: MSI_VECTOR_IO_BANK0 }
            } else {
                Check { addr: table + 12, mask: 1, expect: 0 }
            }
        },
    }
}

/// Begin to set the route of the GPIO bank up.
pub fn initialize_gpio_route() -> (init: RouteInit)
    ensures
        init.wf(),
        init == RouteInit::start(),
{
    RouteInit::new()
}

/// The write that acknowledges vector 0 once its sources are cleared.
pub fn acknowledge_gpio_vector() -> (op: RegOp)
    ensures
        op == (RegOp::Write {
            addr: (RP1_PCIE_APBS_BASE + RP1_PCIE_REG_SET + MSIX_CFG_0) as u64,
            value: MSIX_CFG_IACK,
        }),
{
    RegOp::Write {
        addr: RP1_PCIE_APBS_BASE + RP1_PCIE_REG_SET + MSIX_CFG_0,
        value: MSIX_CFG_IACK,
    }
}

/// Law: a route that is reported complete has every stage proven: the link is
/// up, the device and chip are the expected ones, the table is of usable size,
/// vector 0 is enabled with its handshake, and messages are enabled and not
/// masked.
pub proof fn law_complete_route_is_proven(init: RouteInit, value: u32)
    requires
        init.wf(),
        turn(init.stage, init.found, value) is End,
        turn(init.stage, init.found, value)->End_0 is Done,
    ensures
        ({
            let route = turn(init.stage, init.found, value)->End_0->Done_0;
            &&& route.pcie_link_status & PCIE_LINK_UP == PCIE_LINK_UP
            &&& route.vendor_device == RP1_VENDOR_DEVICE
            &&& route.chip_id == RP1_CHIP_ID
            &&& 1 <= route.msix_table_size <= 64
            &&& capability_place(route.msix_cap_offset)
            &&& route.vector0_config & (MSIX_CFG_ENABLE | MSIX_CFG_IACK_ENABLE) == MSIX_CFG_ENABLE
                | MSIX_CFG_IACK_ENABLE
            &&& route.msix_control & (PCI_MSIX_ENABLE | PCI_MSIX_FUNCTION_MASK) == PCI_MSIX_ENABLE
        }),
{
}

/// Law: the set-up ends whatever is read: every reading ends it or moves it on.
pub proof fn law_setup_terminates(init: RouteInit, value: u32)
    requires
        init.wf(),
    ensures
        match turn(init.stage, init.found, value) {
            Turn::Go { stage, .. } => progress(init.stage) < progress(stage) <= 101,
            Turn::End(_) => true,
        },
{
}

/// Law: what is read back of a stage is what was written for it, register by register.
pub proof fn law_read_back_matches_writes(readback: Readback, index: int, offset: u32, size: u16)
    requires
        0 <= index < check_count(readback),
    ensures
        ({
            let check = check_at(readback, index, offset);
            let ops = match readback {
                Readback::Inbound => inbound_ops(),
                Readback::Mip => mip_ops(),
                Readback::Table => table_ops(offset, size),
            };
            let at = ops.len() - check_count(readback) + index;
            &&& 0 <= at < ops.len()
            &&& ops[at] == (RegOp::Write { addr: check.addr, value: check.expect })
            &&& check.mask == 0xFFFF_FFFF || (readback is Table && index == 3 && check.mask == 1)
        }),
{
}

/// Law: messages go to address FF FFFF F000 as vector 0; every vector of the table is
/// masked first, and only vector 0 is unmasked, last.
pub proof fn law_only_vector_zero_is_open(offset: u32, size: u16, vector: int)
    requires
        0 <= vector < size,
    ensures
        ({
            let ops = table_ops(offset, size);
            let table = RP1_PERIPHERAL_BASE + 0x80_0000 + offset;
            let n = size as int;
            &&& ops.len() == n + 4
            &&& ops[vector] == (RegOp::Write { addr: (table + 16 * vector + 12) as u64, value: 1 })
            &&& ops[n] == (RegOp::Write { addr: table as u64, value: 0xFFFF_F000 })
            &&& ops[n + 1] == (RegOp::Write { addr: (table + 4) as u64, value: 0xFF })
            &&& ops[n + 2] == (RegOp::Write { addr: (table + 8) as u64, value: 0 })
            &&& ops[n + 3] == (RegOp::Write { addr: (table + 12) as u64, value: 0 })
        }),
{
    lemma_mask_ops(offset, size as nat, vector);
}

proof fn lemma_mask_ops(offset: u32, count: nat, vector: int)
    ensures
        mask_ops(offset, count).len() == count,
        0 <= vector < count ==> mask_ops(offset, count)[vector] == (RegOp::Write {
            addr: (table_addr(offset) + vector * 16 + 12) as u64,
            value: 1,
        }),
    decreases count,
{
    if count > 0 {
        lemma_mask_ops(offset, (count - 1) as nat, vector);
    }
}

/// Law: the windows. The RP1's nine mebibytes are opened at 1F 0000 0000 and its parts
/// placed at 0, 4 and 8 MiB of PCI; messages are let through to the message block, whose
/// host side is open and whose other side is closed.
pub proof fn law_route_windows(bar0: u32, bar1: u32, bar2: u32)
    ensures
        ({
            let pcie = BCM2712_PCIE2_BASE;
            let ops = bar_ops(bar0, bar1, bar2);
            &&& ops.len() == 11
            &&& ops[1] == (RegOp::Write {
                addr: (pcie + 0x8010) as u64,
                value: 0x80_0000u32 | (bar0 & 0xF),
            })
            &&& ops[3] == (RegOp::Write {
                addr: (pcie + 0x8014) as u64,
                value: 0u32 | (bar1 & 0xF),
            })
            &&& ops[5] == (RegOp::Write {
                addr: (pcie + 0x8018) as u64,
                value: 0x40_0000u32 | (bar2 & 0xF),
            })
            &&& ops[6] == (RegOp::Write { addr: (pcie + 0x400C) as u64, value: 0 })
            &&& ops[7] == (RegOp::Write { addr: (pcie + 0x4010) as u64, value: 0 })
            &&& ops[8] == (RegOp::Write { addr: (pcie + 0x4070) as u64, value: 0x80_0000 })
            &&& ops[9] == (RegOp::Write { addr: (pcie + 0x4080) as u64, value: 0x1F })
            &&& ops[10] == (RegOp::Write { addr: (pcie + 0x4084) as u64, value: 0x1F })
            &&& inbound_ops() == seq![
                (RegOp::Write { addr: (pcie + 0x402C) as u64, value: 0xFFFF_F01C }),
                (RegOp::Write { addr: (pcie + 0x4030) as u64, value: 0xFF }),
                (RegOp::Write { addr: (pcie + 0x40AC) as u64, value: 0x0013_0001 }),
                (RegOp::Write { addr: (pcie + 0x40B0) as u64, value: 0x10 }),
            ]
            &&& mip_ops()[0] == (RegOp::Write {
                addr: (BCM2712_MIP0_BASE + 0x40) as u64,
                value: 0,
            })
            &&& mip_ops()[1] == (RegOp::Write {
                addr: (BCM2712_MIP0_BASE + 0x50) as u64,
                value: 0,
            })
            &&& mip_ops()[2] == (RegOp::Write {
                addr: (BCM2712_MIP0_BASE + 0x60) as u64,
                value: 0xFFFF_FFFF,
            })
            &&& mip_ops()[3] == (RegOp::Write {
                addr: (BCM2712_MIP0_BASE + 0x70) as u64,
                value: 0xFFFF_FFFF,
            })
            &&& mip_ops()[4] == (RegOp::Write {
                addr: (BCM2712_MIP0_BASE + 0x20) as u64,
                value: 0xFFFF_FFFF,
            })
            &&& mip_ops()[5] == (RegOp::Write {
                addr: (BCM2712_MIP0_BASE + 0x30) as u64,
                value: 0xFFFF_FFFF,
            })
        }),
{
    assert(inbound_ops() =~= seq![
        (RegOp::Write { addr: (BCM2712_PCIE2_BASE + 0x402C) as u64, value: 0xFFFF_F01C }),
        (RegOp::Write { addr: (BCM2712_PCIE2_BASE + 0x4030) as u64, value: 0xFF }),
        (RegOp::Write { addr: (BCM2712_PCIE2_BASE + 0x40AC) as u64, value: 0x0013_0001 }),
        (RegOp::Write { addr: (BCM2712_PCIE2_BASE + 0x40B0) as u64, value: 0x10 }),
    ]);
}

/// Law: the bank is quieted before its table is looked at: no pin is passed on, and every
/// pin has its events off and is reset.
pub proof fn law_bank_is_quieted(pin: int)
    requires
        0 <= pin < 28,
    ensures
        ({
            let ops = quiesce_ops();
            let bank = RP1_PERIPHERAL_BASE + 0xD_0000;
            &&& ops.len() == 57
            &&& ops[0] == (RegOp::Write {
                addr: (bank + 0x3000 + 0x11C) as u64,
                value: 0x0FFF_FFFF,
            })
            &&& ops[1 + 2 * pin] == (RegOp::Write {
                addr: (bank + 0x3000 + 8 * pin + 4) as u64,
                value: 0x00F0_0000,
            })
            &&& ops[2 + 2 * pin] == (RegOp::Write {
                addr: (bank + 0x2000 + 8 * pin + 4) as u64,
                value: 0x1000_0000,
            })
        }),
{
    lemma_quiesce_pins(28, pin);
}

proof fn lemma_quiesce_pins(count: nat, pin: int)
    ensures
        quiesce_pins(count).len() == 2 * count,
        0 <= pin < count ==> {
            let bank = RP1_PERIPHERAL_BASE + 0xD_0000;
            &&& quiesce_pins(count)[2 * pin] == (RegOp::Write {
                addr: (bank + 0x3000 + pin * 8 + 4) as u64,
                value: 0x00F0_0000,
            })
            &&& quiesce_pins(count)[2 * pin + 1] == (RegOp::Write {
                addr: (bank + 0x2000 + pin * 8 + 4) as u64,
                value: 0x1000_0000,
            })
        },
    decreases count,
{
    if count > 0 {
        lemma_quiesce_pins((count - 1) as nat, pin);
    }
}

/// Law: where the route gives up. The link must be up, the buses numbered, and the device
/// the RP1 with the right chip, before anything is connected to it; what cannot be read is
/// never taken for a register.
pub proof fn law_route_gives_up(found: Found, value: u32)
    ensures
        value & 0x30 != 0x30 <==> turn(Stage::LinkStatus, found, value) == fail(
            Rp1InterruptRouteError::PcieLinkDown(value),
        ),
        value & 0x00FF_FFFF != 0x0001_0100 <==> turn(Stage::RootBusBack, found, value) == fail(
            Rp1InterruptRouteError::RootBusReadback(value),
        ),
        value != 0x0001_1DE4 <==> turn(Stage::VendorDevice, found, value) == fail(
            Rp1InterruptRouteError::EndpointUnavailable(value),
        ),
        value != 0x2000_1927 <==> turn(Stage::ChipId, found, value) == fail(
            Rp1InterruptRouteError::Rp1BarUnavailable(value),
        ),
        value == 0xDEAD_DEAD || value == 0xFFFF_FFFF <==> turn(Stage::InitialControl, found, value)
            == fail(Rp1InterruptRouteError::InvalidMsixCapability(value)),
        value == 0xDEAD_DEAD || value & (0x01u32 | 0x08) != 0x01u32 | 0x08 <==> turn(
            Stage::Vector0,
            found,
            value,
        ) == fail(Rp1InterruptRouteError::Rp1VectorReadback(value)),
        value & (0x8000_0000u32 | 0x4000_0000) != 0x8000_0000 <==> turn(
            Stage::FinalControl,
            found,
            value,
        ) == fail(Rp1InterruptRouteError::GlobalMsixReadback(value)),
{
}

/// Law: the function of all vectors is masked, and not enabled, from the moment its control
/// is known until the vector is proven; only then it is enabled and unmasked.
pub proof fn law_vectors_are_masked_meanwhile(found: Found, value: u32)
    requires
        readable(value),
    ensures
        match turn(Stage::InitialControl, found, value) {
            Turn::Go { stage, found: after, ops } => {
                &&& stage is Bar0
                &&& after.control == value
                &&& ops.len() == 2
                &&& ops[1] == (RegOp::Write {
                    addr: (BCM2712_PCIE2_BASE + 0x8000 + found.cap_offset) as u64,
                    value: (value | 0x4000_0000) & !0x8000_0000u32,
                })
            },
            Turn::End(_) => false,
        },
        value & (0x01u32 | 0x08) == 0x01u32 | 0x08 ==> match turn(Stage::Vector0, found, value) {
            Turn::Go { stage, found: after, ops } => {
                &&& stage is FinalControl
                &&& after.vector0 == value
                &&& ops[1] == (RegOp::Write {
                    addr: (BCM2712_PCIE2_BASE + 0x8000 + found.cap_offset) as u64,
                    value: (found.control | 0x8000_0000) & !0x4000_0000u32,
                })
            },
            Turn::End(_) => false,
        },
{
}

/// Law: the capability is found by its number 11, in the list of at most 48 that starts at
/// 34; what is not a place for one ends the search.
pub proof fn law_capability_search(found: Found, offset: u8, left: u8, value: u32)
    requires
        left > 0,
    ensures
        readable(value) && value & 0xFF == 0x11 ==> match turn(
            Stage::Capability { offset, left },
            found,
            value,
        ) {
            Turn::Go { stage, found: after, ops } => stage is InitialControl && after.cap_offset
                == offset,
            Turn::End(_) => false,
        },
        capability_place(offset) <==> 0x40 <= offset <= 0xFC && offset & 0x3 == 0,
        stage_addr(Stage::CapabilityPointer, found) == BCM2712_PCIE2_BASE + 0x8034,
        stage_addr(Stage::LinkStatus, found) == BCM2712_PCIE2_BASE + 0x4068,
        stage_addr(Stage::VendorDevice, found) == BCM2712_PCIE2_BASE + 0x8000,
        stage_addr(Stage::ChipId, found) == RP1_PERIPHERAL_BASE,
        stage_addr(Stage::Vector0, found) == RP1_PCIE_APBS_BASE + 8,
        match turn(Stage::CapabilityPointer, found, value) {
            Turn::Go { stage, found: after, ops } => stage == (Stage::Capability {
                offset: (value & 0xFC) as u8,
                left: 48,
            }),
            Turn::End(next) => next == Next::Failed(Rp1InterruptRouteError::MissingMsixCapability)
                && !capability_place((value & 0xFC) as u8),
        },
{
}

/// Law: the acknowledgement of vector 0 sets bit 2 of its configuration, and no other bit.
pub proof fn law_acknowledgement(op: RegOp)
    requires
        call_ensures(acknowledge_gpio_vector, (), op),
    ensures
        op == (RegOp::Write { addr: (RP1_PERIPHERAL_BASE + 0x10_8808) as u64, value: 4 }),
{
}

/// Law: what the capability must say: a table of at most 64 entries of sixteen bytes, in BAR 0
/// and within 64 KiB, whose size is one more than the eleven bits from bit 16 on.
pub proof fn law_table_bounds(info: u32, control: u32)
    ensures
        table_fits(info, control) <==> info & 7 == 0 && table_size_of(control) <= 64 && (info
            & !7u32) + 16 * table_size_of(control) <= 0x1_0000,
        control >> 16 & 0x7FF < 0x7FF ==> table_size_of(control) == (control >> 16 & 0x7FF) + 1,
        valid_bar(info) <==> info != 0xDEAD_DEAD && info != 0xFFFF_FFFF && info & 7 == 0,
{
}

/// Law: the device is selected for exactly the registers in its configuration space, and each
/// stage reads its own register.
pub proof fn law_where_stages_read(stage: Stage, found: Found)
    ensures
        ({
            let pcie = BCM2712_PCIE2_BASE;
            let config = pcie + 0x8000;
            let at = stage_addr(stage, found);
            &&& needs_select(stage) <==> !(stage is LinkStatus || stage is RootBus
                || stage is RootCommand || stage is RootBusBack || stage is ChipId
                || stage is Verify || stage is Vector0)
            &&& stage is RootBus || stage is RootBusBack ==> at == pcie + 0x18
            &&& stage is RootCommand ==> at == pcie + 4
            &&& stage is Command ==> at == config + 4
            &&& stage is Bar0 ==> at == config + 0x10
            &&& stage is Bar1 ==> at == config + 0x14
            &&& stage is Bar2 ==> at == config + 0x18
            &&& stage is Capability ==> at == config + stage->offset
            &&& stage is InitialControl || stage is FinalControl ==> at == config
                + found.cap_offset
            &&& stage is TableInfo ==> at == config + found.cap_offset + 4
            &&& select_op() == (RegOp::Write { addr: (pcie + 0x9000) as u64, value: 0x10_0000 })
        }),
{
}

/// Law: the route begins at the link, with nothing known.
pub proof fn law_route_begins_at_the_link()
    ensures
        ({
            let init = RouteInit::start();
            let found = init.found;
            &&& init.stage is LinkStatus
            &&& found.link_status == 0 && found.vendor_device == 0 && found.chip_id == 0
            &&& found.cap_offset == 0 && found.control == 0 && found.vector0 == 0
            &&& found.bar0 == 0 && found.bar1 == 0
            &&& found.table_offset == 0 && found.table_size == 0
        }),
{
}

} // verus!
