//! What an exception means and what is done about it.

use vstd::prelude::*;

use crate::arch::paging::{
    entry_addr, flags_of, frame_address, lemma_kept_twice, lemma_way_facts, mapped_by, pte_bits,
    same_entry, PageTableFlags, PageTableWalker, TableMemory, TablesModel, PAGE_SIZE, PTE_ADDR_MASK,
};

verus! {

/// The vector table: one slot of 128 bytes for each kind of exception and each
/// place that it comes from.
pub struct ExceptionVectorTable {
    pub curr_el_sp0_sync: [u8; 128],
    pub curr_el_sp0_irq: [u8; 128],
    pub curr_el_sp0_fiq: [u8; 128],
    pub curr_el_sp0_serror: [u8; 128],
    pub curr_el_spx_sync: [u8; 128],
    pub curr_el_spx_irq: [u8; 128],
    pub curr_el_spx_fiq: [u8; 128],
    pub curr_el_spx_serror: [u8; 128],
    pub lower_el_aarch64_sync: [u8; 128],
    pub lower_el_aarch64_irq: [u8; 128],
    pub lower_el_aarch64_fiq: [u8; 128],
    pub lower_el_aarch64_serror: [u8; 128],
    pub lower_el_aarch32_sync: [u8; 128],
    pub lower_el_aarch32_irq: [u8; 128],
    pub lower_el_aarch32_fiq: [u8; 128],
    pub lower_el_aarch32_serror: [u8; 128],
}

/// The registers that are saved on entry to an exception.
#[derive(Debug, Clone, Copy, PartialEq, Eq, Structural)]
pub struct ExceptionContext {
    pub x0: u64,
    pub x1: u64,
    pub x2: u64,
    pub x3: u64,
    pub x4: u64,
    pub x5: u64,
    pub x6: u64,
    pub x7: u64,
    pub x8: u64,
    pub x9: u64,
    pub x10: u64,
    pub x11: u64,
    pub x12: u64,
    pub x13: u64,
    pub x14: u64,
    pub x15: u64,
    pub x16: u64,
    pub x17: u64,
    pub x18: u64,
    pub x19: u64,
    pub x20: u64,
    pub x21: u64,
    pub x22: u64,
    pub x23: u64,
    pub x24: u64,
    pub x25: u64,
    pub x26: u64,
    pub x27: u64,
    pub x28: u64,
    /// Frame pointer.
    pub x29: u64,
    /// Link register.
    pub x30: u64,
    /// Where the exception came from.
    pub elr: u64,
    /// Saved program status.
    pub spsr: u64,
    /// User stack pointer.
    pub sp_el0: u64,
    /// Counter at the start of the vector.
    pub vector_entry_timestamp: u64,
}

// ---------------------------------------------------------------------------
// Telemetry
// ---------------------------------------------------------------------------

/// A hexadecimal digit.
pub open spec fn hex_digit(nibble: int) -> u8 {
    if nibble < 10 {
        (0x30 + nibble) as u8
    } else {
        (0x37 + nibble) as u8
    }
}

pub open spec fn pow16(n: nat) -> int
    decreases n,
{
    if n == 0 {
        1
    } else {
        16 * pow16((n - 1) as nat)
    }
}

/// The last `digits` hexadecimal digits of a value, the most significant first.
pub open spec fn hex_digits(value: int, digits: nat) -> Seq<u8> {
    Seq::new(digits, |i: int| hex_digit((value / pow16((digits - 1 - i) as nat)) % 16))
}

/// The digit of the low four bits.
pub fn hex_nibble(value: u64) -> (digit: u8)
    ensures
        digit == hex_digit(value as int % 16),
{
    let nibble: u8 = (value % 16) as u8;
    if nibble < 10 {
        0x30 + nibble
    } else {
        0x37 + nibble
    }
}

/// Append the last `digits` hexadecimal digits of `value`.
fn push_hex(out: &mut Vec<u8>, value: u64, digits: usize)
    requires
        digits <= 16,
    ensures
        final(out)@ == old(out)@ + hex_digits(value as int, digits as nat),
{
    let ghost start = out@;
    let mut left: usize = digits;
    assert(out@ =~= start + hex_digits(value as int, digits as nat).subrange(0, 0));
    while left > 0
        invariant
            left <= digits <= 16,
            out@ == start + hex_digits(value as int, digits as nat).subrange(0, digits - left),
        decreases left,
    {
        let mut divisor: u64 = 1;
        let mut i: usize = 1;
        while i < left
            invariant
                1 <= i <= left <= 16,
                divisor == pow16((i - 1) as nat),
                0 < divisor <= 0x1000_0000_0000_0000,
                i < 16 ==> divisor <= 0x100_0000_0000_0000,
            decreases left - i,
        {
            proof {
                lemma_pow16_bound(i as nat);
                if i + 1 < 16 {
                    lemma_pow16_bound((i + 1) as nat);
                }
            }
            divisor = divisor * 16;
            i = i + 1;
        }
        out.push(hex_nibble(value / divisor));
        left = left - 1;
        assert(out@ =~= start + hex_digits(value as int, digits as nat).subrange(0, digits - left));
    }
    assert(hex_digits(value as int, digits as nat).subrange(0, digits as int) =~= hex_digits(
        value as int,
        digits as nat,
    ));
}

proof fn lemma_pow16_bound(n: nat)
    requires
        n < 16,
    ensures
        0 < pow16(n),
        n <= 15 ==> pow16(n) <= 0x1000_0000_0000_0000,
        n <= 14 ==> pow16(n) <= 0x100_0000_0000_0000,
{
    reveal_with_fuel(pow16, 16);
}

/// The eight digits of a word.
pub fn hex_u32(value: u32) -> (text: Vec<u8>)
    ensures
        text@ == hex_digits(value as int, 8),
{
    let mut out: Vec<u8> = Vec::new();
    push_hex(&mut out, value as u64, 8);
    assert(out@ =~= hex_digits(value as int, 8));
    out
}

/// The sixteen digits of a double word.
pub fn hex_u64(value: u64) -> (text: Vec<u8>)
    ensures
        text@ == hex_digits(value as int, 16),
{
    let mut out: Vec<u8> = Vec::new();
    push_hex(&mut out, value, 16);
    assert(out@ =~= hex_digits(value as int, 16));
    out
}

/// What the processor says of an exception.
#[derive(Debug, Clone, Copy, PartialEq, Eq, Structural)]
pub struct Syndrome {
    pub esr: u64,
    pub elr: u64,
    pub far: u64,
    pub spsr: u64,
}

/// The telemetry of an exception that is not handled: each register behind a
/// letter, closed by `!`.
pub open spec fn unknown_packet(
    syndrome: Syndrome,
    ttbr0: u64,
    pid: Option<u64>,
    insn0: u32,
    insn1: u32,
    sp_el0: u64,
) -> Seq<u8> {
    let ec = exception_class(syndrome.esr);
    let head = seq![0x59u8] + hex_digits(ec, 2) + seq![0x45u8] + hex_digits(syndrome.elr as int, 16)
        + seq![0x52u8] + hex_digits(syndrome.esr as int, 16) + seq![0x50u8] + hex_digits(
        syndrome.spsr as int,
        16,
    ) + seq![0x46u8] + hex_digits(syndrome.far as int, 16) + seq![0x54u8] + hex_digits(
        ttbr0 as int,
        16,
    );
    let process = match pid {
        Some(pid) => seq![0x51u8] + hex_digits(pid as int, 16),
        None => Seq::empty(),
    };
    head + process + seq![0x49u8] + hex_digits(insn0 as int, 8) + seq![0x4Au8] + hex_digits(
        insn1 as int,
        8,
    ) + seq![0x53u8] + hex_digits(sp_el0 as int, 16) + seq![0x21u8]
}

/// Append a letter and the digits of a register.
fn push_register(out: &mut Vec<u8>, letter: u8, value: u64, digits: usize)
    requires
        digits <= 16,
    ensures
        final(out)@ == old(out)@ + seq![letter] + hex_digits(value as int, digits as nat),
{
    let ghost start = out@;
    out.push(letter);
    assert(out@ =~= start + seq![letter]);
    push_hex(out, value, digits);
}

/// Build the telemetry of an exception that is not handled.
pub fn unhandled_packet(
    syndrome: Syndrome,
    ttbr0: u64,
    pid: Option<u64>,
    insn0: u32,
    insn1: u32,
    sp_el0: u64,
) -> (packet: Vec<u8>)
    ensures
        packet@ == unknown_packet(syndrome, ttbr0, pid, insn0, insn1, sp_el0),
{
    let mut out: Vec<u8> = Vec::new();
    push_register(&mut out, 0x59, class_of(syndrome.esr), 2);
    push_register(&mut out, 0x45, syndrome.elr, 16);
    push_register(&mut out, 0x52, syndrome.esr, 16);
    push_register(&mut out, 0x50, syndrome.spsr, 16);
    push_register(&mut out, 0x46, syndrome.far, 16);
    push_register(&mut out, 0x54, ttbr0, 16);
    let ghost head = out@;
    match pid {
        Some(pid) => push_register(&mut out, 0x51, pid, 16),
        None => {},
    }
    let ghost process = match pid {
        Some(pid) => seq![0x51u8] + hex_digits(pid as int, 16),
        None => Seq::empty(),
    };
    assert(out@ =~= head + process);
    push_register(&mut out, 0x49, insn0 as u64, 8);
    push_register(&mut out, 0x4A, insn1 as u64, 8);
    push_register(&mut out, 0x53, sp_el0, 16);
    out.push(0x21);
    assert(out@ =~= unknown_packet(syndrome, ttbr0, pid, insn0, insn1, sp_el0));
    out
}

/// The telemetry of a data abort.
pub open spec fn data_abort_packet(elr: u64, far: u64, iss: u64) -> Seq<u8> {
    seq![0x58u8] + hex_digits(elr as int, 16) + seq![0x59u8] + hex_digits(far as int, 16) + seq![
        if is_write(iss) {
            0x57u8
        } else {
            0x52u8
        },
    ] + seq![0x5Au8] + hex_digits(iss as int, 2)
}

/// Build the telemetry of a data abort.
pub fn abort_packet(elr: u64, far: u64, iss: u64) -> (packet: Vec<u8>)
    ensures
        packet@ == data_abort_packet(elr, far, iss),
{
    let mut out: Vec<u8> = Vec::new();
    push_register(&mut out, 0x58, elr, 16);
    push_register(&mut out, 0x59, far, 16);
    let letter: u8 = if write_bit(iss) {
        0x57
    } else {
        0x52
    };
    out.push(letter);
    push_register(&mut out, 0x5A, iss, 2);
    assert(out@ =~= data_abort_packet(elr, far, iss));
    out
}

/// The telemetry of an exception through a vector that should not be taken.
pub fn invalid_packet(kind: u64, source: u64) -> (packet: Vec<u8>)
    ensures
        packet@ == seq![0x4Eu8, hex_digit(kind as int % 16), hex_digit(source as int % 16)],
{
    let packet: Vec<u8> = vec![0x4E, hex_nibble(kind), hex_nibble(source)];
    assert(packet@ =~= seq![0x4Eu8, hex_digit(kind as int % 16), hex_digit(source as int % 16)]);
    packet
}

/// The physical address that a probed translation gives, from the address and the
/// value of the result register. The lowest bit of that tells of a fault.
pub fn probed_address(par: u64, va: u64) -> (pa: Option<u64>)
    ensures
        pa == if par as int % 2 == 1 {
            None
        } else {
            Some((entry_addr(par) + va % PAGE_SIZE) as u64)
        },
{
    if par % 2 == 1 {
        return None;
    }
    assert(par & 0x0000_FFFF_FFFF_F000 <= 0x0000_FFFF_FFFF_F000) by (bit_vector);
    Some((par & PTE_ADDR_MASK) + va % PAGE_SIZE)
}

// ---------------------------------------------------------------------------
// Classes
// ---------------------------------------------------------------------------

/// The class of an exception.
pub open spec fn exception_class(esr: u64) -> int {
    esr as int / 0x400_0000 % 64
}

/// What the class leaves open.
pub open spec fn instruction_syndrome(esr: u64) -> int {
    esr as int % 0x200_0000
}

fn class_of(esr: u64) -> (class: u64)
    ensures
        class == exception_class(esr),
{
    esr / 0x400_0000 % 64
}

/// What a synchronous exception is.
#[derive(Debug, Clone, Copy, PartialEq, Eq, Structural)]
pub enum SyncException {
    SystemCall,
    InstructionAbort,
    DataAbort { iss: u64 },
    Unknown { class: u64 },
}

/// Tell synchronous exceptions apart.
pub fn classify(esr: u64) -> (exception: SyncException)
    ensures
        exception == if exception_class(esr) == 0x15 {
            SyncException::SystemCall
        } else if exception_class(esr) == 0x20 || exception_class(esr) == 0x21 {
            SyncException::InstructionAbort
        } else if exception_class(esr) == 0x24 || exception_class(esr) == 0x25 {
            SyncException::DataAbort { iss: instruction_syndrome(esr) as u64 }
        } else {
            SyncException::Unknown { class: exception_class(esr) as u64 }
        },
{
    let class: u64 = class_of(esr);
    if class == 0x15 {
        SyncException::SystemCall
    } else if class == 0x20 || class == 0x21 {
        SyncException::InstructionAbort
    } else if class == 0x24 || class == 0x25 {
        SyncException::DataAbort { iss: esr % 0x200_0000 }
    } else {
        SyncException::Unknown { class }
    }
}

/// Why a data access failed.
#[derive(Debug, Clone, Copy, PartialEq, Eq, Structural)]
pub enum DataFaultCode {
    TranslationFaultL0,
    TranslationFaultL1,
    TranslationFaultL2,
    TranslationFaultL3,
    AccessFlagFaultL1,
    AccessFlagFaultL2,
    AccessFlagFaultL3,
    PermissionFaultL1,
    PermissionFaultL2,
    PermissionFaultL3,
    AlignmentFault,
    SyncExternalAbort,
}

/// The fault with a status code.
pub open spec fn fault_of(status: int) -> Option<DataFaultCode> {
    if status == 4 {
        Some(DataFaultCode::TranslationFaultL0)
    } else if status == 5 {
        Some(DataFaultCode::TranslationFaultL1)
    } else if status == 6 {
        Some(DataFaultCode::TranslationFaultL2)
    } else if status == 7 {
        Some(DataFaultCode::TranslationFaultL3)
    } else if status == 9 {
        Some(DataFaultCode::AccessFlagFaultL1)
    } else if status == 10 {
        Some(DataFaultCode::AccessFlagFaultL2)
    } else if status == 11 {
        Some(DataFaultCode::AccessFlagFaultL3)
    } else if status == 13 {
        Some(DataFaultCode::PermissionFaultL1)
    } else if status == 14 {
        Some(DataFaultCode::PermissionFaultL2)
    } else if status == 15 {
        Some(DataFaultCode::PermissionFaultL3)
    } else if status == 16 {
        Some(DataFaultCode::SyncExternalAbort)
    } else if status == 33 {
        Some(DataFaultCode::AlignmentFault)
    } else {
        None
    }
}

impl DataFaultCode {
    pub open spec fn translation(self) -> bool {
        self == DataFaultCode::TranslationFaultL0 || self == DataFaultCode::TranslationFaultL1
            || self == DataFaultCode::TranslationFaultL2 || self
            == DataFaultCode::TranslationFaultL3
    }

    pub open spec fn permission(self) -> bool {
        self == DataFaultCode::PermissionFaultL1 || self == DataFaultCode::PermissionFaultL2 || self
            == DataFaultCode::PermissionFaultL3
    }

    /// The fault in the low six bits of the syndrome.
    pub fn from_iss(iss: u64) -> (fault: Option<Self>)
        ensures
            fault == fault_of(iss as int % 64),
    {
        let status: u64 = iss % 64;
        match status {
            4 => Some(DataFaultCode::TranslationFaultL0),
            5 => Some(DataFaultCode::TranslationFaultL1),
            6 => Some(DataFaultCode::TranslationFaultL2),
            7 => Some(DataFaultCode::TranslationFaultL3),
            9 => Some(DataFaultCode::AccessFlagFaultL1),
            10 => Some(DataFaultCode::AccessFlagFaultL2),
            11 => Some(DataFaultCode::AccessFlagFaultL3),
            13 => Some(DataFaultCode::PermissionFaultL1),
            14 => Some(DataFaultCode::PermissionFaultL2),
            15 => Some(DataFaultCode::PermissionFaultL3),
            33 => Some(DataFaultCode::AlignmentFault),
            16 => Some(DataFaultCode::SyncExternalAbort),
            _ => None,
        }
    }

    /// The page is not mapped.
    pub fn is_translation_fault(&self) -> (is: bool)
        ensures
            is == self.translation(),
    {
        matches!(
            self,
            DataFaultCode::TranslationFaultL0 | DataFaultCode::TranslationFaultL1
            | DataFaultCode::TranslationFaultL2 | DataFaultCode::TranslationFaultL3
        )
    }

    /// The page is mapped, but not for this access.
    pub fn is_permission_fault(&self) -> (is: bool)
        ensures
            is == self.permission(),
    {
        matches!(
            self,
            DataFaultCode::PermissionFaultL1 | DataFaultCode::PermissionFaultL2
            | DataFaultCode::PermissionFaultL3
        )
    }
}

/// Bit 6 of the syndrome: the access was a write.
pub open spec fn is_write(iss: u64) -> bool {
    iss as int / 64 % 2 == 1
}

fn write_bit(iss: u64) -> (write: bool)
    ensures
        write == is_write(iss),
{
    iss / 64 % 2 == 1
}

/// Kernel addresses start here.
pub const KERNEL_ADDRESSES: u64 = 0xFFFF_0000_0000_0000;

/// What a data abort asks for.
#[derive(Debug, Clone, Copy, PartialEq, Eq, Structural)]
pub enum DataAbort {
    KernelPageFault,
    UserPageFault,
    KernelPermissionFault,
    /// The only one that may be resolved: the page may be shared until written.
    UserPermissionFault { write: bool },
    Alignment,
    ExternalAbort,
    AccessFlag(DataFaultCode),
    Unknown { status: u64 },
}

/// What a data abort at an address asks for.
pub open spec fn abort_of(far: u64, iss: u64) -> DataAbort {
    let kernel = far >= KERNEL_ADDRESSES;
    match fault_of(iss as int % 64) {
        None => DataAbort::Unknown { status: (iss as int % 64) as u64 },
        Some(code) => if code.translation() {
            if kernel {
                DataAbort::KernelPageFault
            } else {
                DataAbort::UserPageFault
            }
        } else if code.permission() {
            if kernel {
                DataAbort::KernelPermissionFault
            } else {
                DataAbort::UserPermissionFault { write: is_write(iss) }
            }
        } else if code == DataFaultCode::AlignmentFault {
            DataAbort::Alignment
        } else if code == DataFaultCode::SyncExternalAbort {
            DataAbort::ExternalAbort
        } else {
            DataAbort::AccessFlag(code)
        },
    }
}

/// Decide what a data abort asks for.
pub fn decode_data_abort(far: u64, iss: u64) -> (abort: DataAbort)
    ensures
        abort == abort_of(far, iss),
{
    let kernel = far >= KERNEL_ADDRESSES;
    match DataFaultCode::from_iss(iss) {
        None => DataAbort::Unknown { status: iss % 64 },
        Some(code) => {
            if code.is_translation_fault() {
                if kernel {
                    DataAbort::KernelPageFault
                } else {
                    DataAbort::UserPageFault
                }
            } else if code.is_permission_fault() {
                if kernel {
                    DataAbort::KernelPermissionFault
                } else {
                    DataAbort::UserPermissionFault { write: write_bit(iss) }
                }
            } else if code == DataFaultCode::AlignmentFault {
                DataAbort::Alignment
            } else if code == DataFaultCode::SyncExternalAbort {
                DataAbort::ExternalAbort
            } else {
                DataAbort::AccessFlag(code)
            }
        },
    }
}

/// Why the kernel stops.
#[derive(Debug, Clone, Copy, PartialEq, Eq, Structural)]
pub enum Fatal {
    InstructionAbort,
    DataAbort(DataAbort),
    Unhandled { class: u64 },
}

/// What a synchronous exception leads to.
#[derive(Debug, Clone, Copy, PartialEq, Eq, Structural)]
pub enum SyncAction {
    SystemCall,
    /// See whether the page was shared until written; the kernel stops unless that
    /// resolves the fault.
    ResolveWrite { far: u64, write: bool },
    Stop(Fatal),
}

pub open spec fn sync_action(esr: u64, far: u64) -> SyncAction {
    let class = exception_class(esr);
    let iss = instruction_syndrome(esr) as u64;
    if class == 0x15 {
        SyncAction::SystemCall
    } else if class == 0x20 || class == 0x21 {
        SyncAction::Stop(Fatal::InstructionAbort)
    } else if class == 0x24 || class == 0x25 {
        match abort_of(far, iss) {
            DataAbort::UserPermissionFault { write } => SyncAction::ResolveWrite { far, write },
            abort => SyncAction::Stop(Fatal::DataAbort(abort)),
        }
    } else {
        SyncAction::Stop(Fatal::Unhandled { class: class as u64 })
    }
}

/// What a synchronous exception leads to.
pub fn handle_sync_exception(esr: u64, far: u64) -> (action: SyncAction)
    ensures
        action == sync_action(esr, far),
{
    match classify(esr) {
        SyncException::SystemCall => SyncAction::SystemCall,
        SyncException::InstructionAbort => SyncAction::Stop(Fatal::InstructionAbort),
        SyncException::DataAbort { iss } => match decode_data_abort(far, iss) {
            DataAbort::UserPermissionFault { write } => SyncAction::ResolveWrite { far, write },
            abort => SyncAction::Stop(Fatal::DataAbort(abort)),
        },
        SyncException::Unknown { class } => SyncAction::Stop(Fatal::Unhandled { class }),
    }
}

/// Law: no fault on a kernel address is ever resolved.
pub proof fn law_kernel_faults_are_fatal(esr: u64, far: u64)
    requires
        far >= KERNEL_ADDRESSES,
    ensures
        !(sync_action(esr, far) is ResolveWrite),
{
}

// ---------------------------------------------------------------------------
// Copy on write
// ---------------------------------------------------------------------------

/// Why a page that is shared until written could not be made private.
#[derive(Debug, Clone, Copy, PartialEq, Eq, Structural)]
pub enum CowError {
    NotMapped,
    UpgradeFailed,
    OutOfMemory,
    RemapFailed,
}

/// A page that is shared until written.
#[derive(Debug, Clone, Copy, PartialEq, Eq, Structural)]
pub struct CowPage {
    /// The page.
    pub page: u64,
    /// The frame that it is mapped to.
    pub frame: u64,
    /// The flags of the page once it is private.
    pub flags: PageTableFlags,
}

/// What to do with a shared page that is written.
#[derive(Debug, Clone, Copy, PartialEq, Eq, Structural)]
pub enum CowPlan {
    /// Nobody else has the frame: map it writable.
    InPlace,
    /// Copy the frame and map the copy.
    Copy,
}

/// The flags with which a shared page becomes private.
pub open spec fn private_flags(flags: PageTableFlags) -> PageTableFlags {
    PageTableFlags { copy_on_write: false, writable: true, ..flags }
}

/// The shared page of a write, if it is one.
pub open spec fn shared_page(tables: TablesModel, root: u64, far: u64, write: bool) -> Result<
    Option<CowPage>,
    CowError,
> {
    let page = (far - far % PAGE_SIZE) as u64;
    if !write {
        Ok::<Option<CowPage>, CowError>(None)
    } else {
        match tables.lookup(root, page) {
            None => Err::<Option<CowPage>, CowError>(CowError::NotMapped),
            Some((addr, entry)) => Ok::<Option<CowPage>, CowError>(
                if flags_of(entry).copy_on_write {
                    Some(
                        CowPage {
                            page,
                            frame: (addr - addr % 4096) as u64,
                            flags: private_flags(flags_of(entry)),
                        },
                    )
                } else {
                    None
                },
            ),
        }
    }
}

/// Look at the page of a write: `Ok(None)` if the access is none of a write to a
/// shared page.
pub fn cow_page(walker: &PageTableWalker, memory: &TableMemory, far: u64, write: bool) -> (result:
    Result<Option<CowPage>, CowError>)
    requires
        memory@.wf(),
        memory@.is_root(walker.spec_root()),
    ensures
        result == shared_page(memory@, walker.spec_root(), far, write),
{
    if !write {
        return Ok(None);
    }
    let page: u64 = far - far % PAGE_SIZE;
    match walker.translate_full(memory, page) {
        None => Err(CowError::NotMapped),
        Some((addr, entry)) => {
            let mut flags = PageTableFlags::from_pte_bits(entry);
            if !flags.copy_on_write {
                return Ok(None);
            }
            flags.copy_on_write = false;
            flags.writable = true;
            Ok(Some(CowPage { page, frame: addr - addr % PAGE_SIZE, flags }))
        },
    }
}

/// Whether a shared frame is copied, from how many have it.
pub fn cow_plan(references: Option<usize>) -> (plan: CowPlan)
    ensures
        plan == if references == Some(1usize) {
            CowPlan::InPlace
        } else {
            CowPlan::Copy
        },
{
    match references {
        Some(count) => if count == 1 {
            CowPlan::InPlace
        } else {
            CowPlan::Copy
        },
        None => CowPlan::Copy,
    }
}

/// The page is mapped, as a page of its own.
pub open spec fn remap_possible(tables: TablesModel, root: u64, cow: CowPage) -> bool {
    tables.depth(root, cow.page) == 3 && tables.lookup(root, cow.page) is Some
}

/// The page is mapped to `frame` and everything else as before; without a page
/// nothing changes.
pub open spec fn remap_outcome(
    before: TablesModel,
    after: TablesModel,
    root: u64,
    cow: CowPage,
    frame: u64,
) -> bool {
    if remap_possible(before, root, cow) {
        &&& after.free == before.free
        &&& after.keeps_others(before, root)
        &&& forall|va: u64| #[trigger]
            after.lookup(root, va) == if same_entry(va, cow.page, 3) {
                mapped_by(frame | pte_bits(cow.flags), 3, va)
            } else {
                before.lookup(root, va)
            }
    } else {
        after == before
    }
}

/// Map a page that was shared to `frame`, private and writable. `failure` is the
/// error if the page is not mapped as a page.
pub fn cow_remap(
    walker: &PageTableWalker,
    memory: &mut TableMemory,
    cow: CowPage,
    frame: u64,
    failure: CowError,
) -> (result: Result<(), CowError>)
    requires
        old(memory)@.wf(),
        old(memory)@.is_root(walker.spec_root()),
    ensures
        final(memory)@.wf(),
        final(memory)@.is_root(walker.spec_root()),
        remap_possible(old(memory)@, walker.spec_root(), cow) ==> result == Ok::<(), CowError>(()),
        !remap_possible(old(memory)@, walker.spec_root(), cow) ==> result == Err::<(), CowError>(
            failure,
        ),
        remap_outcome(old(memory)@, final(memory)@, walker.spec_root(), cow, frame),
{
    let ghost before = memory@;
    let ghost root = walker.spec_root();
    match walker.unmap_page(memory, cow.page) {
        Err(_) => {
            return Err(failure);
        },
        Ok(_) => {},
    }
    let ghost mid = memory@;
    proof {
        lemma_way_facts(before, root, cow.page);
        lemma_way_facts(mid, root, cow.page);
        assert(mid.laid(root, cow.page, 3) == before.laid(root, cow.page, 3));
        assert(same_entry(cow.page, cow.page, 3));
    }
    match walker.map_page(memory, cow.page, frame, cow.flags.to_pte_bits()) {
        Err(_) => {
            return Err(failure);
        },
        Ok(_) => {},
    }
    proof {
        assert(memory@.free =~= before.free);
        lemma_kept_twice(before, mid, memory@, root);
        assert forall|va: u64| #[trigger] memory@.lookup(root, va) == if same_entry(
            va,
            cow.page,
            3,
        ) {
            mapped_by(frame | pte_bits(cow.flags), 3, va)
        } else {
            before.lookup(root, va)
        } by {
            assert(mid.lookup(root, va) == if same_entry(va, cow.page, 3) {
                None
            } else {
                before.lookup(root, va)
            });
        }
    }
    Ok(())
}

/// What comes next for a page that was written.
#[derive(Debug, Clone, Copy, PartialEq, Eq, Structural)]
pub enum CowStep {
    /// Whether the fault was resolved.
    Done(bool),
    Failed(CowError),
    /// Count who has the frame.
    CountReferences(CowPage),
    /// Allocate a frame.
    AllocateFrame(CowPage),
    /// Copy the frame of the page.
    CopyFrame { cow: CowPage, to: u64 },
    /// Give the old frame up; then the fault is resolved.
    ReleaseFrame { frame: u64 },
}

/// Begin with a fault.
pub fn cow_begin(walker: &PageTableWalker, memory: &TableMemory, far: u64, write: bool) -> (step:
    CowStep)
    requires
        memory@.wf(),
        memory@.is_root(walker.spec_root()),
    ensures
        step == match shared_page(memory@, walker.spec_root(), far, write) {
            Ok(Some(cow)) => CowStep::CountReferences(cow),
            Ok(None) => CowStep::Done(false),
            Err(error) => CowStep::Failed(error),
        },
{
    match cow_page(walker, memory, far, write) {
        Ok(Some(cow)) => CowStep::CountReferences(cow),
        Ok(None) => CowStep::Done(false),
        Err(error) => CowStep::Failed(error),
    }
}

/// The references were counted: a frame that nobody else has is made writable in
/// place.
pub fn cow_counted(
    walker: &PageTableWalker,
    memory: &mut TableMemory,
    cow: CowPage,
    references: Option<usize>,
) -> (step: CowStep)
    requires
        old(memory)@.wf(),
        old(memory)@.is_root(walker.spec_root()),
    ensures
        final(memory)@.wf(),
        final(memory)@.is_root(walker.spec_root()),
        if references == Some(1usize) {
            &&& remap_outcome(old(memory)@, final(memory)@, walker.spec_root(), cow, cow.frame)
            &&& step == if remap_possible(old(memory)@, walker.spec_root(), cow) {
                CowStep::Done(true)
            } else {
                CowStep::Failed(CowError::UpgradeFailed)
            }
        } else {
            final(memory)@ == old(memory)@ && step == CowStep::AllocateFrame(cow)
        },
{
    match cow_plan(references) {
        CowPlan::InPlace => match cow_remap(
            walker,
            memory,
            cow,
            cow.frame,
            CowError::UpgradeFailed,
        ) {
            Ok(()) => CowStep::Done(true),
            Err(error) => CowStep::Failed(error),
        },
        CowPlan::Copy => CowStep::AllocateFrame(cow),
    }
}

/// A frame was allocated, or none was left.
pub fn cow_allocated(cow: CowPage, frame: Option<u64>) -> (step: CowStep)
    ensures
        step == match frame {
            Some(to) => CowStep::CopyFrame { cow, to },
            None => CowStep::Failed(CowError::OutOfMemory),
        },
{
    match frame {
        Some(to) => CowStep::CopyFrame { cow, to },
        None => CowStep::Failed(CowError::OutOfMemory),
    }
}

/// The frame was copied: the page is mapped to the copy.
pub fn cow_copied(walker: &PageTableWalker, memory: &mut TableMemory, cow: CowPage, to: u64)
    -> (step: CowStep)
    requires
        old(memory)@.wf(),
        old(memory)@.is_root(walker.spec_root()),
    ensures
        final(memory)@.wf(),
        final(memory)@.is_root(walker.spec_root()),
        remap_outcome(old(memory)@, final(memory)@, walker.spec_root(), cow, to),
        step == if remap_possible(old(memory)@, walker.spec_root(), cow) {
            CowStep::ReleaseFrame { frame: cow.frame }
        } else {
            CowStep::Failed(CowError::RemapFailed)
        },
{
    match cow_remap(walker, memory, cow, to, CowError::RemapFailed) {
        Ok(()) => CowStep::ReleaseFrame { frame: cow.frame },
        Err(error) => CowStep::Failed(error),
    }
}

/// Whether the program goes on after a permission fault: only if the page was
/// shared and is now its own.
pub fn permission_fault_resolved(outcome: Result<bool, CowError>) -> (resolved: bool)
    ensures
        resolved == (outcome == Ok::<bool, CowError>(true)),
{
    match outcome {
        Ok(done) => done,
        Err(_) => false,
    }
}

/// Law: a page that was made private is found in its new frame, writable and no
/// longer shared, with its other flags as they were.
pub proof fn law_private_page(
    tables: TablesModel,
    root: u64,
    page: u64,
    frame: u64,
    shared: PageTableFlags,
    va: u64,
)
    requires
        frame_address(frame),
        shared.present,
        same_entry(va, page, 3),
        tables.lookup(root, va) == mapped_by(frame | pte_bits(private_flags(shared)), 3, va),
    ensures
        match tables.lookup(root, va) {
            Some((addr, entry)) => {
                &&& addr == frame + va as int % 4096
                &&& flags_of(entry) == private_flags(shared)
            },
            None => false,
        },
{
    let flags = private_flags(shared);
    let bits = pte_bits(flags);
    let entry = frame | bits;
    crate::arch::paging::law_flags_roundtrip(flags);
    crate::arch::paging::lemma_pte_bits_outside_address(flags);
    assert(bits & 0x1 != 0);
    assert({
        &&& entry & 0x0000_FFFF_FFFF_F000 == frame
        &&& entry & 0x1 == bits & 0x1
        &&& entry & 0x80 == bits & 0x80
        &&& entry & (0x40_0000_0000_0000u64 | 0x20_0000_0000_0000u64) == bits & (0x40_0000_0000_0000u64
            | 0x20_0000_0000_0000u64)
        &&& entry & 0x40 == bits & 0x40
        &&& entry & 0x1C == bits & 0x1C
        &&& entry & 0x80_0000_0000_0000 == bits & 0x80_0000_0000_0000
    }) by (bit_vector)
        requires
            entry == frame | bits,
            frame % 0x1000 == 0,
            frame <= 0x0000_FFFF_FFFF_F000,
            bits & 0x0000_FFFF_FFFF_F000 == 0,
    ;
}

/// Law: once the fault of a write to a shared page is resolved, every address of
/// the page is found in the frame that was chosen, at its own place. The page is
/// writable and no longer shared. Who may reach it, whether it may be executed and
/// what kind of memory it is are as before the fault.
pub proof fn law_resolved_page_keeps_its_rights(
    before: TablesModel,
    after: TablesModel,
    root: u64,
    far: u64,
    frame: u64,
    cow: CowPage,
    va: u64,
)
    requires
        shared_page(before, root, far, true) == Ok::<Option<CowPage>, CowError>(Some(cow)),
        remap_possible(before, root, cow),
        remap_outcome(before, after, root, cow, frame),
        frame_address(frame),
        far < 0x1_0000_0000_0000,
        va as int / 4096 == far as int / 4096,
    ensures
        ({
            let page = (far as int / 4096 * 4096) as u64;
            let found = before.lookup(root, page)->0;
            let now = after.lookup(root, va)->0;
            &&& before.lookup(root, page) is Some
            &&& after.lookup(root, va) is Some
            &&& now.0 == frame + va as int % 4096
            &&& flags_of(now.1).writable
            &&& !flags_of(now.1).copy_on_write
            &&& flags_of(found.1).copy_on_write
            &&& flags_of(now.1).present && flags_of(found.1).present
            &&& flags_of(now.1).no_execute == flags_of(found.1).no_execute
            &&& flags_of(now.1).user_accessible == flags_of(found.1).user_accessible
            &&& flags_of(now.1).mmio_device == flags_of(found.1).mmio_device
        }),
{
    let shared = flags_of((before.lookup(root, cow.page)->0).1);
    assert(cow.page == far as int / 4096 * 4096);
    crate::arch::paging::lemma_sharing(va, cow.page);
    lemma_found_is_valid(before.tables, root, 0, cow.page);
    law_private_page(after, root, cow.page, frame, shared, va);
}

/// An entry that maps an address is valid.
proof fn lemma_found_is_valid(tables: Map<u64, Seq<u64>>, table: u64, level: int, va: u64)
    requires
        0 <= level <= 3,
        crate::arch::paging::lookup_from(tables, table, level, va) is Some,
    ensures
        (crate::arch::paging::lookup_from(tables, table, level, va)->0).1 & 0x1 != 0,
    decreases 3 - level,
{
    let entry = tables[table][crate::arch::paging::index_at(va, level)];
    if level < 3 && crate::arch::paging::entry_is_table(entry) {
        lemma_found_is_valid(tables, entry_addr(entry), level + 1, va);
    }
}

/// Law: a fault concerns the page that holds the address and the frame behind it.
/// Only a write to a page that is mapped and shared can be resolved; a read, and a
/// write to a page that is not shared, change nothing, and a write to a page that
/// is not mapped fails.
pub proof fn law_only_shared_writes_are_resolved(
    tables: TablesModel,
    root: u64,
    far: u64,
    write: bool,
)
    ensures
        ({
            let page = (far as int / 4096 * 4096) as u64;
            let found = tables.lookup(root, page);
            let result = shared_page(tables, root, far, write);
            &&& !write ==> result == Ok::<Option<CowPage>, CowError>(None)
            &&& write && found is None ==> result == Err::<Option<CowPage>, CowError>(
                CowError::NotMapped,
            )
            &&& write && found is Some && (found->0).1 & 0x80_0000_0000_0000 == 0 ==> result == Ok::<
                Option<CowPage>,
                CowError,
            >(None)
            &&& write && found is Some && (found->0).1 & 0x80_0000_0000_0000 != 0 ==> {
                &&& result is Ok && result->Ok_0 is Some
                &&& result->Ok_0->0.page == page
                &&& result->Ok_0->0.frame == ((found->0).0 / 4096 * 4096) as u64
            }
        }),
{
}

/// Law: everything outside the page stays as it was, also in other address spaces,
/// but for those that share its table.
pub proof fn law_remap_is_confined(
    before: TablesModel,
    after: TablesModel,
    root: u64,
    cow: CowPage,
    frame: u64,
    va: u64,
)
    requires
        remap_outcome(before, after, root, cow, frame),
        cow.page < 0x1_0000_0000_0000,
        va < 0x1_0000_0000_0000,
        va as int / 4096 != cow.page as int / 4096,
    ensures
        after.lookup(root, va) == before.lookup(root, va),
        after.free == before.free,
        forall|other: u64|
            before.is_root(other) && other != root && !before.shares(root, other, va)
                ==> #[trigger] after.lookup(other, va) == before.lookup(other, va),
{
    crate::arch::paging::lemma_sharing(va, cow.page);
    crate::arch::paging::lemma_kept_unchanged(before, root);
    assert forall|other: u64|
        before.is_root(other) && other != root && !before.shares(root, other, va) implies
        #[trigger] after.lookup(other, va) == before.lookup(other, va) by {
        assert(after.is_root(other));
        assert(after.follows(before, root, other));
    }
}

/// Law: a frame that only one page has is kept and made writable in place; one that
/// others have too, or of which nothing is known, is copied.
pub proof fn law_shared_frame_is_copied(references: Option<usize>, plan: CowPlan)
    requires
        call_ensures(cow_plan, (references,), plan),
    ensures
        match references {
            Some(count) => (plan is InPlace) == (count == 1) && (count >= 2 ==> plan is Copy),
            None => plan is Copy,
        },
{
}

/// Law: the class is in bits 26 to 31 of the syndrome register and the fault's
/// status in the low six. A system call is class 21. Only a data abort (36 or 37)
/// with a permission fault (status 13 to 15) on an address of a user program may be
/// resolved, and bit 6 says whether it was a write. Everything else stops.
pub proof fn law_only_user_permission_faults_resolve(class: int, iss: int, far: u64)
    requires
        0 <= class < 64,
        0 <= iss < 0x200_0000,
    ensures
        ({
            let esr = (class * 0x400_0000 + iss) as u64;
            let action = sync_action(esr, far);
            let abort = class == 36 || class == 37;
            &&& action is SystemCall <==> class == 21
            &&& action is ResolveWrite <==> abort && 13 <= iss % 64 <= 15 && far
                < 0xFFFF_0000_0000_0000
            &&& action is ResolveWrite ==> action->far == far && (action->write <==> iss / 64 % 2
                == 1)
            &&& class == 32 || class == 33 <==> action == SyncAction::Stop(Fatal::InstructionAbort)
            &&& abort && 4 <= iss % 64 <= 7 ==> action == SyncAction::Stop(
                Fatal::DataAbort(
                    if far >= 0xFFFF_0000_0000_0000 {
                        DataAbort::KernelPageFault
                    } else {
                        DataAbort::UserPageFault
                    },
                ),
            )
            &&& abort && 13 <= iss % 64 <= 15 && far >= 0xFFFF_0000_0000_0000 ==> action
                == SyncAction::Stop(Fatal::DataAbort(DataAbort::KernelPermissionFault))
            &&& abort && iss % 64 == 33 ==> action == SyncAction::Stop(
                Fatal::DataAbort(DataAbort::Alignment),
            )
            &&& abort && iss % 64 == 16 ==> action == SyncAction::Stop(
                Fatal::DataAbort(DataAbort::ExternalAbort),
            )
            &&& abort && 9 <= iss % 64 <= 11 ==> match action {
                SyncAction::Stop(Fatal::DataAbort(DataAbort::AccessFlag(code))) => {
                    &&& iss % 64 == 9 <==> code is AccessFlagFaultL1
                    &&& iss % 64 == 10 <==> code is AccessFlagFaultL2
                    &&& iss % 64 == 11 <==> code is AccessFlagFaultL3
                },
                _ => false,
            }
            &&& !abort && class != 21 && class != 32 && class != 33 ==> action == SyncAction::Stop(
                Fatal::Unhandled { class: class as u64 },
            )
        }),
{
    let esr = (class * 0x400_0000 + iss) as u64;
    assert(exception_class(esr) == class);
    assert(instruction_syndrome(esr) == iss);
}

/// Law: each status that names a fault names it with its level: four for
/// translation, three each for access flag and permission.
pub proof fn law_fault_status(status: int)
    ensures
        match fault_of(status) {
            Some(DataFaultCode::TranslationFaultL0) => status == 0b000100,
            Some(DataFaultCode::TranslationFaultL1) => status == 0b000101,
            Some(DataFaultCode::TranslationFaultL2) => status == 0b000110,
            Some(DataFaultCode::TranslationFaultL3) => status == 0b000111,
            Some(DataFaultCode::AccessFlagFaultL1) => status == 0b001001,
            Some(DataFaultCode::AccessFlagFaultL2) => status == 0b001010,
            Some(DataFaultCode::AccessFlagFaultL3) => status == 0b001011,
            Some(DataFaultCode::PermissionFaultL1) => status == 0b001101,
            Some(DataFaultCode::PermissionFaultL2) => status == 0b001110,
            Some(DataFaultCode::PermissionFaultL3) => status == 0b001111,
            Some(DataFaultCode::AlignmentFault) => status == 0b100001,
            Some(DataFaultCode::SyncExternalAbort) => status == 0b010000,
            None => !(4 <= status <= 7) && !(9 <= status <= 11) && !(13 <= status <= 16) && status
                != 33,
        },
{
}

/// The number that hexadecimal digits stand for.
pub open spec fn hex_value(digits: Seq<u8>) -> int
    decreases digits.len(),
{
    if digits.len() == 0 {
        0
    } else {
        let last = digits.last() as int;
        16 * hex_value(digits.drop_last()) + if last >= 65 {
            last - 55
        } else {
            last - 48
        }
    }
}

/// Law: the digits of a number stand for it, as far as they reach, and each is a
/// decimal digit or a letter from A to F.
pub proof fn law_digits_stand_for_the_number(value: int, digits: nat)
    requires
        0 <= value,
    ensures
        hex_value(hex_digits(value, digits)) == value % pow16(digits),
        hex_digits(value, digits).len() == digits,
        forall|i: int|
            0 <= i < digits ==> 48 <= #[trigger] hex_digits(value, digits)[i] <= 57 || 65
                <= hex_digits(value, digits)[i] <= 70,
    decreases digits,
{
    let text = hex_digits(value, digits);
    if digits > 0 {
        law_digits_stand_for_the_number(value / 16, (digits - 1) as nat);
        lemma_pow16_positive((digits - 1) as nat);
        let shorter = hex_digits(value / 16, (digits - 1) as nat);
        assert(text.drop_last() =~= shorter) by {
            assert forall|i: int| 0 <= i < digits - 1 implies text[i] == shorter[i] by {
                let power = pow16((digits - 2 - i) as nat);
                lemma_pow16_positive((digits - 2 - i) as nat);
                assert(pow16((digits - 1 - i) as nat) == 16 * power);
                vstd::arithmetic::div_mod::lemma_div_denominator(value, 16, power);
            }
        }
        assert(pow16(0) == 1);
        assert(text.last() == hex_digit(value % 16));
        let power = pow16((digits - 1) as nat);
        vstd::arithmetic::div_mod::lemma_mod_breakdown(value, 16, power);
    }
}

proof fn lemma_pow16_positive(n: nat)
    ensures
        pow16(n) > 0,
    decreases n,
{
    if n > 0 {
        lemma_pow16_positive((n - 1) as nat);
    }
}

/// Law: what a data abort asks for. Its status names the fault: 4 to 7 a missing page, 9 to
/// 11 the access flag, 13 to 15 a missing right, 16 an external error, 33 misalignment. An
/// address from FFFF 0000 0000 0000 on is the kernel's. Bit 6 tells a write.
pub proof fn law_abort_is_told_apart(far: u64, iss: u64)
    ensures
        ({
            let abort = abort_of(far, iss);
            let status = iss as int % 64;
            let kernel = far >= 0xFFFF_0000_0000_0000;
            let write = iss as int % 128 >= 64;
            &&& abort is KernelPageFault <==> 4 <= status <= 7 && kernel
            &&& abort is UserPageFault <==> 4 <= status <= 7 && !kernel
            &&& abort is KernelPermissionFault <==> 13 <= status <= 15 && kernel
            &&& abort == (DataAbort::UserPermissionFault { write }) <==> 13 <= status <= 15
                && !kernel
            &&& abort is Alignment <==> status == 33
            &&& abort is ExternalAbort <==> status == 16
            &&& abort is AccessFlag <==> 9 <= status <= 11
            &&& abort is Unknown ==> abort->status == status
        }),
{
}

/// Law: the telemetry of an exception that is not handled: which register stands behind which
/// letter, at which place.
pub proof fn law_unhandled_layout(
    syndrome: Syndrome,
    ttbr0: u64,
    pid: Option<u64>,
    insn0: u32,
    insn1: u32,
    sp_el0: u64,
)
    ensures
        ({
            let packet = unknown_packet(syndrome, ttbr0, pid, insn0, insn1, sp_el0);
            let tail = if pid is Some {
                105int
            } else {
                88
            };
            &&& packet.len() == tail + 36
            &&& packet[0] == 0x59
            &&& packet.subrange(1, 3) == hex_digits(syndrome.esr as int / 0x400_0000 % 64, 2)
            &&& packet[3] == 0x45
            &&& packet.subrange(4, 20) == hex_digits(syndrome.elr as int, 16)
            &&& packet[20] == 0x52
            &&& packet.subrange(21, 37) == hex_digits(syndrome.esr as int, 16)
            &&& packet[37] == 0x50
            &&& packet.subrange(38, 54) == hex_digits(syndrome.spsr as int, 16)
            &&& packet[54] == 0x46
            &&& packet.subrange(55, 71) == hex_digits(syndrome.far as int, 16)
            &&& packet[71] == 0x54
            &&& packet.subrange(72, 88) == hex_digits(ttbr0 as int, 16)
            &&& pid is Some ==> packet[88] == 0x51 && packet.subrange(89, 105) == hex_digits(
                pid->0 as int,
                16,
            )
            &&& packet[tail] == 0x49
            &&& packet.subrange(tail + 1, tail + 9) == hex_digits(insn0 as int, 8)
            &&& packet[tail + 9] == 0x4A
            &&& packet.subrange(tail + 10, tail + 18) == hex_digits(insn1 as int, 8)
            &&& packet[tail + 18] == 0x53
            &&& packet.subrange(tail + 19, tail + 35) == hex_digits(sp_el0 as int, 16)
            &&& packet[tail + 35] == 0x21
        }),
{
}

/// Law: the telemetry of a data abort: the interrupted address, the faulting one, a letter for
/// the direction, and the status.
pub proof fn law_abort_layout(elr: u64, far: u64, iss: u64)
    ensures
        ({
            let packet = data_abort_packet(elr, far, iss);
            &&& packet.len() == 38
            &&& packet[0] == 0x58
            &&& packet.subrange(1, 17) == hex_digits(elr as int, 16)
            &&& packet[17] == 0x59
            &&& packet.subrange(18, 34) == hex_digits(far as int, 16)
            &&& packet[34] == 0x57 <==> iss as int % 128 >= 64
            &&& packet[34] == 0x52 <==> iss as int % 128 < 64
            &&& packet[35] == 0x5A
            &&& packet.subrange(36, 38) == hex_digits(iss as int, 2)
        }),
{
}

} // verus!
