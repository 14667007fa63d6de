//! Interrupts and exceptions of x86-64.

use vstd::prelude::*;

verus! {

/// The interrupts that the kernel handles.
#[derive(Debug, Clone, Copy, PartialEq, Eq, Structural)]
pub enum InterruptIndex {
    Timer,
    LapicErr,
    /// Another processor changed tables. Its vector is chosen here: the first one
    /// after that of the local APIC's errors.
    TlbShootdown,
    Syscall,
    Spurious,
}

impl InterruptIndex {
    pub open spec fn vector(self) -> u8 {
        match self {
            InterruptIndex::Timer => 0x20,
            InterruptIndex::LapicErr => 0x31,
            InterruptIndex::TlbShootdown => 0x32,
            InterruptIndex::Syscall => 0x80,
            InterruptIndex::Spurious => 0xff,
        }
    }

    pub fn as_u8(self) -> (vector: u8)
        ensures
            vector == self.vector(),
    {
        match self {
            InterruptIndex::Timer => 0x20,
            InterruptIndex::LapicErr => 0x31,
            InterruptIndex::TlbShootdown => 0x32,
            InterruptIndex::Syscall => 0x80,
            InterruptIndex::Spurious => 0xff,
        }
    }

    pub fn as_usize(self) -> (vector: usize)
        ensures
            vector == self.vector(),
    {
        self.as_u8() as usize
    }
}

/// Law: no two interrupts share a vector, and none takes one of the 32 that the
/// processor has for exceptions.
pub proof fn law_vectors_are_distinct(a: InterruptIndex, b: InterruptIndex)
    ensures
        a.vector() == b.vector() ==> a == b,
        a.vector() >= 32,
{
}

/// The general registers, in the order in which they lie on the stack.
#[derive(Debug, Clone, Copy, PartialEq, Eq, Structural)]
pub struct GPRegisters {
    pub r15: usize,
    pub r14: usize,
    pub r13: usize,
    pub r12: usize,
    pub r11: usize,
    pub r10: usize,
    pub r9: usize,
    pub r8: usize,
    pub rbp: usize,
    pub rdi: usize,
    pub rsi: usize,
    pub rdx: usize,
    pub rcx: usize,
    pub rbx: usize,
    pub rax: usize,
}

impl Default for GPRegisters {
    fn default() -> (regs: Self)
        ensures
            regs == zero_registers(),
    {
        GPRegisters {
            r15: 0,
            r14: 0,
            r13: 0,
            r12: 0,
            r11: 0,
            r10: 0,
            r9: 0,
            r8: 0,
            rbp: 0,
            rdi: 0,
            rsi: 0,
            rdx: 0,
            rcx: 0,
            rbx: 0,
            rax: 0,
        }
    }
}

pub open spec fn zero_registers() -> GPRegisters {
    GPRegisters {
        r15: 0,
        r14: 0,
        r13: 0,
        r12: 0,
        r11: 0,
        r10: 0,
        r9: 0,
        r8: 0,
        rbp: 0,
        rdi: 0,
        rsi: 0,
        rdx: 0,
        rcx: 0,
        rbx: 0,
        rax: 0,
    }
}

pub type SyscallRegisters = GPRegisters;

/// What the processor puts on the stack at an interrupt.
#[derive(Debug, Clone, Copy, PartialEq, Eq, Structural)]
pub struct InterruptFrame {
    pub instruction_pointer: u64,
    pub code_segment: u16,
    pub cpu_flags: u64,
    pub stack_pointer: u64,
    pub stack_segment: u16,
}

/// The registers of a program in user mode.
#[derive(Debug, Clone, Copy, PartialEq, Eq, Structural)]
pub struct UserContext {
    pub regs: GPRegisters,
    pub frame: InterruptFrame,
}

/// A system call: its number and its arguments.
#[derive(Debug, Clone, Copy, PartialEq, Eq, Structural)]
pub struct SyscallRequest {
    pub number: usize,
    pub arg1: usize,
    pub arg2: usize,
    pub arg3: usize,
    pub arg4: usize,
    pub arg5: usize,
    pub arg6: usize,
}

impl UserContext {
    /// The system call in the registers.
    pub fn syscall_request(&self) -> (request: SyscallRequest)
        ensures
            request == (SyscallRequest {
                number: self.regs.rax,
                arg1: self.regs.rdi,
                arg2: self.regs.rsi,
                arg3: self.regs.rdx,
                arg4: self.regs.rcx,
                arg5: self.regs.r8,
                arg6: self.regs.r9,
            }),
    {
        SyscallRequest {
            number: self.regs.rax,
            arg1: self.regs.rdi,
            arg2: self.regs.rsi,
            arg3: self.regs.rdx,
            arg4: self.regs.rcx,
            arg5: self.regs.r8,
            arg6: self.regs.r9,
        }
    }

    /// Hand the result of a system call over. No other register changes.
    pub fn set_syscall_result(&mut self, result: usize)
        ensures
            final(self).regs == (GPRegisters { rax: result, ..old(self).regs }),
            final(self).frame == old(self).frame,
    {
        self.regs.rax = result;
    }
}

impl InterruptFrame {
    /// The program was in user mode: the privilege level of its code segment.
    pub open spec fn from_user(self) -> bool {
        self.code_segment as int % 4 == 3
    }

    pub fn from_user_mode(&self) -> (user: bool)
        ensures
            user == self.from_user(),
    {
        self.code_segment % 4 == 3
    }
}

/// What an exception leads to.
#[derive(Debug, Clone, Copy, PartialEq, Eq, Structural)]
pub enum ExceptionOutcome {
    /// The task is ended.
    TerminateTask,
    /// The kernel ran out of stack.
    KernelStackOverflow,
    Panic,
}

/// What an exception leads to that ends the task if it came from user mode.
/// `has_context`: the processor runs tasks yet.
pub fn user_exception(frame: &InterruptFrame, has_context: bool) -> (outcome: ExceptionOutcome)
    ensures
        outcome == if frame.from_user() && has_context {
            ExceptionOutcome::TerminateTask
        } else {
            ExceptionOutcome::Panic
        },
{
    if frame.from_user_mode() && has_context {
        ExceptionOutcome::TerminateTask
    } else {
        ExceptionOutcome::Panic
    }
}

/// What a page fault leads to, and whether it is counted for the process.
/// `has_address`: the address can be told. `in_guard`: it lies in the guard page
/// of the task's kernel stack.
pub fn page_fault(frame: &InterruptFrame, has_address: bool, has_context: bool, in_guard: bool)
    -> (result: (ExceptionOutcome, bool))
    ensures
        result.1 == (has_address && has_context),
        result.0 == if has_address && has_context && in_guard && !frame.from_user() {
            ExceptionOutcome::KernelStackOverflow
        } else if frame.from_user() && has_context {
            ExceptionOutcome::TerminateTask
        } else {
            ExceptionOutcome::Panic
        },
{
    let counted = has_address && has_context;
    if counted && !frame.from_user_mode() && in_guard {
        return (ExceptionOutcome::KernelStackOverflow, counted);
    }
    (user_exception(frame, has_context), counted)
}

/// The table that a selector lies in.
#[derive(Debug, Clone, Copy, PartialEq, Eq, Structural)]
pub enum DescriptorTable {
    Gdt,
    Idt,
    Ldt,
}

pub open spec fn table_of(bits: int) -> DescriptorTable {
    if bits == 0 {
        DescriptorTable::Gdt
    } else if bits == 2 {
        DescriptorTable::Ldt
    } else {
        DescriptorTable::Idt
    }
}

/// An error code that names a selector.
#[derive(Debug, Clone, Copy, PartialEq, Eq, Structural)]
pub struct SelectorErrorCode(pub u32);

impl From<u32> for SelectorErrorCode {
    fn from(value: u32) -> (code: Self) {
        SelectorErrorCode(value)
    }
}

impl vstd::std_specs::convert::FromSpecImpl<u32> for SelectorErrorCode {
    open spec fn obeys_from_spec() -> bool {
        true
    }

    open spec fn from_spec(value: u32) -> Self {
        SelectorErrorCode(value)
    }
}

impl SelectorErrorCode {
    /// The code in an error code of the processor, of which only the lower half
    /// can be set.
    pub fn from_u64(value: u64) -> (code: Self)
        requires
            value <= u32::MAX,
        ensures
            code.0 == value,
    {
        SelectorErrorCode(value as u32)
    }

    /// The exception came from outside the program.
    pub fn external(&self) -> (external: bool)
        ensures
            external == (self.0 as int % 2 == 1),
    {
        self.0 % 2 == 1
    }

    /// The number of the table.
    pub fn tbl(&self) -> (bits: u8)
        ensures
            bits == self.0 as int / 2 % 4,
    {
        (self.0 / 2 % 4) as u8
    }

    /// The table.
    pub fn table(&self) -> (table: DescriptorTable)
        ensures
            table == table_of(self.0 as int / 2 % 4),
    {
        match self.tbl() {
            0 => DescriptorTable::Gdt,
            2 => DescriptorTable::Ldt,
            _ => DescriptorTable::Idt,
        }
    }

    /// The index in the table.
    pub fn index(&self) -> (index: u16)
        ensures
            index == self.0 as int / 8 % 0x4000,
    {
        (self.0 / 8 % 0x4000) as u16
    }
}

/// Law: the vectors: 32 for the timer, 49 and 50 for the local APIC's errors and for changed
/// tables, 128 for system calls and 255 for spurious interrupts.
pub proof fn law_vectors(index: InterruptIndex)
    ensures
        index.vector() == match index {
            InterruptIndex::Timer => 32u8,
            InterruptIndex::LapicErr => 49,
            InterruptIndex::TlbShootdown => 50,
            InterruptIndex::Syscall => 128,
            InterruptIndex::Spurious => 255,
        },
{
}

/// Law: a system call has its number in `rax` and its arguments in `rdi`, `rsi`, `rdx`,
/// `rcx`, `r8` and `r9`.
pub proof fn law_system_call_registers(context: UserContext, request: SyscallRequest)
    requires
        call_ensures(UserContext::syscall_request, (&context,), request),
    ensures
        request.number == context.regs.rax,
        request.arg1 == context.regs.rdi,
        request.arg2 == context.regs.rsi,
        request.arg3 == context.regs.rdx,
        request.arg4 == context.regs.rcx,
        request.arg5 == context.regs.r8,
        request.arg6 == context.regs.r9,
{
}

/// Law: a page fault of a user program ends its task; one of the kernel is a stack overflow
/// if it hit the guard page of a task, and a panic otherwise. Nothing in the kernel ever ends
/// a task.
pub proof fn law_faults_end_the_right_thing(
    frame: InterruptFrame,
    has_address: bool,
    has_context: bool,
    in_guard: bool,
    fault: (ExceptionOutcome, bool),
    other: ExceptionOutcome,
)
    requires
        call_ensures(page_fault, (&frame, has_address, has_context, in_guard), fault),
        call_ensures(user_exception, (&frame, has_context), other),
    ensures
        ({
            let user = frame.code_segment as int % 4 == 3;
            &&& fault.0 is TerminateTask <==> user && has_context
            &&& other is TerminateTask <==> user && has_context
            &&& fault.0 is KernelStackOverflow <==> !user && has_address && has_context && in_guard
            &&& !(other is KernelStackOverflow)
            &&& fault.1 <==> has_address && has_context
        }),
{
}

/// Law: a selector error has whether it came from outside in bit 0, the table in bits 1 and 2
/// (0 for global, 2 for local, else interrupts) and the index above.
pub proof fn law_selector_error(
    code: SelectorErrorCode,
    external: bool,
    table: DescriptorTable,
    index: u16,
)
    requires
        code.0 < 0x2_0000,
        call_ensures(SelectorErrorCode::external, (&code,), external),
        call_ensures(SelectorErrorCode::table, (&code,), table),
        call_ensures(SelectorErrorCode::index, (&code,), index),
    ensures
        ({
            let bits = (code.0 as int / 2) % 4;
            &&& external <==> code.0 as int % 2 == 1
            &&& table is Gdt <==> bits == 0
            &&& table is Ldt <==> bits == 2
            &&& code.0 == 8 * index + 2 * bits + if external {
                1int
            } else {
                0
            }
        }),
{
}

/// Law: the privilege level is the two low bits of the code segment, and 3 is that of user
/// programs; table 0 is the global one, table 2 the local one, and odd tables are that of
/// interrupts.
pub proof fn law_segment_bits(frame: InterruptFrame, bits: int)
    requires
        0 <= bits < 4,
    ensures
        frame.from_user() <==> (frame.code_segment + 1) % 4 == 0,
        table_of(bits) is Gdt <==> bits == 0,
        table_of(bits) is Ldt <==> bits == 2,
        table_of(bits) is Idt <==> bits % 2 == 1,
{
}

/// Law: registers begin as zeros.
pub proof fn law_registers_begin_clear()
    ensures
        ({
            let regs = zero_registers();
            &&& regs.rax == 0 && regs.rbx == 0 && regs.rcx == 0 && regs.rdx == 0
            &&& regs.rsi == 0 && regs.rdi == 0 && regs.rbp == 0
            &&& regs.r8 == 0 && regs.r9 == 0 && regs.r10 == 0 && regs.r11 == 0
            &&& regs.r12 == 0 && regs.r13 == 0 && regs.r14 == 0 && regs.r15 == 0
        }),
{
}

} // verus!
