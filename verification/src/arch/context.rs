//! The stack of a new task, laid out so that switching to the task starts it.

use vstd::prelude::*;

use crate::arch::exceptions::ExceptionContext;

verus! {

/// The registers that a switch saves on the stack, in the order in which they
/// lie there.
#[derive(Debug, Clone, Copy, PartialEq, Eq, Structural)]
pub struct SwitchFrame {
    pub x19: u64,
    pub x20: u64,
    pub x21: u64,
    pub x22: u64,
    pub x23: u64,
    pub x24: u64,
    pub x25: u64,
    pub x26: u64,
    pub x27: u64,
    pub x28: u64,
    /// Frame pointer.
    pub x29: u64,
    /// Link register: where the switch returns to.
    pub x30: u64,
}

/// Bytes of a switch frame: twelve registers.
pub const SWITCH_FRAME_SIZE: u64 = 96;

/// The registers of a program in user mode.
#[derive(Debug, Clone, Copy, PartialEq, Eq, Structural)]
pub struct UserContext {
    pub inner: ExceptionContext,
    pub sp: u64,
}

/// The state with which user mode is entered: user stack, interrupts on.
pub const USER_SPSR: u64 = 0;

/// Where the frame of a new task lies below the top of its stack.
pub open spec fn frame_address(stack_top: u64) -> int {
    stack_top - stack_top % 16 - SWITCH_FRAME_SIZE
}

/// The frame of a task that goes through the trampoline: the argument, where to
/// start and where to return to lie where the trampoline takes them from.
pub open spec fn task_frame(
    entry_point: u64,
    arg: u64,
    exit_point: u64,
    trampoline: u64,
) -> SwitchFrame {
    SwitchFrame {
        x19: arg,
        x20: entry_point,
        x21: exit_point,
        x22: 0,
        x23: 0,
        x24: 0,
        x25: 0,
        x26: 0,
        x27: 0,
        x28: 0,
        x29: 0,
        x30: trampoline,
    }
}

/// How code is entered.
#[derive(Debug, Clone, Copy, PartialEq, Eq, Structural)]
pub struct Entry {
    pub pc: u64,
    /// The first argument.
    pub x0: u64,
    /// Where the code returns to.
    pub x30: u64,
    pub sp: u64,
}

/// How the code of a task is entered when its frame, which lies at `sp`, is
/// switched to. The switch restores the frame, takes it off the stack and goes on
/// at its `x30`; the trampoline moves `x19` to `x0` and `x21` to `x30` and goes on
/// at `x20`. Nothing is said of a frame that leads elsewhere.
pub open spec fn entered(sp: int, frame: SwitchFrame, trampoline: u64) -> Option<Entry> {
    if frame.x30 == trampoline {
        Some(
            Entry {
                pc: frame.x20,
                x0: frame.x19,
                x30: frame.x21,
                sp: (sp + SWITCH_FRAME_SIZE) as u64,
            },
        )
    } else {
        None
    }
}

/// Lay out the stack of a task that starts at `entry_point` with `arg` as its
/// argument, in `x0`: the stack pointer, and the frame to put there. The task has
/// nowhere to return to.
///
/// A switch restores no `x0`, so the frame leads to the trampoline first.
pub fn init_task_stack(stack_top: u64, entry_point: u64, arg: u64, trampoline: u64) -> (result: (
    u64,
    SwitchFrame,
))
    requires
        frame_address(stack_top) >= 0,
    ensures
        result.0 == frame_address(stack_top),
        result.1 == task_frame(entry_point, arg, 0, trampoline),
        entered(result.0 as int, result.1, trampoline) == Some(
            Entry {
                pc: entry_point,
                x0: arg,
                x30: 0,
                sp: (stack_top - stack_top % 16) as u64,
            },
        ),
{
    init_task_stack_with_arg(stack_top, entry_point, arg, 0, trampoline)
}

/// Lay out the stack of a task that starts at `entry_point` with `arg` as its
/// argument and returns to `exit_point`: the stack pointer, and the frame to put
/// there.
pub fn init_task_stack_with_arg(
    stack_top: u64,
    entry_point: u64,
    arg: u64,
    exit_point: u64,
    trampoline: u64,
) -> (result: (u64, SwitchFrame))
    requires
        frame_address(stack_top) >= 0,
    ensures
        result.0 == frame_address(stack_top),
        result.1 == task_frame(entry_point, arg, exit_point, trampoline),
        entered(result.0 as int, result.1, trampoline) == Some(
            Entry {
                pc: entry_point,
                x0: arg,
                x30: exit_point,
                sp: (stack_top - stack_top % 16) as u64,
            },
        ),
{
    let frame = SwitchFrame {
        x19: arg,
        x20: entry_point,
        x21: exit_point,
        x22: 0,
        x23: 0,
        x24: 0,
        x25: 0,
        x26: 0,
        x27: 0,
        x28: 0,
        x29: 0,
        x30: trampoline,
    };
    (stack_top - stack_top % 16 - SWITCH_FRAME_SIZE, frame)
}

/// Law: the stack pointer of a new task is aligned to 16 bytes, and its frame
/// ends at or below the top of the stack, less than 16 bytes from it.
pub proof fn law_frame_lies_in_stack(stack_top: u64)
    requires
        frame_address(stack_top) >= 0,
    ensures
        frame_address(stack_top) % 16 == 0,
        stack_top - 16 < frame_address(stack_top) + SWITCH_FRAME_SIZE <= stack_top,
{
}

/// Law: a task that is switched to starts at its entry with its argument, returns to its exit,
/// and has its whole stack: the frame is gone from it. It is switched to through the
/// trampoline only.
pub proof fn law_task_is_entered(sp: int, entry: u64, arg: u64, exit: u64, trampoline: u64)
    requires
        0 <= sp,
        sp + 96 <= u64::MAX,
    ensures
        ({
            let frame = task_frame(entry, arg, exit, trampoline);
            match entered(sp, frame, trampoline) {
                Some(started) => {
                    &&& started.pc == entry
                    &&& started.x0 == arg
                    &&& started.x30 == exit
                    &&& started.sp == sp + 96
                },
                None => false,
            }
        }),
        task_frame(entry, arg, exit, trampoline).x30 == trampoline,
        task_frame(entry, arg, exit, trampoline).x29 == 0,
        SWITCH_FRAME_SIZE == 12 * 8,
        USER_SPSR == 0,
{
}

/// Law: apart from the argument, the two addresses and the trampoline, the frame of a new task
/// holds zeros.
pub proof fn law_new_task_starts_clean(entry_point: u64, arg: u64, exit_point: u64, trampoline: u64)
    ensures
        ({
            let frame = task_frame(entry_point, arg, exit_point, trampoline);
            &&& frame.x22 == 0 && frame.x23 == 0 && frame.x24 == 0 && frame.x25 == 0
            &&& frame.x26 == 0 && frame.x27 == 0 && frame.x28 == 0 && frame.x29 == 0
            &&& frame.x30 == trampoline
            &&& frame.x19 == arg
            &&& frame.x20 == entry_point
            &&& frame.x21 == exit_point
        }),
{
}

} // verus!
