//! Bringing the other processors up, and what is counted of them.

use vstd::prelude::*;

use crate::arch::cpu::MAX_CPUS;
use crate::arch::psci::{self, CpuOn, SUCCESS};

verus! {

/// The registers that another processor takes over before it turns translation
/// on.
#[derive(Debug, Clone, Copy, PartialEq, Eq, Structural)]
pub struct SecondaryMmuRegs {
    pub mair: u64,
    pub tcr: u64,
    pub ttbr0: u64,
    pub ttbr1: u64,
}

/// What is counted of each processor. The counters wrap.
pub struct CpuCounters {
    /// Processors that are up, the first one included.
    pub online: u32,
    pub timer_ticks: [u64; 4],
    pub ipi_counts: [u64; 4],
}

/// One more, wrapping.
pub open spec fn bumped(count: u64) -> u64 {
    if count == u64::MAX {
        0
    } else {
        (count + 1) as u64
    }
}

impl CpuCounters {
    pub fn new() -> (counters: Self)
        ensures
            counters.online == 1,
            counters.timer_ticks@ == seq![0u64, 0, 0, 0],
            counters.ipi_counts@ == seq![0u64, 0, 0, 0],
    {
        let counters = CpuCounters { online: 1, timer_ticks: [0;4], ipi_counts: [0;4] };
        assert(counters.timer_ticks@ =~= seq![0u64, 0, 0, 0]);
        assert(counters.ipi_counts@ =~= seq![0u64, 0, 0, 0]);
        counters
    }

    /// Another processor is up.
    pub fn note_online(&mut self)
        requires
            old(self).online < MAX_CPUS,
        ensures
            final(self).online == old(self).online + 1,
            final(self).timer_ticks == old(self).timer_ticks,
            final(self).ipi_counts == old(self).ipi_counts,
    {
        self.online = self.online + 1;
    }

    /// The timer of another processor fired. Tells whether it was the first time.
    pub fn note_secondary_tick(&mut self, cpu_id: usize) -> (first: bool)
        requires
            cpu_id < MAX_CPUS,
        ensures
            first == (old(self).timer_ticks@[cpu_id as int] == 0),
            final(self).timer_ticks@ == old(self).timer_ticks@.update(
                cpu_id as int,
                bumped(old(self).timer_ticks@[cpu_id as int]),
            ),
            final(self).online == old(self).online,
            final(self).ipi_counts == old(self).ipi_counts,
    {
        let ticks: u64 = self.timer_ticks[cpu_id].wrapping_add(1);
        self.timer_ticks[cpu_id] = ticks;
        ticks == 1
    }

    /// A processor was interrupted by another.
    pub fn note_ipi(&mut self, cpu_id: usize)
        requires
            cpu_id < MAX_CPUS,
        ensures
            final(self).ipi_counts@ == old(self).ipi_counts@.update(
                cpu_id as int,
                bumped(old(self).ipi_counts@[cpu_id as int]),
            ),
            final(self).online == old(self).online,
            final(self).timer_ticks == old(self).timer_ticks,
    {
        let count: u64 = self.ipi_counts[cpu_id].wrapping_add(1);
        self.ipi_counts[cpu_id] = count;
    }
}

/// How many of the calls started a processor.
pub open spec fn started_count(statuses: Seq<i64>) -> int
    decreases statuses.len(),
{
    if statuses.len() == 0 {
        0
    } else {
        started_count(statuses.drop_last()) + if statuses.last() == SUCCESS {
            1int
        } else {
            0
        }
    }
}

/// What comes after the calls that switch processors on.
#[derive(Debug, Clone, Copy, PartialEq, Eq, Structural)]
pub enum BringUp {
    /// None was started.
    Alone,
    /// Wait for those that were.
    Wait { started: u32 },
}

/// What comes after the calls, from the status of each.
pub fn after_cpu_on(statuses: &Vec<i64>) -> (next: BringUp)
    requires
        statuses@.len() < MAX_CPUS,
    ensures
        next == if started_count(statuses@) == 0 {
            BringUp::Alone
        } else {
            BringUp::Wait { started: started_count(statuses@) as u32 }
        },
{
    let mut started: u32 = 0;
    let mut i: usize = 0;
    assert(statuses@.subrange(0, 0) =~= Seq::empty());
    while i < statuses.len()
        invariant
            i <= statuses@.len() < MAX_CPUS,
            started == started_count(statuses@.subrange(0, i as int)),
            started <= i,
        decreases statuses@.len() - i,
    {
        assert(statuses@.subrange(0, i + 1).drop_last() =~= statuses@.subrange(0, i as int));
        match psci::outcome(statuses[i]) {
            CpuOn::Started => {
                started = started + 1;
            },
            CpuOn::AlreadyOn => {},
            CpuOn::Failed { .. } => {},
        }
        i = i + 1;
    }
    assert(statuses@.subrange(0, i as int) =~= statuses@);
    if started == 0 {
        BringUp::Alone
    } else {
        BringUp::Wait { started }
    }
}

/// The end of the wait for the others: a fifth of a second after `start`.
pub fn online_deadline(start: u64, frequency: u64) -> (deadline: u64)
    requires
        start + frequency / 5 <= u64::MAX,
    ensures
        deadline == start + frequency / 5,
{
    start + frequency / 5
}

/// Whether the wait goes on: not all are up, and the time is not over.
pub fn keep_waiting(online: u32, now: u64, deadline: u64) -> (wait: bool)
    ensures
        wait == (online < MAX_CPUS && now < deadline),
{
    online < MAX_CPUS as u32 && now < deadline
}

/// The end of the wait for one processor to answer: a hundredth of a second.
pub fn ipi_deadline(start: u64, frequency: u64) -> (deadline: u64)
    requires
        start + frequency / 100 <= u64::MAX,
    ensures
        deadline == start + frequency / 100,
{
    start + frequency / 100
}

/// How the wait for an answer stands.
#[derive(Debug, Clone, Copy, PartialEq, Eq, Structural)]
pub enum IpiWait {
    Acknowledged,
    TimedOut,
    Wait,
}

/// How the wait stands, from the count before the interrupt was sent and now. An
/// answer counts even if it comes as the time ends.
pub fn ipi_wait(before: u64, count: u64, now: u64, deadline: u64) -> (wait: IpiWait)
    ensures
        wait == if count > before {
            IpiWait::Acknowledged
        } else if now >= deadline {
            IpiWait::TimedOut
        } else {
            IpiWait::Wait
        },
{
    if count > before {
        IpiWait::Acknowledged
    } else if now >= deadline {
        IpiWait::TimedOut
    } else {
        IpiWait::Wait
    }
}

/// Law: a count goes up by one and starts over at its end.
pub proof fn law_counts_wrap(count: u64)
    ensures
        bumped(count) as int == (count + 1) % 0x1_0000_0000_0000_0000,
{
}

/// Law: as many processors were started as calls returned zero.
pub proof fn law_started_processors(statuses: Seq<i64>, status: i64)
    ensures
        started_count(Seq::empty()) == 0,
        started_count(statuses.push(status)) == started_count(statuses) + if status == 0 {
            1int
        } else {
            0
        },
        0 <= started_count(statuses) <= statuses.len(),
    decreases statuses.len(),
{
    assert(statuses.push(status).drop_last() =~= statuses);
    if statuses.len() > 0 {
        law_started_processors(statuses.drop_last(), statuses.last());
        assert(statuses.drop_last().push(statuses.last()) =~= statuses);
    }
}

/// Law: the wait for others lasts until all four are up or a fifth of a second is over; the
/// wait for an answer until it came, even late, or a hundredth is over.
pub proof fn law_waits_end(
    online: u32,
    now: u64,
    deadline: u64,
    before: u64,
    count: u64,
    wait: bool,
    ipi: IpiWait,
)
    requires
        call_ensures(keep_waiting, (online, now, deadline), wait),
        call_ensures(ipi_wait, (before, count, now, deadline), ipi),
    ensures
        wait <==> online < 4 && now < deadline,
        ipi is Acknowledged <==> before < count,
        ipi is TimedOut <==> count <= before && deadline <= now,
        ipi is Wait <==> count <= before && now < deadline,
{
}

/// Law: the ends of the waits lie 200 ms and 10 ms after their start.
pub proof fn law_wait_times(start: u64, frequency: u64, all: u64, one: u64)
    requires
        call_ensures(online_deadline, (start, frequency), all),
        call_ensures(ipi_deadline, (start, frequency), one),
    ensures
        all - start == frequency as int / 5,
        one - start == frequency as int / 100,
{
}

} // verus!
