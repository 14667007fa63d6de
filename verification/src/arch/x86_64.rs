//! Telling the other processors that tables have changed.
//!
//! Each change has an epoch. A processor that has dropped its cached
//! translations acknowledges the latest epoch, and with it all before.

use vstd::prelude::*;

verus! {

/// Processors that are told apart.
pub const MAX_TRACKED_CPUS: usize = 64;

/// The processor `cpu` is in the set.
pub open spec fn in_set(set: u64, cpu: int) -> bool {
    0 <= cpu < 64 && (set >> cpu as u64) & 1 == 1
}

/// The epochs.
pub struct TlbShootdown {
    pub epoch: u64,
    pub acks: [u64; 64],
    pub reported: bool,
}

impl TlbShootdown {
    /// All processors of the set have acknowledged the epoch.
    pub open spec fn acknowledged(self, targets: u64, epoch: u64) -> bool {
        forall|cpu: int| #[trigger] in_set(targets, cpu) ==> self.acks@[cpu] >= epoch
    }

    pub fn new() -> (tlb: Self)
        ensures
            tlb.epoch == 0,
            tlb.acks@ == Seq::new(64, |i: int| 0u64),
            !tlb.reported,
    {
        let tlb = TlbShootdown { epoch: 0, acks: [0;64], reported: false };
        assert(tlb.acks@ =~= Seq::new(64, |i: int| 0u64));
        tlb
    }

    /// A processor has dropped its cached translations.
    pub fn acknowledge_latest_tlb_epoch(&mut self, cpu: usize)
        requires
            cpu < MAX_TRACKED_CPUS,
        ensures
            final(self).acks@ == old(self).acks@.update(
                cpu as int,
                if old(self).acks@[cpu as int] > old(self).epoch {
                    old(self).acks@[cpu as int]
                } else {
                    old(self).epoch
                },
            ),
            final(self).epoch == old(self).epoch,
            final(self).reported == old(self).reported,
    {
        let ghost before = self.acks@;
        if self.acks[cpu] < self.epoch {
            self.acks[cpu] = self.epoch;
        }
        assert(self.acks@ =~= before.update(
            cpu as int,
            if before[cpu as int] > self.epoch {
                before[cpu as int]
            } else {
                self.epoch
            },
        ));
    }

    /// Another processor asks this one to drop its cached translations.
    pub fn handle_tlb_shootdown_ipi(&mut self, cpu: usize)
        requires
            cpu < MAX_TRACKED_CPUS,
        ensures
            final(self).acks@ == old(self).acks@.update(
                cpu as int,
                if old(self).acks@[cpu as int] > old(self).epoch {
                    old(self).acks@[cpu as int]
                } else {
                    old(self).epoch
                },
            ),
            final(self).epoch == old(self).epoch,
            final(self).reported == old(self).reported,
    {
        self.acknowledge_latest_tlb_epoch(cpu);
    }

    /// Whether all processors of the set have acknowledged the epoch.
    pub fn targets_acknowledged(&self, targets: u64, epoch: u64) -> (done: bool)
        ensures
            done == self.acknowledged(targets, epoch),
    {
        let mut cpu: usize = 0;
        while cpu < MAX_TRACKED_CPUS
            invariant
                cpu <= MAX_TRACKED_CPUS,
                forall|i: int| i < cpu && #[trigger] in_set(targets, i) ==> self.acks@[i] >= epoch,
            decreases MAX_TRACKED_CPUS - cpu,
        {
            if (targets >> cpu as u64) & 1 == 1 {
                assert(in_set(targets, cpu as int));
                if self.acks[cpu] < epoch {
                    return false;
                }
            }
            cpu = cpu + 1;
        }
        true
    }

    /// Begin a shootdown from the processor `current`: the processors to
    /// interrupt, and the epoch to wait for. The processor itself drops its
    /// cached translations and acknowledges.
    pub fn shootdown_tlb(&mut self, targets: u64, online: u64, current: usize) -> (result: (u64, u64))
        requires
            current < MAX_TRACKED_CPUS,
            old(self).epoch < u64::MAX,
        ensures
            result.0 == targets & online & !(1u64 << current as u64),
            result.1 == old(self).epoch + 1,
            final(self).epoch == old(self).epoch + 1,
            final(self).acks@ == old(self).acks@.update(
                current as int,
                if old(self).acks@[current as int] > final(self).epoch {
                    old(self).acks@[current as int]
                } else {
                    final(self).epoch
                },
            ),
            final(self).reported == old(self).reported,
    {
        let others: u64 = targets & online & !(1u64 << current as u64);
        self.epoch = self.epoch + 1;
        self.acknowledge_latest_tlb_epoch(current);
        (others, self.epoch)
    }

    /// A shootdown is complete. Tells whether it is the first, which is reported.
    pub fn complete(&mut self) -> (report: bool)
        ensures
            report == !old(self).reported,
            final(self).reported,
            final(self).epoch == old(self).epoch,
            final(self).acks == old(self).acks,
    {
        let report = !self.reported;
        self.reported = true;
        report
    }
}

/// The processors of a set, the lowest first.
pub fn targets_of(set: u64) -> (cpus: Vec<usize>)
    ensures
        forall|i: int| 0 <= i < cpus@.len() ==> in_set(set, #[trigger] cpus@[i] as int),
        forall|cpu: int| #[trigger]
            in_set(set, cpu) ==> exists|i: int| 0 <= i < cpus@.len() && #[trigger] cpus@[i] == cpu,
        forall|i: int, j: int|
            0 <= i < j < cpus@.len() ==> #[trigger] cpus@[i] < #[trigger] cpus@[j],
{
    let mut cpus: Vec<usize> = Vec::new();
    let mut cpu: usize = 0;
    while cpu < MAX_TRACKED_CPUS
        invariant
            cpu <= MAX_TRACKED_CPUS,
            forall|i: int|
                0 <= i < cpus@.len() ==> in_set(set, #[trigger] cpus@[i] as int) && cpus@[i] < cpu,
            forall|c: int|
                c < cpu && #[trigger] in_set(set, c) ==> exists|i: int|
                    0 <= i < cpus@.len() && #[trigger] cpus@[i] == c,
            forall|i: int, j: int|
                0 <= i < j < cpus@.len() ==> #[trigger] cpus@[i] < #[trigger] cpus@[j],
        decreases MAX_TRACKED_CPUS - cpu,
    {
        let ghost before = cpus@;
        if (set >> cpu as u64) & 1 == 1 {
            assert(in_set(set, cpu as int));
            cpus.push(cpu);
            assert(cpus@[before.len() as int] == cpu);
        }
        assert forall|c: int| c < cpu + 1 && #[trigger] in_set(set, c) implies exists|i: int|
            0 <= i < cpus@.len() && #[trigger] cpus@[i] == c by {
            if c < cpu {
                let i = choose|i: int| 0 <= i < before.len() && #[trigger] before[i] == c;
                assert(cpus@[i] == c);
            }
        }
        cpu = cpu + 1;
    }
    cpus
}

/// Law: the processors to interrupt are those asked for that are up, without the
/// one that asks.
pub proof fn law_targets(targets: u64, online: u64, current: u64, cpu: u64)
    requires
        current < 64,
        cpu < 64,
    ensures
        in_set(targets & online & !(1u64 << current), cpu as int) <==> in_set(targets, cpu as int)
            && in_set(online, cpu as int) && cpu != current,
{
    assert(((targets & online & !(1u64 << current)) >> cpu) & 1 == 1 <==> (targets >> cpu) & 1 == 1
        && (online >> cpu) & 1 == 1 && cpu != current) by (bit_vector)
        requires
            current < 64,
            cpu < 64,
    ;
}

/// Law: once a processor has acknowledged an epoch, later epochs and further
/// acknowledgements do not take that back.
pub proof fn law_acknowledgements_stay(
    before: TlbShootdown,
    after: TlbShootdown,
    cpu: int,
    targets: u64,
    epoch: u64,
)
    requires
        0 <= cpu < 64,
        before.acknowledged(targets, epoch),
        before.acks@.len() == 64,
        after.acks@ == before.acks@.update(
            cpu,
            if before.acks@[cpu] > after.epoch {
                before.acks@[cpu]
            } else {
                after.epoch
            },
        ),
    ensures
        after.acknowledged(targets, epoch),
{
    assert forall|c: int| #[trigger] in_set(targets, c) implies after.acks@[c] >= epoch by {
        assert(before.acks@[c] >= epoch);
    }
}

/// Law: a set has the processors whose bits are set, the lowest bit for the first.
pub proof fn law_set_by_bits(set: u64, cpu: u64)
    requires
        cpu < 64,
    ensures
        in_set(1u64 << cpu, cpu as int),
        in_set(set, cpu as int) <==> set & (1u64 << cpu) != 0,
        !in_set(set, 64) && !in_set(set, -1),
{
    assert(((1u64 << cpu) >> cpu) & 1 == 1 && ((set >> cpu) & 1 == 1 <==> set & (1u64 << cpu) != 0))
        by (bit_vector)
        requires
            cpu < 64,
    ;
}

/// Law: a shootdown is over once every processor asked has acknowledged its epoch or a later
/// one, and not before.
pub proof fn law_all_targets_acknowledge(tlb: TlbShootdown, targets: u64, epoch: u64, cpu: int)
    requires
        in_set(targets, cpu),
    ensures
        tlb.acks@[cpu] < epoch ==> !tlb.acknowledged(targets, epoch),
        tlb.acknowledged(targets, epoch) ==> tlb.acks@[cpu] >= epoch,
{
}

/// Law: a shootdown is acknowledged exactly if no processor of the set is behind its epoch; one
/// that is exactly there counts.
pub proof fn law_acknowledged_by_all(tlb: TlbShootdown, targets: u64, epoch: u64, cpu: int)
    ensures
        in_set(targets, cpu) && tlb.acks@[cpu] < epoch ==> !tlb.acknowledged(targets, epoch),
        (forall|c: int| #[trigger] in_set(targets, c) ==> tlb.acks@[c] == epoch)
            ==> tlb.acknowledged(targets, epoch),
        tlb.acknowledged(targets, 0),
{
}

} // verus!
