//! Absolute periodic releases in the caller's monotonic tick domain.

use vstd::arithmetic::div_mod::{lemma_div_pos_is_pos, lemma_fundamental_div_mod, lemma_mod_bound};
use vstd::arithmetic::mul::lemma_mul_is_distributive_add_other_way;
use vstd::prelude::*;

verus! {

#[derive(Clone, Copy, Debug, PartialEq, Eq, Structural)]
pub enum ReleaseError {
    InvalidPeriod,
    ClockReversed,
    Exhausted,
}

#[derive(Clone, Copy, Debug, PartialEq, Eq, Structural)]
pub struct ReleaseStats {
    pub serviced: u64,
    pub missed: u64,
    pub late: u64,
    /// Longest delay from the first outstanding deadline, skipped releases
    /// counted in.
    pub max_wake_lateness: u64,
}

impl Default for ReleaseStats {
    fn default() -> (stats: Self)
        ensures
            stats == (ReleaseStats { serviced: 0, missed: 0, late: 0, max_wake_lateness: 0 }),
    {
        ReleaseStats { serviced: 0, missed: 0, late: 0, max_wake_lateness: 0 }
    }
}

#[derive(Clone, Copy, Debug, PartialEq, Eq, Structural)]
pub struct PeriodicRelease {
    pub sequence: u64,
    pub scheduled: u64,
    pub deadline: u64,
    pub actual: u64,
    pub missed_before: u64,
    pub wake_lateness: u64,
}

impl PeriodicRelease {
    /// Work that ended at `now` ended within the release.
    pub fn completed_in_time(self, now: u64) -> (in_time: bool)
        ensures
            in_time == (self.actual <= now < self.deadline),
    {
        now >= self.actual && now < self.deadline
    }
}

/// A fixed grid of releases; each poll returns at most the latest due one. Its
/// view is a [`ScheduleModel`].
#[derive(Clone, Copy, Debug, PartialEq, Eq, Structural)]
pub struct PeriodicSchedule {
    period: u64,
    next_deadline: u64,
    /// The number of the outstanding release.
    pub next_sequence: u64,
    last_seen: u64,
    stats: ReleaseStats,
}

/// The schedule as a value.
pub struct ScheduleModel {
    pub period: u64,
    /// The outstanding release.
    pub next_deadline: u64,
    pub next_sequence: u64,
    /// The latest time that was reported.
    pub last_seen: u64,
    pub stats: ReleaseStats,
}

impl ScheduleModel {
    /// There is a grid.
    pub open spec fn wf(self) -> bool {
        self.period > 0
    }

    /// How long after the outstanding release `now` is.
    pub open spec fn lateness(self, now: u64) -> int {
        now - self.next_deadline
    }

    /// Whole periods that went by since the outstanding release.
    pub open spec fn missed(self, now: u64) -> int {
        self.lateness(now) / (self.period as int)
    }

    /// The latest grid point that is due.
    pub open spec fn due(self, now: u64) -> int {
        self.next_deadline + self.missed(now) * self.period
    }

    pub open spec fn late_count(self, now: u64) -> int {
        self.stats.late + if self.lateness(now) != 0 {
            1int
        } else {
            0int
        }
    }

    /// A counter or a time of the release does not fit.
    pub open spec fn exhausted(self, now: u64) -> bool {
        ||| self.due(now) + self.period > u64::MAX
        ||| self.next_sequence + self.missed(now) + 1 > u64::MAX
        ||| self.stats.serviced + 1 > u64::MAX
        ||| self.stats.missed + self.missed(now) > u64::MAX
        ||| self.late_count(now) > u64::MAX
    }

    /// The release due at `now`.
    pub open spec fn release_at(self, now: u64) -> PeriodicRelease {
        PeriodicRelease {
            sequence: (self.next_sequence + self.missed(now)) as u64,
            scheduled: self.due(now) as u64,
            deadline: (self.due(now) + self.period) as u64,
            actual: now,
            missed_before: self.missed(now) as u64,
            wake_lateness: self.lateness(now) as u64,
        }
    }

    /// The schedule after that release.
    pub open spec fn released(self, now: u64) -> ScheduleModel {
        ScheduleModel {
            period: self.period,
            next_deadline: (self.due(now) + self.period) as u64,
            next_sequence: (self.next_sequence + self.missed(now) + 1) as u64,
            last_seen: now,
            stats: ReleaseStats {
                serviced: (self.stats.serviced + 1) as u64,
                missed: (self.stats.missed + self.missed(now)) as u64,
                late: self.late_count(now) as u64,
                max_wake_lateness: if self.lateness(now) > self.stats.max_wake_lateness {
                    self.lateness(now) as u64
                } else {
                    self.stats.max_wake_lateness
                },
            },
        }
    }

    /// A grid with its first release one period after `start`.
    pub open spec fn starting(start: u64, period: u64) -> ScheduleModel {
        ScheduleModel {
            period,
            next_deadline: (start + period) as u64,
            next_sequence: 1,
            last_seen: start,
            stats: ReleaseStats { serviced: 0, missed: 0, late: 0, max_wake_lateness: 0 },
        }
    }
}

impl View for PeriodicSchedule {
    type V = ScheduleModel;

    closed spec fn view(&self) -> ScheduleModel {
        ScheduleModel {
            period: self.period,
            next_deadline: self.next_deadline,
            next_sequence: self.next_sequence,
            last_seen: self.last_seen,
            stats: self.stats,
        }
    }
}

impl PeriodicSchedule {
    /// A grid with its first release one period after `start`.
    pub fn new(start: u64, period: u64) -> (result: Result<Self, ReleaseError>)
        ensures
            if period == 0 {
                result == Err::<PeriodicSchedule, ReleaseError>(ReleaseError::InvalidPeriod)
            } else if start + period > u64::MAX {
                result == Err::<PeriodicSchedule, ReleaseError>(ReleaseError::Exhausted)
            } else {
                &&& result is Ok
                &&& result->Ok_0@ == ScheduleModel::starting(start, period)
            },
    {
        if period == 0 {
            return Err(ReleaseError::InvalidPeriod);
        }
        match start.checked_add(period) {
            Some(next_deadline) => Ok(
                PeriodicSchedule {
                    period,
                    next_deadline,
                    next_sequence: 1,
                    last_seen: start,
                    stats: ReleaseStats::default(),
                },
            ),
            None => Err(ReleaseError::Exhausted),
        }
    }

    pub fn next_deadline(&self) -> (deadline: u64)
        ensures
            deadline == self@.next_deadline,
    {
        self.next_deadline
    }

    pub fn stats(&self) -> (stats: ReleaseStats)
        ensures
            stats == self@.stats,
    {
        self.stats
    }

    /// The release that is due at `now`, if one is. A clock that went back and
    /// a counter at its end are refused before anything changes.
    pub fn release(&mut self, now: u64) -> (result: Result<Option<PeriodicRelease>, ReleaseError>)
        requires
            old(self)@.wf(),
        ensures
            final(self)@.wf(),
            if now < old(self)@.last_seen {
                &&& result == Err::<Option<PeriodicRelease>, ReleaseError>(
                    ReleaseError::ClockReversed,
                )
                &&& final(self)@ == old(self)@
            } else if now < old(self)@.next_deadline {
                &&& result == Ok::<Option<PeriodicRelease>, ReleaseError>(None)
                &&& final(self)@ == (ScheduleModel { last_seen: now, ..old(self)@ })
            } else if old(self)@.exhausted(now) {
                &&& result == Err::<Option<PeriodicRelease>, ReleaseError>(ReleaseError::Exhausted)
                &&& final(self)@ == old(self)@
            } else {
                &&& result == Ok::<Option<PeriodicRelease>, ReleaseError>(
                    Some(old(self)@.release_at(now)),
                )
                &&& final(self)@ == old(self)@.released(now)
            },
    {
        if now < self.last_seen {
            return Err(ReleaseError::ClockReversed);
        }
        if now < self.next_deadline {
            self.last_seen = now;
            return Ok(None);
        }
        let wake_lateness: u64 = now - self.next_deadline;
        let missed_before: u64 = wake_lateness / self.period;
        proof {
            let late = self@.lateness(now);
            let period = self.period as int;
            lemma_fundamental_div_mod(late, period);
            lemma_mod_bound(late, period);
            lemma_div_pos_is_pos(late, period);
            assert(period * (late / period) == (late / period) * period) by (nonlinear_arith);
        }
        let scheduled: u64 = now - wake_lateness % self.period;
        assert(scheduled == self@.due(now));
        let deadline: u64 = match scheduled.checked_add(self.period) {
            Some(deadline) => deadline,
            None => {
                return Err(ReleaseError::Exhausted);
            },
        };
        let sequence: u64 = match self.next_sequence.checked_add(missed_before) {
            Some(sequence) => sequence,
            None => {
                return Err(ReleaseError::Exhausted);
            },
        };
        let next_sequence: u64 = match sequence.checked_add(1) {
            Some(next_sequence) => next_sequence,
            None => {
                return Err(ReleaseError::Exhausted);
            },
        };
        let serviced: u64 = match self.stats.serviced.checked_add(1) {
            Some(serviced) => serviced,
            None => {
                return Err(ReleaseError::Exhausted);
            },
        };
        let missed: u64 = match self.stats.missed.checked_add(missed_before) {
            Some(missed) => missed,
            None => {
                return Err(ReleaseError::Exhausted);
            },
        };
        let one_late: u64 = if wake_lateness != 0 {
            1
        } else {
            0
        };
        let late: u64 = match self.stats.late.checked_add(one_late) {
            Some(late) => late,
            None => {
                return Err(ReleaseError::Exhausted);
            },
        };
        let max_wake_lateness: u64 = if wake_lateness > self.stats.max_wake_lateness {
            wake_lateness
        } else {
            self.stats.max_wake_lateness
        };
        self.next_deadline = deadline;
        self.next_sequence = next_sequence;
        self.last_seen = now;
        self.stats = ReleaseStats { serviced, missed, late, max_wake_lateness };
        Ok(
            Some(
                PeriodicRelease {
                    sequence,
                    scheduled,
                    deadline,
                    actual: now,
                    missed_before,
                    wake_lateness,
                },
            ),
        )
    }
}

/// Law: releases stay on the grid. The one returned is the latest that is due,
/// its deadline is the next outstanding release, and that lies in the future,
/// a whole number of periods after the one that was outstanding before.
pub proof fn law_releases_stay_on_grid(schedule: ScheduleModel, now: u64)
    requires
        schedule.wf(),
        schedule.next_deadline <= now,
        !schedule.exhausted(now),
    ensures
        ({
            let release = schedule.release_at(now);
            let after = schedule.released(now);
            &&& release.scheduled <= now < release.deadline
            &&& release.deadline == release.scheduled + schedule.period
            &&& after.next_deadline == release.deadline
            &&& after.next_deadline - schedule.next_deadline == (release.missed_before + 1)
                * schedule.period
        }),
{
    let late = schedule.lateness(now);
    let period = schedule.period as int;
    lemma_fundamental_div_mod(late, period);
    lemma_mod_bound(late, period);
    lemma_div_pos_is_pos(late, period);
    assert(period * (late / period) == (late / period) * period) by (nonlinear_arith);
    lemma_mul_is_distributive_add_other_way(period, late / period, 1);
}

/// Law: every release is accounted for: the number of the last one is the
/// number serviced plus the number missed.
pub proof fn law_every_release_is_counted(schedule: ScheduleModel, now: u64)
    requires
        schedule.wf(),
        schedule.next_deadline <= now,
        !schedule.exhausted(now),
        schedule.next_sequence == schedule.stats.serviced + schedule.stats.missed + 1,
    ensures
        ({
            let release = schedule.release_at(now);
            let after = schedule.released(now);
            &&& release.sequence == after.stats.serviced + after.stats.missed
            &&& after.next_sequence == after.stats.serviced + after.stats.missed + 1
        }),
{
    lemma_div_pos_is_pos(schedule.lateness(now), schedule.period as int);
}

/// Law: a poll never returns a release twice: polling again at the same time
/// returns nothing.
pub proof fn law_no_catch_up(schedule: ScheduleModel, now: u64)
    requires
        schedule.wf(),
        schedule.next_deadline <= now,
        !schedule.exhausted(now),
    ensures
        schedule.released(now).last_seen <= now < schedule.released(now).next_deadline,
{
    law_releases_stay_on_grid(schedule, now);
}

/// Law: what a release tells. Its lateness is measured from the outstanding release, and
/// the counters count one more service, the releases that were skipped, and one more late
/// one exactly if it was late; the longest lateness is kept.
pub proof fn law_release_statistics(schedule: ScheduleModel, now: u64)
    requires
        schedule.wf(),
        schedule.next_deadline <= now,
        !schedule.exhausted(now),
    ensures
        ({
            let release = schedule.release_at(now);
            let after = schedule.released(now);
            let late = now - schedule.next_deadline;
            &&& release.actual == now
            &&& release.wake_lateness == late
            &&& release.missed_before * schedule.period <= late < (release.missed_before + 1)
                * schedule.period
            &&& release.sequence == schedule.next_sequence + release.missed_before
            &&& after.last_seen == now
            &&& after.period == schedule.period
            &&& after.next_sequence == release.sequence + 1
            &&& after.stats.serviced == schedule.stats.serviced + 1
            &&& after.stats.missed == schedule.stats.missed + release.missed_before
            &&& after.stats.late == schedule.stats.late + if late > 0 {
                1int
            } else {
                0
            }
            &&& after.stats.max_wake_lateness >= schedule.stats.max_wake_lateness
            &&& after.stats.max_wake_lateness >= late
            &&& after.stats.max_wake_lateness == late || after.stats.max_wake_lateness
                == schedule.stats.max_wake_lateness
        }),
{
    let late = schedule.lateness(now);
    let period = schedule.period as int;
    lemma_fundamental_div_mod(late, period);
    lemma_mod_bound(late, period);
    lemma_div_pos_is_pos(late, period);
    assert((late / period) * period <= late < (late / period + 1) * period) by (nonlinear_arith)
        requires
            late == period * (late / period) + late % period,
            0 <= late % period < period,
    ;
}

/// Law: a schedule starts with release one, a period after its start, and nothing counted.
pub proof fn law_schedule_starts(start: u64, period: u64)
    requires
        start + period <= 0xFFFF_FFFF_FFFF_FFFF,
    ensures
        ({
            let s = ScheduleModel::starting(start, period);
            &&& s.next_deadline == start + period
            &&& s.next_sequence == 1
            &&& s.period == period
            &&& s.last_seen == start
            &&& s.stats.serviced == 0 && s.stats.missed == 0 && s.stats.late == 0
                && s.stats.max_wake_lateness == 0
        }),
{
}

/// Law: work is in time exactly if it ended no earlier than it began and before the
/// deadline.
pub proof fn law_work_in_time(release: PeriodicRelease, now: u64, in_time: bool)
    requires
        call_ensures(PeriodicRelease::completed_in_time, (release, now), in_time),
    ensures
        in_time ==> release.actual <= now && now < release.deadline,
        !in_time ==> now < release.actual || release.deadline <= now,
{
}

} // verus!
