//! Kernel-side link session: from inbound liveness and the clock to the
//! outbound action.
//!
//! While the peer is alive it is sent heartbeats on a cadence. Once inbound
//! traffic goes silent the heartbeats cease and an emergency stop is asked for
//! at every tick until the caller confirms that it was sent.

use vstd::prelude::*;

use crate::link::watchdog::{LinkLiveness, LivenessModel};

verus! {

/// What the transport should emit.
#[derive(Debug, Clone, Copy, PartialEq, Eq, Structural)]
pub enum LinkAction {
    /// Nothing.
    Idle,
    /// A heartbeat with this sequence number.
    Heartbeat(u16),
    /// The link is dead: command an emergency stop, and no heartbeat.
    SafeStop,
}

/// The session of a link. Its view is a [`SessionModel`].
#[derive(Debug, Clone, Copy)]
pub struct LinkSession {
    live: LinkLiveness,
    hb_period: u64,
    hb_seq: u16,
    last_hb: u64,
    alive_prev: bool,
    estop_done: bool,
}

/// The session as a value.
pub struct SessionModel {
    pub live: LivenessModel,
    pub hb_period: u64,
    /// The number of the next heartbeat.
    pub hb_seq: u16,
    /// When the last heartbeat was sent.
    pub last_hb: u64,
    /// The peer was alive at the last tick.
    pub alive_prev: bool,
    /// The stop for the dead peer was sent.
    pub estop_done: bool,
}

impl SessionModel {
    pub open spec fn spec_alive(self, now: u64) -> bool {
        self.live.spec_alive(now)
    }

    /// A heartbeat is due: the period has passed since the last one.
    pub open spec fn heartbeat_due(self, now: u64) -> bool {
        (now - self.last_hb) % 0x1_0000_0000_0000_0000 >= self.hb_period
    }

    /// The action of a tick.
    pub open spec fn tick_action(self, now: u64) -> LinkAction {
        if self.spec_alive(now) {
            if self.heartbeat_due(now) {
                LinkAction::Heartbeat(self.hb_seq)
            } else {
                LinkAction::Idle
            }
        } else if self.alive_prev || !self.estop_done {
            LinkAction::SafeStop
        } else {
            LinkAction::Idle
        }
    }

    /// The session after a tick.
    pub open spec fn ticked(self, now: u64) -> SessionModel {
        if self.spec_alive(now) {
            let beat = self.heartbeat_due(now);
            SessionModel {
                alive_prev: true,
                estop_done: false,
                last_hb: if beat {
                    now
                } else {
                    self.last_hb
                },
                hb_seq: if beat {
                    ((self.hb_seq + 1) % 0x1_0000) as u16
                } else {
                    self.hb_seq
                },
                ..self
            }
        } else {
            SessionModel {
                alive_prev: false,
                estop_done: self.estop_done && !self.alive_prev,
                ..self
            }
        }
    }

    /// The session after an inbound frame.
    pub open spec fn refreshed(self, now: u64) -> SessionModel {
        SessionModel {
            live: self.live.refreshed(now),
            ..self
        }
    }

    /// The session before any frame.
    pub open spec fn cold(timeout: u64, hb_period: u64) -> SessionModel {
        SessionModel {
            live: LivenessModel::cold(timeout),
            hb_period,
            hb_seq: 0,
            last_hb: 0,
            alive_prev: false,
            estop_done: false,
        }
    }
}

impl View for LinkSession {
    type V = SessionModel;

    closed spec fn view(&self) -> SessionModel {
        SessionModel {
            live: self.live@,
            hb_period: self.hb_period,
            hb_seq: self.hb_seq,
            last_hb: self.last_hb,
            alive_prev: self.alive_prev,
            estop_done: self.estop_done,
        }
    }
}

impl LinkSession {
    /// `timeout` is the inbound silence after which the peer counts as dead,
    /// `hb_period` the heartbeat cadence.
    #[must_use]
    pub fn new(timeout: u64, hb_period: u64) -> (session: Self)
        ensures
            session@ == SessionModel::cold(timeout, hb_period),
    {
        LinkSession {
            live: LinkLiveness::new(timeout),
            hb_period,
            hb_seq: 0,
            last_hb: 0,
            alive_prev: false,
            estop_done: false,
        }
    }

    /// Record an inbound frame.
    pub fn on_inbound(&mut self, now: u64)
        ensures
            final(self)@ == old(self)@.refreshed(now),
    {
        self.live.on_inbound(now);
    }

    /// Is the peer alive?
    #[must_use]
    pub fn alive(&self, now: u64) -> (alive: bool)
        ensures
            alive == self@.spec_alive(now),
    {
        self.live.alive(now)
    }

    /// Decide the action for this tick.
    pub fn tick(&mut self, now: u64) -> (action: LinkAction)
        ensures
            action == old(self)@.tick_action(now),
            final(self)@ == old(self)@.ticked(now),
    {
        if self.live.alive(now) {
            self.alive_prev = true;
            self.estop_done = false;
            if now.wrapping_sub(self.last_hb) >= self.hb_period {
                self.last_hb = now;
                let seq: u16 = self.hb_seq;
                self.hb_seq = self.hb_seq.wrapping_add(1);
                return LinkAction::Heartbeat(seq);
            }
            return LinkAction::Idle;
        }
        if self.alive_prev {
            self.alive_prev = false;
            self.estop_done = false;
        }
        if !self.estop_done {
            LinkAction::SafeStop
        } else {
            LinkAction::Idle
        }
    }

    /// The emergency stop asked for by `SafeStop` was sent.
    pub fn estop_sent(&mut self)
        ensures
            final(self)@ == (SessionModel { estop_done: true, ..old(self)@ }),
    {
        self.estop_done = true;
    }
}

/// Law: a dead link is never sent a heartbeat.
pub proof fn law_no_heartbeat_while_dead(session: SessionModel, now: u64)
    requires
        !session.spec_alive(now),
    ensures
        !(session.tick_action(now) is Heartbeat),
{
}

/// Law: on the first tick after the peer died a stop is asked for, even if an
/// earlier one was sent, and it is asked for again at every dead tick until it
/// is confirmed.
pub proof fn law_safe_stop_until_sent(session: SessionModel, died: u64, later: u64)
    requires
        !session.spec_alive(died),
        session.alive_prev || !session.estop_done,
        !session.ticked(died).spec_alive(later),
    ensures
        session.tick_action(died) == LinkAction::SafeStop,
        session.ticked(died).tick_action(later) == LinkAction::SafeStop,
{
}

/// Law: once confirmed, a stop is not asked for again while the link stays
/// dead.
pub proof fn law_safe_stop_once(session: SessionModel, died: u64, later: u64)
    requires
        !session.spec_alive(died),
        !session.spec_alive(later),
    ensures
        ({
            let confirmed = SessionModel { estop_done: true, ..session.ticked(died) };
            &&& confirmed.tick_action(later) == LinkAction::Idle
            &&& confirmed.ticked(later) == confirmed
        }),
{
}

/// Law: time alone never revives a dead peer; only an inbound frame does.
pub proof fn law_revival_needs_inbound(session: SessionModel, died: u64, later: u64)
    requires
        !session.spec_alive(died),
        died <= later,
    ensures
        !session.ticked(died).spec_alive(later),
{
}

/// Law: an alive peer is sent a heartbeat as soon as the period has passed since the
/// last one, and none before; the numbers count up and wrap. A tick that sends none
/// changes neither the number nor the time of the last one.
pub proof fn law_heartbeat_cadence(session: SessionModel, now: u64, later: u64)
    requires
        session.spec_alive(now),
        session.last_hb <= now <= later,
    ensures
        ({
            let due = now - session.last_hb >= session.hb_period;
            let after = session.ticked(now);
            &&& session.tick_action(now) == if due {
                LinkAction::Heartbeat(session.hb_seq)
            } else {
                LinkAction::Idle
            }
            &&& due ==> after.last_hb == now && after.hb_seq as int == (session.hb_seq + 1) % 65536
            &&& !due ==> after.last_hb == session.last_hb && after.hb_seq == session.hb_seq
            &&& after.spec_alive(later) && due ==> (after.tick_action(later) is Heartbeat <==> later
                >= now + session.hb_period)
            &&& after.hb_period == session.hb_period
            &&& after.alive_prev
        }),
{
}

/// Law: the peer is alive from an inbound frame until less than the timeout later,
/// and dead before any.
pub proof fn law_inbound_keeps_alive(session: SessionModel, at: u64, now: u64)
    requires
        at + session.live.timeout <= 0xFFFF_FFFF_FFFF_FFFF,
    ensures
        session.refreshed(at).spec_alive(now) <==> now < at + session.live.timeout,
        !SessionModel::cold(session.live.timeout, session.hb_period).spec_alive(now),
        session.refreshed(at).hb_seq == session.hb_seq,
        session.refreshed(at).last_hb == session.last_hb,
        session.refreshed(at).estop_done == session.estop_done,
{
}

/// Law: a link that was never alive asks for a stop at its first tick. An alive tick forgets
/// that a stop was confirmed, and a link that dies after it asks for one again.
pub proof fn law_every_death_is_stopped(
    session: SessionModel,
    timeout: u64,
    period: u64,
    now: u64,
    later: u64,
)
    ensures
        SessionModel::cold(timeout, period).tick_action(now) == LinkAction::SafeStop,
        ({
            let cold = SessionModel::cold(timeout, period);
            &&& !cold.estop_done && !cold.alive_prev
            &&& cold.hb_seq == 0 && cold.last_hb == 0
            &&& cold.hb_period == period && cold.live.timeout == timeout
        }),
        session.spec_alive(now) ==> {
            let after = session.ticked(now);
            &&& !after.estop_done
            &&& !after.spec_alive(later) ==> after.tick_action(later) == LinkAction::SafeStop
        },
        !session.spec_alive(now) ==> {
            let after = session.ticked(now);
            &&& !after.alive_prev
            &&& after.estop_done <==> session.estop_done && !session.alive_prev
            &&& after.hb_seq == session.hb_seq && after.last_hb == session.last_hb
        },
{
}

} // verus!
