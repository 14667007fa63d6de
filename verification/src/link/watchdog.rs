//! Fail-safe state of the motor controller, and peer liveness.
//!
//! The watchdog turns messages for the controller into a motor output:
//!
//! - without a fresh motor command for `timeout` ticks the output is a safe
//!   stop, and heartbeats neither extend nor restore motor authority;
//! - an asserted emergency stop latches until it is released, and a release
//!   never resumes an older command;
//! - a setpoint whose sequence number is not newer than the last accepted one
//!   changes nothing;
//! - before the first fresh setpoint the output is a safe stop.
//!
//! Time is the caller's monotonic tick count.

use vstd::prelude::*;

use crate::link::codec::Msg;

verus! {

/// `now + timeout`, or the last tick there is.
pub open spec fn tick_deadline(now: u64, timeout: u64) -> u64 {
    if now + timeout > u64::MAX {
        u64::MAX
    } else {
        (now + timeout) as u64
    }
}

/// What the motors should do.
#[derive(Debug, Clone, Copy, PartialEq, Eq, Structural)]
pub enum Output {
    /// Drive at this signed per-mille duty.
    Drive { left: i16, right: i16 },
    /// Force the motors to neutral.
    SafeStop,
}

/// Controller-side watchdog. Its view is a [`WatchdogModel`].
#[derive(Debug, Clone, Copy)]
pub struct Watchdog {
    timeout: u64,
    deadline: u64,
    command_deadline_active: bool,
    seq_valid: bool,
    last_seq: u8,
    left: i16,
    right: i16,
    setpoint_armed: bool,
    estop_latched: bool,
    hardware_estop: bool,
}

/// The watchdog as a value.
pub struct WatchdogModel {
    pub timeout: u64,
    pub deadline: u64,
    /// A command deadline is running. A physical stop does not clear it.
    pub command_deadline_active: bool,
    /// A setpoint was accepted before, so `last_seq` is meaningful.
    pub seq_valid: bool,
    pub last_seq: u8,
    pub left: i16,
    pub right: i16,
    /// The stored setpoint may be driven: it came after the last stop.
    pub setpoint_armed: bool,
    pub estop_latched: bool,
    pub hardware_estop: bool,
}

/// Serial-number order over `u8`: `new` is 1 to 127 steps ahead of `last`.
pub open spec fn is_newer(new: u8, last: u8) -> bool {
    1 <= (new - last) % 256 < 128
}

impl WatchdogModel {
    pub open spec fn spec_expired(self, now: u64) -> bool {
        now >= self.deadline
    }

    pub open spec fn spec_output(self, now: u64) -> Output {
        if !self.estop_latched && !self.hardware_estop && self.setpoint_armed
            && !self.spec_expired(now) {
            Output::Drive { left: self.left, right: self.right }
        } else {
            Output::SafeStop
        }
    }

    /// An overdue command deadline becomes a latched stop.
    pub open spec fn expiry_observed(self, now: u64) -> WatchdogModel {
        if self.command_deadline_active && self.spec_expired(now) {
            WatchdogModel {
                command_deadline_active: false,
                setpoint_armed: false,
                estop_latched: true,
                ..self
            }
        } else {
            self
        }
    }

    /// Whether `msg` is accepted by this watchdog.
    pub open spec fn accepts(self, msg: Msg) -> bool {
        match msg {
            Msg::MotorSetpoint { seq, .. } => !self.seq_valid || is_newer(seq, self.last_seq),
            Msg::Estop { .. } => true,
            Msg::HeartbeatToShrike { .. } => true,
            _ => false,
        }
    }

    /// The watchdog after `msg` observed at `now`.
    pub open spec fn after(self, msg: Msg, now: u64) -> WatchdogModel {
        let w = self.expiry_observed(now);
        match msg {
            Msg::MotorSetpoint { seq, left, right } if self.accepts(msg) => {
                let armed = !w.estop_latched && !w.hardware_estop;
                WatchdogModel {
                    seq_valid: true,
                    last_seq: seq,
                    left,
                    right,
                    setpoint_armed: armed,
                    deadline: if armed {
                        tick_deadline(now, w.timeout)
                    } else {
                        w.deadline
                    },
                    command_deadline_active: armed || w.command_deadline_active,
                    ..w
                }
            },
            Msg::Estop { assert: asserted } => WatchdogModel {
                estop_latched: asserted,
                setpoint_armed: false,
                command_deadline_active: false,
                ..w
            },
            _ => w,
        }
    }

    /// The watchdog after a sample of the physical stop line.
    pub open spec fn after_hardware(self, asserted: bool) -> WatchdogModel {
        WatchdogModel {
            setpoint_armed: self.setpoint_armed && !asserted && !self.hardware_estop,
            hardware_estop: asserted,
            ..self
        }
    }

    /// The watchdog after a timed sequence of messages.
    pub open spec fn after_all(self, msgs: Seq<(Msg, u64)>) -> WatchdogModel
        decreases msgs.len(),
    {
        if msgs.len() == 0 {
            self
        } else {
            let (msg, now) = msgs.last();
            self.after_all(msgs.drop_last()).after(msg, now)
        }
    }

    /// The watchdog before any command.
    pub open spec fn cold(timeout: u64) -> WatchdogModel {
        WatchdogModel {
            timeout,
            deadline: 0,
            command_deadline_active: false,
            seq_valid: false,
            last_seq: 0,
            left: 0,
            right: 0,
            setpoint_armed: false,
            estop_latched: false,
            hardware_estop: false,
        }
    }
}

impl View for Watchdog {
    type V = WatchdogModel;

    closed spec fn view(&self) -> WatchdogModel {
        WatchdogModel {
            timeout: self.timeout,
            deadline: self.deadline,
            command_deadline_active: self.command_deadline_active,
            seq_valid: self.seq_valid,
            last_seq: self.last_seq,
            left: self.left,
            right: self.right,
            setpoint_armed: self.setpoint_armed,
            estop_latched: self.estop_latched,
            hardware_estop: self.hardware_estop,
        }
    }
}

impl Watchdog {
    /// A watchdog before any command. `timeout` is the longest time between
    /// fresh motor commands.
    #[must_use]
    pub fn new(timeout: u64) -> (w: Self)
        ensures
            w@ == WatchdogModel::cold(timeout),
    {
        Watchdog {
            timeout,
            deadline: 0,
            command_deadline_active: false,
            seq_valid: false,
            last_seq: 0,
            left: 0,
            right: 0,
            setpoint_armed: false,
            estop_latched: false,
            hardware_estop: false,
        }
    }

    /// Take one decoded message observed at `now`; `true` if it was accepted.
    ///
    /// Expiry is observed first. Only a fresh setpoint, taken while nothing is
    /// stopped, moves the command deadline.
    pub fn on_msg(&mut self, msg: &Msg, now: u64) -> (accepted: bool)
        ensures
            final(self)@ == old(self)@.after(*msg, now),
            accepted == old(self)@.accepts(*msg),
    {
        if self.command_deadline_active && self.expired(now) {
            self.command_deadline_active = false;
            self.setpoint_armed = false;
            self.estop_latched = true;
        }
        match *msg {
            Msg::MotorSetpoint { seq, left, right } => {
                if self.seq_valid && !seq_newer(seq, self.last_seq) {
                    return false;
                }
                self.seq_valid = true;
                self.last_seq = seq;
                self.left = left;
                self.right = right;
                self.setpoint_armed = !self.estop_latched && !self.hardware_estop;
                if self.setpoint_armed {
                    self.refresh(now);
                    self.command_deadline_active = true;
                }
                true
            },
            Msg::Estop { assert: asserted } => {
                self.estop_latched = asserted;
                self.setpoint_armed = false;
                self.command_deadline_active = false;
                true
            },
            Msg::HeartbeatToShrike { .. } => true,
            _ => false,
        }
    }

    /// Sample the physical stop line. Either edge discards old motion; neither
    /// clears a latched stop.
    pub fn set_hardware_estop(&mut self, asserted: bool)
        ensures
            final(self)@ == old(self)@.after_hardware(asserted),
    {
        if asserted != self.hardware_estop || asserted {
            self.setpoint_armed = false;
        }
        self.hardware_estop = asserted;
    }

    /// The motor output at `now`.
    #[must_use]
    pub fn output(&self, now: u64) -> (output: Output)
        ensures
            output == self@.spec_output(now),
    {
        if self.estop_latched || self.hardware_estop || !self.setpoint_armed || self.expired(now) {
            Output::SafeStop
        } else {
            Output::Drive { left: self.left, right: self.right }
        }
    }

    /// Whether the motor command is too old at `now`.
    #[must_use]
    pub fn expired(&self, now: u64) -> (expired: bool)
        ensures
            expired == self@.spec_expired(now),
    {
        now >= self.deadline
    }

    fn refresh(&mut self, now: u64)
        ensures
            final(self)@ == (WatchdogModel {
                deadline: tick_deadline(now, old(self)@.timeout),
                ..old(self)@
            }),
    {
        self.deadline = now.saturating_add(self.timeout);
    }
}

/// Law: before the first setpoint the output is a safe stop, at any time and
/// whatever other messages came.
pub proof fn law_cold_start_is_safe(w: WatchdogModel, msgs: Seq<(Msg, u64)>, now: u64)
    requires
        !w.setpoint_armed,
        forall|i: int| 0 <= i < msgs.len() ==> !((#[trigger] msgs[i]).0 is MotorSetpoint),
    ensures
        !w.after_all(msgs).setpoint_armed,
        w.after_all(msgs).spec_output(now) == Output::SafeStop,
    decreases msgs.len(),
{
    if msgs.len() > 0 {
        assert(!(msgs[msgs.len() - 1].0 is MotorSetpoint));
        law_cold_start_is_safe(w, msgs.drop_last(), now);
    }
}

/// Law: a latched stop holds the output safe through every message but a
/// release.
pub proof fn law_estop_dominates(w: WatchdogModel, msgs: Seq<(Msg, u64)>, now: u64)
    requires
        w.estop_latched,
        forall|i: int|
            0 <= i < msgs.len() ==> (#[trigger] msgs[i]).0 != (Msg::Estop { assert: false }),
    ensures
        w.after_all(msgs).estop_latched,
        w.after_all(msgs).spec_output(now) == Output::SafeStop,
    decreases msgs.len(),
{
    if msgs.len() > 0 {
        assert(msgs[msgs.len() - 1].0 != (Msg::Estop { assert: false }));
        law_estop_dominates(w, msgs.drop_last(), now);
    }
}

/// Law: a release does not resume motion; only a fresh setpoint after it does.
pub proof fn law_release_does_not_resume(
    w: WatchdogModel,
    released_at: u64,
    msgs: Seq<(Msg, u64)>,
    now: u64,
)
    requires
        forall|i: int| 0 <= i < msgs.len() ==> !((#[trigger] msgs[i]).0 is MotorSetpoint),
    ensures
        w.after(Msg::Estop { assert: false }, released_at).after_all(msgs).spec_output(now)
            == Output::SafeStop,
{
    law_cold_start_is_safe(w.after(Msg::Estop { assert: false }, released_at), msgs, now);
}

/// Law: a heartbeat never gives the motors anything: afterwards the output at
/// any time is what it was, or a safe stop.
pub proof fn law_heartbeat_gives_no_authority(w: WatchdogModel, seq: u16, at: u64, now: u64)
    ensures
        ({
            let after = w.after(Msg::HeartbeatToShrike { seq }, at);
            &&& after.spec_output(now) == w.spec_output(now) || after.spec_output(now)
                == Output::SafeStop
            &&& after.deadline == w.deadline
        }),
{
}

/// Law: a stale or replayed setpoint neither moves the command deadline nor
/// changes what is driven, except that an overdue deadline is noticed.
pub proof fn law_replay_changes_nothing(w: WatchdogModel, msg: Msg, at: u64)
    requires
        msg is MotorSetpoint,
        !w.accepts(msg),
    ensures
        w.after(msg, at) == w.expiry_observed(at),
        w.after(msg, at).deadline == w.deadline,
{
}

/// Law: once the deadline of an active command has passed, no message but a
/// release ever lets the motors move again.
pub proof fn law_expiry_needs_release(
    w: WatchdogModel,
    first: (Msg, u64),
    msgs: Seq<(Msg, u64)>,
    now: u64,
)
    requires
        w.command_deadline_active,
        w.spec_expired(first.1),
        first.0 != (Msg::Estop { assert: false }),
        forall|i: int|
            0 <= i < msgs.len() ==> (#[trigger] msgs[i]).0 != (Msg::Estop { assert: false }),
    ensures
        w.after(first.0, first.1).after_all(msgs).spec_output(now) == Output::SafeStop,
{
    law_estop_dominates(w.after(first.0, first.1), msgs, now);
}

/// Law: a fresh setpoint taken while nothing is stopped is driven until its
/// timeout, and not after.
pub proof fn law_fresh_setpoint_drives(
    w: WatchdogModel,
    seq: u8,
    left: i16,
    right: i16,
    at: u64,
    now: u64,
)
    requires
        w.accepts(Msg::MotorSetpoint { seq, left, right }),
        !w.expiry_observed(at).estop_latched,
        !w.hardware_estop,
    ensures
        w.after(Msg::MotorSetpoint { seq, left, right }, at).spec_output(now) == if now
            < tick_deadline(at, w.timeout) {
            Output::Drive { left, right }
        } else {
            Output::SafeStop
        },
{
}

/// Something that a watchdog is told.
pub enum Input {
    /// A message, observed at a time.
    Message { msg: Msg, at: u64 },
    /// A sample of the physical stop line.
    Line { asserted: bool },
}

impl Input {
    pub open spec fn is_estop(self) -> bool {
        self matches Input::Message { msg, .. } && msg is Estop
    }

    pub open spec fn is_release(self) -> bool {
        self matches Input::Message { msg, .. } && msg == (Msg::Estop { assert: false })
    }

    pub open spec fn raises_line(self) -> bool {
        self == (Input::Line { asserted: true })
    }

    /// It was observed at `now` or before, if it carries a time.
    pub open spec fn seen_by(self, now: u64) -> bool {
        match self {
            Input::Message { at, .. } => at <= now,
            Input::Line { .. } => true,
        }
    }
}

/// What a new watchdog is after its first `n` inputs.
pub open spec fn watched(timeout: u64, inputs: Seq<Input>, n: int) -> WatchdogModel
    decreases n,
{
    if n <= 0 {
        WatchdogModel::cold(timeout)
    } else {
        let before = watched(timeout, inputs, n - 1);
        match inputs[n - 1] {
            Input::Message { msg, at } => before.after(msg, at),
            Input::Line { asserted } => before.after_hardware(asserted),
        }
    }
}

proof fn lemma_watched_prefix(timeout: u64, inputs: Seq<Input>, more: Seq<Input>, n: int)
    requires
        n <= inputs.len(),
        n <= more.len(),
        forall|i: int| 0 <= i < n ==> #[trigger] inputs[i] == more[i],
    ensures
        watched(timeout, inputs, n) == watched(timeout, more, n),
    decreases n,
{
    if n > 0 {
        lemma_watched_prefix(timeout, inputs, more, n - 1);
        assert(inputs[n - 1] == more[n - 1]);
    }
}

/// Each call of a watchdog adds one input to what it was told.
pub proof fn lemma_watched_push(timeout: u64, inputs: Seq<Input>, input: Input)
    ensures
        ({
            let before = watched(timeout, inputs, inputs.len() as int);
            watched(timeout, inputs.push(input), inputs.push(input).len() as int) == match input {
                Input::Message { msg, at } => before.after(msg, at),
                Input::Line { asserted } => before.after_hardware(asserted),
            }
        }),
{
    lemma_watched_prefix(timeout, inputs.push(input), inputs, inputs.len() as int);
}

/// The stop line as sampled last among the first `n` inputs, low before any.
pub open spec fn line_high(inputs: Seq<Input>, n: int) -> bool
    decreases n,
{
    if n <= 0 {
        false
    } else {
        match inputs[n - 1] {
            Input::Message { .. } => line_high(inputs, n - 1),
            Input::Line { asserted } => asserted,
        }
    }
}

/// Input `i` is a setpoint that was accepted.
pub open spec fn sets(timeout: u64, inputs: Seq<Input>, i: int) -> bool {
    inputs[i] matches Input::Message { msg, .. } && msg is MotorSetpoint && watched(
        timeout,
        inputs,
        i,
    ).accepts(msg)
}

/// Input `i` is a setpoint that was accepted and could be driven.
pub open spec fn arms(timeout: u64, inputs: Seq<Input>, i: int) -> bool {
    sets(timeout, inputs, i) && watched(timeout, inputs, i + 1).setpoint_armed
}

/// When the command of setpoint `i` runs out.
pub open spec fn runs_out(timeout: u64, inputs: Seq<Input>, i: int) -> u64 {
    match inputs[i] {
        Input::Message { at, .. } => tick_deadline(at, timeout),
        Input::Line { .. } => 0,
    }
}

/// After `n` inputs, setpoint `k` is the last that could be driven, and no stop
/// message came since.
pub open spec fn in_force(timeout: u64, inputs: Seq<Input>, k: int, n: int) -> bool {
    &&& 0 <= k < n
    &&& arms(timeout, inputs, k)
    &&& forall|j: int| k < j < n ==> !arms(timeout, inputs, j) && !(#[trigger] inputs[j]).is_estop()
}

/// Input `i` is a message that came when the command in force had run out.
pub open spec fn comes_late(timeout: u64, inputs: Seq<Input>, i: int) -> bool {
    inputs[i] matches Input::Message { at, .. } && exists|k: int| #[trigger]
        in_force(timeout, inputs, k, i) && at >= runs_out(timeout, inputs, k)
}

/// Input `i` asserts a stop, or finds the command in force run out.
pub open spec fn stops(timeout: u64, inputs: Seq<Input>, i: int) -> bool {
    ||| inputs[i] matches Input::Message { msg, .. } && msg == (Msg::Estop { assert: true })
    ||| comes_late(timeout, inputs, i) && !inputs[i].is_release()
}

/// Among the first `n` inputs there was a stop, or a command that had run out,
/// and no release since.
pub open spec fn release_awaited(timeout: u64, inputs: Seq<Input>, n: int) -> bool {
    exists|i: int|
        0 <= i < n && #[trigger] stops(timeout, inputs, i) && forall|j: int|
            i < j < n ==> !(#[trigger] inputs[j]).is_release()
}

/// Setpoint `k` is the last accepted one of the first `n` inputs. It was taken
/// with the line low and no release awaited. Since then no stop message came,
/// neither of a stop nor of a release, and the line was not high.
pub open spec fn stands(timeout: u64, inputs: Seq<Input>, k: int, n: int) -> bool {
    &&& 0 <= k < n
    &&& sets(timeout, inputs, k)
    &&& !line_high(inputs, k)
    &&& !release_awaited(timeout, inputs, k + 1)
    &&& forall|j: int|
        k < j < n ==> !sets(timeout, inputs, j) && !(#[trigger] inputs[j]).is_estop()
            && !inputs[j].raises_line()
}

/// Input `k` is a setpoint for `left` and `right`.
pub open spec fn asks_for(inputs: Seq<Input>, k: int, left: i16, right: i16) -> bool {
    inputs[k] matches Input::Message { msg, .. } && msg matches Msg::MotorSetpoint {
        left: l,
        right: r,
        ..
    } && l == left && r == right
}

/// The latch is set exactly while a release is awaited, the line is as sampled,
/// and the command deadline is that of the setpoint in force.
spec fn deadline_follows(timeout: u64, inputs: Seq<Input>, n: int) -> bool {
    let w = watched(timeout, inputs, n);
    &&& w.timeout == timeout
    &&& w.hardware_estop == line_high(inputs, n)
    &&& w.estop_latched == release_awaited(timeout, inputs, n)
    &&& w.command_deadline_active ==> exists|k: int| #[trigger]
        in_force(timeout, inputs, k, n) && w.deadline == runs_out(timeout, inputs, k)
    &&& forall|k: int| #[trigger]
        in_force(timeout, inputs, k, n) ==> w.deadline == runs_out(timeout, inputs, k) && (
        w.command_deadline_active || w.estop_latched)
}

/// What is armed is the setpoint that stands.
spec fn setpoint_follows(timeout: u64, inputs: Seq<Input>, n: int) -> bool {
    let w = watched(timeout, inputs, n);
    &&& w.setpoint_armed ==> exists|k: int| #[trigger]
        stands(timeout, inputs, k, n) && asks_for(inputs, k, w.left, w.right)
    &&& forall|k: int| #[trigger]
        stands(timeout, inputs, k, n) ==> {
            &&& w.setpoint_armed || w.estop_latched
            &&& !line_high(inputs, n)
            &&& asks_for(inputs, k, w.left, w.right)
        }
}

proof fn lemma_deadline_follows(timeout: u64, inputs: Seq<Input>, n: int)
    requires
        0 <= n <= inputs.len(),
    ensures
        deadline_follows(timeout, inputs, n),
    decreases n,
{
    if n > 0 {
        let m = n - 1;
        lemma_deadline_follows(timeout, inputs, m);
        let before = watched(timeout, inputs, m);
        let after = watched(timeout, inputs, n);
        let latched = before.estop_latched;
        // The latch.
        if latched {
            let i = choose|i: int|
                0 <= i < m && #[trigger] stops(timeout, inputs, i) && forall|j: int|
                    i < j < m ==> !(#[trigger] inputs[j]).is_release();
            if !inputs[m].is_release() {
                assert(stops(timeout, inputs, i));
                assert(release_awaited(timeout, inputs, n));
            }
        }
        if release_awaited(timeout, inputs, n) {
            let i = choose|i: int|
                0 <= i < n && #[trigger] stops(timeout, inputs, i) && forall|j: int|
                    i < j < n ==> !(#[trigger] inputs[j]).is_release();
            if i < m {
                assert(!inputs[m].is_release());
                assert(stops(timeout, inputs, i));
                assert(release_awaited(timeout, inputs, m));
                assert(after.estop_latched);
            } else if comes_late(timeout, inputs, m) {
                let k = choose|k: int| #[trigger]
                    in_force(timeout, inputs, k, m) && inputs[m]->at >= runs_out(
                        timeout,
                        inputs,
                        k,
                    );
                assert(in_force(timeout, inputs, k, m));
            }
        }
        if before.command_deadline_active {
            let k = choose|k: int| #[trigger]
                in_force(timeout, inputs, k, m) && before.deadline == runs_out(timeout, inputs, k);
            if inputs[m] is Message && before.spec_expired(inputs[m]->at) {
                assert(comes_late(timeout, inputs, m));
                assert(inputs[m].is_release() || stops(timeout, inputs, m));
            }
            if !arms(timeout, inputs, m) && !inputs[m].is_estop() {
                assert(in_force(timeout, inputs, k, n));
            }
        }
        if inputs[m].is_estop() && !inputs[m].is_release() {
            assert(stops(timeout, inputs, m));
        }
        assert(after.estop_latched == release_awaited(timeout, inputs, n));
        // The deadline.
        if arms(timeout, inputs, m) {
            assert(in_force(timeout, inputs, m, n));
        }
        assert forall|k: int| #[trigger] in_force(timeout, inputs, k, n) implies after.deadline
            == runs_out(timeout, inputs, k) && (after.command_deadline_active
            || after.estop_latched) by {
            if k < m {
                assert(!arms(timeout, inputs, m) && !inputs[m].is_estop());
                assert(in_force(timeout, inputs, k, m));
            }
        }
    }
}

/// A setpoint could be driven exactly if it was taken with the line low and no
/// release awaited.
proof fn lemma_arms(timeout: u64, inputs: Seq<Input>, k: int)
    requires
        0 <= k < inputs.len(),
        sets(timeout, inputs, k),
    ensures
        arms(timeout, inputs, k) == (!line_high(inputs, k) && !release_awaited(
            timeout,
            inputs,
            k + 1,
        )),
{
    lemma_deadline_follows(timeout, inputs, k);
    lemma_deadline_follows(timeout, inputs, k + 1);
}

proof fn lemma_setpoint_follows(timeout: u64, inputs: Seq<Input>, n: int)
    requires
        0 <= n <= inputs.len(),
    ensures
        setpoint_follows(timeout, inputs, n),
    decreases n,
{
    if n > 0 {
        let m = n - 1;
        lemma_setpoint_follows(timeout, inputs, m);
        lemma_deadline_follows(timeout, inputs, m);
        lemma_deadline_follows(timeout, inputs, n);
        let before = watched(timeout, inputs, m);
        let after = watched(timeout, inputs, n);
        if sets(timeout, inputs, m) {
            lemma_arms(timeout, inputs, m);
            if after.setpoint_armed {
                assert(stands(timeout, inputs, m, n));
            }
        } else if after.setpoint_armed {
            let k = choose|k: int| #[trigger]
                stands(timeout, inputs, k, m) && asks_for(inputs, k, before.left, before.right);
            assert(stands(timeout, inputs, k, n));
        }
        assert forall|k: int| #[trigger] stands(timeout, inputs, k, n) implies {
            &&& after.setpoint_armed || after.estop_latched
            &&& !line_high(inputs, n)
            &&& asks_for(inputs, k, after.left, after.right)
        } by {
            if k < m {
                assert(!sets(timeout, inputs, m) && !inputs[m].is_estop()
                    && !inputs[m].raises_line());
                assert(stands(timeout, inputs, k, m));
            }
        }
    }
}

/// Law: whatever a watchdog was told since it was made, it drives exactly if the
/// last accepted setpoint has not run out, was taken with the stop line low and
/// no release awaited, and was followed by no stop message of either kind and
/// by no high sample of the line; it then drives what that setpoint asks for.
/// In every other case it stops.
pub proof fn law_drives_only_a_standing_setpoint(
    timeout: u64,
    inputs: Seq<Input>,
    now: u64,
    left: i16,
    right: i16,
)
    requires
        forall|i: int| 0 <= i < inputs.len() ==> (#[trigger] inputs[i]).seen_by(now),
    ensures
        ({
            let output = watched(timeout, inputs, inputs.len() as int).spec_output(now);
            &&& output == (Output::Drive { left, right }) <==> exists|k: int| #[trigger]
                stands(timeout, inputs, k, inputs.len() as int) && asks_for(inputs, k, left, right)
                    && now < runs_out(timeout, inputs, k)
            &&& output is Drive || output == Output::SafeStop
        }),
{
    let n = inputs.len() as int;
    let w = watched(timeout, inputs, n);
    lemma_deadline_follows(timeout, inputs, n);
    lemma_setpoint_follows(timeout, inputs, n);
    assert forall|k: int| #[trigger] stands(timeout, inputs, k, n) implies in_force(
        timeout,
        inputs,
        k,
        n,
    ) by {
        lemma_arms(timeout, inputs, k);
    }
    if w.spec_output(now) == (Output::Drive { left, right }) {
        let k = choose|k: int| #[trigger]
            stands(timeout, inputs, k, n) && asks_for(inputs, k, w.left, w.right);
        assert(in_force(timeout, inputs, k, n));
        assert(now < runs_out(timeout, inputs, k));
    }
    if exists|k: int| #[trigger]
        stands(timeout, inputs, k, n) && asks_for(inputs, k, left, right) && now < runs_out(
            timeout,
            inputs,
            k,
        ) {
        let k = choose|k: int| #[trigger]
            stands(timeout, inputs, k, n) && asks_for(inputs, k, left, right) && now < runs_out(
                timeout,
                inputs,
                k,
            );
        assert(in_force(timeout, inputs, k, n));
        if release_awaited(timeout, inputs, n) {
            let i = choose|i: int|
                0 <= i < n && #[trigger] stops(timeout, inputs, i) && forall|j: int|
                    i < j < n ==> !(#[trigger] inputs[j]).is_release();
            if i <= k {
                assert(release_awaited(timeout, inputs, k + 1));
            } else {
                assert(!inputs[i].is_estop());
                let m = choose|m: int| #[trigger]
                    in_force(timeout, inputs, m, i) && inputs[i]->at >= runs_out(
                        timeout,
                        inputs,
                        m,
                    );
                assert(inputs[i].seen_by(now));
                if m > k {
                    assert(!inputs[m].is_estop());
                    assert(!sets(timeout, inputs, m));
                } else if m < k {
                    assert(!inputs[k].is_estop());
                    assert(!arms(timeout, inputs, k));
                }
            }
            assert(false);
        }
    }
}

/// Is the peer still talking? Refreshed by any inbound frame. Its view is a
/// [`LivenessModel`].
#[derive(Debug, Clone, Copy)]
pub struct LinkLiveness {
    timeout: u64,
    deadline: u64,
    seen: bool,
}

/// Liveness as a value.
pub struct LivenessModel {
    pub timeout: u64,
    pub deadline: u64,
    pub seen: bool,
}

impl LivenessModel {
    pub open spec fn spec_alive(self, now: u64) -> bool {
        self.seen && now < self.deadline
    }

    /// Liveness before any frame.
    pub open spec fn cold(timeout: u64) -> LivenessModel {
        LivenessModel { timeout, deadline: 0, seen: false }
    }

    /// Liveness after an inbound frame.
    pub open spec fn refreshed(self, now: u64) -> LivenessModel {
        LivenessModel {
            timeout: self.timeout,
            deadline: tick_deadline(now, self.timeout),
            seen: true,
        }
    }
}

impl View for LinkLiveness {
    type V = LivenessModel;

    closed spec fn view(&self) -> LivenessModel {
        LivenessModel { timeout: self.timeout, deadline: self.deadline, seen: self.seen }
    }
}

impl LinkLiveness {
    #[must_use]
    pub fn new(timeout: u64) -> (live: Self)
        ensures
            live@ == LivenessModel::cold(timeout),
    {
        LinkLiveness { timeout, deadline: 0, seen: false }
    }

    /// Record an inbound frame.
    pub fn on_inbound(&mut self, now: u64)
        ensures
            final(self)@ == old(self)@.refreshed(now),
    {
        self.seen = true;
        self.deadline = now.saturating_add(self.timeout);
    }

    /// A frame has arrived, and the last one less than `timeout` ago.
    #[must_use]
    pub fn alive(&self, now: u64) -> (alive: bool)
        ensures
            alive == self@.spec_alive(now),
    {
        self.seen && now < self.deadline
    }
}

/// Is `new` strictly newer than `last`, with wraparound?
pub fn seq_newer(new: u8, last: u8) -> (newer: bool)
    ensures
        newer == is_newer(new, last),
{
    let d: u8 = new.wrapping_sub(last);
    d != 0 && d < 128
}

/// Law: of two numbers the newer one is 1 to 127 steps ahead, with wraparound; never
/// are both newer than the other, and a repeated number is not newer.
pub proof fn law_newer_numbers(last: u8, steps: int)
    requires
        0 <= steps < 256,
    ensures
        is_newer(((last + steps) % 256) as u8, last) <==> 1 <= steps <= 127,
        !is_newer(last, last),
        is_newer(((last + steps) % 256) as u8, last) ==> !is_newer(
            last,
            ((last + steps) % 256) as u8,
        ),
{
}

/// Law: a setpoint is accepted if none was before, or if it is newer than the last
/// accepted one. Stops and heartbeats are always accepted, messages for the kernel
/// and of the handoff never. What was accepted last is remembered.
pub proof fn law_what_is_accepted(w: WatchdogModel, msg: Msg, now: u64)
    ensures
        match msg {
            Msg::MotorSetpoint { seq, left, right } => {
                let ahead = (seq - w.last_seq) % 256;
                &&& w.accepts(msg) <==> !w.seq_valid || 1 <= ahead <= 127
                &&& w.accepts(msg) ==> {
                    let after = w.after(msg, now);
                    &&& after.seq_valid
                    &&& after.last_seq == seq
                    &&& after.left == left && after.right == right
                }
            },
            Msg::Estop { .. } => w.accepts(msg) && w.after(msg, now).seq_valid == w.seq_valid
                && w.after(msg, now).last_seq == w.last_seq,
            Msg::HeartbeatToShrike { .. } => w.accepts(msg),
            _ => !w.accepts(msg),
        },
        w.after(msg, now).timeout == w.timeout,
        w.after(msg, now).hardware_estop == w.hardware_estop,
{
}

/// Law: the time limit runs from the command: a command taken at `at` is driven up to
/// and not at `at + timeout`, or the end of time.
pub proof fn law_deadline_is_a_timeout_away(at: u64, timeout: u64)
    ensures
        tick_deadline(at, timeout) == at + timeout || (at + timeout > 0xFFFF_FFFF_FFFF_FFFF
            && tick_deadline(at, timeout) == 0xFFFF_FFFF_FFFF_FFFF),
{
}

/// Law: a message that asserts a stop, and a high stop line, stop at once and at any
/// time; a fresh setpoint that stands is driven with its own duties.
pub proof fn law_stop_is_immediate(w: WatchdogModel, at: u64, now: u64)
    ensures
        w.after(Msg::Estop { assert: true }, at).spec_output(now) == Output::SafeStop,
        w.after(Msg::Estop { assert: true }, at).estop_latched,
        !w.after(Msg::Estop { assert: false }, at).estop_latched,
        w.after_hardware(true).spec_output(now) == Output::SafeStop,
        w.hardware_estop ==> w.after_hardware(false).spec_output(now) == Output::SafeStop,
        w.after_hardware(false).estop_latched == w.estop_latched,
        w.after_hardware(true).estop_latched == w.estop_latched,
        w.after_hardware(true).hardware_estop && !w.after_hardware(false).hardware_estop,
        !w.hardware_estop ==> w.after_hardware(false) == w,
{
}

/// Law: the peer is alive from a frame until less than the timeout later, and dead
/// before any frame.
pub proof fn law_alive_after_a_frame(live: LivenessModel, at: u64, now: u64)
    requires
        at + live.timeout <= 0xFFFF_FFFF_FFFF_FFFF,
    ensures
        live.refreshed(at).spec_alive(now) <==> now < at + live.timeout,
        !LivenessModel::cold(live.timeout).spec_alive(now),
        live.refreshed(at).timeout == live.timeout,
        LivenessModel::cold(live.timeout).timeout == live.timeout,
{
}

} // verus!
