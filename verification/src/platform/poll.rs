//! One pass over the control link, step by step.
//!
//! [`PollRun`] says what I/O comes next and is told what came of it: bytes are
//! taken, then decoded; the decisions follow; then bytes are sent. All of it is
//! bounded.

use vstd::prelude::*;

use crate::platform::control_link::{
    ControlLink, PollPass, RxRead, Step, RING_BYTES, RX_PER_POLL, TX_PER_POLL,
};

verus! {

/// What has to be done next.
#[derive(Debug, Clone, Copy, PartialEq, Eq, Structural)]
pub enum PollAction {
    /// Look at the UART once.
    ReadUart,
    /// Read the physical counter twice.
    SampleCounter,
    /// Read the physical counter.
    CheckTime,
    /// Offer a byte to the UART and, if it took it, read the physical counter.
    Write(u8),
    Done,
}

/// What was done.
#[derive(Debug, Clone, Copy, PartialEq, Eq, Structural)]
pub enum PollEvent {
    Rx(RxRead),
    Sampled { observed: u64, sampled: u64 },
    Checked { at: u64 },
    /// The UART took the byte.
    Wrote { observed: u64 },
    /// The UART had no room.
    Full,
}

/// Where the pass stands.
#[derive(Debug, Clone, Copy, PartialEq, Eq, Structural)]
pub enum PollPhase {
    Receive,
    Decode,
    Decide,
    Transmit,
    Done,
}

/// Bytes are taken as long as the pass allows, then decoded if there are any.
pub open spec fn receiving(step: Step) -> PollPhase {
    if step.pass.got < RX_PER_POLL && !step.pass.rx_done {
        PollPhase::Receive
    } else {
        decoding(step)
    }
}

/// Bytes are decoded as long as there are any, then the decisions come.
pub open spec fn decoding(step: Step) -> PollPhase {
    if step.link.rx.len() > 0 {
        PollPhase::Decode
    } else {
        PollPhase::Decide
    }
}

/// Bytes are sent as long as there are any and the pass allows.
pub open spec fn sending(step: Step) -> PollPhase {
    if step.pass.sent < TX_PER_POLL && step.link.tx.next() is Some {
        PollPhase::Transmit
    } else {
        PollPhase::Done
    }
}

/// Phase and state after an event. An event that was not asked for changes
/// nothing.
pub open spec fn polled(phase: PollPhase, step: Step, event: PollEvent) -> (PollPhase, Step) {
    match (phase, event) {
        (PollPhase::Receive, PollEvent::Rx(read)) => {
            let after = step.received(read);
            (receiving(after), after)
        },
        (PollPhase::Decode, PollEvent::Sampled { observed, sampled }) => {
            let after = step.decoded(observed, sampled);
            (decoding(after), after)
        },
        (PollPhase::Decide, PollEvent::Checked { at }) => {
            let after = step.decided(at);
            (sending(after), after)
        },
        (PollPhase::Transmit, PollEvent::Wrote { observed }) => {
            let after = step.sent(observed);
            (sending(after), after)
        },
        (PollPhase::Transmit, PollEvent::Full) => (PollPhase::Done, step),
        _ => (phase, step),
    }
}

/// One pass over the link.
#[derive(Debug)]
pub struct PollRun {
    pub phase: PollPhase,
    pub pass: PollPass,
}

impl PollRun {
    /// What the phase promises, and how many losses there can be.
    pub open spec fn wf(self, link: ControlLink) -> bool {
        let step = link.step(&self.pass);
        match self.phase {
            PollPhase::Receive => {
                &&& step.pass.got < RX_PER_POLL
                &&& !step.pass.rx_done
                &&& step.pass.overflow_count <= step.pass.got
            },
            PollPhase::Decode => {
                &&& step.link.rx.len() > 0
                &&& step.pass.overflow_count + step.link.rx.len() <= RX_PER_POLL + RING_BYTES
            },
            PollPhase::Decide => true,
            PollPhase::Transmit => {
                &&& step.pass.sent < TX_PER_POLL
                &&& step.link.tx.next() is Some
            },
            PollPhase::Done => true,
        }
    }

    /// Begin a pass at transport time `now`.
    pub fn begin(link: &ControlLink, now: u64) -> (run: Self)
        requires
            link.wf(),
        ensures
            run.wf(*link),
            run.phase == PollPhase::Receive,
            run.pass@ == crate::platform::control_link::PassModel::fresh(now),
    {
        PollRun { phase: PollPhase::Receive, pass: ControlLink::begin_poll(now) }
    }

    /// What has to be done next.
    pub fn action(&self, link: &ControlLink) -> (action: PollAction)
        requires
            link.wf(),
            self.wf(*link),
        ensures
            action == match self.phase {
                PollPhase::Receive => PollAction::ReadUart,
                PollPhase::Decode => PollAction::SampleCounter,
                PollPhase::Decide => PollAction::CheckTime,
                PollPhase::Transmit => PollAction::Write(link@.tx.next()->0),
                PollPhase::Done => PollAction::Done,
            },
    {
        match self.phase {
            PollPhase::Receive => PollAction::ReadUart,
            PollPhase::Decode => PollAction::SampleCounter,
            PollPhase::Decide => PollAction::CheckTime,
            PollPhase::Transmit => match link.next_tx(&self.pass) {
                Some(byte) => PollAction::Write(byte),
                None => PollAction::Done,
            },
            PollPhase::Done => PollAction::Done,
        }
    }

    /// Report what was done.
    pub fn on(&mut self, link: &mut ControlLink, event: PollEvent)
        requires
            old(link).wf(),
            old(self).wf(*old(link)),
        ensures
            final(link).wf(),
            final(self).wf(*final(link)),
            (final(self).phase, final(link).step(&final(self).pass)) == polled(
                old(self).phase,
                old(link).step(&old(self).pass),
                event,
            ),
    {
        match (self.phase, event) {
            (PollPhase::Receive, PollEvent::Rx(read)) => {
                link.on_rx(&mut self.pass, read);
                self.phase = if ControlLink::wants_rx(&self.pass) {
                    PollPhase::Receive
                } else if link.has_input() {
                    PollPhase::Decode
                } else {
                    PollPhase::Decide
                };
                proof {
                    link.lemma_rx_bound();
                }
            },
            (PollPhase::Decode, PollEvent::Sampled { observed, sampled }) => {
                let ghost before = link.step(&self.pass);
                link.decode_next(&mut self.pass, observed, sampled);
                self.phase = if link.has_input() {
                    PollPhase::Decode
                } else {
                    PollPhase::Decide
                };
                proof {
                    lemma_decoding_counts(before, observed, sampled);
                }
            },
            (PollPhase::Decide, PollEvent::Checked { at }) => {
                link.decide(&mut self.pass, at);
                self.phase = if link.next_tx(&self.pass).is_some() {
                    PollPhase::Transmit
                } else {
                    PollPhase::Done
                };
            },
            (PollPhase::Transmit, PollEvent::Wrote { observed }) => {
                link.tx_accepted(&mut self.pass, observed);
                self.phase = if link.next_tx(&self.pass).is_some() {
                    PollPhase::Transmit
                } else {
                    PollPhase::Done
                };
            },
            (PollPhase::Transmit, PollEvent::Full) => {
                self.phase = PollPhase::Done;
            },
            _ => {},
        }
    }
}

/// Decoding a byte takes it away and loses at most one reading or heartbeat.
proof fn lemma_decoding_counts(step: Step, observed: u64, sampled: u64)
    requires
        step.link.rx.len() > 0,
    ensures
        step.decoded(observed, sampled).link.rx.len() == step.link.rx.len() - 1,
        step.decoded(observed, sampled).pass.overflow_count <= step.pass.overflow_count + 1,
{
}

/// The event answers what the phase asks for.
pub open spec fn answers(phase: PollPhase, event: PollEvent) -> bool {
    match phase {
        PollPhase::Receive => event is Rx,
        PollPhase::Decode => event is Sampled,
        PollPhase::Decide => event is Checked,
        PollPhase::Transmit => event is Wrote || event is Full,
        PollPhase::Done => false,
    }
}

/// Steps that a pass can still take.
pub open spec fn steps_left(phase: PollPhase, step: Step) -> int {
    match phase {
        PollPhase::Receive => 1000 - step.pass.got,
        PollPhase::Decode => 200 + step.link.rx.len() as int,
        PollPhase::Decide => 100,
        PollPhase::Transmit => TX_PER_POLL - step.pass.sent,
        PollPhase::Done => 0,
    }
}

/// Law: every answer brings a pass nearer to its end, so that a pass takes a
/// bounded number of steps.
pub proof fn law_poll_is_bounded(run: PollRun, link: ControlLink, event: PollEvent)
    requires
        link.wf(),
        run.wf(link),
        answers(run.phase, event),
    ensures
        ({
            let step = link.step(&run.pass);
            let (phase, after) = polled(run.phase, step, event);
            0 <= steps_left(phase, after) < steps_left(run.phase, step) <= 1000
        }),
{
    let step = link.step(&run.pass);
    link.lemma_rx_bound();
    match (run.phase, event) {
        (PollPhase::Receive, PollEvent::Rx(read)) => {
            assert(step.received(read).link.rx.len() <= RING_BYTES);
        },
        (PollPhase::Decode, PollEvent::Sampled { observed, sampled }) => {
            lemma_decoding_counts(step, observed, sampled);
        },
        (PollPhase::Transmit, PollEvent::Wrote { observed }) => {
            lemma_sending_counts(step, observed);
        },
        _ => {},
    }
}

/// Sending a byte is counted.
proof fn lemma_sending_counts(step: Step, observed: u64)
    requires
        step.link.tx.next() is Some,
    ensures
        step.sent(observed).pass.sent == step.pass.sent + 1,
{
}

/// Law: a pass takes bytes until the UART is empty or it has 64, then decodes all of them,
/// then decides once, and then sends until the line is idle, the UART is full or it has
/// sent 64. It never goes back.
pub proof fn law_phases_of_a_pass(step: Step, event: PollEvent)
    ensures
        event is Rx ==> ({
            let (phase, after) = polled(PollPhase::Receive, step, event);
            &&& after == step.received(event->Rx_0)
            &&& phase is Receive <==> after.pass.got < 64 && !after.pass.rx_done
            &&& phase is Decode <==> !(phase is Receive) && after.link.rx.len() > 0
            &&& phase is Decide <==> !(phase is Receive) && after.link.rx.len() == 0
        }),
        event is Sampled ==> ({
            let (phase, after) = polled(PollPhase::Decode, step, event);
            &&& after == step.decoded(event->Sampled_observed, event->sampled)
            &&& phase is Decode <==> after.link.rx.len() > 0
            &&& phase is Decide <==> after.link.rx.len() == 0
        }),
        event is Checked ==> ({
            let (phase, after) = polled(PollPhase::Decide, step, event);
            &&& after == step.decided(event->at)
            &&& phase is Transmit <==> after.pass.sent < 64 && after.link.tx.active is Some
            &&& phase is Transmit || phase is Done
        }),
        event is Wrote ==> ({
            let (phase, after) = polled(PollPhase::Transmit, step, event);
            &&& after == step.sent(event->Wrote_observed)
            &&& phase is Transmit <==> after.pass.sent < 64 && after.link.tx.active is Some
            &&& phase is Transmit || phase is Done
        }),
        polled(PollPhase::Transmit, step, PollEvent::Full) == (PollPhase::Done, step),
        polled(PollPhase::Done, step, event) == (PollPhase::Done, step),
{
}

} // verus!
