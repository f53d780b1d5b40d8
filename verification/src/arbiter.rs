use vstd::prelude::*;

use crate::error::RadioError;
use crate::limiter::LeakyBucket;
use crate::protocol;

verus! {

/// Which side of the half-duplex radio is active.  The physical radio's mode
/// matches this value at all times except during the command round-trip that
/// changes it.
#[derive(Clone, Copy, PartialEq, Eq, Structural, Debug)]
pub enum RadioMode {
    Receiving,
    Transmitting,
}

/// One hardware command the arbitration step asks its driver to issue, in
/// order: re-arm the receiver, stop the receiver, or transmit a frame's
/// bytes.
pub enum RadioCommand {
    StartReceive,
    StopReceive,
    Transmit(Vec<u8>),
}

/// The radio mode after one command has been carried out.
pub open spec fn step_mode(mode: RadioMode, cmd: RadioCommand) -> RadioMode {
    match cmd {
        RadioCommand::StartReceive => RadioMode::Receiving,
        RadioCommand::StopReceive => RadioMode::Transmitting,
        RadioCommand::Transmit(_) => mode,
    }
}

/// The radio mode after a command sequence has been carried out from `mode`.
pub open spec fn mode_after(mode: RadioMode, cmds: Seq<RadioCommand>) -> RadioMode
    decreases cmds.len(),
{
    if cmds.len() == 0 {
        mode
    } else {
        mode_after(step_mode(mode, cmds[0]), cmds.skip(1))
    }
}

/// A command sequence is safe from `mode` when every transmit in it is
/// issued while the radio is out of receive mode.
pub open spec fn cmds_safe(mode: RadioMode, cmds: Seq<RadioCommand>) -> bool
    decreases cmds.len(),
{
    if cmds.len() == 0 {
        true
    } else {
        &&& (cmds[0] matches RadioCommand::Transmit(_) ==> mode is Transmitting)
        &&& cmds_safe(step_mode(mode, cmds[0]), cmds.skip(1))
    }
}

/// The frame bytes one command puts on the air, if any.
pub open spec fn transmitted_one(cmd: RadioCommand) -> Seq<Seq<u8>> {
    match cmd {
        RadioCommand::Transmit(f) => seq![f@],
        _ => Seq::empty(),
    }
}

/// The frames a command sequence puts on the air, in order.
pub open spec fn transmitted_of(cmds: Seq<RadioCommand>) -> Seq<Seq<u8>>
    decreases cmds.len(),
{
    if cmds.len() == 0 {
        Seq::empty()
    } else {
        transmitted_one(cmds[0]) + transmitted_of(cmds.skip(1))
    }
}

/// Appending one command to a sequence extends its transmissions, threads its
/// mode, and stays safe exactly when a transmit lands in transmit mode.
proof fn lemma_cmds_push(mode: RadioMode, cmds: Seq<RadioCommand>, cmd: RadioCommand)
    ensures
        transmitted_of(cmds.push(cmd)) == transmitted_of(cmds) + transmitted_one(cmd),
        mode_after(mode, cmds.push(cmd)) == step_mode(mode_after(mode, cmds), cmd),
        cmds_safe(mode, cmds.push(cmd)) == (cmds_safe(mode, cmds) && (cmd
            matches RadioCommand::Transmit(_) ==> mode_after(mode, cmds) is Transmitting)),
    decreases cmds.len(),
{
    if cmds.len() == 0 {
        assert(cmds.push(cmd)[0] == cmd);
        assert(cmds.push(cmd).skip(1) =~= Seq::<RadioCommand>::empty());
        assert(transmitted_of(cmds.push(cmd)) == transmitted_one(cmd) + transmitted_of(
            Seq::<RadioCommand>::empty(),
        ));
        assert(transmitted_of(cmds.push(cmd)) =~~= transmitted_of(cmds) + transmitted_one(cmd));
        assert(mode_after(mode, cmds) == mode);
        assert(mode_after(step_mode(mode, cmd), Seq::<RadioCommand>::empty()) == step_mode(
            mode,
            cmd,
        ));
        assert(mode_after(mode, cmds.push(cmd)) == step_mode(mode, cmd));
        assert(cmds_safe(mode, cmds));
        assert(cmds_safe(step_mode(mode, cmd), Seq::<RadioCommand>::empty()));
        assert(cmds_safe(mode, cmds.push(cmd)) == (cmd matches RadioCommand::Transmit(_)
            ==> mode is Transmitting));
    } else {
        assert(cmds.push(cmd).skip(1) =~= cmds.skip(1).push(cmd));
        lemma_cmds_push(step_mode(mode, cmds[0]), cmds.skip(1), cmd);
        assert(transmitted_of(cmds.push(cmd)) =~~= transmitted_of(cmds) + transmitted_one(cmd));
    }
}

/// The arbitration state machine that shares the single half-duplex radio
/// between transmit and receive.  It owns the current mode, the outbound
/// queue snapshot (oldest frame first), the frame deferred by a failed rate
/// check, and the rate limiter.  The driver around it performs the returned
/// commands on the hardware, in order, and owns the only thread that does so.
pub struct Arbiter {
    pub mode: RadioMode,
    pub deferred: Option<Vec<u8>>,
    pub queue: Vec<Vec<u8>>,
    pub limiter: LeakyBucket,
}

impl Arbiter {
    /// The limiter's own invariant is all the arbiter needs.
    pub open spec fn wf(self) -> bool {
        self.limiter.wf()
    }

    /// The frames still owed to the air, in the order they must leave: the
    /// deferred frame, if any, strictly before everything still queued.
    pub open spec fn pending(self) -> Seq<Seq<u8>> {
        match self.deferred {
            Some(f) => seq![f@] + self.queue.deep_view(),
            None => self.queue.deep_view(),
        }
    }

    /// A fresh arbiter in receive mode with an empty queue and a transmit
    /// budget of `capacity` slots per window of `window_ms` milliseconds.
    pub fn new(capacity: usize, window_ms: u64) -> (a: Arbiter)
        requires
            capacity >= 1,
        ensures
            a.wf(),
            a.mode is Receiving,
            a.deferred is None,
            a.pending() == Seq::<Seq<u8>>::empty(),
            a.limiter.capacity == capacity,
            a.limiter.window_ms == window_ms,
            a.limiter.last_now == 0,
            a.limiter.hist@ == Seq::<u64>::empty(),
    {
        let a = Arbiter {
            mode: RadioMode::Receiving,
            deferred: None,
            queue: Vec::new(),
            limiter: LeakyBucket::new(capacity, window_ms),
        };
        proof {
            assert(a.pending() =~~= Seq::<Seq<u8>>::empty());
        }
        a
    }

    /// Hand the arbiter one more frame for the air.  It joins the end of the
    /// pending order; nothing else changes.
    pub fn enqueue(&mut self, frame: Vec<u8>)
        ensures
            final(self).pending() == old(self).pending().push(frame@),
            final(self).mode == old(self).mode,
            final(self).deferred == old(self).deferred,
            final(self).limiter == old(self).limiter,
    {
        self.queue.push(frame);
        proof {
            assert(final(self).pending() =~~= old(self).pending().push(frame@));
        }
    }

    /// Does the arbiter want the driver to poll the inbound line channel?
    /// Only while receiving; never in transmit mode.
    pub fn wants_line(&self) -> (r: bool)
        ensures
            r == (self.mode is Receiving),
    {
        self.mode == RadioMode::Receiving
    }

    /// One pass of the transmit side of the arbitration loop at time `now`
    /// (the caller's clock must be monotone).
    ///
    /// A deferred frame is retried first: within budget it is transmitted
    /// exactly once and cleared, and the queue is never touched past it;
    /// out of budget nothing at all happens.  Otherwise the head of the
    /// queue, if any, is transmitted within budget — followed greedily by
    /// further queued frames while the budget lasts, after which the radio
    /// returns to receive — or deferred when the rate check fails.  An
    /// empty queue just puts the radio back to receiving.
    ///
    /// The command sequence never transmits while the radio is in receive
    /// mode, and the frames owed to the air are conserved: what the step
    /// transmits is exactly what it removes from the front of the pending
    /// order.
    pub fn step_transmit(&mut self, now: u64) -> (cmds: Vec<RadioCommand>)
        requires
            old(self).wf(),
            now >= old(self).limiter.last_now,
        ensures
            final(self).wf(),
            final(self).limiter.capacity == old(self).limiter.capacity,
            final(self).limiter.window_ms == old(self).limiter.window_ms,
            final(self).limiter.last_now <= now,
            final(self).limiter.last_now >= old(self).limiter.last_now,
            cmds_safe(old(self).mode, cmds@),
            final(self).mode == mode_after(old(self).mode, cmds@),
            old(self).pending() == transmitted_of(cmds@) + final(self).pending(),
            final(self).limiter.hist@.len() == old(self).limiter.hist@.len() + transmitted_of(
                cmds@,
            ).len(),
            forall|k: int|
                0 <= k < old(self).limiter.hist@.len() ==> final(self).limiter.hist@[k] == old(
                    self,
                ).limiter.hist@[k],
            forall|k: int|
                old(self).limiter.hist@.len() <= k < final(self).limiter.hist@.len()
                    ==> final(self).limiter.hist@[k] == now,
            old(self).deferred is Some ==> ({
                &&& final(self).queue == old(self).queue
                &&& old(self).limiter.would_pass(now) ==> transmitted_of(cmds@) == seq![
                    old(self).deferred->Some_0@,
                ] && final(self).deferred is None && final(self).mode is Transmitting
                &&& !old(self).limiter.would_pass(now) ==> cmds@.len() == 0 && final(self).deferred == old(self).deferred && final(self).mode == old(self).mode
            }),
            old(self).deferred is None && old(self).queue@.len() == 0 ==> ({
                &&& cmds@.len() <= 1
                &&& transmitted_of(cmds@).len() == 0
                &&& final(self).mode is Receiving
                &&& final(self).deferred is None
                &&& final(self).queue == old(self).queue
            }),
            old(self).deferred is None && old(self).queue@.len() > 0 && old(self).limiter.would_pass(now) ==> ({
                &&& transmitted_of(cmds@).len() >= 1
                &&& final(self).mode is Receiving
                &&& final(self).deferred is None
            }),
            old(self).deferred is None && old(self).queue@.len() > 0 && !old(self).limiter.would_pass(now) ==> ({
                &&& transmitted_of(cmds@).len() == 0
                &&& final(self).mode is Receiving
                &&& final(self).deferred matches Some(g) && g@ == old(self).queue.deep_view()[0]
                &&& final(self).queue.deep_view() == old(self).queue.deep_view().skip(1)
            }),
    {
        let ghost m0 = self.mode;
        let ghost pending0 = self.pending();
        let mut cmds: Vec<RadioCommand> = Vec::new();
        if self.deferred.is_some() {
            let ok = self.limiter.check(now);
            if ok {
                if self.mode == RadioMode::Receiving {
                    cmds.push(RadioCommand::StopReceive);
                    self.mode = RadioMode::Transmitting;
                    proof {
                        lemma_cmds_push(m0, Seq::empty(), RadioCommand::StopReceive);
                    }
                }
                let f = self.deferred.take().unwrap();
                proof {
                    lemma_cmds_push(m0, cmds@, RadioCommand::Transmit(f));
                }
                cmds.push(RadioCommand::Transmit(f));
                proof {
                    assert(pending0 =~~= transmitted_of(cmds@) + self.pending());
                }
            }
        } else if self.queue.len() == 0 {
            if self.mode != RadioMode::Receiving {
                cmds.push(RadioCommand::StartReceive);
                self.mode = RadioMode::Receiving;
                proof {
                    lemma_cmds_push(m0, Seq::empty(), RadioCommand::StartReceive);
                }
            }
        } else {
            let ghost cap = self.limiter.capacity;
            let ghost w = self.limiter.window_ms;
            let ok = self.limiter.check(now);
            let f = self.queue.remove(0);
            proof {
                assert(self.queue.deep_view() =~~= old(self).queue.deep_view().skip(1));
            }
            if ok {
                if self.mode == RadioMode::Receiving {
                    cmds.push(RadioCommand::StopReceive);
                    self.mode = RadioMode::Transmitting;
                    proof {
                        lemma_cmds_push(m0, Seq::empty(), RadioCommand::StopReceive);
                    }
                }
                proof {
                    lemma_cmds_push(m0, cmds@, RadioCommand::Transmit(f));
                }
                cmds.push(RadioCommand::Transmit(f));
                proof {
                    assert(pending0 =~~= transmitted_of(cmds@) + self.pending());
                }
                let mut go: bool = true;
                while go && self.queue.len() > 0
                    invariant
                        self.limiter.wf(),
                        self.limiter.capacity == cap,
                        self.limiter.window_ms == w,
                        self.limiter.last_now <= now,
                        self.limiter.last_now >= old(self).limiter.last_now,
                        now >= self.limiter.last_now,
                        self.deferred is None,
                        self.mode is Transmitting,
                        cmds_safe(m0, cmds@),
                        mode_after(m0, cmds@) is Transmitting,
                        transmitted_of(cmds@).len() >= 1,
                        pending0 == transmitted_of(cmds@) + self.pending(),
                        !go ==> !self.limiter.would_pass(now),
                        self.limiter.hist@.len() == old(self).limiter.hist@.len()
                            + transmitted_of(cmds@).len(),
                        forall|k: int|
                            0 <= k < old(self).limiter.hist@.len() ==> self.limiter.hist@[k]
                                == old(self).limiter.hist@[k],
                        forall|k: int|
                            old(self).limiter.hist@.len() <= k < self.limiter.hist@.len()
                                ==> self.limiter.hist@[k] == now,
                    decreases self.queue@.len() + (if go {
                        1int
                    } else {
                        0int
                    }),
                {
                    let ok2 = self.limiter.check(now);
                    if ok2 {
                        let ghost qd = self.queue.deep_view();
                        let f2 = self.queue.remove(0);
                        proof {
                            assert(self.queue.deep_view() =~~= qd.skip(1));
                            lemma_cmds_push(m0, cmds@, RadioCommand::Transmit(f2));
                        }
                        cmds.push(RadioCommand::Transmit(f2));
                        proof {
                            assert(pending0 =~~= transmitted_of(cmds@) + self.pending());
                        }
                    } else {
                        go = false;
                    }
                }
                proof {
                    lemma_cmds_push(m0, cmds@, RadioCommand::StartReceive);
                }
                cmds.push(RadioCommand::StartReceive);
                self.mode = RadioMode::Receiving;
            } else {
                self.deferred = Some(f);
                proof {
                    assert(pending0 =~~= transmitted_of(cmds@) + self.pending());
                }
                if self.mode != RadioMode::Receiving {
                    proof {
                        lemma_cmds_push(m0, cmds@, RadioCommand::StartReceive);
                    }
                    cmds.push(RadioCommand::StartReceive);
                    self.mode = RadioMode::Receiving;
                }
            }
        }
        cmds
    }

    /// The duty-cycle bound on the air.  `step_transmit` grows the limiter's
    /// grant record by exactly one entry, stamped `now`, per frame it
    /// transmits; so of the transmissions recorded there, any two that both
    /// fall inside one half-open window of `window_ms` milliseconds are fewer
    /// than `capacity` apart: the radio never spends more than `capacity`
    /// transmit slots per window, and receive windows are never starved.
    pub proof fn lemma_transmit_window(self, start: u64, i: int, j: int)
        requires
            self.wf(),
            0 <= i <= j < self.limiter.hist@.len(),
            start <= self.limiter.hist@[i],
            self.limiter.hist@[j] < start + self.limiter.window_ms,
        ensures
            j - i < self.limiter.capacity,
    {
        crate::limiter::lemma_rate_window(&self.limiter, start, i, j);
    }

    /// A deferred frame stands at the very front of the pending order.  With
    /// the conservation law of [`Self::step_transmit`] — a step transmits
    /// exactly a prefix of the pending order — and with [`Self::enqueue`]
    /// appending at the back, it goes to the air before any frame enqueued
    /// after it, and leaves the pending order only by being transmitted.
    pub proof fn lemma_deferred_first(self)
        requires
            self.deferred is Some,
        ensures
            self.pending().len() >= 1,
            self.pending()[0] == self.deferred->Some_0@,
            self.pending().skip(1) == self.queue.deep_view(),
    {
        assert(self.pending().skip(1) =~~= self.queue.deep_view());
    }

    /// Handle one line polled from the radio while receiving (the mode gate
    /// is the caller's duty and is enforced here): a packet notification is
    /// decoded and handed back for delivery, any other line is ignored, and
    /// in every case the receiver is re-armed.
    pub fn step_line(&mut self, line: &Vec<u8>) -> (r: Result<
        (Vec<RadioCommand>, Option<Vec<u8>>),
        RadioError,
    >)
        requires
            old(self).wf(),
            old(self).mode is Receiving,
        ensures
            *final(self) == *old(self),
            r matches Ok(p) ==> cmds_safe(old(self).mode, p.0@),
            r matches Ok(p) ==> p.0@.len() == 1 && p.0@[0] is StartReceive && ({
                let decoded = p.1;
                &&& (!protocol::is_rx_notification(line@) ==> decoded is None)
                &&& (protocol::is_rx_notification(line@) && line@.len() >= 10
                    && protocol::is_hex_text(protocol::rx_hex_part(line@)) ==> (
                decoded matches Some(d) && d@ == protocol::hex_decoded(protocol::rx_hex_part(line@))))
            }),
            r is Err <==> protocol::is_rx_notification(line@) && !(line@.len() >= 10
                && protocol::is_hex_text(protocol::rx_hex_part(line@))),
    {
        let decoded = match protocol::onrx(line) {
            Ok(d) => d,
            Err(e) => {
                return Err(e);
            },
        };
        let mut cmds: Vec<RadioCommand> = Vec::new();
        proof {
            lemma_cmds_push(old(self).mode, Seq::empty(), RadioCommand::StartReceive);
        }
        cmds.push(RadioCommand::StartReceive);
        Ok((cmds, decoded))
    }
}

} // verus!
