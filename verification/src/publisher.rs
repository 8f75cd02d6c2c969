//! The publisher's connection state machine: exponential backoff on failed
//! handshakes, and a bounded backlog that preserves envelope order across an
//! outage.
//!
//! The machine is pure: every transition is a method from the current state
//! and one observed event to the next state.  The surrounding loop — popping
//! frames, calling the broker client, sleeping out a backoff delay — performs
//! the actions and reports their outcomes back as events.

use vstd::prelude::*;

use crate::codec;
use crate::codec::SerializationError;
use crate::frame::AudioFrame;

verus! {

/// Connection state of the publisher.
#[derive(Debug, Clone, Copy, PartialEq, Eq, Structural)]
pub enum ConnState {
    Disconnected,
    Connecting,
    Connected,
    Backoff,
}

/// The publisher's state: connection state, retry counter, and the bounded
/// FIFO backlog of envelopes that could not be published yet.
pub struct Publisher {
    pub state: ConnState,
    pub retry_count: u32,
    pub backlog: Vec<Vec<u8>>,
    pub backlog_capacity: usize,
    pub base_delay_ms: u64,
    pub max_delay_ms: u64,
    pub running: bool,
}

/// `2 ^ n`.
pub open spec fn pow2(n: nat) -> nat
    decreases n,
{
    if n == 0 {
        1
    } else {
        2 * pow2((n - 1) as nat)
    }
}

/// The backoff delay before the next connection attempt:
/// `min(base * 2 ^ retry, max)`.
pub open spec fn backoff_delay_spec(base: u64, max: u64, retry: u32) -> u64 {
    if base * pow2(retry as nat) >= max {
        max
    } else {
        (base * pow2(retry as nat)) as u64
    }
}

/// One admission into a bounded FIFO backlog: append, evicting the oldest
/// entry first when the backlog is at capacity.
pub open spec fn backlog_step(b: Seq<Seq<u8>>, cap: nat, env: Seq<u8>) -> Seq<Seq<u8>> {
    if b.len() < cap {
        b.push(env)
    } else {
        b.subrange(1, b.len() as int).push(env)
    }
}

/// The backlog after admitting `envs` in order, starting from `init`.
pub open spec fn backlog_after(init: Seq<Seq<u8>>, cap: nat, envs: Seq<Seq<u8>>) -> Seq<Seq<u8>>
    decreases envs.len(),
{
    if envs.len() == 0 {
        init
    } else {
        backlog_after(backlog_step(init, cap, envs[0]), cap, envs.drop_first())
    }
}

proof fn lemma_pow2_pos(n: nat)
    ensures
        pow2(n) >= 1,
    decreases n,
{
    if n > 0 {
        lemma_pow2_pos((n - 1) as nat);
    }
}

/// Backoff monotonicity: as long as the computed delay has not reached the
/// configured maximum, one more failed attempt strictly increases it, and it
/// never exceeds the maximum.
pub proof fn lemma_backoff_monotonic(base: u64, max: u64, retry: u32)
    requires
        1 <= base <= max,
        retry < u32::MAX,
        backoff_delay_spec(base, max, retry) < max,
    ensures
        backoff_delay_spec(base, max, (retry + 1) as u32) > backoff_delay_spec(base, max, retry),
        backoff_delay_spec(base, max, (retry + 1) as u32) <= max,
        backoff_delay_spec(base, max, retry) >= base,
{
    lemma_pow2_pos(retry as nat);
    let x = base * pow2(retry as nat);
    assert(x >= base) by (nonlinear_arith)
        requires
            base >= 1,
            pow2(retry as nat) >= 1,
            x == base * pow2(retry as nat),
    ;
    assert(x < max);
    assert(pow2((retry + 1) as nat) == 2 * pow2(retry as nat));
    assert(base * pow2((retry + 1) as nat) == 2 * x) by (nonlinear_arith)
        requires
            pow2((retry + 1) as nat) == 2 * pow2(retry as nat),
            x == base * pow2(retry as nat),
    ;
}

/// Every delay the backoff rule computes lies between the base and the
/// configured maximum.
pub proof fn lemma_backoff_bounds(base: u64, max: u64, retry: u32)
    requires
        1 <= base <= max,
    ensures
        base <= backoff_delay_spec(base, max, retry) <= max,
{
    lemma_pow2_pos(retry as nat);
    let x = base * pow2(retry as nat);
    assert(x >= base) by (nonlinear_arith)
        requires
            base >= 1,
            pow2(retry as nat) >= 1,
            x == base * pow2(retry as nat),
    ;
}

impl Publisher {
    /// The backlog as a sequence of envelope byte strings, oldest first.
    pub open spec fn backlog_model(self) -> Seq<Seq<u8>> {
        self.backlog@.map_values(|v: Vec<u8>| v@)
    }

    /// Well-formedness: the backlog never exceeds its capacity and the
    /// backoff parameters are sane.
    pub open spec fn wf(self) -> bool {
        &&& self.backlog@.len() <= self.backlog_capacity
        &&& 1 <= self.backlog_capacity
        &&& 1 <= self.base_delay_ms <= self.max_delay_ms
    }

    /// All fields except `state`, `retry_count`, `backlog` and `running`
    /// agree between two publisher values.
    pub open spec fn same_config(self, other: Publisher) -> bool {
        &&& self.backlog_capacity == other.backlog_capacity
        &&& self.base_delay_ms == other.base_delay_ms
        &&& self.max_delay_ms == other.max_delay_ms
    }

    /// A fresh publisher: Disconnected, no retries, empty backlog, stopped.
    pub fn new(backlog_capacity: usize, base_delay_ms: u64, max_delay_ms: u64) -> (p: Publisher)
        requires
            1 <= backlog_capacity,
            1 <= base_delay_ms <= max_delay_ms,
        ensures
            p.wf(),
            p.state == ConnState::Disconnected,
            p.retry_count == 0,
            p.backlog_model() == Seq::<Seq<u8>>::empty(),
            p.backlog_capacity == backlog_capacity,
            p.base_delay_ms == base_delay_ms,
            p.max_delay_ms == max_delay_ms,
            !p.running,
    {
        let p = Publisher {
            state: ConnState::Disconnected,
            retry_count: 0,
            backlog: Vec::new(),
            backlog_capacity,
            base_delay_ms,
            max_delay_ms,
            running: false,
        };
        proof {
            assert(p.backlog_model() =~= Seq::<Seq<u8>>::empty());
        }
        p
    }

    /// Disconnected → Connecting: the publisher starts its first attempt.
    pub fn on_start(&mut self)
        requires
            old(self).wf(),
            old(self).state == ConnState::Disconnected,
        ensures
            final(self).wf(),
            final(self).state == ConnState::Connecting,
            final(self).retry_count == old(self).retry_count,
            final(self).backlog_model() == old(self).backlog_model(),
            final(self).same_config(*old(self)),
            final(self).running == old(self).running,
    {
        self.state = ConnState::Connecting;
    }

    /// Connecting → Connected: the broker handshake succeeded.
    pub fn on_connect_success(&mut self)
        requires
            old(self).wf(),
            old(self).state == ConnState::Connecting,
        ensures
            final(self).wf(),
            final(self).state == ConnState::Connected,
            final(self).retry_count == old(self).retry_count,
            final(self).backlog_model() == old(self).backlog_model(),
            final(self).same_config(*old(self)),
            final(self).running == old(self).running,
    {
        self.state = ConnState::Connected;
    }

    /// Connecting → Backoff: the handshake failed; the retry counter
    /// grows (saturating at its type's maximum) so the next delay is longer.
    pub fn on_connect_failure(&mut self)
        requires
            old(self).wf(),
            old(self).state == ConnState::Connecting,
        ensures
            final(self).wf(),
            final(self).state == ConnState::Backoff,
            final(self).retry_count == if old(self).retry_count < u32::MAX {
                (old(self).retry_count + 1) as u32
            } else {
                u32::MAX
            },
            final(self).backlog_model() == old(self).backlog_model(),
            final(self).same_config(*old(self)),
            final(self).running == old(self).running,
    {
        self.state = ConnState::Backoff;
        if self.retry_count < u32::MAX {
            self.retry_count = self.retry_count + 1;
        }
    }

    /// Backoff → Connecting: the computed delay has elapsed.
    pub fn on_backoff_elapsed(&mut self)
        requires
            old(self).wf(),
            old(self).state == ConnState::Backoff,
        ensures
            final(self).wf(),
            final(self).state == ConnState::Connecting,
            final(self).retry_count == old(self).retry_count,
            final(self).backlog_model() == old(self).backlog_model(),
            final(self).same_config(*old(self)),
            final(self).running == old(self).running,
    {
        self.state = ConnState::Connecting;
    }

    /// Connected → Connected: a publish call succeeded; the retry counter
    /// resets.
    pub fn on_publish_success(&mut self)
        requires
            old(self).wf(),
            old(self).state == ConnState::Connected,
        ensures
            final(self).wf(),
            final(self).state == ConnState::Connected,
            final(self).retry_count == 0,
            final(self).backlog_model() == old(self).backlog_model(),
            final(self).same_config(*old(self)),
            final(self).running == old(self).running,
    {
        self.retry_count = 0;
    }

    /// Connected → Backoff: a publish call failed; the envelope that failed
    /// is admitted to the backlog for retry after reconnection.
    pub fn on_publish_failure(&mut self, envelope: Vec<u8>)
        requires
            old(self).wf(),
            old(self).state == ConnState::Connected,
        ensures
            final(self).wf(),
            final(self).state == ConnState::Backoff,
            final(self).retry_count == old(self).retry_count,
            final(self).backlog_model() == backlog_step(
                old(self).backlog_model(),
                old(self).backlog_capacity as nat,
                envelope@,
            ),
            final(self).same_config(*old(self)),
            final(self).running == old(self).running,
    {
        self.state = ConnState::Backoff;
        self.push_backlog(envelope);
    }

    /// Admit one envelope to the backlog, evicting the oldest entry first
    /// when the backlog is at capacity.
    pub fn push_backlog(&mut self, envelope: Vec<u8>)
        requires
            old(self).wf(),
        ensures
            final(self).wf(),
            final(self).state == old(self).state,
            final(self).retry_count == old(self).retry_count,
            final(self).backlog_model() == backlog_step(
                old(self).backlog_model(),
                old(self).backlog_capacity as nat,
                envelope@,
            ),
            final(self).same_config(*old(self)),
            final(self).running == old(self).running,
    {
        let ghost pre = self.backlog_model();
        if self.backlog.len() == self.backlog_capacity {
            self.backlog.remove(0);
            proof {
                assert(self.backlog_model() =~= pre.subrange(1, pre.len() as int));
            }
        }
        self.backlog.push(envelope);
        proof {
            assert(self.backlog_model() =~= backlog_step(
                pre,
                old(self).backlog_capacity as nat,
                envelope@,
            ));
        }
    }

    /// Remove and return the oldest backlog entry, if any.  Flushing the
    /// backlog by repeated calls publishes the surviving envelopes strictly
    /// in their original order.
    pub fn pop_backlog_front(&mut self) -> (r: Option<Vec<u8>>)
        requires
            old(self).wf(),
        ensures
            final(self).wf(),
            final(self).state == old(self).state,
            final(self).retry_count == old(self).retry_count,
            final(self).same_config(*old(self)),
            final(self).running == old(self).running,
            old(self).backlog_model().len() == 0 ==> r is None && final(self).backlog_model() == old(
                self,
            ).backlog_model(),
            old(self).backlog_model().len() > 0 ==> (r matches Some(env)
                && env@ == old(self).backlog_model()[0] && final(self).backlog_model() == old(
                self,
            ).backlog_model().drop_first()),
    {
        if self.backlog.len() == 0 {
            None
        } else {
            let ghost pre = self.backlog_model();
            let env = self.backlog.remove(0);
            proof {
                assert(self.backlog_model() =~= pre.drop_first());
            }
            Some(env)
        }
    }

    /// The number of envelopes waiting in the backlog.
    pub fn backlog_len(&self) -> (n: usize)
        ensures
            n == self.backlog_model().len(),
    {
        self.backlog.len()
    }

    /// The delay to wait in the Backoff state before the next attempt:
    /// `min(base * 2 ^ retry_count, max)`.
    pub fn backoff_delay(&self) -> (d: u64)
        requires
            self.wf(),
        ensures
            d == backoff_delay_spec(self.base_delay_ms, self.max_delay_ms, self.retry_count),
    {
        let mut d: u64 = self.base_delay_ms;
        let mut i: u32 = 0;
        proof {
            assert(pow2(0) == 1);
            assert(self.base_delay_ms * pow2(0) == self.base_delay_ms);
        }
        while i < self.retry_count
            invariant
                i <= self.retry_count,
                1 <= self.base_delay_ms <= self.max_delay_ms,
                d == backoff_delay_spec(self.base_delay_ms, self.max_delay_ms, i),
            decreases self.retry_count - i,
        {
            let ghost x = self.base_delay_ms * pow2(i as nat);
            proof {
                lemma_pow2_pos(i as nat);
                assert(x >= self.base_delay_ms) by (nonlinear_arith)
                    requires
                        self.base_delay_ms >= 1,
                        pow2(i as nat) >= 1,
                        x == self.base_delay_ms * pow2(i as nat),
                ;
                assert(self.base_delay_ms * pow2((i + 1) as nat) == 2 * x) by (nonlinear_arith)
                    requires
                        pow2((i + 1) as nat) == 2 * pow2(i as nat),
                        x == self.base_delay_ms * pow2(i as nat),
                ;
            }
            if d >= self.max_delay_ms {
                d = self.max_delay_ms;
            } else if d <= self.max_delay_ms / 2 {
                d = d * 2;
            } else {
                d = self.max_delay_ms;
            }
            i = i + 1;
        }
        d
    }

    /// Process one dequeued frame.  While Connected, the frame's envelope
    /// is returned for the broker call; in every other state it is
    /// admitted to the backlog, oldest evicted first when full, so nothing
    /// is discarded until the backlog's own bound forces it.
    pub fn handle_frame(&mut self, frame: &AudioFrame) -> (r: Result<
        Option<Vec<u8>>,
        SerializationError,
    >)
        requires
            old(self).wf(),
        ensures
            final(self).wf(),
            final(self).state == old(self).state,
            final(self).retry_count == old(self).retry_count,
            final(self).same_config(*old(self)),
            final(self).running == old(self).running,
            (r is Ok) <==> (frame.wf() && 25 + 2 * ((frame.channel_count as int) * (
            frame.sample_count as int)) <= usize::MAX),
            (r matches Ok(out) ==> (out is Some <==> old(self).state == ConnState::Connected)),
            (r matches Ok(out) ==> match out {
                Some(env) => env@ == codec::serialize_spec(*frame) && final(self).backlog_model()
                    == old(self).backlog_model(),
                None => final(self).backlog_model() == backlog_step(
                    old(self).backlog_model(),
                    old(self).backlog_capacity as nat,
                    codec::serialize_spec(*frame),
                ),
            }),
            (r is Err ==> final(self).backlog_model() == old(self).backlog_model()),
    {
        let bytes = match codec::serialize(frame) {
            Ok(b) => b,
            Err(e) => {
                return Err(e);
            },
        };
        if self.state == ConnState::Connected {
            Ok(Some(bytes))
        } else {
            self.push_backlog(bytes);
            Ok(None)
        }
    }
}

/// The envelopes a connected publisher emits when it repeatedly pops the
/// front of the queue and publishes the serialization of what it popped.
pub open spec fn drained_envelopes(frames: Seq<AudioFrame>) -> Seq<Seq<u8>>
    decreases frames.len(),
{
    if frames.len() == 0 {
        Seq::empty()
    } else {
        seq![codec::serialize_spec(frames[0])] + drained_envelopes(frames.drop_first())
    }
}

/// Order preservation: frames enqueued without overflow leave the queue
/// front-first, so a publisher that stays Connected emits exactly one
/// envelope per frame, in the exact order the frames were pushed.
pub proof fn lemma_order_preservation(frames: Seq<AudioFrame>)
    ensures
        drained_envelopes(frames).len() == frames.len(),
        forall|i: int|
            0 <= i < frames.len() ==> drained_envelopes(frames)[i] == codec::serialize_spec(
                frames[i],
            ),
    decreases frames.len(),
{
    if frames.len() > 0 {
        lemma_order_preservation(frames.drop_first());
        assert forall|i: int| 0 <= i < frames.len() implies drained_envelopes(frames)[i]
            == codec::serialize_spec(frames[i]) by {
            if i > 0 {
                assert(drained_envelopes(frames)[i] == drained_envelopes(frames.drop_first())[i
                    - 1]);
                assert(frames.drop_first()[i - 1] == frames[i]);
            }
        }
    }
}

proof fn lemma_backlog_window(init: Seq<Seq<u8>>, cap: nat, envs: Seq<Seq<u8>>)
    requires
        1 <= cap,
        init.len() <= cap,
    ensures
        backlog_after(init, cap, envs).len() <= cap,
        backlog_after(init, cap, envs) == ({
            let s = init + envs;
            s.skip(if s.len() <= cap {
                0
            } else {
                s.len() - cap
            })
        }),
    decreases envs.len(),
{
    let s = init + envs;
    if envs.len() == 0 {
        assert(s =~= init);
        assert(s.skip(0) =~= s);
    } else {
        let e = envs[0];
        let b1 = backlog_step(init, cap, e);
        assert(b1.len() <= cap);
        lemma_backlog_window(b1, cap, envs.drop_first());
        let s1 = b1 + envs.drop_first();
        if init.len() < cap {
            assert(s1 =~= s);
        } else {
            assert(s1 =~= s.skip(1));
            let k = if s1.len() <= cap {
                0
            } else {
                s1.len() - cap
            };
            assert(s1.skip(k) =~= s.skip(k + 1));
        }
    }
}

/// Backlog bound and order: starting from an empty backlog, admitting any
/// run of envelopes keeps the backlog within its capacity, and what
/// survives is exactly the most recent envelopes, in their original order.
pub proof fn lemma_backlog_bound_and_order(cap: nat, envs: Seq<Seq<u8>>)
    requires
        1 <= cap,
    ensures
        backlog_after(Seq::empty(), cap, envs).len() <= cap,
        envs.len() <= cap ==> backlog_after(Seq::empty(), cap, envs) == envs,
        envs.len() > cap ==> backlog_after(Seq::empty(), cap, envs) == envs.skip(
            envs.len() - cap,
        ),
{
    lemma_backlog_window(Seq::empty(), cap, envs);
    assert(Seq::empty() + envs =~= envs);
}

} // verus!
