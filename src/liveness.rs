//! The application-level keepalive: when to ping, when to give up.
//!
//! Times are milliseconds on a monotonic clock with an arbitrary origin.
use vstd::prelude::*;

verus! {

/// The ping interval is drawn from this range of seconds.
pub const PING_INTERVAL_MIN_SECS: u64 = 20;

pub const PING_INTERVAL_MAX_SECS: u64 = 30;

/// The pong timeout is drawn from this range of seconds.
pub const PONG_TIMEOUT_MIN_SECS: u64 = 7;

pub const PONG_TIMEOUT_MAX_SECS: u64 = 10;

/// What the keepalive rule asks for at a given time.
#[derive(Debug, Clone, Copy, PartialEq, Eq, Structural)]
pub enum Verdict {
    Wait,
    SendPing,
    Close,
}

/// The keepalive state of one connection.
#[derive(Debug, Clone, Copy, PartialEq, Eq, Structural)]
pub struct Liveness {
    pub ping_interval: u64,
    pub pong_timeout: u64,
    /// When the last inbound message was read.
    pub last_inbound: u64,
    /// When the unanswered ping went out, if one did.
    pub ping_sent_at: Option<u64>,
}

/// `a - b`, or zero where `b` is later.
pub open spec fn elapsed(now: u64, since: u64) -> int {
    if now >= since {
        now - since
    } else {
        0
    }
}

/// `a + b`, held at the largest `u64`.
pub open spec fn sat_add(a: u64, b: u64) -> int {
    if a + b > u64::MAX {
        u64::MAX as int
    } else {
        a + b
    }
}

/// Draws from `lo..=hi` uniformly.
///
/// Relies on rand::random_range with an inclusive range, which returns a
/// value inside it and panics only on an empty one.
#[verifier::external_body]
fn random_between(lo: u64, hi: u64) -> (r: u64)
    requires
        lo <= hi,
    ensures
        lo <= r <= hi,
{
    rand::random_range(lo..=hi)
}

impl Liveness {
    pub open spec fn deadline_spec(self) -> int {
        let ping_deadline = sat_add(self.last_inbound, self.ping_interval);
        match self.ping_sent_at {
            Some(t0) => {
                let pong_deadline = sat_add(t0, self.pong_timeout);
                if ping_deadline < pong_deadline {
                    ping_deadline
                } else {
                    pong_deadline
                }
            },
            None => ping_deadline,
        }
    }

    pub open spec fn verdict_spec(self, now: u64) -> Verdict {
        match self.ping_sent_at {
            Some(t0) => if elapsed(now, t0) >= self.pong_timeout {
                Verdict::Close
            } else {
                Verdict::Wait
            },
            None => if elapsed(now, self.last_inbound) >= self.ping_interval {
                Verdict::SendPing
            } else {
                Verdict::Wait
            },
        }
    }

    pub open spec fn after_inbound(self, now: u64) -> Liveness {
        Liveness { last_inbound: now, ping_sent_at: None, ..self }
    }

    pub open spec fn after_ping(self, now: u64) -> Liveness {
        match self.ping_sent_at {
            Some(_) => self,
            None => Liveness { ping_sent_at: Some(now), ..self },
        }
    }

    /// A timer that starts at `now` with the given interval and timeout.
    pub fn new(ping_interval: u64, pong_timeout: u64, now: u64) -> (r: Liveness)
        ensures
            r == (Liveness { ping_interval, pong_timeout, last_inbound: now, ping_sent_at: None }),
    {
        Liveness { ping_interval, pong_timeout, last_inbound: now, ping_sent_at: None }
    }

    /// A timer that starts at `now`, with a ping interval drawn from 20 to 30
    /// whole seconds and a pong timeout from 7 to 10, so that clients that
    /// reconnect together do not ping together.
    pub fn randomized(now: u64) -> (r: Liveness)
        ensures
            PING_INTERVAL_MIN_SECS * 1000 <= r.ping_interval <= PING_INTERVAL_MAX_SECS * 1000,
            r.ping_interval % 1000 == 0,
            PONG_TIMEOUT_MIN_SECS * 1000 <= r.pong_timeout <= PONG_TIMEOUT_MAX_SECS * 1000,
            r.pong_timeout % 1000 == 0,
            r.last_inbound == now,
            r.ping_sent_at is None,
    {
        let interval = random_between(PING_INTERVAL_MIN_SECS, PING_INTERVAL_MAX_SECS);
        let timeout = random_between(PONG_TIMEOUT_MIN_SECS, PONG_TIMEOUT_MAX_SECS);
        Liveness::new(interval * 1000, timeout * 1000, now)
    }

    /// How long the readiness wait may block at `now`: until the next ping
    /// is due or, with a ping unanswered, until its timeout if that is sooner.
    pub fn wait_timeout(&self, now: u64) -> (r: u64)
        ensures
            r == (if self.deadline_spec() > now {
                self.deadline_spec() - now
            } else {
                0
            }),
    {
        let ping_deadline = self.last_inbound.saturating_add(self.ping_interval);
        let deadline = match self.ping_sent_at {
            Some(t0) => {
                let pong_deadline = t0.saturating_add(self.pong_timeout);
                if ping_deadline < pong_deadline {
                    ping_deadline
                } else {
                    pong_deadline
                }
            },
            None => ping_deadline,
        };
        if deadline > now {
            deadline - now
        } else {
            0
        }
    }

    /// What the keepalive rule asks for at `now`.
    pub fn verdict(&self, now: u64) -> (r: Verdict)
        ensures
            r == self.verdict_spec(now),
    {
        match self.ping_sent_at {
            Some(t0) => {
                if now.saturating_sub(t0) >= self.pong_timeout {
                    Verdict::Close
                } else {
                    Verdict::Wait
                }
            },
            None => {
                if now.saturating_sub(self.last_inbound) >= self.ping_interval {
                    Verdict::SendPing
                } else {
                    Verdict::Wait
                }
            },
        }
    }

    /// Records an inbound message of any kind at `now`.
    pub fn on_inbound(&mut self, now: u64)
        ensures
            *final(self) == old(self).after_inbound(now),
    {
        self.last_inbound = now;
        self.ping_sent_at = None;
    }

    /// Records that a ping went out at `now`, unless one is already unanswered.
    pub fn on_ping_sent(&mut self, now: u64)
        ensures
            *final(self) == old(self).after_ping(now),
    {
        if self.ping_sent_at.is_none() {
            self.ping_sent_at = Some(now);
        }
    }
}

/// An inbound message that arrives within the pong timeout of a ping keeps
/// the connection: the rule asks for no close up to that message, nor at any
/// time after it until another ping goes out.
pub proof fn lemma_inbound_keeps_alive(l: Liveness, t0: u64, t1: u64, before: u64, after: u64)
    requires
        l.ping_sent_at == Some(t0),
        t0 <= t1,
        t1 - t0 < l.pong_timeout,
        before <= t1,
    ensures
        l.verdict_spec(before) != Verdict::Close,
        l.after_inbound(t1).verdict_spec(after) != Verdict::Close,
{
}

} // verus!
