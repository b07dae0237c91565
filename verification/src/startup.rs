//! Waiting for a freshly started server: it is pinged until it answers that
//! it is ready, with a pause after each unsuccessful ping, and given up on
//! after a fixed number of attempts.
use vstd::prelude::*;

verus! {

/// How many pings a starting server is given before it is given up on.
pub const MAX_PING_ATTEMPTS: u32 = 5;

/// The pause, in seconds, after each unsuccessful ping.
pub const PING_RETRY_DELAY_SECS: u64 = 1;

/// What came back from one ping of the server.
#[derive(PartialEq, Eq, Structural, Clone, Copy, Debug)]
pub enum PingReply {
    /// The call itself failed (for instance, nothing listens yet).
    Failed,
    /// The server answered, with the readiness flag of its reply.
    Answered(bool),
}

/// What to do after a ping reply has been recorded.
#[derive(PartialEq, Eq, Structural, Clone, Copy, Debug)]
pub enum StartupAction {
    /// The server is up: stop pinging.
    Ready,
    /// Wait `PING_RETRY_DELAY_SECS`, then ping again.
    WaitThenPing,
    /// Wait `PING_RETRY_DELAY_SECS`, then give the server up.
    WaitThenFail,
}

/// A reply that says the server is up.
pub open spec fn reply_ok(r: PingReply) -> bool {
    r matches PingReply::Answered(true)
}

/// The action that follows `reply` when `failures` earlier pings failed.
pub open spec fn next_action(failures: nat, reply: PingReply) -> StartupAction {
    if reply_ok(reply) {
        StartupAction::Ready
    } else if failures + 1 < MAX_PING_ATTEMPTS {
        StartupAction::WaitThenPing
    } else {
        StartupAction::WaitThenFail
    }
}

/// The actions taken when the server gives the replies `replies`, one per
/// ping, starting after `failures` failed pings: pinging stops at the first
/// action that is not `WaitThenPing`.
pub open spec fn startup_actions(failures: nat, replies: Seq<PingReply>) -> Seq<StartupAction>
    decreases replies.len(),
{
    if replies.len() == 0 {
        seq![]
    } else {
        let a = next_action(failures, replies[0]);
        if a == StartupAction::WaitThenPing {
            seq![a] + startup_actions(failures + 1, replies.drop_first())
        } else {
            seq![a]
        }
    }
}

/// Counts the failed pings of one server start-up and says what to do after
/// each reply.
pub struct StartupProbe {
    failures: u32,
}

impl StartupProbe {
    #[verifier::type_invariant]
    spec fn well_formed(self) -> bool {
        self.failures <= MAX_PING_ATTEMPTS
    }

    /// How many pings have failed so far.
    pub closed spec fn failures(self) -> nat {
        self.failures as nat
    }

    /// A probe before the first ping.
    pub fn new() -> (p: Self)
        ensures
            p.failures() == 0,
    {
        StartupProbe { failures: 0 }
    }

    /// Whether the probe may still be asked to record a reply.
    pub fn may_ping(&self) -> (b: bool)
        ensures
            b == (self.failures() < MAX_PING_ATTEMPTS),
    {
        self.failures < MAX_PING_ATTEMPTS
    }

    /// Records the reply to one ping: an answer with the readiness flag set
    /// means the server is up; anything else counts as a failure, followed
    /// by a pause and either another ping or, after the last allowed
    /// attempt, giving up.
    pub fn record(&mut self, reply: PingReply) -> (action: StartupAction)
        requires
            old(self).failures() < MAX_PING_ATTEMPTS,
        ensures
            action == next_action(old(self).failures(), reply),
            final(self).failures() == if reply_ok(reply) {
                old(self).failures()
            } else {
                old(self).failures() + 1
            },
    {
        let ok = match reply {
            PingReply::Answered(flag) => flag,
            PingReply::Failed => false,
        };
        if ok {
            StartupAction::Ready
        } else {
            let failures = self.failures + 1;
            *self = StartupProbe { failures };
            if failures < MAX_PING_ATTEMPTS {
                StartupAction::WaitThenPing
            } else {
                StartupAction::WaitThenFail
            }
        }
    }
}

/// A server is never pinged more than `MAX_PING_ATTEMPTS` times in all.
pub proof fn lemma_startup_ping_bound(failures: nat, replies: Seq<PingReply>)
    requires
        failures < MAX_PING_ATTEMPTS,
    ensures
        startup_actions(failures, replies).len() <= MAX_PING_ATTEMPTS - failures,
    decreases replies.len(),
{
    if replies.len() > 0 && next_action(failures, replies[0]) == StartupAction::WaitThenPing {
        lemma_startup_ping_bound(failures + 1, replies.drop_first());
    }
}

/// Given a reply for every allowed ping, start-up ends in `Ready` exactly
/// when one of those replies says the server is up, and otherwise ends in
/// `WaitThenFail`; only the last action is not `WaitThenPing`.
pub proof fn lemma_startup_outcome(failures: nat, replies: Seq<PingReply>)
    requires
        failures < MAX_PING_ATTEMPTS,
        replies.len() >= MAX_PING_ATTEMPTS - failures,
    ensures
        startup_actions(failures, replies).len() >= 1,
        forall|i: int|
            0 <= i < startup_actions(failures, replies).len() - 1 ==> #[trigger] startup_actions(
                failures,
                replies,
            )[i] == StartupAction::WaitThenPing,
        (startup_actions(failures, replies).last() == StartupAction::Ready) <==> (exists|i: int|
            0 <= i < MAX_PING_ATTEMPTS - failures && #[trigger] reply_ok(replies[i])),
        startup_actions(failures, replies).last() != StartupAction::Ready
            ==> startup_actions(failures, replies).last() == StartupAction::WaitThenFail,
    decreases replies.len(),
{
    let acts = startup_actions(failures, replies);
    let a = next_action(failures, replies[0]);
    if a == StartupAction::WaitThenPing {
        let rest = replies.drop_first();
        lemma_startup_outcome(failures + 1, rest);
        let racts = startup_actions(failures + 1, rest);
        assert(acts =~= seq![a] + racts);
        assert forall|i: int| 0 <= i < acts.len() - 1 implies #[trigger] acts[i]
            == StartupAction::WaitThenPing by {
            if i > 0 {
                assert(acts[i] == racts[i - 1]);
            }
        }
        assert(acts.last() == racts.last());
        if acts.last() == StartupAction::Ready {
            let j = choose|j: int| 0 <= j < MAX_PING_ATTEMPTS - (failures + 1) && #[trigger] reply_ok(rest[j]);
            assert(rest[j] == replies[j + 1]);
            assert(reply_ok(replies[j + 1]));
        } else {
            assert forall|i: int| 0 <= i < MAX_PING_ATTEMPTS - failures implies !#[trigger] reply_ok(
                replies[i],
            ) by {
                if i == 0 {
                } else {
                    assert(replies[i] == rest[i - 1]);
                    if reply_ok(rest[i - 1]) {
                        assert(0 <= i - 1 < MAX_PING_ATTEMPTS - (failures + 1));
                    }
                }
            }
        }
    } else {
        assert(acts =~= seq![a]);
        if a == StartupAction::Ready {
            assert(reply_ok(replies[0]));
        } else {
            assert(failures + 1 == MAX_PING_ATTEMPTS);
            assert forall|i: int| 0 <= i < MAX_PING_ATTEMPTS - failures implies !#[trigger] reply_ok(
                replies[i],
            ) by {
                assert(i == 0);
            }
        }
    }
}

} // verus!
