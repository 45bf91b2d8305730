//! Asking the backend: how often, when to stop, and what to do with what came of it.

use crate::error::{Error, Reply};
use crate::types::Pubkey;
use vstd::prelude::*;

verus! {

/// How often the backend is asked at most for one request.
pub const MAX_ATTEMPTS: u64 = 10;

/// How long to wait after an answer that could not be read, in milliseconds.
pub const RETRY_DELAY_MILLIS: u64 = 100;

/// How an attempt went.
#[derive(Clone, Copy, Debug, PartialEq, Eq, Structural)]
pub enum Attempt {
    /// The backend could not be reached.
    SendFailed,
    /// The backend answered, but its answer could not be read.
    BodyFailed,
    /// The answer was read.
    BodyRead,
}

/// What to do after an attempt.
#[derive(Clone, Copy, Debug, PartialEq, Eq, Structural)]
pub enum Verdict {
    /// Take the answer.
    Deliver,
    /// Wait for the delay, and try again.
    Retry,
    /// Wait for the delay, and give up.
    GiveUp,
    /// Give up at once.
    Abort,
}

/// The attempts to get an answer to one request.
#[derive(Debug)]
pub struct Flight {
    retries: u64,
}

/// What to do after an attempt, given how many are left.
pub open spec fn verdict_on(left: nat, attempt: Attempt) -> Verdict {
    match attempt {
        Attempt::BodyRead => Verdict::Deliver,
        Attempt::SendFailed => Verdict::Abort,
        Attempt::BodyFailed => if left == 0 {
            Verdict::GiveUp
        } else {
            Verdict::Retry
        },
    }
}

impl Flight {
    /// How many attempts are left.
    pub closed spec fn left(self) -> nat {
        self.retries as nat
    }

    /// No attempt was made yet.
    pub fn new() -> (r: Flight)
        ensures
            r.left() == MAX_ATTEMPTS,
    {
        Flight { retries: MAX_ATTEMPTS }
    }

    /// How many attempts are left.
    pub fn attempts_left(&self) -> (r: u64)
        ensures
            r == self.left(),
    {
        self.retries
    }

    /// Decides what to do after one more attempt.
    pub fn attempted(&mut self, attempt: Attempt) -> (r: Verdict)
        requires
            old(self).left() > 0,
        ensures
            final(self).left() == old(self).left() - 1,
            r == verdict_on(final(self).left(), attempt),
    {
        self.retries = self.retries - 1;
        match attempt {
            Attempt::BodyRead => Verdict::Deliver,
            Attempt::SendFailed => Verdict::Abort,
            Attempt::BodyFailed => if self.retries == 0 {
                Verdict::GiveUp
            } else {
                Verdict::Retry
            },
        }
    }
}

/// Where a flight comes to that has `left` attempts and whose attempts go as given: how many
/// attempts are made, and what is done after the last of them. It goes on as long as the
/// verdict is to retry and it is known how the next attempt goes.
pub open spec fn course(left: nat, attempts: Seq<Attempt>) -> (nat, Verdict)
    decreases attempts.len(),
{
    if attempts.len() == 0 || left == 0 {
        (0, Verdict::Retry)
    } else {
        let verdict = verdict_on((left - 1) as nat, attempts[0]);
        if verdict == Verdict::Retry {
            let (made, end) = course((left - 1) as nat, attempts.skip(1));
            (made + 1, end)
        } else {
            (1, verdict)
        }
    }
}

/// However its attempts go, a flight makes no more of them than it has.
pub proof fn law_attempts_are_bounded(left: nat, attempts: Seq<Attempt>)
    ensures
        course(left, attempts).0 <= left,
    decreases attempts.len(),
{
    if attempts.len() > 0 && left > 0 {
        law_attempts_are_bounded((left - 1) as nat, attempts.skip(1));
    }
}

/// A flight ends after the first attempt that does not fail to read an answer: with the answer
/// if it was read, and empty-handed if the backend could not be reached.
pub proof fn law_first_decisive_attempt_ends(left: nat, attempts: Seq<Attempt>, n: nat)
    requires
        n < left,
        n < attempts.len(),
        forall|i: int| 0 <= i < n ==> #[trigger] attempts[i] == Attempt::BodyFailed,
        attempts[n as int] != Attempt::BodyFailed,
    ensures
        course(left, attempts) == (n + 1, if attempts[n as int] == Attempt::BodyRead {
            Verdict::Deliver
        } else {
            Verdict::Abort
        }),
    decreases n,
{
    if n > 0 {
        let rest = attempts.skip(1);
        assert(rest[n - 1] == attempts[n as int]);
        assert forall|i: int| 0 <= i < n - 1 implies #[trigger] rest[i] == Attempt::BodyFailed by {
            assert(rest[i] == attempts[i + 1]);
        }
        law_first_decisive_attempt_ends((left - 1) as nat, rest, (n - 1) as nat);
    }
}

/// A flight gives up after its last attempt, if none of them could read an answer.
pub proof fn law_gives_up_after_last_attempt(left: nat, attempts: Seq<Attempt>)
    requires
        0 < left <= attempts.len(),
        forall|i: int| 0 <= i < left ==> #[trigger] attempts[i] == Attempt::BodyFailed,
    ensures
        course(left, attempts) == (left, Verdict::GiveUp),
    decreases left,
{
    if left > 1 {
        let rest = attempts.skip(1);
        assert forall|i: int| 0 <= i < left - 1 implies #[trigger] rest[i]
            == Attempt::BodyFailed by {
            assert(rest[i] == attempts[i + 1]);
        }
        law_gives_up_after_last_attempt((left - 1) as nat, rest);
    }
}

/// What the backend's answer came to.
#[derive(Debug)]
pub struct Fetched {
    /// What the client is answered.
    pub outcome: Result<Reply, Error>,
    /// Whether something new is known, so that other requests that wait should look again.
    pub notify: bool,
}

/// What to do with what came of asking the backend.
#[derive(Debug)]
pub enum BackendStep {
    /// Answer the client.
    Respond(Reply),
    /// Read the answer, in order to keep what it says.
    Decode(Vec<u8>),
}

/// What to do with what came of asking the backend.
pub open spec fn backend_step(cacheable_for_key: Option<Pubkey>, reply: Option<Vec<u8>>) ->
    BackendStep {
    match reply {
        None => BackendStep::Respond(Reply::GatewayTimeout),
        Some(body) => if cacheable_for_key is Some {
            BackendStep::Decode(body)
        } else {
            BackendStep::Respond(Reply::Json(body))
        },
    }
}

/// Decides what to do with what came of asking the backend: `None` where it gave no answer.
/// The client gets the answer as it is, but one that may be kept is read first.
pub fn backend_replied(cacheable_for_key: Option<Pubkey>, reply: Option<Vec<u8>>) -> (r:
    BackendStep)
    ensures
        r == backend_step(cacheable_for_key, reply),
{
    match reply {
        None => BackendStep::Respond(Reply::GatewayTimeout),
        Some(body) => match cacheable_for_key {
            Some(_) => BackendStep::Decode(body),
            None => BackendStep::Respond(Reply::Json(body)),
        },
    }
}

} // verus!
