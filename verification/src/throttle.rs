//! The pacing of requests to a site: a short pause between requests, and a
//! long one after every few, forgotten after a long quiet spell.
//!
//! Durations are whole nanoseconds; whoever holds the clock measures the
//! time since the last request and sleeps for what `next_wait` asks.

use vstd::prelude::*;

verus! {

/// How many requests were made since the counter was last reset.
#[derive(Debug, Clone, Copy, PartialEq, Eq, Structural)]
pub struct ThrottleState {
    pub request_count: u64,
}

/// The counter after the reset check, then the pause before the next
/// request: `elapsed` is the time since the last request (`None` before the
/// first), `regular` and `long` the two pauses, `steps` the number of
/// requests between long pauses (0: never a long pause).
pub open spec fn next_wait_spec(
    count: u64,
    elapsed: Option<u128>,
    regular: u128,
    long: u128,
    steps: u64,
) -> (u64, Option<u128>) {
    let c: u64 = if elapsed matches Some(e) && e > long {
        0
    } else {
        count
    };
    let target: u128 = if c > 0 && steps > 0 && c % steps == 0 {
        long
    } else if c > 0 {
        regular
    } else {
        0
    };
    let e: u128 = match elapsed {
        Some(e) => e,
        None => 0,
    };
    if target == 0 || e >= target {
        (c, None)
    } else {
        (c, Some((target - e) as u128))
    }
}

impl ThrottleState {
    /// No request made yet.
    pub fn new() -> (res: ThrottleState)
        ensures
            res.request_count == 0,
    {
        ThrottleState { request_count: 0 }
    }

    /// How long to wait before the next request, if at all; a long quiet
    /// spell first resets the counter.
    pub fn next_wait(&mut self, elapsed: Option<u128>, regular: u128, long: u128, steps: u64) -> (res:
        Option<u128>)
        ensures
            (final(self).request_count, res) == next_wait_spec(
                old(self).request_count,
                elapsed,
                regular,
                long,
                steps,
            ),
    {
        if let Some(e) = elapsed {
            if e > long {
                self.request_count = 0;
            }
        }
        let c = self.request_count;
        let target: u128 = if c > 0 && steps > 0 && c % steps == 0 {
            long
        } else if c > 0 {
            regular
        } else {
            0
        };
        let e: u128 = match elapsed {
            Some(e) => e,
            None => 0,
        };
        if target == 0 || e >= target {
            None
        } else {
            Some(target - e)
        }
    }

    /// One more request was made.
    pub fn mark_requested(&mut self)
        requires
            old(self).request_count < u64::MAX,
        ensures
            final(self).request_count == old(self).request_count + 1,
    {
        self.request_count = self.request_count + 1;
    }
}

/// A pause never exceeds the longer of the two pauses, and none is asked
/// before the first request or once the time since the last request
/// covers the pause due.
pub proof fn lemma_wait_bounded(count: u64, elapsed: Option<u128>, regular: u128, long: u128, steps: u64)
    ensures
        ({
            let (c, w) = next_wait_spec(count, elapsed, regular, long, steps);
            &&& w matches Some(x) ==> x <= (if regular <= long {
                long
            } else {
                regular
            })
            &&& c == 0 ==> w is None
            &&& c <= count
        }),
{
}


/// What came of one request: a response with its status code, or a
/// failure to send it.
#[derive(Debug, Clone, Copy, PartialEq, Eq, Structural)]
pub enum RequestOutcome {
    Response(u16),
    SendFailed,
}

/// What a fetch does after a request.
#[derive(Debug)]
pub enum FetchStep {
    /// Read the response (whose other error statuses the HTTP client
    /// reports).
    Accept,
    /// Stop with this message.
    Stop(String),
    /// Wait the retry pause and send again, with this many retries left.
    Retry(usize),
    /// No retries left: fail with the send error.
    GiveUp,
}

/// The step after a request, with `remaining` retries left: a site that
/// stops on status stops on the statuses `status_error` names; a failed
/// send is retried while retries remain.
pub fn fetch_step(url: &str, stop_on_status: bool, remaining: usize, outcome: RequestOutcome) -> (res: FetchStep)
    ensures
        match outcome {
            RequestOutcome::Response(status) => match (if stop_on_status {
                crate::syosetu::status_error_spec(url@, status)
            } else {
                None
            }) {
                Some(m) => res matches FetchStep::Stop(x) && x@ == m,
                None => res is Accept,
            },
            RequestOutcome::SendFailed => if remaining == 0 {
                res is GiveUp
            } else {
                res == FetchStep::Retry((remaining - 1) as usize)
            },
        },
{
    match outcome {
        RequestOutcome::Response(status) => {
            if stop_on_status {
                if let Some(m) = crate::syosetu::status_error(url, status) {
                    return FetchStep::Stop(m);
                }
            }
            FetchStep::Accept
        },
        RequestOutcome::SendFailed => if remaining == 0 {
            FetchStep::GiveUp
        } else {
            FetchStep::Retry(remaining - 1)
        },
    }
}

} // verus!
