//! Cooperative cancellation: a shared abort flag plus an optional deadline.

use std::sync::atomic::{AtomicBool, Ordering};
use std::sync::Arc;
use vstd::prelude::*;

verus! {

/// Why a long operation stopped early.
#[derive(Clone, Copy, Debug, PartialEq, Eq, Structural)]
pub enum CancelReason {
    /// The abort flag was raised by the caller.
    Aborted,
    /// The deadline passed.
    Timeout,
}

/// The verdict of one heartbeat, given whether the flag is up and the clock.
pub open spec fn heartbeat_verdict(aborted: bool, deadline: Option<u64>, now_ms: u64) -> Result<(), CancelReason> {
    if aborted {
        Err(CancelReason::Aborted)
    } else if deadline is Some && now_ms >= deadline->0 {
        Err(CancelReason::Timeout)
    } else {
        Ok(())
    }
}

/// The deadline armed by a timeout of `timeout_ms` from `now_ms`, saturating.
pub open spec fn deadline_of(timeout_ms: Option<u32>, now_ms: u64) -> Option<u64> {
    match timeout_ms {
        Some(t) => Some(if now_ms + t > u64::MAX { u64::MAX } else { (now_ms + t) as u64 }),
        None => None,
    }
}

/// Reads the wall clock, in milliseconds since the Unix epoch.
///
/// Relies on `std::time::SystemTime::now` and `duration_since`; nothing is
/// promised of the value, which depends on the moment of the call.
#[verifier::external_body]
pub(crate) fn clock_ms() -> (r: u64) {
    std::time::SystemTime::now()
        .duration_since(std::time::UNIX_EPOCH)
        .map_or(0, |d| u64::try_from(d.as_millis()).unwrap_or(u64::MAX))
}

/// A token threaded through every long operation; polled at each heartbeat.
#[derive(Clone)]
pub struct CancelToken {
    flag: Arc<AtomicBool>,
    deadline_ms: Option<u64>,
}

impl CancelToken {
    /// The deadline, if a timeout was armed.
    pub closed spec fn deadline(&self) -> Option<u64> {
        self.deadline_ms
    }

    /// A token with the given abort flag, timing out `timeout_ms` after `now_ms`.
    pub fn with_flag(flag: Arc<AtomicBool>, timeout_ms: Option<u32>, now_ms: u64) -> (r: CancelToken)
        ensures
            r.deadline() == deadline_of(timeout_ms, now_ms),
    {
        let deadline_ms = match timeout_ms {
            Some(t) => Some(now_ms.saturating_add(t as u64)),
            None => None,
        };
        CancelToken { flag, deadline_ms }
    }

    /// A token with a fresh flag, timing out `timeout_ms` after `now_ms`.
    pub fn new(timeout_ms: Option<u32>, now_ms: u64) -> (r: CancelToken)
        ensures
            r.deadline() == deadline_of(timeout_ms, now_ms),
    {
        Self::with_flag(Arc::new(AtomicBool::new(false)), timeout_ms, now_ms)
    }

    /// A token armed now: it times out `timeout_ms` from the current clock,
    /// and uses `flag` as its abort flag when one is given.
    pub fn start(timeout_ms: Option<u32>, flag: Option<Arc<AtomicBool>>) -> (r: CancelToken)
        ensures
            timeout_ms is None <==> r.deadline() is None,
    {
        let now = clock_ms();
        match flag {
            Some(f) => Self::with_flag(f, timeout_ms, now),
            None => Self::new(timeout_ms, now),
        }
    }

    /// A token that never trips on its own.
    pub fn never() -> (r: CancelToken)
        ensures
            r.deadline() is None,
    {
        Self::new(None, 0)
    }

    /// Raises the abort flag: every later heartbeat of this token and its clones fails.
    pub fn cancel(&self) {
        self.flag.store(true, Ordering::SeqCst);
    }

    /// The decision of a heartbeat once the flag and the clock have been read.
    pub fn check(&self, aborted: bool, now_ms: u64) -> (r: Result<(), CancelReason>)
        ensures
            r == heartbeat_verdict(aborted, self.deadline(), now_ms),
    {
        if aborted {
            Err(CancelReason::Aborted)
        } else {
            match self.deadline_ms {
                Some(d) => if now_ms >= d { Err(CancelReason::Timeout) } else { Ok(()) },
                None => Ok(()),
            }
        }
    }

    /// Polls the token: fails once the flag is up or the deadline has passed.
    pub fn heartbeat(&self) -> (r: Result<(), CancelReason>)
        ensures
            self.deadline() is None && r is Err ==> r == Err::<(), CancelReason>(CancelReason::Aborted),
    {
        let aborted = self.flag.load(Ordering::SeqCst);
        let now = clock_ms();
        self.check(aborted, now)
    }
}

} // verus!
