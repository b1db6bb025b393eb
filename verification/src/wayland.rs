//! The decisions of the Wayland session: waiting for the required objects, the protocol versions
//! to bind, and the initialization timeout.
use vstd::prelude::*;

use std::time::Instant;

verus! {

/// The newest `wl_seat` version this client speaks.
pub const SUPPORTED_SEAT_VERSION: u32 = 10;

/// The newest `org_kde_kwin_fake_input` version this client speaks.
pub const SUPPORTED_FAKE_INPUT_VERSION: u32 = 6;

/// The version to bind a global at: the one the compositor offers, at most the supported one.
pub fn bind_version(offered: u32, supported: u32) -> (version: u32)
    ensures
        version == if offered <= supported {
            offered
        } else {
            supported
        },
{
    if offered <= supported {
        offered
    } else {
        supported
    }
}

/// Which of the objects typing needs the compositor has handed over.
#[derive(Debug, Clone, Copy, PartialEq, Eq, Default)]
pub struct BindingStatus {
    pub fake_input: bool,
    pub seat: bool,
    pub keyboard: bool,
    pub keymap: bool,
}

impl BindingStatus {
    pub open spec fn spec_all_bound(self) -> bool {
        self.fake_input && self.seat && self.keyboard && self.keymap
    }

    /// Whether the fake input interface, the seat, its keyboard and the keymap are all there.
    pub fn all_bound(&self) -> (bound: bool)
        ensures
            bound == self.spec_all_bound(),
    {
        self.fake_input && self.seat && self.keyboard && self.keymap
    }
}

/// What happened last while waiting for the objects.
#[derive(Debug, Clone, Copy, PartialEq, Eq)]
pub enum ReadyEvent {
    /// Waiting has just begun.
    Started,
    /// Pending events were dispatched; this many of them.
    Dispatched { count: usize },
    /// The connection was flushed, events were read and dispatched.
    ReadAndDispatched,
}

/// What to do next while waiting for the objects.
#[derive(Debug, Clone, Copy, PartialEq, Eq)]
pub enum ReadyStep {
    /// Everything is bound: waiting is over.
    Ready,
    /// Dispatch the events already queued.
    DispatchPending,
    /// Flush the requests, wait (within the timeout) for events, read them and dispatch them.
    FlushReadDispatch,
}

/// The next step of waiting: done once everything is bound; otherwise dispatch what is queued,
/// and only when that dispatched nothing, flush and block on the connection.
pub fn next_ready_step(status: &BindingStatus, event: ReadyEvent) -> (step: ReadyStep)
    ensures
        status.spec_all_bound() ==> step == ReadyStep::Ready,
        !status.spec_all_bound() ==> step == match event {
            ReadyEvent::Dispatched { count } => if count == 0 {
                ReadyStep::FlushReadDispatch
            } else {
                ReadyStep::DispatchPending
            },
            _ => ReadyStep::DispatchPending,
        },
{
    if status.all_bound() {
        return ReadyStep::Ready;
    }
    match event {
        ReadyEvent::Dispatched { count } => if count == 0 {
            ReadyStep::FlushReadDispatch
        } else {
            ReadyStep::DispatchPending
        },
        _ => ReadyStep::DispatchPending,
    }
}

/// The opaque monotonic clock reading of the standard library.
#[verifier::external_type_specification]
#[verifier::external_body]
pub struct ExInstant(std::time::Instant);

/// Calls `std::time::Instant::now`. Nothing is stated of the clock reading it returns.
#[verifier::external_body]
fn instant_now() -> Instant {
    Instant::now()
}

/// Calls `std::time::Instant::elapsed` and gives the time in whole nanoseconds. Nothing is
/// stated of the result: it depends on the clock.
#[verifier::external_body]
fn elapsed_nanos(started_at: &Instant) -> u128 {
    started_at.elapsed().as_nanos()
}

/// Initialization did not reach the ready state within this many milliseconds.
#[derive(Debug, Clone, Copy, PartialEq, Eq)]
pub struct TimeoutElapsed(pub u64);

/// A time limit that started running when it was made.
pub struct Timeout {
    duration: u64,
    started_at: Instant,
}

pub open spec fn millis_to_nanos(millis: u64) -> int {
    millis * 1_000_000
}

/// What is left of `duration` milliseconds after `elapsed` nanoseconds, in nanoseconds; an
/// error once nothing is left.
pub open spec fn spec_remaining(duration: u64, elapsed: u128) -> Result<u128, TimeoutElapsed> {
    if elapsed >= millis_to_nanos(duration) {
        Err(TimeoutElapsed(duration))
    } else {
        Ok((millis_to_nanos(duration) - elapsed) as u128)
    }
}

impl Timeout {
    /// The limit, in milliseconds.
    pub closed spec fn spec_duration(&self) -> u64 {
        self.duration
    }

    /// A limit of `duration` milliseconds, starting now.
    pub fn new(duration: u64) -> (timeout: Timeout)
        ensures
            timeout.spec_duration() == duration,
    {
        Timeout { duration, started_at: instant_now() }
    }

    /// The limit, in milliseconds.
    pub fn duration(&self) -> (duration: u64)
        ensures
            duration == self.spec_duration(),
    {
        self.duration
    }

    /// What is left of `duration` milliseconds after `elapsed` nanoseconds, in nanoseconds; an
    /// error once nothing is left.
    pub fn remaining(duration: u64, elapsed: u128) -> (remaining: Result<u128, TimeoutElapsed>)
        ensures
            remaining == spec_remaining(duration, elapsed),
    {
        let total: u128 = duration as u128 * 1_000_000;
        if elapsed >= total {
            Err(TimeoutElapsed(duration))
        } else {
            Ok(total - elapsed)
        }
    }

    /// The time left to wait for events, in nanoseconds, or the elapsed error once the limit
    /// has passed.
    pub fn poll_timeout(&self) -> (remaining: Result<u128, TimeoutElapsed>)
        ensures
            remaining matches Ok(nanos) ==> 0 < nanos <= millis_to_nanos(self.spec_duration()),
            remaining matches Err(e) ==> e == TimeoutElapsed(self.spec_duration()),
    {
        let elapsed = elapsed_nanos(&self.started_at);
        Timeout::remaining(self.duration, elapsed)
    }
}

} // verus!
