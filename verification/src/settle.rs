//! The settle window: after the first frame of a session the sensor's
//! readings are not trusted until a set time has passed.

use vstd::prelude::*;

verus! {

/// Decides for each frame whether its readings are reported or still fall
/// into the settle window, which opens with the first frame ever seen.
///
/// Times are nanoseconds on the caller's clock, counted from any fixed
/// origin.
#[derive(Clone, Copy, Debug)]
pub struct SettleGate {
    settle_time: u128,
    first_seen: Option<u128>,
}

/// Whether the clock reads `now` inside the settle window that opened at
/// `first_seen`. A clock that reads less than `first_seen` has been set back:
/// nothing can be said of the time that has passed, and the window counts as
/// over.
pub open spec fn in_settle_window(first_seen: u128, settle_time: u128, now: u128) -> bool {
    first_seen <= now && now - first_seen < settle_time
}

impl SettleGate {
    /// The length of the settle window.
    pub closed spec fn settle_time(&self) -> u128 {
        self.settle_time
    }

    /// When the first frame was seen, if one was.
    pub closed spec fn first_seen(&self) -> Option<u128> {
        self.first_seen
    }

    /// A gate for a new session with the given settle window. No frame has
    /// been seen.
    pub fn new(settle_time: u128) -> (gate: Self)
        ensures
            gate.settle_time() == settle_time,
            gate.first_seen() is None,
    {
        SettleGate { settle_time, first_seen: None }
    }

    /// Whether no frame has been seen yet, so that the next one opens the
    /// settle window.
    pub fn is_waiting_for_first(&self) -> (waiting: bool)
        ensures
            waiting <==> self.first_seen() is None,
    {
        self.first_seen.is_none()
    }

    /// Takes note of a frame seen at `now` and says whether to report it.
    ///
    /// The first frame opens the settle window at `now`. A frame is reported
    /// unless `now` lies inside the window.
    pub fn should_report(&mut self, now: u128) -> (report: bool)
        ensures
            final(self).settle_time() == old(self).settle_time(),
            final(self).first_seen() == Some(
                match old(self).first_seen() {
                    Some(first) => first,
                    None => now,
                },
            ),
            report <==> !in_settle_window(
                final(self).first_seen()->Some_0,
                old(self).settle_time(),
                now,
            ),
    {
        let first: u128 = match self.first_seen {
            Some(first) => first,
            None => {
                self.first_seen = Some(now);
                now
            },
        };
        !(first <= now && now - first < self.settle_time)
    }
}

/// Once the settle window is over it stays over, on a clock that does not go
/// back: a frame seen after one that was reported is reported too.
pub proof fn lemma_window_stays_closed(first_seen: u128, settle_time: u128, now: u128, later: u128)
    requires
        first_seen <= now <= later,
        !in_settle_window(first_seen, settle_time, now),
    ensures
        !in_settle_window(first_seen, settle_time, later),
{
}

} // verus!
