//! The timestamped log of the keys accepted during a session.

use crate::key::Key;
use std::time::Duration;
use std::time::Instant;
use vstd::prelude::*;

verus! {

/// A point in time as the system's monotonic clock measures it. Nothing is
/// known of its value.
#[verifier::external_type_specification]
#[verifier::external_body]
pub struct ExInstant(std::time::Instant);

/// `Instant::now` reads the clock. Nothing is claimed of what it returns.
pub assume_specification[ Instant::now ]() -> Instant;

/// `Instant::elapsed` reads the clock again and returns the time since the
/// instant. Nothing is claimed of what it returns.
pub assume_specification[ Instant::elapsed ](origin: &Instant) -> Duration;

/// `Duration::as_millis` gives the whole milliseconds in a duration. Nothing
/// is claimed of the number.
pub assume_specification[ Duration::as_millis ](duration: &Duration) -> u128;

/// Every key accepted during a session, each with the milliseconds that had
/// passed since the first one when it arrived, and the words shown so far.
#[derive(Debug)]
pub struct History {
    /// The time of the first recorded key; `None` until then.
    pub timer: Option<Instant>,
    /// Elapsed milliseconds and key, in the order of arrival.
    pub key_history: Vec<(u128, Key)>,
    /// The target words shown so far, in order.
    pub words: Vec<&'static str>,
}

impl Default for History {
    fn default() -> (empty: Self)
        ensures
            empty.timer is None,
            empty.key_history@.len() == 0,
            empty.words@.len() == 0,
    {
        History { timer: None, key_history: Vec::new(), words: Vec::new() }
    }
}

impl History {
    /// Every key in the log is of a kind that a log may hold.
    pub open spec fn replayable(&self) -> bool {
        forall|i: int| 0 <= i < self.key_history@.len() ==> (#[trigger] self.key_history@[i]).1.replayable()
    }

    /// Whether every key in the log is of a kind that a log may hold.
    pub fn is_replayable(&self) -> (replayable: bool)
        ensures
            replayable == self.replayable(),
    {
        let mut i: usize = 0;
        while i < self.key_history.len()
            invariant
                i <= self.key_history@.len(),
                forall|j: int| 0 <= j < i ==> (#[trigger] self.key_history@[j]).1.replayable(),
            decreases self.key_history@.len() - i,
        {
            if !self.key_history[i].1.is_replayable() {
                return false;
            }
            i = i + 1;
        }
        true
    }

    /// Appends `k` with the given elapsed time. The timer is left alone.
    pub fn record_at(&mut self, elapsed_ms: u128, k: Key)
        ensures
            final(self).key_history@ == old(self).key_history@.push((elapsed_ms, k)),
            final(self).timer == old(self).timer,
            final(self).words == old(self).words,
    {
        self.key_history.push((elapsed_ms, k));
    }

    /// Appends `k` with the time since the first recorded key. The first call
    /// starts the timer; no later call moves it.
    pub fn record_key(&mut self, k: Key)
        ensures
            final(self).timer is Some,
            old(self).timer is Some ==> final(self).timer == old(self).timer,
            final(self).key_history@.len() == old(self).key_history@.len() + 1,
            final(self).key_history@.drop_last() == old(self).key_history@,
            final(self).key_history@.last().1 == k,
            final(self).words == old(self).words,
    {
        let elapsed = match &self.timer {
            Some(origin) => origin.elapsed(),
            None => {
                let origin = Instant::now();
                let elapsed = origin.elapsed();
                self.timer = Some(origin);
                elapsed
            },
        };
        self.record_at(elapsed.as_millis(), k);
    }
}

} // verus!
