use vstd::prelude::*;

verus! {

/// How long to wait between two tries of a failed outside call, in
/// milliseconds.
pub const RETRY_INTERVAL_MILLIS: u64 = 2000;

/// How often a handler tries to reach one committer peer before
/// giving the request up.
pub const COMMITTER_RETRY_MAX_ATTEMPTS: usize = 3;

/// The one retry policy of the node: a fixed interval between tries,
/// bounded for point calls such as the committer RPC, unbounded for
/// the listeners' endless loops. The shell sleeps and counts; this
/// type decides.
#[derive(Clone, Copy, Debug, PartialEq, Eq, Structural)]
pub struct FixedIntervalRetry {
    pub interval_millis: u64,
    pub max_attempts: Option<usize>,
}

impl FixedIntervalRetry {
    /// An unbounded policy, as the listeners use: retry forever.
    pub fn from_millis(interval_millis: u64) -> (r: FixedIntervalRetry)
        ensures
            r.interval_millis == interval_millis,
            r.max_attempts is None,
    {
        FixedIntervalRetry { interval_millis, max_attempts: None }
    }

    /// The same policy cut off after `n` tries, as the committer
    /// client uses.
    pub fn take(self, n: usize) -> (r: FixedIntervalRetry)
        ensures
            r.interval_millis == self.interval_millis,
            r.max_attempts == Some(n),
    {
        FixedIntervalRetry { interval_millis: self.interval_millis, max_attempts: Some(n) }
    }

    /// A failed try is always followed by a wait of exactly the
    /// configured interval, never more, never less.
    pub fn next_delay_millis(&self) -> (r: u64)
        ensures
            r == self.interval_millis,
    {
        self.interval_millis
    }

    /// Whether one more try is due after `attempts_made` tries: an
    /// unbounded policy never stops; a bounded one stops exactly at
    /// its limit, so a transient failure never silently skips a try
    /// that is still owed.
    pub fn should_attempt(&self, attempts_made: usize) -> (r: bool)
        ensures
            r == match self.max_attempts {
                Option::None => true,
                Option::Some(m) => attempts_made < m,
            },
    {
        match self.max_attempts {
            Option::None => true,
            Option::Some(m) => attempts_made < m,
        }
    }
}

} // verus!
