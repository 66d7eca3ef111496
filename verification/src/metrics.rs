//! Counters of one output.
use vstd::prelude::*;

verus! {

/// What an output counts. The counters wrap round; `in_retry` is a gauge that is
/// 1 while the output waits between two attempts.
#[derive(Debug, Clone, Copy, PartialEq, Eq, Structural)]
pub struct OutputMetrics {
    pub events_written: u64,
    pub events_failed: u64,
    pub retries: u64,
    pub bytes_written: u64,
    pub in_retry: u64,
}

impl OutputMetrics {
    pub open spec fn zero() -> OutputMetrics {
        OutputMetrics {
            events_written: 0,
            events_failed: 0,
            retries: 0,
            bytes_written: 0,
            in_retry: 0,
        }
    }

    /// All counters at zero.
    pub fn new() -> (m: OutputMetrics)
        ensures
            m == OutputMetrics::zero(),
    {
        OutputMetrics {
            events_written: 0,
            events_failed: 0,
            retries: 0,
            bytes_written: 0,
            in_retry: 0,
        }
    }

    /// With `n` more events written.
    pub open spec fn written(self, n: u64) -> OutputMetrics {
        OutputMetrics { events_written: self.events_written.wrapping_add(n), ..self }
    }

    /// With `n` more events failed.
    pub open spec fn failed(self, n: u64) -> OutputMetrics {
        OutputMetrics { events_failed: self.events_failed.wrapping_add(n), ..self }
    }

    /// With one more retry.
    pub open spec fn retried(self) -> OutputMetrics {
        OutputMetrics { retries: self.retries.wrapping_add(1), ..self }
    }

    /// With `n` more bytes written.
    pub open spec fn wrote_bytes(self, n: u64) -> OutputMetrics {
        OutputMetrics { bytes_written: self.bytes_written.wrapping_add(n), ..self }
    }

    /// With the gauge set.
    pub open spec fn waiting(self, on: bool) -> OutputMetrics {
        OutputMetrics {
            in_retry: if on {
                1
            } else {
                0
            },
            ..self
        }
    }

    pub fn add_written(&mut self, n: u64)
        ensures
            *final(self) == old(self).written(n),
    {
        self.events_written = self.events_written.wrapping_add(n);
    }

    pub fn add_failed(&mut self, n: u64)
        ensures
            *final(self) == old(self).failed(n),
    {
        self.events_failed = self.events_failed.wrapping_add(n);
    }

    pub fn add_retry(&mut self)
        ensures
            *final(self) == old(self).retried(),
    {
        self.retries = self.retries.wrapping_add(1);
    }

    pub fn add_bytes(&mut self, n: u64)
        ensures
            *final(self) == old(self).wrote_bytes(n),
    {
        self.bytes_written = self.bytes_written.wrapping_add(n);
    }

    pub fn set_in_retry(&mut self, on: bool)
        ensures
            *final(self) == old(self).waiting(on),
    {
        self.in_retry = if on {
            1
        } else {
            0
        };
    }
}

} // verus!
