//! The buffer in front of a batched export.
use crate::metrics::OutputMetrics;
use crate::otlp::merge::payload_views;
use vstd::prelude::*;

verus! {

/// What a collector answered to an export that reached it.
#[derive(Debug, Clone, Copy, PartialEq, Eq, Structural)]
pub struct SendOutcome {
    /// The number of records that it refused.
    pub rejected: u64,
}

/// How many events of a batch count as failed.
pub open spec fn failed_of(count: u64, rejected: u64) -> u64 {
    if rejected <= count {
        rejected
    } else {
        count
    }
}

/// The counters after a batch of `count` events was sent.
pub open spec fn sent_counted(m: OutputMetrics, count: u64, rejected: u64) -> OutputMetrics {
    m.written((count - failed_of(count, rejected)) as u64).failed(failed_of(count, rejected))
}

/// Counts a batch that was sent: what the collector refused has failed, the rest is
/// written.
pub fn count_sent(metrics: &mut OutputMetrics, count: u64, outcome: SendOutcome)
    ensures
        *final(metrics) == sent_counted(*old(metrics), count, outcome.rejected),
{
    let failed: u64 = if outcome.rejected <= count {
        outcome.rejected
    } else {
        count
    };
    metrics.add_written(count - failed);
    metrics.add_failed(failed);
}

/// Events waiting to be sent together.
#[derive(Debug)]
pub struct BatchBuffer {
    items: Vec<Vec<u8>>,
    batch_size: u64,
}

impl BatchBuffer {
    /// The waiting payloads, oldest first.
    pub closed spec fn items(&self) -> Seq<Seq<u8>> {
        payload_views(self.items@)
    }

    /// The number of payloads that make a batch full.
    pub closed spec fn batch_size(&self) -> u64 {
        self.batch_size
    }

    /// An empty buffer.
    pub fn new(batch_size: u64) -> (b: BatchBuffer)
        ensures
            b.items() == Seq::<Seq<u8>>::empty(),
            b.batch_size() == batch_size,
    {
        let b = BatchBuffer { items: Vec::new(), batch_size };
        assert(payload_views(b.items@) =~= Seq::empty());
        b
    }

    /// The number of waiting payloads.
    pub fn len(&self) -> (n: usize)
        ensures
            n == self.items().len(),
    {
        self.items.len()
    }

    /// Adds a payload and says whether the batch is full.
    pub fn push(&mut self, payload: Vec<u8>) -> (full: bool)
        ensures
            final(self).items() == old(self).items().push(payload@),
            final(self).batch_size() == old(self).batch_size(),
            full == (final(self).items().len() >= old(self).batch_size()),
    {
        self.items.push(payload);
        assert(payload_views(self.items@) =~= payload_views(old(self).items@).push(payload@));
        self.items.len() as u64 >= self.batch_size
    }

    /// Takes everything out.
    pub fn drain(&mut self) -> (drained: Vec<Vec<u8>>)
        ensures
            payload_views(drained@) == old(self).items(),
            final(self).items() == Seq::<Seq<u8>>::empty(),
            final(self).batch_size() == old(self).batch_size(),
    {
        let mut drained: Vec<Vec<u8>> = Vec::new();
        drained.append(&mut self.items);
        assert(payload_views(drained@) =~= old(self).items());
        assert(payload_views(self.items@) =~= Seq::empty());
        drained
    }

    /// Puts a batch that could not be sent back in front of what has arrived since.
    pub fn restore(&mut self, drained: Vec<Vec<u8>>)
        ensures
            final(self).items() == payload_views(drained@) + old(self).items(),
            final(self).batch_size() == old(self).batch_size(),
    {
        let mut all = drained;
        all.append(&mut self.items);
        assert(payload_views(all@) =~= payload_views(drained@) + old(self).items());
        self.items = all;
    }
}

/// What became of a flush.
#[derive(Debug)]
pub enum FlushResult {
    Sent(SendOutcome),
    Failed,
}

/// Settles a flush of a batch that was taken out of the buffer. A batch that was
/// sent is counted; one that was not goes back into the buffer and counts as
/// neither written nor failed.
pub fn settle_flush(
    buffer: &mut BatchBuffer,
    drained: Vec<Vec<u8>>,
    result: FlushResult,
    metrics: &mut OutputMetrics,
)
    ensures
        final(buffer).batch_size() == old(buffer).batch_size(),
        match result {
            FlushResult::Sent(outcome) => {
                &&& final(buffer).items() == old(buffer).items()
                &&& *final(metrics) == sent_counted(
                    *old(metrics),
                    drained@.len() as u64,
                    outcome.rejected,
                )
            },
            FlushResult::Failed => {
                &&& final(buffer).items() == payload_views(drained@) + old(buffer).items()
                &&& *final(metrics) == *old(metrics)
            },
        },
{
    match result {
        FlushResult::Sent(outcome) => {
            count_sent(metrics, drained.len() as u64, outcome);
        },
        FlushResult::Failed => {
            buffer.restore(drained);
        },
    }
}

/// What is done with the buffer at shutdown, once the last flush is over: where it
/// failed and there is a log for lost events, the buffer goes there and the
/// shutdown succeeds; otherwise the result of the flush stands and the buffer stays.
#[derive(Debug)]
pub enum ShutdownStep {
    Done,
    WriteToErrorLog(Vec<Vec<u8>>),
    Fail,
}

/// Decides what is done with the buffer at shutdown.
pub fn shutdown_step(buffer: &mut BatchBuffer, flushed: bool, has_error_log: bool) -> (step:
    ShutdownStep)
    ensures
        final(buffer).batch_size() == old(buffer).batch_size(),
        flushed ==> step is Done && final(buffer).items() == old(buffer).items(),
        !flushed && has_error_log ==> (step matches ShutdownStep::WriteToErrorLog(lost)
            && payload_views(lost@) == old(buffer).items() && final(buffer).items() == Seq::<
            Seq<u8>,
        >::empty()),
        !flushed && !has_error_log ==> step is Fail && final(buffer).items() == old(
            buffer,
        ).items(),
{
    if flushed {
        ShutdownStep::Done
    } else if has_error_log {
        ShutdownStep::WriteToErrorLog(buffer.drain())
    } else {
        ShutdownStep::Fail
    }
}

/// Every event of a sent batch counts exactly once, as written or as failed,
/// whatever the collector reports: what it refused has failed, but never more than
/// was sent. Counters that would pass their limit wrap round and are left out.
pub proof fn law_sent_batch_counts_every_event_once(m: OutputMetrics, count: u64, rejected: u64)
    requires
        m.events_written + count <= u64::MAX,
        m.events_failed + count <= u64::MAX,
    ensures
        ({
            let after = sent_counted(m, count, rejected);
            &&& after.events_written + after.events_failed == m.events_written + m.events_failed
                + count
            &&& after.events_failed - m.events_failed == if rejected <= count {
                rejected
            } else {
                count
            }
            &&& after.retries == m.retries && after.bytes_written == m.bytes_written
                && after.in_retry == m.in_retry
        }),
{
}

} // verus!
