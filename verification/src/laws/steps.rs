//! What the outputs' steps and calls come to, said of the values before and after the
//! call.
use crate::batched::{
    prepare_failed, BatchFlush, BatchedSink, FlushAction, FlushEvent, FlusherStep,
};
use crate::delivery::{
    dead_letter, finish_shutdown, Delivery, DeliveryAction, DeliveryEvent, DeliveryKind,
    ShutdownWrite,
};
use crate::error::{option_view, OutputError};
use crate::file::{render_failed, MetadataLedger, PathKey, PathSample, PathSet};
use crate::file_write::{FileAction, FileEvent, FileWrite};
use crate::flush_run::{FlushRun, RunEvent, RunStep};
use crate::kafka::{config_result, KafkaOutput};
use crate::laws::attempts::{
    law_delivery_counts_each_end_once, law_delivery_settles_as_reported,
    law_ltp_delivers_what_is_written, law_reconnect_delivers_what_is_written,
    law_shutdown_attempt_settles_as_reported, law_stream_delivers_what_is_written,
};
use crate::laws::batches::{
    law_flush_settles_as_reported, law_runs_send_what_is_prepared, law_runs_settle_every_event,
};
use crate::laws::console::{law_chunks_are_written_to_the_end, law_frames_are_written_to_the_end};
use crate::laws::datagrams::law_datagram_is_delivered_when_sent;
use crate::laws::files::law_file_writes_go_in_order;
use crate::laws::kafka::{law_client_is_told_the_properties, says};
use crate::laws::merging::{
    law_every_record_keeps_its_labels, resource_label, same_attribute, scope_label,
};
use crate::laws::reading::{lemma_mentions, mentions};
use crate::ltp::{
    event_frame, frame_result, stamp_departure, wire_nanos, working_event_meta, FramePrefix,
    HopStamp, WorkingEventMeta,
};
use crate::ltp_write::{LatencyTotals, LtpAction, LtpEvent, LtpWrite};
use crate::metrics::OutputMetrics;
use crate::otlp::buffer::{
    settle_flush, shutdown_step, BatchBuffer, FlushResult, ShutdownStep,
};
use crate::otlp::laws::batch_triples;
use crate::otlp::merge::{build_request, payload_views, BatchLevel};
use crate::otlp::model::{
    resource_logs_views, ExportLogsServiceRequest, KeyValueView, ResourceLogs, ResourceView,
    ScopeView,
};
use crate::otlp::ship::{Ship, ShipAction, ShipEvent};
use crate::otlp::single::{AfterWrite, OtlpOutput};
use crate::peer_rotation::{
    finish_write, law_selection_prefers_free_peers, lemma_distance, AttemptOutcome, PeerList,
    PeerSendError, RotatingPeers,
};
use crate::persistent_conn::{ReconnectAction, ReconnectEvent, ReconnectWrite};
use crate::props::{first_block, pairs_view, string_at, Property};
use crate::retry::RetryConfig;
use crate::stdout::{FrameAction, FrameEvent, FrameWrite};
use crate::stdout_windows::{ChunkAction, ChunkEvent, ChunkedWrite};
use crate::stream_attempt::{StreamAction, StreamAttempt, StreamEvent};
use crate::syslog_peers::Peer;
use crate::tls::{ClientTlsConfig, TlsProfiles};
use crate::udp_attempt::{UdpAction, UdpAttempt, UdpEvent};
use vstd::prelude::*;

verus! {

/// A step of an attempt over a stream says that the message is delivered exactly when
/// it is told that it was written, and that the attempt failed whenever it is told that
/// a connect, a handshake or a write failed or took too long.
pub proof fn law_stream_step(attempt: &mut StreamAttempt, event: StreamEvent, action: StreamAction)
    requires
        old(attempt)@.accepts(event@),
        call_ensures(StreamAttempt::step, (attempt, event), action),
    ensures
        action is Delivered <==> event is Written,
        event is ConnectFailed || event is ConnectTimedOut || event is HandshakeFailed
            || event is HandshakeTimedOut || event is WriteFailed || event is WriteTimedOut
            ==> action is Failed,
        final(attempt)@.phase is Finished <==> action is Delivered || action is Failed,
{
    law_stream_delivers_what_is_written(
        old(attempt)@,
        event,
        action,
        old(attempt)@.after(event@),
    );
}

/// A step of a delivery says that the event is delivered exactly when it is told so, and
/// after a failure with the budget not spent asks for the wait that the back-off has
/// come to, except for the standard output with part of a frame out or a shutdown under
/// way.
pub proof fn law_delivery_step(
    delivery: &mut Delivery,
    event: DeliveryEvent,
    metrics: &mut OutputMetrics,
    action: DeliveryAction,
)
    requires
        old(delivery)@.wf(),
        old(delivery)@.accepts(event@),
        call_ensures(Delivery::step, (delivery, event, metrics), action),
    ensures
        action is Deliver <==> event is Delivered,
        event matches DeliveryEvent::Failed { written, stopping, .. } ==> !(
        old(delivery)@.kind is Stdout) || written == 0 && !stopping ==> if old(delivery)@.attempt
            + 1 < old(delivery)@.retry.max_attempts {
            action matches DeliveryAction::Wait { nanos } && nanos == old(delivery)@.wait
                && final(delivery)@.phase is Waiting
        } else {
            action is DeadLetter && final(delivery)@.phase is Finished
        },
        event is WaitElapsed ==> action is Attempt && final(delivery)@.phase is Attempting,
        old(metrics).events_written < u64::MAX ==> final(metrics).events_written
            == old(metrics).events_written + if action is Deliver {
            1int
        } else {
            0
        },
        old(metrics).events_failed < u64::MAX ==> final(metrics).events_failed
            == old(metrics).events_failed + if action is DeadLetter {
            1int
        } else {
            0
        },
{
    law_delivery_settles_as_reported(
        old(delivery)@,
        event,
        action,
        old(delivery)@.after(event@),
    );
    law_delivery_counts_each_end_once(
        old(delivery)@,
        event,
        action,
        *old(metrics),
        old(delivery)@.counted(event@, *old(metrics)),
    );
}

/// A write through a cached connection is over as delivered exactly when it is told that
/// the frame was written.
pub proof fn law_reconnect_step(
    write: &mut ReconnectWrite,
    event: ReconnectEvent,
    metrics: &mut OutputMetrics,
    action: ReconnectAction,
)
    requires
        old(write)@.accepts(event@),
        call_ensures(ReconnectWrite::step, (write, event, metrics), action),
    ensures
        (action matches ReconnectAction::Done { outcome } && outcome is Delivered) <==> event
            is Written,
        event is ConnectFailed ==> (action matches ReconnectAction::Done { outcome } && outcome
            is Failed),
        event is WriteFailed && old(write)@.phase is WritingFresh ==> (
        action matches ReconnectAction::Done { outcome } && outcome is Failed),
        event is WriteFailed && old(write)@.phase is WritingCached ==> action is Connect,
        old(metrics).events_written < u64::MAX ==> final(metrics).events_written
            == old(metrics).events_written + if event is Written {
            1int
        } else {
            0
        },
{
    law_reconnect_delivers_what_is_written(
        old(write)@,
        event,
        action,
        old(write)@.after(event@),
    );
}

/// A step over LTP delivers exactly when it is told that the event was written, and
/// counts its bytes.
pub proof fn law_ltp_step(
    write: &mut LtpWrite,
    event: LtpEvent,
    metrics: &mut OutputMetrics,
    latencies: &mut LatencyTotals,
    action: LtpAction,
)
    requires
        old(write).accepts(event@),
        call_ensures(LtpWrite::step, (write, event, metrics, latencies), action),
    ensures
        action is Delivered <==> event is EventWritten,
        event is ConnectFailed || event is HelloFailed || event is EventFailed || event is TimedOut
            ==> action is Failed,
        final(write).kept <==> event is EventWritten,
        event matches LtpEvent::EventWritten { frame_len, .. } ==> old(metrics).bytes_written
            + frame_len <= u64::MAX ==> final(metrics).bytes_written == old(metrics).bytes_written
            + frame_len,
        !(event is EventWritten) ==> *final(metrics) == *old(metrics) && *final(latencies)
            == *old(latencies),
{
    law_ltp_delivers_what_is_written(*old(write), event, action, old(write).after(event@));
}

/// A step of an attempt to send a datagram delivers exactly when it is told that the
/// datagram was sent.
pub proof fn law_datagram_step(
    attempt: &mut UdpAttempt,
    event: UdpEvent,
    metrics: &mut OutputMetrics,
    action: UdpAction,
)
    requires
        old(attempt)@.wf(),
        old(attempt)@.accepts(event@),
        call_ensures(UdpAttempt::step, (attempt, event, metrics), action),
    ensures
        action is Delivered <==> event is Sent,
        event is LookupFailed || event is LookupTimedOut || event is SendFailed ==> action
            is Failed,
        event is BindFailed || event is ConnectFailed || event is ConnectTimedOut ==> action
            is Bind || action is Failed,
        event matches UdpEvent::Sent { bytes } ==> old(metrics).bytes_written + bytes <= u64::MAX
            ==> final(metrics).bytes_written == old(metrics).bytes_written + bytes,
{
    law_datagram_is_delivered_when_sent(
        old(attempt)@,
        event,
        action,
        old(attempt)@.after(event@),
    );
}

/// A step of a write to the standard output is done exactly when the whole frame is out.
pub proof fn law_frame_step(write: &mut FrameWrite, event: FrameEvent, action: FrameAction)
    requires
        old(write).wf(),
        old(write).accepts(event@),
        call_ensures(FrameWrite::step, (write, event), action),
    ensures
        action is Done ==> final(write).offset == old(write).len,
        event is WriteFailed || event is ReadinessFailed || event is SignalChanged ==> action
            is Fail,
        event matches FrameEvent::Wrote { count, .. } ==> final(write).offset == old(write).offset
            + count,
        !(event is Wrote) ==> final(write).offset == old(write).offset,
        action matches FrameAction::Write { from } ==> from == final(write).offset,
        action matches FrameAction::Fail { error } ==> error.written == final(write).offset,
{
    law_frames_are_written_to_the_end(*old(write), event, action, old(write).after(event@));
}

/// The same on Windows.
pub proof fn law_chunk_step(write: &mut ChunkedWrite, event: ChunkEvent, action: ChunkAction)
    requires
        old(write).wf(),
        old(write).accepts(event@),
        call_ensures(ChunkedWrite::step, (write, event), action),
    ensures
        action is Done ==> final(write).written == old(write).len,
        event is Failed ==> action is Fail,
        event matches ChunkEvent::Wrote { count, .. } ==> final(write).written
            == old(write).written + count,
        action matches ChunkAction::Write { from, to } ==> from == final(write).written && to - from
            <= 4096,
        action matches ChunkAction::Fail { error } ==> error.written == final(write).written,
{
    law_chunks_are_written_to_the_end(*old(write), event, action, old(write).after(event@));
}

/// A step of a write to a file is done only with the line out, and fails wherever
/// opening or writing did.
pub proof fn law_file_step(
    write: &mut FileWrite,
    event: FileEvent,
    ledger: &mut MetadataLedger,
    action: FileAction,
)
    requires
        old(write)@.accepts(event@),
        call_ensures(FileWrite::step, (write, event, ledger), action),
    ensures
        event is OpenFailed || event is WriteFailed <==> action is Fail,
        action is Write <==> event is Opened,
        event is Written ==> action is Done || action is SetMetadata,
        action is SetMetadata ==> event is Written,
        final(write)@.written <==> old(write)@.written || event is Written,
{
    law_file_writes_go_in_order(
        old(write)@,
        event,
        action,
        old(ledger)@,
        old(write)@.after(event@, old(ledger)@),
    );
}

/// A step of a flush is settled by the collector's answer exactly when the collector
/// took the batch.
pub proof fn law_flush_step(
    flush: &mut BatchFlush,
    event: FlushEvent,
    metrics: &mut OutputMetrics,
    action: FlushAction,
)
    requires
        old(flush).wf(),
        old(flush).accepts(event@),
        call_ensures(BatchFlush::step, (flush, event, metrics), action),
    ensures
        action is Resolve <==> event is Sent,
        event matches FlushEvent::SendFailed { stopping, .. } ==> if old(flush).attempt
            + 1 < old(flush).retry.max_attempts && !stopping {
            action matches FlushAction::Wait { nanos } && nanos == old(flush).wait
        } else {
            action is DeadLetter
        },
        event is SendCancelled ==> action is DeadLetter,
        event is WaitOver ==> action is Send,
{
    law_flush_settles_as_reported(*old(flush), event, action, old(flush).after(event@));
}

/// A step of a run ends it with every event delivered, or dead-lettered, in order.
pub proof fn law_run_step<E>(
    run: &mut FlushRun<E>,
    event: RunEvent,
    metrics: &mut OutputMetrics,
    step: RunStep<E>,
    i: int,
)
    requires
        old(run)@.wf(),
        old(run)@.accepts(event@),
        old(run)@.shippable.len() <= u64::MAX,
        call_ensures(FlushRun::<E>::step, (run, event, metrics), step),
    ensures
        step is Send <==> event is Prepared || event is WaitOver,
        step matches RunStep::Done { settled } ==> {
            &&& settled.delivered@.len() + settled.dead@.len() == old(run)@.shippable.len()
            &&& 0 <= i < settled.delivered@.len() ==> settled.delivered@[i]
                == old(run)@.shippable[i]
            &&& 0 <= i < settled.dead@.len() ==> settled.dead@[i].0
                == old(run)@.shippable[settled.delivered@.len() + i]
            &&& settled.delivered@.len() > 0 ==> event is Sent
            &&& event matches RunEvent::Sent { outcome } ==> outcome.rejected == 0
                ==> settled.dead@.len() == 0
        },
{
    law_runs_send_what_is_prepared(old(run)@, event, step, old(run)@.after(event@));
    law_runs_settle_every_event(old(run)@, event, step, i);
}

/// A step of an export is done exactly when a collector took it.
pub proof fn law_export_step(
    ship: &mut Ship,
    event: ShipEvent,
    peers: &mut RotatingPeers,
    action: ShipAction,
)
    requires
        old(peers).cooldowns().len() > 0,
        old(ship).wf(old(peers).cooldowns().len() as int),
        old(ship).accepts(event@),
        call_ensures(Ship::step, (ship, event, peers), action),
    ensures
        action is Done <==> event is Sent,
        event is Failed ==> if old(ship).attempt + 1 < old(ship).retry.max_attempts {
            action matches ShipAction::Wait { nanos } && nanos == old(ship).wait
        } else {
            action is GiveUp
        },
        event is WaitElapsed ==> action is Send,
{
}

/// An event that cannot be tried is given up, for the reason that is told, and counted
/// as failed.
pub proof fn law_untried_events_are_given_up(
    reason: String,
    error: &str,
    m: &mut OutputMetrics,
    n: &mut OutputMetrics,
    a: DeliveryAction,
    b: DeliveryAction,
)
    requires
        call_ensures(dead_letter, (reason, m), a),
        call_ensures(render_failed, (error, n), b),
    ensures
        a matches DeliveryAction::DeadLetter { reason: told } && told@ == reason@,
        b matches DeliveryAction::DeadLetter { reason: told } && mentions(told@, error@),
        old(m).events_failed < u64::MAX ==> final(m).events_failed == old(m).events_failed + 1,
        final(m).events_written == old(m).events_written,
        old(n).events_failed < u64::MAX ==> final(n).events_failed == old(n).events_failed + 1,
        final(n).events_written == old(n).events_written,
{
    let front = "render failed: "@;
    let none = Seq::<char>::empty();
    lemma_mentions(front, error@, none);
    assert(front + error@ + none =~= front + error@);
}

/// An event that was tried once during a shutdown is settled as delivered exactly if it
/// was.
pub proof fn law_shutdown_call(
    kind: DeliveryKind,
    result: ShutdownWrite,
    metrics: &mut OutputMetrics,
    action: DeliveryAction,
)
    requires
        call_ensures(finish_shutdown, (kind, result, metrics), action),
    ensures
        action is Deliver <==> result is Delivered,
        action is DeadLetter <==> !(result is Delivered),
        old(metrics).events_failed < u64::MAX ==> final(metrics).events_failed
            == old(metrics).events_failed + if result is Delivered {
            0int
        } else {
            1
        },
{
    law_shutdown_attempt_settles_as_reported(
        kind,
        result,
        action,
        *old(metrics),
        crate::delivery::shutdown_counted(result@, *old(metrics)),
    );
}

/// A time goes over the wire as it is.
pub proof fn law_wire_call(t: i64, n: u64)
    requires
        call_ensures(wire_nanos, (Some(t),), n),
    ensures
        t >= 0 ==> n == t,
        t < 0 ==> n == 0,
{
}

/// An event that has passed no node of this name yet is stamped with the time at which
/// it was received; its stamps so far and its key are kept.
pub proof fn law_received_events_are_stamped(
    node_id: &str,
    key: &[u8; 16],
    received: i64,
    prefix: &[HopStamp],
    w: WorkingEventMeta,
    i: int,
)
    requires
        received >= 0,
        prefix@.len() < usize::MAX,
        call_ensures(working_event_meta, (node_id, key, Some(received), prefix), w),
        prefix@.len() == 0 || prefix@.last().node_id@ != node_id@
            || prefix@.last().departure_unix_nano != 0,
    ensures
        w.meta_view().key == key@,
        w.meta_view().stamps.len() == prefix@.len() + 1,
        w.local() == prefix@.len(),
        w.meta_view().stamps[w.local()].node_id == node_id@,
        w.meta_view().stamps[w.local()].arrival == received,
        w.meta_view().stamps[w.local()].departure == 0,
        0 <= i < prefix@.len() ==> w.meta_view().stamps[i] == prefix@[i]@,
{
    crate::laws::ltp::law_fresh_stamps_arrive_when_received(
        prefix@,
        node_id@,
        Some(received),
        i,
    );
}

/// An attempt stamps the event with its own time, and nothing else of it changes; the
/// frame carries the metadata as they then stand, and the payload.
pub proof fn law_attempts_stamp_their_time(
    working: &mut WorkingEventMeta,
    again: &mut WorkingEventMeta,
    now: i64,
    prefix: FramePrefix,
    payload: &[u8],
    r: Result<Vec<u8>, OutputError>,
    i: int,
)
    requires
        now >= 0,
        old(working).wf(),
        old(again).wf(),
        call_ensures(stamp_departure, (working, Some(now)), ()),
        call_ensures(event_frame, (again, Some(now), prefix, payload), r),
        0 <= i < old(working).meta_view().stamps.len(),
    ensures
        final(working).meta_view().stamps[old(working).local()].departure == now,
        final(working).meta_view().stamps[old(working).local()].arrival
            == old(working).meta_view().stamps[old(working).local()].arrival,
        i != old(working).local() ==> final(working).meta_view().stamps[i]
            == old(working).meta_view().stamps[i],
        final(working).meta_view().key == old(working).meta_view().key,
        final(again).meta_view().stamps[old(again).local()].departure == now,
        r matches Ok(frame) ==> frame_result(
            prefix,
            crate::ltp_wire::encoded_meta(final(again).meta_view()),
            payload@,
        ) == Ok::<Seq<u8>, Seq<char>>(frame@),
{
}

/// A request sends every record under the names, versions, dropped counts and attributes
/// that it arrived under, whatever the level.
pub proof fn law_requests_keep_every_label<A>(
    decoded: Vec<ResourceLogs>,
    level: BatchLevel,
    request: ExportLogsServiceRequest,
    tag: spec_fn(KeyValueView) -> A,
)
    requires
        call_ensures(build_request, (decoded, level), request),
        forall|x: KeyValueView, y: KeyValueView| #[trigger]
            same_attribute(x, y) ==> tag(x) == tag(y),
    ensures
        ({
            let of_resource = |r: Option<ResourceView>| resource_label(r, tag);
            let of_scope = |s: Option<ScopeView>| scope_label(s, tag);
            batch_triples(request@, of_resource, of_scope) == batch_triples(
                resource_logs_views(decoded@),
                of_resource,
                of_scope,
            )
        }),
{
    law_every_record_keeps_its_labels(resource_logs_views(decoded@), level, tag);
}

/// A Kafka client is told the certificate, the key and the authority of the `tls` block,
/// each under its own name and once.
pub proof fn law_kafka_call_tells_the_client(
    name: &str,
    props: &[Property],
    defaults: RetryConfig,
    contents: Option<&str>,
    output: KafkaOutput,
)
    requires
        call_ensures(
            KafkaOutput::from_properties,
            (name, props, defaults, contents),
            Ok::<KafkaOutput, OutputError>(output),
        ),
    ensures
        says(
            pairs_view(output.client@),
            "bootstrap.servers"@,
            string_at(props@, "brokers"@),
        ),
        first_block(props@, "tls"@) matches Some(block) ==> {
            &&& says(
                pairs_view(output.client@),
                "ssl.certificate.location"@,
                string_at(block, "cert"@),
            )
            &&& says(pairs_view(output.client@), "ssl.key.location"@, string_at(block, "key"@))
            &&& says(pairs_view(output.client@), "ssl.ca.location"@, string_at(block, "ca"@))
        },
{
    assert(config_result(name@, props@, defaults, option_view(contents)) is Ok);
    law_client_is_told_the_properties(name@, props@, defaults, option_view(contents), output);
}

/// Events that are taken in come out together, in order, and once: the flusher is woken
/// when the batch is full, takes everything, and leaves all to a shutdown that has
/// begun.
pub proof fn law_sinks_give_events_back_in_order<E>(
    first: &mut BatchedSink<E>,
    second: &mut BatchedSink<E>,
    third: &mut BatchedSink<E>,
    event: E,
    wake: bool,
    batch: Vec<E>,
    step: FlusherStep<E>,
)
    requires
        call_ensures(BatchedSink::<E>::consume, (first, event), wake),
        call_ensures(BatchedSink::<E>::take, (second,), batch),
        call_ensures(BatchedSink::<E>::flusher_woke, (third,), step),
        *old(second) == *final(first),
        *old(third) == *final(first),
    ensures
        wake <==> old(first).waiting().len() + 1 >= old(first).batch_size(),
        batch@ == old(first).waiting().push(event),
        final(second).waiting().len() == 0,
        !old(first).stopping() ==> (step matches FlusherStep::Flush(all) && all@
            == old(first).waiting().push(event) && final(third).waiting().len() == 0),
        old(first).stopping() ==> step is End && final(third).waiting()
            == old(first).waiting().push(event),
{
}

/// A buffer gives its payloads back in order; a batch that could not be sent stands in
/// front of what arrived since, and one that was sent is gone.
pub proof fn law_buffers_lose_nothing(
    first: &mut BatchBuffer,
    second: &mut BatchBuffer,
    third: &mut BatchBuffer,
    payload: Vec<u8>,
    full: bool,
    drained: Vec<Vec<u8>>,
    result: FlushResult,
    metrics: &mut OutputMetrics,
)
    requires
        call_ensures(BatchBuffer::push, (first, payload), full),
        call_ensures(BatchBuffer::drain, (second,), drained),
        *old(second) == *final(first),
        call_ensures(settle_flush, (third, drained, result, metrics), ()),
    ensures
        full <==> old(first).items().len() + 1 >= old(first).batch_size(),
        payload_views(drained@) == old(first).items().push(payload@),
        final(second).items().len() == 0,
        result is Failed ==> final(third).items() == old(first).items().push(payload@)
            + old(third).items() && *final(metrics) == *old(metrics),
        result is Sent ==> final(third).items() == old(third).items(),
        result matches FlushResult::Sent(outcome) ==> drained@.len() <= u64::MAX
            && old(metrics).events_written + drained@.len() <= u64::MAX && outcome.rejected == 0
            ==> final(metrics).events_written == old(metrics).events_written + drained@.len(),
{
}

/// At shutdown nothing that is left is lost: it stays, or it goes where lost events go.
pub proof fn law_shutdowns_lose_nothing(
    buffer: &mut BatchBuffer,
    flushed: bool,
    has_error_log: bool,
    step: ShutdownStep,
)
    requires
        call_ensures(shutdown_step, (buffer, flushed, has_error_log), step),
    ensures
        step is Done <==> flushed,
        step is Fail <==> !flushed && !has_error_log,
        match step {
            ShutdownStep::WriteToErrorLog(lost) => payload_views(lost@) == old(buffer).items(),
            _ => final(buffer).items() == old(buffer).items(),
        },
{
}

/// A write to the output with one collector flushes exactly when the batch is full, and
/// starts a timer exactly when none runs; a flush counts its whole batch as written or
/// as failed.
pub proof fn law_single_output_flushes_when_full(
    first: &mut OtlpOutput,
    second: &mut OtlpOutput,
    third: &mut OtlpOutput,
    payload: Vec<u8>,
    timer_running: bool,
    next: AfterWrite,
    batch: Option<Vec<Vec<u8>>>,
    count: u64,
    delivered: bool,
)
    requires
        call_ensures(OtlpOutput::write, (first, payload, timer_running), next),
        call_ensures(OtlpOutput::begin_flush, (second,), batch),
        *old(second) == *final(first),
        call_ensures(OtlpOutput::finish_flush, (third, count, delivered), ()),
    ensures
        next is Flush <==> old(first).buffer.items().len() + 1 >= old(first).buffer.batch_size(),
        next is StartTimer ==> !timer_running,
        next is Wait ==> timer_running,
        batch matches Some(all) && payload_views(all@) == old(first).buffer.items().push(payload@),
        old(third).metrics.events_written + count <= u64::MAX
            ==> final(third).metrics.events_written == old(third).metrics.events_written
            + if delivered {
            count as int
        } else {
            0
        },
        old(third).metrics.events_failed + count <= u64::MAX ==> final(third).metrics.events_failed
            == old(third).metrics.events_failed + if delivered {
            0
        } else {
            count as int
        },
{
}

/// A batch that could not be put together is given up whole, for that reason.
pub proof fn law_unprepared_batches_are_given_up(
    count: u64,
    error: &str,
    metrics: &mut OutputMetrics,
    action: FlushAction,
)
    requires
        call_ensures(prepare_failed, (count, error, metrics), action),
    ensures
        action matches FlushAction::DeadLetter { reason } && mentions(reason@, error@),
        old(metrics).events_failed + count <= u64::MAX ==> final(metrics).events_failed
            == old(metrics).events_failed + count,
        final(metrics).retries == old(metrics).retries,
{
    let front = "flush failed: "@;
    let none = Seq::<char>::empty();
    lemma_mentions(front, error@, none);
    assert(front + error@ + none =~= front + error@);
}

/// A connection that is kept for a peer is the one that is taken out for it next, and
/// only once; no other peer is touched.
pub proof fn law_connections_are_kept_per_peer<C>(
    first: &mut PeerList<C>,
    second: &mut PeerList<C>,
    idx: usize,
    conn: C,
    taken: Option<C>,
    i: int,
)
    requires
        old(first).wf(),
        idx < old(first).peer_seq().len(),
        call_ensures(PeerList::<C>::store_conn, (first, idx, conn), ()),
        *old(second) == *final(first),
        call_ensures(PeerList::<C>::take_conn, (second, idx), taken),
        0 <= i < old(first).peer_seq().len(),
    ensures
        taken == Some(conn),
        final(second).states()[idx as int].conn is None,
        final(second).states()[idx as int].cooldown_until
            == old(first).states()[idx as int].cooldown_until,
        i != idx ==> final(second).states()[i] == old(first).states()[i],
{
}

/// Settling an attempt frees its peer after a delivery and cools it down for five
/// seconds after a failure, and touches no other.
pub proof fn law_settling_touches_one_peer<C>(
    list: &mut PeerList<C>,
    idx: usize,
    outcome: AttemptOutcome,
    i: int,
)
    requires
        old(list).wf(),
        idx < old(list).peer_seq().len(),
        outcome matches AttemptOutcome::Failed { at } ==> at + 5_000_000_000 <= u64::MAX,
        call_ensures(PeerList::<C>::settle, (list, idx, outcome), ()),
        0 <= i < old(list).peer_seq().len(),
    ensures
        outcome is Delivered ==> final(list).states()[idx as int].cooldown_until is None,
        outcome matches AttemptOutcome::Failed { at }
            ==> final(list).states()[idx as int].cooldown_until is Some
            && final(list).states()[idx as int].cooldown_until->0 == at + 5_000_000_000,
        final(list).states()[idx as int].conn == old(list).states()[idx as int].conn,
        i != idx ==> final(list).states()[i] == old(list).states()[i] && final(list).counters()[i]
            == old(list).counters()[i],
{
}

/// A collector that failed is cooling down for five seconds, one that took a request is
/// free, and selecting one changes neither.
pub proof fn law_collectors_cool_down(
    first: &mut RotatingPeers,
    second: &mut RotatingPeers,
    third: &mut RotatingPeers,
    idx: usize,
    at: u64,
    now: u64,
    picked: usize,
    i: int,
)
    requires
        idx < old(first).cooldowns().len(),
        at + 5_000_000_000 <= u64::MAX,
        call_ensures(RotatingPeers::mark_failure, (first, idx, at), ()),
        *old(second) == *final(first),
        call_ensures(RotatingPeers::mark_success, (second, idx), ()),
        old(third).cooldowns().len() > 0,
        call_ensures(RotatingPeers::select, (third, now), picked),
        0 <= i < old(first).cooldowns().len(),
    ensures
        final(first).cooldowns()[idx as int] is Some && final(first).cooldowns()[idx as int]->0
            == at + 5_000_000_000,
        final(second).cooldowns()[idx as int] is None,
        i != idx ==> final(second).cooldowns()[i] == old(first).cooldowns()[i],
        final(third).cooldowns() == old(third).cooldowns(),
        picked < old(third).cooldowns().len(),
{
}

/// A message is written, and counted as one, exactly if its round delivered it.
pub proof fn law_rounds_count_what_they_deliver(
    result: Result<(), PeerSendError>,
    metrics: &mut OutputMetrics,
    r: Result<(), OutputError>,
)
    requires
        call_ensures(finish_write, (result, metrics), r),
    ensures
        r is Ok <==> result is Ok,
        old(metrics).events_written < u64::MAX ==> final(metrics).events_written
            == old(metrics).events_written + if result is Ok {
            1int
        } else {
            0
        },
        final(metrics).events_failed == old(metrics).events_failed,
{
}

/// A path that was put into a set is in it, one that was taken out is not, and nothing
/// else moves.
pub proof fn law_path_sets_remember(
    first: &mut PathSet,
    second: &mut PathSet,
    key: PathKey,
    other: PathKey,
    a: bool,
    b: bool,
    c: bool,
)
    requires
        call_ensures(PathSet::insert, (first, key), ()),
        call_ensures(PathSet::contains, (final(first), &other), a),
        *old(second) == *final(first),
        call_ensures(PathSet::remove, (second, &key), ()),
        call_ensures(PathSet::contains, (final(second), &other), b),
        call_ensures(PathSet::contains, (old(first), &other), c),
    ensures
        other@ == key@ ==> a && !b,
        other@ != key@ ==> a == c && b == c,
{
}

/// A profile that was defined last is the one that is found under its name, and the
/// others stay.
pub proof fn law_last_profile_counts(
    profiles: &mut TlsProfiles,
    key: String,
    config: ClientTlsConfig,
    name: &str,
    before: Option<ClientTlsConfig>,
    after: Option<ClientTlsConfig>,
)
    requires
        call_ensures(TlsProfiles::lookup, (old(profiles), name), before),
        call_ensures(TlsProfiles::insert, (profiles, key, config), ()),
        call_ensures(TlsProfiles::lookup, (final(profiles), name), after),
    ensures
        name@ == key@ ==> (after matches Some(found) && found@ == config@),
        name@ != key@ ==> option_view(after) == option_view(before),
{
}

/// What a path is owed is remembered: a new file that was opened is owed its metadata
/// until they are set, and from then on it is not.
pub proof fn law_ledgers_remember_what_is_owed(
    first: &mut MetadataLedger,
    second: &mut MetadataLedger,
    path: &str,
    before: PathSample,
    apply: bool,
    between: PathSample,
    after: PathSample,
    there: bool,
)
    requires
        call_ensures(MetadataLedger::sample, (old(first), path, false), before),
        call_ensures(MetadataLedger::opened, (first, path, before), apply),
        call_ensures(MetadataLedger::sample, (final(first), path, there), between),
        *old(second) == *final(first),
        call_ensures(MetadataLedger::settled, (second, path), ()),
        call_ensures(MetadataLedger::sample, (final(second), path, there), after),
    ensures
        apply <==> !before.applied,
        apply ==> between.owes && !between.applied,
        between.preexisted == there && after.preexisted == there,
        after.applied && !after.owes,
{
}

/// A new list holds the peers that were given, each without a connection, free, and
/// with nothing counted; so does a new set of collectors.
pub proof fn law_new_lists_are_fresh<C>(
    peers: Vec<Peer>,
    list: PeerList<C>,
    len: usize,
    set: RotatingPeers,
    i: int,
)
    requires
        call_ensures(PeerList::<C>::new, (peers,), list),
        call_ensures(RotatingPeers::new, (len,), set),
    ensures
        list.peer_seq() == peers@,
        list.cursor() == 0,
        0 <= i < peers@.len() ==> {
            &&& list.states()[i].conn is None
            &&& list.states()[i].cooldown_until is None
            &&& list.counters()[i].events_written == 0
            &&& list.counters()[i].connect_failures == 0
            &&& list.counters()[i].cooldowns_entered == 0
        },
        set.cursor() == 0,
        set.cooldowns().len() == len,
        0 <= i < len ==> set.cooldowns()[i] is None,
{
}

/// Where every collector is free, each request goes to the one behind the last, and
/// from the end back to the front.
pub proof fn law_collectors_take_turns(
    first: &mut RotatingPeers,
    second: &mut RotatingPeers,
    now: u64,
    later: u64,
    a: usize,
    b: usize,
)
    requires
        old(first).cooldowns().len() > 0,
        forall|i: int|
            0 <= i < old(first).cooldowns().len() ==> #[trigger] old(first).cooldowns()[i] is None,
        old(first).cursor() < usize::MAX,
        call_ensures(RotatingPeers::select, (first, now), a),
        *old(second) == *final(first),
        call_ensures(RotatingPeers::select, (second, later), b),
    ensures
        a + 1 < old(first).cooldowns().len() ==> b == a + 1,
        a + 1 == old(first).cooldowns().len() ==> b == 0,
{
    let cooldowns = old(first).cooldowns();
    let n = cooldowns.len() as int;
    let c = old(first).cursor() as int;
    let q = c / n;
    vstd::arithmetic::div_mod::lemma_fundamental_div_mod(c, n);
    vstd::arithmetic::div_mod::lemma_mod_bound(c, n);
    vstd::arithmetic::div_mod::lemma_mod_bound(c + 1, n);
    let start = c % n;
    if start + 1 < n {
        assert(n * q == q * n) by (nonlinear_arith);
        vstd::arithmetic::div_mod::lemma_fundamental_div_mod_converse(c + 1, n, q, start + 1);
    } else {
        assert(n * q + n == (q + 1) * n) by (nonlinear_arith);
        vstd::arithmetic::div_mod::lemma_fundamental_div_mod_converse(c + 1, n, q + 1, 0);
    }
    let next = (c + 1) % n;
    law_selection_prefers_free_peers(cooldowns, now, start, start);
    law_selection_prefers_free_peers(cooldowns, later, next, next);
    lemma_distance(start, start, n);
    lemma_distance(next, next, n);
    lemma_distance(start, a as int, n);
    lemma_distance(next, b as int, n);
}

} // verus!
