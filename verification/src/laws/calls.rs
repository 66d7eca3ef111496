//! What calls of the outputs' functions return, said of their arguments.
use crate::error::OutputError;
use crate::file::{check_resolved, file_line, open_error, FileOutput, MetadataSteps};
use crate::file_path::climbs;
use crate::file_windows::is_plain_file;
use crate::kafka::{security_protocol, KafkaOutput};
use crate::laws::reading::{lemma_mentions, mentions};
use crate::ltp::{check_payload, event_meta, intra_latency, LtpMeta, WorkingEventMeta};
use crate::ltp_config::pin_accepts;
use crate::metrics::OutputMetrics;
use crate::otlp::config::OtlpPeer;
use crate::otlp::grpc::{metadata_key, needs_tls};
use crate::otlp::http::{combined_pem, status_error, status_is_success, HttpProtocol};
use crate::otlp::single::{OtlpSettings, Protocol};
use crate::props::{string_at, Property};
use crate::retry::{retry_result, RetryConfig};
use crate::stdout::{plan_flags, FlagPlan, StdoutOutput};
use crate::text::decimal;
use crate::udp::UdpOutput;
use vstd::prelude::*;

verus! {

/// A server is the pinned one exactly if it presents the expected key, byte for byte,
/// and no certificate behind it.
pub proof fn law_pinned_keys_match_byte_for_byte(
    expected: &[u8],
    presented: &[u8],
    intermediates: usize,
    r: bool,
)
    requires
        call_ensures(pin_accepts, (expected, presented, intermediates), r),
    ensures
        r ==> intermediates == 0 && presented@.len() == expected@.len(),
        r ==> forall|i: int| 0 <= i < expected@.len() ==> presented@[i] == expected@[i],
        !r && intermediates == 0 && presented@.len() == expected@.len() ==> exists|i: int|
            0 <= i < expected@.len() && #[trigger] presented@[i] != expected@[i],
{
    if !r && intermediates == 0 && presented@.len() == expected@.len() && (forall|i: int|
        0 <= i < expected@.len() ==> #[trigger] presented@[i] == expected@[i]) {
        assert(presented@ =~= expected@);
    }
}

/// A payload is taken up to the limit and at it, and refused beyond it.
pub proof fn law_payloads_up_to_the_limit(len: usize, limit: usize, r: Result<(), OutputError>)
    requires
        call_ensures(check_payload, (len, limit), r),
    ensures
        len <= limit ==> r is Ok,
        len > limit ==> r is Err,
{
}

/// The time that an event spent in this node and its arrival make up its departure,
/// unless the clock went backwards; then it is zero.
pub proof fn law_latency_and_arrival_make_the_departure(working: WorkingEventMeta, nanos: u64)
    requires
        working.wf(),
        call_ensures(intra_latency, (&working,), nanos),
    ensures
        ({
            let stamp = working.meta_view().stamps[working.local()];
            &&& stamp.departure >= stamp.arrival ==> stamp.arrival + nanos == stamp.departure
            &&& stamp.departure < stamp.arrival ==> nanos == 0
        }),
{
}

/// An event of this node's own carries its key and one stamp, with the name and both
/// times as they were given.
pub proof fn law_own_events_carry_one_stamp(
    node_id: &str,
    key: &[u8; 16],
    arrival: u64,
    departure: u64,
    meta: LtpMeta,
)
    requires
        call_ensures(event_meta, (node_id, key, arrival, departure), meta),
    ensures
        meta.key@ == key@,
        meta.stamps@.len() == 1,
        meta.stamps@[0].node_id@ == node_id@,
        meta.stamps@[0].arrival_unix_nano == arrival,
        meta.stamps@[0].departure_unix_nano == departure,
{
    let views = crate::ltp::stamp_views(meta.stamps@);
    assert(meta@.stamps == views);
    assert(views.len() == meta.stamps@.len());
    assert(views[0] == meta.stamps@[0]@);
}

/// How a Kafka connection is protected is told where it is protected at all, and in
/// four different ways.
pub proof fn law_protection_tells_tls_and_user(
    has_tls: bool,
    has_sasl: bool,
    other_tls: bool,
    other_sasl: bool,
    r: Option<&'static str>,
    s: Option<&'static str>,
)
    requires
        call_ensures(security_protocol, (has_tls, has_sasl), r),
        call_ensures(security_protocol, (other_tls, other_sasl), s),
    ensures
        r is None <==> !has_tls && !has_sasl,
        r matches Some(a) ==> s matches Some(b) ==> (a@ == b@ <==> has_tls == other_tls && has_sasl
            == other_sasl),
        r matches Some(a) ==> (has_tls <==> a@ == "ssl"@ || a@ == "sasl_ssl"@),
{
    reveal_strlit("sasl_ssl");
    reveal_strlit("ssl");
    reveal_strlit("sasl_plaintext");
    assert("sasl_ssl"@.len() == 8 && "ssl"@.len() == 3 && "sasl_plaintext"@.len() == 14);
}

/// A channel is set up with TLS where the endpoint asks for it, and wherever there are
/// TLS settings: none is ever ignored.
pub proof fn law_channels_with_settings_use_tls(
    peer: OtlpPeer,
    settings: OtlpSettings,
    r: bool,
    s: bool,
)
    requires
        call_ensures(needs_tls, (&peer,), r),
        call_ensures(crate::otlp::single::needs_tls, (&settings,), s),
    ensures
        peer.tls is Some ==> r,
        settings.ca_path is Some ==> s,
        "https://"@.is_prefix_of(peer.endpoint@) ==> r,
        "https://"@.is_prefix_of(settings.endpoint@) ==> s,
        r ==> peer.tls is Some || "https://"@.is_prefix_of(peer.endpoint@),
        s ==> settings.ca_path is Some || "https://"@.is_prefix_of(settings.endpoint@),
{
}

/// A header goes under its own name with the capital letters made small, and nothing
/// else changed.
pub proof fn law_header_names_in_small_letters(header: &str, key: String, i: int)
    requires
        call_ensures(metadata_key, (header,), key),
        0 <= i < header@.len(),
    ensures
        key@.len() == header@.len(),
        'A' <= header@[i] <= 'Z' ==> key@[i] as u32 == header@[i] as u32 + 32,
        !('A' <= header@[i] <= 'Z') ==> key@[i] == header@[i],
{
    crate::laws::reading::law_lower_case_changes_capitals_only(header@, i);
}

/// A certificate and its key in one text: the certificate in front, the key behind, each
/// on lines of its own, with nothing but at most one line feed between them.
pub proof fn law_certificate_comes_before_the_key(cert: &[u8], key: &[u8], pem: Vec<u8>)
    requires
        call_ensures(combined_pem, (cert, key), pem),
    ensures
        ({
            let between = pem@.len() - cert@.len() - key@.len();
            &&& between == 0 || between == 1
            &&& pem@.take(cert@.len() as int) == cert@
            &&& pem@.skip(cert@.len() + between) == key@
            &&& cert@.len() + between > 0 && pem@[cert@.len() + between - 1] == 10
            &&& between == 0 <==> cert@.len() > 0 && cert@.last() == 10
        }),
{
    let between = pem@.len() - cert@.len() - key@.len();
    assert(pem@.take(cert@.len() as int) =~= cert@);
    assert(pem@.skip(cert@.len() + between) =~= key@);
}

/// A success is a status from 200 to 299.
pub proof fn law_successes_are_two_hundreds(status: u16, r: bool)
    requires
        call_ensures(status_is_success, (status,), r),
    ensures
        r <==> status / 100 == 2,
{
}

/// The error about an answer tells the endpoint, the status and what was answered.
pub proof fn law_status_errors_tell_the_answer(
    endpoint: &str,
    status: u16,
    text: &str,
    e: OutputError,
    f: OutputError,
)
    requires
        call_ensures(status_error, (endpoint, status, text), e),
        call_ensures(crate::otlp::single::status_error, (endpoint, status, text), f),
    ensures
        mentions(e@, endpoint@) && mentions(f@, endpoint@),
        mentions(e@, decimal(status as nat)) && mentions(f@, decimal(status as nat)),
        mentions(e@, text@),
        mentions(f@, crate::otlp::single::snippet(text@)),
{
    lemma_status_text("output otlp_http: "@, endpoint@, decimal(status as nat), text@);
    lemma_status_text(
        "output otlp: "@,
        endpoint@,
        decimal(status as nat),
        crate::otlp::single::snippet(text@),
    );
}

proof fn lemma_status_text(
    front: Seq<char>,
    endpoint: Seq<char>,
    status: Seq<char>,
    text: Seq<char>,
)
    ensures
        ({
            let whole = front + endpoint + " returned HTTP "@ + status + " — "@ + text;
            &&& mentions(whole, endpoint)
            &&& mentions(whole, status)
            &&& mentions(whole, text)
        }),
{
    let a = " returned HTTP "@;
    let b = " — "@;
    let whole = front + endpoint + a + status + b + text;
    lemma_mentions(front, endpoint, a + status + b + text);
    assert(front + endpoint + (a + status + b + text) =~= whole);
    lemma_mentions(front + endpoint + a, status, b + text);
    assert(front + endpoint + a + status + (b + text) =~= whole);
    lemma_mentions(front + endpoint + a + status + b, text, Seq::empty());
    assert(front + endpoint + a + status + b + text + Seq::<char>::empty() =~= whole);
}

/// A request names the encoding of its protocol, and the two are told apart; gRPC names
/// its own.
pub proof fn law_content_types_by_protocol(
    json: &'static str,
    protobuf: &'static str,
    p: Protocol,
    r: Option<&'static str>,
)
    requires
        call_ensures(HttpProtocol::content_type, (HttpProtocol::Json,), json),
        call_ensures(HttpProtocol::content_type, (HttpProtocol::Protobuf,), protobuf),
        call_ensures(Protocol::content_type, (p,), r),
    ensures
        mentions(json@, "json"@) && mentions(protobuf@, "protobuf"@),
        json@ != protobuf@,
        r is None <==> p is Grpc,
        p is HttpJson ==> r->0@ == json@,
        p is HttpProtobuf ==> r->0@ == protobuf@,
{
    reveal_strlit("application/json");
    reveal_strlit("application/x-protobuf");
    reveal_strlit("application/");
    reveal_strlit("application/x-");
    reveal_strlit("json");
    reveal_strlit("protobuf");
    let none = Seq::<char>::empty();
    lemma_mentions("application/"@, "json"@, none);
    assert("application/"@ + "json"@ + none =~= "application/json"@);
    lemma_mentions("application/x-"@, "protobuf"@, none);
    assert("application/x-"@ + "protobuf"@ + none =~= "application/x-protobuf"@);
    assert("application/json"@.len() == 16 && "application/x-protobuf"@.len() == 22);
}

/// A line is the payload and one line feed.
pub proof fn law_lines_end_with_a_line_feed(payload: &[u8], line: Vec<u8>, i: int)
    requires
        call_ensures(file_line, (payload,), line),
    ensures
        line@.len() == payload@.len() + 1,
        0 <= i < payload@.len() ==> line@[i] == payload@[i],
        line@.last() == 10,
{
}

/// A path with a piece `..` is refused by name, and no other path is; a link is refused
/// by its path, and any other error on opening is handed on.
pub proof fn law_paths_are_refused_by_name(
    path: &str,
    r: Result<(), OutputError>,
    is_symlink: bool,
    error: &str,
    e: OutputError,
)
    requires
        call_ensures(check_resolved, (path,), r),
        call_ensures(open_error, (path, is_symlink, error), e),
    ensures
        r is Err <==> climbs(path@),
        r matches Err(x) ==> mentions(x@, path@),
        is_symlink ==> mentions(e@, path@),
        !is_symlink ==> e@ == error@,
{
    let none = Seq::<char>::empty();
    let a = "path traversal rejected: "@;
    let b = "refusing to follow symlink at output path: "@;
    lemma_mentions(a, path@, none);
    assert(a + path@ + none =~= a + path@);
    lemma_mentions(b, path@, none);
    assert(b + path@ + none =~= b + path@);
}

/// What is set on a new file: the mode that is configured, and the owner and the group
/// that were found for those that are, one standing for itself and never for the other.
pub proof fn law_new_files_get_what_is_configured(
    output: FileOutput,
    uid: Option<u32>,
    gid: Option<u32>,
    steps: MetadataSteps,
    wants: bool,
)
    requires
        call_ensures(FileOutput::metadata_steps, (&output, uid, gid), steps),
        call_ensures(FileOutput::wants_metadata, (&output,), wants),
    ensures
        steps.chmod == output.mode,
        steps.chown is Some <==> (output.owner is Some || output.group is Some) && (uid is Some
            || gid is Some),
        steps.chown matches Some((u, g)) ==> {
            &&& uid matches Some(id) ==> u == id
            &&& uid is None ==> u == u32::MAX
            &&& gid matches Some(id) ==> g == id
            &&& gid is None ==> g == u32::MAX
        },
        !wants ==> steps.chmod is None && steps.chown is None,
        output.mode is Some ==> wants,
{
}

/// On Windows only a regular file that is no reparse point is written to.
pub proof fn law_only_plain_files_are_written(is_file: bool, attributes: u32, r: bool)
    requires
        call_ensures(is_plain_file, (is_file, attributes), r),
    ensures
        r <==> is_file && attributes & 1024 == 0,
{
}

/// The standard output is made not to block where it does, and can be set back to how it
/// was; where it does not block already nothing is changed.
pub proof fn law_flags_are_set_and_restored(flags: i32, nonblocking: i32, plan: FlagPlan)
    requires
        call_ensures(plan_flags, (flags, nonblocking), plan),
    ensures
        plan.set is Some <==> flags & nonblocking == 0,
        plan.restore is Some <==> plan.set is Some,
        plan.set matches Some(new) ==> new == flags | nonblocking,
        plan.restore matches Some(before) ==> before == flags,
{
}

/// A Kafka message is keyed by where its event came from exactly if that is configured.
pub proof fn law_keys_are_the_source(output: KafkaOutput, source: &str, key: Option<String>)
    requires
        call_ensures(KafkaOutput::resolve_key, (&output, source), key),
    ensures
        key is Some <==> output.key_field is Some,
        key matches Some(k) ==> k@ == source@,
{
}

/// Counters begin at zero.
pub proof fn law_counters_begin_at_zero(m: OutputMetrics)
    requires
        call_ensures(OutputMetrics::new, (), m),
    ensures
        m.events_written == 0 && m.events_failed == 0 && m.retries == 0,
        m.bytes_written == 0 && m.in_retry == 0,
{
}

/// The outputs over UDP and to the standard output are made exactly if their settings
/// are there, and have them.
pub proof fn law_simple_outputs_are_what_is_configured(
    name: &str,
    props: &[Property],
    defaults: RetryConfig,
    udp: Result<UdpOutput, OutputError>,
    stdout: Result<StdoutOutput, OutputError>,
)
    requires
        call_ensures(UdpOutput::from_properties, (name, props), udp),
        call_ensures(StdoutOutput::from_properties, (name, props, defaults), stdout),
    ensures
        udp is Ok <==> string_at(props@, "address"@) is Some,
        udp matches Ok(o) ==> string_at(props@, "address"@) == Some(o.address@),
        udp matches Err(e) ==> mentions(e@, name@),
        stdout is Ok <==> retry_result(props@, defaults) is Ok,
        stdout matches Ok(o) ==> o.name@ == name@ && retry_result(props@, defaults) == Ok::<
            RetryConfig,
            Seq<char>,
        >(o.retry),
{
    crate::laws::messages::law_messages_name_the_output(
        name@,
        "udp requires 'address'"@,
        Seq::empty(),
    );
}

} // verus!
