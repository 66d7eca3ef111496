//! What the outputs to OTLP collectors are configured to, and how they read what a
//! collector answers.
use crate::laws::reading::{lemma_mentions, mentions};
use crate::otlp::config::{
    batch_result, destination_result, grpc_endpoint_accepts, is_https, peer_result, refused,
    word_or, BatchSettings, OtlpKind, OtlpPeer, OtlpPeerView,
};
use crate::otlp::grpc::{GrpcConfigView, OtlpGrpcOutput};
use crate::otlp::http::{
    body_of, protocol_named, reported, HttpConfigView, HttpProtocol, OtlpHttpOutput,
};
use crate::otlp::merge::level_named;
use crate::otlp::model::{
    decoded_rejections, encoded_request, json_request, parsed_rejections, ResourceLogsView,
};
use crate::otlp::single::{
    refusal, snippet, ClientSetup, OtlpSettings, Protocol, SettingsView,
};
use crate::props::{
    first_block, ident_at, int_at, pairs_view, string_at, string_map_at, word_at, Property,
};
use crate::retry::{retry_result, wait_setting, RetryConfig};
use crate::syslog_peers::peers_block_result;
use crate::text::ascii_lower;
use vstd::prelude::*;

verus! {

/// An endpoint is reached over TLS exactly if it begins with `https://`, in whatever
/// case the letters are.
pub proof fn law_https_in_any_case(s: Seq<char>)
    ensures
        is_https(s) <==> {
            &&& s.len() >= 8
            &&& s[0] == 'h' || s[0] == 'H'
            &&& s[1] == 't' || s[1] == 'T'
            &&& s[2] == 't' || s[2] == 'T'
            &&& s[3] == 'p' || s[3] == 'P'
            &&& s[4] == 's' || s[4] == 'S'
            &&& s[5] == ':' && s[6] == '/' && s[7] == '/'
        },
{
    reveal_strlit("https://");
    let p = "https://"@;
    let l = ascii_lower(s);
    assert(p.len() == 8);
    if s.len() >= 8 {
        assert(p.is_prefix_of(l) <==> p =~= l.subrange(0, 8));
        assert forall|i: int| 0 <= i < 8 implies l.subrange(0, 8)[i] == l[i] by {}
        if p.is_prefix_of(l) {
            assert(l[0] == p[0] && l[1] == p[1] && l[2] == p[2] && l[3] == p[3] && l[4] == p[4]
                && l[5] == p[5] && l[6] == p[6] && l[7] == p[7]);
        } else if (s[0] == 'h' || s[0] == 'H') && (s[1] == 't' || s[1] == 'T') && (s[2] == 't'
            || s[2] == 'T') && (s[3] == 'p' || s[3] == 'P') && (s[4] == 's' || s[4] == 'S') && s[5]
            == ':' && s[6] == '/' && s[7] == '/' {
            assert(l[0] == p[0] && l[1] == p[1] && l[2] == p[2] && l[3] == p[3] && l[4] == p[4]
                && l[5] == p[5] && l[6] == p[6] && l[7] == p[7]);
            assert(p =~= l.subrange(0, 8));
        }
    }
}

/// A collector has the endpoint that its block gives, and the TLS settings of its
/// `tls` block, which only an endpoint over TLS may have and in which a certificate
/// and its key come together. Over gRPC its endpoint must make a channel.
pub proof fn law_collector_is_what_is_configured(
    kind: OtlpKind,
    name: Seq<char>,
    props: Seq<Property>,
    peer: OtlpPeer,
)
    ensures
        ({
            let r = peer_result(kind, name, props);
            let endpoint = string_at(props, "endpoint"@);
            let block = first_block(props, "tls"@);
            &&& r is Ok <==> {
                &&& endpoint is Some
                &&& block is Some ==> is_https(endpoint->0) && (string_at(block->0, "cert"@) is Some
                    <==> string_at(block->0, "key"@) is Some)
                &&& kind is Grpc ==> grpc_endpoint_accepts(endpoint->0)
            }
            &&& r == Ok::<OtlpPeerView, Seq<char>>(peer@) ==> {
                &&& endpoint == Some(peer.endpoint@)
                &&& peer.tls is Some <==> block is Some
                &&& peer.tls matches Some(tls) ==> tls@.ca == string_at(block->0, "ca"@)
                    && tls@.cert == string_at(block->0, "cert"@) && tls@.key == string_at(
                    block->0,
                    "key"@,
                )
            }
            &&& r matches Err(e) ==> mentions(e, name)
        }),
{
    let o = "output '"@;
    let c = "': "@;
    if let Err(e) = peer_result(kind, name, props) {
        let endpoint = string_at(props, "endpoint"@)->0;
        let missing = kind.label() + " peer requires 'endpoint'"@;
        lemma_mentions(o, name, c + missing);
        assert(o + name + (c + missing) =~= o + name + c + missing);
        let plain = kind.label() + " peer endpoint '"@ + endpoint
            + "' uses a plaintext scheme but a tls { ... } block was supplied — switch the endpoint to https:// or drop the tls block"@;
        lemma_mentions(o, name, c + plain);
        assert(o + name + (c + plain) =~= o + name + c + plain);
        let invalid = "invalid gRPC endpoint '"@ + endpoint + "'"@;
        lemma_mentions(o, name, c + invalid);
        assert(o + name + (c + invalid) =~= o + name + c + invalid);
        let q = "'"@;
        let tail = ": cert and key must be set together"@;
        lemma_mentions(o, name, q + tail);
        assert(o + name + (q + tail) =~= o + name + q + tail);
        assert(crate::tls::unpaired_text(o + name + q) == o + name + q + tail);
    }
}

/// The destination is one `peer` block or one `peers` block, never both and never
/// neither, and the collectors are what those blocks are read as, in order.
pub proof fn law_collectors_are_peer_or_peers(kind: OtlpKind, name: Seq<char>, props: Seq<Property>)
    ensures
        ({
            let one = first_block(props, "peer"@);
            let several = first_block(props, "peers"@);
            let r = destination_result(kind, name, props);
            &&& r is Ok ==> (one is Some) != (several is Some)
            &&& one is Some && several is None ==> {
                &&& r is Ok <==> peer_result(kind, name, one->0) is Ok
                &&& r matches Ok(peers) ==> peers.len() == 1 && peer_result(kind, name, one->0)
                    == Ok::<OtlpPeerView, Seq<char>>(peers[0])
            }
            &&& one is None && several is Some ==> r == peers_block_result(
                several->0,
                "output '"@ + name + "': "@ + "peers"@,
                |block: Seq<Property>| peer_result(kind, name, block),
            )
        }),
{
}

/// A word setting is what is written, or the default where there is none.
pub proof fn law_words_default(props: Seq<Property>, key: Seq<char>, default: Seq<char>)
    ensures
        word_at(props, key) matches Some(word) ==> word_or(props, key, default) == word,
        word_at(props, key) is None ==> word_or(props, key, default) == default,
{
}

/// The settings of a batch are what is written: one event, five seconds and no merging
/// where nothing is. They are refused where a size is not positive, a timeout is no
/// duration, or there is no such level.
pub proof fn law_batch_is_what_is_configured(name: Seq<char>, props: Seq<Property>)
    ensures
        ({
            let r = batch_result(name, props);
            let size = int_at(props, "batch_size"@);
            let timeout = wait_setting(props, "batch_timeout"@, 5_000_000_000);
            let level = word_at(props, "batch_level"@);
            &&& r is Ok <==> {
                &&& size is Some ==> size->0 >= 1
                &&& timeout is Ok
                &&& level is Some ==> level_named(level->0) is Some
            }
            &&& r matches Ok(batch) ==> {
                &&& size is None ==> batch.size == 1
                &&& size is Some ==> batch.size == size->0
                &&& timeout == Ok::<u64, Seq<char>>(batch.timeout)
                &&& level is None ==> batch.level is Unmerged
                &&& level is Some ==> level_named(level->0) == Some(batch.level)
            }
        }),
{
    reveal_strlit("none");
    crate::laws::reading::law_positive_settings_are_positive(props, "batch_size"@);
}

/// What a collector refused is what it reports, and nothing where it reports nothing or
/// a negative number.
pub proof fn law_refused_is_what_is_reported(n: i64)
    ensures
        n >= 0 ==> refused(Some(n)) == n,
        n < 0 ==> refused(Some(n)) == 0,
        refused(None) == 0,
{
}

/// The protocol is what the word says, and there are no others.
pub proof fn law_protocols_by_word(word: Seq<char>)
    ensures
        protocol_named(word) == Some(HttpProtocol::Json) <==> word == "http_json"@,
        protocol_named(word) == Some(HttpProtocol::Protobuf) <==> word == "http_protobuf"@,
        crate::otlp::single::protocol_named(word) == Some(Protocol::HttpJson) <==> word
            == "http_json"@,
        crate::otlp::single::protocol_named(word) == Some(Protocol::HttpProtobuf) <==> word
            == "http_protobuf"@,
        crate::otlp::single::protocol_named(word) == Some(Protocol::Grpc) <==> word == "grpc"@,
{
    reveal_strlit("http_json");
    reveal_strlit("http_protobuf");
    reveal_strlit("grpc");
    assert("http_json"@.len() == 9 && "http_protobuf"@.len() == 13 && "grpc"@.len() == 4);
}

/// The output over HTTP has the settings that its properties give, each under its own
/// name. Certificates are checked unless `verify` is `false`.
pub proof fn law_http_output_is_what_is_configured(
    name: Seq<char>,
    props: Seq<Property>,
    defaults: RetryConfig,
    output: OtlpHttpOutput,
)
    requires
        crate::otlp::http::config_result(name, props, defaults) == Ok::<HttpConfigView, Seq<char>>(
            output.config(),
        ),
    ensures
        match word_at(props, "protocol"@) {
            Some(word) => protocol_named(word) == Some(output.protocol),
            None => output.protocol is Protobuf,
        },
        batch_result(name, props) == Ok::<BatchSettings, Seq<char>>(
            output.batch,
        ),
        string_map_at(props, "headers"@) == pairs_view(output.headers@),
        output.verify <==> ident_at(props, "verify"@) != Some("false"@),
        ident_at(props, "verify"@) is None ==> output.verify,
        destination_result(OtlpKind::Http, name, props) is Ok,
        destination_result(OtlpKind::Http, name, props)->Ok_0.len() == output.peers@.len(),
        forall|i: int|
            0 <= i < output.peers@.len() ==> destination_result(
                OtlpKind::Http,
                name,
                props,
            )->Ok_0[i] == (#[trigger] output.peers@[i])@,
        retry_result(props, defaults) == Ok::<RetryConfig, Seq<char>>(output.retry),
{
    reveal_strlit("http_json");
    reveal_strlit("http_protobuf");
    assert("http_json"@.len() == 9 && "http_protobuf"@.len() == 13);
    let views = crate::error::list_views(output.peers@);
    assert forall|i: int| 0 <= i < output.peers@.len() implies destination_result(
        OtlpKind::Http,
        name,
        props,
    )->Ok_0[i] == (#[trigger] output.peers@[i])@ by {
        assert(views[i] == output.peers@[i]@);
    }
}

/// The output over HTTP is accepted exactly if each of its settings is.
pub proof fn law_accepted_http_outputs(name: Seq<char>, props: Seq<Property>, defaults: RetryConfig)
    ensures
        crate::otlp::http::config_result(name, props, defaults) is Ok <==> {
            &&& word_at(props, "protocol"@) matches Some(word) ==> protocol_named(word) is Some
            &&& batch_result(name, props) is Ok
            &&& destination_result(OtlpKind::Http, name, props) is Ok
            &&& retry_result(props, defaults) is Ok
        },
        crate::otlp::grpc::config_result(name, props, defaults) is Ok <==> {
            &&& batch_result(name, props) is Ok
            &&& destination_result(OtlpKind::Grpc, name, props) is Ok
            &&& retry_result(props, defaults) is Ok
        },
{
}

/// The output over gRPC has the settings that its properties give.
pub proof fn law_grpc_output_is_what_is_configured(
    name: Seq<char>,
    props: Seq<Property>,
    defaults: RetryConfig,
    output: OtlpGrpcOutput,
)
    requires
        crate::otlp::grpc::config_result(name, props, defaults) == Ok::<GrpcConfigView, Seq<char>>(
            output.config(),
        ),
    ensures
        batch_result(name, props) == Ok::<BatchSettings, Seq<char>>(
            output.batch,
        ),
        string_map_at(props, "headers"@) == pairs_view(output.headers@),
        destination_result(OtlpKind::Grpc, name, props) is Ok,
        destination_result(OtlpKind::Grpc, name, props)->Ok_0.len() == output.peers@.len(),
        forall|i: int|
            0 <= i < output.peers@.len() ==> destination_result(
                OtlpKind::Grpc,
                name,
                props,
            )->Ok_0[i] == (#[trigger] output.peers@[i])@,
        retry_result(props, defaults) == Ok::<RetryConfig, Seq<char>>(output.retry),
{
    let views = crate::error::list_views(output.peers@);
    assert forall|i: int| 0 <= i < output.peers@.len() implies destination_result(
        OtlpKind::Grpc,
        name,
        props,
    )->Ok_0[i] == (#[trigger] output.peers@[i])@ by {
        assert(views[i] == output.peers@[i]@);
    }
}

/// The output to one collector has the settings that its properties give: protobuf over
/// HTTP, one event to a batch and five seconds where nothing else is written. It merges
/// nothing.
pub proof fn law_single_output_is_what_is_configured(
    name: Seq<char>,
    props: Seq<Property>,
    settings: OtlpSettings,
)
    requires
        crate::otlp::single::settings_result(name, props) == Ok::<SettingsView, Seq<char>>(
            settings@,
        ),
    ensures
        string_at(props, "endpoint"@) == Some(settings.endpoint@),
        match word_at(props, "protocol"@) {
            Some(word) => crate::otlp::single::protocol_named(word) == Some(settings.protocol),
            None => settings.protocol is HttpProtobuf,
        },
        match int_at(props, "batch_size"@) {
            Some(n) => settings.batch_size == n,
            None => settings.batch_size == 1,
        },
        wait_setting(props, "batch_timeout"@, 5_000_000_000) == Ok::<u64, Seq<char>>(
            settings.batch_timeout,
        ),
        string_map_at(props, "headers"@) == pairs_view(settings.headers@),
        settings.verify <==> ident_at(props, "verify"@) != Some("false"@),
        match settings.ca_path {
            Some(path) => first_block(props, "tls"@) is Some && string_at(
                first_block(props, "tls"@)->0,
                "ca"@,
            ) == Some(path@),
            None => first_block(props, "tls"@) matches Some(block) ==> string_at(block, "ca"@)
                is None,
        },
        word_at(props, "batch_level"@) matches Some(word) ==> word == "none"@,
{
    reveal_strlit("http_json");
    reveal_strlit("http_protobuf");
    reveal_strlit("grpc");
    assert("http_json"@.len() == 9 && "http_protobuf"@.len() == 13 && "grpc"@.len() == 4);
    crate::laws::reading::law_positive_settings_are_positive(props, "batch_size"@);
}

/// The settings of the output to one collector are accepted exactly if each of them is.
pub proof fn law_accepted_single_settings(name: Seq<char>, props: Seq<Property>)
    ensures
        crate::otlp::single::settings_result(name, props) is Ok <==> {
            &&& string_at(props, "endpoint"@) is Some
            &&& word_at(props, "protocol"@) matches Some(word)
                ==> crate::otlp::single::protocol_named(word) is Some
            &&& int_at(props, "batch_size"@) matches Some(n) ==> n >= 1
            &&& wait_setting(props, "batch_timeout"@, 5_000_000_000) is Ok
            &&& word_at(props, "batch_level"@) matches Some(word) ==> word == "none"@
        },
{
    reveal_strlit("http_json");
    reveal_strlit("http_protobuf");
    assert("http_json"@.len() == 9 && "http_protobuf"@.len() == 13);
    crate::laws::reading::law_positive_settings_are_positive(props, "batch_size"@);
}

/// An output to one collector is made exactly if its client is ready, or, over gRPC, if
/// it is ready, the endpoint makes a channel and certificates are checked. A
/// certificate that cannot be used is named by its path.
pub proof fn law_single_output_needs_its_client(
    name: Seq<char>,
    settings: OtlpSettings,
    setup: ClientSetup,
    endpoint_accepted: bool,
)
    ensures
        ({
            let r = refusal(name, settings@, setup, endpoint_accepted);
            &&& r is None <==> setup is Ready && (settings.protocol is Grpc ==> endpoint_accepted
                && settings.verify)
            &&& r matches Some(e) ==> mentions(e, name)
            &&& r matches Some(e) ==> settings.ca_path matches Some(path) ==> setup is UnreadableCa
                || setup is InvalidCa && !(settings.protocol is Grpc) ==> mentions(e, path@)
        }),
{
    let r = refusal(name, settings@, setup, endpoint_accepted);
    if let Some(e) = r {
        let o = "output '"@;
        let c = "': "@;
        let rest = e.skip((o + name + c).len() as int);
        assert(e =~= o + name + c + rest);
        lemma_mentions(o, name, c + rest);
        assert(o + name + (c + rest) =~= o + name + c + rest);
        if let Some(path) = settings.ca_path {
            let read = "cannot read CA cert "@;
            let pem = "invalid CA cert PEM at "@;
            let none = Seq::<char>::empty();
            lemma_mentions(o + name + c + read, path@, none);
            assert(o + name + c + read + path@ + none =~= o + name + c + (read + path@));
            lemma_mentions(o + name + c + pem, path@, none);
            assert(o + name + c + pem + path@ + none =~= o + name + c + (pem + path@));
        }
    }
}

/// A request is written in the encoding of its protocol, and the answer is read in the
/// same; an empty answer reports nothing.
pub proof fn law_bodies_are_in_the_protocol(entries: Seq<ResourceLogsView>, body: Seq<u8>)
    ensures
        body_of(HttpProtocol::Protobuf, entries) == Some(encoded_request(entries)),
        body_of(HttpProtocol::Json, entries) == json_request(entries),
        body.len() > 0 ==> reported(HttpProtocol::Protobuf, body) == decoded_rejections(body),
        body.len() > 0 ==> reported(HttpProtocol::Json, body) == parsed_rejections(body),
        body.len() == 0 ==> reported(HttpProtocol::Protobuf, body) is None && reported(
            HttpProtocol::Json,
            body,
        ) is None,
{
}

/// An error shows the beginning of an answer: the whole where it has at most 500
/// characters, and otherwise the first 500.
pub proof fn law_snippets_are_beginnings(text: Seq<char>, i: int)
    ensures
        text.len() <= 500 ==> snippet(text) == text,
        text.len() > 500 ==> snippet(text).len() == 500,
        0 <= i < snippet(text).len() ==> snippet(text)[i] == text[i],
{
}

} // verus!
