//! What an operator is told: every refusal names the output that it is about, and what
//! it is that was refused.
use crate::error::output_text;
use crate::file::shape_text;
use crate::file_path::{debug_quoted, traversal_text};
use crate::kafka::{
    before_password, config_result, is_blank, plain_result, sasl_result, sasl_settings,
    without_line_ending, PlainSettings, SaslView,
};
use crate::laws::reading::{lemma_mentions, mentions};
use crate::ltp::{meta_too_long_text, oversize_text};
use crate::otlp::config::{no_destination_text, OtlpKind};
use crate::props::{first_block, ident_at, positive_int_at, string_at, Expr, Property};
use crate::retry::{retry_result, wait_setting, RetryConfig};
use crate::text::{decimal, signed_decimal};
use crate::tls::{tls_block_result, TlsView};
use vstd::prelude::*;

verus! {

/// A message about an output holds its name and what there is to say, and so every
/// part of that.
pub proof fn law_messages_name_the_output(name: Seq<char>, rest: Seq<char>, part: Seq<char>)
    ensures
        mentions(output_text(name, rest), name),
        mentions(output_text(name, rest), rest),
        mentions(rest, part) ==> mentions(output_text(name, rest), part),
{
    let o = "output '"@;
    let c = "': "@;
    let none = Seq::<char>::empty();
    lemma_mentions(o, name, c + rest);
    assert(o + name + (c + rest) =~= o + name + c + rest);
    lemma_mentions(o + name + c, rest, none);
    assert(o + name + c + rest + none =~= o + name + c + rest);
    if mentions(rest, part) {
        let (b, a) = choose|b: Seq<char>, a: Seq<char>| rest == #[trigger] (b + part + a);
        lemma_mentions(o + name + c + b, part, a);
        assert(o + name + c + b + part + a =~= o + name + c + rest);
    }
}

proof fn lemma_about(name: Seq<char>, before: Seq<char>, part: Seq<char>, after: Seq<char>)
    ensures
        mentions(output_text(name, before + part + after), name),
        mentions(output_text(name, before + part + after), part),
{
    lemma_mentions(before, part, after);
    law_messages_name_the_output(name, before + part + after, part);
}

proof fn lemma_about_end(name: Seq<char>, before: Seq<char>, part: Seq<char>)
    ensures
        mentions(output_text(name, before + part), name),
        mentions(output_text(name, before + part), part),
{
    lemma_about(name, before, part, Seq::empty());
    assert(before + part + Seq::<char>::empty() =~= before + part);
}

/// What is wrong with a retry block, a wait, a number or a TLS block is told by what is
/// written there, by the setting, or by the block.
pub proof fn law_bad_settings_are_named(
    props: Seq<Property>,
    key: Seq<char>,
    default: u64,
    label: Seq<char>,
)
    ensures
        wait_setting(props, key, default) matches Err(e) ==> string_at(props, key) is Some
            && mentions(e, string_at(props, key)->0),
        positive_int_at(props, key) matches Err(e) ==> mentions(e, key),
        tls_block_result(props, label) matches Err(e) ==> mentions(e, label),
{
    let none = Seq::<char>::empty();
    if let Some(s) = string_at(props, key) {
        lemma_mentions("invalid duration '"@, s, "'"@);
    }
    lemma_mentions("'"@, key, "' must be a positive integer"@);
    let tail = ": cert and key must be set together"@;
    lemma_mentions(none, label, tail);
    assert(none + label + tail =~= label + tail);
    assert(crate::tls::unpaired_text(label) == label + tail);
}

/// A refused Kafka configuration is told by name, and by the word that is not known
/// where that is what is wrong: the compression first, then the acknowledgements, then
/// the key.
pub proof fn law_kafka_refusals_are_named(
    name: Seq<char>,
    props: Seq<Property>,
    defaults: RetryConfig,
)
    requires
        retry_result(props, defaults) is Ok,
    ensures
        ({
            let r = plain_result(name, props, defaults);
            let brokers = string_at(props, "brokers"@);
            let topic = string_at(props, "topic"@);
            let w = ident_at(props, "compression"@);
            let known = w is None || w->0 == "none"@ || w->0 == "gzip"@ || w->0 == "snappy"@ || w->0
                == "lz4"@ || w->0 == "zstd"@;
            let acks = ident_at(props, "acks"@);
            let key = ident_at(props, "key"@);
            &&& brokers is None ==> (r matches Err(e) && mentions(e, name) && mentions(
                e,
                "brokers"@,
            ))
            &&& brokers is Some && topic is None ==> (r matches Err(e) && mentions(e, name)
                && mentions(e, "topic"@))
            &&& brokers is Some && topic is Some && !known ==> (r matches Err(e) && mentions(e, name)
                && mentions(e, w->0))
            &&& brokers is Some && topic is Some && known && acks is Some && acks->0 != "0"@
                && acks->0 != "1"@ && acks->0 != "all"@ ==> (r matches Err(e) && mentions(e, name)
                && mentions(e, acks->0))
            &&& r is Err && brokers is Some && topic is Some && known && (acks is None || acks->0
                == "0"@ || acks->0 == "1"@ || acks->0 == "all"@) && wait_setting(
                props,
                "queue_timeout"@,
                5_000_000_000,
            ) is Ok ==> key is Some && (r matches Err(e) && mentions(e, name) && mentions(
                e,
                key->0,
            ))
        }),
{
    reveal_strlit("kafka requires 'brokers'");
    reveal_strlit("kafka requires 'topic'");
    reveal_strlit("kafka requires '");
    reveal_strlit("brokers");
    reveal_strlit("topic");
    reveal_strlit("'");
    let front = "kafka requires '"@;
    let q = "'"@;
    assert("kafka requires 'brokers'"@ =~= front + "brokers"@ + q);
    assert("kafka requires 'topic'"@ =~= front + "topic"@ + q);
    lemma_about(name, front, "brokers"@, q);
    lemma_about(name, front, "topic"@, q);
    if let Some(w) = ident_at(props, "compression"@) {
        lemma_about(
            name,
            "invalid compression '"@,
            w,
            "' (expected: none, gzip, snappy, lz4, zstd)"@,
        );
    }
    if let Some(w) = ident_at(props, "acks"@) {
        lemma_about(name, "invalid acks '"@, w, "' (expected: 0, 1, all)"@);
    }
    if let Some(w) = ident_at(props, "key"@) {
        lemma_about(
            name,
            "kafka `key` must be `source` (got `"@,
            w,
            "`). Per-tenant or per-field partitioning by pipeline-internal workspace state is no longer supported; split the traffic into separate kafka outputs from the pipeline body and give each a static topic."@,
        );
    }
}

/// The settings of a `sasl` block are its mechanism, its user and its password file,
/// each under its own name and none of them missing. A file that cannot be read or
/// holds nothing is told by name, and so is a mechanism that is not known.
pub proof fn law_sasl_refusals_are_named(
    name: Seq<char>,
    props: Seq<Property>,
    contents: Option<Seq<char>>,
)
    ensures
        first_block(props, "sasl"@) matches Some(block) ==> {
            let s = sasl_settings(name, block);
            let r = sasl_result(name, props, contents);
            &&& s is Ok <==> ident_at(block, "mechanism"@) is Some && string_at(block, "username"@)
                is Some && string_at(block, "password_file"@) is Some
            &&& s matches Ok((m, u, f)) ==> {
                &&& ident_at(block, "mechanism"@) == Some(m)
                &&& string_at(block, "username"@) == Some(u)
                &&& string_at(block, "password_file"@) == Some(f)
                &&& contents is None || is_blank(without_line_ending(contents->0)) ==> (
                r matches Err(e) && mentions(e, name) && mentions(e, f))
                &&& r is Err && contents is Some && !is_blank(without_line_ending(contents->0))
                    ==> (r matches Err(e) && mentions(e, name) && mentions(e, m))
            }
            &&& s matches Err(e) ==> mentions(e, name) && r == Err::<
                Option<SaslView>,
                Seq<char>,
            >(e)
        },
        first_block(props, "sasl"@) is None ==> sasl_result(name, props, contents) == Ok::<
            Option<SaslView>,
            Seq<char>,
        >(None),
{
    if let Some(block) = first_block(props, "sasl"@) {
        let none = Seq::<char>::empty();
        law_messages_name_the_output(name, "sasl block requires 'mechanism'"@, none);
        law_messages_name_the_output(name, "sasl block requires 'username'"@, none);
        law_messages_name_the_output(name, "sasl block requires 'password_file'"@, none);
        if let Ok((m, u, f)) = sasl_settings(name, block) {
            lemma_about(name, "failed to read sasl password_file '"@, f, "'"@);
            lemma_about(name, "sasl password_file '"@, f, "' is empty"@);
            lemma_about(
                name,
                "unsupported sasl mechanism '"@,
                m,
                "' (expected one of [\"plain\", \"scram_sha_256\", \"scram_sha_512\"])"@,
            );
        }
    }
}

/// What stands before the password file is settled without it: the settings outside
/// the blocks and TLS; only PLAIN without TLS is refused besides.
pub proof fn law_password_is_read_last(
    name: Seq<char>,
    props: Seq<Property>,
    defaults: RetryConfig,
    contents: Option<Seq<char>>,
)
    ensures
        ({
            let r = before_password(name, props, defaults);
            let plain = plain_result(name, props, defaults);
            &&& r is Ok <==> {
                &&& plain is Ok
                &&& first_block(props, "tls"@) matches Some(block) ==> (string_at(block, "cert"@)
                    is Some <==> string_at(block, "key"@) is Some)
                &&& first_block(props, "sasl"@) matches Some(block) ==> first_block(props, "tls"@)
                    is Some || ident_at(block, "mechanism"@) != Some("plain"@)
            }
            &&& r matches Err(e) ==> config_result(name, props, defaults, contents) == Err::<
                (PlainSettings, Option<TlsView>, Option<SaslView>),
                Seq<char>,
            >(e)
            &&& plain matches Err(e) ==> r == Err::<(PlainSettings, Option<TlsView>), Seq<char>>(e)
        }),
{
}

/// A payload that is too long is told by its length and the limit, a node's name that
/// is too long by the length of its metadata and the limit.
pub proof fn law_lengths_are_told(name: Seq<char>, len: nat, limit: nat)
    ensures
        mentions(oversize_text(len, limit), decimal(len)),
        mentions(oversize_text(len, limit), decimal(limit)),
        mentions(meta_too_long_text(name, len), name),
        mentions(meta_too_long_text(name, len), decimal(len)),
        mentions(meta_too_long_text(name, len), decimal(65536)),
{
    let a = "LTP payload length "@;
    let b = " exceeds the "@;
    let c = " byte limit"@;
    lemma_mentions(a, decimal(len), b + decimal(limit) + c);
    assert(a + decimal(len) + (b + decimal(limit) + c) =~= a + decimal(len) + b + decimal(limit)
        + c);
    lemma_mentions(a + decimal(len) + b, decimal(limit), c);
    let x = "node_id makes LTP event metadata "@;
    let y = " bytes (maximum "@;
    let z = ")"@;
    let most = decimal(65536);
    lemma_about(name, x, decimal(len), y + most + z);
    assert(x + decimal(len) + (y + most + z) =~= x + decimal(len) + y + most + z);
    lemma_about(name, x + decimal(len) + y, most, z);
}

/// A path that is none is told by what stands there, and a rendered path that climbs by
/// itself.
pub proof fn law_bad_paths_are_shown(value: Expr, path: Seq<char>)
    ensures
        value matches Expr::IntLit(i) ==> mentions(shape_text(value), signed_decimal(i as int)),
        mentions(traversal_text(path), debug_quoted(path)),
{
    if let Expr::IntLit(i) = value {
        lemma_mentions("IntLit("@, signed_decimal(i as int), ")"@);
    }
    lemma_mentions(
        "output file: rendered path contains a `..` traversal component: "@,
        debug_quoted(path),
        ". `..` is rejected rather than silently rewritten — sanitise upstream (regex_replace, a process body) or pin the value before interpolation."@,
    );
}

/// A protocol, a level or a destination that there is not is told by the word and by
/// the output.
pub proof fn law_collector_refusals_are_named(kind: OtlpKind, name: Seq<char>, word: Seq<char>)
    ensures
        mentions(crate::otlp::http::unknown_protocol_text(name, word), word),
        mentions(crate::otlp::http::unknown_protocol_text(name, word), name),
        mentions(crate::otlp::single::unknown_protocol_text(name, word), word),
        mentions(crate::otlp::single::unknown_protocol_text(name, word), name),
        mentions(crate::otlp::single::level_text(name, word), word),
        mentions(crate::otlp::single::level_text(name, word), name),
        mentions(no_destination_text(kind, name), name),
        mentions(no_destination_text(kind, name), kind.label()),
        OtlpKind::Http.label() != OtlpKind::Grpc.label(),
{
    reveal_strlit("otlp_http");
    reveal_strlit("otlp_grpc");
    assert("otlp_http"@[5] == 'h' && "otlp_grpc"@[5] == 'g');
    lemma_about(
        name,
        "unknown protocol '"@,
        word,
        "' (expected http_protobuf or http_json)"@,
    );
    lemma_about(
        name,
        "unknown protocol '"@,
        word,
        "' (expected http_json, http_protobuf, or grpc)"@,
    );
    lemma_about(
        name,
        "batch_level '"@,
        word,
        "' is not implemented in v0.5.0 (only 'none' supported)"@,
    );
    let tail = " requires a 'peer { ... }' or 'peers { peer { ... } ... }' block"@;
    lemma_about(name, Seq::empty(), kind.label(), tail);
    assert(Seq::<char>::empty() + kind.label() + tail =~= kind.label() + tail);
}

} // verus!
