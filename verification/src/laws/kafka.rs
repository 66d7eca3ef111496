//! What a configuration of the `kafka` output comes to.
use crate::kafka::{
    client_settings, config_result, is_blank, without_line_ending, KafkaOutput, PlainSettings,
    SaslView,
};
use crate::props::{first_block, ident_at, pairs_view, string_at, Property};
use crate::retry::{retry_result, wait_setting, RetryConfig};
use crate::tls::TlsView;
use vstd::prelude::*;

verus! {

/// The value that a list of settings gives a name, where it gives it once.
pub open spec fn only_value(list: Seq<(Seq<char>, Seq<char>)>, name: Seq<char>, value: Seq<char>) -> bool {
    exists|i: int|
        {
            &&& 0 <= i < list.len()
            &&& #[trigger] list[i] == (name, value)
            &&& forall|j: int| 0 <= j < list.len() && j != i ==> (#[trigger] list[j]).0 != name
        }
}

/// Whether a list of settings says nothing of a name.
pub open spec fn no_value(list: Seq<(Seq<char>, Seq<char>)>, name: Seq<char>) -> bool {
    forall|i: int| 0 <= i < list.len() ==> (#[trigger] list[i]).0 != name
}

/// Whether a list gives a name exactly this value, or is silent where there is none.
pub open spec fn says(
    list: Seq<(Seq<char>, Seq<char>)>,
    name: Seq<char>,
    value: Option<Seq<char>>,
) -> bool {
    match value {
        Some(v) => only_value(list, name, v),
        None => no_value(list, name),
    }
}

proof fn lemma_names_differ()
    ensures
        ({
            let names = seq![
                "bootstrap.servers"@,
                "compression.type"@,
                "acks"@,
                "message.timeout.ms"@,
                "security.protocol"@,
                "ssl.ca.location"@,
                "ssl.certificate.location"@,
                "ssl.key.location"@,
                "sasl.mechanism"@,
                "sasl.username"@,
                "sasl.password"@,
            ];
            forall|i: int, j: int|
                0 <= i < names.len() && 0 <= j < names.len() && i != j ==> #[trigger] names[i]
                    != #[trigger] names[j]
        }),
{
    reveal_strlit("bootstrap.servers");
    reveal_strlit("compression.type");
    reveal_strlit("acks");
    reveal_strlit("message.timeout.ms");
    reveal_strlit("security.protocol");
    reveal_strlit("ssl.ca.location");
    reveal_strlit("ssl.certificate.location");
    reveal_strlit("ssl.key.location");
    reveal_strlit("sasl.mechanism");
    reveal_strlit("sasl.username");
    reveal_strlit("sasl.password");
    let a = "sasl.username"@;
    let b = "sasl.password"@;
    let c = "sasl.mechanism"@;
    assert(a[5] == 'u' && b[5] == 'p');
    assert("bootstrap.servers"@[0] == 'b' && "security.protocol"@[0] == 's');
    assert("compression.type"@[0] == 'c' && "ssl.key.location"@[0] == 's');
    assert("bootstrap.servers"@.len() == 17);
    assert("compression.type"@.len() == 16);
    assert("acks"@.len() == 4);
    assert("message.timeout.ms"@.len() == 18);
    assert("security.protocol"@.len() == 17);
    assert("ssl.ca.location"@.len() == 15);
    assert("ssl.certificate.location"@.len() == 24);
    assert("ssl.key.location"@.len() == 16);
    assert("sasl.mechanism"@.len() == 14);
    assert("sasl.username"@.len() == 13);
    assert("sasl.password"@.len() == 13);
}

proof fn lemma_client(plain: PlainSettings, tls: Option<TlsView>, sasl: Option<SaslView>)
    ensures
        ({
            let list = client_settings(plain, tls, sasl);
            &&& says(list, "bootstrap.servers"@, Some(plain.brokers))
            &&& says(list, "compression.type"@, Some(plain.compression))
            &&& says(list, "acks"@, Some(plain.acks))
            &&& says(list, "message.timeout.ms"@, Some("30000"@))
            &&& says(
                list,
                "security.protocol"@,
                if tls is Some && sasl is Some {
                    Some("sasl_ssl"@)
                } else if tls is Some {
                    Some("ssl"@)
                } else if sasl is Some {
                    Some("sasl_plaintext"@)
                } else {
                    None
                },
            )
            &&& says(
                list,
                "ssl.ca.location"@,
                match tls {
                    Some(t) => t.ca,
                    None => None,
                },
            )
            &&& tls matches Some(t) ==> t.cert is Some && t.key is Some ==> says(
                list,
                "ssl.certificate.location"@,
                t.cert,
            ) && says(list, "ssl.key.location"@, t.key)
            &&& (tls is None || tls->0.cert is None || tls->0.key is None) ==> no_value(
                list,
                "ssl.certificate.location"@,
            ) && no_value(list, "ssl.key.location"@)
            &&& sasl matches Some(s) ==> {
                &&& says(list, "sasl.mechanism"@, Some(s.mechanism))
                &&& says(list, "sasl.username"@, Some(s.username))
                &&& says(list, "sasl.password"@, Some(s.password))
            }
            &&& sasl is None ==> {
                &&& no_value(list, "sasl.mechanism"@)
                &&& no_value(list, "sasl.username"@)
                &&& no_value(list, "sasl.password"@)
            }
        }),
{
    lemma_names_differ();
    let names = seq![
        "bootstrap.servers"@,
        "compression.type"@,
        "acks"@,
        "message.timeout.ms"@,
        "security.protocol"@,
        "ssl.ca.location"@,
        "ssl.certificate.location"@,
        "ssl.key.location"@,
        "sasl.mechanism"@,
        "sasl.username"@,
        "sasl.password"@,
    ];
    let list = client_settings(plain, tls, sasl);
    assert(forall|i: int, j: int|
        0 <= i < 11 && 0 <= j < 11 && i != j ==> #[trigger] names[i] != #[trigger] names[j]);
    let p = if tls is Some || sasl is Some {
        1int
    } else {
        0
    };
    let c = if tls is Some && tls->0.ca is Some {
        1int
    } else {
        0
    };
    let k = if tls is Some && tls->0.cert is Some && tls->0.key is Some {
        2int
    } else {
        0
    };
    let u = if sasl is Some {
        3int
    } else {
        0
    };
    assert(list.len() == 4 + p + c + k + u);
    assert(list[0] == (names[0], plain.brokers));
    assert(list[1] == (names[1], plain.compression));
    assert(list[2] == (names[2], plain.acks));
    assert(list[3] == (names[3], "30000"@));
    assert(p == 1 ==> list[4].0 == names[4]);
    assert(c == 1 ==> list[4 + p] == (names[5], tls->0.ca->0));
    assert(k == 2 ==> list[4 + p + c] == (names[6], tls->0.cert->0));
    assert(k == 2 ==> list[5 + p + c] == (names[7], tls->0.key->0));
    assert(u == 3 ==> list[4 + p + c + k] == (names[8], sasl->0.mechanism));
    assert(u == 3 ==> list[5 + p + c + k] == (names[9], sasl->0.username));
    assert(u == 3 ==> list[6 + p + c + k] == (names[10], sasl->0.password));
    // The number of the name that stands at each place.
    let at = |i: int|
        if i < 4 {
            i
        } else if i < 4 + p {
            4
        } else if i < 4 + p + c {
            5
        } else if i < 4 + p + c + k {
            6 + (i - 4 - p - c)
        } else {
            8 + (i - 4 - p - c - k)
        };
    assert forall|i: int| 0 <= i < list.len() implies (#[trigger] list[i]).0 == names[at(i)] && 0
        <= at(i) < 11 by {}
    assert forall|i: int, j: int|
        0 <= i < list.len() && 0 <= j < list.len() && i != j implies #[trigger] list[i].0
        != #[trigger] list[j].0 by {
        assert(at(i) != at(j));
    }
}

/// The parts that a configuration is accepted with.
pub open spec fn accepted_parts(
    name: Seq<char>,
    props: Seq<Property>,
    defaults: RetryConfig,
    contents: Option<Seq<char>>,
) -> (PlainSettings, Option<TlsView>, Option<SaslView>) {
    config_result(name, props, defaults, contents)->Ok_0
}

/// Every setting of the client holds the value of its own property, and each is made
/// once: the brokers, the compression (none where nothing is said), the
/// acknowledgements (all where nothing is said), a message timeout of half a minute,
/// and of the `tls` block the authority, the certificate and the key.
pub proof fn law_client_is_told_the_properties(
    name: Seq<char>,
    props: Seq<Property>,
    defaults: RetryConfig,
    contents: Option<Seq<char>>,
    output: KafkaOutput,
)
    requires
        config_result(name, props, defaults, contents) is Ok,
        ({
            let (plain, tls, sasl) = accepted_parts(name, props, defaults, contents);
            output.holds(name, plain, tls, sasl)
        }),
    ensures
        ({
            let list = pairs_view(output.client@);
            &&& string_at(props, "brokers"@) is Some
            &&& says(list, "bootstrap.servers"@, string_at(props, "brokers"@))
            &&& says(
                list,
                "compression.type"@,
                if ident_at(props, "compression"@) is Some {
                    ident_at(props, "compression"@)
                } else {
                    Some("none"@)
                },
            )
            &&& says(
                list,
                "acks"@,
                if ident_at(props, "acks"@) is Some {
                    ident_at(props, "acks"@)
                } else {
                    Some("all"@)
                },
            )
            &&& says(list, "message.timeout.ms"@, Some("30000"@))
            &&& first_block(props, "tls"@) matches Some(block) ==> {
                &&& says(list, "ssl.ca.location"@, string_at(block, "ca"@))
                &&& says(list, "ssl.certificate.location"@, string_at(block, "cert"@))
                &&& says(list, "ssl.key.location"@, string_at(block, "key"@))
            }
            &&& first_block(props, "tls"@) is None ==> {
                &&& no_value(list, "ssl.ca.location"@)
                &&& no_value(list, "ssl.certificate.location"@)
                &&& no_value(list, "ssl.key.location"@)
            }
        }),
{
    let (plain, tls, sasl) = accepted_parts(name, props, defaults, contents);
    lemma_client(plain, tls, sasl);
}

/// The client authenticates as the user of the `sasl` block, with what the password
/// file holds but for one line ending, by the mechanism that is named; without such a
/// block it does not. The protocol tells whether there is TLS, a user, or both.
pub proof fn law_client_authenticates_as_the_user(
    name: Seq<char>,
    props: Seq<Property>,
    defaults: RetryConfig,
    contents: Option<Seq<char>>,
    output: KafkaOutput,
)
    requires
        config_result(name, props, defaults, contents) is Ok,
        ({
            let (plain, tls, sasl) = accepted_parts(name, props, defaults, contents);
            output.holds(name, plain, tls, sasl)
        }),
    ensures
        ({
            let list = pairs_view(output.client@);
            let encrypted = first_block(props, "tls"@) is Some;
            let user = first_block(props, "sasl"@);
            &&& says(
                list,
                "security.protocol"@,
                if encrypted && user is Some {
                    Some("sasl_ssl"@)
                } else if encrypted {
                    Some("ssl"@)
                } else if user is Some {
                    Some("sasl_plaintext"@)
                } else {
                    None
                },
            )
            &&& user is None ==> {
                &&& no_value(list, "sasl.mechanism"@)
                &&& no_value(list, "sasl.username"@)
                &&& no_value(list, "sasl.password"@)
            }
            &&& user matches Some(block) ==> {
                &&& contents is Some
                &&& string_at(block, "username"@) is Some
                &&& says(list, "sasl.username"@, string_at(block, "username"@))
                &&& says(list, "sasl.password"@, Some(without_line_ending(contents->0)))
                &&& ident_at(block, "mechanism"@) == Some("plain"@) ==> says(
                    list,
                    "sasl.mechanism"@,
                    Some("PLAIN"@),
                ) && encrypted
                &&& ident_at(block, "mechanism"@) == Some("scram_sha_256"@) ==> says(
                    list,
                    "sasl.mechanism"@,
                    Some("SCRAM-SHA-256"@),
                )
                &&& ident_at(block, "mechanism"@) == Some("scram_sha_512"@) ==> says(
                    list,
                    "sasl.mechanism"@,
                    Some("SCRAM-SHA-512"@),
                )
            }
        }),
{
    let (plain, tls, sasl) = accepted_parts(name, props, defaults, contents);
    lemma_client(plain, tls, sasl);
    reveal_strlit("plain");
    reveal_strlit("scram_sha_256");
    reveal_strlit("scram_sha_512");
    let a = "scram_sha_256"@;
    let b = "scram_sha_512"@;
    assert(a[10] == '2' && b[10] == '5');
    assert("plain"@.len() == 5 && a.len() == 13);
}

/// The output sends to the topic that is named, waits for room as long as is said,
/// has the retry budget of its block, and partitions by the source exactly where the
/// key says so.
pub proof fn law_output_is_what_is_configured(
    name: Seq<char>,
    props: Seq<Property>,
    defaults: RetryConfig,
    contents: Option<Seq<char>>,
    output: KafkaOutput,
)
    requires
        config_result(name, props, defaults, contents) is Ok,
        ({
            let (plain, tls, sasl) = accepted_parts(name, props, defaults, contents);
            output.holds(name, plain, tls, sasl)
        }),
    ensures
        output.name@ == name,
        string_at(props, "topic"@) == Some(output.topic@),
        wait_setting(props, "queue_timeout"@, 5_000_000_000) == Ok::<u64, Seq<char>>(
            output.queue_timeout,
        ),
        retry_result(props, defaults) == Ok::<RetryConfig, Seq<char>>(output.retry),
        output.key_field is Some <==> ident_at(props, "key"@) is Some,
        output.key_field is Some ==> ident_at(props, "key"@) == Some("source"@),
        output.metrics.events_written == 0 && output.metrics.events_failed == 0,
{
}

/// A configuration is accepted exactly where every part of it is: brokers and topic
/// are there, the words are known, TLS settings are in pairs, a user has all that it
/// takes and a password that is not blank, and PLAIN comes with TLS.
pub proof fn law_accepted_configurations(
    name: Seq<char>,
    props: Seq<Property>,
    defaults: RetryConfig,
    contents: Option<Seq<char>>,
)
    ensures
        config_result(name, props, defaults, contents) is Ok <==> {
            &&& retry_result(props, defaults) is Ok
            &&& string_at(props, "brokers"@) is Some
            &&& string_at(props, "topic"@) is Some
            &&& ident_at(props, "compression"@) matches Some(w) ==> (w == "none"@ || w == "gzip"@
                || w == "snappy"@ || w == "lz4"@ || w == "zstd"@)
            &&& ident_at(props, "acks"@) matches Some(w) ==> (w == "0"@ || w == "1"@ || w
                == "all"@)
            &&& wait_setting(props, "queue_timeout"@, 0) is Ok
            &&& ident_at(props, "key"@) matches Some(w) ==> w == "source"@
            &&& first_block(props, "tls"@) matches Some(block) ==> (string_at(block, "cert"@)
                is Some <==> string_at(block, "key"@) is Some)
            &&& first_block(props, "sasl"@) matches Some(block) ==> {
                &&& string_at(block, "username"@) is Some
                &&& string_at(block, "password_file"@) is Some
                &&& contents is Some
                &&& !is_blank(without_line_ending(contents->0))
                &&& ident_at(block, "mechanism"@) matches Some(w) && {
                    ||| w == "plain"@ && first_block(props, "tls"@) is Some
                    ||| w == "scram_sha_256"@
                    ||| w == "scram_sha_512"@
                }
            }
        },
{
    reveal_strlit("plain");
    reveal_strlit("scram_sha_256");
    reveal_strlit("scram_sha_512");
    assert("plain"@.len() == 5 && "scram_sha_256"@.len() == 13 && "scram_sha_512"@.len() == 13);
}

/// A password keeps every character but one line ending at its end: a blank in front
/// or behind stays, and of two line endings one stays.
pub proof fn law_password_keeps_all_but_one_line_ending(s: Seq<char>)
    ensures
        ({
            let p = without_line_ending(s);
            let cut = s.len() - p.len();
            &&& p.is_prefix_of(s)
            &&& 0 <= cut <= 2
            &&& cut == 2 <==> s.len() >= 2 && s[s.len() - 2] == '\r' && s[s.len() - 1] == '\n'
            &&& cut == 0 <==> s.len() == 0 || (s.last() != '\n' && s.last() != '\r')
        }),
{
    let p = without_line_ending(s);
    assert(p =~= s.subrange(0, p.len() as int));
}

/// A blank password holds white space only: a letter, a digit or any other printing
/// ASCII character makes it more than blank; spaces, tabs and line ends do not.
pub proof fn law_blank_passwords(s: Seq<char>, i: int)
    ensures
        0 <= i < s.len() && '!' <= s[i] <= '~' ==> !is_blank(s),
        (forall|j: int|
            0 <= j < s.len() ==> (#[trigger] s[j] == ' ' || s[j] == '\t' || s[j] == '\r' || s[j]
                == '\n')) ==> is_blank(s),
{
}

} // verus!
