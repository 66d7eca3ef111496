//! The `kafka` output: its configuration and the settings of its client.
//!
//! The password of a SASL user stands in a file. The configuration is read in two
//! steps: [`password_file`] makes every check that comes before the file is read
//! and names it, [`KafkaOutput::from_properties`] takes what it holds.
use crate::error::{cat3, option_view, outcome, output_error, output_text, OutputError};
use crate::metrics::OutputMetrics;
use crate::props::{
    first_block, get_block, get_ident, get_string, ident_at, pairs_view, string_at, Property,
};
use crate::retry::{parse_wait, retry_result, wait_setting, RetryConfig};
use crate::text::{chars_of, text_eq, text_of};
use crate::tls::{tls_block_result, ClientTlsConfig, TlsView};
use vstd::prelude::*;

verus! {

/// Credentials of a SASL user, the mechanism spelled as the client library spells
/// it.
#[derive(Debug)]
pub struct SaslConfig {
    pub mechanism: String,
    pub username: String,
    pub password: String,
}

/// What a [`SaslConfig`] says.
pub ghost struct SaslView {
    pub mechanism: Seq<char>,
    pub username: Seq<char>,
    pub password: Seq<char>,
}

impl View for SaslConfig {
    type V = SaslView;

    open spec fn view(&self) -> SaslView {
        SaslView {
            mechanism: self.mechanism@,
            username: self.username@,
            password: self.password@,
        }
    }
}

/// What the `tls` block is read as.
pub open spec fn tls_result(name: Seq<char>, props: Seq<Property>) -> Result<
    Option<TlsView>,
    Seq<char>,
> {
    match first_block(props, "tls"@) {
        None => Ok(None),
        Some(block) => match tls_block_result(block, "output '"@ + name + "'"@) {
            Ok(tls) => Ok(Some(tls)),
            Err(e) => Err(e),
        },
    }
}

/// Reads the `tls` block, if there is one.
pub fn parse_tls_block(name: &str, properties: &[Property]) -> (r: Result<
    Option<ClientTlsConfig>,
    OutputError,
>)
    ensures
        match r {
            Ok(tls) => tls_result(name@, properties@) == Ok::<Option<TlsView>, Seq<char>>(
                option_view(tls),
            ),
            Err(e) => tls_result(name@, properties@) == Err::<Option<TlsView>, Seq<char>>(e@),
        },
{
    match get_block(properties, "tls") {
        None => Ok(None),
        Some(block) => {
            let label = cat3("output '", name, "'");
            match crate::tls::parse_tls_block(block.as_slice(), label.as_str()) {
                Ok(tls) => Ok(Some(tls)),
                Err(e) => Err(e),
            }
        },
    }
}

/// The message about PLAIN without TLS.
pub open spec fn plain_without_tls_text(name: Seq<char>) -> Seq<char> {
    output_text(
        name,
        "sasl mechanism 'plain' requires a tls { ... } block — PLAIN puts credentials in clear text on the wire and must run over TLS. Use scram_sha_256 or scram_sha_512 if TLS is not available."@,
    )
}

/// The error about PLAIN without TLS.
pub fn plain_without_tls_error(name: &str) -> (e: OutputError)
    ensures
        e@ == plain_without_tls_text(name@),
{
    output_error(
        name,
        "sasl mechanism 'plain' requires a tls { ... } block — PLAIN puts credentials in clear text on the wire and must run over TLS. Use scram_sha_256 or scram_sha_512 if TLS is not available.",
    )
}

/// Whether the configuration asks for PLAIN.
pub open spec fn asks_for_plain(props: Seq<Property>) -> bool {
    match first_block(props, "sasl"@) {
        Some(block) => ident_at(block, "mechanism"@) == Some("plain"@),
        None => false,
    }
}

/// Refuses PLAIN without TLS before the password file is read, so that a broken
/// file cannot hide the graver problem.
pub fn pre_check_plain_requires_tls(
    name: &str,
    properties: &[Property],
    tls: Option<&ClientTlsConfig>,
) -> (r: Result<(), OutputError>)
    ensures
        r is Err <==> asks_for_plain(properties@) && tls is None,
        r matches Err(e) ==> e@ == plain_without_tls_text(name@),
{
    match get_block(properties, "sasl") {
        None => Ok(()),
        Some(block) => match get_ident(block.as_slice(), "mechanism") {
            None => Ok(()),
            Some(mechanism) => if text_eq(mechanism.as_str(), "plain") && tls.is_none() {
                Err(plain_without_tls_error(name))
            } else {
                Ok(())
            },
        },
    }
}

/// Refuses PLAIN without TLS.
pub fn require_tls_for_plain(
    name: &str,
    sasl: Option<&SaslConfig>,
    tls: Option<&ClientTlsConfig>,
) -> (r: Result<(), OutputError>)
    ensures
        r is Err <==> tls is None && (sasl matches Some(s) && s@.mechanism == "PLAIN"@),
        r matches Err(e) ==> e@ == plain_without_tls_text(name@),
{
    match sasl {
        Some(s) => if text_eq(s.mechanism.as_str(), "PLAIN") && tls.is_none() {
            Err(plain_without_tls_error(name))
        } else {
            Ok(())
        },
        None => Ok(()),
    }
}

/// The client library's name for what the connection is protected by; nothing
/// where it is plain text.
pub fn security_protocol(has_tls: bool, has_sasl: bool) -> (r: Option<&'static str>)
    ensures
        r is None <==> !has_tls && !has_sasl,
        r matches Some(s) ==> s@ == if has_tls && has_sasl {
            "sasl_ssl"@
        } else if has_tls {
            "ssl"@
        } else {
            "sasl_plaintext"@
        },
{
    if has_tls && has_sasl {
        Some("sasl_ssl")
    } else if has_tls {
        Some("ssl")
    } else if has_sasl {
        Some("sasl_plaintext")
    } else {
        None
    }
}

/// Whether a character has the Unicode property `White_Space`.
pub open spec fn is_white_space(c: char) -> bool {
    let n = c as u32;
    ||| 0x09 <= n <= 0x0d
    ||| n == 0x20
    ||| n == 0x85
    ||| n == 0xa0
    ||| n == 0x1680
    ||| 0x2000 <= n <= 0x200a
    ||| n == 0x2028
    ||| n == 0x2029
    ||| n == 0x202f
    ||| n == 0x205f
    ||| n == 0x3000
}

fn white_space(c: char) -> (r: bool)
    ensures
        r == is_white_space(c),
{
    let n: u32 = c as u32;
    (0x09 <= n && n <= 0x0d) || n == 0x20 || n == 0x85 || n == 0xa0 || n == 0x1680 || (0x2000 <= n
        && n <= 0x200a) || n == 0x2028 || n == 0x2029 || n == 0x202f || n == 0x205f || n == 0x3000
}

/// A text without the one line ending that it may end in.
pub open spec fn without_line_ending(s: Seq<char>) -> Seq<char> {
    let n = s.len() as int;
    if n >= 2 && s[n - 2] == '\r' && s[n - 1] == '\n' {
        s.take(n - 2)
    } else if n >= 1 && (s[n - 1] == '\n' || s[n - 1] == '\r') {
        s.take(n - 1)
    } else {
        s
    }
}

/// Whether a text holds nothing but white space.
pub open spec fn is_blank(s: Seq<char>) -> bool {
    forall|i: int| 0 <= i < s.len() ==> is_white_space(#[trigger] s[i])
}

/// Takes one line ending off the end of a text; the rest is given back unless it
/// is blank.
fn password_of(raw: &str) -> (r: Option<String>)
    ensures
        match r {
            Some(p) => p@ == without_line_ending(raw@) && !is_blank(without_line_ending(raw@)),
            None => is_blank(without_line_ending(raw@)),
        },
{
    let v = chars_of(raw);
    let n: usize = v.len();
    let end: usize = if n >= 2 && v[n - 2] == '\r' && v[n - 1] == '\n' {
        n - 2
    } else if n >= 1 && (v[n - 1] == '\n' || v[n - 1] == '\r') {
        n - 1
    } else {
        n
    };
    let ghost rest = without_line_ending(raw@);
    assert(v@.subrange(0, end as int) =~= rest);
    let mut i: usize = 0;
    while i < end
        invariant
            i <= end <= v@.len(),
            rest == v@.subrange(0, end as int),
            rest == without_line_ending(raw@),
            forall|j: int| 0 <= j < i ==> is_white_space(#[trigger] rest[j]),
        decreases end - i,
    {
        assert(rest[i as int] == v@[i as int]);
        if !white_space(v[i]) {
            let password = text_of(&v, 0, end);
            return Some(password);
        }
        i = i + 1;
    }
    None
}

/// The client library's spelling of a mechanism.
pub open spec fn mechanism_spelling(word: Seq<char>) -> Option<Seq<char>> {
    if word == "plain"@ {
        Some("PLAIN"@)
    } else if word == "scram_sha_256"@ {
        Some("SCRAM-SHA-256"@)
    } else if word == "scram_sha_512"@ {
        Some("SCRAM-SHA-512"@)
    } else {
        None
    }
}

/// The three settings of a `sasl` block, or the error about the first one missing.
pub open spec fn sasl_settings(name: Seq<char>, block: Seq<Property>) -> Result<
    (Seq<char>, Seq<char>, Seq<char>),
    Seq<char>,
> {
    match ident_at(block, "mechanism"@) {
        None => Err(output_text(name, "sasl block requires 'mechanism'"@)),
        Some(mechanism) => match string_at(block, "username"@) {
            None => Err(output_text(name, "sasl block requires 'username'"@)),
            Some(username) => match string_at(block, "password_file"@) {
                None => Err(output_text(name, "sasl block requires 'password_file'"@)),
                Some(file) => Ok((mechanism, username, file)),
            },
        },
    }
}

/// What a `sasl` block is read as. `contents` is what the password file holds,
/// nothing where it could not be read.
pub open spec fn sasl_result(
    name: Seq<char>,
    props: Seq<Property>,
    contents: Option<Seq<char>>,
) -> Result<Option<SaslView>, Seq<char>> {
    match first_block(props, "sasl"@) {
        None => Ok(None),
        Some(block) => match sasl_settings(name, block) {
            Err(e) => Err(e),
            Ok((mechanism, username, file)) => match contents {
                None => Err(
                    output_text(name, "failed to read sasl password_file '"@ + file + "'"@),
                ),
                Some(raw) => {
                    let password = without_line_ending(raw);
                    if is_blank(password) {
                        Err(output_text(name, "sasl password_file '"@ + file + "' is empty"@))
                    } else {
                        match mechanism_spelling(mechanism) {
                            None => Err(
                                output_text(
                                    name,
                                    "unsupported sasl mechanism '"@ + mechanism
                                        + "' (expected one of [\"plain\", \"scram_sha_256\", \"scram_sha_512\"])"@,
                                ),
                            ),
                            Some(mechanism) => Ok(
                                Some(SaslView { mechanism, username, password }),
                            ),
                        }
                    }
                },
            },
        },
    }
}

fn read_sasl_settings(name: &str, block: &[Property]) -> (r: Result<
    (String, String, String),
    OutputError,
>)
    ensures
        match r {
            Ok((mechanism, username, file)) => sasl_settings(name@, block@) == Ok::<
                (Seq<char>, Seq<char>, Seq<char>),
                Seq<char>,
            >((mechanism@, username@, file@)),
            Err(e) => sasl_settings(name@, block@) == Err::<
                (Seq<char>, Seq<char>, Seq<char>),
                Seq<char>,
            >(e@),
        },
{
    let mechanism = match get_ident(block, "mechanism") {
        Some(mechanism) => mechanism,
        None => {
            return Err(output_error(name, "sasl block requires 'mechanism'"));
        },
    };
    let username = match get_string(block, "username") {
        Some(username) => username,
        None => {
            return Err(output_error(name, "sasl block requires 'username'"));
        },
    };
    match get_string(block, "password_file") {
        Some(file) => Ok((mechanism, username, file)),
        None => Err(output_error(name, "sasl block requires 'password_file'")),
    }
}

/// Reads the `sasl` block, given what its password file holds.
pub fn parse_sasl_block(name: &str, properties: &[Property], contents: Option<&str>) -> (r: Result<
    Option<SaslConfig>,
    OutputError,
>)
    ensures
        match r {
            Ok(sasl) => sasl_result(name@, properties@, option_view(contents)) == Ok::<
                Option<SaslView>,
                Seq<char>,
            >(option_view(sasl)),
            Err(e) => sasl_result(name@, properties@, option_view(contents)) == Err::<
                Option<SaslView>,
                Seq<char>,
            >(e@),
        },
{
    let block = match get_block(properties, "sasl") {
        None => {
            return Ok(None);
        },
        Some(block) => block.as_slice(),
    };
    let (mechanism, username, file) = match read_sasl_settings(name, block) {
        Ok(settings) => settings,
        Err(e) => {
            return Err(e);
        },
    };
    let raw: &str = match contents {
        Some(raw) => raw,
        None => {
            let rest = cat3("failed to read sasl password_file '", file.as_str(), "'");
            return Err(output_error(name, rest.as_str()));
        },
    };
    let password = match password_of(raw) {
        Some(password) => password,
        None => {
            let rest = cat3("sasl password_file '", file.as_str(), "' is empty");
            return Err(output_error(name, rest.as_str()));
        },
    };
    let spelled: &str = if text_eq(mechanism.as_str(), "plain") {
        "PLAIN"
    } else if text_eq(mechanism.as_str(), "scram_sha_256") {
        "SCRAM-SHA-256"
    } else if text_eq(mechanism.as_str(), "scram_sha_512") {
        "SCRAM-SHA-512"
    } else {
        let rest = cat3(
            "unsupported sasl mechanism '",
            mechanism.as_str(),
            "' (expected one of [\"plain\", \"scram_sha_256\", \"scram_sha_512\"])",
        );
        return Err(output_error(name, rest.as_str()));
    };
    Ok(Some(SaslConfig { mechanism: spelled.to_owned(), username, password }))
}

/// Which field of an event partitions the messages.
#[derive(Debug, Clone, Copy, PartialEq, Eq, Structural)]
pub enum KeyField {
    /// The address that the event came from.
    Source,
}

/// The settings that stand outside the `tls` and `sasl` blocks.
pub ghost struct PlainSettings {
    pub retry: RetryConfig,
    pub brokers: Seq<char>,
    pub topic: Seq<char>,
    pub compression: Seq<char>,
    pub acks: Seq<char>,
    pub queue_timeout: u64,
    pub key_field: Option<KeyField>,
}

/// Nanoseconds that a record waits for room in the client's queue by default.
pub const DEFAULT_QUEUE_TIMEOUT: u64 = 5_000_000_000;

pub open spec fn is_compression(word: Seq<char>) -> bool {
    word == "none"@ || word == "gzip"@ || word == "snappy"@ || word == "lz4"@ || word == "zstd"@
}

pub open spec fn is_acks(word: Seq<char>) -> bool {
    word == "0"@ || word == "1"@ || word == "all"@
}

/// A word setting with a default.
pub open spec fn ident_or(props: Seq<Property>, key: Seq<char>, default: Seq<char>) -> Seq<char> {
    match ident_at(props, key) {
        Some(word) => word,
        None => default,
    }
}

/// The message about a key field that is not supported.
pub open spec fn key_field_text(name: Seq<char>, word: Seq<char>) -> Seq<char> {
    output_text(
        name,
        "kafka `key` must be `source` (got `"@ + word
            + "`). Per-tenant or per-field partitioning by pipeline-internal workspace state is no longer supported; split the traffic into separate kafka outputs from the pipeline body and give each a static topic."@,
    )
}

/// What the settings outside the blocks are read as.
pub open spec fn plain_result(
    name: Seq<char>,
    props: Seq<Property>,
    retry_defaults: RetryConfig,
) -> Result<PlainSettings, Seq<char>> {
    let compression = ident_or(props, "compression"@, "none"@);
    let acks = ident_or(props, "acks"@, "all"@);
    match retry_result(props, retry_defaults) {
        Err(e) => Err(e),
        Ok(retry) => match (string_at(props, "brokers"@), string_at(props, "topic"@)) {
            (None, _) => Err(output_text(name, "kafka requires 'brokers'"@)),
            (Some(_), None) => Err(output_text(name, "kafka requires 'topic'"@)),
            (Some(brokers), Some(topic)) => if !is_compression(compression) {
                Err(
                    output_text(
                        name,
                        "invalid compression '"@ + compression
                            + "' (expected: none, gzip, snappy, lz4, zstd)"@,
                    ),
                )
            } else if !is_acks(acks) {
                Err(output_text(name, "invalid acks '"@ + acks + "' (expected: 0, 1, all)"@))
            } else {
                match wait_setting(props, "queue_timeout"@, DEFAULT_QUEUE_TIMEOUT) {
                    Err(e) => Err(e),
                    Ok(queue_timeout) => match ident_at(props, "key"@) {
                        None => Ok(
                            PlainSettings {
                                retry,
                                brokers,
                                topic,
                                compression,
                                acks,
                                queue_timeout,
                                key_field: None,
                            },
                        ),
                        Some(word) => if word == "source"@ {
                            Ok(
                                PlainSettings {
                                    retry,
                                    brokers,
                                    topic,
                                    compression,
                                    acks,
                                    queue_timeout,
                                    key_field: Some(KeyField::Source),
                                },
                            )
                        } else {
                            Err(key_field_text(name, word))
                        },
                    },
                }
            },
        },
    }
}

/// The settings outside the blocks.
#[derive(Debug)]
struct Plain {
    retry: RetryConfig,
    brokers: String,
    topic: String,
    compression: String,
    acks: String,
    queue_timeout: u64,
    key_field: Option<KeyField>,
}

impl View for Plain {
    type V = PlainSettings;

    closed spec fn view(&self) -> PlainSettings {
        PlainSettings {
            retry: self.retry,
            brokers: self.brokers@,
            topic: self.topic@,
            compression: self.compression@,
            acks: self.acks@,
            queue_timeout: self.queue_timeout,
            key_field: self.key_field,
        }
    }
}

fn get_ident_or(props: &[Property], key: &str, default: &str) -> (s: String)
    ensures
        s@ == ident_or(props@, key@, default@),
{
    match get_ident(props, key) {
        Some(word) => word,
        None => default.to_owned(),
    }
}

fn parse_plain(name: &str, properties: &[Property], retry_defaults: RetryConfig) -> (r: Result<
    Plain,
    OutputError,
>)
    ensures
        outcome(r) == plain_result(name@, properties@, retry_defaults),
{
    let retry = match RetryConfig::from_output_properties(properties, retry_defaults) {
        Ok(retry) => retry,
        Err(e) => {
            return Err(e);
        },
    };
    let brokers = match get_string(properties, "brokers") {
        Some(brokers) => brokers,
        None => {
            return Err(output_error(name, "kafka requires 'brokers'"));
        },
    };
    let topic = match get_string(properties, "topic") {
        Some(topic) => topic,
        None => {
            return Err(output_error(name, "kafka requires 'topic'"));
        },
    };
    let compression = get_ident_or(properties, "compression", "none");
    if !(text_eq(compression.as_str(), "none") || text_eq(compression.as_str(), "gzip") || text_eq(
        compression.as_str(),
        "snappy",
    ) || text_eq(compression.as_str(), "lz4") || text_eq(compression.as_str(), "zstd")) {
        let rest = cat3(
            "invalid compression '",
            compression.as_str(),
            "' (expected: none, gzip, snappy, lz4, zstd)",
        );
        return Err(output_error(name, rest.as_str()));
    }
    let acks = get_ident_or(properties, "acks", "all");
    if !(text_eq(acks.as_str(), "0") || text_eq(acks.as_str(), "1") || text_eq(
        acks.as_str(),
        "all",
    )) {
        let rest = cat3("invalid acks '", acks.as_str(), "' (expected: 0, 1, all)");
        return Err(output_error(name, rest.as_str()));
    }
    let queue_timeout: u64 = match parse_wait(properties, "queue_timeout", DEFAULT_QUEUE_TIMEOUT) {
        Ok(wait) => wait,
        Err(e) => {
            return Err(e);
        },
    };
    let key_field = match get_ident(properties, "key") {
        None => None,
        Some(word) => {
            if text_eq(word.as_str(), "source") {
                Some(KeyField::Source)
            } else {
                let rest = cat3(
                    "kafka `key` must be `source` (got `",
                    word.as_str(),
                    "`). Per-tenant or per-field partitioning by pipeline-internal workspace state is no longer supported; split the traffic into separate kafka outputs from the pipeline body and give each a static topic.",
                );
                return Err(output_error(name, rest.as_str()));
            }
        },
    };
    Ok(Plain { retry, brokers, topic, compression, acks, queue_timeout, key_field })
}

/// What is found before the password file is read: the settings outside the
/// blocks, TLS, and the refusal of PLAIN without TLS.
pub open spec fn before_password(
    name: Seq<char>,
    props: Seq<Property>,
    retry_defaults: RetryConfig,
) -> Result<(PlainSettings, Option<TlsView>), Seq<char>> {
    match plain_result(name, props, retry_defaults) {
        Err(e) => Err(e),
        Ok(plain) => match tls_result(name, props) {
            Err(e) => Err(e),
            Ok(tls) => if asks_for_plain(props) && tls is None {
                Err(plain_without_tls_text(name))
            } else {
                Ok((plain, tls))
            },
        },
    }
}

fn read_before_password(name: &str, properties: &[Property], retry_defaults: RetryConfig) -> (r:
    Result<(Plain, Option<ClientTlsConfig>), OutputError>)
    ensures
        match r {
            Ok((plain, tls)) => before_password(name@, properties@, retry_defaults) == Ok::<
                (PlainSettings, Option<TlsView>),
                Seq<char>,
            >((plain@, option_view(tls))),
            Err(e) => before_password(name@, properties@, retry_defaults) == Err::<
                (PlainSettings, Option<TlsView>),
                Seq<char>,
            >(e@),
        },
{
    let plain = match parse_plain(name, properties, retry_defaults) {
        Ok(plain) => plain,
        Err(e) => {
            return Err(e);
        },
    };
    let tls = match parse_tls_block(name, properties) {
        Ok(tls) => tls,
        Err(e) => {
            return Err(e);
        },
    };
    match pre_check_plain_requires_tls(name, properties, tls.as_ref()) {
        Ok(()) => Ok((plain, tls)),
        Err(e) => Err(e),
    }
}

/// Makes every check that comes before the password file is read, and names the
/// file; `None` where no file is needed.
pub fn password_file(name: &str, properties: &[Property], retry_defaults: RetryConfig) -> (r:
    Result<Option<String>, OutputError>)
    ensures
        match before_password(name@, properties@, retry_defaults) {
            Err(e) => r matches Err(x) && x@ == e,
            Ok(_) => match first_block(properties@, "sasl"@) {
                None => r matches Ok(None),
                Some(block) => match sasl_settings(name@, block) {
                    Err(e) => r matches Err(x) && x@ == e,
                    Ok((_, _, file)) => r matches Ok(Some(f)) && f@ == file,
                },
            },
        },
{
    match read_before_password(name, properties, retry_defaults) {
        Err(e) => Err(e),
        Ok(_) => match get_block(properties, "sasl") {
            None => Ok(None),
            Some(block) => match read_sasl_settings(name, block.as_slice()) {
                Err(e) => Err(e),
                Ok((_, _, file)) => Ok(Some(file)),
            },
        },
    }
}

/// What a whole configuration is read as.
pub open spec fn config_result(
    name: Seq<char>,
    props: Seq<Property>,
    retry_defaults: RetryConfig,
    contents: Option<Seq<char>>,
) -> Result<(PlainSettings, Option<TlsView>, Option<SaslView>), Seq<char>> {
    match before_password(name, props, retry_defaults) {
        Err(e) => Err(e),
        Ok((plain, tls)) => match sasl_result(name, props, contents) {
            Err(e) => Err(e),
            Ok(sasl) => Ok((plain, tls, sasl)),
        },
    }
}

/// The settings of the client, in the order in which they are made.
pub open spec fn client_settings(
    plain: PlainSettings,
    tls: Option<TlsView>,
    sasl: Option<SaslView>,
) -> Seq<(Seq<char>, Seq<char>)> {
    let base = seq![
        ("bootstrap.servers"@, plain.brokers),
        ("compression.type"@, plain.compression),
        ("acks"@, plain.acks),
        ("message.timeout.ms"@, "30000"@),
    ];
    let protocol = if tls is Some && sasl is Some {
        seq![("security.protocol"@, "sasl_ssl"@)]
    } else if tls is Some {
        seq![("security.protocol"@, "ssl"@)]
    } else if sasl is Some {
        seq![("security.protocol"@, "sasl_plaintext"@)]
    } else {
        Seq::empty()
    };
    let ca = match tls {
        Some(TlsView { ca: Some(path), .. }) => seq![("ssl.ca.location"@, path)],
        _ => Seq::empty(),
    };
    let client = match tls {
        Some(TlsView { cert: Some(cert), key: Some(key), .. }) => seq![
            ("ssl.certificate.location"@, cert),
            ("ssl.key.location"@, key),
        ],
        _ => Seq::empty(),
    };
    let user = match sasl {
        Some(s) => seq![
            ("sasl.mechanism"@, s.mechanism),
            ("sasl.username"@, s.username),
            ("sasl.password"@, s.password),
        ],
        None => Seq::empty(),
    };
    base + protocol + ca + client + user
}

/// A configured output.
#[derive(Debug)]
pub struct KafkaOutput {
    pub name: String,
    pub topic: String,
    pub key_field: Option<KeyField>,
    pub queue_timeout: u64,
    pub retry: RetryConfig,
    /// What the client is configured with.
    pub client: Vec<(String, String)>,
    pub metrics: OutputMetrics,
}

fn set(list: &mut Vec<(String, String)>, key: &str, value: &str)
    ensures
        pairs_view(final(list)@) == pairs_view(old(list)@).push((key@, value@)),
{
    list.push((key.to_owned(), value.to_owned()));
    assert(pairs_view(list@) =~= pairs_view(old(list)@).push((key@, value@)));
}

fn build_client(plain: &Plain, tls: &Option<ClientTlsConfig>, sasl: &Option<SaslConfig>) -> (list:
    Vec<(String, String)>)
    ensures
        pairs_view(list@) == client_settings(plain@, option_view(*tls), option_view(*sasl)),
{
    let mut list: Vec<(String, String)> = Vec::new();
    set(&mut list, "bootstrap.servers", plain.brokers.as_str());
    set(&mut list, "compression.type", plain.compression.as_str());
    set(&mut list, "acks", plain.acks.as_str());
    set(&mut list, "message.timeout.ms", "30000");
    if let Some(protocol) = security_protocol(tls.is_some(), sasl.is_some()) {
        set(&mut list, "security.protocol", protocol);
    }
    if let Some(t) = tls {
        if let Some(ca) = &t.ca_path {
            set(&mut list, "ssl.ca.location", ca.as_str());
        }
        if let Some(cert) = &t.cert_path {
            if let Some(key) = &t.key_path {
                set(&mut list, "ssl.certificate.location", cert.as_str());
                set(&mut list, "ssl.key.location", key.as_str());
            }
        }
    }
    if let Some(s) = sasl {
        set(&mut list, "sasl.mechanism", s.mechanism.as_str());
        set(&mut list, "sasl.username", s.username.as_str());
        set(&mut list, "sasl.password", s.password.as_str());
    }
    assert(pairs_view(list@) =~= client_settings(plain@, option_view(*tls), option_view(*sasl)));
    list
}

impl KafkaOutput {
    /// Whether the output holds what a configuration is read as.
    pub open spec fn holds(
        &self,
        name: Seq<char>,
        plain: PlainSettings,
        tls: Option<TlsView>,
        sasl: Option<SaslView>,
    ) -> bool {
        &&& self.name@ == name
        &&& self.topic@ == plain.topic
        &&& self.key_field == plain.key_field
        &&& self.queue_timeout == plain.queue_timeout
        &&& self.retry == plain.retry
        &&& pairs_view(self.client@) == client_settings(plain, tls, sasl)
        &&& self.metrics == OutputMetrics::zero()
    }

    /// Reads the configuration of the output, given what the password file holds.
    pub fn from_properties(
        name: &str,
        properties: &[Property],
        retry_defaults: RetryConfig,
        contents: Option<&str>,
    ) -> (r: Result<KafkaOutput, OutputError>)
        ensures
            match config_result(name@, properties@, retry_defaults, option_view(contents)) {
                Err(e) => r matches Err(x) && x@ == e,
                Ok((plain, tls, sasl)) => r matches Ok(output) && output.holds(
                    name@,
                    plain,
                    tls,
                    sasl,
                ),
            },
    {
        let (plain, tls) = match read_before_password(name, properties, retry_defaults) {
            Ok(found) => found,
            Err(e) => {
                return Err(e);
            },
        };
        let sasl = match parse_sasl_block(name, properties, contents) {
            Ok(sasl) => sasl,
            Err(e) => {
                return Err(e);
            },
        };
        proof {
            lemma_plain_word(name@, properties@, option_view(contents));
        }
        match require_tls_for_plain(name, sasl.as_ref(), tls.as_ref()) {
            Ok(()) => {},
            Err(e) => {
                return Err(e);
            },
        }
        let client = build_client(&plain, &tls, &sasl);
        Ok(
            KafkaOutput {
                name: name.to_owned(),
                topic: plain.topic,
                key_field: plain.key_field,
                queue_timeout: plain.queue_timeout,
                retry: plain.retry,
                client,
                metrics: OutputMetrics::new(),
            },
        )
    }

    /// The key of a record for an event from this source; none where the messages
    /// are not partitioned.
    pub fn resolve_key(&self, source: &str) -> (key: Option<String>)
        ensures
            option_view(key) == match self.key_field {
                Some(KeyField::Source) => Some(source@),
                None => None,
            },
    {
        match self.key_field {
            Some(KeyField::Source) => Some(source.to_owned()),
            None => None,
        }
    }
}

proof fn lemma_plain_word(name: Seq<char>, props: Seq<Property>, contents: Option<Seq<char>>)
    ensures
        sasl_result(name, props, contents) matches Ok(Some(s)) ==> (s.mechanism == "PLAIN"@
            <==> asks_for_plain(props)),
{
    reveal_strlit("PLAIN");
    reveal_strlit("SCRAM-SHA-256");
    reveal_strlit("SCRAM-SHA-512");
    reveal_strlit("plain");
    reveal_strlit("scram_sha_256");
    reveal_strlit("scram_sha_512");
    assert("PLAIN"@.len() != "SCRAM-SHA-256"@.len());
    assert("PLAIN"@.len() != "SCRAM-SHA-512"@.len());
}

/// No accepted configuration sends a PLAIN password over a connection without TLS;
/// one that asks for it is refused before its password file is read, whatever the
/// file holds.
pub proof fn law_plain_runs_over_tls(
    name: Seq<char>,
    props: Seq<Property>,
    retry_defaults: RetryConfig,
    contents: Option<Seq<char>>,
)
    ensures
        config_result(name, props, retry_defaults, contents) matches Ok((_, tls, sasl)) ==> (
        sasl matches Some(s) && s.mechanism == "PLAIN"@ ==> tls is Some),
        asks_for_plain(props) && first_block(props, "tls"@) is None ==> before_password(
            name,
            props,
            retry_defaults,
        ) is Err,
{
    lemma_plain_word(name, props, contents);
}

/// A password is taken without the one line ending that an editor leaves behind,
/// and the same password results from each of the three line endings.
pub proof fn law_line_ending_is_no_part_of_the_password(password: Seq<char>)
    requires
        password.len() == 0 || (password.last() != '\r' && password.last() != '\n'),
    ensures
        without_line_ending(password) == password,
        without_line_ending(password.push('\n')) == password,
        without_line_ending(password.push('\r')) == password,
        without_line_ending(password.push('\r').push('\n')) == password,
{
    assert(without_line_ending(password.push('\n')) =~= password);
    assert(without_line_ending(password.push('\r')) =~= password);
    assert(without_line_ending(password.push('\r').push('\n')) =~= password);
}

} // verus!
