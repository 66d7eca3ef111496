//! Log data as the OTLP outputs handle it.
//!
//! What the outputs look into (resources, scopes, attribute keys, schema URLs) is
//! held as plain values. Attribute values and log records are only compared and
//! carried, and are held as their protobuf encodings.
use opentelemetry_proto::tonic::collector::logs::v1 as collector;
use opentelemetry_proto::tonic::common::v1 as common;
use opentelemetry_proto::tonic::logs::v1 as logs;
use opentelemetry_proto::tonic::resource::v1 as resource;
use prost::Message;
use vstd::prelude::*;

verus! {

/// An attribute; the value is the encoding of an `AnyValue`.
#[derive(Debug)]
pub struct KeyValue {
    pub key: String,
    pub value: Option<Vec<u8>>,
}

/// What produced the records.
#[derive(Debug)]
pub struct Resource {
    pub attributes: Vec<KeyValue>,
    pub dropped_attributes_count: u32,
}

/// The part of a program that emitted the records.
#[derive(Debug)]
pub struct InstrumentationScope {
    pub name: String,
    pub version: String,
    pub attributes: Vec<KeyValue>,
    pub dropped_attributes_count: u32,
}

/// Records of one scope; each record is the encoding of a `LogRecord`.
#[derive(Debug)]
pub struct ScopeLogs {
    pub scope: Option<InstrumentationScope>,
    pub log_records: Vec<Vec<u8>>,
    pub schema_url: String,
}

/// Records of one resource.
#[derive(Debug)]
pub struct ResourceLogs {
    pub resource: Option<Resource>,
    pub scope_logs: Vec<ScopeLogs>,
    pub schema_url: String,
}

/// The body of one export call.
#[derive(Debug)]
pub struct ExportLogsServiceRequest {
    pub resource_logs: Vec<ResourceLogs>,
}

pub ghost struct KeyValueView {
    pub key: Seq<char>,
    pub value: Option<Seq<u8>>,
}

pub ghost struct ResourceView {
    pub attributes: Seq<KeyValueView>,
    pub dropped: u32,
}

pub ghost struct ScopeView {
    pub name: Seq<char>,
    pub version: Seq<char>,
    pub attributes: Seq<KeyValueView>,
    pub dropped: u32,
}

pub ghost struct ScopeLogsView {
    pub scope: Option<ScopeView>,
    pub records: Seq<Seq<u8>>,
    pub schema_url: Seq<char>,
}

pub ghost struct ResourceLogsView {
    pub resource: Option<ResourceView>,
    pub scope_logs: Seq<ScopeLogsView>,
    pub schema_url: Seq<char>,
}

impl View for KeyValue {
    type V = KeyValueView;

    open spec fn view(&self) -> KeyValueView {
        KeyValueView {
            key: self.key@,
            value: match self.value {
                Some(bytes) => Some(bytes@),
                None => None,
            },
        }
    }
}

/// Attributes by their views.
pub open spec fn attribute_views(attributes: Seq<KeyValue>) -> Seq<KeyValueView> {
    attributes.map_values(|a: KeyValue| a@)
}

impl View for Resource {
    type V = ResourceView;

    open spec fn view(&self) -> ResourceView {
        ResourceView {
            attributes: attribute_views(self.attributes@),
            dropped: self.dropped_attributes_count,
        }
    }
}

impl View for InstrumentationScope {
    type V = ScopeView;

    open spec fn view(&self) -> ScopeView {
        ScopeView {
            name: self.name@,
            version: self.version@,
            attributes: attribute_views(self.attributes@),
            dropped: self.dropped_attributes_count,
        }
    }
}

/// Records by their views.
pub open spec fn record_views(records: Seq<Vec<u8>>) -> Seq<Seq<u8>> {
    records.map_values(|r: Vec<u8>| r@)
}

impl View for ScopeLogs {
    type V = ScopeLogsView;

    open spec fn view(&self) -> ScopeLogsView {
        ScopeLogsView {
            scope: match self.scope {
                Some(scope) => Some(scope@),
                None => None,
            },
            records: record_views(self.log_records@),
            schema_url: self.schema_url@,
        }
    }
}

pub open spec fn scope_logs_views(list: Seq<ScopeLogs>) -> Seq<ScopeLogsView> {
    list.map_values(|s: ScopeLogs| s@)
}

impl View for ResourceLogs {
    type V = ResourceLogsView;

    open spec fn view(&self) -> ResourceLogsView {
        ResourceLogsView {
            resource: match self.resource {
                Some(resource) => Some(resource@),
                None => None,
            },
            scope_logs: scope_logs_views(self.scope_logs@),
            schema_url: self.schema_url@,
        }
    }
}

pub open spec fn resource_logs_views(list: Seq<ResourceLogs>) -> Seq<ResourceLogsView> {
    list.map_values(|r: ResourceLogs| r@)
}

impl View for ExportLogsServiceRequest {
    type V = Seq<ResourceLogsView>;

    open spec fn view(&self) -> Seq<ResourceLogsView> {
        resource_logs_views(self.resource_logs@)
    }
}

/// Whether two encodings of `AnyValue` decode to equal values.
pub uninterp spec fn any_values_equal(a: Seq<u8>, b: Seq<u8>) -> bool;

/// Decodes both encodings with `prost::Message::decode` and compares what comes out
/// with the `==` that `opentelemetry_proto` derives for `AnyValue`. The contract
/// claims that the verdict depends on the two encodings, and that this `==`, which
/// compares field by field, can be turned round and chained: where the two are
/// equal, whatever equals the second equals whatever the first equals. It does not
/// claim that a value equals itself: a floating-point value that is no number does
/// not.
#[verifier::external_body]
pub(crate) fn same_any_value(a: &[u8], b: &[u8]) -> (r: bool)
    ensures
        r == any_values_equal(a@, b@),
        r ==> forall|c: Seq<u8>, d: Seq<u8>|
            any_values_equal(c, b@) && any_values_equal(a@, d) ==> #[trigger] any_values_equal(c, d),
{
    common::AnyValue::decode(a) == common::AnyValue::decode(b)
}

/// Records of one resource whose parts are held as their protobuf encodings: that of
/// a `Resource`, and those of `ScopeLogs`.
#[derive(Debug)]
pub struct Envelope {
    pub resource: Option<Vec<u8>>,
    pub scope_logs: Vec<Vec<u8>>,
    pub schema_url: String,
}

pub ghost struct EnvelopeView {
    pub resource: Option<Seq<u8>>,
    pub scope_logs: Seq<Seq<u8>>,
    pub schema_url: Seq<char>,
}

impl View for Envelope {
    type V = EnvelopeView;

    open spec fn view(&self) -> EnvelopeView {
        EnvelopeView {
            resource: match self.resource {
                Some(bytes) => Some(bytes@),
                None => None,
            },
            scope_logs: record_views(self.scope_logs@),
            schema_url: self.schema_url@,
        }
    }
}

pub open spec fn envelope_views(list: Seq<Envelope>) -> Seq<EnvelopeView> {
    list.map_values(|e: Envelope| e@)
}

/// What a protobuf encoding of `ResourceLogs` decodes to; nothing where it is not
/// one.
pub uninterp spec fn decoded_envelope(bytes: Seq<u8>) -> Option<EnvelopeView>;

/// Decodes with `prost::Message::decode` of `ResourceLogs`, and encodes the resource
/// and each entry again with `encode_to_vec`. The contract claims only that the
/// result depends on the bytes.
#[verifier::external_body]
pub(crate) fn decode_envelope(bytes: &[u8]) -> (r: Option<Envelope>)
    ensures
        crate::error::option_view(r) == decoded_envelope(bytes@),
{
    let m = logs::ResourceLogs::decode(bytes).ok()?;
    Some(
        Envelope {
            resource: m.resource.map(|r| r.encode_to_vec()),
            scope_logs: m.scope_logs.iter().map(|s| s.encode_to_vec()).collect(),
            schema_url: m.schema_url,
        },
    )
}

/// What a protobuf encoding of `Resource` decodes to.
pub uninterp spec fn decoded_resource(bytes: Seq<u8>) -> ResourceView;

/// Decodes with `prost::Message::decode` of `Resource`; bytes that are no encoding
/// stand for the default message. Attribute values are encoded again with
/// `encode_to_vec`. The contract claims only that the result depends on the bytes.
#[verifier::external_body]
pub(crate) fn decode_resource(bytes: &[u8]) -> (r: Resource)
    ensures
        r@ == decoded_resource(bytes@),
{
    let m = resource::Resource::decode(bytes).unwrap_or_default();
    let attribute = |a: common::KeyValue|
        KeyValue { key: a.key, value: a.value.map(|v| v.encode_to_vec()) };
    Resource {
        attributes: m.attributes.into_iter().map(attribute).collect(),
        dropped_attributes_count: m.dropped_attributes_count,
    }
}

/// What a protobuf encoding of `ScopeLogs` decodes to.
pub uninterp spec fn decoded_scope_logs(bytes: Seq<u8>) -> ScopeLogsView;

/// Decodes with `prost::Message::decode` of `ScopeLogs`; bytes that are no encoding
/// stand for the default message. Attribute values and records are encoded again
/// with `encode_to_vec`. The contract claims only that the result depends on the
/// bytes.
#[verifier::external_body]
pub(crate) fn decode_scope_logs(bytes: &[u8]) -> (r: ScopeLogs)
    ensures
        r@ == decoded_scope_logs(bytes@),
{
    let m = logs::ScopeLogs::decode(bytes).unwrap_or_default();
    let attribute = |a: common::KeyValue|
        KeyValue { key: a.key, value: a.value.map(|v| v.encode_to_vec()) };
    let scope = m.scope.map(|c| InstrumentationScope {
        name: c.name,
        version: c.version,
        attributes: c.attributes.into_iter().map(attribute).collect(),
        dropped_attributes_count: c.dropped_attributes_count,
    });
    let log_records = m.log_records.iter().map(|l| l.encode_to_vec()).collect();
    ScopeLogs { scope, log_records, schema_url: m.schema_url }
}

/// What a protobuf encoding of `ResourceLogs` decodes to, with its parts; nothing
/// where it is not one.
pub open spec fn decoded_resource_logs(bytes: Seq<u8>) -> Option<ResourceLogsView> {
    match decoded_envelope(bytes) {
        None => None,
        Some(e) => Some(
            ResourceLogsView {
                resource: match e.resource {
                    Some(resource) => Some(decoded_resource(resource)),
                    None => None,
                },
                scope_logs: e.scope_logs.map_values(|part: Seq<u8>| decoded_scope_logs(part)),
                schema_url: e.schema_url,
            },
        ),
    }
}

/// Decodes the records of one resource.
pub fn decode_resource_logs(bytes: &[u8]) -> (r: Option<ResourceLogs>)
    ensures
        crate::error::option_view(r) == decoded_resource_logs(bytes@),
{
    let envelope = match decode_envelope(bytes) {
        Some(envelope) => envelope,
        None => {
            return None;
        },
    };
    let resource = match &envelope.resource {
        Some(part) => Some(decode_resource(part.as_slice())),
        None => None,
    };
    let mut scope_logs: Vec<ScopeLogs> = Vec::new();
    for i in 0..envelope.scope_logs.len()
        invariant
            scope_logs@.len() == i,
            forall|j: int|
                0 <= j < i ==> (#[trigger] scope_logs@[j])@ == decoded_scope_logs(
                    envelope.scope_logs@[j]@,
                ),
    {
        let part = decode_scope_logs(envelope.scope_logs[i].as_slice());
        scope_logs.push(part);
    }
    let ghost parts = envelope@.scope_logs.map_values(|part: Seq<u8>| decoded_scope_logs(part));
    assert(scope_logs_views(scope_logs@) =~= parts);
    Some(ResourceLogs { resource, scope_logs, schema_url: envelope.schema_url })
}

/// The protobuf encoding of a `Resource`.
pub uninterp spec fn encoded_resource(resource: ResourceView) -> Seq<u8>;

/// Puts a `Resource` together and encodes it with `prost::Message::encode_to_vec`;
/// attribute values are decoded first, one that is no encoding standing for the
/// default. The contract claims only that the bytes depend on what the resource
/// holds.
#[verifier::external_body]
pub(crate) fn encode_resource(r: &Resource) -> (bytes: Vec<u8>)
    ensures
        bytes@ == encoded_resource(r@),
{
    let value = |v: &Vec<u8>| common::AnyValue::decode(&v[..]).unwrap_or_default();
    let attribute = |a: &KeyValue|
        common::KeyValue { key: a.key.clone(), value: a.value.as_ref().map(value) };
    let m = resource::Resource {
        attributes: r.attributes.iter().map(attribute).collect(),
        dropped_attributes_count: r.dropped_attributes_count,
    };
    m.encode_to_vec()
}

/// The protobuf encoding of `ScopeLogs`.
pub uninterp spec fn encoded_scope_logs(part: ScopeLogsView) -> Seq<u8>;

/// Puts `ScopeLogs` together and encodes them with `prost::Message::encode_to_vec`;
/// attribute values and records are decoded first, one that is no encoding standing
/// for the default. The contract claims only that the bytes depend on what the
/// argument holds.
#[verifier::external_body]
pub(crate) fn encode_scope_logs(s: &ScopeLogs) -> (bytes: Vec<u8>)
    ensures
        bytes@ == encoded_scope_logs(s@),
{
    let scope = s.scope.as_ref().map(|c| common::InstrumentationScope {
        name: c.name.clone(),
        version: c.version.clone(),
        attributes: c.attributes.iter().map(|a| common::KeyValue {
            key: a.key.clone(),
            value: a.value.as_ref().map(|v| Message::decode(&v[..]).unwrap_or_default()),
        }).collect(),
        dropped_attributes_count: c.dropped_attributes_count,
    });
    let records = s.log_records.iter().map(|l| Message::decode(&l[..]).unwrap_or_default());
    let log_records = records.collect();
    let m = logs::ScopeLogs { scope, log_records, schema_url: s.schema_url.clone() };
    m.encode_to_vec()
}

/// The protobuf encoding of an `ExportLogsServiceRequest` with these entries.
pub uninterp spec fn encoded_export(entries: Seq<EnvelopeView>) -> Seq<u8>;

/// Puts an `ExportLogsServiceRequest` together and encodes it with
/// `prost::Message::encode_to_vec`; the parts are decoded first, one that is no
/// encoding standing for the default. The contract claims only that the bytes depend
/// on what the entries hold.
#[verifier::external_body]
pub(crate) fn encode_export(entries: &Vec<Envelope>) -> (bytes: Vec<u8>)
    ensures
        bytes@ == encoded_export(envelope_views(entries@)),
{
    let resource = |b: &Vec<u8>| resource::Resource::decode(&b[..]).unwrap_or_default();
    let part = |b: &Vec<u8>| logs::ScopeLogs::decode(&b[..]).unwrap_or_default();
    let entry = |e: &Envelope| logs::ResourceLogs {
        resource: e.resource.as_ref().map(resource),
        scope_logs: e.scope_logs.iter().map(part).collect(),
        schema_url: e.schema_url.clone(),
    };
    let resource_logs = entries.iter().map(entry).collect();
    collector::ExportLogsServiceRequest { resource_logs }.encode_to_vec()
}

/// The JSON text of an `ExportLogsServiceRequest` with these entries; nothing where
/// it cannot be written.
pub uninterp spec fn export_json(entries: Seq<EnvelopeView>) -> Option<Seq<u8>>;

/// Puts an `ExportLogsServiceRequest` together and writes it with
/// `serde_json::to_vec`; the parts are decoded first, one that is no encoding
/// standing for the default. The contract claims only that the text depends on what
/// the entries hold.
#[verifier::external_body]
pub(crate) fn json_of_export(entries: &Vec<Envelope>) -> (json: Option<Vec<u8>>)
    ensures
        crate::error::option_view(json) == export_json(envelope_views(entries@)),
{
    let resource = |b: &Vec<u8>| resource::Resource::decode(&b[..]).unwrap_or_default();
    let part = |b: &Vec<u8>| logs::ScopeLogs::decode(&b[..]).unwrap_or_default();
    let entry = |e: &Envelope| logs::ResourceLogs {
        resource: e.resource.as_ref().map(resource),
        scope_logs: e.scope_logs.iter().map(part).collect(),
        schema_url: e.schema_url.clone(),
    };
    let resource_logs = entries.iter().map(entry).collect();
    serde_json::to_vec(&collector::ExportLogsServiceRequest { resource_logs }).ok()
}

/// An entry with its parts encoded.
pub open spec fn enveloped(entry: ResourceLogsView) -> EnvelopeView {
    EnvelopeView {
        resource: match entry.resource {
            Some(resource) => Some(encoded_resource(resource)),
            None => None,
        },
        scope_logs: entry.scope_logs.map_values(|part: ScopeLogsView| encoded_scope_logs(part)),
        schema_url: entry.schema_url,
    }
}

/// The entries of an export call with their parts encoded.
pub open spec fn all_enveloped(body: Seq<ResourceLogsView>) -> Seq<EnvelopeView> {
    body.map_values(|entry: ResourceLogsView| enveloped(entry))
}

/// The protobuf encoding of an export call with this body.
pub open spec fn encoded_request(body: Seq<ResourceLogsView>) -> Seq<u8> {
    encoded_export(all_enveloped(body))
}

/// The JSON text of an export call with this body; nothing where it cannot be
/// written.
pub open spec fn json_request(body: Seq<ResourceLogsView>) -> Option<Seq<u8>> {
    export_json(all_enveloped(body))
}

fn envelope_of(entry: &ResourceLogs) -> (e: Envelope)
    ensures
        e@ == enveloped(entry@),
{
    let resource = match &entry.resource {
        Some(resource) => Some(encode_resource(resource)),
        None => None,
    };
    let mut scope_logs: Vec<Vec<u8>> = Vec::new();
    for i in 0..entry.scope_logs.len()
        invariant
            scope_logs@.len() == i,
            forall|j: int|
                0 <= j < i ==> (#[trigger] scope_logs@[j])@ == encoded_scope_logs(
                    entry.scope_logs@[j]@,
                ),
    {
        let part = encode_scope_logs(&entry.scope_logs[i]);
        scope_logs.push(part);
    }
    let ghost parts = entry@.scope_logs.map_values(|part: ScopeLogsView| encoded_scope_logs(part));
    assert(record_views(scope_logs@) =~= parts);
    Envelope { resource, scope_logs, schema_url: entry.schema_url.clone() }
}

fn envelopes_of(request: &ExportLogsServiceRequest) -> (entries: Vec<Envelope>)
    ensures
        envelope_views(entries@) == all_enveloped(request@),
{
    let mut entries: Vec<Envelope> = Vec::new();
    for i in 0..request.resource_logs.len()
        invariant
            entries@.len() == i,
            forall|j: int|
                0 <= j < i ==> (#[trigger] entries@[j])@ == enveloped(request.resource_logs@[j]@),
    {
        let entry = envelope_of(&request.resource_logs[i]);
        entries.push(entry);
    }
    assert(envelope_views(entries@) =~= all_enveloped(request@));
    entries
}

/// Encodes an export call.
pub fn encode_request(request: &ExportLogsServiceRequest) -> (bytes: Vec<u8>)
    ensures
        bytes@ == encoded_request(request@),
{
    let entries = envelopes_of(request);
    encode_export(&entries)
}

/// Writes an export call as JSON.
pub fn write_json_request(request: &ExportLogsServiceRequest) -> (json: Option<Vec<u8>>)
    ensures
        crate::error::option_view(json) == json_request(request@),
{
    let entries = envelopes_of(request);
    json_of_export(&entries)
}

/// The number of rejected records that a protobuf encoding of an export response
/// reports; nothing where it is no encoding or reports no partial success.
pub uninterp spec fn decoded_rejections(bytes: Seq<u8>) -> Option<i64>;

/// Decodes with `prost::Message::decode` of `ExportLogsServiceResponse` and hands
/// out `partial_success.rejected_log_records`. The contract claims only that the
/// result depends on the bytes.
#[verifier::external_body]
pub(crate) fn decode_rejections(bytes: &[u8]) -> (r: Option<i64>)
    ensures
        r == decoded_rejections(bytes@),
{
    let response = collector::ExportLogsServiceResponse::decode(bytes).ok()?;
    response.partial_success.map(|p| p.rejected_log_records)
}

/// The number of rejected records that a JSON export response reports; nothing
/// where it is no such response or reports no partial success.
pub uninterp spec fn parsed_rejections(bytes: Seq<u8>) -> Option<i64>;

/// Parses with `serde_json::from_slice` into `ExportLogsServiceResponse` and hands
/// out `partial_success.rejected_log_records`. The contract claims only that the
/// result depends on the bytes.
#[verifier::external_body]
pub(crate) fn parse_rejections(bytes: &[u8]) -> (r: Option<i64>)
    ensures
        r == parsed_rejections(bytes@),
{
    let response = serde_json::from_slice::<collector::ExportLogsServiceResponse>(bytes).ok()?;
    response.partial_success.map(|p| p.rejected_log_records)
}

} // verus!
