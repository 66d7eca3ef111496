//! What merging of log data keeps and what it puts together, said of the fields of
//! resources, scopes and attributes.
use crate::otlp::laws::{
    batch_triples, law_merge_keeps_arrival_order, law_merge_keeps_every_triple,
    law_merged_entries_are_apart, law_merged_scopes_are_apart, logs_of_home,
};
use crate::otlp::merge::{
    attributes_match, by_resource, decoded_batch, entry_join, is_pairing, level_named, merged_to,
    pairs_match, request_result, resources_match, scope_join, scopes_match, scopes_merged,
    urls_compatible, BatchLevel,
};
use crate::otlp::model::{
    all_enveloped, any_values_equal, attribute_views, decoded_envelope, decoded_resource,
    decoded_resource_logs, decoded_scope_logs, InstrumentationScope,
    KeyValue, KeyValueView, Resource, ResourceLogs, ResourceLogsView, ResourceView, ScopeLogs,
    ScopeLogsView, ScopeView,
};
use vstd::multiset::Multiset;
use vstd::prelude::*;

verus! {

/// Whether two attributes say the same: equal keys, and values that are both missing
/// or compare equal.
pub open spec fn same_attribute(a: KeyValueView, b: KeyValueView) -> bool {
    &&& a.key == b.key
    &&& a.value is Some <==> b.value is Some
    &&& a.value is Some ==> any_values_equal(a.value->0, b.value->0)
}

/// Whether one list of attributes is the other in some order, up to equal values.
pub open spec fn same_in_some_order(a: Seq<KeyValueView>, b: Seq<KeyValueView>) -> bool {
    a.len() == b.len() && exists|place: Seq<int>| #[trigger] reorders(a, b, place)
}

/// Whether `place` says where in the other list each attribute stands.
pub open spec fn reorders(a: Seq<KeyValueView>, b: Seq<KeyValueView>, place: Seq<int>) -> bool {
    &&& place.len() == a.len()
    &&& place.no_duplicates()
    &&& forall|i: int|
        0 <= i < a.len() ==> 0 <= #[trigger] place[i] < b.len() && same_attribute(
            a[i],
            b[place[i]],
        )
}

proof fn lemma_same_attributes(a: Seq<KeyValueView>, b: Seq<KeyValueView>)
    ensures
        attributes_match(a, b) <==> same_in_some_order(a, b),
{
    assert forall|i: int, j: int| pairs_match(#[trigger] a[i], #[trigger] b[j]) <==> same_attribute(
        a[i],
        b[j],
    ) by {}
    if attributes_match(a, b) {
        let to = choose|to: Seq<int>| is_pairing(a, b, to);
        assert forall|i: int, j: int|
            0 <= i < to.len() && 0 <= j < to.len() && i != j implies to[i] != to[j] by {
            if i < j {
                assert(to[i] != to[j]);
            } else {
                assert(to[j] != to[i]);
            }
        }
        assert(reorders(a, b, to));
    }
    if same_in_some_order(a, b) {
        let to = choose|to: Seq<int>| #[trigger] reorders(a, b, to);
        assert(is_pairing(a, b, to));
    }
}

/// Two scopes are the same exactly if name, version and dropped count are literally
/// the same and the attributes are, in some order.
pub proof fn law_same_scope(a: InstrumentationScope, b: InstrumentationScope)
    ensures
        scopes_match(Some(a@), Some(b@)) <==> {
            &&& a.name@ == b.name@
            &&& a.version@ == b.version@
            &&& a.dropped_attributes_count == b.dropped_attributes_count
            &&& same_in_some_order(attribute_views(a.attributes@), attribute_views(b.attributes@))
        },
        scopes_match(None, None),
        !scopes_match(Some(a@), None) && !scopes_match(None, Some(b@)),
{
    lemma_same_attributes(attribute_views(a.attributes@), attribute_views(b.attributes@));
}

/// Two resources are the same exactly if the dropped count is literally the same and
/// the attributes are, in some order.
pub proof fn law_same_resource(a: Resource, b: Resource)
    ensures
        resources_match(Some(a@), Some(b@)) <==> {
            &&& a.dropped_attributes_count == b.dropped_attributes_count
            &&& same_in_some_order(attribute_views(a.attributes@), attribute_views(b.attributes@))
        },
        resources_match(None, None),
        !resources_match(Some(a@), None) && !resources_match(None, Some(b@)),
{
    lemma_same_attributes(attribute_views(a.attributes@), attribute_views(b.attributes@));
}

/// An attribute is seen by its key and its value, missing or not.
pub proof fn law_attributes_are_seen_whole(list: Seq<KeyValue>, i: int)
    requires
        0 <= i < list.len(),
    ensures
        attribute_views(list).len() == list.len(),
        attribute_views(list)[i].key == list[i].key@,
        match list[i].value {
            Some(bytes) => attribute_views(list)[i].value == Some(bytes@),
            None => attribute_views(list)[i].value is None,
        },
{
}

/// A scope as a label: its name, version and dropped count, and its attributes by
/// their tags, in no order.
pub open spec fn scope_label<A>(s: Option<ScopeView>, tag: spec_fn(KeyValueView) -> A) -> Option<
    (Seq<char>, Seq<char>, u32, Multiset<A>),
> {
    match s {
        Some(x) => Some((x.name, x.version, x.dropped, x.attributes.map_values(tag).to_multiset())),
        None => None,
    }
}

/// A resource as a label.
pub open spec fn resource_label<A>(r: Option<ResourceView>, tag: spec_fn(KeyValueView) -> A) -> Option<
    (u32, Multiset<A>),
> {
    match r {
        Some(x) => Some((x.dropped, x.attributes.map_values(tag).to_multiset())),
        None => None,
    }
}

proof fn lemma_reordering_keeps_tags<A>(
    a: Seq<KeyValueView>,
    b: Seq<KeyValueView>,
    place: Seq<int>,
    tag: spec_fn(KeyValueView) -> A,
)
    requires
        a.len() == b.len(),
        reorders(a, b, place),
        forall|x: KeyValueView, y: KeyValueView| #[trigger]
            same_attribute(x, y) ==> tag(x) == tag(y),
    ensures
        a.map_values(tag).to_multiset() == b.map_values(tag).to_multiset(),
    decreases a.len(),
{
    broadcast use vstd::seq_lib::group_to_multiset_ensures;

    let ta = a.map_values(tag);
    let tb = b.map_values(tag);
    if a.len() == 0 {
        assert(ta =~= tb);
    } else {
        let n = a.len() - 1;
        let k = place[n];
        let shorter = a.drop_last();
        let others = b.remove(k);
        let less = Seq::new(
            n as nat,
            |i: int|
                if place[i] < k {
                    place[i]
                } else {
                    place[i] - 1
                },
        );
        assert forall|i: int| 0 <= i < shorter.len() implies 0 <= #[trigger] less[i] < others.len()
            && same_attribute(shorter[i], others[less[i]]) by {
            assert(place[i] != place[n]);
            assert(0 <= place[i] < b.len() && same_attribute(a[i], b[place[i]]));
        }
        assert(less.no_duplicates()) by {
            assert forall|i: int, j: int|
                0 <= i < less.len() && 0 <= j < less.len() && i != j implies less[i] != less[j] by {
                assert(place[i] != place[n] && place[j] != place[n] && place[i] != place[j]);
            }
        }
        lemma_reordering_keeps_tags(shorter, others, less, tag);
        assert(ta =~= shorter.map_values(tag).push(tag(a[n])));
        assert(others.map_values(tag) =~= tb.remove(k));
        assert(tag(a[n]) == tb[k]);
        assert(tb.to_multiset() =~= tb.remove(k).to_multiset().insert(tb[k])) by {
            assert(tb.to_multiset().count(tb[k]) > 0);
        }
    }
}

/// Every record is sent under what it arrived under: whatever the level, the records
/// of a batch go with the same names, versions, dropped counts and attributes before
/// and after. Attributes are told apart in any way that tells no two apart which have
/// the same key and equal values.
pub proof fn law_every_record_keeps_its_labels<A>(
    entries: Seq<ResourceLogsView>,
    level: BatchLevel,
    tag: spec_fn(KeyValueView) -> A,
)
    requires
        forall|x: KeyValueView, y: KeyValueView| #[trigger]
            same_attribute(x, y) ==> tag(x) == tag(y),
    ensures
        ({
            let of_resource = |r: Option<ResourceView>| resource_label(r, tag);
            let of_scope = |s: Option<ScopeView>| scope_label(s, tag);
            batch_triples(merged_to(entries, level), of_resource, of_scope) == batch_triples(
                entries,
                of_resource,
                of_scope,
            )
        }),
{
    let of_resource = |r: Option<ResourceView>| resource_label(r, tag);
    let of_scope = |s: Option<ScopeView>| scope_label(s, tag);
    assert forall|x: Option<ResourceView>, y: Option<ResourceView>| #[trigger]
        resources_match(x, y) implies of_resource(x) == of_resource(y) by {
        if x is Some && y is Some {
            let a = x->0.attributes;
            let b = y->0.attributes;
            lemma_same_attributes(a, b);
            let place = choose|place: Seq<int>| #[trigger] reorders(a, b, place);
            lemma_reordering_keeps_tags(a, b, place, tag);
        }
    }
    assert forall|x: Option<ScopeView>, y: Option<ScopeView>| #[trigger]
        scopes_match(x, y) implies of_scope(x) == of_scope(y) by {
        if x is Some && y is Some {
            let a = x->0.attributes;
            let b = y->0.attributes;
            lemma_same_attributes(a, b);
            let place = choose|place: Seq<int>| #[trigger] reorders(a, b, place);
            lemma_reordering_keeps_tags(a, b, place, tag);
        }
    }
    law_merge_keeps_every_triple(entries, level, of_resource, of_scope);
}

/// What can go together does: of a batch merged by resource, no two entries have
/// the same resource and schema URLs of which one is missing or both are equal.
pub proof fn law_same_resources_end_up_together(entries: Seq<ResourceLogsView>, i: int, j: int)
    requires
        0 <= i < j < by_resource(entries).len(),
    ensures
        ({
            let a = by_resource(entries)[i];
            let b = by_resource(entries)[j];
            &&& a.resource is None && b.resource is None ==> a.schema_url.len() > 0
                && b.schema_url.len() > 0 && a.schema_url != b.schema_url
            &&& a.resource is Some && b.resource is Some && a.resource->0.dropped
                == b.resource->0.dropped && same_in_some_order(
                a.resource->0.attributes,
                b.resource->0.attributes,
            ) ==> a.schema_url.len() > 0 && b.schema_url.len() > 0 && a.schema_url != b.schema_url
        }),
{
    law_merged_entries_are_apart(entries, i, j);
    let a = by_resource(entries)[i];
    let b = by_resource(entries)[j];
    if a.resource is Some && b.resource is Some {
        lemma_same_attributes(a.resource->0.attributes, b.resource->0.attributes);
    }
}

/// The same of the logs of scopes inside one resource.
pub proof fn law_same_scopes_end_up_together(list: Seq<ScopeLogsView>, i: int, j: int)
    requires
        0 <= i < j < scopes_merged(list).len(),
    ensures
        ({
            let a = scopes_merged(list)[i];
            let b = scopes_merged(list)[j];
            &&& a.scope is None && b.scope is None ==> a.schema_url.len() > 0 && b.schema_url.len()
                > 0 && a.schema_url != b.schema_url
            &&& a.scope is Some && b.scope is Some && a.scope->0.name == b.scope->0.name
                && a.scope->0.version == b.scope->0.version && a.scope->0.dropped
                == b.scope->0.dropped && same_in_some_order(
                a.scope->0.attributes,
                b.scope->0.attributes,
            ) ==> a.schema_url.len() > 0 && b.schema_url.len() > 0 && a.schema_url != b.schema_url
        }),
{
    law_merged_scopes_are_apart(list, i, j);
    let a = scopes_merged(list)[i];
    let b = scopes_merged(list)[j];
    if a.scope is Some && b.scope is Some {
        lemma_same_attributes(a.scope->0.attributes, b.scope->0.attributes);
    }
}

/// What two entries become when one takes in the other: the logs of both, in order,
/// under the resource of the first, and the schema URL that either has.
pub proof fn law_joining_takes_in_the_whole(a: ResourceLogs, b: ResourceLogs, i: int)
    requires
        urls_compatible(a.schema_url@, b.schema_url@),
    ensures
        ({
            let both = entry_join(a@, b@);
            &&& both.resource == a@.resource
            &&& both.scope_logs.len() == a.scope_logs@.len() + b.scope_logs@.len()
            &&& 0 <= i < a.scope_logs@.len() ==> both.scope_logs[i] == a.scope_logs@[i]@
            &&& 0 <= i < b.scope_logs@.len() ==> both.scope_logs[a.scope_logs@.len() + i]
                == b.scope_logs@[i]@
            &&& a.schema_url@.len() > 0 ==> both.schema_url == a.schema_url@
            &&& b.schema_url@.len() > 0 ==> both.schema_url == b.schema_url@
            &&& a.schema_url@.len() == 0 && b.schema_url@.len() == 0 ==> both.schema_url.len() == 0
        }),
{
}

/// The same of the logs of two scopes, record by record.
pub proof fn law_joining_takes_in_every_record(a: ScopeLogs, b: ScopeLogs, i: int)
    requires
        urls_compatible(a.schema_url@, b.schema_url@),
    ensures
        ({
            let both = scope_join(a@, b@);
            &&& both.scope == a@.scope
            &&& both.records.len() == a.log_records@.len() + b.log_records@.len()
            &&& 0 <= i < a.log_records@.len() ==> both.records[i] == a.log_records@[i]@
            &&& 0 <= i < b.log_records@.len() ==> both.records[a.log_records@.len() + i]
                == b.log_records@[i]@
            &&& a.schema_url@.len() > 0 ==> both.schema_url == a.schema_url@
            &&& b.schema_url@.len() > 0 ==> both.schema_url == b.schema_url@
            &&& a.schema_url@.len() == 0 && b.schema_url@.len() == 0 ==> both.schema_url.len() == 0
        }),
{
}

/// Schema URLs go together where one is missing, in either order, and otherwise only
/// where they are the same.
pub proof fn law_schema_urls_agree(a: Seq<char>, b: Seq<char>)
    ensures
        urls_compatible(a, b) == urls_compatible(b, a),
        urls_compatible(a, Seq::empty()) && urls_compatible(a, a),
        a.len() > 0 && b.len() > 0 ==> (urls_compatible(a, b) <==> a == b),
{
}

/// The logs of an entry are seen whole: its scopes in order, with their scope,
/// records and schema URL.
pub proof fn law_entries_are_seen_whole(entry: ResourceLogs, i: int)
    requires
        0 <= i < entry.scope_logs@.len(),
    ensures
        entry@.schema_url == entry.schema_url@,
        entry@.resource is Some <==> entry.resource is Some,
        entry.resource matches Some(r) ==> entry@.resource == Some(r@),
        entry@.scope_logs.len() == entry.scope_logs@.len(),
        ({
            let s = entry.scope_logs@[i];
            let v = entry@.scope_logs[i];
            &&& v.schema_url == s.schema_url@
            &&& v.scope is Some <==> s.scope is Some
            &&& s.scope matches Some(x) ==> v.scope == Some(x@)
            &&& v.records.len() == s.log_records@.len()
            &&& forall|k: int|
                0 <= k < s.log_records@.len() ==> #[trigger] v.records[k] == s.log_records@[k]@
        }),
{
}

/// The level is what the word says, and there are three.
pub proof fn law_levels_by_word(word: Seq<char>)
    ensures
        level_named(word) is Some <==> word == "none"@ || word == "resource"@ || word == "scope"@,
        level_named(word) == Some(BatchLevel::Unmerged) <==> word == "none"@,
        level_named(word) == Some(BatchLevel::Resource) <==> word == "resource"@,
        level_named(word) == Some(BatchLevel::Scope) <==> word == "scope"@,
{
    reveal_strlit("none");
    reveal_strlit("resource");
    reveal_strlit("scope");
    assert("none"@.len() == 4 && "resource"@.len() == 8 && "scope"@.len() == 5);
}

/// A batch decodes exactly if every payload does, to one entry for each, in order.
pub proof fn law_batch_decodes_payload_by_payload(payloads: Seq<Seq<u8>>)
    ensures
        decoded_batch(payloads) is Some <==> forall|i: int|
            0 <= i < payloads.len() ==> decoded_resource_logs(#[trigger] payloads[i]) is Some,
        decoded_batch(payloads) matches Some(entries) ==> entries.len() == payloads.len()
            && forall|i: int|
            0 <= i < payloads.len() ==> decoded_resource_logs(payloads[i]) == Some(
                #[trigger] entries[i],
            ),
    decreases payloads.len(),
{
    if payloads.len() > 0 {
        let n = payloads.len() - 1;
        let front = payloads.drop_last();
        law_batch_decodes_payload_by_payload(front);
        if decoded_batch(front) is None {
            let i = choose|i: int|
                0 <= i < front.len() && decoded_resource_logs(#[trigger] front[i]) is None;
            assert(payloads[i] == front[i]);
        } else {
            assert forall|i: int| 0 <= i < front.len() implies decoded_resource_logs(
                #[trigger] payloads[i],
            ) is Some by {
                assert(front[i] == payloads[i]);
            }
            assert(payloads[n] == payloads.last());
            if decoded_resource_logs(payloads[n]) is Some {
                let before = decoded_batch(front)->0;
                let entries = decoded_batch(payloads)->0;
                assert forall|i: int| 0 <= i < payloads.len() implies decoded_resource_logs(
                    payloads[i],
                ) == Some(#[trigger] entries[i]) by {
                    if i < n {
                        assert(entries[i] == before[i]);
                        assert(front[i] == payloads[i]);
                    }
                }
            }
        }
    }
}

/// A batch is refused exactly if one of its payloads is no log data; an unmerged
/// request holds its entries as they came.
pub proof fn law_requests_hold_the_batch(payloads: Seq<Seq<u8>>, level: BatchLevel)
    ensures
        request_result(payloads, level) is Err <==> exists|i: int|
            0 <= i < payloads.len() && decoded_resource_logs(#[trigger] payloads[i]) is None,
        request_result(payloads, BatchLevel::Unmerged) matches Ok(body) ==> body.len()
            == payloads.len() && forall|i: int|
            0 <= i < payloads.len() ==> decoded_resource_logs(payloads[i]) == Some(
                #[trigger] body[i],
            ),
{
    law_batch_decodes_payload_by_payload(payloads);
}

/// An export call carries every entry, in order, with its resource, its scopes and
/// its schema URL.
pub proof fn law_export_carries_every_entry(body: Seq<ResourceLogsView>, i: int)
    requires
        0 <= i < body.len(),
    ensures
        all_enveloped(body).len() == body.len(),
        all_enveloped(body)[i].schema_url == body[i].schema_url,
        all_enveloped(body)[i].resource is Some <==> body[i].resource is Some,
        all_enveloped(body)[i].scope_logs.len() == body[i].scope_logs.len(),
        body[i].resource is Some ==> all_enveloped(body)[i].resource == Some(
            crate::otlp::model::encoded_resource(body[i].resource->0),
        ),
        forall|k: int|
            0 <= k < body[i].scope_logs.len() ==> #[trigger] all_enveloped(body)[i].scope_logs[k]
                == crate::otlp::model::encoded_scope_logs(body[i].scope_logs[k]),
{
}

/// What each level merges. Without merging a batch stays as it is. By resource, the logs
/// of entries that go together are kept side by side, scope by scope. By scope, the
/// entries are the same, and inside each no two logs have the same scope and schema URLs
/// that agree.
pub proof fn law_levels_merge_what_they_say(
    entries: Seq<ResourceLogsView>,
    g: int,
    i: int,
    j: int,
)
    requires
        0 <= g < merged_to(entries, BatchLevel::Resource).len(),
    ensures
        merged_to(entries, BatchLevel::Unmerged) == entries,
        merged_to(entries, BatchLevel::Resource)[g].scope_logs == logs_of_home(
            entries,
            g,
            entries.len(),
        ),
        merged_to(entries, BatchLevel::Scope).len() == merged_to(
            entries,
            BatchLevel::Resource,
        ).len(),
        ({
            let a = merged_to(entries, BatchLevel::Resource)[g];
            let b = merged_to(entries, BatchLevel::Scope)[g];
            &&& b.resource == a.resource && b.schema_url == a.schema_url
            &&& b.scope_logs == scopes_merged(a.scope_logs)
            &&& 0 <= i < j < b.scope_logs.len() ==> {
                let x = b.scope_logs[i];
                let y = b.scope_logs[j];
                x.scope is Some && y.scope is Some && x.scope->0.name == y.scope->0.name
                    && x.scope->0.version == y.scope->0.version && x.scope->0.dropped
                    == y.scope->0.dropped && same_in_some_order(
                    x.scope->0.attributes,
                    y.scope->0.attributes,
                ) ==> x.schema_url.len() > 0 && y.schema_url.len() > 0 && x.schema_url
                    != y.schema_url
            }
        }),
{
    law_merge_keeps_arrival_order(entries, g);
    let a = by_resource(entries)[g];
    let list = a.scope_logs;
    if 0 <= i < j < scopes_merged(list).len() {
        law_same_scopes_end_up_together(list, i, j);
    }
}

/// An entry is decoded part by part: its resource, each of its scopes in order, and its
/// schema URL.
pub proof fn law_entries_are_decoded_part_by_part(bytes: Seq<u8>, i: int)
    ensures
        decoded_resource_logs(bytes) is Some <==> decoded_envelope(bytes) is Some,
        decoded_resource_logs(bytes) matches Some(entry) ==> {
            let e = decoded_envelope(bytes)->0;
            &&& entry.schema_url == e.schema_url
            &&& entry.resource is Some <==> e.resource is Some
            &&& e.resource is Some ==> entry.resource == Some(decoded_resource(e.resource->0))
            &&& entry.scope_logs.len() == e.scope_logs.len()
            &&& 0 <= i < e.scope_logs.len() ==> entry.scope_logs[i] == decoded_scope_logs(
                e.scope_logs[i],
            )
        },
{
}

} // verus!
