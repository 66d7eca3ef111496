//! What holds of every merge.
use crate::otlp::grouping::{
    home, lemma_groups_are_settled, lemma_groups_hold_their_items, lemma_items_fit_their_groups,
    lemma_settled_groups_stay, lemma_total_is_kept, settled, total,
};
use crate::otlp::merge::{
    attributes_match, by_resource, by_scope, decoded_batch, entry_by_scope, entry_join, entry_joins,
    is_pairing, merged_to, pairs_match, request_result, resources_match, scope_join, scope_joins,
    scopes_match, scopes_merged, values_match, BatchLevel,
};
use crate::otlp::model::{
    decoded_resource_logs, KeyValueView, ResourceLogsView, ResourceView, ScopeLogsView, ScopeView,
};
use vstd::multiset::Multiset;
use vstd::prelude::*;

verus! {

/// The records of one scope, without their order.
pub open spec fn scope_records(s: ScopeLogsView) -> Multiset<Seq<u8>> {
    s.records.to_multiset()
}

/// The records of one entry, without their order.
pub open spec fn entry_records(e: ResourceLogsView) -> Multiset<Seq<u8>> {
    total(e.scope_logs, |s: ScopeLogsView| scope_records(s))
}

/// The records of a batch, without their order.
pub open spec fn batch_records(entries: Seq<ResourceLogsView>) -> Multiset<Seq<u8>> {
    total(entries, |e: ResourceLogsView| entry_records(e))
}

proof fn lemma_total_concat<E, A>(a: Seq<E>, b: Seq<E>, part: spec_fn(E) -> Multiset<A>)
    ensures
        total(a + b, part) == total(a, part).add(total(b, part)),
    decreases b.len(),
{
    if b.len() == 0 {
        assert(a + b =~= a);
        assert(total(a, part).add(Multiset::empty()) =~= total(a, part));
    } else {
        assert((a + b).drop_last() =~= a + b.drop_last());
        lemma_total_concat(a, b.drop_last(), part);
        assert(total(a + b, part) =~= total(a, part).add(total(b, part)));
    }
}

proof fn lemma_total_pointwise<E, A>(
    items: Seq<E>,
    change: spec_fn(E) -> E,
    part: spec_fn(E) -> Multiset<A>,
)
    requires
        forall|e: E| part(#[trigger] change(e)) == part(e),
    ensures
        total(items.map_values(change), part) == total(items, part),
    decreases items.len(),
{
    if items.len() > 0 {
        lemma_total_pointwise(items.drop_last(), change, part);
        assert(items.map_values(change).drop_last() =~= items.drop_last().map_values(change));
    }
}

/// Merging loses no record, adds none and changes none: whatever the level, a
/// batch holds the same records before and after.
pub proof fn law_merge_keeps_every_record(entries: Seq<ResourceLogsView>, level: BatchLevel)
    ensures
        batch_records(merged_to(entries, level)) == batch_records(entries),
{
    let joins = |g: ResourceLogsView, x: ResourceLogsView| entry_joins(g, x);
    let join = |g: ResourceLogsView, x: ResourceLogsView| entry_join(g, x);
    let part = |e: ResourceLogsView| entry_records(e);
    assert forall|g: ResourceLogsView, x: ResourceLogsView| #[trigger] joins(g, x) implies part(
        join(g, x),
    ) == part(g).add(part(x)) by {
        lemma_total_concat(g.scope_logs, x.scope_logs, |s: ScopeLogsView| scope_records(s));
    }
    lemma_total_is_kept(entries, joins, join, part);
    if level is Scope {
        let change = |e: ResourceLogsView| entry_by_scope(e);
        assert forall|e: ResourceLogsView| part(#[trigger] change(e)) == part(e) by {
            lemma_scope_merge_keeps_records(e.scope_logs);
        }
        lemma_total_pointwise(by_resource(entries), change, part);
    }
}

proof fn lemma_scope_merge_keeps_records(list: Seq<ScopeLogsView>)
    ensures
        total(scopes_merged(list), |s: ScopeLogsView| scope_records(s)) == total(
            list,
            |s: ScopeLogsView| scope_records(s),
        ),
{
    let joins = |g: ScopeLogsView, x: ScopeLogsView| scope_joins(g, x);
    let join = |g: ScopeLogsView, x: ScopeLogsView| scope_join(g, x);
    let part = |s: ScopeLogsView| scope_records(s);
    assert forall|g: ScopeLogsView, x: ScopeLogsView| #[trigger] joins(g, x) implies part(
        join(g, x),
    ) == part(g).add(part(x)) by {
        vstd::seq_lib::lemma_multiset_commutative(g.records, x.records);
    }
    lemma_total_is_kept(list, joins, join, part);
}

/// The entry of a merged batch that an entry went into.
pub open spec fn entry_home(entries: Seq<ResourceLogsView>, k: int) -> int {
    home(
        entries,
        k,
        |g: ResourceLogsView, x: ResourceLogsView| entry_joins(g, x),
        |g: ResourceLogsView, x: ResourceLogsView| entry_join(g, x),
    )
}

/// Every entry goes into one that has its resource and keeps its schema URL: two
/// entries with different schema URLs never end up in one.
pub proof fn law_entries_keep_resource_and_schema(entries: Seq<ResourceLogsView>, k: int)
    requires
        0 <= k < entries.len(),
    ensures
        0 <= entry_home(entries, k) < by_resource(entries).len(),
        ({
            let home_entry = by_resource(entries)[entry_home(entries, k)];
            &&& home_entry.resource == entries[k].resource || resources_match(
                home_entry.resource,
                entries[k].resource,
            )
            &&& entries[k].schema_url.len() == 0 || home_entry.schema_url == entries[k].schema_url
        }),
{
    let joins = |g: ResourceLogsView, x: ResourceLogsView| entry_joins(g, x);
    let join = |g: ResourceLogsView, x: ResourceLogsView| entry_join(g, x);
    let fits = |g: ResourceLogsView, x: ResourceLogsView|
        {
            &&& g.resource == x.resource || resources_match(g.resource, x.resource)
            &&& x.schema_url.len() == 0 || g.schema_url == x.schema_url
        };
    lemma_groups_hold_their_items(entries, joins, join);
    lemma_items_fit_their_groups(entries, joins, join, fits, k);
    assert(fits(by_resource(entries)[entry_home(entries, k)], entries[k]));
}

/// The same of the logs of scopes inside one resource.
pub open spec fn scope_home(list: Seq<ScopeLogsView>, k: int) -> int {
    home(
        list,
        k,
        |g: ScopeLogsView, x: ScopeLogsView| scope_joins(g, x),
        |g: ScopeLogsView, x: ScopeLogsView| scope_join(g, x),
    )
}

/// The logs of every scope go into logs of the same scope that keep their schema
/// URL.
pub proof fn law_scopes_keep_scope_and_schema(list: Seq<ScopeLogsView>, k: int)
    requires
        0 <= k < list.len(),
    ensures
        0 <= scope_home(list, k) < scopes_merged(list).len(),
        ({
            let home_scope = scopes_merged(list)[scope_home(list, k)];
            &&& home_scope.scope == list[k].scope || scopes_match(home_scope.scope, list[k].scope)
            &&& list[k].schema_url.len() == 0 || home_scope.schema_url == list[k].schema_url
        }),
{
    let joins = |g: ScopeLogsView, x: ScopeLogsView| scope_joins(g, x);
    let join = |g: ScopeLogsView, x: ScopeLogsView| scope_join(g, x);
    let fits = |g: ScopeLogsView, x: ScopeLogsView|
        {
            &&& g.scope == x.scope || scopes_match(g.scope, x.scope)
            &&& x.schema_url.len() == 0 || g.schema_url == x.schema_url
        };
    lemma_groups_hold_their_items(list, joins, join);
    lemma_items_fit_their_groups(list, joins, join, fits, k);
    assert(fits(scopes_merged(list)[scope_home(list, k)], list[k]));
}

/// The logs that the entries with this home carry, in order of arrival.
pub open spec fn logs_of_home(entries: Seq<ResourceLogsView>, group: int, n: nat) -> Seq<
    ScopeLogsView,
>
    decreases n,
{
    if n == 0 {
        Seq::empty()
    } else {
        let before = logs_of_home(entries, group, (n - 1) as nat);
        if entry_home(entries, n - 1) == group {
            before + entries[n - 1].scope_logs
        } else {
            before
        }
    }
}

/// A merged entry carries the logs of the entries that went into it, in order of
/// arrival.
pub proof fn law_merge_keeps_arrival_order(entries: Seq<ResourceLogsView>, group: int)
    requires
        0 <= group < by_resource(entries).len(),
    ensures
        by_resource(entries)[group].scope_logs == logs_of_home(entries, group, entries.len()),
{
    lemma_arrival_order(entries, group, entries.len());
    assert(entries.take(entries.len() as int) =~= entries);
}

proof fn lemma_arrival_order(entries: Seq<ResourceLogsView>, group: int, n: nat)
    requires
        n <= entries.len(),
        0 <= group,
    ensures
        group < by_resource(entries.take(n as int)).len() ==> by_resource(
            entries.take(n as int),
        )[group].scope_logs == logs_of_home(entries, group, n),
        group >= by_resource(entries.take(n as int)).len() ==> logs_of_home(entries, group, n)
            =~= Seq::empty(),
    decreases n,
{
    if n > 0 {
        let k = n - 1;
        lemma_arrival_order(entries, group, k as nat);
        let joins = |g: ResourceLogsView, x: ResourceLogsView| entry_joins(g, x);
        let join = |g: ResourceLogsView, x: ResourceLogsView| entry_join(g, x);
        let now = entries.take(n as int);
        assert(now.drop_last() =~= entries.take(k));
        assert(now.last() == entries[k]);
        let before = by_resource(entries.take(k));
        crate::otlp::grouping::lemma_first_match(before, entries[k], joins, 0);
        if entry_home(entries, k) == group && group == before.len() {
            assert(Seq::<ScopeLogsView>::empty() + entries[k].scope_logs
                =~= entries[k].scope_logs);
        }
    }
}

/// The records that the logs with this home carry, in order of arrival.
pub open spec fn records_of_home(list: Seq<ScopeLogsView>, group: int, n: nat) -> Seq<Seq<u8>>
    decreases n,
{
    if n == 0 {
        Seq::empty()
    } else {
        let before = records_of_home(list, group, (n - 1) as nat);
        if scope_home(list, n - 1) == group {
            before + list[n - 1].records
        } else {
            before
        }
    }
}

/// The merged logs of a scope hold exactly the records of the logs that went into
/// them, in order of arrival.
pub proof fn law_scope_merge_keeps_arrival_order(list: Seq<ScopeLogsView>, group: int)
    requires
        0 <= group < scopes_merged(list).len(),
    ensures
        scopes_merged(list)[group].records == records_of_home(list, group, list.len()),
{
    lemma_record_order(list, group, list.len());
    assert(list.take(list.len() as int) =~= list);
}

proof fn lemma_record_order(list: Seq<ScopeLogsView>, group: int, n: nat)
    requires
        n <= list.len(),
        0 <= group,
    ensures
        group < scopes_merged(list.take(n as int)).len() ==> scopes_merged(
            list.take(n as int),
        )[group].records == records_of_home(list, group, n),
        group >= scopes_merged(list.take(n as int)).len() ==> records_of_home(list, group, n)
            =~= Seq::empty(),
    decreases n,
{
    if n > 0 {
        let k = n - 1;
        lemma_record_order(list, group, k as nat);
        let joins = |g: ScopeLogsView, x: ScopeLogsView| scope_joins(g, x);
        let now = list.take(n as int);
        assert(now.drop_last() =~= list.take(k));
        assert(now.last() == list[k]);
        let before = scopes_merged(list.take(k));
        crate::otlp::grouping::lemma_first_match(before, list[k], joins, 0);
        if scope_home(list, k) == group && group == before.len() {
            assert(Seq::<Seq<u8>>::empty() + list[k].records =~= list[k].records);
        }
    }
}

/// No two entries of a batch that was merged by resource could still be joined: none
/// would take in one behind it.
pub proof fn law_merged_entries_are_apart(entries: Seq<ResourceLogsView>, i: int, j: int)
    requires
        0 <= i < j < by_resource(entries).len(),
    ensures
        !entry_joins(by_resource(entries)[i], by_resource(entries)[j]),
{
    lemma_entries_are_settled(entries);
    let joins = |g: ResourceLogsView, x: ResourceLogsView| entry_joins(g, x);
    assert(!joins(by_resource(entries)[i], by_resource(entries)[j]));
}

proof fn lemma_entries_are_settled(entries: Seq<ResourceLogsView>)
    ensures
        settled(
            by_resource(entries),
            |g: ResourceLogsView, x: ResourceLogsView| entry_joins(g, x),
        ),
{
    lemma_groups_are_settled(
        entries,
        |g: ResourceLogsView, x: ResourceLogsView| entry_joins(g, x),
        |g: ResourceLogsView, x: ResourceLogsView| entry_join(g, x),
    );
}

/// The same of the logs of scopes inside one resource.
pub proof fn law_merged_scopes_are_apart(list: Seq<ScopeLogsView>, i: int, j: int)
    requires
        0 <= i < j < scopes_merged(list).len(),
    ensures
        !scope_joins(scopes_merged(list)[i], scopes_merged(list)[j]),
{
    lemma_scopes_are_settled(list);
    let joins = |g: ScopeLogsView, x: ScopeLogsView| scope_joins(g, x);
    assert(!joins(scopes_merged(list)[i], scopes_merged(list)[j]));
}

proof fn lemma_scopes_are_settled(list: Seq<ScopeLogsView>)
    ensures
        settled(scopes_merged(list), |g: ScopeLogsView, x: ScopeLogsView| scope_joins(g, x)),
{
    lemma_groups_are_settled(
        list,
        |g: ScopeLogsView, x: ScopeLogsView| scope_joins(g, x),
        |g: ScopeLogsView, x: ScopeLogsView| scope_join(g, x),
    );
}

/// Merging a merged batch changes nothing, whatever the level, also where a missing
/// schema URL was filled in from a later entry. Merging by resource changes nothing
/// of a batch that was merged by scope either.
pub proof fn law_merging_again_changes_nothing(entries: Seq<ResourceLogsView>, level: BatchLevel)
    ensures
        merged_to(merged_to(entries, level), level) == merged_to(entries, level),
        by_resource(by_scope(entries)) == by_scope(entries),
{
    let joins = |g: ResourceLogsView, x: ResourceLogsView| entry_joins(g, x);
    let join = |g: ResourceLogsView, x: ResourceLogsView| entry_join(g, x);
    let once = by_resource(entries);
    let finer = by_scope(entries);
    lemma_entries_are_settled(entries);
    lemma_settled_groups_stay(once, joins, join);
    assert forall|i: int, j: int| 0 <= i < j < finer.len() implies !joins(
        #[trigger] finer[i],
        #[trigger] finer[j],
    ) by {
        assert(!joins(once[i], once[j]));
    }
    lemma_settled_groups_stay(finer, joins, join);
    assert forall|i: int| 0 <= i < finer.len() implies entry_by_scope(#[trigger] finer[i])
        == finer[i] by {
        let list = once[i].scope_logs;
        lemma_scopes_are_settled(list);
        lemma_settled_groups_stay(
            scopes_merged(list),
            |g: ScopeLogsView, x: ScopeLogsView| scope_joins(g, x),
            |g: ScopeLogsView, x: ScopeLogsView| scope_join(g, x),
        );
    }
    assert(by_scope(finer) =~= finer);
}

/// The records of the logs of a scope, each with what it belongs to. `r` stands for
/// the resource, and `of_scope` for the scope.
pub open spec fn scope_triples<R, S>(
    r: R,
    of_scope: spec_fn(Option<ScopeView>) -> S,
    s: ScopeLogsView,
) -> Multiset<(R, S, Seq<u8>)> {
    s.records.map_values(|record: Seq<u8>| (r, of_scope(s.scope), record)).to_multiset()
}

/// The same of every scope in a list.
pub open spec fn list_triples<R, S>(
    r: R,
    of_scope: spec_fn(Option<ScopeView>) -> S,
    list: Seq<ScopeLogsView>,
) -> Multiset<(R, S, Seq<u8>)> {
    total(list, |s: ScopeLogsView| scope_triples(r, of_scope, s))
}

/// The records of a batch, each with its resource and its scope as `of_resource` and
/// `of_scope` tell them apart.
pub open spec fn batch_triples<R, S>(
    entries: Seq<ResourceLogsView>,
    of_resource: spec_fn(Option<ResourceView>) -> R,
    of_scope: spec_fn(Option<ScopeView>) -> S,
) -> Multiset<(R, S, Seq<u8>)> {
    total(
        entries,
        |e: ResourceLogsView| list_triples(of_resource(e.resource), of_scope, e.scope_logs),
    )
}

/// Merging moves no record to another resource or scope: whatever the level, a batch
/// holds the same triples of resource, scope and record before and after. Resources
/// and scopes are told apart in any way that does not tell equal ones apart, such as
/// one that does not see the order of attributes.
pub proof fn law_merge_keeps_every_triple<R, S>(
    entries: Seq<ResourceLogsView>,
    level: BatchLevel,
    of_resource: spec_fn(Option<ResourceView>) -> R,
    of_scope: spec_fn(Option<ScopeView>) -> S,
)
    requires
        forall|x: Option<ResourceView>, y: Option<ResourceView>| #[trigger]
            resources_match(x, y) ==> of_resource(x) == of_resource(y),
        forall|x: Option<ScopeView>, y: Option<ScopeView>| #[trigger]
            scopes_match(x, y) ==> of_scope(x) == of_scope(y),
    ensures
        batch_triples(merged_to(entries, level), of_resource, of_scope) == batch_triples(
            entries,
            of_resource,
            of_scope,
        ),
{
    let joins = |g: ResourceLogsView, x: ResourceLogsView| entry_joins(g, x);
    let join = |g: ResourceLogsView, x: ResourceLogsView| entry_join(g, x);
    let part = |e: ResourceLogsView|
        list_triples(of_resource(e.resource), of_scope, e.scope_logs);
    assert forall|g: ResourceLogsView, x: ResourceLogsView| #[trigger] joins(g, x) implies part(
        join(g, x),
    ) == part(g).add(part(x)) by {
        assert(resources_match(g.resource, x.resource));
        let r = of_resource(g.resource);
        lemma_total_concat(
            g.scope_logs,
            x.scope_logs,
            |s: ScopeLogsView| scope_triples(r, of_scope, s),
        );
    }
    lemma_total_is_kept(entries, joins, join, part);
    if level is Scope {
        let change = |e: ResourceLogsView| entry_by_scope(e);
        assert forall|e: ResourceLogsView| part(#[trigger] change(e)) == part(e) by {
            lemma_scope_merge_keeps_triples(of_resource(e.resource), of_scope, e.scope_logs);
        }
        lemma_total_pointwise(by_resource(entries), change, part);
    }
}

proof fn lemma_scope_merge_keeps_triples<R, S>(
    r: R,
    of_scope: spec_fn(Option<ScopeView>) -> S,
    list: Seq<ScopeLogsView>,
)
    requires
        forall|x: Option<ScopeView>, y: Option<ScopeView>| #[trigger]
            scopes_match(x, y) ==> of_scope(x) == of_scope(y),
    ensures
        list_triples(r, of_scope, scopes_merged(list)) == list_triples(r, of_scope, list),
{
    let joins = |g: ScopeLogsView, x: ScopeLogsView| scope_joins(g, x);
    let join = |g: ScopeLogsView, x: ScopeLogsView| scope_join(g, x);
    let part = |s: ScopeLogsView| scope_triples(r, of_scope, s);
    assert forall|g: ScopeLogsView, x: ScopeLogsView| #[trigger] joins(g, x) implies part(
        join(g, x),
    ) == part(g).add(part(x)) by {
        assert(scopes_match(g.scope, x.scope));
        let tag = |record: Seq<u8>| (r, of_scope(g.scope), record);
        let a = g.records.map_values(tag);
        let b = x.records.map_values(tag);
        assert((g.records + x.records).map_values(tag) =~= a + b);
        assert(x.records.map_values(|record: Seq<u8>| (r, of_scope(x.scope), record)) =~= b);
        vstd::seq_lib::lemma_multiset_commutative(a, b);
    }
    lemma_total_is_kept(list, joins, join, part);
}

proof fn lemma_decoded_batch(payloads: Seq<Seq<u8>>)
    ensures
        decoded_batch(payloads) is None <==> exists|i: int|
            0 <= i < payloads.len() && decoded_resource_logs(#[trigger] payloads[i]) is None,
        decoded_batch(payloads) matches Some(entries) ==> entries.len() == payloads.len()
            && forall|i: int|
            0 <= i < payloads.len() ==> decoded_resource_logs(#[trigger] payloads[i]) == Some(
                entries[i],
            ),
    decreases payloads.len(),
{
    if payloads.len() > 0 {
        let shorter = payloads.drop_last();
        lemma_decoded_batch(shorter);
        assert forall|i: int| 0 <= i < shorter.len() implies #[trigger] payloads[i]
            == shorter[i] by {}
        if decoded_batch(shorter) is None {
            let i = choose|i: int|
                0 <= i < shorter.len() && decoded_resource_logs(#[trigger] shorter[i]) is None;
            assert(payloads[i] == shorter[i]);
        } else if decoded_resource_logs(payloads.last()) is None {
            assert(payloads[payloads.len() - 1] == payloads.last());
        }
    }
}

/// The levels say the same of a batch: each refuses it exactly where some payload is
/// no log data, all carry the same triples of resource, scope and record, and the
/// lowest carries the decoded payloads as they came.
pub proof fn law_levels_carry_the_same<R, S>(
    payloads: Seq<Seq<u8>>,
    one: BatchLevel,
    other: BatchLevel,
    of_resource: spec_fn(Option<ResourceView>) -> R,
    of_scope: spec_fn(Option<ScopeView>) -> S,
)
    requires
        forall|x: Option<ResourceView>, y: Option<ResourceView>| #[trigger]
            resources_match(x, y) ==> of_resource(x) == of_resource(y),
        forall|x: Option<ScopeView>, y: Option<ScopeView>| #[trigger]
            scopes_match(x, y) ==> of_scope(x) == of_scope(y),
    ensures
        request_result(payloads, one) is Err <==> exists|i: int|
            0 <= i < payloads.len() && decoded_resource_logs(#[trigger] payloads[i]) is None,
        request_result(payloads, one) is Err <==> request_result(payloads, other) is Err,
        request_result(payloads, one) is Ok ==> batch_triples(
            request_result(payloads, one)->Ok_0,
            of_resource,
            of_scope,
        ) == batch_triples(request_result(payloads, other)->Ok_0, of_resource, of_scope),
        request_result(payloads, BatchLevel::Unmerged) matches Ok(entries) ==> entries.len()
            == payloads.len() && forall|i: int|
            0 <= i < payloads.len() ==> decoded_resource_logs(#[trigger] payloads[i]) == Some(
                entries[i],
            ),
{
    lemma_decoded_batch(payloads);
    if let Some(entries) = decoded_batch(payloads) {
        law_merge_keeps_every_triple(entries, one, of_resource, of_scope);
        law_merge_keeps_every_triple(entries, other, of_resource, of_scope);
    }
}

/// Whether the second list is the first in another order: `to` gives the place in the
/// first of each of its attributes, and `back` the way back.
pub open spec fn rearranged(
    a: Seq<KeyValueView>,
    b: Seq<KeyValueView>,
    to: spec_fn(int) -> int,
    back: spec_fn(int) -> int,
) -> bool {
    &&& a.len() == b.len()
    &&& forall|i: int|
        0 <= i < b.len() ==> 0 <= #[trigger] to(i) < a.len() && b[i] == a[to(i)] && back(to(i))
            == i
    &&& forall|i: int| 0 <= i < a.len() ==> 0 <= #[trigger] back(i) < b.len() && to(back(i)) == i
}

/// The order of attributes does not matter: a list whose values equal themselves says
/// the same as every rearrangement of it, also where a key occurs more than once.
/// (A floating-point value that is no number does not equal itself.)
pub proof fn law_attribute_order_does_not_matter(
    a: Seq<KeyValueView>,
    b: Seq<KeyValueView>,
    to: spec_fn(int) -> int,
    back: spec_fn(int) -> int,
)
    requires
        rearranged(a, b, to, back),
        forall|i: int| 0 <= i < a.len() ==> values_match((#[trigger] a[i]).value, a[i].value),
    ensures
        attributes_match(a, b),
{
    let pairing = Seq::new(a.len(), |i: int| back(i));
    assert forall|i: int| 0 <= i < pairing.len() implies 0 <= #[trigger] pairing[i] < b.len()
        && pairs_match(a[i], b[pairing[i]]) by {
        let j = back(i);
        assert(to(j) == i);
        assert(b[j] == a[i]);
    }
    assert forall|i: int, j: int| 0 <= i < j < pairing.len() implies #[trigger] pairing[i]
        != #[trigger] pairing[j] by {
        assert(to(back(i)) == i && to(back(j)) == j);
    }
    assert(is_pairing(a, b, pairing));
}

proof fn lemma_rearranged(
    a: Seq<KeyValueView>,
    b: Seq<KeyValueView>,
    c: Seq<KeyValueView>,
    to: spec_fn(int) -> int,
    back: spec_fn(int) -> int,
)
    requires
        rearranged(a, b, to, back),
    ensures
        attributes_match(a, c) ==> attributes_match(b, c),
        attributes_match(c, a) ==> attributes_match(c, b),
{
    if attributes_match(a, c) {
        let p = choose|p: Seq<int>| is_pairing(a, c, p);
        let q = Seq::new(b.len(), |i: int| p[to(i)]);
        assert forall|i: int| 0 <= i < q.len() implies 0 <= #[trigger] q[i] < c.len()
            && pairs_match(b[i], c[q[i]]) by {
            assert(0 <= to(i) < a.len());
            assert(pairs_match(a[to(i)], c[p[to(i)]]));
        }
        assert forall|i: int, j: int| 0 <= i < j < q.len() implies #[trigger] q[i]
            != #[trigger] q[j] by {
            let (x, y) = (to(i), to(j));
            assert(back(x) == i && back(y) == j);
            if x < y {
                assert(p[x] != p[y]);
            } else {
                assert(p[y] != p[x]);
            }
        }
        assert(is_pairing(b, c, q));
    }
    if attributes_match(c, a) {
        let p = choose|p: Seq<int>| is_pairing(c, a, p);
        let q = Seq::new(c.len(), |i: int| back(p[i]));
        assert forall|i: int| 0 <= i < q.len() implies 0 <= #[trigger] q[i] < b.len()
            && pairs_match(c[i], b[q[i]]) by {
            let x = p[i];
            assert(pairs_match(c[i], a[x]));
            let j = back(x);
            assert(to(j) == x);
            assert(b[j] == a[x]);
        }
        assert forall|i: int, j: int| 0 <= i < j < q.len() implies #[trigger] q[i]
            != #[trigger] q[j] by {
            let (x, y) = (p[i], p[j]);
            assert(x != y);
            assert(to(back(x)) == x && to(back(y)) == y);
        }
        assert(is_pairing(c, b, q));
    }
}

/// Whether two lists of attributes say the same does not change when either is put
/// in another order, whatever their values are.
pub proof fn law_rearranging_changes_no_verdict(
    a: Seq<KeyValueView>,
    b: Seq<KeyValueView>,
    c: Seq<KeyValueView>,
    to: spec_fn(int) -> int,
    back: spec_fn(int) -> int,
)
    requires
        rearranged(a, b, to, back),
    ensures
        attributes_match(a, c) <==> attributes_match(b, c),
        attributes_match(c, a) <==> attributes_match(c, b),
{
    lemma_rearranged(a, b, c, to, back);
    assert forall|i: int| 0 <= i < a.len() implies 0 <= #[trigger] back(i) < b.len() && a[i]
        == b[back(i)] && to(back(i)) == i by {
        assert(b[back(i)] == a[to(back(i))]);
    }
    lemma_rearranged(b, a, c, back, to);
}

} // verus!
