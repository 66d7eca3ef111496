//! Merging of log data that share a resource, or a resource and a scope.
use crate::error::{cat3, option_view, outcome, output_error, output_text, OutputError};
use crate::otlp::grouping::{absorbed, first_match, grouped};
use crate::otlp::model::{
    any_values_equal, attribute_views, decode_resource_logs, decoded_resource_logs, record_views,
    resource_logs_views, same_any_value, scope_logs_views, ExportLogsServiceRequest,
    InstrumentationScope, KeyValue, KeyValueView, Resource, ResourceLogs, ResourceLogsView,
    ResourceView, ScopeLogs, ScopeLogsView, ScopeView,
};
use crate::text::text_eq;
use vstd::prelude::*;

verus! {

/// How much of a batch is merged before it is sent.
#[derive(Debug, Clone, Copy, PartialEq, Eq, Structural)]
pub enum BatchLevel {
    /// Nothing: one entry for each event.
    Unmerged,
    /// Entries with the same resource.
    Resource,
    /// Entries with the same resource, and inside them those with the same scope.
    Scope,
}

/// The level that a word names.
pub open spec fn level_named(word: Seq<char>) -> Option<BatchLevel> {
    if word == "none"@ {
        Some(BatchLevel::Unmerged)
    } else if word == "resource"@ {
        Some(BatchLevel::Resource)
    } else if word == "scope"@ {
        Some(BatchLevel::Scope)
    } else {
        None
    }
}

impl BatchLevel {
    /// Reads the `batch_level` setting.
    pub fn parse(s: &str, output_name: &str) -> (r: Result<BatchLevel, OutputError>)
        ensures
            match r {
                Ok(level) => level_named(s@) == Some(level),
                Err(e) => level_named(s@) is None && e@ == output_text(
                    output_name@,
                    "unknown batch_level '"@ + s@ + "' (expected none, resource, or scope)"@,
                ),
            },
    {
        if text_eq(s, "none") {
            Ok(BatchLevel::Unmerged)
        } else if text_eq(s, "resource") {
            Ok(BatchLevel::Resource)
        } else if text_eq(s, "scope") {
            Ok(BatchLevel::Scope)
        } else {
            let rest = cat3("unknown batch_level '", s, "' (expected none, resource, or scope)");
            Err(output_error(output_name, rest.as_str()))
        }
    }
}

/// Whether two optional attribute values are equal.
pub open spec fn values_match(a: Option<Seq<u8>>, b: Option<Seq<u8>>) -> bool {
    match (a, b) {
        (None, None) => true,
        (Some(x), Some(y)) => any_values_equal(x, y),
        _ => false,
    }
}

/// Whether two attributes are equal.
pub open spec fn pairs_match(a: KeyValueView, b: KeyValueView) -> bool {
    a.key == b.key && values_match(a.value, b.value)
}

/// Whether `to` gives each attribute of one list an equal partner in the other, and
/// no two of them the same.
pub open spec fn is_pairing(a: Seq<KeyValueView>, b: Seq<KeyValueView>, to: Seq<int>) -> bool {
    &&& a.len() == b.len()
    &&& to.len() == a.len()
    &&& forall|i: int|
        0 <= i < to.len() ==> 0 <= #[trigger] to[i] < b.len() && pairs_match(a[i], b[to[i]])
    &&& forall|i: int, j: int| 0 <= i < j < to.len() ==> #[trigger] to[i] != #[trigger] to[j]
}

/// Whether two lists of attributes say the same: their attributes can be paired off.
/// The order of either list does not matter.
pub open spec fn attributes_match(a: Seq<KeyValueView>, b: Seq<KeyValueView>) -> bool {
    exists|to: Seq<int>| is_pairing(a, b, to)
}

/// Whether two schema URLs can stand for one: they are equal, or one is missing.
pub open spec fn urls_compatible(a: Seq<char>, b: Seq<char>) -> bool {
    a.len() == 0 || b.len() == 0 || a == b
}

pub open spec fn resources_match(a: Option<ResourceView>, b: Option<ResourceView>) -> bool {
    match (a, b) {
        (None, None) => true,
        (Some(x), Some(y)) => x.dropped == y.dropped && attributes_match(
            x.attributes,
            y.attributes,
        ),
        _ => false,
    }
}

pub open spec fn scopes_match(a: Option<ScopeView>, b: Option<ScopeView>) -> bool {
    match (a, b) {
        (None, None) => true,
        (Some(x), Some(y)) => x.name == y.name && x.version == y.version && x.dropped == y.dropped
            && attributes_match(x.attributes, y.attributes),
        _ => false,
    }
}

/// Whether two schema URLs can stand for one.
pub fn schema_urls_compatible(a: &str, b: &str) -> (r: bool)
    ensures
        r == urls_compatible(a@, b@),
{
    a.is_empty() || b.is_empty() || text_eq(a, b)
}

fn value_eq(a: &Option<Vec<u8>>, b: &Option<Vec<u8>>) -> (r: bool)
    ensures
        r == values_match(option_view(*a), option_view(*b)),
        r ==> forall|c: Option<Seq<u8>>, d: Option<Seq<u8>>|
            #![trigger values_match(c, d)]
            values_match(c, option_view(*b)) && values_match(option_view(*a), d) ==> values_match(
                c,
                d,
            ),
{
    match (a, b) {
        (None, None) => true,
        (Some(x), Some(y)) => same_any_value(x.as_slice(), y.as_slice()),
        _ => false,
    }
}

/// Whether equality of two attributes carries over: whatever equals the second
/// equals whatever the first equals.
spec fn carries_over(x: KeyValueView, y: KeyValueView) -> bool {
    forall|c: KeyValueView, d: KeyValueView|
        #![trigger pairs_match(c, y), pairs_match(x, d)]
        pairs_match(c, y) && pairs_match(x, d) ==> pairs_match(c, d)
}

fn pair_eq(a: &KeyValue, b: &KeyValue) -> (r: bool)
    ensures
        r == pairs_match(a@, b@),
        r ==> carries_over(a@, b@),
{
    text_eq(a.key.as_str(), b.key.as_str()) && value_eq(&a.value, &b.value)
}

/// The attributes of a list at the given places.
spec fn at_places(attributes: Seq<KeyValueView>, places: Seq<usize>) -> Seq<KeyValueView> {
    places.map_values(|i: usize| attributes[i as int])
}

/// Finds a partner for an attribute among those of a list at the given places.
fn find_partner(x: &KeyValue, list: &[KeyValue], places: &Vec<usize>) -> (r: Option<usize>)
    requires
        forall|k: int| 0 <= k < places@.len() ==> #[trigger] places@[k] < list@.len(),
    ensures
        ({
            let left = at_places(attribute_views(list@), places@);
            match r {
                Some(k) => {
                    &&& k < places@.len()
                    &&& pairs_match(x@, left[k as int])
                    &&& carries_over(x@, left[k as int])
                },
                None => forall|k: int|
                    0 <= k < left.len() ==> !pairs_match(x@, #[trigger] left[k]),
            }
        }),
{
    let ghost left = at_places(attribute_views(list@), places@);
    let mut k: usize = 0;
    while k < places.len()
        invariant
            k <= places@.len(),
            left == at_places(attribute_views(list@), places@),
            forall|j: int| 0 <= j < places@.len() ==> #[trigger] places@[j] < list@.len(),
            forall|j: int| 0 <= j < k ==> !pairs_match(x@, #[trigger] left[j]),
        decreases places@.len() - k,
    {
        let place: usize = places[k];
        assert(left[k as int] == list@[place as int]@);
        if pair_eq(x, &list[place]) {
            return Some(k);
        }
        k = k + 1;
    }
    None
}

/// A partner can be settled for good: where the first attribute of a list equals one
/// of the other, the lists say the same exactly if they do without these two.
proof fn lemma_settle_partner(a: Seq<KeyValueView>, b: Seq<KeyValueView>, k: int)
    requires
        a.len() > 0,
        0 <= k < b.len(),
        pairs_match(a[0], b[k]),
        carries_over(a[0], b[k]),
    ensures
        attributes_match(a, b) <==> attributes_match(a.skip(1), b.remove(k)),
{
    let rest = a.skip(1);
    let others = b.remove(k);
    if attributes_match(rest, others) {
        let to = choose|to: Seq<int>| is_pairing(rest, others, to);
        let all = Seq::new(
            a.len(),
            |i: int|
                if i == 0 {
                    k
                } else if to[i - 1] < k {
                    to[i - 1]
                } else {
                    to[i - 1] + 1
                },
        );
        assert forall|i: int| 0 <= i < all.len() implies 0 <= #[trigger] all[i] < b.len()
            && pairs_match(a[i], b[all[i]]) by {
            if i > 0 {
                assert(0 <= to[i - 1] < others.len());
                assert(pairs_match(rest[i - 1], others[to[i - 1]]));
            }
        }
        assert forall|i: int, j: int| 0 <= i < j < all.len() implies #[trigger] all[i]
            != #[trigger] all[j] by {
            assert(0 <= to[j - 1] < others.len());
            if i > 0 {
                assert(to[i - 1] != to[j - 1]);
            }
        }
        assert(is_pairing(a, b, all));
    }
    if attributes_match(a, b) {
        let to = choose|to: Seq<int>| is_pairing(a, b, to);
        // Whoever had the partner takes the one that becomes free.
        let swapped = Seq::new(
            a.len(),
            |i: int|
                if to[i] == k {
                    to[0]
                } else {
                    to[i]
                },
        );
        let less = Seq::new(
            rest.len(),
            |i: int|
                if swapped[i + 1] < k {
                    swapped[i + 1]
                } else {
                    swapped[i + 1] - 1
                },
        );
        assert(pairs_match(a[0], b[to[0]]));
        assert forall|i: int| 0 < i < a.len() implies 0 <= #[trigger] swapped[i] < b.len()
            && swapped[i] != k && pairs_match(a[i], b[swapped[i]]) by {
            assert(to[0] != to[i]);
            assert(pairs_match(a[i], b[to[i]]));
        }
        assert forall|i: int| 0 <= i < less.len() implies 0 <= #[trigger] less[i] < others.len()
            && pairs_match(rest[i], others[less[i]]) by {
            assert(0 <= swapped[i + 1] < b.len());
        }
        assert forall|i: int, j: int| 0 <= i < j < less.len() implies #[trigger] less[i]
            != #[trigger] less[j] by {
            assert(swapped[i + 1] != k && swapped[j + 1] != k);
            assert(to[i + 1] != to[j + 1]);
            assert(to[0] != to[i + 1]);
            assert(to[0] != to[j + 1]);
        }
        assert(is_pairing(rest, others, less));
    }
}

/// Whether two lists of attributes say the same, whatever the order of either.
pub fn attrs_eq(a: &[KeyValue], b: &[KeyValue]) -> (r: bool)
    ensures
        r == attributes_match(attribute_views(a@), attribute_views(b@)),
{
    let ghost va = attribute_views(a@);
    let ghost vb = attribute_views(b@);
    if a.len() != b.len() {
        assert(va.len() != vb.len());
        return false;
    }
    let n: usize = a.len();
    let mut places: Vec<usize> = Vec::new();
    for i in 0..n
        invariant
            places@.len() == i,
            forall|j: int| 0 <= j < i ==> #[trigger] places@[j] == j,
    {
        places.push(i);
    }
    assert(at_places(vb, places@) =~= vb);
    assert(va.skip(0) =~= va);
    let mut i: usize = 0;
    while i < n
        invariant
            i <= n,
            n == a@.len(),
            va == attribute_views(a@),
            vb == attribute_views(b@),
            places@.len() == n - i,
            forall|j: int| 0 <= j < places@.len() ==> #[trigger] places@[j] < b@.len(),
            attributes_match(va, vb) <==> attributes_match(
                va.skip(i as int),
                at_places(vb, places@),
            ),
        decreases n - i,
    {
        let ghost rest = va.skip(i as int);
        let ghost left = at_places(vb, places@);
        assert(rest[0] == a@[i as int]@);
        match find_partner(&a[i], b, &places) {
            None => {
                proof {
                    if attributes_match(rest, left) {
                        let to = choose|to: Seq<int>| is_pairing(rest, left, to);
                        assert(pairs_match(rest[0], left[to[0]]));
                    }
                }
                return false;
            },
            Some(k) => {
                proof {
                    lemma_settle_partner(rest, left, k as int);
                }
                let _ = places.remove(k);
                assert(at_places(vb, places@) =~= left.remove(k as int));
                assert(rest.skip(1) =~= va.skip(i + 1));
            },
        }
        i = i + 1;
    }
    assert(is_pairing(va.skip(n as int), at_places(vb, places@), Seq::<int>::empty()));
    true
}

fn resources_eq(a: &Option<Resource>, b: &Option<Resource>) -> (r: bool)
    ensures
        r == resources_match(
            match *a {
                Some(x) => Some(x@),
                None => None,
            },
            match *b {
                Some(y) => Some(y@),
                None => None,
            },
        ),
{
    match (a, b) {
        (None, None) => true,
        (Some(x), Some(y)) => x.dropped_attributes_count == y.dropped_attributes_count && attrs_eq(
            x.attributes.as_slice(),
            y.attributes.as_slice(),
        ),
        _ => false,
    }
}

fn scopes_eq(a: &Option<InstrumentationScope>, b: &Option<InstrumentationScope>) -> (r: bool)
    ensures
        r == scopes_match(
            match *a {
                Some(x) => Some(x@),
                None => None,
            },
            match *b {
                Some(y) => Some(y@),
                None => None,
            },
        ),
{
    match (a, b) {
        (None, None) => true,
        (Some(x), Some(y)) => text_eq(x.name.as_str(), y.name.as_str()) && text_eq(
            x.version.as_str(),
            y.version.as_str(),
        ) && x.dropped_attributes_count == y.dropped_attributes_count && attrs_eq(
            x.attributes.as_slice(),
            y.attributes.as_slice(),
        ),
        _ => false,
    }
}

/// The schema URL of a group that takes in another: its own, unless it has none.
pub open spec fn joined_url(group: Seq<char>, item: Seq<char>) -> Seq<char> {
    if group.len() == 0 {
        item
    } else {
        group
    }
}

/// Whether an entry joins another: same resource, schema URLs that agree.
pub open spec fn entry_joins(group: ResourceLogsView, item: ResourceLogsView) -> bool {
    resources_match(group.resource, item.resource) && urls_compatible(
        group.schema_url,
        item.schema_url,
    )
}

/// An entry that has taken in another.
pub open spec fn entry_join(group: ResourceLogsView, item: ResourceLogsView) -> ResourceLogsView {
    ResourceLogsView {
        resource: group.resource,
        scope_logs: group.scope_logs + item.scope_logs,
        schema_url: joined_url(group.schema_url, item.schema_url),
    }
}

/// Whether the logs of a scope join others: same scope, schema URLs that agree.
pub open spec fn scope_joins(group: ScopeLogsView, item: ScopeLogsView) -> bool {
    scopes_match(group.scope, item.scope) && urls_compatible(group.schema_url, item.schema_url)
}

/// The logs of a scope that have taken in others.
pub open spec fn scope_join(group: ScopeLogsView, item: ScopeLogsView) -> ScopeLogsView {
    ScopeLogsView {
        scope: group.scope,
        records: group.records + item.records,
        schema_url: joined_url(group.schema_url, item.schema_url),
    }
}

/// Entries merged by resource.
pub open spec fn by_resource(entries: Seq<ResourceLogsView>) -> Seq<ResourceLogsView> {
    grouped(
        entries,
        |g: ResourceLogsView, x: ResourceLogsView| entry_joins(g, x),
        |g: ResourceLogsView, x: ResourceLogsView| entry_join(g, x),
    )
}

/// Logs of one resource merged by scope.
pub open spec fn scopes_merged(list: Seq<ScopeLogsView>) -> Seq<ScopeLogsView> {
    grouped(
        list,
        |g: ScopeLogsView, x: ScopeLogsView| scope_joins(g, x),
        |g: ScopeLogsView, x: ScopeLogsView| scope_join(g, x),
    )
}

/// An entry whose logs are merged by scope.
pub open spec fn entry_by_scope(entry: ResourceLogsView) -> ResourceLogsView {
    ResourceLogsView { scope_logs: scopes_merged(entry.scope_logs), ..entry }
}

/// Entries merged by resource and inside that by scope.
pub open spec fn by_scope(entries: Seq<ResourceLogsView>) -> Seq<ResourceLogsView> {
    by_resource(entries).map_values(|e: ResourceLogsView| entry_by_scope(e))
}

/// Appends the entries of one list to another.
fn append_scope_logs(into: &mut Vec<ScopeLogs>, from: Vec<ScopeLogs>)
    ensures
        scope_logs_views(final(into)@) == scope_logs_views(old(into)@) + scope_logs_views(from@),
{
    let mut rest = from;
    into.append(&mut rest);
    assert(scope_logs_views(into@) =~= scope_logs_views(old(into)@) + scope_logs_views(from@));
}

fn append_records(into: &mut Vec<Vec<u8>>, from: Vec<Vec<u8>>)
    ensures
        record_views(final(into)@) == record_views(old(into)@) + record_views(from@),
{
    let mut rest = from;
    into.append(&mut rest);
    assert(record_views(into@) =~= record_views(old(into)@) + record_views(from@));
}

/// The first group that an entry joins.
fn find_entry(groups: &Vec<ResourceLogs>, item: &ResourceLogs) -> (i: usize)
    ensures
        i == first_match(
            resource_logs_views(groups@),
            item@,
            |g: ResourceLogsView, x: ResourceLogsView| entry_joins(g, x),
            0,
        ),
        i <= groups@.len(),
{
    let ghost views = resource_logs_views(groups@);
    let ghost joins = |g: ResourceLogsView, x: ResourceLogsView| entry_joins(g, x);
    let mut i: usize = 0;
    while i < groups.len()
        invariant
            i <= groups@.len(),
            views == resource_logs_views(groups@),
            joins == (|g: ResourceLogsView, x: ResourceLogsView| entry_joins(g, x)),
            first_match(views, item@, joins, 0) == first_match(views, item@, joins, i as int),
        decreases groups@.len() - i,
    {
        assert(views[i as int] == groups@[i as int]@);
        if resources_eq(&groups[i].resource, &item.resource) && schema_urls_compatible(
            groups[i].schema_url.as_str(),
            item.schema_url.as_str(),
        ) {
            return i;
        }
        i = i + 1;
    }
    i
}

/// The first group that the logs of a scope join.
fn find_scope(groups: &Vec<ScopeLogs>, item: &ScopeLogs) -> (i: usize)
    ensures
        i == first_match(
            scope_logs_views(groups@),
            item@,
            |g: ScopeLogsView, x: ScopeLogsView| scope_joins(g, x),
            0,
        ),
        i <= groups@.len(),
{
    let ghost views = scope_logs_views(groups@);
    let ghost joins = |g: ScopeLogsView, x: ScopeLogsView| scope_joins(g, x);
    let mut i: usize = 0;
    while i < groups.len()
        invariant
            i <= groups@.len(),
            views == scope_logs_views(groups@),
            joins == (|g: ScopeLogsView, x: ScopeLogsView| scope_joins(g, x)),
            first_match(views, item@, joins, 0) == first_match(views, item@, joins, i as int),
        decreases groups@.len() - i,
    {
        assert(views[i as int] == groups@[i as int]@);
        if scopes_eq(&groups[i].scope, &item.scope) && schema_urls_compatible(
            groups[i].schema_url.as_str(),
            item.schema_url.as_str(),
        ) {
            return i;
        }
        i = i + 1;
    }
    i
}

/// Takes one more entry into the groups.
fn absorb_entry(groups: &mut Vec<ResourceLogs>, item: ResourceLogs)
    ensures
        resource_logs_views(final(groups)@) == absorbed(
            resource_logs_views(old(groups)@),
            item@,
            |g: ResourceLogsView, x: ResourceLogsView| entry_joins(g, x),
            |g: ResourceLogsView, x: ResourceLogsView| entry_join(g, x),
        ),
{
    let ghost before = resource_logs_views(groups@);
    let i = find_entry(groups, &item);
    if i < groups.len() {
        let mut group = groups.swap_remove(i);
        let ghost taken = group@;
        if group.schema_url.as_str().is_empty() {
            group.schema_url = item.schema_url;
        }
        append_scope_logs(&mut group.scope_logs, item.scope_logs);
        let ghost joined = group@;
        assert(joined == entry_join(taken, item@));
        put_back(groups, i, group);
        assert(resource_logs_views(groups@) =~= before.update(i as int, joined));
    } else {
        groups.push(item);
        assert(resource_logs_views(groups@) =~= before.push(item@));
    }
}

/// Undoes a `swap_remove`: the element that was moved to the gap goes back to the
/// end, and the gap is filled.
fn put_back<T>(list: &mut Vec<T>, i: usize, value: T)
    requires
        i <= old(list)@.len(),
    ensures
        i == old(list)@.len() ==> final(list)@ == old(list)@.push(value),
        i < old(list)@.len() ==> final(list)@ == old(list)@.update(i as int, value).push(
            old(list)@[i as int],
        ),
{
    list.push(value);
    let last: usize = list.len() - 1;
    if i < last {
        let moved = list.swap_remove(i);
        list.push(moved);
    }
}

/// Takes the logs of one more scope into the groups.
fn absorb_scope(groups: &mut Vec<ScopeLogs>, item: ScopeLogs)
    ensures
        scope_logs_views(final(groups)@) == absorbed(
            scope_logs_views(old(groups)@),
            item@,
            |g: ScopeLogsView, x: ScopeLogsView| scope_joins(g, x),
            |g: ScopeLogsView, x: ScopeLogsView| scope_join(g, x),
        ),
{
    let ghost before = scope_logs_views(groups@);
    let i = find_scope(groups, &item);
    if i < groups.len() {
        let mut group = groups.swap_remove(i);
        let ghost taken = group@;
        if group.schema_url.as_str().is_empty() {
            group.schema_url = item.schema_url;
        }
        append_records(&mut group.log_records, item.log_records);
        let ghost joined = group@;
        assert(joined == scope_join(taken, item@));
        put_back(groups, i, group);
        assert(scope_logs_views(groups@) =~= before.update(i as int, joined));
    } else {
        groups.push(item);
        assert(scope_logs_views(groups@) =~= before.push(item@));
    }
}

/// Merges entries by resource. Entries with the same resource become one, whose
/// logs are those of its parts in order of arrival; two entries with different
/// schema URLs stay apart.
pub fn merge_by_resource(decoded: Vec<ResourceLogs>) -> (request: ExportLogsServiceRequest)
    ensures
        request@ == by_resource(resource_logs_views(decoded@)),
{
    let ghost views = resource_logs_views(decoded@);
    let ghost joins = |g: ResourceLogsView, x: ResourceLogsView| entry_joins(g, x);
    let ghost join = |g: ResourceLogsView, x: ResourceLogsView| entry_join(g, x);
    let mut out: Vec<ResourceLogs> = Vec::new();
    assert(resource_logs_views(out@) =~= grouped(views.take(0), joins, join));
    for entry in it: decoded
        invariant
            views == resource_logs_views(it.seq()),
            joins == (|g: ResourceLogsView, x: ResourceLogsView| entry_joins(g, x)),
            join == (|g: ResourceLogsView, x: ResourceLogsView| entry_join(g, x)),
            resource_logs_views(out@) == grouped(views.take(it.index() as int), joins, join),
    {
        proof {
            let k = it.index() as int;
            assert(views.take(k + 1).drop_last() =~= views.take(k));
            assert(views.take(k + 1).last() == entry@);
        }
        absorb_entry(&mut out, entry);
    }
    assert(views.take(views.len() as int) =~= views);
    ExportLogsServiceRequest { resource_logs: out }
}

/// Merges the logs of one resource by scope.
fn merge_scopes(list: Vec<ScopeLogs>) -> (out: Vec<ScopeLogs>)
    ensures
        scope_logs_views(out@) == scopes_merged(scope_logs_views(list@)),
{
    let ghost views = scope_logs_views(list@);
    let ghost joins = |g: ScopeLogsView, x: ScopeLogsView| scope_joins(g, x);
    let ghost join = |g: ScopeLogsView, x: ScopeLogsView| scope_join(g, x);
    let mut out: Vec<ScopeLogs> = Vec::new();
    assert(scope_logs_views(out@) =~= grouped(views.take(0), joins, join));
    for entry in it: list
        invariant
            views == scope_logs_views(it.seq()),
            joins == (|g: ScopeLogsView, x: ScopeLogsView| scope_joins(g, x)),
            join == (|g: ScopeLogsView, x: ScopeLogsView| scope_join(g, x)),
            scope_logs_views(out@) == grouped(views.take(it.index() as int), joins, join),
    {
        proof {
            let k = it.index() as int;
            assert(views.take(k + 1).drop_last() =~= views.take(k));
            assert(views.take(k + 1).last() == entry@);
        }
        absorb_scope(&mut out, entry);
    }
    assert(views.take(views.len() as int) =~= views);
    out
}

/// Merges entries by resource, and inside each by scope.
pub fn merge_by_scope(decoded: Vec<ResourceLogs>) -> (request: ExportLogsServiceRequest)
    ensures
        request@ == by_scope(resource_logs_views(decoded@)),
{
    let merged = merge_by_resource(decoded);
    let ghost groups = merged@;
    let mut out: Vec<ResourceLogs> = Vec::new();
    for entry in it: merged.resource_logs
        invariant
            groups == resource_logs_views(it.seq()),
            resource_logs_views(out@) == groups.take(it.index() as int).map_values(
                |e: ResourceLogsView| entry_by_scope(e),
            ),
    {
        let ghost k = it.index() as int;
        let ghost done = out@;
        let ghost view = entry@;
        assert(groups[k] == view);
        let ResourceLogs { resource, scope_logs, schema_url } = entry;
        let scope_logs = merge_scopes(scope_logs);
        let made = ResourceLogs { resource, scope_logs, schema_url };
        assert(made@ == entry_by_scope(view));
        out.push(made);
        assert(resource_logs_views(out@) =~= resource_logs_views(done).push(entry_by_scope(view)));
        assert(groups.take(k + 1).map_values(|e: ResourceLogsView| entry_by_scope(e))
            =~= groups.take(k).map_values(|e: ResourceLogsView| entry_by_scope(e)).push(
            entry_by_scope(view),
        ));
    }
    assert(groups.take(groups.len() as int) =~= groups);
    ExportLogsServiceRequest { resource_logs: out }
}

/// Entries merged to a level.
pub open spec fn merged_to(entries: Seq<ResourceLogsView>, level: BatchLevel) -> Seq<
    ResourceLogsView,
> {
    match level {
        BatchLevel::Unmerged => entries,
        BatchLevel::Resource => by_resource(entries),
        BatchLevel::Scope => by_scope(entries),
    }
}

/// Merges decoded entries to a level.
pub fn build_request(decoded: Vec<ResourceLogs>, level: BatchLevel) -> (request:
    ExportLogsServiceRequest)
    ensures
        request@ == merged_to(resource_logs_views(decoded@), level),
{
    match level {
        BatchLevel::Unmerged => ExportLogsServiceRequest { resource_logs: decoded },
        BatchLevel::Resource => merge_by_resource(decoded),
        BatchLevel::Scope => merge_by_scope(decoded),
    }
}

/// Payloads by their views.
pub open spec fn payload_views(payloads: Seq<Vec<u8>>) -> Seq<Seq<u8>> {
    payloads.map_values(|p: Vec<u8>| p@)
}

/// What a batch of payloads decodes to; nothing where one of them is no encoding.
pub open spec fn decoded_batch(payloads: Seq<Seq<u8>>) -> Option<Seq<ResourceLogsView>>
    decreases payloads.len(),
{
    if payloads.len() == 0 {
        Some(Seq::empty())
    } else {
        match (decoded_batch(payloads.drop_last()), decoded_resource_logs(payloads.last())) {
            (Some(before), Some(entry)) => Some(before.push(entry)),
            _ => None,
        }
    }
}

proof fn lemma_decoded_batch_stops(payloads: Seq<Seq<u8>>, k: int)
    requires
        0 <= k <= payloads.len(),
        decoded_batch(payloads.take(k)) is None,
    ensures
        decoded_batch(payloads) is None,
    decreases payloads.len(),
{
    if k == payloads.len() {
        assert(payloads.take(k) =~= payloads);
    } else {
        assert(payloads.drop_last().take(k) =~= payloads.take(k));
        lemma_decoded_batch_stops(payloads.drop_last(), k);
    }
}

/// The message about a payload that is no encoding of log data.
pub open spec fn bad_payload_text() -> Seq<char> {
    "output otlp: pipeline egress is not a valid ResourceLogs proto (wire it through `otlp.encode_resourcelog_protobuf`)"@
}

/// What a batch of payloads is sent as at a level.
pub open spec fn request_result(payloads: Seq<Seq<u8>>, level: BatchLevel) -> Result<
    Seq<ResourceLogsView>,
    Seq<char>,
> {
    match decoded_batch(payloads) {
        Some(entries) => Ok(merged_to(entries, level)),
        None => Err(bad_payload_text()),
    }
}

/// Decodes a batch of payloads and merges it to a level.
pub fn decode_drained_to_request(drained: &Vec<Vec<u8>>, batch_level: BatchLevel) -> (r: Result<
    ExportLogsServiceRequest,
    OutputError,
>)
    ensures
        outcome(r) == request_result(payload_views(drained@), batch_level),
{
    let ghost payloads = payload_views(drained@);
    let mut decoded: Vec<ResourceLogs> = Vec::new();
    let mut i: usize = 0;
    assert(resource_logs_views(decoded@) =~= Seq::empty());
    while i < drained.len()
        invariant
            i <= drained@.len(),
            payloads == payload_views(drained@),
            decoded_batch(payloads.take(i as int)) == Some(resource_logs_views(decoded@)),
        decreases drained@.len() - i,
    {
        assert(payloads.take(i + 1).drop_last() =~= payloads.take(i as int));
        assert(payloads.take(i + 1).last() == drained@[i as int]@);
        let ghost before = decoded@;
        match decode_resource_logs(drained[i].as_slice()) {
            Some(entry) => {
                decoded.push(entry);
                assert(resource_logs_views(decoded@) =~= resource_logs_views(before).push(entry@));
            },
            None => {
                proof {
                    lemma_decoded_batch_stops(payloads, i + 1);
                }
                return Err(
                    OutputError::new(
                        "output otlp: pipeline egress is not a valid ResourceLogs proto (wire it through `otlp.encode_resourcelog_protobuf`)",
                    ),
                );
            },
        }
        i = i + 1;
    }
    assert(payloads.take(payloads.len() as int) =~= payloads);
    Ok(build_request(decoded, batch_level))
}

} // verus!
