//! Grouping of a list in arrival order: each item joins the first group that it
//! matches, or founds a new one.
use vstd::multiset::Multiset;
use vstd::prelude::*;

verus! {

/// The first group from `from` on that an item matches; the number of groups where
/// it matches none.
pub open spec fn first_match<E>(
    groups: Seq<E>,
    item: E,
    matches_group: spec_fn(E, E) -> bool,
    from: int,
) -> int
    decreases groups.len() - from,
{
    if from >= groups.len() {
        groups.len() as int
    } else if matches_group(groups[from], item) {
        from
    } else {
        first_match(groups, item, matches_group, from + 1)
    }
}

/// The groups after one more item.
pub open spec fn absorbed<E>(
    groups: Seq<E>,
    item: E,
    matches_group: spec_fn(E, E) -> bool,
    join: spec_fn(E, E) -> E,
) -> Seq<E> {
    let i = first_match(groups, item, matches_group, 0);
    if i < groups.len() {
        groups.update(i, join(groups[i], item))
    } else {
        groups.push(item)
    }
}

/// The groups that a list of items makes.
pub open spec fn grouped<E>(
    items: Seq<E>,
    matches_group: spec_fn(E, E) -> bool,
    join: spec_fn(E, E) -> E,
) -> Seq<E>
    decreases items.len(),
{
    if items.len() == 0 {
        Seq::empty()
    } else {
        absorbed(grouped(items.drop_last(), matches_group, join), items.last(), matches_group, join)
    }
}

/// The group that the item with this index ends up in.
pub open spec fn home<E>(
    items: Seq<E>,
    k: int,
    matches_group: spec_fn(E, E) -> bool,
    join: spec_fn(E, E) -> E,
) -> int {
    first_match(grouped(items.take(k), matches_group, join), items[k], matches_group, 0)
}

/// What a group holds: its items joined in order of arrival.
pub open spec fn gathered<E>(
    items: Seq<E>,
    group: int,
    matches_group: spec_fn(E, E) -> bool,
    join: spec_fn(E, E) -> E,
) -> Option<E>
    decreases items.len(),
{
    if items.len() == 0 {
        None
    } else {
        let before = gathered(items.drop_last(), group, matches_group, join);
        if home(items, items.len() - 1, matches_group, join) == group {
            match before {
                None => Some(items.last()),
                Some(g) => Some(join(g, items.last())),
            }
        } else {
            before
        }
    }
}

/// The sum of a quantity over a list.
pub open spec fn total<E, A>(items: Seq<E>, part: spec_fn(E) -> Multiset<A>) -> Multiset<A>
    decreases items.len(),
{
    if items.len() == 0 {
        Multiset::empty()
    } else {
        total(items.drop_last(), part).add(part(items.last()))
    }
}

pub proof fn lemma_first_match<E>(
    groups: Seq<E>,
    item: E,
    matches_group: spec_fn(E, E) -> bool,
    from: int,
)
    requires
        0 <= from <= groups.len(),
    ensures
        from <= first_match(groups, item, matches_group, from) <= groups.len(),
        first_match(groups, item, matches_group, from) < groups.len() ==> matches_group(
            groups[first_match(groups, item, matches_group, from)],
            item,
        ),
        forall|i: int|
            from <= i < first_match(groups, item, matches_group, from) ==> !matches_group(
                #[trigger] groups[i],
                item,
            ),
    decreases groups.len() - from,
{
    if from < groups.len() && !matches_group(groups[from], item) {
        lemma_first_match(groups, item, matches_group, from + 1);
    }
}

/// Every group holds exactly the items that have it as their home, joined in order
/// of arrival, and every item has a home.
pub proof fn lemma_groups_hold_their_items<E>(
    items: Seq<E>,
    matches_group: spec_fn(E, E) -> bool,
    join: spec_fn(E, E) -> E,
)
    ensures
        grouped(items, matches_group, join).len() <= items.len(),
        forall|g: int|
            0 <= g < grouped(items, matches_group, join).len() ==> gathered(
                items,
                g,
                matches_group,
                join,
            ) == Some(#[trigger] grouped(items, matches_group, join)[g]),
        forall|g: int|
            g >= grouped(items, matches_group, join).len() ==> #[trigger] gathered(
                items,
                g,
                matches_group,
                join,
            ) is None,
        forall|k: int|
            0 <= k < items.len() ==> 0 <= #[trigger] home(items, k, matches_group, join) < grouped(
                items,
                matches_group,
                join,
            ).len(),
    decreases items.len(),
{
    if items.len() > 0 {
        let shorter = items.drop_last();
        let last = items.len() - 1;
        lemma_groups_hold_their_items(shorter, matches_group, join);
        let before = grouped(shorter, matches_group, join);
        let after = grouped(items, matches_group, join);
        assert(items.take(last) =~= shorter);
        lemma_first_match(before, items.last(), matches_group, 0);
        assert(items.last() == items[last]);
        let h = home(items, last, matches_group, join);
        assert forall|g: int| 0 <= g < after.len() implies gathered(
            items,
            g,
            matches_group,
            join,
        ) == Some(#[trigger] after[g]) by {
            if g < before.len() {
                assert(gathered(shorter, g, matches_group, join) == Some(before[g]));
            } else {
                assert(gathered(shorter, g, matches_group, join) is None);
            }
        }
        assert forall|g: int| g >= after.len() implies #[trigger] gathered(
            items,
            g,
            matches_group,
            join,
        ) is None by {
            assert(gathered(shorter, g, matches_group, join) is None);
        }
        assert forall|k: int| 0 <= k < items.len() implies 0 <= #[trigger] home(
            items,
            k,
            matches_group,
            join,
        ) < after.len() by {
            if k < last {
                assert(items.take(k) =~= shorter.take(k));
                assert(home(shorter, k, matches_group, join) == home(
                    items,
                    k,
                    matches_group,
                    join,
                ));
            }
        }
    }
}

/// A property that links an item to its group holds of every item and its group in
/// the end, provided that it holds of an item and the group it founds, of an item
/// and the group it joins, and survives the joining of a further item.
pub proof fn lemma_items_fit_their_groups<E>(
    items: Seq<E>,
    matches_group: spec_fn(E, E) -> bool,
    join: spec_fn(E, E) -> E,
    fits: spec_fn(E, E) -> bool,
    k: int,
)
    requires
        0 <= k < items.len(),
        forall|x: E| #[trigger] fits(x, x),
        forall|g: E, x: E| #[trigger] matches_group(g, x) ==> fits(join(g, x), x),
        forall|g: E, x: E, y: E|
            #![trigger fits(g, x), matches_group(g, y)]
            fits(g, x) && matches_group(g, y) ==> fits(join(g, y), x),
    ensures
        fits(grouped(items, matches_group, join)[home(items, k, matches_group, join)], items[k]),
    decreases items.len(),
{
    let shorter = items.drop_last();
    let last = items.len() - 1;
    let before = grouped(shorter, matches_group, join);
    assert(items.take(last) =~= shorter);
    lemma_groups_hold_their_items(shorter, matches_group, join);
    lemma_first_match(before, items.last(), matches_group, 0);
    if k < last {
        lemma_items_fit_their_groups(shorter, matches_group, join, fits, k);
        assert(items.take(k) =~= shorter.take(k));
        assert(shorter[k] == items[k]);
        let h = home(shorter, k, matches_group, join);
        assert(h == home(items, k, matches_group, join));
        assert(0 <= h < before.len());
    }
}

/// Whether no group would take in one behind it.
pub open spec fn settled<E>(groups: Seq<E>, matches_group: spec_fn(E, E) -> bool) -> bool {
    forall|i: int, j: int|
        0 <= i < j < groups.len() ==> !matches_group(#[trigger] groups[i], #[trigger] groups[j])
}

/// Groups are settled, provided that two groups which would not join still would not
/// after either has taken in an item.
pub proof fn lemma_groups_are_settled<E>(
    items: Seq<E>,
    matches_group: spec_fn(E, E) -> bool,
    join: spec_fn(E, E) -> E,
)
    requires
        forall|g: E, h: E, x: E|
            #![trigger matches_group(g, h), join(g, x)]
            !matches_group(g, h) && matches_group(g, x) ==> !matches_group(join(g, x), h),
        forall|g: E, h: E, x: E|
            #![trigger matches_group(g, h), join(h, x)]
            !matches_group(g, h) && matches_group(h, x) ==> !matches_group(g, join(h, x)),
    ensures
        settled(grouped(items, matches_group, join), matches_group),
    decreases items.len(),
{
    if items.len() > 0 {
        let before = grouped(items.drop_last(), matches_group, join);
        lemma_groups_are_settled(items.drop_last(), matches_group, join);
        lemma_first_match(before, items.last(), matches_group, 0);
    }
}

/// Settled groups stay as they are when they are grouped again.
pub proof fn lemma_settled_groups_stay<E>(
    groups: Seq<E>,
    matches_group: spec_fn(E, E) -> bool,
    join: spec_fn(E, E) -> E,
)
    requires
        settled(groups, matches_group),
    ensures
        grouped(groups, matches_group, join) == groups,
    decreases groups.len(),
{
    if groups.len() > 0 {
        let shorter = groups.drop_last();
        lemma_settled_groups_stay(shorter, matches_group, join);
        lemma_first_match(shorter, groups.last(), matches_group, 0);
        let i = first_match(shorter, groups.last(), matches_group, 0);
        if i < shorter.len() {
            assert(!matches_group(groups[i], groups[groups.len() - 1]));
        }
        assert(shorter.push(groups.last()) =~= groups);
    }
}

/// A quantity that joining adds up has the same total over the groups as over the
/// items.
pub proof fn lemma_total_is_kept<E, A>(
    items: Seq<E>,
    matches_group: spec_fn(E, E) -> bool,
    join: spec_fn(E, E) -> E,
    part: spec_fn(E) -> Multiset<A>,
)
    requires
        forall|g: E, x: E| #[trigger]
            matches_group(g, x) ==> part(join(g, x)) == part(g).add(part(x)),
    ensures
        total(grouped(items, matches_group, join), part) == total(items, part),
    decreases items.len(),
{
    if items.len() > 0 {
        let shorter = items.drop_last();
        lemma_total_is_kept(shorter, matches_group, join, part);
        let before = grouped(shorter, matches_group, join);
        let item = items.last();
        lemma_first_match(before, item, matches_group, 0);
        let i = first_match(before, item, matches_group, 0);
        if i < before.len() {
            lemma_total_update(before, i, join(before[i], item), part(item), part);
        } else {
            assert(before.push(item).drop_last() =~= before);
        }
    }
}

pub proof fn lemma_total_update<E, A>(
    items: Seq<E>,
    i: int,
    changed: E,
    extra: Multiset<A>,
    part: spec_fn(E) -> Multiset<A>,
)
    requires
        0 <= i < items.len(),
        part(changed) == part(items[i]).add(extra),
    ensures
        total(items.update(i, changed), part) == total(items, part).add(extra),
    decreases items.len(),
{
    let updated = items.update(i, changed);
    if i == items.len() - 1 {
        assert(updated.drop_last() =~= items.drop_last());
        assert(total(updated, part) =~= total(items, part).add(extra));
    } else {
        lemma_total_update(items.drop_last(), i, changed, extra, part);
        assert(updated.drop_last() =~= items.drop_last().update(i, changed));
        assert(total(updated, part) =~= total(items, part).add(extra));
    }
}

} // verus!
