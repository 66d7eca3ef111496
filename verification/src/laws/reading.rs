//! What reading a configuration comes to: texts, numbers, durations, lookups, the
//! retry budget and TLS settings.
use crate::error::{list_views, option_view};
use crate::metrics::OutputMetrics;
use crate::props::{
    digit_run, digits_value, duration_nanos, first_block, first_value, fragment_views, ident_at,
    int_at, lemma_fragment_views, pairs_view, positive_int_at, string_at, string_entries,
    string_map_at, word_at, Expr, ExprView, FragmentView, Property, TemplateFragment,
};
use crate::retry::{retry_result, wait_setting, RetryConfig};
use crate::text::{ascii_lower, decimal, has_char, joined, signed_decimal, texts};
use crate::tls::{tls_block_result, ClientTlsConfig, TlsView};
use vstd::prelude::*;

verus! {

/// Ten to the power `k`.
pub open spec fn pow10(k: nat) -> nat
    decreases k,
{
    if k == 0 {
        1
    } else {
        10 * pow10((k - 1) as nat)
    }
}

/// Digits are read in base ten, wherever they are cut in two: the front counts for
/// ten times more with every digit behind it. A text with anything but the ten
/// digits in it is no number.
pub proof fn law_digits_are_decimal(front: Seq<char>, back: Seq<char>, c: char)
    ensures
        digits_value(Seq::<char>::empty()) == Some(0nat),
        '0' <= c <= '9' ==> digits_value(seq![c]) == Some((c as u32 - '0' as u32) as nat),
        !('0' <= c <= '9') ==> digits_value(front + seq![c] + back) is None,
        digits_value(front) is Some && digits_value(back) is Some ==> digits_value(front + back)
            == Some((digits_value(front)->0 * pow10(back.len()) + digits_value(back)->0) as nat),
    decreases back.len(),
{
    assert(seq![c].drop_last() =~= Seq::<char>::empty());
    assert(seq![c].last() == c);
    assert(digits_value(seq![c].drop_last()) == Some(0nat));
    if back.len() == 0 {
        assert(front + back =~= front);
        assert(front + seq![c] + back =~= front.push(c));
        assert(front.push(c).drop_last() =~= front);
        if digits_value(front) is Some {
            let f = digits_value(front)->0;
            assert(f * 1 == f);
        }
    } else {
        let shorter = back.drop_last();
        law_digits_are_decimal(front, shorter, c);
        assert((front + back).drop_last() =~= front + shorter);
        assert((front + seq![c] + back).drop_last() =~= front + seq![c] + shorter);
        if digits_value(front) is Some && digits_value(back) is Some {
            let f = digits_value(front)->0;
            let p = pow10(shorter.len());
            let rest = digits_value(shorter)->0;
            assert((f * p + rest) * 10 == f * (10 * p) + rest * 10) by (nonlinear_arith);
            assert(pow10(back.len()) == 10 * p);
            assert((front + back).last() == back.last());
        }
    }
}

/// A number that is shown in decimal reads back as that number, and is shown without
/// a zero in front.
pub proof fn law_shown_numbers_read_back(n: nat)
    ensures
        digits_value(decimal(n)) == Some(n),
        decimal(n).len() > 0,
        n > 0 ==> decimal(n)[0] != '0',
        forall|i: int| 0 <= i < decimal(n).len() ==> '0' <= #[trigger] decimal(n)[i] <= '9',
        signed_decimal(n as int) == decimal(n),
        n > 0 ==> signed_decimal(-(n as int)) == seq!['-'] + decimal(n),
    decreases n,
{
    let s = decimal(n);
    if n < 10 {
        assert(s.drop_last() =~= Seq::<char>::empty());
        assert(digits_value(s.drop_last()) == Some(0nat));
    } else {
        law_shown_numbers_read_back(n / 10);
        assert(s.drop_last() =~= decimal(n / 10));
        assert(s[0] == decimal(n / 10)[0]);
        assert forall|i: int| 0 <= i < s.len() implies '0' <= #[trigger] s[i] <= '9' by {
            if i < s.len() - 1 {
                assert(s[i] == decimal(n / 10)[i]);
            }
        }
    }
}

/// Joined texts keep every part in order with one separator between neighbours:
/// joining two lists and then those two texts is joining the whole.
pub proof fn law_joining_keeps_the_parts(a: Seq<Seq<char>>, b: Seq<Seq<char>>, sep: Seq<char>)
    requires
        a.len() > 0,
        b.len() > 0,
    ensures
        joined(a + b, sep) == joined(a, sep) + sep + joined(b, sep),
        joined(seq![a[0]], sep) == a[0],
    decreases b.len(),
{
    assert((a + b).drop_last() =~= a + b.drop_last());
    if b.len() == 1 {
        assert(a + b.drop_last() =~= a);
        assert(joined(a + b, sep) =~= joined(a, sep) + sep + joined(b, sep));
    } else {
        law_joining_keeps_the_parts(a, b.drop_last(), sep);
        assert(joined(a + b, sep) =~= joined(a, sep) + sep + joined(b, sep));
    }
}

/// Lower case changes the letters from A to Z, each into its small form, and nothing
/// else; the length stays.
pub proof fn law_lower_case_changes_capitals_only(s: Seq<char>, i: int)
    requires
        0 <= i < s.len(),
    ensures
        ascii_lower(s).len() == s.len(),
        'A' <= s[i] <= 'Z' ==> 'a' <= ascii_lower(s)[i] <= 'z' && ascii_lower(s)[i] as u32
            - 'a' as u32 == s[i] as u32 - 'A' as u32,
        !('A' <= s[i] <= 'Z') ==> ascii_lower(s)[i] == s[i],
        ascii_lower(ascii_lower(s)) == ascii_lower(s),
{
    assert(ascii_lower(ascii_lower(s)) =~= ascii_lower(s));
}

/// The key that stands in front of a property.
pub open spec fn named(p: Property, key: Seq<char>) -> bool {
    match p {
        Property::KeyValue { key: k, .. } => k@ == key,
        Property::Block { key: k, .. } => k@ == key,
    }
}

/// A lookup finds the first property of its form with the key, whatever comes behind
/// it, and passes over every other.
pub proof fn law_first_property_counts(p: Property, rest: Seq<Property>, key: Seq<char>)
    ensures
        first_value(Seq::<Property>::empty(), key) is None,
        first_block(Seq::<Property>::empty(), key) is None,
        p matches Property::KeyValue { value, .. } ==> named(p, key) ==> first_value(
            seq![p] + rest,
            key,
        ) == Some(value),
        p is Block || !named(p, key) ==> first_value(seq![p] + rest, key) == first_value(
            rest,
            key,
        ),
        p matches Property::Block { properties, .. } ==> named(p, key) ==> first_block(
            seq![p] + rest,
            key,
        ) == Some(properties@),
        p is KeyValue || !named(p, key) ==> first_block(seq![p] + rest, key) == first_block(
            rest,
            key,
        ),
{
    let all = seq![p] + rest;
    assert(all[0] == p);
    assert(all.drop_first() =~= rest);
}

/// A setting of a kind is there exactly where the first value with its key is of that
/// kind, and is what is written there.
pub proof fn law_settings_are_what_is_written(
    props: Seq<Property>,
    key: Seq<char>,
    s: Seq<char>,
    i: i64,
)
    ensures
        string_at(props, key) == Some(s) <==> (first_value(props, key) matches Some(
            Expr::StringLit(x),
        ) && x@ == s),
        int_at(props, key) == Some(i) <==> first_value(props, key) == Some(Expr::IntLit(i)),
        ident_at(props, key) == Some(s) <==> (first_value(props, key) matches Some(
            Expr::Ident(parts),
        ) && joined(texts(parts@), "."@) == s),
        word_at(props, key) == Some(s) <==> string_at(props, key) == Some(s) || ident_at(
            props,
            key,
        ) == Some(s),
{
}

/// A positive integer setting is taken where it is at least one, refused where it is
/// not, and left to its default where there is none.
pub proof fn law_positive_settings_are_positive(props: Seq<Property>, key: Seq<char>)
    ensures
        int_at(props, key) is None ==> positive_int_at(props, key) == Ok::<
            Option<u64>,
            Seq<char>,
        >(None),
        int_at(props, key) matches Some(i) ==> if i >= 1 {
            positive_int_at(props, key) matches Ok(Some(n)) && n == i
        } else {
            positive_int_at(props, key) is Err
        },
{
}

/// The entries of a block of pairs come in its order: those of two halves are those of
/// the whole. A string or an identifier gives one entry with its key, any other
/// property none.
pub proof fn law_entries_come_in_order(a: Seq<Property>, b: Seq<Property>, p: Property)
    ensures
        string_entries(a + b) == string_entries(a) + string_entries(b),
        string_entries(seq![p]) == match p {
            Property::KeyValue { key, value: Expr::StringLit(s) } => seq![(key@, s@)],
            Property::KeyValue { key, value: Expr::Ident(parts) } => seq![
                (key@, joined(texts(parts@), "."@)),
            ],
            _ => Seq::empty(),
        },
    decreases b.len(),
{
    assert(seq![p].drop_last() =~= Seq::<Property>::empty());
    assert(seq![p].last() == p);
    assert(string_entries(seq![p].drop_last()) =~= Seq::<(Seq<char>, Seq<char>)>::empty());
    if b.len() == 0 {
        assert(a + b =~= a);
        assert(string_entries(a + b) =~= string_entries(a) + string_entries(b));
    } else {
        law_entries_come_in_order(a, b.drop_last(), p);
        assert((a + b).drop_last() =~= a + b.drop_last());
        assert(string_entries(a + b) =~= string_entries(a) + string_entries(b));
    }
}

/// A map setting holds the entries of the first block with its key, or nothing.
pub proof fn law_map_setting_is_its_block(props: Seq<Property>, key: Seq<char>)
    ensures
        first_block(props, key) matches Some(inner) ==> string_map_at(props, key)
            == string_entries(inner),
        first_block(props, key) is None ==> string_map_at(props, key).len() == 0,
{
}

proof fn lemma_run_of_digits(s: Seq<char>, k: int)
    requires
        0 <= k <= s.len(),
        forall|i: int| 0 <= i < k ==> '0' <= #[trigger] s[i] <= '9',
        k == s.len() || !('0' <= s[k] <= '9'),
    ensures
        digit_run(s) == k,
    decreases s.len(),
{
    if s.len() > 0 && k > 0 {
        let rest = s.drop_first();
        assert forall|i: int| 0 <= i < k - 1 implies '0' <= #[trigger] rest[i] <= '9' by {
            assert(rest[i] == s[i + 1]);
        }
        assert(k < s.len() ==> rest[k - 1] == s[k]);
        lemma_run_of_digits(rest, k - 1);
    }
}

proof fn lemma_only_digits_count(s: Seq<char>)
    requires
        forall|i: int| 0 <= i < s.len() ==> '0' <= #[trigger] s[i] <= '9',
    ensures
        digits_value(s) is Some,
    decreases s.len(),
{
    if s.len() > 0 {
        lemma_only_digits_count(s.drop_last());
    }
}

/// A duration is a run of digits and a unit: so many thousandths of a second, seconds,
/// minutes or hours, in nanoseconds; it is refused where it does not fit, and where
/// the unit is another or missing.
pub proof fn law_durations_are_number_and_unit(digits: Seq<char>, unit: Seq<char>)
    requires
        forall|i: int| 0 <= i < digits.len() ==> '0' <= #[trigger] digits[i] <= '9',
        unit.len() == 0 || !('0' <= unit[0] <= '9'),
    ensures
        ({
            let nanos = if unit == seq!['m', 's'] {
                1_000_000nat
            } else if unit == seq!['s'] {
                1_000_000_000nat
            } else if unit == seq!['m'] {
                60_000_000_000nat
            } else if unit == seq!['h'] {
                3_600_000_000_000nat
            } else {
                0nat
            };
            &&& digits_value(digits) is Some
            &&& duration_nanos(digits + unit) == if digits.len() > 0 && nanos > 0
                && digits_value(digits)->0 * nanos <= u64::MAX {
                Some((digits_value(digits)->0 * nanos) as u64)
            } else {
                None
            }
        }),
{
    reveal_strlit("ms");
    reveal_strlit("s");
    reveal_strlit("m");
    reveal_strlit("h");
    assert("ms"@ =~= seq!['m', 's']);
    assert("s"@ =~= seq!['s']);
    assert("m"@ =~= seq!['m']);
    assert("h"@ =~= seq!['h']);
    assert(seq!['m', 's'].len() == 2 && seq!['s'][0] == 's' && seq!['m'][0] == 'm' && seq!['h'][0]
        == 'h');
    let s = digits + unit;
    let k = digits.len() as int;
    assert forall|i: int| 0 <= i < k implies '0' <= #[trigger] s[i] <= '9' by {
        assert(s[i] == digits[i]);
    }
    lemma_run_of_digits(s, k);
    lemma_only_digits_count(digits);
    assert(s.take(k) =~= digits);
    assert(s.skip(k) =~= unit);
}

/// A wait setting is the duration that is written, or the default.
pub proof fn law_wait_setting_is_a_duration(props: Seq<Property>, key: Seq<char>, default: u64)
    ensures
        string_at(props, key) is None ==> wait_setting(props, key, default) == Ok::<
            u64,
            Seq<char>,
        >(default),
        string_at(props, key) matches Some(s) ==> match duration_nanos(s) {
            Some(nanos) => wait_setting(props, key, default) == Ok::<u64, Seq<char>>(nanos),
            None => wait_setting(props, key, default) is Err,
        },
{
}

/// The retry budget is what its block says, setting by setting, and the defaults are
/// left where it says nothing; it is refused exactly where one of the settings is.
pub proof fn law_retry_budget_is_what_is_written(
    props: Seq<Property>,
    defaults: RetryConfig,
    block: Seq<Property>,
)
    requires
        first_block(props, "retry"@) == Some(block),
    ensures
        ({
            let attempts_ok = int_at(block, "max_attempts"@) matches Some(n) ==> 1 <= n <= u32::MAX;
            let initial = wait_setting(block, "initial_wait"@, defaults.initial_wait);
            let longest = wait_setting(block, "max_wait"@, defaults.max_wait);
            let growth = word_at(block, "backoff"@);
            let growth_ok = growth matches Some(w) ==> w == "fixed"@ || w == "exponential"@;
            &&& retry_result(props, defaults) is Ok <==> attempts_ok && initial is Ok && longest
                is Ok && growth_ok
            &&& retry_result(props, defaults) matches Ok(config) ==> {
                &&& config.max_attempts == match int_at(block, "max_attempts"@) {
                    Some(n) => n as int,
                    None => defaults.max_attempts as int,
                }
                &&& initial == Ok::<u64, Seq<char>>(config.initial_wait)
                &&& longest == Ok::<u64, Seq<char>>(config.max_wait)
                &&& growth is None ==> config.backoff == defaults.backoff
                &&& growth == Some("fixed"@) ==> config.backoff is Fixed
                &&& growth == Some("exponential"@) ==> config.backoff is Exponential
            }
        }),
{
    reveal_strlit("fixed");
    reveal_strlit("exponential");
    assert("fixed"@.len() != "exponential"@.len());
}

/// Without a block the budget is the default one.
pub proof fn law_retry_budget_defaults(props: Seq<Property>, defaults: RetryConfig)
    requires
        first_block(props, "retry"@) is None,
    ensures
        retry_result(props, defaults) == Ok::<RetryConfig, Seq<char>>(defaults),
{
}

/// The wait that follows a wait: the same where the backoff is fixed, otherwise twice
/// as long or the limit, whichever is shorter.
pub proof fn law_next_wait_grows_to_the_limit(config: RetryConfig, wait: u64)
    ensures
        config.backoff is Fixed ==> config.wait_after(wait) == wait,
        config.backoff is Exponential ==> config.wait_after(wait) <= config.max_wait
            && config.wait_after(wait) <= 2 * wait && (config.wait_after(wait) == 2 * wait
            || config.wait_after(wait) == config.max_wait),
{
}

/// TLS settings are the three paths under their names, refused exactly where a
/// certificate comes without its key or a key without its certificate.
pub proof fn law_tls_settings_are_what_is_written(
    block: Seq<Property>,
    label: Seq<char>,
    config: ClientTlsConfig,
)
    ensures
        tls_block_result(block, label) is Err <==> (string_at(block, "cert"@) is Some) != (
        string_at(block, "key"@) is Some),
        tls_block_result(block, label) matches Ok(tls) ==> {
            &&& tls.ca == string_at(block, "ca"@)
            &&& tls.cert == string_at(block, "cert"@)
            &&& tls.key == string_at(block, "key"@)
        },
        tls_block_result(block, label) == Ok::<TlsView, Seq<char>>(config@) ==> {
            &&& option_view(config.ca_path) == string_at(block, "ca"@)
            &&& option_view(config.cert_path) == string_at(block, "cert"@)
            &&& option_view(config.key_path) == string_at(block, "key"@)
        },
{
}

/// Each counter counts its own thing, modulo its width, and leaves the others alone;
/// the gauge is 1 or 0.
pub proof fn law_counters_count_one_thing_each(m: OutputMetrics, n: u64, on: bool)
    ensures
        m.written(n) == (OutputMetrics {
            events_written: ((m.events_written + n) as int % 0x1_0000_0000_0000_0000) as u64,
            ..m
        }),
        m.failed(n) == (OutputMetrics {
            events_failed: ((m.events_failed + n) as int % 0x1_0000_0000_0000_0000) as u64,
            ..m
        }),
        m.retried() == (OutputMetrics {
            retries: ((m.retries + 1) as int % 0x1_0000_0000_0000_0000) as u64,
            ..m
        }),
        m.wrote_bytes(n) == (OutputMetrics {
            bytes_written: ((m.bytes_written + n) as int % 0x1_0000_0000_0000_0000) as u64,
            ..m
        }),
        m.waiting(on).in_retry == if on {
            1int
        } else {
            0
        },
        m.waiting(on) == (OutputMetrics { in_retry: m.waiting(on).in_retry, ..m }),
        OutputMetrics::zero() == (OutputMetrics {
            events_written: 0,
            events_failed: 0,
            retries: 0,
            bytes_written: 0,
            in_retry: 0,
        }),
{
}

/// Whether a text holds another as a part.
pub open spec fn mentions(text: Seq<char>, part: Seq<char>) -> bool {
    exists|before: Seq<char>, after: Seq<char>| text == #[trigger] (before + part + after)
}

/// A text holds each part that it is put together from.
pub proof fn lemma_mentions(before: Seq<char>, part: Seq<char>, after: Seq<char>)
    ensures
        mentions(before + part + after, part),
{
}

/// A character occurs in a text where it stands at some place in it.
pub proof fn law_characters_occur(s: Seq<char>, c: char)
    ensures
        has_char(s, c) <==> s.contains(c),
{
}

/// Values are seen as they are, one by one: a missing one stays missing, and a list
/// keeps its order and its length.
pub proof fn law_lists_are_seen_one_by_one(
    list: Seq<String>,
    one: Option<String>,
    pairs: Seq<(String, String)>,
    i: int,
)
    ensures
        texts(list).len() == list.len(),
        0 <= i < list.len() ==> texts(list)[i] == list[i]@,
        list_views(list) == texts(list),
        match one {
            Some(s) => option_view(one) == Some(s@),
            None => option_view(one) is None,
        },
        pairs_view(pairs).len() == pairs.len(),
        0 <= i < pairs.len() ==> pairs_view(pairs)[i] == (pairs[i].0@, pairs[i].1@),
{
    assert(list_views(list) =~= texts(list));
}

/// A template is seen fragment by fragment: literals by their text, interpolations by
/// their expression, with every text, number and name in it.
pub proof fn law_templates_are_seen_whole(list: Seq<TemplateFragment>, e: Expr, i: int)
    ensures
        fragment_views(list).len() == list.len(),
        0 <= i < list.len() ==> match list[i] {
            TemplateFragment::Literal(s) => fragment_views(list)[i] == FragmentView::Literal(s@),
            TemplateFragment::Interp(x) => fragment_views(list)[i] == FragmentView::Interp(x@),
        },
        match e {
            Expr::StringLit(s) => e@ == ExprView::StringLit(s@),
            Expr::IntLit(n) => e@ == ExprView::IntLit(n),
            Expr::Ident(parts) => e@ == ExprView::Ident(texts(parts@)),
            Expr::Template(fragments) => e@ == ExprView::Template(fragment_views(fragments@)),
            Expr::Other => e@ is Other,
        },
{
    lemma_fragment_views(list);
}

} // verus!
