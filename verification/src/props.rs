//! Configuration properties of an output, and how the outputs read them.
//!
//! A property is either `key value` or a block `key { ... }`. A lookup takes
//! the first property with the key; a lookup of one kind of value finds nothing
//! where the first value with that key is of another kind.
use crate::error::{cat3, option_view, OutputError};
use crate::text::{chars_of, join_dots, joined, text_eq, texts};
use vstd::prelude::*;

verus! {

/// A piece of a template string.
#[derive(Debug)]
pub enum TemplateFragment {
    Literal(String),
    Interp(Box<Expr>),
}

/// The value of a property.
#[derive(Debug)]
pub enum Expr {
    StringLit(String),
    IntLit(i64),
    Ident(Vec<String>),
    Template(Vec<TemplateFragment>),
    Other,
}

/// A [`TemplateFragment`], its texts as sequences of characters.
pub ghost enum FragmentView {
    Literal(Seq<char>),
    Interp(ExprView),
}

/// An [`Expr`], its texts as sequences of characters.
pub ghost enum ExprView {
    StringLit(Seq<char>),
    IntLit(i64),
    Ident(Seq<Seq<char>>),
    Template(Seq<FragmentView>),
    Other,
}

pub open spec fn expr_view(e: Expr) -> ExprView
    decreases e,
{
    match e {
        Expr::StringLit(s) => ExprView::StringLit(s@),
        Expr::IntLit(i) => ExprView::IntLit(i),
        Expr::Ident(parts) => ExprView::Ident(texts(parts@)),
        Expr::Template(fragments) => ExprView::Template(fragment_views(fragments@)),
        Expr::Other => ExprView::Other,
    }
}

pub open spec fn fragment_view(f: TemplateFragment) -> FragmentView
    decreases f,
{
    match f {
        TemplateFragment::Literal(s) => FragmentView::Literal(s@),
        TemplateFragment::Interp(e) => FragmentView::Interp(expr_view(*e)),
    }
}

pub open spec fn fragment_views(list: Seq<TemplateFragment>) -> Seq<FragmentView>
    decreases list,
{
    if list.len() == 0 {
        Seq::empty()
    } else {
        let last = list.len() - 1;
        fragment_views(list.subrange(0, last)).push(fragment_view(list[last]))
    }
}

impl View for Expr {
    type V = ExprView;

    open spec fn view(&self) -> ExprView {
        expr_view(*self)
    }
}

impl View for TemplateFragment {
    type V = FragmentView;

    open spec fn view(&self) -> FragmentView {
        fragment_view(*self)
    }
}

pub(crate) proof fn lemma_fragment_views(list: Seq<TemplateFragment>)
    ensures
        fragment_views(list).len() == list.len(),
        forall|i: int|
            0 <= i < list.len() ==> #[trigger] fragment_views(list)[i] == fragment_view(list[i]),
    decreases list.len(),
{
    if list.len() > 0 {
        let shorter = list.subrange(0, list.len() - 1);
        lemma_fragment_views(shorter);
        assert forall|i: int| 0 <= i < list.len() implies #[trigger] fragment_views(list)[i]
            == fragment_view(list[i]) by {
            if i < shorter.len() {
                assert(fragment_views(shorter)[i] == fragment_view(shorter[i]));
            }
        }
    }
}

/// Copies an expression.
pub fn copy_expr(e: &Expr) -> (c: Expr)
    ensures
        c@ == e@,
    decreases e,
{
    match e {
        Expr::StringLit(s) => Expr::StringLit(s.clone()),
        Expr::IntLit(i) => Expr::IntLit(*i),
        Expr::Ident(parts) => {
            let mut copy: Vec<String> = Vec::new();
            for i in 0..parts.len()
                invariant
                    texts(copy@) == texts(parts@).take(i as int),
            {
                let ghost before = copy@;
                copy.push(parts[i].clone());
                assert(texts(copy@) =~= texts(before).push(parts@[i as int]@));
                assert(texts(parts@).take(i + 1) =~= texts(parts@).take(i as int).push(
                    parts@[i as int]@,
                ));
            }
            assert(texts(parts@).take(parts@.len() as int) =~= texts(parts@));
            Expr::Ident(copy)
        },
        Expr::Template(fragments) => Expr::Template(copy_fragments(fragments)),
        Expr::Other => Expr::Other,
    }
}

/// Copies the pieces of a template.
pub fn copy_fragments(list: &Vec<TemplateFragment>) -> (c: Vec<TemplateFragment>)
    ensures
        fragment_views(c@) == fragment_views(list@),
    decreases list,
{
    let mut copy: Vec<TemplateFragment> = Vec::new();
    for i in 0..list.len()
        invariant
            copy@.len() == i,
            forall|j: int|
                0 <= j < i ==> fragment_view(#[trigger] copy@[j]) == fragment_view(list@[j]),
    {
        let piece = match &list[i] {
            TemplateFragment::Literal(s) => TemplateFragment::Literal(s.clone()),
            TemplateFragment::Interp(e) => TemplateFragment::Interp(Box::new(copy_expr(e))),
        };
        copy.push(piece);
    }
    proof {
        lemma_fragment_views(copy@);
        lemma_fragment_views(list@);
        assert(fragment_views(copy@) =~= fragment_views(list@));
    }
    copy
}

/// One configured property.
#[derive(Debug)]
pub enum Property {
    KeyValue { key: String, value: Expr },
    Block { key: String, properties: Vec<Property> },
}

/// The key of a property.
pub open spec fn key_of(p: Property) -> Seq<char> {
    match p {
        Property::KeyValue { key, .. } => key@,
        Property::Block { key, .. } => key@,
    }
}

/// The value of the first `key value` property with this key.
pub open spec fn first_value(props: Seq<Property>, key: Seq<char>) -> Option<Expr>
    decreases props.len(),
{
    if props.len() == 0 {
        None
    } else {
        match props[0] {
            Property::KeyValue { key: k, value } => if k@ == key {
                Some(value)
            } else {
                first_value(props.drop_first(), key)
            },
            Property::Block { .. } => first_value(props.drop_first(), key),
        }
    }
}

/// The contents of the first block with this key.
pub open spec fn first_block(props: Seq<Property>, key: Seq<char>) -> Option<Seq<Property>>
    decreases props.len(),
{
    if props.len() == 0 {
        None
    } else {
        match props[0] {
            Property::Block { key: k, properties } => if k@ == key {
                Some(properties@)
            } else {
                first_block(props.drop_first(), key)
            },
            Property::KeyValue { .. } => first_block(props.drop_first(), key),
        }
    }
}

/// The text of a string literal.
pub open spec fn as_string(value: Option<Expr>) -> Option<Seq<char>> {
    match value {
        Some(Expr::StringLit(s)) => Some(s@),
        _ => None,
    }
}

/// The dotted name of an identifier.
pub open spec fn as_ident(value: Option<Expr>) -> Option<Seq<char>> {
    match value {
        Some(Expr::Ident(parts)) => Some(joined(texts(parts@), "."@)),
        _ => None,
    }
}

/// The value of an integer literal.
pub open spec fn as_int(value: Option<Expr>) -> Option<i64> {
    match value {
        Some(Expr::IntLit(i)) => Some(i),
        _ => None,
    }
}

pub open spec fn string_at(props: Seq<Property>, key: Seq<char>) -> Option<Seq<char>> {
    as_string(first_value(props, key))
}

pub open spec fn ident_at(props: Seq<Property>, key: Seq<char>) -> Option<Seq<char>> {
    as_ident(first_value(props, key))
}

pub open spec fn int_at(props: Seq<Property>, key: Seq<char>) -> Option<i64> {
    as_int(first_value(props, key))
}

/// A setting that may be written as a string or as a bare word.
pub open spec fn word_at(props: Seq<Property>, key: Seq<char>) -> Option<Seq<char>> {
    match string_at(props, key) {
        Some(s) => Some(s),
        None => ident_at(props, key),
    }
}

/// The value of the first `key value` property with this key.
pub fn get_expr<'a>(props: &'a [Property], key: &str) -> (r: Option<&'a Expr>)
    ensures
        match r {
            Some(value) => first_value(props@, key@) == Some(*value),
            None => first_value(props@, key@) is None,
        },
{
    let mut i: usize = 0;
    assert(props@.skip(0) =~= props@);
    while i < props.len()
        invariant
            i <= props@.len(),
            first_value(props@, key@) == first_value(props@.skip(i as int), key@),
        decreases props@.len() - i,
    {
        let ghost rest = props@.skip(i as int);
        assert(rest.drop_first() =~= props@.skip(i + 1));
        assert(rest[0] == props@[i as int]);
        if let Property::KeyValue { key: k, value } = &props[i] {
            if text_eq(k.as_str(), key) {
                return Some(value);
            }
        }
        i = i + 1;
    }
    None
}

/// The contents of the first block with this key.
pub fn get_block<'a>(props: &'a [Property], key: &str) -> (r: Option<&'a Vec<Property>>)
    ensures
        match r {
            Some(inner) => first_block(props@, key@) == Some(inner@),
            None => first_block(props@, key@) is None,
        },
{
    let mut i: usize = 0;
    assert(props@.skip(0) =~= props@);
    while i < props.len()
        invariant
            i <= props@.len(),
            first_block(props@, key@) == first_block(props@.skip(i as int), key@),
        decreases props@.len() - i,
    {
        let ghost rest = props@.skip(i as int);
        assert(rest.drop_first() =~= props@.skip(i + 1));
        assert(rest[0] == props@[i as int]);
        if let Property::Block { key: k, properties } = &props[i] {
            if text_eq(k.as_str(), key) {
                return Some(properties);
            }
        }
        i = i + 1;
    }
    None
}

/// The string literal at this key.
pub fn get_string(props: &[Property], key: &str) -> (r: Option<String>)
    ensures
        option_view(r) == string_at(props@, key@),
{
    match get_expr(props, key) {
        Some(Expr::StringLit(s)) => Some(s.clone()),
        _ => None,
    }
}

/// The identifier at this key, its parts joined by dots.
pub fn get_ident(props: &[Property], key: &str) -> (r: Option<String>)
    ensures
        option_view(r) == ident_at(props@, key@),
{
    match get_expr(props, key) {
        Some(Expr::Ident(parts)) => Some(join_dots(parts)),
        _ => None,
    }
}

/// The integer literal at this key.
pub fn get_int(props: &[Property], key: &str) -> (r: Option<i64>)
    ensures
        r == int_at(props@, key@),
{
    match get_expr(props, key) {
        Some(Expr::IntLit(i)) => Some(*i),
        _ => None,
    }
}

/// The string literal or the identifier at this key.
pub fn get_word(props: &[Property], key: &str) -> (r: Option<String>)
    ensures
        option_view(r) == word_at(props@, key@),
{
    match get_string(props, key) {
        Some(s) => Some(s),
        None => get_ident(props, key),
    }
}

/// What a setting that must be a positive integer is read as.
pub open spec fn positive_int_at(props: Seq<Property>, key: Seq<char>) -> Result<
    Option<u64>,
    Seq<char>,
> {
    match int_at(props, key) {
        Some(i) => if i > 0 {
            Ok(Some(i as u64))
        } else {
            Err("'"@ + key + "' must be a positive integer"@)
        },
        None => Ok(None),
    }
}

/// The integer at this key, refused where it is zero or negative.
pub fn get_positive_int(props: &[Property], key: &str) -> (r: Result<Option<u64>, OutputError>)
    ensures
        match r {
            Ok(v) => positive_int_at(props@, key@) == Ok::<Option<u64>, Seq<char>>(v),
            Err(e) => positive_int_at(props@, key@) == Err::<Option<u64>, Seq<char>>(e@),
        },
{
    match get_int(props, key) {
        Some(i) => if i > 0 {
            Ok(Some(i as u64))
        } else {
            Err(OutputError { message: cat3("'", key, "' must be a positive integer") })
        },
        None => Ok(None),
    }
}

/// The header lines of a block: every `key value` whose value is a string or an
/// identifier, in order.
pub open spec fn string_entries(props: Seq<Property>) -> Seq<(Seq<char>, Seq<char>)>
    decreases props.len(),
{
    if props.len() == 0 {
        Seq::empty()
    } else {
        let before = string_entries(props.drop_last());
        match props.last() {
            Property::KeyValue { key, value } => match value {
                Expr::StringLit(s) => before.push((key@, s@)),
                Expr::Ident(parts) => before.push((key@, joined(texts(parts@), "."@))),
                _ => before,
            },
            Property::Block { .. } => before,
        }
    }
}

/// A list of pairs of texts, by their views.
pub open spec fn pairs_view(pairs: Seq<(String, String)>) -> Seq<(Seq<char>, Seq<char>)> {
    pairs.map_values(|p: (String, String)| (p.0@, p.1@))
}

/// What the map block with this key holds.
pub open spec fn string_map_at(props: Seq<Property>, key: Seq<char>) -> Seq<(Seq<char>, Seq<char>)> {
    match first_block(props, key) {
        Some(inner) => string_entries(inner),
        None => Seq::empty(),
    }
}

/// The entries of the map block with this key; empty without such a block.
pub fn get_string_map(props: &[Property], key: &str) -> (r: Vec<(String, String)>)
    ensures
        pairs_view(r@) == string_map_at(props@, key@),
{
    let mut out: Vec<(String, String)> = Vec::new();
    match get_block(props, key) {
        None => {
            assert(pairs_view(out@) =~= Seq::empty());
            out
        },
        Some(inner) => {
            let mut i: usize = 0;
            assert(pairs_view(out@) =~= string_entries(inner@.take(0)));
            while i < inner.len()
                invariant
                    i <= inner@.len(),
                    pairs_view(out@) == string_entries(inner@.take(i as int)),
                decreases inner@.len() - i,
            {
                assert(inner@.take(i + 1).drop_last() =~= inner@.take(i as int));
                assert(inner@.take(i + 1).last() == inner@[i as int]);
                let ghost before = out@;
                if let Property::KeyValue { key: k, value } = &inner[i] {
                    match value {
                        Expr::StringLit(s) => {
                            out.push((k.clone(), s.clone()));
                            assert(pairs_view(out@) =~= pairs_view(before).push((k@, s@)));
                        },
                        Expr::Ident(parts) => {
                            let joined_text = join_dots(parts);
                            out.push((k.clone(), joined_text));
                            assert(pairs_view(out@) =~= pairs_view(before).push(
                                (k@, joined(texts(parts@), "."@)),
                            ));
                        },
                        _ => {},
                    }
                }
                i = i + 1;
            }
            assert(inner@.take(inner@.len() as int) =~= inner@);
            out
        },
    }
}

/// Whether `c` is a decimal digit.
pub open spec fn is_digit(c: char) -> bool {
    '0' <= c <= '9'
}

/// The number written by a run of decimal digits; `None` where another character
/// stands among them.
pub open spec fn digits_value(s: Seq<char>) -> Option<nat>
    decreases s.len(),
{
    if s.len() == 0 {
        Some(0)
    } else {
        match digits_value(s.drop_last()) {
            None => None,
            Some(n) => if is_digit(s.last()) {
                Some((n * 10 + (s.last() as u32 - 48)) as nat)
            } else {
                None
            },
        }
    }
}

/// The number of leading decimal digits.
pub open spec fn digit_run(s: Seq<char>) -> nat
    decreases s.len(),
{
    if s.len() == 0 || !is_digit(s[0]) {
        0
    } else {
        1 + digit_run(s.drop_first())
    }
}

/// Nanoseconds in one unit of time, by the unit's name.
pub open spec fn unit_nanos(unit: Seq<char>) -> Option<nat> {
    if unit == "ms"@ {
        Some(1_000_000)
    } else if unit == "s"@ {
        Some(1_000_000_000)
    } else if unit == "m"@ {
        Some(60_000_000_000)
    } else if unit == "h"@ {
        Some(3_600_000_000_000)
    } else {
        None
    }
}

/// The nanoseconds that a duration like `250ms`, `30s`, `5m` or `1h` stands for.
pub open spec fn duration_nanos(s: Seq<char>) -> Option<u64> {
    let run = digit_run(s) as int;
    match (digits_value(s.take(run)), unit_nanos(s.skip(run))) {
        (Some(n), Some(unit)) => if run > 0 && n * unit <= u64::MAX {
            Some((n * unit) as u64)
        } else {
            None
        },
        _ => None,
    }
}

proof fn lemma_digits_value_grows(s: Seq<char>, k: int)
    requires
        0 <= k <= s.len(),
        digits_value(s) is Some,
    ensures
        digits_value(s.take(k)) is Some,
        digits_value(s.take(k))->0 <= digits_value(s)->0,
    decreases s.len(),
{
    if k == s.len() {
        assert(s.take(k) =~= s);
    } else {
        lemma_digits_value_grows(s.drop_last(), k);
        assert(s.drop_last().take(k) =~= s.take(k));
    }
}

proof fn lemma_digit_run(s: Seq<char>, k: int)
    requires
        0 <= k <= s.len(),
        forall|i: int| 0 <= i < k ==> is_digit(#[trigger] s[i]),
        k == s.len() || !is_digit(s[k]),
    ensures
        digit_run(s) == k,
    decreases s.len(),
{
    if s.len() > 0 && k > 0 {
        let rest = s.drop_first();
        assert forall|i: int| 0 <= i < k - 1 implies is_digit(#[trigger] rest[i]) by {
            assert(rest[i] == s[i + 1]);
        }
        lemma_digit_run(rest, k - 1);
    }
}

/// Reads a run of digits of `v` in `from..to`, as far as it fits in 64 bits.
pub fn parse_digits(v: &Vec<char>, from: usize, to: usize) -> (r: Option<u64>)
    requires
        from <= to <= v@.len(),
    ensures
        r == match digits_value(v@.subrange(from as int, to as int)) {
            Some(n) => if n <= u64::MAX {
                Some(n as u64)
            } else {
                None
            },
            None => None,
        },
{
    let ghost run = v@.subrange(from as int, to as int);
    let mut n: u64 = 0;
    let mut i: usize = from;
    while i < to
        invariant
            from <= i <= to <= v@.len(),
            run == v@.subrange(from as int, to as int),
            digits_value(run.take(i - from)) == Some(n as nat),
        decreases to - i,
    {
        let c = v[i];
        assert(run.take(i + 1 - from).drop_last() =~= run.take(i - from));
        assert(run.take(i + 1 - from).last() == c);
        if !('0' <= c && c <= '9') {
            proof {
                if digits_value(run) is Some {
                    lemma_digits_value_grows(run, i + 1 - from);
                }
            }
            return None;
        }
        let d: u64 = (c as u32 - 48) as u64;
        let next: Option<u64> = match n.checked_mul(10) {
            Some(tens) => tens.checked_add(d),
            None => None,
        };
        match next {
            Some(value) => {
                n = value;
            },
            None => {
                proof {
                    if digits_value(run) is Some {
                        lemma_digits_value_grows(run, i + 1 - from);
                    }
                }
                return None;
            },
        }
        i = i + 1;
    }
    assert(run.take(to - from) =~= run);
    Some(n)
}

/// Reads a duration like `250ms`, `30s`, `5m` or `1h` into nanoseconds.
pub fn parse_duration(s: &str) -> (r: Result<u64, OutputError>)
    ensures
        match r {
            Ok(nanos) => duration_nanos(s@) == Some(nanos),
            Err(e) => duration_nanos(s@) is None && e@ == "invalid duration '"@ + s@ + "'"@,
        },
{
    let v = chars_of(s);
    let mut run: usize = 0;
    while run < v.len() && '0' <= v[run] && v[run] <= '9'
        invariant
            run <= v@.len(),
            forall|i: int| 0 <= i < run ==> is_digit(#[trigger] v@[i]),
        decreases v@.len() - run,
    {
        run = run + 1;
    }
    proof {
        lemma_digit_run(s@, run as int);
        assert(s@.take(run as int) =~= v@.subrange(0, run as int));
        assert(s@.skip(run as int) =~= v@.subrange(run as int, v@.len() as int));
    }
    let unit = crate::text::text_of(&v, run, v.len());
    let scale: Option<u64> = if text_eq(unit.as_str(), "ms") {
        Some(1_000_000)
    } else if text_eq(unit.as_str(), "s") {
        Some(1_000_000_000)
    } else if text_eq(unit.as_str(), "m") {
        Some(60_000_000_000)
    } else if text_eq(unit.as_str(), "h") {
        Some(3_600_000_000_000)
    } else {
        None
    };
    if run > 0 {
        let count = parse_digits(&v, 0, run);
        match (count, scale) {
            (Some(n), Some(unit_value)) => {
                if let Some(total) = n.checked_mul(unit_value) {
                    return Ok(total);
                }
            },
            (None, Some(unit_value)) => {
                proof {
                    let digits = s@.take(run as int);
                    if digits_value(digits) is Some {
                        let n = digits_value(digits)->0;
                        assert(n * unit_value >= n) by (nonlinear_arith)
                            requires
                                n >= 0,
                                unit_value >= 1,
                        ;
                    }
                }
            },
            _ => {},
        }
    }
    Err(OutputError { message: cat3("invalid duration '", s, "'") })
}

} // verus!
