//! Paths of the `file` output: rendering a template into a path, and the passes
//! that keep a rendered path where the template's author put it.
use crate::error::{cat3, list_views, outcome, OutputError};
use crate::props::{
    expr_view, fragment_view, fragment_views, lemma_fragment_views, Expr, ExprView, FragmentView,
    TemplateFragment,
};
use crate::text::{chars_of, text_eq, texts};
use vstd::prelude::*;

verus! {

/// How the standard library's `Debug` shows a text: in double quotes, with the
/// characters escaped that it escapes.
pub uninterp spec fn debug_quoted(s: Seq<char>) -> Seq<char>;

/// Formats a text with `{:?}`, the `Debug` of `str`. The contract claims only that
/// what it shows depends on the text alone; the escapes are left to `std`.
#[verifier::external_body]
pub(crate) fn quoted(s: &str) -> (r: String)
    ensures
        r@ == debug_quoted(s@),
{
    format!("{:?}", s)
}

/// Whether a character separates the components of a path, on Unix or on Windows.
pub open spec fn is_separator(c: char) -> bool {
    c == '/' || c == '\\'
}

/// A character as it may stand inside one path component.
pub open spec fn component_char(c: char) -> char {
    if is_separator(c) {
        '_'
    } else {
        c
    }
}

/// A value made fit to be one path component.
pub open spec fn sanitized(s: Seq<char>) -> Seq<char> {
    s.map_values(|c: char| component_char(c))
}

/// Replaces `/` and `\` by `_`, so that a value cannot become several path
/// components. Dots are left alone: file names like `web01.example.com` need them.
pub fn sanitize_path_component(s: &str) -> (r: String)
    ensures
        r@ == sanitized(s@),
{
    let v = chars_of(s);
    let mut out = String::new();
    let mut i: usize = 0;
    while i < v.len()
        invariant
            i <= v@.len(),
            v@ == s@,
            out@ == sanitized(s@.take(i as int)),
        decreases v@.len() - i,
    {
        let c = v[i];
        if c == '/' || c == '\\' {
            out.push('_');
        } else {
            out.push(c);
        }
        i = i + 1;
        assert(out@ =~= sanitized(s@.take(i as int)));
    }
    assert(s@.take(s@.len() as int) =~= s@);
    out
}

/// The pieces of a text between slashes.
pub open spec fn segments(s: Seq<char>) -> Seq<Seq<char>>
    decreases s.len(),
{
    if s.len() == 0 {
        seq![Seq::empty()]
    } else {
        let before = segments(s.drop_last());
        if s.last() == '/' {
            before.push(Seq::empty())
        } else {
            before.drop_last().push(before.last().push(s.last()))
        }
    }
}

/// Splits a text at its slashes.
pub fn split_segments(s: &str) -> (r: Vec<String>)
    ensures
        texts(r@) == segments(s@),
        r@.len() > 0,
{
    let v = chars_of(s);
    let mut out: Vec<String> = Vec::new();
    let mut current = String::new();
    let mut i: usize = 0;
    assert(texts(out@).push(current@) =~= segments(s@.take(0)));
    while i < v.len()
        invariant
            i <= v@.len(),
            v@ == s@,
            texts(out@).push(current@) == segments(s@.take(i as int)),
        decreases v@.len() - i,
    {
        let c = v[i];
        let ghost before = segments(s@.take(i as int));
        assert(s@.take(i + 1).drop_last() =~= s@.take(i as int));
        assert(s@.take(i + 1).last() == c);
        assert(before.drop_last() =~= texts(out@));
        assert(before.last() == current@);
        if c == '/' {
            let ghost earlier = out@;
            let ghost done = current@;
            out.push(current);
            current = String::new();
            assert(texts(out@) =~= texts(earlier).push(done));
        } else {
            current.push(c);
        }
        i = i + 1;
    }
    assert(s@.take(s@.len() as int) =~= s@);
    let ghost earlier = out@;
    let ghost done = current@;
    out.push(current);
    assert(texts(out@) =~= texts(earlier).push(done));
    out
}

/// Whether a path has a component `..`.
pub open spec fn climbs(s: Seq<char>) -> bool {
    segments(s).contains(".."@)
}

/// Whether a path has a component `..`.
pub fn has_parent_component(s: &str) -> (r: bool)
    ensures
        r == climbs(s@),
{
    let parts = split_segments(s);
    let mut i: usize = 0;
    while i < parts.len()
        invariant
            i <= parts@.len(),
            texts(parts@) == segments(s@),
            forall|j: int| 0 <= j < i ==> #[trigger] texts(parts@)[j] != ".."@,
        decreases parts@.len() - i,
    {
        assert(texts(parts@)[i as int] == parts@[i as int]@);
        if text_eq(parts[i].as_str(), "..") {
            return true;
        }
        i = i + 1;
    }
    false
}

/// The message about a rendered path with a component `..`.
pub open spec fn traversal_text(s: Seq<char>) -> Seq<char> {
    "output file: rendered path contains a `..` traversal component: "@ + debug_quoted(s)
        + ". `..` is rejected rather than silently rewritten — sanitise upstream (regex_replace, a process body) or pin the value before interpolation."@
}

/// Refuses a path with a component `..`. Other components that begin with dots
/// are fine.
pub fn check_no_traversal(s: &str) -> (r: Result<(), OutputError>)
    ensures
        r is Ok <==> !climbs(s@),
        r matches Err(e) ==> e@ == traversal_text(s@),
{
    if has_parent_component(s) {
        let shown = quoted(s);
        Err(
            OutputError {
                message: cat3(
                    "output file: rendered path contains a `..` traversal component: ",
                    shown.as_str(),
                    ". `..` is rejected rather than silently rewritten — sanitise upstream (regex_replace, a process body) or pin the value before interpolation.",
                ),
            },
        )
    } else {
        Ok(())
    }
}

/// A piece of a path template after evaluation.
#[derive(Debug)]
pub enum PathPart {
    /// Literal text of the template.
    Literal(String),
    /// The text that an interpolation evaluated to.
    Value(String),
    /// An interpolation that could not be evaluated, with the reason.
    Failed(String),
}

/// A [`PathPart`], its text as a sequence of characters.
pub ghost enum PathPartView {
    Literal(Seq<char>),
    Value(Seq<char>),
    Failed(Seq<char>),
}

impl View for PathPart {
    type V = PathPartView;

    open spec fn view(&self) -> PathPartView {
        match self {
            PathPart::Literal(s) => PathPartView::Literal(s@),
            PathPart::Value(s) => PathPartView::Value(s@),
            PathPart::Failed(e) => PathPartView::Failed(e@),
        }
    }
}

/// What an interpolation evaluated to: a text, or the reason why there is none.
pub open spec fn evaluated(value: Result<String, String>) -> PathPartView {
    match value {
        Ok(s) => PathPartView::Value(s@),
        Err(e) => PathPartView::Failed(e@),
    }
}

/// What each interpolation evaluated to.
pub open spec fn all_evaluated(values: Seq<Result<String, String>>) -> Seq<PathPartView> {
    values.map_values(|v: Result<String, String>| evaluated(v))
}

/// The interpolations of a template, in order.
pub open spec fn interpolations(fragments: Seq<FragmentView>) -> Seq<ExprView>
    decreases fragments.len(),
{
    if fragments.len() == 0 {
        Seq::empty()
    } else {
        let before = interpolations(fragments.drop_last());
        match fragments.last() {
            FragmentView::Literal(_) => before,
            FragmentView::Interp(e) => before.push(e),
        }
    }
}

/// The parts of a template in its order: literals as they are, and in place of each
/// interpolation what it evaluated to.
pub open spec fn template_view(fragments: Seq<FragmentView>, values: Seq<PathPartView>) -> Seq<
    PathPartView,
>
    decreases fragments.len(),
{
    if fragments.len() == 0 {
        Seq::empty()
    } else {
        let before = fragments.drop_last();
        template_view(before, values).push(
            match fragments.last() {
                FragmentView::Literal(s) => PathPartView::Literal(s),
                FragmentView::Interp(_) => values[interpolations(before).len() as int],
            },
        )
    }
}

proof fn lemma_interpolations_grow(fragments: Seq<FragmentView>, k: int)
    requires
        0 <= k <= fragments.len(),
    ensures
        interpolations(fragments.take(k)).len() <= interpolations(fragments).len(),
    decreases fragments.len(),
{
    if k == fragments.len() {
        assert(fragments.take(k) =~= fragments);
    } else {
        lemma_interpolations_grow(fragments.drop_last(), k);
        assert(fragments.drop_last().take(k) =~= fragments.take(k));
    }
}

/// Puts what the interpolations of a template evaluated to in their places.
pub fn template_parts(fragments: &Vec<TemplateFragment>, values: &[Result<String, String>]) -> (parts:
    Vec<PathPart>)
    requires
        values@.len() == interpolations(fragment_views(fragments@)).len(),
    ensures
        list_views(parts@) == template_view(
            fragment_views(fragments@),
            all_evaluated(values@),
        ),
{
    let ghost views = fragment_views(fragments@);
    let ghost given = all_evaluated(values@);
    proof {
        lemma_fragment_views(fragments@);
    }
    let mut parts: Vec<PathPart> = Vec::new();
    let count: usize = values.len();
    let mut used: usize = 0;
    assert(list_views(parts@) =~= template_view(views.take(0), given));
    for i in 0..fragments.len()
        invariant
            views == fragment_views(fragments@),
            given == all_evaluated(values@),
            views.len() == fragments@.len(),
            forall|j: int|
                0 <= j < views.len() ==> #[trigger] views[j] == fragment_view(fragments@[j]),
            count == values@.len(),
            count == interpolations(views).len(),
            used == interpolations(views.take(i as int)).len(),
            used <= count,
            list_views(parts@) == template_view(views.take(i as int), given),
    {
        let ghost before = parts@;
        assert(views.take(i + 1).drop_last() =~= views.take(i as int));
        assert(views.take(i + 1).last() == views[i as int]);
        proof {
            lemma_interpolations_grow(views, i + 1);
        }
        let part = match &fragments[i] {
            TemplateFragment::Literal(s) => PathPart::Literal(s.clone()),
            TemplateFragment::Interp(_) => {
                used = used + 1;
                match &values[used - 1] {
                    Ok(s) => PathPart::Value(s.clone()),
                    Err(e) => PathPart::Failed(e.clone()),
                }
            },
        };
        assert(list_views(before.push(part)) =~= list_views(before).push(part@));
        parts.push(part);
    }
    assert(views.take(fragments@.len() as int) =~= views);
    parts
}

/// The interpolations of a template, in order.
pub fn template_interpolations<'a>(fragments: &'a Vec<TemplateFragment>) -> (list: Vec<&'a Expr>)
    ensures
        list@.map_values(|e: &Expr| e@) == interpolations(fragment_views(fragments@)),
{
    let ghost views = fragment_views(fragments@);
    proof {
        lemma_fragment_views(fragments@);
    }
    let mut list: Vec<&'a Expr> = Vec::new();
    assert(list@.map_values(|e: &Expr| e@) =~= interpolations(views.take(0)));
    for i in 0..fragments.len()
        invariant
            views == fragment_views(fragments@),
            views.len() == fragments@.len(),
            forall|j: int|
                0 <= j < views.len() ==> #[trigger] views[j] == fragment_view(fragments@[j]),
            list@.map_values(|e: &Expr| e@) == interpolations(views.take(i as int)),
    {
        let ghost before = list@;
        assert(views.take(i + 1).drop_last() =~= views.take(i as int));
        assert(views.take(i + 1).last() == views[i as int]);
        if let TemplateFragment::Interp(e) = &fragments[i] {
            list.push(&**e);
            assert(list@.map_values(|e: &Expr| e@) =~= before.map_values(|e: &Expr| e@).push(
                expr_view(**e),
            ));
        }
    }
    assert(views.take(fragments@.len() as int) =~= views);
    list
}

/// The message about an interpolation that evaluated to nothing.
pub open spec fn empty_value_text() -> Seq<char> {
    "output file: interpolation evaluated to empty string (would create surprise path like `/foo//bar` or `/foo/.log`)"@
}

/// The path that the parts make up: literals as they are, values sanitised. The
/// first part that is empty or could not be evaluated is an error.
pub open spec fn assembled(parts: Seq<PathPartView>) -> Result<Seq<char>, Seq<char>>
    decreases parts.len(),
{
    if parts.len() == 0 {
        Ok(Seq::empty())
    } else {
        match assembled(parts.drop_last()) {
            Err(e) => Err(e),
            Ok(before) => match parts.last() {
                PathPartView::Literal(s) => Ok(before + s),
                PathPartView::Value(s) => if s.len() == 0 {
                    Err(empty_value_text())
                } else {
                    Ok(before + sanitized(s))
                },
                PathPartView::Failed(e) => Err(e),
            },
        }
    }
}

/// What a template is rendered as.
pub open spec fn rendered(parts: Seq<PathPartView>) -> Result<Seq<char>, Seq<char>> {
    match assembled(parts) {
        Err(e) => Err(e),
        Ok(path) => if climbs(path) {
            Err(traversal_text(path))
        } else if path.len() == 0 {
            Err("output file: rendered path is empty (template produced no content)"@)
        } else if path.last() == '/' {
            Err(
                "output file: rendered path ends with `/` (no filename component): "@
                    + debug_quoted(path),
            )
        } else {
            Ok(path)
        },
    }
}

proof fn lemma_assembled_error(parts: Seq<PathPartView>, k: int)
    requires
        0 <= k <= parts.len(),
        assembled(parts.take(k)) is Err,
    ensures
        assembled(parts) == assembled(parts.take(k)),
    decreases parts.len(),
{
    if k == parts.len() {
        assert(parts.take(k) =~= parts);
    } else {
        assert(parts.drop_last().take(k) =~= parts.take(k));
        lemma_assembled_error(parts.drop_last(), k);
    }
}

/// Renders a template whose interpolations have been evaluated.
pub fn render_path(parts: &[PathPart]) -> (r: Result<String, OutputError>)
    ensures
        outcome(r) == rendered(list_views(parts@)),
{
    let ghost views = list_views(parts@);
    let mut out = String::new();
    let mut i: usize = 0;
    while i < parts.len()
        invariant
            i <= parts@.len(),
            views == list_views(parts@),
            assembled(views.take(i as int)) == Ok::<Seq<char>, Seq<char>>(out@),
        decreases parts@.len() - i,
    {
        assert(views.take(i + 1).drop_last() =~= views.take(i as int));
        assert(views.take(i + 1).last() == parts@[i as int]@);
        match &parts[i] {
            PathPart::Literal(s) => {
                out.append(s.as_str());
            },
            PathPart::Value(s) => {
                if s.as_str().is_empty() {
                    proof {
                        lemma_assembled_error(views, i + 1);
                    }
                    return Err(
                        OutputError::new(
                            "output file: interpolation evaluated to empty string (would create surprise path like `/foo//bar` or `/foo/.log`)",
                        ),
                    );
                }
                let clean = sanitize_path_component(s.as_str());
                out.append(clean.as_str());
            },
            PathPart::Failed(e) => {
                proof {
                    lemma_assembled_error(views, i + 1);
                }
                return Err(OutputError::new(e.as_str()));
            },
        }
        i = i + 1;
    }
    assert(views.take(parts@.len() as int) =~= views);
    match check_no_traversal(out.as_str()) {
        Ok(()) => {},
        Err(e) => {
            return Err(e);
        },
    }
    let chars = chars_of(out.as_str());
    if chars.len() == 0 {
        return Err(
            OutputError::new("output file: rendered path is empty (template produced no content)"),
        );
    }
    if chars[chars.len() - 1] == '/' {
        let shown = quoted(out.as_str());
        return Err(
            OutputError {
                message: crate::error::cat2(
                    "output file: rendered path ends with `/` (no filename component): ",
                    shown.as_str(),
                ),
            },
        );
    }
    Ok(out)
}

/// The number of slashes in a text.
pub open spec fn slashes(s: Seq<char>) -> nat
    decreases s.len(),
{
    if s.len() == 0 {
        0
    } else {
        slashes(s.drop_last()) + if s.last() == '/' {
            1nat
        } else {
            0
        }
    }
}

/// The number of slashes in the literal parts of a template.
pub open spec fn literal_slashes(parts: Seq<PathPartView>) -> nat
    decreases parts.len(),
{
    if parts.len() == 0 {
        0
    } else {
        literal_slashes(parts.drop_last()) + match parts.last() {
            PathPartView::Literal(s) => slashes(s),
            _ => 0,
        }
    }
}

proof fn lemma_slashes_add(a: Seq<char>, b: Seq<char>)
    ensures
        slashes(a + b) == slashes(a) + slashes(b),
    decreases b.len(),
{
    if b.len() == 0 {
        assert(a + b =~= a);
    } else {
        assert((a + b).drop_last() =~= a + b.drop_last());
        lemma_slashes_add(a, b.drop_last());
    }
}

proof fn lemma_no_slashes(s: Seq<char>)
    requires
        !s.contains('/'),
    ensures
        slashes(s) == 0,
    decreases s.len(),
{
    if s.len() > 0 {
        assert(s.last() != '/') by {
            assert(s[s.len() - 1] == s.last());
        }
        assert(!s.drop_last().contains('/')) by {
            if s.drop_last().contains('/') {
                let i = choose|i: int| 0 <= i < s.drop_last().len() && s.drop_last()[i] == '/';
                assert(s[i] == '/');
            }
        }
        lemma_no_slashes(s.drop_last());
    }
}

/// A sanitised value holds no separator, keeps its length, and is unchanged where
/// it held none.
pub proof fn law_sanitized_is_one_component(s: Seq<char>)
    ensures
        !sanitized(s).contains('/'),
        !sanitized(s).contains('\\'),
        sanitized(s).len() == s.len(),
        !s.contains('/') && !s.contains('\\') ==> sanitized(s) == s,
        sanitized(sanitized(s)) == sanitized(s),
{
    if !s.contains('/') && !s.contains('\\') {
        assert forall|i: int| 0 <= i < s.len() implies sanitized(s)[i] == s[i] by {
            assert(s.contains(s[i]));
        }
        assert(sanitized(s) =~= s);
    }
    assert(sanitized(sanitized(s)) =~= sanitized(s));
}

/// The directory structure of a rendered path comes from the literal parts of the
/// template alone: no value adds a slash.
pub proof fn law_values_add_no_directories(parts: Seq<PathPartView>)
    requires
        assembled(parts) is Ok,
    ensures
        slashes(assembled(parts)->Ok_0) == literal_slashes(parts),
    decreases parts.len(),
{
    if parts.len() > 0 {
        law_values_add_no_directories(parts.drop_last());
        let before = assembled(parts.drop_last())->Ok_0;
        match parts.last() {
            PathPartView::Literal(s) => {
                lemma_slashes_add(before, s);
            },
            PathPartView::Value(s) => {
                law_sanitized_is_one_component(s);
                lemma_no_slashes(sanitized(s));
                lemma_slashes_add(before, sanitized(s));
            },
            PathPartView::Failed(_) => {},
        }
    }
}

/// A rendered path names a file: it is not empty, does not end in a slash, and has
/// no component `..`.
pub proof fn law_rendered_path_names_a_file(parts: Seq<PathPartView>)
    requires
        rendered(parts) is Ok,
    ensures
        rendered(parts)->Ok_0.len() > 0,
        rendered(parts)->Ok_0.last() != '/',
        !climbs(rendered(parts)->Ok_0),
{
}

} // verus!
