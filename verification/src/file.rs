//! The `file` output: one line per event, appended to a static path or to one
//! rendered for each event.
use crate::delivery::{dead_letter, ActionView, DeliveryAction};
use crate::error::{cat2, cat3, option_view, output_error, output_text, OutputError};
use crate::file_path::{
    all_evaluated, climbs, debug_quoted, has_parent_component, interpolations, quoted, rendered,
    segments, split_segments, template_interpolations, template_parts, template_view, PathPartView,
};
use crate::framing::{frame_with_newline, LINE_FEED};
use crate::metrics::OutputMetrics;
use crate::props::{
    copy_fragments, first_value, fragment_views, get_expr, get_string, string_at, Expr, ExprView,
    FragmentView, Property, TemplateFragment,
};
use crate::retry::{retry_result, RetryConfig};
use crate::text::{
    chars_of, join_texts, joined, signed_decimal, signed_decimal_text, text_eq, texts,
};
use vstd::prelude::*;

pub use crate::file_path::{check_no_traversal, render_path, sanitize_path_component, PathPart};

verus! {

/// The line that a payload is appended as, in one write: its bytes as they are, and
/// the terminator.
pub fn file_line(egress: &[u8]) -> (line: Vec<u8>)
    ensures
        line@ == egress@.push(LINE_FEED),
{
    frame_with_newline(egress)
}

/// The number of leading zeros.
pub open spec fn zero_run(s: Seq<char>) -> nat
    decreases s.len(),
{
    if s.len() == 0 || s[0] != '0' {
        0
    } else {
        1 + zero_run(s.drop_first())
    }
}

/// Whether `c` is an octal digit.
pub open spec fn is_octal(c: char) -> bool {
    '0' <= c <= '7'
}

/// The number written by a run of octal digits.
pub open spec fn octal_value(s: Seq<char>) -> Option<nat>
    decreases s.len(),
{
    if s.len() == 0 {
        Some(0)
    } else {
        match octal_value(s.drop_last()) {
            None => None,
            Some(n) => if is_octal(s.last()) {
                Some((n * 8 + (s.last() as u32 - 48)) as nat)
            } else {
                None
            },
        }
    }
}

/// The octal digits of a mode: leading zeros off, then a plus sign off.
pub open spec fn mode_digits(s: Seq<char>) -> Seq<char> {
    let t = s.skip(zero_run(s) as int);
    if t.len() > 1 && t[0] == '+' {
        t.skip(1)
    } else {
        t
    }
}

/// The permission bits that a mode setting stands for; none where it is empty, not
/// octal, or does not fit in 32 bits.
pub open spec fn mode_value(s: Seq<char>) -> Option<u32> {
    let digits = mode_digits(s);
    match octal_value(digits) {
        Some(n) => if s.len() > 0 && n <= u32::MAX {
            Some(n as u32)
        } else {
            None
        },
        None => None,
    }
}

proof fn lemma_zero_run(s: Seq<char>, k: int)
    requires
        0 <= k <= s.len(),
        forall|i: int| 0 <= i < k ==> #[trigger] s[i] == '0',
        k == s.len() || s[k] != '0',
    ensures
        zero_run(s) == k,
    decreases s.len(),
{
    if k > 0 {
        let rest = s.drop_first();
        assert forall|i: int| 0 <= i < k - 1 implies #[trigger] rest[i] == '0' by {
            assert(rest[i] == s[i + 1]);
        }
        lemma_zero_run(rest, k - 1);
    }
}

proof fn lemma_octal_grows(s: Seq<char>, k: int)
    requires
        0 <= k <= s.len(),
        octal_value(s) is Some,
    ensures
        octal_value(s.take(k)) is Some,
        octal_value(s.take(k))->0 <= octal_value(s)->0,
    decreases s.len(),
{
    if k == s.len() {
        assert(s.take(k) =~= s);
    } else {
        lemma_octal_grows(s.drop_last(), k);
        assert(s.drop_last().take(k) =~= s.take(k));
    }
}

proof fn lemma_octal_digits(s: Seq<char>, i: int)
    requires
        octal_value(s) is Some,
        0 <= i < s.len(),
    ensures
        is_octal(s[i]),
    decreases s.len(),
{
    if i < s.len() - 1 {
        lemma_octal_digits(s.drop_last(), i);
    }
}

proof fn lemma_leading_zeros(s: Seq<char>, k: int)
    requires
        0 <= k <= s.len(),
        forall|i: int| 0 <= i < k ==> #[trigger] s[i] == '0',
    ensures
        octal_value(s) == octal_value(s.skip(k)),
    decreases s.len(),
{
    if s.len() == 0 {
        assert(s.skip(k) =~= s);
    } else {
        let shorter = s.drop_last();
        assert forall|i: int| 0 <= i < shorter.len() && i < k implies #[trigger] shorter[i]
            == '0' by {
            assert(shorter[i] == s[i]);
        }
        if k == s.len() {
            lemma_leading_zeros(shorter, k - 1);
            assert(shorter.skip(k - 1) =~= Seq::empty());
            assert(s.skip(k) =~= Seq::empty());
            assert(s[k - 1] == '0');
        } else {
            lemma_leading_zeros(shorter, k);
            assert(s.skip(k).drop_last() =~= shorter.skip(k));
        }
    }
}

proof fn lemma_zero_run_is_zeros(s: Seq<char>)
    ensures
        zero_run(s) <= s.len(),
        forall|i: int| 0 <= i < zero_run(s) ==> #[trigger] s[i] == '0',
    decreases s.len(),
{
    if s.len() > 0 && s[0] == '0' {
        let rest = s.drop_first();
        lemma_zero_run_is_zeros(rest);
        assert forall|i: int| 0 <= i < zero_run(s) implies #[trigger] s[i] == '0' by {
            if i > 0 {
                assert(rest[i - 1] == s[i]);
            }
        }
    }
}

/// A run of octal digits stands for the number that it writes, zeros in front or
/// zeros alone included; a text with any other digit stands for nothing.
pub proof fn law_mode_is_octal(s: Seq<char>)
    requires
        s.len() > 0,
        forall|i: int| 0 <= i < s.len() ==> '0' <= #[trigger] s[i] <= '9',
    ensures
        octal_value(s) is Some <==> forall|i: int| 0 <= i < s.len() ==> is_octal(#[trigger] s[i]),
        mode_value(s) == match octal_value(s) {
            Some(n) => if n <= u32::MAX {
                Some(n as u32)
            } else {
                None
            },
            None => None,
        },
{
    lemma_zero_run_is_zeros(s);
    let k = zero_run(s) as int;
    lemma_leading_zeros(s, k);
    if k < s.len() {
        assert(s.skip(k)[0] == s[k]);
    }
    if octal_value(s) is Some {
        assert forall|i: int| 0 <= i < s.len() implies is_octal(#[trigger] s[i]) by {
            lemma_octal_digits(s, i);
        }
    } else if forall|i: int| 0 <= i < s.len() ==> is_octal(#[trigger] s[i]) {
        lemma_all_octal(s);
    }
}

proof fn lemma_all_octal(s: Seq<char>)
    requires
        forall|i: int| 0 <= i < s.len() ==> is_octal(#[trigger] s[i]),
    ensures
        octal_value(s) is Some,
    decreases s.len(),
{
    if s.len() > 0 {
        let shorter = s.drop_last();
        assert forall|i: int| 0 <= i < shorter.len() implies is_octal(#[trigger] shorter[i]) by {
            assert(shorter[i] == s[i]);
        }
        lemma_all_octal(shorter);
        assert(s.last() == s[s.len() - 1]);
    }
}

/// Reads a mode setting such as `0640`.
pub fn parse_mode(s: &str) -> (r: Option<u32>)
    ensures
        r == mode_value(s@),
{
    let v = chars_of(s);
    let mut start: usize = 0;
    while start < v.len() && v[start] == '0'
        invariant
            start <= v@.len(),
            forall|i: int| 0 <= i < start ==> #[trigger] v@[i] == '0',
        decreases v@.len() - start,
    {
        start = start + 1;
    }
    proof {
        lemma_zero_run(s@, start as int);
    }
    let ghost t = s@.skip(start as int);
    if v.len() - start > 1 && v[start] == '+' {
        start = start + 1;
        assert(t.skip(1) =~= s@.skip(start as int));
    }
    let ghost digits = s@.skip(start as int);
    assert(digits == mode_digits(s@));
    if v.len() == 0 {
        return None;
    }
    let mut n: u64 = 0;
    let mut i: usize = start;
    assert(digits.take(0) =~= Seq::empty());
    while i < v.len()
        invariant
            start <= i <= v@.len(),
            v@ == s@,
            digits == s@.skip(start as int),
            digits == mode_digits(s@),
            octal_value(digits.take(i - start)) == Some(n as nat),
            n <= 0xffff_ffff,
        decreases v@.len() - i,
    {
        let c = v[i];
        assert(digits.take(i + 1 - start).drop_last() =~= digits.take(i - start));
        assert(digits.take(i + 1 - start).last() == c);
        if !('0' <= c && c <= '7') {
            proof {
                if octal_value(digits) is Some {
                    lemma_octal_grows(digits, i + 1 - start);
                }
            }
            return None;
        }
        n = n * 8 + (c as u32 - 48) as u64;
        if n > 0xffff_ffff {
            proof {
                if octal_value(digits) is Some {
                    lemma_octal_grows(digits, i + 1 - start);
                }
            }
            return None;
        }
        i = i + 1;
    }
    assert(digits.take(v@.len() - start) =~= digits);
    Some(n as u32)
}

/// The path of the output as configured.
#[derive(Debug)]
pub enum PathSetting {
    /// The same file for every event.
    Static(String),
    /// A template that is rendered for each event.
    Template(Vec<TemplateFragment>),
}

/// A [`PathSetting`], its texts as sequences of characters.
pub ghost enum PathSettingView {
    Static(Seq<char>),
    Template(Seq<FragmentView>),
}

impl View for PathSetting {
    type V = PathSettingView;

    open spec fn view(&self) -> PathSettingView {
        match self {
            PathSetting::Static(s) => PathSettingView::Static(s@),
            PathSetting::Template(fragments) => PathSettingView::Template(
                fragment_views(fragments@),
            ),
        }
    }
}

impl PathSettingView {
    /// The expressions whose values the path of an event takes, in order.
    pub open spec fn wanted(self) -> Seq<ExprView> {
        match self {
            PathSettingView::Static(_) => Seq::empty(),
            PathSettingView::Template(fragments) => interpolations(fragments),
        }
    }

    /// The path of an event for which these expressions have these values, and
    /// whether it was rendered.
    pub open spec fn resolved(self, values: Seq<PathPartView>) -> Result<
        (Seq<char>, bool),
        Seq<char>,
    > {
        match self {
            PathSettingView::Static(path) => Ok((path, false)),
            PathSettingView::Template(fragments) => match rendered(
                template_view(fragments, values),
            ) {
                Ok(path) => Ok((path, true)),
                Err(e) => Err(e),
            },
        }
    }
}

/// How a value that is no path is shown in the error about it.
pub open spec fn shape_text(value: Expr) -> Seq<char> {
    match value {
        Expr::IntLit(i) => "IntLit("@ + signed_decimal(i as int) + ")"@,
        Expr::Ident(parts) => "Ident(["@ + joined(
            parts@.map_values(|p: String| debug_quoted(p@)),
            ", "@,
        ) + "])"@,
        _ => "Other"@,
    }
}

fn show_shape(value: &Expr) -> (s: String)
    ensures
        s@ == shape_text(*value),
{
    match value {
        Expr::IntLit(i) => {
            let shown = signed_decimal_text(*i);
            cat3("IntLit(", shown.as_str(), ")")
        },
        Expr::Ident(parts) => {
            let mut all: Vec<String> = Vec::new();
            let mut i: usize = 0;
            while i < parts.len()
                invariant
                    i <= parts@.len(),
                    texts(all@) == parts@.take(i as int).map_values(|p: String| debug_quoted(p@)),
                decreases parts@.len() - i,
            {
                let ghost before = all@;
                let shown = quoted(parts[i].as_str());
                all.push(shown);
                assert(texts(all@) =~= texts(before).push(debug_quoted(parts@[i as int]@)));
                assert(parts@.take(i + 1).map_values(|p: String| debug_quoted(p@))
                    =~= parts@.take(i as int).map_values(|p: String| debug_quoted(p@)).push(
                    debug_quoted(parts@[i as int]@),
                ));
                i = i + 1;
            }
            assert(parts@.take(parts@.len() as int) =~= parts@);
            let list = join_texts(&all, ", ");
            cat3("Ident([", list.as_str(), "])")
        },
        _ => "Other".to_owned(),
    }
}

/// What a whole configuration says.
pub ghost struct FileConfigView {
    pub path: PathSettingView,
    pub mode: Option<u32>,
    pub owner: Option<Seq<char>>,
    pub group: Option<Seq<char>>,
    pub retry: RetryConfig,
}

/// What a configuration is read as.
pub open spec fn config_result(
    name: Seq<char>,
    props: Seq<Property>,
    retry_defaults: RetryConfig,
) -> Result<FileConfigView, Seq<char>> {
    match retry_result(props, retry_defaults) {
        Err(e) => Err(e),
        Ok(retry) => match first_value(props, "path"@) {
            None => Err(output_text(name, "file requires 'path'"@)),
            Some(value) => {
                let path: Option<PathSettingView> = match value {
                    Expr::StringLit(s) => Some(PathSettingView::Static(s@)),
                    Expr::Template(fragments) => Some(
                        PathSettingView::Template(fragment_views(fragments@)),
                    ),
                    _ => None,
                };
                match path {
                    None => Err(
                        output_text(
                            name,
                            "file 'path' must be a string, got "@ + shape_text(value),
                        ),
                    ),
                    Some(path) => {
                        let owner = string_at(props, "owner"@);
                        let group = string_at(props, "group"@);
                        match string_at(props, "mode"@) {
                            None => Ok(FileConfigView { path, mode: None, owner, group, retry }),
                            Some(text) => match mode_value(text) {
                                Some(mode) => Ok(
                                    FileConfigView { path, mode: Some(mode), owner, group, retry },
                                ),
                                None => Err(
                                    output_text(
                                        name,
                                        "invalid mode (expected octal, e.g. \"0640\")"@,
                                    ),
                                ),
                            },
                        }
                    },
                }
            },
        },
    }
}

/// What is to be done to a file that the output has made: permission bits to set,
/// user and group to set, `u32::MAX` standing for one that stays as it is.
#[derive(Debug, Clone, Copy, PartialEq, Eq)]
pub struct MetadataSteps {
    pub chmod: Option<u32>,
    pub chown: Option<(u32, u32)>,
}

/// A configured output with its record of the files it has touched.
#[derive(Debug)]
pub struct FileOutput {
    pub name: String,
    pub path: PathSetting,
    pub mode: Option<u32>,
    pub owner: Option<String>,
    pub group: Option<String>,
    pub retry: RetryConfig,
    pub ledger: MetadataLedger,
    pub metrics: OutputMetrics,
}

impl FileOutput {
    pub open spec fn config(&self) -> FileConfigView {
        FileConfigView {
            path: self.path@,
            mode: self.mode,
            owner: option_view(self.owner),
            group: option_view(self.group),
            retry: self.retry,
        }
    }

    /// Reads the configuration of the output.
    pub fn from_properties(
        name: &str,
        properties: &[Property],
        retry_defaults: RetryConfig,
    ) -> (r: Result<FileOutput, OutputError>)
        ensures
            match r {
                Ok(output) => {
                    &&& config_result(name@, properties@, retry_defaults) == Ok::<
                        FileConfigView,
                        Seq<char>,
                    >(output.config())
                    &&& output.name@ == name@
                    &&& output.ledger@ == LedgerView::empty()
                    &&& output.metrics == OutputMetrics::zero()
                },
                Err(e) => config_result(name@, properties@, retry_defaults) == Err::<
                    FileConfigView,
                    Seq<char>,
                >(e@),
            },
    {
        let retry = match RetryConfig::from_output_properties(properties, retry_defaults) {
            Ok(retry) => retry,
            Err(e) => {
                return Err(e);
            },
        };
        let value = match get_expr(properties, "path") {
            Some(value) => value,
            None => {
                return Err(output_error(name, "file requires 'path'"));
            },
        };
        let path = match value {
            Expr::StringLit(s) => PathSetting::Static(s.clone()),
            Expr::Template(fragments) => PathSetting::Template(copy_fragments(fragments)),
            other => {
                let shown = show_shape(other);
                let rest = cat2("file 'path' must be a string, got ", shown.as_str());
                return Err(output_error(name, rest.as_str()));
            },
        };
        let mode: Option<u32> = match get_string(properties, "mode") {
            None => None,
            Some(text) => match parse_mode(text.as_str()) {
                Some(mode) => Some(mode),
                None => {
                    return Err(
                        output_error(name, "invalid mode (expected octal, e.g. \"0640\")"),
                    );
                },
            },
        };
        Ok(
            FileOutput {
                name: name.to_owned(),
                path,
                mode,
                owner: get_string(properties, "owner"),
                group: get_string(properties, "group"),
                retry,
                ledger: MetadataLedger::new(),
                metrics: OutputMetrics::new(),
            },
        )
    }

    /// The expressions that are to be evaluated for the path of an event, in order.
    pub fn wanted_values(&self) -> (list: Vec<&Expr>)
        ensures
            list@.map_values(|e: &Expr| e@) == self.path@.wanted(),
    {
        match &self.path {
            PathSetting::Static(_) => {
                let list: Vec<&Expr> = Vec::new();
                assert(list@.map_values(|e: &Expr| e@) =~= Seq::empty());
                list
            },
            PathSetting::Template(fragments) => template_interpolations(fragments),
        }
    }

    /// The path of an event, given what the wanted expressions evaluate to for it,
    /// and whether it was rendered from a template.
    pub fn resolve_path(&self, values: &[Result<String, String>]) -> (r: Result<
        (String, bool),
        OutputError,
    >)
        requires
            values@.len() == self.path@.wanted().len(),
        ensures
            match r {
                Ok((path, dynamic)) => self.path@.resolved(all_evaluated(values@)) == Ok::<
                    (Seq<char>, bool),
                    Seq<char>,
                >((path@, dynamic)),
                Err(e) => self.path@.resolved(all_evaluated(values@)) == Err::<
                    (Seq<char>, bool),
                    Seq<char>,
                >(e@),
            },
    {
        match &self.path {
            PathSetting::Static(path) => Ok((path.clone(), false)),
            PathSetting::Template(fragments) => {
                let parts = template_parts(fragments, values);
                match render_path(parts.as_slice()) {
                    Ok(path) => Ok((path, true)),
                    Err(e) => Err(e),
                }
            },
        }
    }

    /// Whether anything is configured to be set on a new file.
    pub fn wants_metadata(&self) -> (r: bool)
        ensures
            r == (self.mode is Some || self.owner is Some || self.group is Some),
    {
        self.mode.is_some() || self.owner.is_some() || self.group.is_some()
    }

    /// What is to be set on a new file, given the ids that the configured owner and
    /// group were found to have; `None` for one that is not configured or was not
    /// found.
    pub fn metadata_steps(&self, uid: Option<u32>, gid: Option<u32>) -> (steps: MetadataSteps)
        ensures
            steps.chmod == self.mode,
            steps.chown == if (self.owner is Some || self.group is Some) && (uid is Some
                || gid is Some) {
                Some(
                    (
                        match uid {
                            Some(id) => id,
                            None => u32::MAX,
                        },
                        match gid {
                            Some(id) => id,
                            None => u32::MAX,
                        },
                    ),
                )
            } else {
                None
            },
    {
        let configured = self.owner.is_some() || self.group.is_some();
        let chown: Option<(u32, u32)> = if configured && (uid.is_some() || gid.is_some()) {
            Some((uid.unwrap_or(u32::MAX), gid.unwrap_or(u32::MAX)))
        } else {
            None
        };
        MetadataSteps { chmod: self.mode, chown }
    }
}

/// Settles an event whose path could not be rendered: it is never tried.
pub fn render_failed(error: &str, metrics: &mut OutputMetrics) -> (action: DeliveryAction)
    ensures
        action@ == (ActionView::DeadLetter { reason: "render failed: "@ + error@ }),
        *final(metrics) == old(metrics).failed(1),
{
    dead_letter(cat2("render failed: ", error), metrics)
}

/// Refuses a resolved path with a component `..`, whether it was rendered or
/// configured.
pub fn check_resolved(path: &str) -> (r: Result<(), OutputError>)
    ensures
        r is Ok <==> !climbs(path@),
        r matches Err(e) ==> e@ == "path traversal rejected: "@ + path@,
{
    if has_parent_component(path) {
        Err(OutputError { message: cat2("path traversal rejected: ", path) })
    } else {
        Ok(())
    }
}

/// The error for a file that could not be opened. A symbolic link at the path is
/// named as such.
pub fn open_error(path: &str, is_symlink: bool, error: &str) -> (e: OutputError)
    ensures
        e@ == if is_symlink {
            "refusing to follow symlink at output path: "@ + path@
        } else {
            error@
        },
{
    if is_symlink {
        OutputError { message: cat2("refusing to follow symlink at output path: ", path) }
    } else {
        OutputError::new(error)
    }
}

/// A path as the operating system takes it: whether it starts at the root, whether
/// it starts with `.`, and its other components.
#[derive(Debug)]
pub struct PathKey {
    rooted: bool,
    dotted: bool,
    parts: Vec<String>,
}

/// What a [`PathKey`] says.
pub ghost struct PathKeyView {
    pub rooted: bool,
    pub dotted: bool,
    pub parts: Seq<Seq<char>>,
}

impl View for PathKey {
    type V = PathKeyView;

    closed spec fn view(&self) -> PathKeyView {
        PathKeyView { rooted: self.rooted, dotted: self.dotted, parts: texts(self.parts@) }
    }
}

/// The components that count: neither empty nor `.`.
pub open spec fn proper_parts(parts: Seq<Seq<char>>) -> Seq<Seq<char>>
    decreases parts.len(),
{
    if parts.len() == 0 {
        Seq::empty()
    } else {
        let before = proper_parts(parts.drop_last());
        if parts.last().len() == 0 || parts.last() == "."@ {
            before
        } else {
            before.push(parts.last())
        }
    }
}

/// The path that a text names: doubled and trailing slashes and inner `.` do not
/// count.
pub open spec fn path_key(s: Seq<char>) -> PathKeyView {
    let rooted = s.len() > 0 && s[0] == '/';
    PathKeyView {
        rooted,
        dotted: !rooted && segments(s)[0] == "."@,
        parts: proper_parts(segments(s)),
    }
}

impl PathKey {
    /// The path that a text names.
    pub fn of(path: &str) -> (k: PathKey)
        ensures
            k@ == path_key(path@),
    {
        let chars = chars_of(path);
        let rooted = chars.len() > 0 && chars[0] == '/';
        let pieces = split_segments(path);
        assert(texts(pieces@)[0] == pieces@[0]@);
        let dotted = !rooted && text_eq(pieces[0].as_str(), ".");
        let mut parts: Vec<String> = Vec::new();
        let mut i: usize = 0;
        assert(texts(parts@) =~= proper_parts(segments(path@).take(0)));
        while i < pieces.len()
            invariant
                i <= pieces@.len(),
                texts(pieces@) == segments(path@),
                texts(parts@) == proper_parts(segments(path@).take(i as int)),
            decreases pieces@.len() - i,
        {
            let ghost all = segments(path@);
            assert(all.take(i + 1).drop_last() =~= all.take(i as int));
            assert(all.take(i + 1).last() == pieces@[i as int]@) by {
                assert(texts(pieces@)[i as int] == pieces@[i as int]@);
            }
            let ghost before = parts@;
            if !(pieces[i].as_str().is_empty() || text_eq(pieces[i].as_str(), ".")) {
                parts.push(pieces[i].clone());
                assert(texts(parts@) =~= texts(before).push(pieces@[i as int]@));
            }
            i = i + 1;
        }
        assert(segments(path@).take(pieces@.len() as int) =~= segments(path@));
        PathKey { rooted, dotted, parts }
    }

    /// Whether two keys are the same path.
    pub fn same(&self, other: &PathKey) -> (r: bool)
        ensures
            r == (self@ == other@),
    {
        if self.rooted != other.rooted || self.dotted != other.dotted || self.parts.len()
            != other.parts.len() {
            assert(texts(self.parts@).len() == self.parts@.len());
            assert(texts(other.parts@).len() == other.parts@.len());
            return false;
        }
        let mut i: usize = 0;
        while i < self.parts.len()
            invariant
                i <= self.parts@.len(),
                self.parts@.len() == other.parts@.len(),
                forall|j: int| 0 <= j < i ==> #[trigger] texts(self.parts@)[j] == texts(other.parts@)[j],
            decreases self.parts@.len() - i,
        {
            if !text_eq(self.parts[i].as_str(), other.parts[i].as_str()) {
                assert(texts(self.parts@)[i as int] != texts(other.parts@)[i as int]);
                return false;
            }
            i = i + 1;
        }
        assert(texts(self.parts@) =~= texts(other.parts@));
        true
    }

    fn copy(&self) -> (k: PathKey)
        ensures
            k@ == self@,
    {
        let mut parts: Vec<String> = Vec::new();
        let mut i: usize = 0;
        while i < self.parts.len()
            invariant
                i <= self.parts@.len(),
                texts(parts@) == texts(self.parts@).take(i as int),
            decreases self.parts@.len() - i,
        {
            let ghost before = parts@;
            parts.push(self.parts[i].clone());
            assert(texts(parts@) =~= texts(before).push(self.parts@[i as int]@));
            assert(texts(self.parts@).take(i + 1) =~= texts(self.parts@).take(i as int).push(
                self.parts@[i as int]@,
            ));
            i = i + 1;
        }
        assert(texts(self.parts@).take(self.parts@.len() as int) =~= texts(self.parts@));
        PathKey { rooted: self.rooted, dotted: self.dotted, parts }
    }
}

/// The paths in a list.
pub open spec fn key_views(keys: Seq<PathKey>) -> Seq<PathKeyView> {
    keys.map_values(|k: PathKey| k@)
}

/// A set of paths.
#[derive(Debug)]
pub struct PathSet {
    keys: Vec<PathKey>,
}

impl View for PathSet {
    type V = Set<PathKeyView>;

    closed spec fn view(&self) -> Set<PathKeyView> {
        key_views(self.keys@).to_set()
    }
}

impl PathSet {
    pub fn new() -> (s: PathSet)
        ensures
            s@ == Set::<PathKeyView>::empty(),
    {
        let s = PathSet { keys: Vec::new() };
        assert(key_views(s.keys@).to_set() =~= Set::<PathKeyView>::empty());
        s
    }

    pub fn contains(&self, key: &PathKey) -> (r: bool)
        ensures
            r == self@.contains(key@),
    {
        let mut i: usize = 0;
        while i < self.keys.len()
            invariant
                i <= self.keys@.len(),
                forall|j: int| 0 <= j < i ==> #[trigger] key_views(self.keys@)[j] != key@,
            decreases self.keys@.len() - i,
        {
            assert(key_views(self.keys@)[i as int] == self.keys@[i as int]@);
            if self.keys[i].same(key) {
                return true;
            }
            i = i + 1;
        }
        false
    }

    pub fn insert(&mut self, key: PathKey)
        ensures
            final(self)@ == old(self)@.insert(key@),
    {
        let ghost before = key_views(self.keys@);
        let ghost k = key@;
        self.keys.push(key);
        proof {
            let after = key_views(self.keys@);
            assert(after =~= before.push(k));
            assert forall|x: PathKeyView| after.to_set().contains(x) <==> before.to_set().insert(
                k,
            ).contains(x) by {
                if after.contains(x) {
                    let i = choose|i: int| 0 <= i < after.len() && after[i] == x;
                    if i < before.len() {
                        assert(before[i] == x);
                    }
                }
                if before.contains(x) {
                    let i = choose|i: int| 0 <= i < before.len() && before[i] == x;
                    assert(after[i] == x);
                }
                if x == k {
                    assert(after[before.len() as int] == x);
                }
            }
            assert(after.to_set() =~= before.to_set().insert(k));
        }
    }

    pub fn remove(&mut self, key: &PathKey)
        ensures
            final(self)@ == old(self)@.remove(key@),
    {
        let mut kept: Vec<PathKey> = Vec::new();
        let mut i: usize = 0;
        while i < self.keys.len()
            invariant
                i <= self.keys@.len(),
                forall|x: PathKeyView|
                    key_views(kept@).contains(x) <==> x != key@ && key_views(
                        self.keys@.take(i as int),
                    ).contains(x),
            decreases self.keys@.len() - i,
        {
            let ghost before = kept@;
            let ghost here = self.keys@[i as int]@;
            let same = self.keys[i].same(key);
            if !same {
                kept.push(self.keys[i].copy());
            }
            proof {
                let seen = key_views(self.keys@.take(i as int));
                let next = key_views(self.keys@.take(i + 1));
                assert(next =~= seen.push(here));
                lemma_push_contains(seen, here);
                if !same {
                    assert(key_views(kept@) =~= key_views(before).push(here));
                    lemma_push_contains(key_views(before), here);
                }
            }
            i = i + 1;
        }
        proof {
            assert(self.keys@.take(self.keys@.len() as int) =~= self.keys@);
            assert(key_views(kept@).to_set() =~= key_views(self.keys@).to_set().remove(key@));
        }
        self.keys = kept;
    }
}

proof fn lemma_push_contains(s: Seq<PathKeyView>, k: PathKeyView)
    ensures
        forall|x: PathKeyView| #[trigger] s.push(k).contains(x) <==> s.contains(x) || x == k,
{
    assert forall|x: PathKeyView| #[trigger] s.push(k).contains(x) <==> s.contains(x) || x == k by {
        if s.push(k).contains(x) {
            let i = choose|i: int| 0 <= i < s.push(k).len() && s.push(k)[i] == x;
            if i < s.len() {
                assert(s[i] == x);
            }
        }
        if s.contains(x) {
            let i = choose|i: int| 0 <= i < s.len() && s[i] == x;
            assert(s.push(k)[i] == x);
        }
        if x == k {
            assert(s.push(k)[s.len() as int] == x);
        }
    }
}

/// What is known of a path before it is opened: whether the file was there,
/// whether this output still owes it its metadata, and whether it has set them.
#[derive(Debug, Clone, Copy, PartialEq, Eq, Structural)]
pub struct PathSample {
    pub preexisted: bool,
    pub owes: bool,
    pub applied: bool,
}

impl PathSample {
    /// Whether the write sets the metadata: the file is new or owed, and they have
    /// not been set.
    pub open spec fn should_apply(self) -> bool {
        !self.applied && (self.owes || !self.preexisted)
    }
}

/// The record of an output: the paths whose metadata are set, and the paths that
/// were opened and whose metadata are still owed.
pub ghost struct LedgerView {
    pub applied: Set<PathKeyView>,
    pub owed: Set<PathKeyView>,
}

/// How far one write to a path came.
pub ghost enum WriteStage {
    /// The file could not be opened.
    NotOpened,
    /// The file was opened; writing or setting the metadata did not finish.
    Opened,
    /// The write finished.
    Done,
}

impl LedgerView {
    pub open spec fn empty() -> LedgerView {
        LedgerView { applied: Set::empty(), owed: Set::empty() }
    }

    /// What is known of a path before it is opened.
    pub open spec fn sampled(self, path: PathKeyView, preexisted: bool) -> PathSample {
        PathSample {
            preexisted,
            owes: self.owed.contains(path),
            applied: self.applied.contains(path),
        }
    }

    /// The record once a path is open.
    pub open spec fn opened(self, path: PathKeyView, sample: PathSample) -> LedgerView {
        if sample.should_apply() && !sample.owes {
            LedgerView { owed: self.owed.insert(path), ..self }
        } else {
            self
        }
    }

    /// The record once the metadata of a path are set.
    pub open spec fn settled(self, path: PathKeyView) -> LedgerView {
        LedgerView { applied: self.applied.insert(path), owed: self.owed.remove(path) }
    }

    /// The record after one whole write to a path.
    pub open spec fn after(self, path: PathKeyView, preexisted: bool, stage: WriteStage) -> LedgerView {
        let sample = self.sampled(path, preexisted);
        match stage {
            WriteStage::NotOpened => self,
            WriteStage::Opened => self.opened(path, sample),
            WriteStage::Done => if sample.should_apply() {
                self.opened(path, sample).settled(path)
            } else {
                self.opened(path, sample)
            },
        }
    }

    /// No path is both settled and owed.
    pub open spec fn wf(self) -> bool {
        self.applied.disjoint(self.owed)
    }
}

/// Record of the files that an output has made: those whose metadata are set, and
/// those that it opened but still owes them to.
#[derive(Debug)]
pub struct MetadataLedger {
    applied: PathSet,
    owed: PathSet,
}

impl View for MetadataLedger {
    type V = LedgerView;

    closed spec fn view(&self) -> LedgerView {
        LedgerView { applied: self.applied@, owed: self.owed@ }
    }
}

impl MetadataLedger {
    /// An empty record.
    pub fn new() -> (l: MetadataLedger)
        ensures
            l@ == LedgerView::empty(),
    {
        MetadataLedger { applied: PathSet::new(), owed: PathSet::new() }
    }

    /// What is known of a path right before it is opened.
    pub fn sample(&self, path: &str, preexisted: bool) -> (s: PathSample)
        ensures
            s == self@.sampled(path_key(path@), preexisted),
    {
        let key = PathKey::of(path);
        PathSample { preexisted, owes: self.owed.contains(&key), applied: self.applied.contains(&key) }
    }

    /// Records that a path has been opened, before anything is written to it, and
    /// says whether the write is to set its metadata.
    pub fn opened(&mut self, path: &str, sample: PathSample) -> (apply: bool)
        ensures
            apply == sample.should_apply(),
            final(self)@ == old(self)@.opened(path_key(path@), sample),
    {
        let apply = !sample.applied && (sample.owes || !sample.preexisted);
        if apply && !sample.owes {
            self.owed.insert(PathKey::of(path));
        }
        apply
    }

    /// Records that the metadata of a path have been set.
    pub fn settled(&mut self, path: &str)
        ensures
            final(self)@ == old(self)@.settled(path_key(path@)),
    {
        let key = PathKey::of(path);
        self.owed.remove(&key);
        self.applied.insert(key);
    }
}

/// A file that this output made gets its metadata: where the write that made it did
/// not finish, the next write to the path that does finish sets them, although the
/// file is there by then.
pub proof fn law_interrupted_write_is_made_good(l: LedgerView, path: PathKeyView)
    requires
        l.wf(),
        !l.applied.contains(path),
    ensures
        ({
            let interrupted = l.after(path, false, WriteStage::Opened);
            &&& interrupted.wf()
            &&& interrupted.owed.contains(path)
            &&& interrupted.sampled(path, true).should_apply()
            &&& interrupted.after(path, true, WriteStage::Done).applied.contains(path)
            &&& !interrupted.after(path, true, WriteStage::Done).owed.contains(path)
        }),
{
}

/// A file that was there before this output ever opened it keeps its metadata,
/// however often and with whatever outcome it is written to.
pub proof fn law_foreign_file_keeps_its_metadata(
    l: LedgerView,
    path: PathKeyView,
    stage: WriteStage,
)
    requires
        !l.owed.contains(path),
        !l.applied.contains(path),
    ensures
        !l.sampled(path, true).should_apply(),
        l.after(path, true, stage) == l,
{
}

/// Metadata are set once: a settled path stays settled, and no later write sets
/// them again. A write leaves every other path as it was.
pub proof fn law_metadata_are_set_once(
    l: LedgerView,
    path: PathKeyView,
    other: PathKeyView,
    preexisted: bool,
    stage: WriteStage,
)
    requires
        l.wf(),
    ensures
        l.after(path, preexisted, stage).wf(),
        l.applied.contains(path) ==> !l.sampled(path, preexisted).should_apply() && l.after(
            path,
            preexisted,
            stage,
        ) == l,
        other != path ==> (l.after(path, preexisted, stage).applied.contains(other)
            <==> l.applied.contains(other)) && (l.after(path, preexisted, stage).owed.contains(
            other,
        ) <==> l.owed.contains(other)),
{
}

} // verus!
