//! What the file output does with paths, modes and files.
use crate::file::{
    config_result, mode_value, octal_value, path_key, proper_parts, zero_run, FileConfigView,
    FileOutput, LedgerView, PathSetting, PathSettingView,
};
use crate::file_path::{
    all_evaluated, assembled, climbs, interpolations, rendered, sanitized, segments, template_view,
    PathPart, PathPartView,
};
use crate::file_windows::sanitized as sanitized_on_windows;
use crate::file_write::{FileAction, FileEvent, FileWriteView};
use crate::laws::reading::{lemma_mentions, mentions};
use crate::props::{first_value, fragment_views, string_at, Expr, FragmentView, Property};
use crate::retry::{retry_result, RetryConfig};
use vstd::prelude::*;

verus! {

/// Sanitising replaces a slash and a backslash by an underscore, on Windows a colon
/// too, each in its place, and changes nothing else.
pub proof fn law_sanitizing_replaces_separators_only(s: Seq<char>, i: int)
    requires
        0 <= i < s.len(),
    ensures
        s[i] == '/' || s[i] == '\\' ==> sanitized(s)[i] == '_',
        s[i] != '/' && s[i] != '\\' ==> sanitized(s)[i] == s[i],
        s[i] == '/' || s[i] == '\\' || s[i] == ':' ==> sanitized_on_windows(s)[i] == '_',
        s[i] != '/' && s[i] != '\\' && s[i] != ':' ==> sanitized_on_windows(s)[i] == s[i],
        sanitized(s).len() == s.len() && sanitized_on_windows(s).len() == s.len(),
{
}

proof fn lemma_segments_nonempty(s: Seq<char>)
    ensures
        segments(s).len() > 0,
    decreases s.len(),
{
    if s.len() > 0 {
        lemma_segments_nonempty(s.drop_last());
    }
}

/// A path is cut at every slash and nowhere else: what stands between two slashes is
/// one piece, and the pieces of a path are those before a slash and those behind it.
pub proof fn law_paths_are_cut_at_slashes(a: Seq<char>, b: Seq<char>)
    ensures
        segments(a + seq!['/'] + b) == segments(a) + segments(b),
        !b.contains('/') ==> segments(b) == seq![b],
    decreases b.len(),
{
    lemma_segments_nonempty(b);
    let s = a + seq!['/'] + b;
    if b.len() == 0 {
        assert(s.drop_last() =~= a);
        assert(s.last() == '/');
        assert(b =~= Seq::<char>::empty());
        assert(segments(a).push(Seq::<char>::empty()) =~= segments(a) + segments(b));
        assert(segments(b) =~= seq![b]);
    } else {
        let shorter = b.drop_last();
        law_paths_are_cut_at_slashes(a, shorter);
        lemma_segments_nonempty(shorter);
        assert(s.drop_last() =~= a + seq!['/'] + shorter);
        assert(s.last() == b.last());
        let before = segments(a) + segments(shorter);
        assert(before.last() == segments(shorter).last());
        assert(before.drop_last() =~= segments(a) + segments(shorter).drop_last());
        assert(segments(s) =~= segments(a) + segments(b));
        if !b.contains('/') {
            assert(b.last() == b[b.len() - 1]);
            assert(!shorter.contains('/')) by {
                if shorter.contains('/') {
                    let i = choose|i: int| 0 <= i < shorter.len() && shorter[i] == '/';
                    assert(b[i] == '/');
                }
            }
            assert(seq![shorter].drop_last() =~= Seq::<Seq<char>>::empty());
            assert(seq![shorter].last() == shorter);
            assert(shorter.push(b.last()) =~= b);
            assert(segments(b) =~= seq![b]);
        }
    }
}

/// A path climbs exactly if one of its pieces is `..`: one without a slash only where
/// it is that, one with a slash where either side of the slash does.
pub proof fn law_climbing_paths_have_a_parent_piece(a: Seq<char>, b: Seq<char>)
    ensures
        !b.contains('/') ==> (climbs(b) <==> b == seq!['.', '.']),
        climbs(a + seq!['/'] + b) <==> climbs(a) || climbs(b),
{
    reveal_strlit("..");
    assert(".."@ =~= seq!['.', '.']);
    law_paths_are_cut_at_slashes(a, b);
    let up = ".."@;
    let all = segments(a) + segments(b);
    if !b.contains('/') {
        assert(seq![b][0] == b);
    }
    if all.contains(up) {
        let i = choose|i: int| 0 <= i < all.len() && all[i] == up;
        if i < segments(a).len() {
            assert(segments(a)[i] == up);
        } else {
            assert(segments(b)[i - segments(a).len()] == up);
        }
    }
    if segments(a).contains(up) {
        let i = choose|i: int| 0 <= i < segments(a).len() && segments(a)[i] == up;
        assert(all[i] == up);
    }
    if segments(b).contains(up) {
        let i = choose|i: int| 0 <= i < segments(b).len() && segments(b)[i] == up;
        assert(all[segments(a).len() + i] == up);
    }
}

/// The pieces that count are all but the empty ones and `.`, in order.
pub proof fn law_empty_and_dot_pieces_do_not_count(
    a: Seq<Seq<char>>,
    b: Seq<Seq<char>>,
    piece: Seq<char>,
)
    ensures
        proper_parts(a + b) == proper_parts(a) + proper_parts(b),
        piece.len() == 0 || piece == seq!['.'] ==> proper_parts(seq![piece]).len() == 0,
        piece.len() > 0 && piece != seq!['.'] ==> proper_parts(seq![piece]) == seq![piece],
    decreases b.len(),
{
    reveal_strlit(".");
    assert("."@ =~= seq!['.']);
    assert(seq![piece].drop_last() =~= Seq::<Seq<char>>::empty());
    assert(proper_parts(seq![piece].drop_last()) =~= Seq::<Seq<char>>::empty());
    assert(Seq::<Seq<char>>::empty().push(piece) =~= seq![piece]);
    if b.len() == 0 {
        assert(a + b =~= a);
        assert(proper_parts(a) + proper_parts(b) =~= proper_parts(a));
    } else {
        law_empty_and_dot_pieces_do_not_count(a, b.drop_last(), piece);
        assert((a + b).drop_last() =~= a + b.drop_last());
        assert((a + b).last() == b.last());
        assert(proper_parts(a + b) =~= proper_parts(a) + proper_parts(b));
    }
}

/// Two texts name one path where they differ only in doubled slashes, in `.` between
/// slashes, or in a slash at the end; a path from the root is not one from anywhere
/// else.
pub proof fn law_same_path_in_other_words(a: Seq<char>, b: Seq<char>)
    requires
        a.len() > 0,
    ensures
        path_key(a + seq!['/'] + seq!['/'] + b) == path_key(a + seq!['/'] + b),
        path_key(a + seq!['/', '.'] + seq!['/'] + b) == path_key(a + seq!['/'] + b),
        path_key(a + seq!['/']) == path_key(a),
        path_key(a).rooted <==> a[0] == '/',
        path_key(seq!['/'] + a).rooted,
        path_key(a).parts == proper_parts(segments(a)),
        path_key(seq!['.', '/'] + a).dotted,
{
    reveal_strlit(".");
    assert("."@ =~= seq!['.']);
    let slash = seq!['/'];
    let nothing = Seq::<char>::empty();
    let dot = seq!['.'];
    lemma_segments_nonempty(a);
    lemma_segments_nonempty(b);
    law_paths_are_cut_at_slashes(a, b);
    law_paths_are_cut_at_slashes(a, nothing);
    assert(!nothing.contains('/'));
    assert(!dot.contains('/')) by {
        assert(dot[0] != '/');
    }
    law_paths_are_cut_at_slashes(a, dot);
    law_paths_are_cut_at_slashes(a + slash, b);
    law_paths_are_cut_at_slashes(a + slash + dot, b);
    law_paths_are_cut_at_slashes(dot, a);
    assert(a + slash + nothing =~= a + slash);
    assert(a + seq!['/', '.'] =~= a + slash + dot);
    assert(dot + slash + a =~= seq!['.', '/'] + a);
    law_empty_and_dot_pieces_do_not_count(segments(a), segments(b), nothing);
    law_empty_and_dot_pieces_do_not_count(segments(a), seq![nothing], nothing);
    law_empty_and_dot_pieces_do_not_count(segments(a), seq![dot], dot);
    law_empty_and_dot_pieces_do_not_count(segments(a) + seq![nothing], segments(b), nothing);
    law_empty_and_dot_pieces_do_not_count(segments(a) + seq![dot], segments(b), dot);
    let empty = Seq::<Seq<char>>::empty();
    assert(proper_parts(seq![nothing]) =~= empty);
    assert(proper_parts(seq![dot]) =~= empty);
    let pa = proper_parts(segments(a));
    assert(pa + empty =~= pa);
    let x = a + slash + slash + b;
    let y = a + slash + b;
    let z = a + seq!['/', '.'] + slash + b;
    assert(x[0] == a[0] && y[0] == a[0] && z[0] == a[0] && (a + slash)[0] == a[0]);
    assert(segments(x)[0] == segments(a)[0]);
    assert(segments(y)[0] == segments(a)[0]);
    assert(segments(z)[0] == segments(a)[0]);
    assert(segments(a + slash)[0] == segments(a)[0]);
    assert((seq!['.', '/'] + a)[0] == '.');
    assert(segments(seq!['.', '/'] + a)[0] == dot);
}

/// A path is put together part by part: the literals as they are, the values
/// sanitised. The first part that has no value, or an empty one, is the error.
pub proof fn law_paths_are_put_together(
    a: Seq<PathPartView>,
    b: Seq<PathPartView>,
    part: PathPart,
)
    ensures
        assembled(a) matches Ok(x) ==> assembled(b) matches Ok(y) ==> assembled(a + b) == Ok::<
            Seq<char>,
            Seq<char>,
        >(x + y),
        assembled(a) is Err ==> assembled(a + b) == assembled(a),
        assembled(a) is Ok && assembled(b) is Err ==> assembled(a + b) == assembled(b),
        match part {
            PathPart::Literal(s) => assembled(seq![part@]) == Ok::<Seq<char>, Seq<char>>(s@),
            PathPart::Value(s) => if s@.len() == 0 {
                assembled(seq![part@]) is Err
            } else {
                assembled(seq![part@]) == Ok::<Seq<char>, Seq<char>>(sanitized(s@))
            },
            PathPart::Failed(e) => assembled(seq![part@]) == Err::<Seq<char>, Seq<char>>(e@),
        },
    decreases b.len(),
{
    let nothing = Seq::<char>::empty();
    assert(seq![part@].drop_last() =~= Seq::<PathPartView>::empty());
    assert(assembled(seq![part@].drop_last()) == Ok::<Seq<char>, Seq<char>>(nothing));
    match part {
        PathPart::Literal(s) => {
            assert(nothing + s@ =~= s@);
        },
        PathPart::Value(s) => {
            assert(nothing + sanitized(s@) =~= sanitized(s@));
        },
        PathPart::Failed(_) => {},
    }
    if b.len() == 0 {
        assert(a + b =~= a);
        if assembled(a) is Ok {
            assert(assembled(a)->Ok_0 + nothing =~= assembled(a)->Ok_0);
        }
    } else {
        let shorter = b.drop_last();
        law_paths_are_put_together(a, shorter, part);
        assert((a + b).drop_last() =~= a + shorter);
        assert((a + b).last() == b.last());
        if assembled(a) is Ok && assembled(b) is Ok {
            let x = assembled(a)->Ok_0;
            let y = assembled(shorter)->Ok_0;
            match b.last() {
                PathPartView::Literal(s) => {
                    assert(x + y + s =~= x + (y + s));
                },
                PathPartView::Value(s) => {
                    assert(x + y + sanitized(s) =~= x + (y + sanitized(s)));
                },
                PathPartView::Failed(_) => {},
            }
        }
    }
}

/// A template is rendered to the path that its parts make up, exactly if they make
/// one up that has no piece `..`, is not empty and does not end with a slash.
pub proof fn law_templates_render_to_their_parts(parts: Seq<PathPartView>)
    ensures
        rendered(parts) is Ok <==> {
            &&& assembled(parts) is Ok
            &&& !climbs(assembled(parts)->Ok_0)
            &&& assembled(parts)->Ok_0.len() > 0
            &&& assembled(parts)->Ok_0.last() != '/'
        },
        rendered(parts) is Ok ==> rendered(parts) == assembled(parts),
        assembled(parts) is Err ==> rendered(parts) == assembled(parts),
{
}

/// The parts of a template stand in its order: each literal as it is, each
/// interpolation with the value that was found for it, counted from the front.
pub proof fn law_templates_take_values_in_order(
    fragments: Seq<FragmentView>,
    values: Seq<PathPartView>,
    i: int,
)
    requires
        0 <= i < fragments.len(),
    ensures
        template_view(fragments, values).len() == fragments.len(),
        match fragments[i] {
            FragmentView::Literal(s) => template_view(fragments, values)[i]
                == PathPartView::Literal(s),
            FragmentView::Interp(e) => {
                let k = interpolations(fragments.take(i)).len();
                &&& k < interpolations(fragments).len()
                &&& interpolations(fragments)[k as int] == e
                &&& template_view(fragments, values)[i] == values[k as int]
            },
        },
    decreases fragments.len(),
{
    let shorter = fragments.drop_last();
    lemma_template_len(shorter, values);
    lemma_template_len(fragments, values);
    if i < shorter.len() {
        law_templates_take_values_in_order(shorter, values, i);
        assert(shorter.take(i) =~= fragments.take(i));
        assert(shorter[i] == fragments[i]);
        assert(template_view(fragments, values)[i] == template_view(shorter, values)[i]);
    } else {
        assert(fragments.take(i) =~= shorter);
    }
}

proof fn lemma_template_len(fragments: Seq<FragmentView>, values: Seq<PathPartView>)
    ensures
        template_view(fragments, values).len() == fragments.len(),
    decreases fragments.len(),
{
    if fragments.len() > 0 {
        lemma_template_len(fragments.drop_last(), values);
    }
}

/// A configured path is taken as it is and wants no values; a template is rendered
/// and wants those of its interpolations.
pub proof fn law_static_paths_are_taken_as_they_are(
    path: PathSetting,
    values: Seq<PathPartView>,
)
    ensures
        match path {
            PathSetting::Static(s) => path@.wanted().len() == 0 && path@.resolved(values) == Ok::<
                (Seq<char>, bool),
                Seq<char>,
            >((s@, false)),
            PathSetting::Template(fragments) => {
                let made = rendered(template_view(fragment_views(fragments@), values));
                &&& path@.wanted() == interpolations(fragment_views(fragments@))
                &&& path@.resolved(values) is Ok <==> made is Ok
                &&& path@.resolved(values) matches Ok((p, dynamic)) ==> dynamic && made == Ok::<
                    Seq<char>,
                    Seq<char>,
                >(p)
                &&& path@.resolved(values) matches Err(e) ==> made == Err::<Seq<char>, Seq<char>>(e)
            },
        },
{
}

/// Eight to the power `k`.
pub open spec fn pow8(k: nat) -> nat
    decreases k,
{
    if k == 0 {
        1
    } else {
        8 * pow8((k - 1) as nat)
    }
}

/// Digits of a mode are read in base eight, wherever they are cut in two, and a plus
/// sign may stand in front of them.
pub proof fn law_modes_are_octal(front: Seq<char>, back: Seq<char>, c: char)
    ensures
        '0' <= c <= '7' ==> octal_value(seq![c]) == Some((c as u32 - '0' as u32) as nat),
        !('0' <= c <= '7') ==> octal_value(seq![c]) is None,
        octal_value(front) is Some && octal_value(back) is Some ==> octal_value(front + back)
            == Some((octal_value(front)->0 * pow8(back.len()) + octal_value(back)->0) as nat),
        octal_value(front) is None || octal_value(back) is None ==> octal_value(front + back)
            is None,
        back.len() > 0 ==> mode_value(seq!['+'] + back) == (match octal_value(back) {
            Some(n) => if n <= 0xffff_ffff {
                Some(n as u32)
            } else {
                None
            },
            None => None,
        }),
        mode_value(Seq::<char>::empty()) is None,
    decreases back.len(),
{
    assert(seq![c].drop_last() =~= Seq::<char>::empty());
    assert(octal_value(seq![c].drop_last()) == Some(0nat));
    let signed = seq!['+'] + back;
    assert(signed.skip(0) =~= signed);
    assert(signed.skip(1) =~= back);
    if back.len() == 0 {
        assert(front + back =~= front);
        if octal_value(front) is Some {
            let f = octal_value(front)->0;
            assert(f * 1 == f);
        }
    } else {
        let shorter = back.drop_last();
        law_modes_are_octal(front, shorter, c);
        assert((front + back).drop_last() =~= front + shorter);
        assert((front + back).last() == back.last());
        if octal_value(front) is Some && octal_value(back) is Some {
            let f = octal_value(front)->0;
            let p = pow8(shorter.len());
            let rest = octal_value(shorter)->0;
            assert((f * p + rest) * 8 == f * (8 * p) + rest * 8) by (nonlinear_arith);
            assert(pow8(back.len()) == 8 * p);
        }
    }
}

/// An accepted output has the settings that its properties give: path, mode, owner
/// and group each under its own name, and the retry budget.
pub proof fn law_file_output_is_what_is_configured(
    name: Seq<char>,
    props: Seq<Property>,
    defaults: RetryConfig,
    output: FileOutput,
)
    requires
        config_result(name, props, defaults) == Ok::<FileConfigView, Seq<char>>(output.config()),
    ensures
        match output.owner {
            Some(s) => string_at(props, "owner"@) == Some(s@),
            None => string_at(props, "owner"@) is None,
        },
        match output.group {
            Some(s) => string_at(props, "group"@) == Some(s@),
            None => string_at(props, "group"@) is None,
        },
        match string_at(props, "mode"@) {
            Some(text) => output.mode is Some && mode_value(text) == output.mode,
            None => output.mode is None,
        },
        retry_result(props, defaults) == Ok::<RetryConfig, Seq<char>>(output.retry),
        first_value(props, "path"@) is Some,
        match first_value(props, "path"@)->0 {
            Expr::StringLit(s) => output.path matches PathSetting::Static(p) && p@ == s@,
            Expr::Template(fragments) => output.path matches PathSetting::Template(f)
                && fragment_views(f@) == fragment_views(fragments@),
            _ => false,
        },
{
    match output.path {
        PathSetting::Static(p) => {
            assert(output.path@ == PathSettingView::Static(p@));
        },
        PathSetting::Template(f) => {
            assert(output.path@ == PathSettingView::Template(fragment_views(f@)));
        },
    }
}

/// An output is accepted exactly if its retry block is, a path is given as a text or a
/// template, and a mode, where there is one, is octal.
pub proof fn law_accepted_file_outputs(name: Seq<char>, props: Seq<Property>, defaults: RetryConfig)
    ensures
        config_result(name, props, defaults) is Ok <==> {
            &&& retry_result(props, defaults) is Ok
            &&& first_value(props, "path"@) is Some
            &&& first_value(props, "path"@)->0 is StringLit || first_value(
                props,
                "path"@,
            )->0 is Template
            &&& string_at(props, "mode"@) matches Some(text) ==> mode_value(text) is Some
        },
{
}

/// What a write to a file does next: it looks for the file before it opens it, opens
/// it before it writes, and sets the metadata only after the line is out. It is done
/// only with the line out, and fails where opening or writing did, with that error; a
/// link is refused by the path that it stands at.
pub proof fn law_file_writes_go_in_order(
    s: FileWriteView,
    e: FileEvent,
    a: FileAction,
    record: LedgerView,
    t: FileWriteView,
)
    requires
        s.accepts(e@),
        a@ == s.action(e@),
        t == s.after(e@, record),
    ensures
        a is Probe <==> e is DirectoryTried,
        a is Open <==> e is Probed,
        a is Write <==> e is Opened,
        ({
            let due = !s.sample.applied && (s.sample.owes || !s.sample.preexisted);
            &&& a is SetMetadata <==> e is Written && due
            &&& a is Done <==> e is MetadataTried || e is Written && !due
        }),
        a is Fail <==> e is OpenFailed || e is WriteFailed,
        !(a is MakeDirectory),
        e matches FileEvent::WriteFailed { error } ==> (a matches FileAction::Fail { error: told }
            && told@ == error@),
        e matches FileEvent::OpenFailed { is_symlink, error } ==> (a matches FileAction::Fail {
            error: told,
        } && if is_symlink {
            mentions(told@, s.path)
        } else {
            told@ == error@
        }),
        t.phase is Probing <==> a is Probe,
        t.phase is Opening <==> a is Open,
        t.phase is Writing <==> a is Write,
        t.phase is SettingMetadata <==> a is SetMetadata,
        t.phase is Finished <==> a is Done || a is Fail,
        t.path == s.path,
        t.written <==> s.written || e is Written,
        e matches FileEvent::Probed { exists } ==> t.sample.preexisted == exists && t.sample.owes
            == record.owed.contains(path_key(s.path)) && t.sample.applied
            == record.applied.contains(path_key(s.path)),
        !(e is Probed) ==> t.sample == s.sample,
{
    if let FileEvent::OpenFailed { is_symlink, error } = e {
        let link = "refusing to follow symlink at output path: "@;
        let none = Seq::<char>::empty();
        lemma_mentions(link, s.path, none);
        assert(link + s.path + none =~= link + s.path);
    }
}

/// A path with a piece `..` is refused by name before anything is touched; any other
/// write begins with the directory where the path was rendered, and with a look at the
/// file where it was not.
pub proof fn law_file_writes_begin_with_a_look(
    path: Seq<char>,
    dynamic: bool,
    a: FileAction,
    s: FileWriteView,
    e: FileEvent,
)
    requires
        a@ == FileWriteView::first_action(path, dynamic),
    ensures
        a is Fail <==> climbs(path),
        a matches FileAction::Fail { error } ==> mentions(error@, path),
        a is MakeDirectory <==> !climbs(path) && dynamic,
        a is Probe <==> !climbs(path) && !dynamic,
        ({
            let first = FileWriteView::start(path, dynamic);
            &&& first.path == path && !first.written
            &&& first.phase is Finished <==> a is Fail
            &&& first.phase is MakingDirectory <==> a is MakeDirectory
            &&& first.phase is Probing <==> a is Probe
        }),
        s.phase is MakingDirectory ==> (s.accepts(e@) <==> e is DirectoryTried),
        s.phase is Probing ==> (s.accepts(e@) <==> e is Probed),
        s.phase is Opening ==> (s.accepts(e@) <==> e is Opened || e is OpenFailed),
        s.phase is Writing ==> (s.accepts(e@) <==> e is Written || e is WriteFailed),
        s.phase is SettingMetadata ==> (s.accepts(e@) <==> e is MetadataTried),
        s.phase is Finished ==> !s.accepts(e@),
{
    let refused = "path traversal rejected: "@;
    let none = Seq::<char>::empty();
    lemma_mentions(refused, path, none);
    assert(refused + path + none =~= refused + path);
}

/// A write changes the record in two places only: once the file is open, its path is
/// owed the metadata if they are due, and once they were set, it is owed nothing and
/// has them. No other path is touched.
pub proof fn law_file_writes_keep_the_record(
    s: FileWriteView,
    e: FileEvent,
    record: LedgerView,
    after: LedgerView,
    other: Seq<char>,
)
    requires
        s.accepts(e@),
        after == s.recorded(e@, record),
    ensures
        ({
            let key = path_key(s.path);
            let due = !s.sample.applied && (s.sample.owes || !s.sample.preexisted);
            &&& !(e is Opened) && !(e is MetadataTried) ==> after == record
            &&& e is Opened && due && !s.sample.owes ==> after.owed.contains(key)
            &&& e is Opened ==> after.applied == record.applied
            &&& e is Opened && (!due || s.sample.owes) ==> after == record
            &&& e is MetadataTried ==> after.applied.contains(key) && !after.owed.contains(key)
            &&& path_key(other) != key ==> (after.applied.contains(path_key(other))
                <==> record.applied.contains(path_key(other))) && (after.owed.contains(
                path_key(other),
            ) <==> record.owed.contains(path_key(other)))
        }),
{
}

/// What an interpolation evaluated to goes into the path, and where it could not be
/// evaluated the reason does; in order.
pub proof fn law_values_are_what_was_evaluated(values: Seq<Result<String, String>>, i: int)
    requires
        0 <= i < values.len(),
    ensures
        all_evaluated(values).len() == values.len(),
        match values[i] {
            Ok(s) => all_evaluated(values)[i] == PathPartView::Value(s@),
            Err(e) => all_evaluated(values)[i] == PathPartView::Failed(e@),
        },
{
}

proof fn lemma_zeros_fit(s: Seq<char>)
    ensures
        zero_run(s) <= s.len(),
    decreases s.len(),
{
    if s.len() > 0 {
        lemma_zeros_fit(s.drop_first());
    }
}

/// Zeros in front of a mode count for nothing, in front of a plus sign too, and a mode
/// without either is read in base eight as it is.
pub proof fn law_leading_zeros_count_for_nothing(s: Seq<char>)
    requires
        s.len() > 0,
    ensures
        mode_value(seq!['0'] + s) == mode_value(s),
        mode_value(seq!['0']) == Some(0u32),
        s[0] != '0' && s[0] != '+' ==> mode_value(s) == (match octal_value(s) {
            Some(n) => if n <= 0xffff_ffff {
                Some(n as u32)
            } else {
                None
            },
            None => None,
        }),
{
    lemma_zeros_fit(s);
    let more = seq!['0'] + s;
    assert(more.drop_first() =~= s);
    assert(zero_run(more) == 1 + zero_run(s));
    assert(more.skip(zero_run(more) as int) =~= s.skip(zero_run(s) as int));
    let zero = seq!['0'];
    assert(zero.drop_first() =~= Seq::<char>::empty());
    assert(zero_run(zero) == 1 + zero_run(zero.drop_first()));
    assert(zero.skip(1) =~= Seq::<char>::empty());
    assert(s.skip(0) =~= s);
}

} // verus!
