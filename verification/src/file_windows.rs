//! What differs on Windows in the paths of the `file` output.
use crate::file_path::is_separator;
use crate::text::chars_of;
use vstd::prelude::*;

verus! {

/// A character as it may stand inside one path component on Windows, where a
/// colon selects an alternate data stream of a file.
pub open spec fn component_char(c: char) -> char {
    if is_separator(c) || c == ':' {
        '_'
    } else {
        c
    }
}

/// A value made fit to be one path component.
pub open spec fn sanitized(s: Seq<char>) -> Seq<char> {
    s.map_values(|c: char| component_char(c))
}

/// Replaces `/`, `\` and `:` by `_`.
pub fn sanitize_path_component(value: &str) -> (r: String)
    ensures
        r@ == sanitized(value@),
{
    let v = chars_of(value);
    let mut out = String::new();
    let mut i: usize = 0;
    while i < v.len()
        invariant
            i <= v@.len(),
            v@ == value@,
            out@ == sanitized(value@.take(i as int)),
        decreases v@.len() - i,
    {
        let c = v[i];
        if c == '/' || c == '\\' || c == ':' {
            out.push('_');
        } else {
            out.push(c);
        }
        i = i + 1;
        assert(out@ =~= sanitized(value@.take(i as int)));
    }
    assert(value@.take(value@.len() as int) =~= value@);
    out
}

/// Bit of a file's attributes that marks a reparse point, such as a link.
pub const FILE_ATTRIBUTE_REPARSE_POINT: u32 = 0x0000_0400;

/// Whether an opened file may be written to: a regular file that is no reparse
/// point.
pub fn is_plain_file(is_file: bool, attributes: u32) -> (r: bool)
    ensures
        r == (is_file && attributes & FILE_ATTRIBUTE_REPARSE_POINT == 0),
{
    is_file && attributes & FILE_ATTRIBUTE_REPARSE_POINT == 0
}

/// A sanitised value can neither leave its directory nor select a data stream, and
/// is unchanged where it held none of the three characters.
pub proof fn law_sanitized_selects_no_stream(s: Seq<char>)
    ensures
        !sanitized(s).contains('/'),
        !sanitized(s).contains('\\'),
        !sanitized(s).contains(':'),
        sanitized(s).len() == s.len(),
        !s.contains('/') && !s.contains('\\') && !s.contains(':') ==> sanitized(s) == s,
{
    if !s.contains('/') && !s.contains('\\') && !s.contains(':') {
        assert forall|i: int| 0 <= i < s.len() implies sanitized(s)[i] == s[i] by {
            assert(s.contains(s[i]));
        }
        assert(sanitized(s) =~= s);
    }
}

} // verus!
