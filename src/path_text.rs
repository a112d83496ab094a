//! Joining and splitting path text.

use vstd::prelude::*;

verus! {

/// A path separator on either of the platforms the library serves.
pub open spec fn is_separator(c: char) -> bool {
    c == '/' || c == '\\'
}

/// `s` without its trailing separators.
pub open spec fn trim_end_separators(s: Seq<char>) -> Seq<char>
    decreases s.len(),
{
    if s.len() > 0 && is_separator(s.last()) {
        trim_end_separators(s.drop_last())
    } else {
        s
    }
}

/// `s` without its leading separators.
pub open spec fn trim_start_separators(s: Seq<char>) -> Seq<char>
    decreases s.len(),
{
    if s.len() > 0 && is_separator(s[0]) {
        trim_start_separators(s.drop_first())
    } else {
        s
    }
}

/// `path` placed under `base`, with exactly one `/` between them.
pub open spec fn joined(base: Seq<char>, path: Seq<char>) -> Seq<char> {
    if base.len() == 0 {
        path
    } else if path.len() == 0 {
        base
    } else {
        trim_end_separators(base) + seq!['/'] + trim_start_separators(path)
    }
}

fn char_is_separator(c: char) -> (r: bool)
    ensures
        r == is_separator(c),
{
    c == '/' || c == '\\'
}

/// Joins `base` and `path` with a single `/`. An empty operand leaves the
/// other one as it is.
pub fn append_path(base: &String, path: &String) -> (r: String)
    ensures
        r@ == joined(base@, path@),
{
    let b = base.as_str();
    let p = path.as_str();
    let b_len = b.unicode_len();
    let p_len = p.unicode_len();
    if b_len == 0 {
        return path.clone();
    }
    if p_len == 0 {
        return base.clone();
    }
    assert(b@.subrange(0, b_len as int) =~= b@);
    let mut end: usize = b_len;
    while end > 0 && char_is_separator(b.get_char(end - 1))
        invariant
            end <= b_len,
            b_len == b@.len(),
            trim_end_separators(b@) == trim_end_separators(b@.subrange(0, end as int)),
        decreases end,
    {
        assert(b@.subrange(0, end as int).drop_last() =~= b@.subrange(0, end - 1));
        end = end - 1;
    }
    assert(end > 0 ==> !is_separator(b@.subrange(0, end as int).last()));
    assert(p@.subrange(0, p_len as int) =~= p@);
    let mut start: usize = 0;
    while start < p_len && char_is_separator(p.get_char(start))
        invariant
            start <= p_len,
            p_len == p@.len(),
            trim_start_separators(p@) == trim_start_separators(p@.subrange(start as int, p_len as int)),
        decreases p_len - start,
    {
        assert(p@.subrange(start as int, p_len as int).drop_first() =~= p@.subrange(
            start + 1,
            p_len as int,
        ));
        start = start + 1;
    }
    let head = String::from_str(b.substring_char(0, end));
    let with_slash = head.concat("/");
    let r = with_slash.concat(p.substring_char(start, p_len));
    proof {
        reveal_strlit("/");
    }
    assert(r@ =~= joined(base@, path@));
    r
}

/// Joining with an empty operand on either side gives the other operand back.
pub proof fn lemma_join_with_empty(x: Seq<char>)
    ensures
        joined(Seq::empty(), x) == x,
        joined(x, Seq::empty()) == x,
{
}

/// Relies on `std::path::Path::parent`: the parent is the path without its
/// final component, which is never empty, so it is a shorter leading part of
/// the text; an empty path has none.
#[verifier::external_body]
pub(crate) fn parent_text(path: &str) -> (r: Option<String>)
    ensures
        r matches Some(p) ==> p@.len() < path@.len() && p@ == path@.subrange(0, p@.len() as int),
        path@.len() == 0 ==> r is None,
{
    match std::path::Path::new(path).parent() {
        Some(p) => Some(p.to_string_lossy().into_owned()),
        None => None,
    }
}

/// The directory part of `path`: empty when the path has no parent.
pub fn get_parent_path(path: &String) -> (r: String)
    ensures
        r@.len() <= path@.len(),
        path@.len() > 0 ==> r@.len() < path@.len(),
        r@ == path@.subrange(0, r@.len() as int),
        path@.len() == 0 ==> r@.len() == 0,
{
    match parent_text(path.as_str()) {
        Some(p) => p,
        None => String::new(),
    }
}

/// Whether `part` stands in `whole` as a run of consecutive characters.
pub open spec fn is_run_of(part: Seq<char>, whole: Seq<char>) -> bool {
    exists|i: int|
        0 <= i && i + part.len() <= whole.len() && #[trigger] whole.subrange(i, i + part.len()) == part
}

/// The text after the last `/` of `s` (all of `s` when it has none).
pub open spec fn last_segment(s: Seq<char>) -> Seq<char>
    decreases s.len(),
{
    if s.len() == 0 {
        s
    } else if s.last() == '/' {
        Seq::empty()
    } else {
        last_segment(s.drop_last()).push(s.last())
    }
}

/// A path whose final component every platform reads the same way: it holds
/// no `\`, `:` or `?`, does not begin with `//`, and the text after its last
/// `/` is neither empty nor `.` nor `..`.
pub open spec fn plain_last_segment(s: Seq<char>) -> bool {
    &&& forall|i: int| 0 <= i < s.len() ==> #[trigger] s[i] != '\\' && s[i] != ':' && s[i] != '?'
    &&& !(s.len() >= 2 && s[0] == '/' && s[1] == '/')
    &&& last_segment(s).len() > 0
    &&& last_segment(s) != seq!['.']
    &&& last_segment(s) != seq!['.', '.']
}

/// Relies on `std::path::Path::file_name`: the final component of the path,
/// a run of the path's own characters; none when the path ends in `..` or a
/// root. For a path with a plain last segment that segment is the final
/// component, on every platform.
#[verifier::external_body]
pub(crate) fn file_name_text(path: &String) -> (r: Option<String>)
    ensures
        r matches Some(n) ==> is_run_of(n@, path@),
        r is None ==> !plain_last_segment(path@),
        r matches Some(n) ==> (plain_last_segment(path@) ==> n@ == last_segment(path@)),
{
    match std::path::Path::new(path).file_name() {
        Some(n) => Some(n.to_string_lossy().into_owned()),
        None => None,
    }
}

} // verus!
