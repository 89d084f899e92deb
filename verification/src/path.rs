//! File paths as texts: their components, the name and extension of the file
//! they lead to, and the test whether one path lies below another.

use crate::text::{chars_of, copy_range, extend_chars, same_chars, string_of, texts};
use vstd::prelude::*;

verus! {

/// How the host system writes its paths.
#[derive(Debug, Clone, Copy, PartialEq, Eq)]
pub enum PathStyle {
    /// `/` separates components.
    Posix,
    /// `/` and `\` separate components, and a path may begin with a volume
    /// letter and a colon.
    Windows,
}

impl PathStyle {
    /// Whether `c` separates two components of a path.
    pub open spec fn is_separator(self, c: char) -> bool {
        c == '/' || (self is Windows && c == '\\')
    }

    /// The separator that is written where one has to be added.
    pub open spec fn separator(self) -> char {
        if self is Windows {
            '\\'
        } else {
            '/'
        }
    }

    /// Whether `c` separates two components of a path.
    pub fn separates(&self, c: char) -> (b: bool)
        ensures
            b == self.is_separator(c),
    {
        match *self {
            PathStyle::Posix => c == '/',
            PathStyle::Windows => c == '/' || c == '\\',
        }
    }

    /// The separator that is written where one has to be added.
    pub fn main_separator(&self) -> (c: char)
        ensures
            c == self.separator(),
    {
        match *self {
            PathStyle::Posix => '/',
            PathStyle::Windows => '\\',
        }
    }
}

/// The number of characters before the first separator of `s`, or the length
/// of `s` when it holds no separator.
pub open spec fn name_len(s: Seq<char>, style: PathStyle) -> int
    decreases s.len(),
{
    if s.len() == 0 || style.is_separator(s[0]) {
        0
    } else {
        1 + name_len(s.skip(1), style)
    }
}

/// `name_len` lies within the text.
pub proof fn lemma_name_len_bounds(s: Seq<char>, style: PathStyle)
    ensures
        0 <= name_len(s, style) <= s.len(),
        s.len() > 0 && !style.is_separator(s[0]) ==> name_len(s, style) > 0,
    decreases s.len(),
{
    if s.len() > 0 && !style.is_separator(s[0]) {
        lemma_name_len_bounds(s.skip(1), style);
    }
}

/// `name_len` is the first index that holds a separator.
pub proof fn lemma_name_len(s: Seq<char>, style: PathStyle, k: int)
    requires
        0 <= k <= s.len(),
        forall|j: int| 0 <= j < k ==> !style.is_separator(s[j]),
        k == s.len() || style.is_separator(s[k]),
    ensures
        name_len(s, style) == k,
    decreases k,
{
    if k > 0 {
        lemma_name_len(s.skip(1), style, k - 1);
    }
}

/// The components of a path: its longest runs of characters that hold no
/// separator, from left to right. Separators at either end and repeated
/// separators make no component. The names `.` and `..` are components like
/// any other.
pub open spec fn components(s: Seq<char>, style: PathStyle) -> Seq<Seq<char>>
    decreases s.len(),
    via components_decreases
{
    if s.len() == 0 {
        Seq::empty()
    } else if style.is_separator(s[0]) {
        components(s.skip(1), style)
    } else {
        let n = name_len(s, style);
        seq![s.take(n)] + components(s.skip(n), style)
    }
}

#[via_fn]
proof fn components_decreases(s: Seq<char>, style: PathStyle) {
    lemma_name_len_bounds(s, style);
}

/// Whether a path begins at the root: with a separator.
pub open spec fn is_rooted(path: Seq<char>, style: PathStyle) -> bool {
    path.len() > 0 && style.is_separator(path[0])
}

/// Whether `path` lies at or below `base`: the components of `base` are the
/// first components of `path`, and both begin at the root or neither does.
/// Only whole components count. A base without components that does not
/// begin at the root, such as the empty path, lies above every path.
pub open spec fn is_path_prefix(base: Seq<char>, path: Seq<char>, style: PathStyle) -> bool {
    &&& components(base, style).is_prefix_of(components(path, style))
    &&& is_rooted(base, style) == is_rooted(path, style) || (!is_rooted(base, style) && components(
        base,
        style,
    ).len() == 0)
}

/// The last component of a path, if it has any.
pub open spec fn file_name(path: Seq<char>, style: PathStyle) -> Option<Seq<char>> {
    let parts = components(path, style);
    if parts.len() == 0 {
        None
    } else {
        Some(parts.last())
    }
}

/// The index of the last `.` of `name`, or -1 when it holds none.
pub open spec fn last_dot(name: Seq<char>) -> int
    decreases name.len(),
{
    if name.len() == 0 {
        -1
    } else if name.last() == '.' {
        name.len() - 1
    } else {
        last_dot(name.drop_last())
    }
}

/// What follows the last `.` of `name`; empty when `name` holds no `.`.
pub open spec fn after_last_dot(name: Seq<char>) -> Seq<char> {
    let dot = last_dot(name);
    if 0 <= dot < name.len() {
        name.skip(dot + 1)
    } else {
        Seq::empty()
    }
}

/// The extension of the file that a path leads to: what follows the last `.`
/// of its last component. It is empty when that component holds no `.` and
/// when the path has no component.
pub open spec fn extension(path: Seq<char>, style: PathStyle) -> Seq<char> {
    match file_name(path, style) {
        Some(name) => after_last_dot(name),
        None => Seq::empty(),
    }
}

/// A letter of `A` to `Z` as the small letter; any other character as it is.
pub open spec fn ascii_lower(c: char) -> char {
    if 'A' <= c <= 'Z' {
        ((c as u8) + 32) as char
    } else {
        c
    }
}

/// A text with each letter of `A` to `Z` made small.
pub open spec fn lowercase(s: Seq<char>) -> Seq<char> {
    Seq::new(s.len(), |i: int| ascii_lower(s[i]))
}

/// The path of the entry `leaf` in the directory `base`. A separator is put
/// between the two unless `base` is empty or ends in one.
pub open spec fn join(base: Seq<char>, leaf: Seq<char>, style: PathStyle) -> Seq<char> {
    if base.len() == 0 || style.is_separator(base.last()) {
        base + leaf
    } else {
        base + seq![style.separator()] + leaf
    }
}

/// The path in the file system that the path of a `file:` address stands for.
/// Where paths begin with a volume letter, the address writes a separator
/// before the letter, which is no part of the path: a leading `/` goes when a
/// colon stands two characters behind it.
pub open spec fn local_path(uri_path: Seq<char>, style: PathStyle) -> Seq<char> {
    if style is Windows && uri_path.len() >= 3 && uri_path[0] == '/' && uri_path[2] == ':' {
        uri_path.skip(1)
    } else {
        uri_path
    }
}

/// The components of `path`.
pub(crate) fn split_components(path: &Vec<char>, style: PathStyle) -> (out: Vec<Vec<char>>)
    ensures
        texts(out@) == components(path@, style),
{
    let mut out: Vec<Vec<char>> = Vec::new();
    let mut start: usize = 0;
    assert(path@.skip(0) =~= path@);
    while start < path.len()
        invariant
            start <= path.len(),
            components(path@, style) == texts(out@) + components(path@.skip(start as int), style),
        decreases path.len() - start,
    {
        let ghost rest = path@.skip(start as int);
        if style.separates(path[start]) {
            assert(rest.skip(1) =~= path@.skip(start + 1));
            start += 1;
        } else {
            let mut end: usize = start + 1;
            while end < path.len() && !style.separates(path[end])
                invariant
                    start < end <= path.len(),
                    forall|j: int| start <= j < end ==> !style.is_separator(path@[j]),
                decreases path.len() - end,
            {
                end += 1;
            }
            let name = copy_range(path, start, end);
            proof {
                lemma_name_len(rest, style, end - start);
                assert(name@ =~= rest.take(end - start));
                assert(rest.skip(end - start) =~= path@.skip(end as int));
            }
            out.push(name);
            start = end;
        }
    }
    out
}

/// Whether `path` lies at or below `base`.
pub fn starts_with(path: &str, base: &str, style: PathStyle) -> (b: bool)
    ensures
        b == is_path_prefix(base@, path@, style),
{
    let p = chars_of(path);
    let q = chars_of(base);
    let p_rooted = p.len() > 0 && style.separates(p[0]);
    let q_rooted = q.len() > 0 && style.separates(q[0]);
    let ps = split_components(&p, style);
    let qs = split_components(&q, style);
    if p_rooted != q_rooted && (q_rooted || qs.len() > 0) {
        return false;
    }
    if qs.len() > ps.len() {
        return false;
    }
    let ghost want = components(base@, style);
    let ghost have = components(path@, style);
    let mut i: usize = 0;
    while i < qs.len()
        invariant
            i <= qs.len() <= ps.len(),
            want == components(base@, style),
            have == components(path@, style),
            texts(qs@) == want,
            texts(ps@) == have,
            is_rooted(base@, style) == is_rooted(path@, style) || (!is_rooted(base@, style)
                && want.len() == 0),
            forall|j: int| 0 <= j < i ==> want[j] == have[j],
        decreases qs.len() - i,
    {
        if !same_chars(&qs[i], &ps[i]) {
            assert(have.subrange(0, want.len() as int)[i as int] == have[i as int]);
            return false;
        }
        i += 1;
    }
    true
}

/// The name of the file that `path` leads to, if it has one.
pub(crate) fn file_name_chars(path: &Vec<char>, style: PathStyle) -> (name: Option<Vec<char>>)
    ensures
        match file_name(path@, style) {
            Some(n) => name matches Some(v) && v@ == n,
            None => name is None,
        },
{
    let mut parts = split_components(path, style);
    match parts.pop() {
        Some(last) => {
            Some(last)
        },
        None => None,
    }
}

/// `last_dot` is the last index that holds a `.`.
pub proof fn lemma_last_dot(name: Seq<char>, k: int)
    requires
        -1 <= k < name.len(),
        k >= 0 ==> name[k] == '.',
        forall|j: int| k < j < name.len() ==> name[j] != '.',
    ensures
        last_dot(name) == k,
    decreases name.len(),
{
    if name.len() > 0 && name.last() != '.' {
        lemma_last_dot(name.drop_last(), k);
    }
}

/// What follows the last `.` of `name`.
pub(crate) fn extension_of_name(name: &Vec<char>) -> (ext: Vec<char>)
    ensures
        ext@ == after_last_dot(name@),
{
    let mut i: usize = name.len();
    while i > 0 && name[i - 1] != '.'
        invariant
            i <= name.len(),
            forall|j: int| i <= j < name.len() ==> name@[j] != '.',
        decreases i,
    {
        i -= 1;
    }
    proof {
        lemma_last_dot(name@, i - 1);
    }
    if i == 0 {
        Vec::new()
    } else {
        copy_range(name, i, name.len())
    }
}

/// The extension of the file that `path` leads to.
pub(crate) fn extension_chars(path: &Vec<char>, style: PathStyle) -> (ext: Vec<char>)
    ensures
        ext@ == extension(path@, style),
{
    match file_name_chars(path, style) {
        Some(name) => extension_of_name(&name),
        None => Vec::new(),
    }
}

/// The name of the file that `path` leads to: its last component, if it has
/// any.
pub fn file_name_of(path: &str, style: PathStyle) -> (name: Option<String>)
    ensures
        match file_name(path@, style) {
            Some(n) => name matches Some(v) && v@ == n,
            None => name is None,
        },
{
    match file_name_chars(&chars_of(path), style) {
        Some(name) => Some(string_of(&name)),
        None => None,
    }
}

/// The extension of the file that `path` leads to: what follows the last `.`
/// of its name.
pub fn extension_of(path: &str, style: PathStyle) -> (ext: String)
    ensures
        ext@ == extension(path@, style),
{
    string_of(&extension_chars(&chars_of(path), style))
}

/// `c` as a small letter, if it is a letter of `A` to `Z`.
pub(crate) fn to_ascii_lower(c: char) -> (l: char)
    ensures
        l == ascii_lower(c),
{
    if 'A' <= c && c <= 'Z' {
        ((c as u8) + 32u8) as char
    } else {
        c
    }
}

/// `s` with each letter of `A` to `Z` made small.
pub(crate) fn to_lowercase(s: &Vec<char>) -> (out: Vec<char>)
    ensures
        out@ == lowercase(s@),
{
    let mut out: Vec<char> = Vec::new();
    let mut i: usize = 0;
    while i < s.len()
        invariant
            i <= s.len(),
            out@ == lowercase(s@.take(i as int)),
        decreases s.len() - i,
    {
        out.push(to_ascii_lower(s[i]));
        i += 1;
    }
    out
}

/// The path of the entry `leaf` in the directory `base`.
pub fn join_path(base: &str, leaf: &str, style: PathStyle) -> (path: String)
    ensures
        path@ == join(base@, leaf@, style),
{
    let mut out = chars_of(base);
    let n = out.len();
    if n > 0 && !style.separates(out[n - 1]) {
        out.push(style.main_separator());
    }
    let l = chars_of(leaf);
    extend_chars(&mut out, &l);
    string_of(&out)
}

/// The path in the file system that the path of a `file:` address stands for.
pub fn to_local_path(uri_path: &str, style: PathStyle) -> (path: String)
    ensures
        path@ == local_path(uri_path@, style),
{
    let p = chars_of(uri_path);
    let strip = match style {
        PathStyle::Posix => false,
        PathStyle::Windows => p.len() >= 3 && p[0] == '/' && p[2] == ':',
    };
    if strip {
        let rest = copy_range(&p, 1, p.len());
        string_of(&rest)
    } else {
        string_of(&p)
    }
}

} // verus!
