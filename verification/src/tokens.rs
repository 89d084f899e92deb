//! The tokens of a template and their replacement by values.

use crate::text::{chars_of, occurs_at, replace, replace_all, string_of};
use vstd::prelude::*;

verus! {

/// The value of each token, as texts.
pub struct TokenValues {
    pub filename: String,
    pub filepath: String,
    pub date: String,
    pub time: String,
    pub year: String,
    pub author: String,
    pub email: String,
    pub project: String,
    pub copyright_holder: String,
    pub interpreter: String,
}

/// The value of each token, as a mathematical value.
pub struct Bindings {
    pub filename: Seq<char>,
    pub filepath: Seq<char>,
    pub date: Seq<char>,
    pub time: Seq<char>,
    pub year: Seq<char>,
    pub author: Seq<char>,
    pub email: Seq<char>,
    pub project: Seq<char>,
    pub copyright_holder: Seq<char>,
    pub interpreter: Seq<char>,
}

impl View for TokenValues {
    type V = Bindings;

    open spec fn view(&self) -> Bindings {
        Bindings {
            filename: self.filename@,
            filepath: self.filepath@,
            date: self.date@,
            time: self.time@,
            year: self.year@,
            author: self.author@,
            email: self.email@,
            project: self.project@,
            copyright_holder: self.copyright_holder@,
            interpreter: self.interpreter@,
        }
    }
}

/// Whether a text holds no `{`.
pub open spec fn brace_free(s: Seq<char>) -> bool {
    forall|i: int| 0 <= i < s.len() ==> s[i] != '{'
}

/// The tokens, in the order in which they are replaced.
pub open spec fn token_names() -> Seq<Seq<char>> {
    seq![
        "{filename}"@,
        "{filepath}"@,
        "{date}"@,
        "{time}"@,
        "{year}"@,
        "{author}"@,
        "{email}"@,
        "{project}"@,
        "{copyright_holder}"@,
        "{interpreter}"@,
    ]
}

impl Bindings {
    /// The values, in the order of their tokens.
    pub open spec fn values(self) -> Seq<Seq<char>> {
        seq![
            self.filename,
            self.filepath,
            self.date,
            self.time,
            self.year,
            self.author,
            self.email,
            self.project,
            self.copyright_holder,
            self.interpreter,
        ]
    }

    /// Every token with its value, in the order in which tokens are replaced.
    pub open spec fn pairs(self) -> Seq<(Seq<char>, Seq<char>)> {
        Seq::new(token_names().len(), |k: int| (token_names()[k], self.values()[k]))
    }

    /// Whether no value holds a `{`.
    pub open spec fn brace_free(self) -> bool {
        forall|k: int| 0 <= k < self.values().len() ==> brace_free(#[trigger] self.values()[k])
    }
}

/// Whether a token stands in `s` at index `i`.
pub open spec fn token_at(s: Seq<char>, i: int) -> bool {
    exists|k: int| 0 <= k < token_names().len() && occurs_at(s, #[trigger] token_names()[k], i)
}

/// Whether every `{` of `s` begins a token.
pub open spec fn braces_open_tokens(s: Seq<char>) -> bool {
    forall|i: int| 0 <= i < s.len() && s[i] == '{' ==> #[trigger] token_at(s, i)
}

/// `text` after one replacement for each pair of `pairs`, made in their
/// order: each replaces every occurrence of the pair's first text, in what the
/// replacements before it left, by the pair's second.
pub open spec fn replace_each(text: Seq<char>, pairs: Seq<(Seq<char>, Seq<char>)>) -> Seq<char>
    decreases pairs.len(),
{
    if pairs.len() == 0 {
        text
    } else {
        replace_each(replace_all(text, pairs[0].0, pairs[0].1), pairs.skip(1))
    }
}

/// `text` with each token replaced by its value. The tokens are replaced one
/// after the other, in the order of `Bindings::pairs`.
pub open spec fn substitute(text: Seq<char>, values: Bindings) -> Seq<char> {
    replace_each(text, values.pairs())
}

/// The texts of a list of pairs.
pub open spec fn pair_texts(pairs: Seq<(Vec<char>, Vec<char>)>) -> Seq<(Seq<char>, Seq<char>)> {
    Seq::new(pairs.len(), |i: int| (pairs[i].0@, pairs[i].1@))
}

/// `text` after one replacement for each pair of `pairs`, made in their order.
pub(crate) fn replace_in_order(text: Vec<char>, pairs: &Vec<(Vec<char>, Vec<char>)>) -> (out: Vec<
    char,
>)
    ensures
        out@ == replace_each(text@, pair_texts(pairs@)),
{
    let ghost all = pair_texts(pairs@);
    let mut out = text;
    let mut i: usize = 0;
    assert(all.skip(0) =~= all);
    while i < pairs.len()
        invariant
            i <= pairs.len(),
            all == pair_texts(pairs@),
            replace_each(text@, all) == replace_each(out@, all.skip(i as int)),
        decreases pairs.len() - i,
    {
        let ghost rest = all.skip(i as int);
        assert(rest.skip(1) =~= all.skip(i + 1));
        out = replace(&out, &pairs[i].0, &pairs[i].1);
        i += 1;
    }
    out
}

/// `text` with each token replaced by its value.
pub fn substitute_tokens(text: &str, values: &TokenValues) -> (out: String)
    ensures
        out@ == substitute(text@, values@),
{
    string_of(&substitute_chars(chars_of(text), values))
}

/// `text`, given by its characters, with each token replaced by its value.
pub(crate) fn substitute_chars(text: Vec<char>, values: &TokenValues) -> (out: Vec<char>)
    ensures
        out@ == substitute(text@, values@),
{
    let mut pairs: Vec<(Vec<char>, Vec<char>)> = Vec::new();
    pairs.push((chars_of("{filename}"), chars_of(values.filename.as_str())));
    pairs.push((chars_of("{filepath}"), chars_of(values.filepath.as_str())));
    pairs.push((chars_of("{date}"), chars_of(values.date.as_str())));
    pairs.push((chars_of("{time}"), chars_of(values.time.as_str())));
    pairs.push((chars_of("{year}"), chars_of(values.year.as_str())));
    pairs.push((chars_of("{author}"), chars_of(values.author.as_str())));
    pairs.push((chars_of("{email}"), chars_of(values.email.as_str())));
    pairs.push((chars_of("{project}"), chars_of(values.project.as_str())));
    pairs.push((chars_of("{copyright_holder}"), chars_of(values.copyright_holder.as_str())));
    pairs.push((chars_of("{interpreter}"), chars_of(values.interpreter.as_str())));
    assert(pair_texts(pairs@) =~= values@.pairs());
    replace_in_order(text, &pairs)
}

/// Whether `t` begins with a `{` and holds no other.
pub open spec fn opens_with_brace(t: Seq<char>) -> bool {
    &&& t.len() > 0
    &&& t[0] == '{'
    &&& forall|i: int| 0 < i < t.len() ==> t[i] != '{'
}

/// Whether the first text of one of `pairs` stands in `s` at index `i`.
pub open spec fn opens_some(s: Seq<char>, pairs: Seq<(Seq<char>, Seq<char>)>, i: int) -> bool {
    exists|k: int| 0 <= k < pairs.len() && occurs_at(s, (#[trigger] pairs[k]).0, i)
}

/// Whether every `{` of `s` begins an occurrence of the first text of one of
/// `pairs`.
pub open spec fn well_braced(s: Seq<char>, pairs: Seq<(Seq<char>, Seq<char>)>) -> bool {
    forall|i: int| 0 <= i < s.len() && s[i] == '{' ==> #[trigger] opens_some(s, pairs, i)
}

/// Each token begins with a `{` and holds no other.
pub proof fn lemma_tokens_open_with_brace(values: Bindings)
    ensures
        values.pairs().len() == 10,
        forall|k: int| 0 <= k < 10 ==> opens_with_brace((#[trigger] values.pairs()[k]).0),
{
    reveal_strlit("{filename}");
    reveal_strlit("{filepath}");
    reveal_strlit("{date}");
    reveal_strlit("{time}");
    reveal_strlit("{year}");
    reveal_strlit("{author}");
    reveal_strlit("{email}");
    reveal_strlit("{project}");
    reveal_strlit("{copyright_holder}");
    reveal_strlit("{interpreter}");
}

/// A text without `{` holds no occurrence of a text that begins with one: the
/// replacement leaves it as it is.
pub proof fn lemma_replace_all_brace_free(s: Seq<char>, pat: Seq<char>, to: Seq<char>)
    requires
        brace_free(s),
        opens_with_brace(pat),
    ensures
        replace_all(s, pat, to) == s,
    decreases s.len(),
{
    if s.len() >= pat.len() {
        lemma_replace_all_brace_free(s.skip(1), pat, to);
    }
}

/// A text without `{` at the head of `s` is still at the head after the
/// replacement of a text that begins with `{`.
proof fn lemma_replace_all_keeps_head(s: Seq<char>, head: Seq<char>, pat: Seq<char>, to: Seq<char>)
    requires
        brace_free(head),
        opens_with_brace(pat),
        occurs_at(s, head, 0),
    ensures
        occurs_at(replace_all(s, pat, to), head, 0),
    decreases head.len(),
{
    let r = replace_all(s, pat, to);
    if head.len() == 0 {
        assert(r.subrange(0, 0) =~= head);
    } else if s.len() >= pat.len() {
        let tail = s.skip(1);
        let rest = head.skip(1);
        assert(tail.subrange(0, rest.len() as int) =~= rest);
        lemma_replace_all_keeps_head(tail, rest, pat, to);
        let r2 = replace_all(tail, pat, to);
        assert(r.subrange(0, head.len() as int) =~= head) by {
            assert forall|j: int| 0 <= j < head.len() implies r.subrange(0, head.len() as int)[j]
                == head[j] by {
                if j > 0 {
                    assert(r2.subrange(0, rest.len() as int)[j - 1] == rest[j - 1]);
                }
            }
        }
    }
}

/// What stands in `s` at `i` stands in `front + s` at `i` moved by the length
/// of `front`.
pub proof fn lemma_occurs_behind(front: Seq<char>, s: Seq<char>, pat: Seq<char>, i: int)
    requires
        occurs_at(s, pat, i),
    ensures
        occurs_at(front + s, pat, i + front.len()),
{
    assert((front + s).subrange(i + front.len(), i + front.len() + pat.len()) =~= s.subrange(
        i,
        i + pat.len(),
    ));
}

/// What stands in `s` at `i`, at or behind `n`, stands in `s.skip(n)` at
/// `i - n`.
pub proof fn lemma_occurs_in_suffix(s: Seq<char>, pat: Seq<char>, i: int, n: int)
    requires
        0 <= n <= i,
        n <= s.len(),
        occurs_at(s, pat, i),
    ensures
        occurs_at(s.skip(n), pat, i - n),
{
    assert(s.skip(n).subrange(i - n, i - n + pat.len()) =~= s.subrange(i, i + pat.len()));
}

/// A suffix of a well-braced text is well-braced.
pub proof fn lemma_well_braced_suffix(s: Seq<char>, pairs: Seq<(Seq<char>, Seq<char>)>, n: int)
    requires
        0 <= n <= s.len(),
        well_braced(s, pairs),
    ensures
        well_braced(s.skip(n), pairs),
{
    let tail = s.skip(n);
    assert forall|i: int| 0 <= i < tail.len() && tail[i] == '{' implies #[trigger] opens_some(
        tail,
        pairs,
        i,
    ) by {
        assert(opens_some(s, pairs, i + n));
        let k = choose|k: int| 0 <= k < pairs.len() && occurs_at(s, (#[trigger] pairs[k]).0, i + n);
        lemma_occurs_in_suffix(s, pairs[k].0, i + n, n);
    }
}

/// Replacing the first text of the first pair by a value without `{` leaves a
/// text in which every `{` begins the first text of one of the other pairs.
proof fn lemma_replace_all_well_braced(s: Seq<char>, pairs: Seq<(Seq<char>, Seq<char>)>)
    requires
        pairs.len() > 0,
        forall|k: int| 0 <= k < pairs.len() ==> opens_with_brace((#[trigger] pairs[k]).0),
        brace_free(pairs[0].1),
        well_braced(s, pairs),
    ensures
        well_braced(replace_all(s, pairs[0].0, pairs[0].1), pairs.skip(1)),
    decreases s.len(),
{
    let pat = pairs[0].0;
    let to = pairs[0].1;
    let rest = pairs.skip(1);
    let r = replace_all(s, pat, to);
    if s.len() < pat.len() {
        assert forall|i: int| 0 <= i < r.len() && r[i] == '{' implies #[trigger] opens_some(
            r,
            rest,
            i,
        ) by {
            assert(opens_some(s, pairs, i));
            let k = choose|k: int| 0 <= k < pairs.len() && occurs_at(s, (#[trigger] pairs[k]).0, i);
            assert(rest[k - 1] == pairs[k]);
        }
    } else if occurs_at(s, pat, 0) {
        let tail = s.skip(pat.len() as int);
        lemma_well_braced_suffix(s, pairs, pat.len() as int);
        lemma_replace_all_well_braced(tail, pairs);
        let r2 = replace_all(tail, pat, to);
        assert forall|i: int| 0 <= i < r.len() && r[i] == '{' implies #[trigger] opens_some(
            r,
            rest,
            i,
        ) by {
            if i >= to.len() {
                let j = i - to.len();
                assert(opens_some(r2, rest, j));
                let k = choose|k: int|
                    0 <= k < rest.len() && occurs_at(r2, (#[trigger] rest[k]).0, j);
                lemma_occurs_behind(to, r2, rest[k].0, j);
            }
        }
    } else {
        let tail = s.skip(1);
        lemma_well_braced_suffix(s, pairs, 1);
        lemma_replace_all_well_braced(tail, pairs);
        let r2 = replace_all(tail, pat, to);
        assert forall|i: int| 0 <= i < r.len() && r[i] == '{' implies #[trigger] opens_some(
            r,
            rest,
            i,
        ) by {
            if i >= 1 {
                let j = i - 1;
                assert(opens_some(r2, rest, j));
                let k = choose|k: int|
                    0 <= k < rest.len() && occurs_at(r2, (#[trigger] rest[k]).0, j);
                lemma_occurs_behind(seq![s[0]], r2, rest[k].0, j);
            } else {
                assert(opens_some(s, pairs, 0));
                let k = choose|k: int|
                    0 <= k < pairs.len() && occurs_at(s, (#[trigger] pairs[k]).0, 0);
                let t = pairs[k].0;
                let head = t.skip(1);
                assert(tail.subrange(0, head.len() as int) =~= head);
                lemma_replace_all_keeps_head(tail, head, pat, to);
                assert(r.subrange(0, t.len() as int) =~= t) by {
                    assert forall|j: int| 0 <= j < t.len() implies r.subrange(0, t.len() as int)[j]
                        == t[j] by {
                        if j > 0 {
                            assert(r2.subrange(0, head.len() as int)[j - 1] == head[j - 1]);
                        }
                    }
                }
                assert(occurs_at(r, rest[k - 1].0, 0));
            }
        }
    }
}

/// Whether the second text of no pair holds a `{`.
pub open spec fn values_brace_free(pairs: Seq<(Seq<char>, Seq<char>)>) -> bool {
    forall|k: int| 0 <= k < pairs.len() ==> brace_free((#[trigger] pairs[k]).1)
}

/// Whether the first text of every pair begins with a `{` and holds no other.
pub open spec fn keys_open_with_brace(pairs: Seq<(Seq<char>, Seq<char>)>) -> bool {
    forall|k: int| 0 <= k < pairs.len() ==> opens_with_brace((#[trigger] pairs[k]).0)
}

/// When every `{` of a text begins one of the texts to replace, and no value
/// holds a `{`, the replacements leave no `{`.
pub proof fn lemma_replace_each_brace_free(text: Seq<char>, pairs: Seq<(Seq<char>, Seq<char>)>)
    requires
        keys_open_with_brace(pairs),
        values_brace_free(pairs),
        well_braced(text, pairs),
    ensures
        brace_free(replace_each(text, pairs)),
    decreases pairs.len(),
{
    if pairs.len() == 0 {
        assert forall|i: int| 0 <= i < text.len() implies text[i] != '{' by {
            if text[i] == '{' {
                assert(opens_some(text, pairs, i));
            }
        }
    } else {
        lemma_replace_all_well_braced(text, pairs);
        let rest = pairs.skip(1);
        lemma_replace_each_brace_free(replace_all(text, pairs[0].0, pairs[0].1), rest);
    }
}

/// Replacements of texts that begin with `{` leave a text without `{` as it
/// is.
pub proof fn lemma_replace_each_fixed(text: Seq<char>, pairs: Seq<(Seq<char>, Seq<char>)>)
    requires
        keys_open_with_brace(pairs),
        brace_free(text),
    ensures
        replace_each(text, pairs) == text,
    decreases pairs.len(),
{
    if pairs.len() > 0 {
        lemma_replace_all_brace_free(text, pairs[0].0, pairs[0].1);
        let rest = pairs.skip(1);
        lemma_replace_each_fixed(text, rest);
    }
}

/// Substitution is idempotent on a text in which every `{` begins a token,
/// when no value holds a `{`: the result holds no `{`, and a second
/// substitution leaves it as it is.
pub proof fn lemma_substitute_idempotent(text: Seq<char>, values: Bindings)
    requires
        values.brace_free(),
        well_braced(text, values.pairs()),
    ensures
        brace_free(substitute(text, values)),
        substitute(substitute(text, values), values) == substitute(text, values),
{
    lemma_tokens_open_with_brace(values);
    let p = values.pairs();
    lemma_replace_each_brace_free(text, p);
    lemma_replace_each_fixed(substitute(text, values), p);
}

} // verus!
