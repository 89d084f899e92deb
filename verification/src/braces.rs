//! Where a `{` can stand in a header. Wrapping a template in a comment keeps
//! every token whole, and the texts that the library itself writes hold no
//! `{`; so a header made from values without `{`, of a template in which
//! every `{` begins a token, holds no `{` at all, and substituting once more
//! changes nothing.

use crate::clock::{is_digit, StampView};
use crate::comment::{shown_line, shown_lines, syntax_for, CommentSyntax};
use crate::config::ConfigView;
use crate::path::{components, extension, lemma_name_len_bounds, name_len, PathStyle};
use crate::render::{bindings, header, interpreter_of, template_body, template_for_file};
use crate::text::{is_blank, lemma_line_end_at_feed, line_end, lines, occurs_at, strip_cr};
use crate::tokens::{brace_free, braces_open_tokens, opens_some, substitute, token_at};
use crate::tokens::{lemma_occurs_behind, lemma_substitute_idempotent, lemma_well_braced_suffix};
use crate::tokens::{token_names, well_braced, Bindings};
use vstd::prelude::*;

verus! {

/// Whether a text holds neither a line feed nor a carriage return.
pub open spec fn single_line(t: Seq<char>) -> bool {
    forall|i: int| 0 <= i < t.len() ==> t[i] != '\n' && t[i] != '\r'
}

/// Whether the first text of every pair stays within one line.
pub open spec fn keys_single_line(pairs: Seq<(Seq<char>, Seq<char>)>) -> bool {
    forall|k: int| 0 <= k < pairs.len() ==> single_line((#[trigger] pairs[k]).0)
}

impl CommentSyntax {
    /// Whether none of the markers holds a `{`.
    pub open spec fn markers_brace_free(self) -> bool {
        match self {
            CommentSyntax::Block { start, end, line_prefix } => brace_free(start) && brace_free(end)
                && brace_free(line_prefix),
            CommentSyntax::Line { prefix } => brace_free(prefix),
            CommentSyntax::LineWithShebang { prefix, shebang } => brace_free(prefix) && brace_free(
                shebang,
            ),
            CommentSyntax::PythonDoc => true,
            CommentSyntax::HtmlComment => true,
        }
    }
}

impl ConfigView {
    /// Whether neither the author's name and address nor the project's name
    /// and copyright holder hold a `{`.
    pub open spec fn values_brace_free(self) -> bool {
        &&& brace_free(self.author_name)
        &&& brace_free(self.author_email)
        &&& brace_free(self.project_name)
        &&& brace_free(self.copyright_holder)
    }
}

impl StampView {
    /// Whether none of the three texts holds a `{`.
    pub open spec fn brace_free(self) -> bool {
        &&& brace_free(self.date)
        &&& brace_free(self.time)
        &&& brace_free(self.year)
    }
}

/// A text in which every `{` begins a token is well-braced for the pairs of
/// any values.
pub proof fn lemma_tokens_well_braced(s: Seq<char>, values: Bindings)
    requires
        braces_open_tokens(s),
    ensures
        well_braced(s, values.pairs()),
{
    let pairs = values.pairs();
    assert forall|i: int| 0 <= i < s.len() && s[i] == '{' implies #[trigger] opens_some(
        s,
        pairs,
        i,
    ) by {
        assert(token_at(s, i));
        let k = choose|k: int|
            0 <= k < token_names().len() && occurs_at(s, #[trigger] token_names()[k], i);
        assert(pairs[k].0 == token_names()[k]);
    }
}

/// No token holds a line feed or a carriage return.
pub proof fn lemma_tokens_single_line(values: Bindings)
    ensures
        keys_single_line(values.pairs()),
{
    reveal_strlit("{filename}");
    reveal_strlit("{filepath}");
    reveal_strlit("{date}");
    reveal_strlit("{time}");
    reveal_strlit("{year}");
    reveal_strlit("{author}");
    reveal_strlit("{email}");
    reveal_strlit("{project}");
    reveal_strlit("{copyright_holder}");
    reveal_strlit("{interpreter}");
}

/// Two well-braced texts, one behind the other, are well-braced.
pub proof fn lemma_well_braced_concat(
    a: Seq<char>,
    b: Seq<char>,
    pairs: Seq<(Seq<char>, Seq<char>)>,
)
    requires
        well_braced(a, pairs),
        well_braced(b, pairs),
    ensures
        well_braced(a + b, pairs),
{
    let s = a + b;
    assert forall|i: int| 0 <= i < s.len() && s[i] == '{' implies #[trigger] opens_some(
        s,
        pairs,
        i,
    ) by {
        if i < a.len() {
            assert(opens_some(a, pairs, i));
            let k = choose|k: int| 0 <= k < pairs.len() && occurs_at(a, (#[trigger] pairs[k]).0, i);
            let t = pairs[k].0;
            assert(s.subrange(i, i + t.len()) =~= a.subrange(i, i + t.len()));
        } else {
            let j = i - a.len();
            assert(opens_some(b, pairs, j));
            let k = choose|k: int| 0 <= k < pairs.len() && occurs_at(b, (#[trigger] pairs[k]).0, j);
            lemma_occurs_behind(a, b, pairs[k].0, j);
        }
    }
}

/// A text without `{` is well-braced.
pub proof fn lemma_brace_free_well_braced(s: Seq<char>, pairs: Seq<(Seq<char>, Seq<char>)>)
    requires
        brace_free(s),
    ensures
        well_braced(s, pairs),
{
}

/// A token that begins in a line ends in it: what stands before a line feed
/// of a well-braced text, without the carriage return at its end, is
/// well-braced.
proof fn lemma_line_well_braced(s: Seq<char>, n: int, pairs: Seq<(Seq<char>, Seq<char>)>)
    requires
        0 <= n < s.len(),
        s[n] == '\n',
        well_braced(s, pairs),
        keys_single_line(pairs),
    ensures
        well_braced(strip_cr(s.take(n)), pairs),
{
    let l = strip_cr(s.take(n));
    assert forall|i: int| 0 <= i < l.len() && l[i] == '{' implies #[trigger] opens_some(
        l,
        pairs,
        i,
    ) by {
        assert(opens_some(s, pairs, i));
        let k = choose|k: int| 0 <= k < pairs.len() && occurs_at(s, (#[trigger] pairs[k]).0, i);
        let t = pairs[k].0;
        if i + t.len() > l.len() {
            let j = l.len() - i;
            assert(s.subrange(i, i + t.len())[j] == t[j]);
        }
        assert(l.subrange(i, i + t.len()) =~= s.subrange(i, i + t.len()));
    }
}

/// Every line of a well-braced text is well-braced.
pub proof fn lemma_lines_well_braced(s: Seq<char>, pairs: Seq<(Seq<char>, Seq<char>)>)
    requires
        well_braced(s, pairs),
        keys_single_line(pairs),
    ensures
        forall|k: int| 0 <= k < lines(s).len() ==> well_braced(#[trigger] lines(s)[k], pairs),
    decreases s.len(),
{
    lemma_line_end_at_feed(s);
    let n = line_end(s);
    if s.len() > 0 && n < s.len() {
        let rest = s.skip(n + 1);
        lemma_line_well_braced(s, n, pairs);
        lemma_well_braced_suffix(s, pairs, n + 1);
        lemma_lines_well_braced(rest, pairs);
        assert forall|k: int| 0 <= k < lines(s).len() implies well_braced(
            #[trigger] lines(s)[k],
            pairs,
        ) by {
            if k > 0 {
                assert(lines(s)[k] == lines(rest)[k - 1]);
            }
        }
    }
}

/// Well-braced lines are well-braced as a comment shows them, when what the
/// comment puts before them holds no `{`.
proof fn lemma_shown_lines_well_braced(
    bare: Seq<char>,
    lead: Seq<char>,
    ls: Seq<Seq<char>>,
    pairs: Seq<(Seq<char>, Seq<char>)>,
)
    requires
        brace_free(bare),
        brace_free(lead),
        forall|k: int| 0 <= k < ls.len() ==> well_braced(#[trigger] ls[k], pairs),
    ensures
        well_braced(shown_lines(bare, lead, ls), pairs),
    decreases ls.len(),
{
    if ls.len() > 0 {
        let init = ls.drop_last();
        let l = ls.last();
        let feed = seq!['\n'];
        lemma_shown_lines_well_braced(bare, lead, init, pairs);
        if !is_blank(l) {
            lemma_brace_free_well_braced(lead, pairs);
            lemma_brace_free_well_braced(feed, pairs);
            lemma_well_braced_concat(lead, l, pairs);
            lemma_well_braced_concat(lead + l, feed, pairs);
        }
        lemma_well_braced_concat(shown_lines(bare, lead, init), shown_line(bare, lead, l), pairs);
    }
}

/// A well-braced text between two texts without `{` is well-braced.
proof fn lemma_framed_well_braced(
    front: Seq<char>,
    inner: Seq<char>,
    back: Seq<char>,
    pairs: Seq<(Seq<char>, Seq<char>)>,
)
    requires
        brace_free(front),
        brace_free(back),
        well_braced(inner, pairs),
    ensures
        well_braced(front + inner + back, pairs),
{
    lemma_brace_free_well_braced(front, pairs);
    lemma_brace_free_well_braced(back, pairs);
    lemma_well_braced_concat(front, inner, pairs);
    lemma_well_braced_concat(front + inner, back, pairs);
}

/// Wrapping keeps tokens whole: the comment around a well-braced body is
/// well-braced, when no marker of the syntax holds a `{`.
pub proof fn lemma_wrap_well_braced(
    syntax: CommentSyntax,
    content: Seq<char>,
    pairs: Seq<(Seq<char>, Seq<char>)>,
)
    requires
        syntax.markers_brace_free(),
        keys_single_line(pairs),
        well_braced(content, pairs),
    ensures
        well_braced(syntax.wrap(content), pairs),
{
    reveal_strlit("# -*- coding: utf-8 -*-\n\"\"\"\n");
    reveal_strlit("\n\"\"\"\n\n");
    reveal_strlit("<!--\n");
    reveal_strlit("-->\n\n");
    reveal_strlit("  ");
    let ls = lines(content);
    let space = seq![' '];
    let feed = seq!['\n'];
    let feeds = seq!['\n', '\n'];
    lemma_lines_well_braced(content, pairs);
    match syntax {
        CommentSyntax::Block { start, end, line_prefix } => {
            lemma_shown_lines_well_braced(line_prefix, line_prefix + space, ls, pairs);
            let inner = shown_lines(line_prefix, line_prefix + space, ls);
            lemma_framed_well_braced(start + feed, inner, space + end + feeds, pairs);
            assert(syntax.wrap(content) =~= (start + feed) + inner + (space + end + feeds));
        },
        CommentSyntax::Line { prefix } => {
            lemma_shown_lines_well_braced(prefix, prefix + space, ls, pairs);
            let inner = shown_lines(prefix, prefix + space, ls);
            lemma_framed_well_braced(Seq::empty(), inner, feed, pairs);
        },
        CommentSyntax::LineWithShebang { prefix, shebang } => {
            lemma_shown_lines_well_braced(prefix, prefix + space, ls, pairs);
            let inner = shown_lines(prefix, prefix + space, ls);
            lemma_framed_well_braced(shebang + feed + prefix + feed, inner, prefix + feeds, pairs);
            assert(syntax.wrap(content) =~= (shebang + feed + prefix + feed) + inner + (prefix
                + feeds));
        },
        CommentSyntax::PythonDoc => {
            lemma_framed_well_braced(
                "# -*- coding: utf-8 -*-\n\"\"\"\n"@,
                content,
                "\n\"\"\"\n\n"@,
                pairs,
            );
        },
        CommentSyntax::HtmlComment => {
            lemma_shown_lines_well_braced(Seq::empty(), "  "@, ls, pairs);
            let inner = shown_lines(Seq::empty(), "  "@, ls);
            lemma_framed_well_braced("<!--\n"@, inner, "-->\n\n"@, pairs);
        },
    }
}

/// No marker of a syntax of the table holds a `{`.
pub proof fn lemma_table_markers_brace_free(ext: Seq<char>)
    ensures
        syntax_for(ext).markers_brace_free(),
{
    reveal_strlit("/*");
    reveal_strlit("*/");
    reveal_strlit(" *");
    reveal_strlit("#");
    reveal_strlit("#!/usr/bin/env bash");
    reveal_strlit("#!/usr/bin/env fish");
    reveal_strlit("#!/usr/bin/env ruby");
    reveal_strlit("#!/usr/bin/env perl");
    reveal_strlit("#!/usr/bin/env Rscript");
    reveal_strlit("#!/usr/bin/env julia");
    reveal_strlit("--");
    reveal_strlit("--[[");
    reveal_strlit("--]]");
    reveal_strlit("");
    reveal_strlit(";;;;");
    reveal_strlit("%%");
    reveal_strlit("\"");
    reveal_strlit("//");
}

/// No name of an interpreter holds a `{`.
pub proof fn lemma_interpreter_brace_free(ext: Seq<char>)
    ensures
        brace_free(interpreter_of(ext)),
{
    reveal_strlit("python3");
    reveal_strlit("ruby");
    reveal_strlit("perl");
    reveal_strlit("sh");
    reveal_strlit("bash");
    reveal_strlit("zsh");
    reveal_strlit("fish");
    reveal_strlit("Rscript");
    reveal_strlit("julia");
    reveal_strlit("");
}

/// No component of a path without `{` holds one.
pub proof fn lemma_components_brace_free(path: Seq<char>, style: PathStyle)
    requires
        brace_free(path),
    ensures
        forall|k: int|
            0 <= k < components(path, style).len() ==> brace_free(
                #[trigger] components(path, style)[k],
            ),
    decreases path.len(),
{
    let parts = components(path, style);
    if path.len() > 0 && style.is_separator(path[0]) {
        lemma_components_brace_free(path.skip(1), style);
        assert(parts == components(path.skip(1), style));
    } else if path.len() > 0 {
        lemma_name_len_bounds(path, style);
        let rest = path.skip(name_len(path, style));
        lemma_components_brace_free(rest, style);
        assert forall|k: int| 0 <= k < parts.len() implies brace_free(#[trigger] parts[k]) by {
            if k > 0 {
                assert(parts[k] == components(rest, style)[k - 1]);
            }
        }
    }
}

/// The texts of a date, a time and a year hold no `{`.
pub proof fn lemma_calendar_brace_free(stamp: StampView)
    requires
        stamp.is_calendar(),
    ensures
        stamp.brace_free(),
{
    let year = stamp.year;
    assert forall|i: int| 0 <= i < year.len() implies year[i] != '{' by {
        if year.len() != 4 && i > 0 {
            assert(is_digit(year.skip(1)[i - 1]));
        }
    }
    let date = stamp.date;
    let n = date.len() as int;
    let y = date.take(n - 6);
    assert forall|i: int| 0 <= i < date.len() implies date[i] != '{' by {
        if i < n - 6 {
            assert(date[i] == y[i]);
            if y.len() != 4 && i > 0 {
                assert(is_digit(y.skip(1)[i - 1]));
            }
        }
    }
}

/// No value of a token holds a `{` where the configuration's values, the
/// path and the stamp hold none.
pub proof fn lemma_bindings_brace_free(
    config: ConfigView,
    path: Seq<char>,
    stamp: StampView,
    style: PathStyle,
)
    requires
        config.values_brace_free(),
        brace_free(path),
        stamp.brace_free(),
    ensures
        bindings(config, path, stamp, style).brace_free(),
{
    reveal_strlit("unknown");
    lemma_components_brace_free(path, style);
    lemma_interpreter_brace_free(extension(path, style));
}

/// A header is a fixed point of substitution: where neither the
/// configuration's values nor the path nor the stamp hold a `{`, and every `{`
/// of the template chosen for the file begins a token, the header holds no
/// `{`, and substituting the same values into it once more leaves it as it
/// is.
pub proof fn lemma_header_idempotent(
    config: ConfigView,
    path: Seq<char>,
    stamp: StampView,
    style: PathStyle,
)
    requires
        config.values_brace_free(),
        brace_free(path),
        stamp.brace_free(),
        braces_open_tokens(template_body(config, extension(path, style))),
    ensures
        brace_free(header(config, path, stamp, style)),
        substitute(header(config, path, stamp, style), bindings(config, path, stamp, style))
            == header(config, path, stamp, style),
{
    let values = bindings(config, path, stamp, style);
    let ext = extension(path, style);
    let body = template_body(config, ext);
    lemma_bindings_brace_free(config, path, stamp, style);
    lemma_tokens_well_braced(body, values);
    lemma_tokens_single_line(values);
    lemma_table_markers_brace_free(ext);
    lemma_wrap_well_braced(syntax_for(ext), body, values.pairs());
    lemma_substitute_idempotent(template_for_file(config, path, style), values);
}

} // verus!
