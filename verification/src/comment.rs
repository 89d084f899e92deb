//! Comment syntax: which syntax a file extension calls for, and how a template
//! body is wrapped into a comment of that syntax.

use crate::text::{
    blank, chars_of, extend_chars, extend_str, is_blank, lines, same_text, split_lines, string_of,
    texts,
};
use vstd::prelude::*;

verus! {

/// The comment syntax of a language. Every value in use is a constant of the
/// table in `for_extension`; none carries text from a configuration.
#[derive(Debug, Clone, Copy, PartialEq, Eq)]
pub enum CommentStyle {
    /// A block comment between a start and an end marker, such as `/* ... */`.
    Block { start: &'static str, end: &'static str, line_prefix: &'static str },
    /// A run of line comments, each behind a prefix such as `#` or `//`.
    Line { prefix: &'static str },
    /// Line comments below an interpreter line.
    LineWithShebang { prefix: &'static str, shebang: &'static str },
    /// An encoding declaration followed by a docstring.
    PythonDoc,
    /// A comment between `<!--` and `-->`.
    HtmlComment,
}

/// A comment syntax as a mathematical value: the texts of its markers.
pub enum CommentSyntax {
    Block { start: Seq<char>, end: Seq<char>, line_prefix: Seq<char> },
    Line { prefix: Seq<char> },
    LineWithShebang { prefix: Seq<char>, shebang: Seq<char> },
    PythonDoc,
    HtmlComment,
}

impl View for CommentStyle {
    type V = CommentSyntax;

    open spec fn view(&self) -> CommentSyntax {
        match *self {
            CommentStyle::Block { start, end, line_prefix } => CommentSyntax::Block {
                start: start@,
                end: end@,
                line_prefix: line_prefix@,
            },
            CommentStyle::Line { prefix } => CommentSyntax::Line { prefix: prefix@ },
            CommentStyle::LineWithShebang { prefix, shebang } => CommentSyntax::LineWithShebang {
                prefix: prefix@,
                shebang: shebang@,
            },
            CommentStyle::PythonDoc => CommentSyntax::PythonDoc,
            CommentStyle::HtmlComment => CommentSyntax::HtmlComment,
        }
    }
}

/// The block comment of the C family.
pub open spec fn c_block() -> CommentSyntax {
    CommentSyntax::Block { start: "/*"@, end: "*/"@, line_prefix: " *"@ }
}

/// Line comments behind `#`, below the interpreter line `shebang`.
pub open spec fn script(shebang: Seq<char>) -> CommentSyntax {
    CommentSyntax::LineWithShebang { prefix: "#"@, shebang }
}

/// Line comments behind `prefix`.
pub open spec fn line_comments(prefix: Seq<char>) -> CommentSyntax {
    CommentSyntax::Line { prefix }
}

/// The comment syntax of each known file extension. The match is exact; an
/// extension that the table does not hold gets line comments behind `#`.
pub open spec fn syntax_for(ext: Seq<char>) -> CommentSyntax {
    if ext == "c"@ || ext == "h"@ || ext == "cpp"@ || ext == "hpp"@ || ext == "cc"@ || ext == "hh"@
        || ext == "cxx"@ || ext == "hxx"@ {
        c_block()
    } else if ext == "cs"@ || ext == "java"@ || ext == "js"@ || ext == "jsx"@ || ext == "ts"@
        || ext == "tsx"@ || ext == "rs"@ || ext == "scala"@ || ext == "kt"@ || ext == "kts"@
        || ext == "swift"@ || ext == "go"@ || ext == "m"@ || ext == "mm"@ {
        c_block()
    } else if ext == "css"@ || ext == "scss"@ || ext == "sass"@ || ext == "less"@ {
        c_block()
    } else if ext == "py"@ || ext == "pyw"@ || ext == "pyx"@ {
        CommentSyntax::PythonDoc
    } else if ext == "sh"@ || ext == "bash"@ || ext == "zsh"@ {
        script("#!/usr/bin/env bash"@)
    } else if ext == "fish"@ {
        script("#!/usr/bin/env fish"@)
    } else if ext == "rb"@ {
        script("#!/usr/bin/env ruby"@)
    } else if ext == "pl"@ || ext == "pm"@ {
        script("#!/usr/bin/env perl"@)
    } else if ext == "r"@ || ext == "R"@ {
        script("#!/usr/bin/env Rscript"@)
    } else if ext == "jl"@ {
        script("#!/usr/bin/env julia"@)
    } else if ext == "yaml"@ || ext == "yml"@ || ext == "toml"@ || ext == "ini"@ || ext == "conf"@
        || ext == "cfg"@ {
        line_comments("#"@)
    } else if ext == "html"@ || ext == "htm"@ || ext == "xml"@ || ext == "svg"@ || ext
        == "xhtml"@ {
        CommentSyntax::HtmlComment
    } else if ext == "sql"@ {
        line_comments("--"@)
    } else if ext == "lua"@ || ext == "hs"@ || ext == "lhs"@ {
        CommentSyntax::Block { start: "--[["@, end: "--]]"@, line_prefix: ""@ }
    } else if ext == "lisp"@ || ext == "cl"@ || ext == "scm"@ || ext == "clj"@ || ext == "cljs"@ {
        line_comments(";;;;"@)
    } else if ext == "erl"@ || ext == "hrl"@ || ext == "ex"@ || ext == "exs"@ {
        line_comments("%%"@)
    } else if ext == "vim"@ {
        line_comments("\""@)
    } else if ext == "v"@ || ext == "vh"@ || ext == "sv"@ || ext == "svh"@ {
        line_comments("//"@)
    } else {
        line_comments("#"@)
    }
}

/// One line of a body as a comment shows it: `bare` for a blank line, which
/// loses its white space, and `lead` and the line for any other; then a line
/// feed.
pub open spec fn shown_line(bare: Seq<char>, lead: Seq<char>, l: Seq<char>) -> Seq<char> {
    if is_blank(l) {
        bare + seq!['\n']
    } else {
        lead + l + seq!['\n']
    }
}

/// The lines `ls` as a comment shows them, one after the other.
pub open spec fn shown_lines(bare: Seq<char>, lead: Seq<char>, ls: Seq<Seq<char>>) -> Seq<char>
    decreases ls.len(),
{
    if ls.len() == 0 {
        Seq::empty()
    } else {
        shown_lines(bare, lead, ls.drop_last()) + shown_line(bare, lead, ls.last())
    }
}

impl CommentSyntax {
    /// The comment that holds `content`; it ends in an empty line.
    ///
    /// - A block comment opens with its start marker on a line of its own.
    ///   Each line of the content stands behind the line prefix and one space,
    ///   a blank line as the bare prefix. A space and the end marker close it.
    /// - Line comments put each line behind the prefix and one space, and the
    ///   bare prefix on a blank line.
    /// - Below an interpreter line, the line comments stand between two lines
    ///   of the bare prefix.
    /// - A docstring takes the content as it is, not line by line, between an
    ///   encoding declaration with the opening quotes and the closing quotes.
    /// - An HTML comment indents each line by two spaces and leaves a blank
    ///   line empty, between `<!--` and `-->`.
    pub open spec fn wrap(self, content: Seq<char>) -> Seq<char> {
        let ls = lines(content);
        match self {
            CommentSyntax::Block { start, end, line_prefix } => start + seq!['\n'] + shown_lines(
                line_prefix,
                line_prefix + seq![' '],
                ls,
            ) + seq![' '] + end + seq!['\n', '\n'],
            CommentSyntax::Line { prefix } => shown_lines(prefix, prefix + seq![' '], ls)
                + seq!['\n'],
            CommentSyntax::LineWithShebang { prefix, shebang } => shebang + seq!['\n'] + prefix
                + seq!['\n'] + shown_lines(prefix, prefix + seq![' '], ls) + prefix + seq![
                '\n',
                '\n',
            ],
            CommentSyntax::PythonDoc => "# -*- coding: utf-8 -*-\n\"\"\"\n"@ + content
                + "\n\"\"\"\n\n"@,
            CommentSyntax::HtmlComment => "<!--\n"@ + shown_lines(Seq::empty(), "  "@, ls)
                + "-->\n\n"@,
        }
    }
}

impl CommentStyle {
    /// The comment style for a file extension.
    pub fn for_extension(ext: &str) -> (style: CommentStyle)
        ensures
            style@ == syntax_for(ext@),
    {
        let e = chars_of(ext);
        let c_block = CommentStyle::Block { start: "/*", end: "*/", line_prefix: " *" };
        if same_text(&e, "c") || same_text(&e, "h") || same_text(&e, "cpp") || same_text(&e, "hpp")
            || same_text(&e, "cc") || same_text(&e, "hh") || same_text(&e, "cxx") || same_text(
            &e,
            "hxx",
        ) {
            c_block
        } else if same_text(&e, "cs") || same_text(&e, "java") || same_text(&e, "js") || same_text(
            &e,
            "jsx",
        ) || same_text(&e, "ts") || same_text(&e, "tsx") || same_text(&e, "rs") || same_text(
            &e,
            "scala",
        ) || same_text(&e, "kt") || same_text(&e, "kts") || same_text(&e, "swift") || same_text(
            &e,
            "go",
        ) || same_text(&e, "m") || same_text(&e, "mm") {
            c_block
        } else if same_text(&e, "css") || same_text(&e, "scss") || same_text(&e, "sass")
            || same_text(&e, "less") {
            c_block
        } else if same_text(&e, "py") || same_text(&e, "pyw") || same_text(&e, "pyx") {
            CommentStyle::PythonDoc
        } else if same_text(&e, "sh") || same_text(&e, "bash") || same_text(&e, "zsh") {
            CommentStyle::LineWithShebang { prefix: "#", shebang: "#!/usr/bin/env bash" }
        } else if same_text(&e, "fish") {
            CommentStyle::LineWithShebang { prefix: "#", shebang: "#!/usr/bin/env fish" }
        } else if same_text(&e, "rb") {
            CommentStyle::LineWithShebang { prefix: "#", shebang: "#!/usr/bin/env ruby" }
        } else if same_text(&e, "pl") || same_text(&e, "pm") {
            CommentStyle::LineWithShebang { prefix: "#", shebang: "#!/usr/bin/env perl" }
        } else if same_text(&e, "r") || same_text(&e, "R") {
            CommentStyle::LineWithShebang { prefix: "#", shebang: "#!/usr/bin/env Rscript" }
        } else if same_text(&e, "jl") {
            CommentStyle::LineWithShebang { prefix: "#", shebang: "#!/usr/bin/env julia" }
        } else if same_text(&e, "yaml") || same_text(&e, "yml") || same_text(&e, "toml")
            || same_text(&e, "ini") || same_text(&e, "conf") || same_text(&e, "cfg") {
            CommentStyle::Line { prefix: "#" }
        } else if same_text(&e, "html") || same_text(&e, "htm") || same_text(&e, "xml")
            || same_text(&e, "svg") || same_text(&e, "xhtml") {
            CommentStyle::HtmlComment
        } else if same_text(&e, "sql") {
            CommentStyle::Line { prefix: "--" }
        } else if same_text(&e, "lua") || same_text(&e, "hs") || same_text(&e, "lhs") {
            CommentStyle::Block { start: "--[[", end: "--]]", line_prefix: "" }
        } else if same_text(&e, "lisp") || same_text(&e, "cl") || same_text(&e, "scm")
            || same_text(&e, "clj") || same_text(&e, "cljs") {
            CommentStyle::Line { prefix: ";;;;" }
        } else if same_text(&e, "erl") || same_text(&e, "hrl") || same_text(&e, "ex") || same_text(
            &e,
            "exs",
        ) {
            CommentStyle::Line { prefix: "%%" }
        } else if same_text(&e, "vim") {
            CommentStyle::Line { prefix: "\"" }
        } else if same_text(&e, "v") || same_text(&e, "vh") || same_text(&e, "sv") || same_text(
            &e,
            "svh",
        ) {
            CommentStyle::Line { prefix: "//" }
        } else {
            CommentStyle::Line { prefix: "#" }
        }
    }

    /// Wraps `content` in a comment of this style.
    pub fn wrap(&self, content: &str) -> (out: String)
        ensures
            out@ == self@.wrap(content@),
    {
        let text = chars_of(content);
        let wrapped = self.wrap_chars(&text);
        string_of(&wrapped)
    }

    /// Wraps `content`, given by its characters, in a comment of this style.
    pub(crate) fn wrap_chars(&self, content: &Vec<char>) -> (out: Vec<char>)
        ensures
            out@ == self@.wrap(content@),
    {
        let mut out: Vec<char> = Vec::new();
        match *self {
            CommentStyle::Block { start, end, line_prefix } => {
                let bare = chars_of(line_prefix);
                let lead = with_space(line_prefix);
                extend_str(&mut out, start);
                out.push('\n');
                push_lines(&mut out, &bare, &lead, &split_lines(content));
                out.push(' ');
                extend_str(&mut out, end);
                out.push('\n');
                out.push('\n');
            },
            CommentStyle::Line { prefix } => {
                let bare = chars_of(prefix);
                let lead = with_space(prefix);
                push_lines(&mut out, &bare, &lead, &split_lines(content));
                out.push('\n');
            },
            CommentStyle::LineWithShebang { prefix, shebang } => {
                let bare = chars_of(prefix);
                let lead = with_space(prefix);
                extend_str(&mut out, shebang);
                out.push('\n');
                extend_chars(&mut out, &bare);
                out.push('\n');
                push_lines(&mut out, &bare, &lead, &split_lines(content));
                extend_chars(&mut out, &bare);
                out.push('\n');
                out.push('\n');
            },
            CommentStyle::PythonDoc => {
                extend_str(&mut out, "# -*- coding: utf-8 -*-\n\"\"\"\n");
                extend_chars(&mut out, content);
                extend_str(&mut out, "\n\"\"\"\n\n");
            },
            CommentStyle::HtmlComment => {
                let bare: Vec<char> = Vec::new();
                let lead = chars_of("  ");
                extend_str(&mut out, "<!--\n");
                push_lines(&mut out, &bare, &lead, &split_lines(content));
                extend_str(&mut out, "-->\n\n");
            },
        }
        out
    }
}

/// The characters of `prefix` and one space behind them.
fn with_space(prefix: &str) -> (lead: Vec<char>)
    ensures
        lead@ == prefix@ + seq![' '],
{
    let mut lead = chars_of(prefix);
    lead.push(' ');
    lead
}

/// Appends the lines `ls`, as a comment shows them, to `out`.
fn push_lines(out: &mut Vec<char>, bare: &Vec<char>, lead: &Vec<char>, ls: &Vec<Vec<char>>)
    ensures
        final(out)@ == old(out)@ + shown_lines(bare@, lead@, texts(ls@)),
{
    let mut i: usize = 0;
    while i < ls.len()
        invariant
            i <= ls.len(),
            out@ == old(out)@ + shown_lines(bare@, lead@, texts(ls@).take(i as int)),
        decreases ls.len() - i,
    {
        if blank(&ls[i]) {
            extend_chars(out, bare);
        } else {
            extend_chars(out, lead);
            extend_chars(out, &ls[i]);
        }
        out.push('\n');
        proof {
            let done = texts(ls@).take(i as int);
            let next = texts(ls@).take(i + 1);
            assert(next.drop_last() =~= done);
        }
        i += 1;
    }
    assert(texts(ls@).take(i as int) =~= texts(ls@));
}

} // verus!
