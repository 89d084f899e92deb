use auto_header::comment::CommentStyle;

const C_BLOCK: CommentStyle = CommentStyle::Block { start: "/*", end: "*/", line_prefix: " *" };
const HASH: CommentStyle = CommentStyle::Line { prefix: "#" };
const BASH: CommentStyle =
    CommentStyle::LineWithShebang { prefix: "#", shebang: "#!/usr/bin/env bash" };

#[test]
fn block_wraps_each_line_and_decorates_blank_lines() {
    assert_eq!(C_BLOCK.wrap("A\n\nB"), "/*\n * A\n *\n * B\n */\n\n");
}

#[test]
fn line_puts_bare_prefix_on_blank_lines() {
    assert_eq!(HASH.wrap("A\n\nB"), "# A\n#\n# B\n\n");
}

#[test]
fn shebang_style_frames_the_lines_with_bare_prefixes() {
    assert_eq!(BASH.wrap("A\n\nB"), "#!/usr/bin/env bash\n#\n# A\n#\n# B\n#\n\n");
}

#[test]
fn python_docstring_takes_the_body_verbatim() {
    assert_eq!(
        CommentStyle::PythonDoc.wrap("A\n\nB"),
        "# -*- coding: utf-8 -*-\n\"\"\"\nA\n\nB\n\"\"\"\n\n"
    );
    assert_eq!(
        CommentStyle::PythonDoc.wrap("  A \r\n\t"),
        "# -*- coding: utf-8 -*-\n\"\"\"\n  A \r\n\t\n\"\"\"\n\n"
    );
}

#[test]
fn html_comment_indents_lines_and_leaves_blank_lines_empty() {
    assert_eq!(CommentStyle::HtmlComment.wrap("A\n\nB"), "<!--\n  A\n\n  B\n-->\n\n");
}

#[test]
fn block_with_empty_prefix_keeps_the_space_before_a_line() {
    let lua = CommentStyle::Block { start: "--[[", end: "--]]", line_prefix: "" };
    assert_eq!(lua.wrap("A\n\nB"), "--[[\n A\n\n B\n --]]\n\n");
}

#[test]
fn line_of_white_space_counts_as_blank() {
    assert_eq!(HASH.wrap("A\n  \t\nB"), "# A\n#\n# B\n\n");
    assert_eq!(C_BLOCK.wrap("A\n \nB"), "/*\n * A\n *\n * B\n */\n\n");
    assert_eq!(CommentStyle::HtmlComment.wrap("A\n \nB"), "<!--\n  A\n\n  B\n-->\n\n");
    assert_eq!(HASH.wrap("\u{3000}\u{a0}"), "#\n\n");
}

#[test]
fn line_that_is_not_blank_keeps_its_own_white_space() {
    assert_eq!(HASH.wrap("  A  "), "#   A  \n\n");
}

#[test]
fn carriage_return_before_line_feed_ends_the_line() {
    assert_eq!(HASH.wrap("A\r\nB\r\n"), "# A\n# B\n\n");
    assert_eq!(HASH.wrap("A\r\n\r\nB"), "# A\n#\n# B\n\n");
}

#[test]
fn carriage_return_without_line_feed_belongs_to_the_line() {
    assert_eq!(HASH.wrap("A\rB"), "# A\rB\n\n");
    assert_eq!(HASH.wrap("A\r"), "# A\r\n\n");
    assert_eq!(HASH.wrap("A\r\r\n"), "# A\r\n\n");
}

#[test]
fn final_line_feed_opens_no_further_line() {
    assert_eq!(HASH.wrap("A\n"), "# A\n\n");
    assert_eq!(HASH.wrap("A\n\n"), "# A\n#\n\n");
    assert_eq!(HASH.wrap("\n"), "#\n\n");
}

#[test]
fn empty_body_has_no_lines() {
    assert_eq!(HASH.wrap(""), "\n");
    assert_eq!(C_BLOCK.wrap(""), "/*\n */\n\n");
    assert_eq!(BASH.wrap(""), "#!/usr/bin/env bash\n#\n#\n\n");
    assert_eq!(CommentStyle::HtmlComment.wrap(""), "<!--\n-->\n\n");
    assert_eq!(CommentStyle::PythonDoc.wrap(""), "# -*- coding: utf-8 -*-\n\"\"\"\n\n\"\"\"\n\n");
}

#[test]
fn wrap_keeps_characters_outside_ascii() {
    assert_eq!(HASH.wrap("Grüße, 世界"), "# Grüße, 世界\n\n");
}

#[test]
fn c_family_extensions_get_the_c_block() {
    for ext in [
        "c", "h", "cpp", "hpp", "cc", "hh", "cxx", "hxx", "cs", "java", "js", "jsx", "ts", "tsx",
        "rs", "scala", "kt", "kts", "swift", "go", "m", "mm", "css", "scss", "sass", "less",
    ] {
        assert_eq!(CommentStyle::for_extension(ext), C_BLOCK, "{}", ext);
    }
}

#[test]
fn python_extensions_get_the_docstring() {
    for ext in ["py", "pyw", "pyx"] {
        assert_eq!(CommentStyle::for_extension(ext), CommentStyle::PythonDoc, "{}", ext);
    }
}

#[test]
fn script_extensions_get_their_interpreter_line() {
    let cases = [
        ("sh", "#!/usr/bin/env bash"),
        ("bash", "#!/usr/bin/env bash"),
        ("zsh", "#!/usr/bin/env bash"),
        ("fish", "#!/usr/bin/env fish"),
        ("rb", "#!/usr/bin/env ruby"),
        ("pl", "#!/usr/bin/env perl"),
        ("pm", "#!/usr/bin/env perl"),
        ("r", "#!/usr/bin/env Rscript"),
        ("R", "#!/usr/bin/env Rscript"),
        ("jl", "#!/usr/bin/env julia"),
    ];
    for (ext, shebang) in cases {
        assert_eq!(
            CommentStyle::for_extension(ext),
            CommentStyle::LineWithShebang { prefix: "#", shebang },
            "{}",
            ext
        );
    }
}

#[test]
fn line_comment_extensions_get_their_prefix() {
    let cases = [
        ("yaml", "#"),
        ("yml", "#"),
        ("toml", "#"),
        ("ini", "#"),
        ("conf", "#"),
        ("cfg", "#"),
        ("sql", "--"),
        ("lisp", ";;;;"),
        ("cl", ";;;;"),
        ("scm", ";;;;"),
        ("clj", ";;;;"),
        ("cljs", ";;;;"),
        ("erl", "%%"),
        ("hrl", "%%"),
        ("ex", "%%"),
        ("exs", "%%"),
        ("vim", "\""),
        ("v", "//"),
        ("vh", "//"),
        ("sv", "//"),
        ("svh", "//"),
        ("tcl", "#"),
    ];
    for (ext, prefix) in cases {
        assert_eq!(CommentStyle::for_extension(ext), CommentStyle::Line { prefix }, "{}", ext);
    }
}

#[test]
fn markup_extensions_get_the_html_comment() {
    for ext in ["html", "htm", "xml", "svg", "xhtml"] {
        assert_eq!(CommentStyle::for_extension(ext), CommentStyle::HtmlComment, "{}", ext);
    }
}

#[test]
fn lua_and_haskell_get_the_long_bracket_block() {
    for ext in ["lua", "hs", "lhs"] {
        assert_eq!(
            CommentStyle::for_extension(ext),
            CommentStyle::Block { start: "--[[", end: "--]]", line_prefix: "" },
            "{}",
            ext
        );
    }
}

#[test]
fn unknown_extension_falls_back_to_hash_lines() {
    for ext in ["", "xyz", "RS", "Py", "rs ", ".rs", "markdown"] {
        assert_eq!(CommentStyle::for_extension(ext), HASH, "{:?}", ext);
    }
}
