//! The header of a file: the template that its extension selects, wrapped in
//! the comment syntax of its language, with each token replaced by its value.

use crate::clock::{Stamp, StampView};
use crate::comment::{syntax_for, CommentStyle};
use crate::config::{Config, ConfigView};
use crate::path::{extension, extension_chars, file_name, file_name_chars, lowercase, PathStyle};
use crate::text::{chars_of, same_text, string_of};
use crate::braces::{lemma_calendar_brace_free, lemma_header_idempotent};
use crate::tokens::{brace_free, braces_open_tokens, substitute, substitute_chars};
use crate::tokens::{Bindings, TokenValues};
use vstd::prelude::*;

verus! {

/// The interpreter that runs a script of the extension `ext`; empty for an
/// extension that names no script.
pub open spec fn interpreter_of(ext: Seq<char>) -> Seq<char> {
    if ext == "py"@ || ext == "pyw"@ || ext == "pyx"@ {
        "python3"@
    } else if ext == "rb"@ {
        "ruby"@
    } else if ext == "pl"@ || ext == "pm"@ {
        "perl"@
    } else if ext == "sh"@ {
        "sh"@
    } else if ext == "bash"@ {
        "bash"@
    } else if ext == "zsh"@ {
        "zsh"@
    } else if ext == "fish"@ {
        "fish"@
    } else if ext == "r"@ || ext == "R"@ {
        "Rscript"@
    } else if ext == "jl"@ {
        "julia"@
    } else {
        ""@
    }
}

/// The interpreter that runs a script of the extension `ext`.
pub fn interpreter_for(ext: &str) -> (name: &'static str)
    ensures
        name@ == interpreter_of(ext@),
{
    let e = chars_of(ext);
    if same_text(&e, "py") || same_text(&e, "pyw") || same_text(&e, "pyx") {
        "python3"
    } else if same_text(&e, "rb") {
        "ruby"
    } else if same_text(&e, "pl") || same_text(&e, "pm") {
        "perl"
    } else if same_text(&e, "sh") {
        "sh"
    } else if same_text(&e, "bash") {
        "bash"
    } else if same_text(&e, "zsh") {
        "zsh"
    } else if same_text(&e, "fish") {
        "fish"
    } else if same_text(&e, "r") || same_text(&e, "R") {
        "Rscript"
    } else if same_text(&e, "jl") {
        "julia"
    } else {
        ""
    }
}

/// The template body that is built in for files of the extension `ext`. No
/// language has one, so the choice falls to the configuration's templates.
pub open spec fn builtin_body(ext: Seq<char>) -> Option<Seq<char>> {
    None
}

/// The template body for files of the extension `ext`: the one that the
/// configuration gives that extension, else the one that is built in for it,
/// else the configuration's template for every file.
pub open spec fn template_body(config: ConfigView, ext: Seq<char>) -> Seq<char> {
    let own = config.header.by_extension;
    if own.contains_key(lowercase(ext)) {
        own[lowercase(ext)]
    } else if builtin_body(ext) is Some {
        builtin_body(ext)->0
    } else {
        config.header.template
    }
}

/// The template for the file at `path`, wrapped as a comment of the file's
/// language; its tokens still stand.
pub open spec fn template_for_file(config: ConfigView, path: Seq<char>, style: PathStyle) -> Seq<
    char,
> {
    let ext = extension(path, style);
    syntax_for(ext).wrap(template_body(config, ext))
}

/// The value of each token for the file at `path`. The file's name is the
/// last component of the path, or `unknown` where the path has none; the
/// copyright holder is the author where the project names none.
pub open spec fn bindings(
    config: ConfigView,
    path: Seq<char>,
    stamp: StampView,
    style: PathStyle,
) -> Bindings {
    Bindings {
        filename: match file_name(path, style) {
            Some(name) => name,
            None => "unknown"@,
        },
        filepath: path,
        date: stamp.date,
        time: stamp.time,
        year: stamp.year,
        author: config.author_name,
        email: config.author_email,
        project: config.project_name,
        copyright_holder: if config.copyright_holder.len() == 0 {
            config.author_name
        } else {
            config.copyright_holder
        },
        interpreter: interpreter_of(extension(path, style)),
    }
}

/// The header of the file at `path`.
pub open spec fn header(
    config: ConfigView,
    path: Seq<char>,
    stamp: StampView,
    style: PathStyle,
) -> Seq<char> {
    substitute(template_for_file(config, path, style), bindings(config, path, stamp, style))
}

impl Config {
    /// The template body for files of the extension `ext`. A body that the
    /// configuration gives the extension comes before any other.
    pub fn template_body_for(&self, ext: &str) -> (body: &str)
        ensures
            body@ == template_body(self@, ext@),
            self@.header.by_extension.contains_key(lowercase(ext@)) ==> body@
                == self@.header.by_extension[lowercase(ext@)],
    {
        match self.header.extension_template(ext) {
            Some(own) => own.as_str(),
            None => self.header.template().as_str(),
        }
    }

    /// The template for the file at `file_path`, wrapped as a comment of the
    /// file's language.
    pub fn get_template_for_file(&self, file_path: &str, style: PathStyle) -> (text: String)
        ensures
            text@ == template_for_file(self@, file_path@, style),
    {
        let wrapped = self.wrapped_template(&chars_of(file_path), style);
        string_of(&wrapped)
    }

    /// The characters of the wrapped template for the file at `path`.
    fn wrapped_template(&self, path: &Vec<char>, style: PathStyle) -> (text: Vec<char>)
        ensures
            text@ == template_for_file(self@, path@, style),
    {
        let ext = string_of(&extension_chars(path, style));
        let comment_style = CommentStyle::for_extension(ext.as_str());
        let body = chars_of(self.template_body_for(ext.as_str()));
        comment_style.wrap_chars(&body)
    }

    /// The value of each token for the file at `path`.
    fn token_values(&self, path: &Vec<char>, stamp: &Stamp, style: PathStyle) -> (values:
        TokenValues)
        ensures
            values@ == bindings(self@, path@, stamp@, style),
    {
        let filename = match file_name_chars(path, style) {
            Some(name) => string_of(&name),
            None => "unknown".to_owned(),
        };
        let ext = string_of(&extension_chars(path, style));
        let copyright_holder = if self.project.copyright_holder.as_str().is_empty() {
            self.author.name.clone()
        } else {
            self.project.copyright_holder.clone()
        };
        TokenValues {
            filename,
            filepath: string_of(path),
            date: stamp.date.clone(),
            time: stamp.time.clone(),
            year: stamp.year.clone(),
            author: self.author.name.clone(),
            email: self.author.email.clone(),
            project: self.project.name.clone(),
            copyright_holder,
            interpreter: interpreter_for(ext.as_str()).to_owned(),
        }
    }
}

/// The header of the file at `file_path` at the moment `stamp`.
pub fn render(config: &Config, file_path: &str, stamp: &Stamp, style: PathStyle) -> (text: String)
    ensures
        text@ == header(config@, file_path@, stamp@, style),
{
    let path = chars_of(file_path);
    let wrapped = config.wrapped_template(&path, style);
    let values = config.token_values(&path, stamp, style);
    let out = substitute_chars(wrapped, &values);
    string_of(&out)
}

/// The header of the file at `file_path` at the present moment, by the local
/// clock. No token is left in it, and no `{` at all, where neither the
/// configuration's values nor the path hold a `{` and every `{` of the
/// template chosen for the file begins a token.
pub fn generate_header(config: &Config, file_path: &str, style: PathStyle) -> (text: String)
    ensures
        exists|stamp: StampView|
            stamp.is_calendar() && text@ == #[trigger] header(config@, file_path@, stamp, style),
        config@.values_brace_free() && brace_free(file_path@) && braces_open_tokens(
            template_body(config@, extension(file_path@, style)),
        ) ==> brace_free(text@),
{
    let stamp = Stamp::now();
    proof {
        lemma_calendar_brace_free(stamp@);
        if config@.values_brace_free() && brace_free(file_path@) && braces_open_tokens(
            template_body(config@, extension(file_path@, style)),
        ) {
            lemma_header_idempotent(config@, file_path@, stamp@, style);
        }
    }
    render(config, file_path, &stamp, style)
}

} // verus!
