use auto_header::clock::Stamp;
use auto_header::config::{AuthorConfig, Config, HeaderConfig, ProjectConfig};
use auto_header::path::PathStyle;
use auto_header::render::{generate_header, interpreter_for, render};

const BODY: &str =
    "File: {filename}\nAuthor: {author}\nProject: {project}\nCopyright (c) {year} {copyright_holder}";

fn alice(template: &str) -> Config {
    Config {
        author: AuthorConfig { name: "Alice".to_string(), email: "alice@example.org".to_string() },
        project: ProjectConfig { name: "Foo".to_string(), copyright_holder: String::new() },
        header: HeaderConfig::new(template.to_string()),
    }
}

fn first_of_march() -> Stamp {
    Stamp {
        date: "2024-03-01".to_string(),
        time: "09:15:00".to_string(),
        year: "2024".to_string(),
    }
}

#[test]
fn rust_file_gets_a_block_comment() {
    let text = render(&alice(BODY), "/proj/main.rs", &first_of_march(), PathStyle::Posix);
    assert_eq!(
        text,
        "/*\n * File: main.rs\n * Author: Alice\n * Project: Foo\n * Copyright (c) 2024 Alice\n */\n\n"
    );
    assert!(text.contains("Author: Alice"));
    assert!(text.contains("Project: Foo"));
    assert!(text.contains("Copyright (c) 2024 Alice"));
    assert!(!text.contains('{') && !text.contains('}'));
}

#[test]
fn python_file_gets_a_docstring() {
    let text = render(&alice(BODY), "/proj/notes.py", &first_of_march(), PathStyle::Posix);
    assert_eq!(
        text,
        "# -*- coding: utf-8 -*-\n\"\"\"\nFile: notes.py\nAuthor: Alice\nProject: Foo\nCopyright (c) 2024 Alice\n\"\"\"\n\n"
    );
    assert!(!text.starts_with("/*"));
}

#[test]
fn unknown_extension_gets_hash_lines_and_the_general_template() {
    let text = render(&alice("{filename} by {author}"), "/proj/data.xyz", &first_of_march(), PathStyle::Posix);
    assert_eq!(text, "# data.xyz by Alice\n\n");
    let text = render(&alice("{filename} by {author}"), "/proj/Makefile", &first_of_march(), PathStyle::Posix);
    assert_eq!(text, "# Makefile by Alice\n\n");
}

#[test]
fn copyright_holder_of_the_project_comes_before_the_author() {
    let mut config = alice("(c) {copyright_holder}");
    config.project.copyright_holder = "Foo Ltd".to_string();
    assert_eq!(
        render(&config, "/proj/a.sql", &first_of_march(), PathStyle::Posix),
        "-- (c) Foo Ltd\n\n"
    );
    config.project.copyright_holder = String::new();
    assert_eq!(render(&config, "/proj/a.sql", &first_of_march(), PathStyle::Posix), "-- (c) Alice\n\n");
}

#[test]
fn template_of_the_extension_comes_before_the_general_one() {
    let mut config = alice(BODY);
    config.header = HeaderConfig::new(BODY.to_string())
        .with_extension_template("rs", "Custom {filename}".to_string());
    assert_eq!(
        render(&config, "/proj/main.rs", &first_of_march(), PathStyle::Posix),
        "/*\n * Custom main.rs\n */\n\n"
    );
    assert_eq!(
        render(&config, "/proj/MAIN.RS", &first_of_march(), PathStyle::Posix),
        "# Custom MAIN.RS\n\n"
    );
    assert_eq!(
        config.get_template_for_file("/proj/main.rs", PathStyle::Posix),
        "/*\n * Custom {filename}\n */\n\n"
    );
    assert_eq!(config.template_body_for("rs"), "Custom {filename}");
    assert_eq!(config.template_body_for("Rs"), "Custom {filename}");
    assert_eq!(config.template_body_for("py"), BODY);
    assert_eq!(config.template_body_for(""), BODY);
}

#[test]
fn wrapped_template_keeps_its_tokens() {
    assert_eq!(
        alice("{filename}\n\n{date}").get_template_for_file("/proj/index.html", PathStyle::Posix),
        "<!--\n  {filename}\n\n  {date}\n-->\n\n"
    );
}

#[test]
fn every_token_has_its_value() {
    let template = "{filename}\n{filepath}\n{date}\n{time}\n{year}\n{author}\n{email}\n{project}\n{copyright_holder}\n{interpreter}";
    assert_eq!(
        render(&alice(template), "/proj/run.rb", &first_of_march(), PathStyle::Posix),
        "#!/usr/bin/env ruby\n#\n# run.rb\n# /proj/run.rb\n# 2024-03-01\n# 09:15:00\n# 2024\n# Alice\n# alice@example.org\n# Foo\n# Alice\n# ruby\n#\n\n"
    );
}

#[test]
fn file_path_token_is_the_path_as_given() {
    assert_eq!(
        render(&alice("{filepath}"), "/proj//sub/../main.toml", &first_of_march(), PathStyle::Posix),
        "# /proj//sub/../main.toml\n\n"
    );
}

#[test]
fn path_without_a_component_has_the_name_unknown() {
    assert_eq!(render(&alice("{filename}"), "/", &first_of_march(), PathStyle::Posix), "# unknown\n\n");
    assert_eq!(render(&alice("{filename}"), "", &first_of_march(), PathStyle::Posix), "# unknown\n\n");
}

#[test]
fn interpreter_follows_the_extension() {
    let cases = [
        ("py", "python3"),
        ("pyw", "python3"),
        ("pyx", "python3"),
        ("rb", "ruby"),
        ("pl", "perl"),
        ("pm", "perl"),
        ("sh", "sh"),
        ("bash", "bash"),
        ("zsh", "zsh"),
        ("fish", "fish"),
        ("r", "Rscript"),
        ("R", "Rscript"),
        ("jl", "julia"),
        ("rs", ""),
        ("", ""),
        ("PY", ""),
        ("lua", ""),
    ];
    for (ext, interpreter) in cases {
        assert_eq!(interpreter_for(ext), interpreter, "{}", ext);
    }
}

#[test]
fn interpreter_token_is_empty_for_other_files() {
    assert_eq!(
        render(&alice("run with {interpreter}."), "/proj/main.rs", &first_of_march(), PathStyle::Posix),
        "/*\n * run with .\n */\n\n"
    );
}

#[test]
fn windows_path_gives_name_and_extension_across_backslashes() {
    assert_eq!(
        render(&alice("{filename}"), "C:\\proj\\main.rs", &first_of_march(), PathStyle::Windows),
        "/*\n * main.rs\n */\n\n"
    );
}

#[test]
fn rendering_again_with_the_same_values_changes_nothing() {
    let config = alice(BODY);
    let once = render(&config, "/proj/main.rs", &first_of_march(), PathStyle::Posix);
    let values = auto_header::tokens::TokenValues {
        filename: "main.rs".to_string(),
        filepath: "/proj/main.rs".to_string(),
        date: "2024-03-01".to_string(),
        time: "09:15:00".to_string(),
        year: "2024".to_string(),
        author: "Alice".to_string(),
        email: "alice@example.org".to_string(),
        project: "Foo".to_string(),
        copyright_holder: "Alice".to_string(),
        interpreter: String::new(),
    };
    assert_eq!(auto_header::tokens::substitute_tokens(&once, &values), once);
}

#[test]
fn generated_header_carries_the_present_year() {
    let before = Stamp::now();
    let text = generate_header(&alice("{year}"), "/proj/main.toml", PathStyle::Posix);
    let after = Stamp::now();
    assert!(text == format!("# {}\n\n", before.year) || text == format!("# {}\n\n", after.year));
}

#[test]
fn generated_header_leaves_no_token_of_the_built_in_template() {
    let text = generate_header(&Config::default(), "/proj/main.rs", PathStyle::Posix);
    assert!(text.starts_with("/*\n * File: main.rs\n * Author: Auto Header\n * Date: "));
    assert!(text.ends_with(" Auto Header\n */\n\n"));
    assert!(!text.contains('{'));
}
