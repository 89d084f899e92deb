use auto_header::tokens::{substitute_tokens, TokenValues};

fn sample_values() -> TokenValues {
    TokenValues {
        filename: "main.rs".to_string(),
        filepath: "/proj/main.rs".to_string(),
        date: "2024-03-01".to_string(),
        time: "12:34:56".to_string(),
        year: "2024".to_string(),
        author: "Alice".to_string(),
        email: "alice@example.org".to_string(),
        project: "Foo".to_string(),
        copyright_holder: "Foo Ltd".to_string(),
        interpreter: "python3".to_string(),
    }
}

#[test]
fn every_token_is_replaced_by_its_value() {
    let text = "{filename}|{filepath}|{date}|{time}|{year}|{author}|{email}|{project}|{copyright_holder}|{interpreter}";
    assert_eq!(
        substitute_tokens(text, &sample_values()),
        "main.rs|/proj/main.rs|2024-03-01|12:34:56|2024|Alice|alice@example.org|Foo|Foo Ltd|python3"
    );
}

#[test]
fn every_occurrence_of_a_token_is_replaced() {
    assert_eq!(
        substitute_tokens("{year}{year} {author}-{year}-{author}", &sample_values()),
        "20242024 Alice-2024-Alice"
    );
}

#[test]
fn text_without_tokens_stays() {
    for text in ["", "plain", "{", "}", "{}", "{ year }", "{Year}", "{unknown}", "year", "{year"] {
        assert_eq!(substitute_tokens(text, &sample_values()), text);
    }
}

#[test]
fn braces_around_a_token_stay() {
    assert_eq!(substitute_tokens("{{year}}", &sample_values()), "{2024}");
    assert_eq!(substitute_tokens("{year}}{", &sample_values()), "2024}{");
}

#[test]
fn empty_value_removes_the_token() {
    let mut values = sample_values();
    values.interpreter = String::new();
    assert_eq!(substitute_tokens("#!/usr/bin/env {interpreter}\n", &values), "#!/usr/bin/env \n");
}

#[test]
fn substituting_again_changes_nothing() {
    let text = "File: {filename}\nAuthor: {author} <{email}>\nDate: {date} {time}\n(c) {year} {copyright_holder}";
    let once = substitute_tokens(text, &sample_values());
    assert_eq!(
        once,
        "File: main.rs\nAuthor: Alice <alice@example.org>\nDate: 2024-03-01 12:34:56\n(c) 2024 Foo Ltd"
    );
    assert_eq!(substitute_tokens(&once, &sample_values()), once);
}

#[test]
fn tokens_are_replaced_one_after_the_other() {
    let mut values = sample_values();
    values.filename = "{date}.rs".to_string();
    values.author = "{year}".to_string();
    assert_eq!(substitute_tokens("{filename}", &values), "2024-03-01.rs");
    assert_eq!(substitute_tokens("{author}", &values), "{year}");
}

#[test]
fn a_token_can_come_about_by_a_replacement() {
    let mut values = sample_values();
    values.author = "n".to_string();
    let once = substitute_tokens("{file{author}ame}", &values);
    assert_eq!(once, "{filename}");
    assert_eq!(substitute_tokens(&once, &values), "main.rs");
}

#[test]
fn values_outside_ascii_are_kept() {
    let mut values = sample_values();
    values.author = "Zoë 世界".to_string();
    assert_eq!(substitute_tokens("© {author} ✓", &values), "© Zoë 世界 ✓");
}
