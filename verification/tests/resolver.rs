use auto_header::config::{AuthorConfig, Config, HeaderConfig, ProjectConfig};
use auto_header::path::PathStyle;
use auto_header::resolver::{search_places_for, search_places_in, Probe};

fn named(name: &str) -> Config {
    Config {
        author: AuthorConfig { name: name.to_string(), email: format!("{}@x.org", name) },
        project: ProjectConfig { name: "Foo".to_string(), copyright_holder: String::new() },
        header: HeaderConfig::new(format!("by {}", name)),
    }
}

fn author_of(probes: Vec<Probe>) -> String {
    Config::load_from_workspace(&probes).author.name
}

#[test]
fn places_are_searched_from_workspace_to_home() {
    let places =
        search_places_in(Some("/proj"), Some("/home/u/.config"), Some("/home/u"), PathStyle::Posix);
    assert_eq!(
        places,
        vec![
            "/proj/.auto-header.toml".to_string(),
            "/home/u/.config/zed/auto-header.toml".to_string(),
            "/home/u/.auto-header.toml".to_string(),
        ]
    );
}

#[test]
fn unknown_directory_gives_no_place() {
    assert_eq!(
        search_places_in(None, Some("/home/u/.config"), Some("/home/u"), PathStyle::Posix),
        vec![
            "/home/u/.config/zed/auto-header.toml".to_string(),
            "/home/u/.auto-header.toml".to_string(),
        ]
    );
    assert_eq!(
        search_places_in(Some("/proj"), None, Some("/home/u"), PathStyle::Posix),
        vec!["/proj/.auto-header.toml".to_string(), "/home/u/.auto-header.toml".to_string()]
    );
    assert_eq!(
        search_places_in(Some("/proj"), None, None, PathStyle::Posix),
        vec!["/proj/.auto-header.toml".to_string()]
    );
    assert!(search_places_in(None, None, None, PathStyle::Posix).is_empty());
}

#[test]
fn places_on_windows_use_the_backslash() {
    assert_eq!(
        search_places_in(
            Some("C:\\proj"),
            Some("C:\\Users\\u\\AppData\\Roaming"),
            Some("C:\\Users\\u"),
            PathStyle::Windows
        ),
        vec![
            "C:\\proj\\.auto-header.toml".to_string(),
            "C:\\Users\\u\\AppData\\Roaming\\zed\\auto-header.toml".to_string(),
            "C:\\Users\\u\\.auto-header.toml".to_string(),
        ]
    );
}

#[test]
fn places_for_this_user_begin_at_the_workspace() {
    let places = search_places_for(Some("/proj"), PathStyle::Posix);
    assert!(!places.is_empty() && places.len() <= 3);
    assert_eq!(places[0], "/proj/.auto-header.toml");
    for place in &places[1..] {
        assert!(place.ends_with("/auto-header.toml") || place.ends_with("/.auto-header.toml"));
        assert_ne!(place, "/auto-header.toml");
    }
    let without_root = search_places_for(None, PathStyle::Posix);
    assert_eq!(without_root.len() + 1, places.len());
    assert_eq!(&places[1..], &without_root[..]);
}

#[test]
fn places_for_this_user_follow_the_directories_of_the_platform() {
    let expected = search_places_in(
        Some("/proj"),
        dirs::config_dir().as_ref().and_then(|p| p.to_str()),
        dirs::home_dir().as_ref().and_then(|p| p.to_str()),
        PathStyle::Posix,
    );
    assert_eq!(search_places_for(Some("/proj"), PathStyle::Posix), expected);
}

#[test]
fn a_file_exists_when_any_place_holds_one() {
    assert!(!Config::config_exists(&vec![]));
    assert!(!Config::config_exists(&vec![Probe::Absent]));
    assert!(!Config::config_exists(&vec![Probe::Absent, Probe::Absent, Probe::Absent]));
    assert!(Config::config_exists(&vec![Probe::Invalid]));
    assert!(Config::config_exists(&vec![Probe::Absent, Probe::Absent, Probe::Invalid]));
    assert!(Config::config_exists(&vec![Probe::Valid(named("a"))]));
    assert!(Config::config_exists(&vec![Probe::Absent, Probe::Valid(named("a")), Probe::Absent]));
}

#[test]
fn first_place_with_a_configuration_wins() {
    assert_eq!(
        author_of(vec![
            Probe::Valid(named("a")),
            Probe::Valid(named("b")),
            Probe::Valid(named("c"))
        ]),
        "a"
    );
    assert_eq!(author_of(vec![Probe::Absent, Probe::Valid(named("b")), Probe::Valid(named("c"))]), "b");
    assert_eq!(author_of(vec![Probe::Absent, Probe::Absent, Probe::Valid(named("c"))]), "c");
}

#[test]
fn file_that_cannot_be_read_is_passed_over() {
    assert_eq!(author_of(vec![Probe::Invalid, Probe::Valid(named("b")), Probe::Valid(named("c"))]), "b");
    assert_eq!(author_of(vec![Probe::Invalid, Probe::Invalid, Probe::Valid(named("c"))]), "c");
    assert_eq!(author_of(vec![Probe::Absent, Probe::Invalid, Probe::Valid(named("c"))]), "c");
    assert_eq!(author_of(vec![Probe::Valid(named("a")), Probe::Invalid, Probe::Absent]), "a");
}

#[test]
fn built_in_configuration_stands_in_where_no_place_holds_one() {
    for probes in [
        vec![],
        vec![Probe::Absent, Probe::Absent, Probe::Absent],
        vec![Probe::Invalid, Probe::Invalid, Probe::Invalid],
        vec![Probe::Absent, Probe::Invalid],
    ] {
        let config = Config::load_from_workspace(&probes);
        assert_eq!(config.author.name, "Auto Header");
        assert_eq!(config.author.email, "auto@header.dev");
        assert_eq!(config.project.name, "My Project");
        assert_eq!(config.project.copyright_holder, "");
        assert_eq!(
            config.header.template(),
            "File: {filename}\nAuthor: {author}\nDate: {date}\nCopyright (c) {year} {copyright_holder}"
        );
    }
}

#[test]
fn loaded_configuration_is_the_whole_one_of_its_place() {
    let config = Config {
        author: AuthorConfig { name: "Alice".to_string(), email: "a@x.org".to_string() },
        project: ProjectConfig { name: "Foo".to_string(), copyright_holder: "Foo Ltd".to_string() },
        header: HeaderConfig::new("T".to_string()).with_extension_template("rs", "R".to_string()),
    };
    let loaded = Config::load_from_workspace(&vec![Probe::Invalid, Probe::Valid(config)]);
    assert_eq!(loaded.author.name, "Alice");
    assert_eq!(loaded.author.email, "a@x.org");
    assert_eq!(loaded.project.name, "Foo");
    assert_eq!(loaded.project.copyright_holder, "Foo Ltd");
    assert_eq!(loaded.header.template(), "T");
    assert_eq!(loaded.header.extension_template("rs"), Some(&"R".to_string()));
}

#[test]
fn a_configuration_found_means_a_file_exists() {
    let sets = [
        vec![Probe::Valid(named("a"))],
        vec![Probe::Absent, Probe::Valid(named("b"))],
        vec![Probe::Invalid, Probe::Absent, Probe::Valid(named("c"))],
    ];
    let authors = ["a", "b", "c"];
    for (probes, author) in sets.iter().zip(authors) {
        assert!(Config::config_exists(probes));
        assert_eq!(Config::load_from_workspace(probes).author.name, author);
    }
}
