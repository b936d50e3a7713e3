use cargo_play::cargo::{
    cargo_toml, check_directive, is_package_name, judge_directive, nests_within_bound,
    CargoManifest,
};
use cargo_play::errors::CargoPlayError;
use cargo_play::opt::RustEdition;

fn texts(items: &[&str]) -> Vec<String> {
    items.iter().map(|item| item.to_string()).collect()
}

fn parsed(manifest: &str) -> toml::Value {
    match manifest.parse::<toml::Value>() {
        Ok(value) => value,
        Err(error) => panic!("the manifest is no TOML: {}", error),
    }
}

#[test]
fn manifest_round_trip() {
    let manifest =
        CargoManifest::new("play".to_string(), texts(&["serde = \"1\""]), RustEdition::E2015)
            .unwrap();
    assert_eq!(manifest.dependencies(), texts(&["serde = \"1\""]).as_slice());
    assert_eq!(manifest.edition(), RustEdition::E2015);
    assert_eq!(manifest.name(), "play");

    let read = parsed(&manifest.to_toml());
    assert_eq!(read["package"]["edition"].as_str(), Some("2015"));
    assert_eq!(read["package"]["name"].as_str(), Some("play"));
    assert_eq!(read["package"]["version"].as_str(), Some("0.1.0"));
    let dependencies = read["dependencies"].as_table().unwrap();
    assert_eq!(dependencies.len(), 1);
    assert_eq!(dependencies["serde"].as_str(), Some("1"));
    let again: Vec<String> =
        dependencies.iter().map(|(name, value)| format!("{} = {}", name, value)).collect();
    assert_eq!(again, texts(&["serde = \"1\""]));
}

#[test]
fn the_manifest_text_is_exact() {
    let text = cargo_toml(
        "cargo-play-0123456789abcdef".to_string(),
        texts(&["serde = \"1\"", "rand = { version = \"0.7\", features = [\"small_rng\"] }"]),
        RustEdition::E2018,
    );
    let expected = [
        "[package]",
        "name = \"cargo-play-0123456789abcdef\"",
        "version = \"0.1.0\"",
        "edition = \"2018\"",
        "",
        "[dependencies]",
        "serde = \"1\"",
        "rand = { version = \"0.7\", features = [\"small_rng\"] }",
        "",
    ];
    assert_eq!(text, Ok(expected.join("\n")));
}

#[test]
fn a_manifest_without_dependencies() {
    let text = cargo_toml("p".to_string(), vec![], RustEdition::E2015).unwrap();
    assert_eq!(
        text,
        "[package]\nname = \"p\"\nversion = \"0.1.0\"\nedition = \"2015\"\n\n[dependencies]\n"
    );
    let read = parsed(&text);
    assert!(read["dependencies"].as_table().unwrap().is_empty());
}

#[test]
fn dependencies_keep_their_order_and_are_not_merged() {
    let directives = texts(&["b = \"1\"", "a = \"2\"", "b = \"1\""]);
    let manifest =
        CargoManifest::new("p".to_string(), directives.clone(), RustEdition::E2015).unwrap();
    assert_eq!(manifest.dependencies(), directives.as_slice());
    assert!(manifest.to_toml().ends_with("[dependencies]\nb = \"1\"\na = \"2\"\nb = \"1\"\n"));
}

#[test]
fn a_directive_that_is_no_toml_fails_the_manifest() {
    let result = CargoManifest::new(
        "p".to_string(),
        texts(&["a = \"1\"", "this is = = no toml", "b = ["]),
        RustEdition::E2015,
    );
    match result {
        Err(CargoPlayError::ParseError(directive, message)) => {
            assert_eq!(directive, "this is = = no toml");
            assert!(!message.is_empty());
        }
        other => panic!("unexpected: {:?}", other),
    }
}

#[test]
fn check_directive_goes_by_the_parser() {
    for directive in [
        "serde = \"1\"",
        "serde = { version = \"1\", features = [\"derive\"] }",
        "a.b = 1",
        "# only a comment",
        "",
        "[dependencies.x]",
        "x = 1\ny = 2",
    ] {
        assert_eq!(check_directive(directive), Ok(()), "{:?}", directive);
    }
    for directive in ["serde", "serde = ", "= 1", "a = \"unclosed", "a = 1 b = 2", "x = [1, 2"] {
        match check_directive(directive) {
            Err(CargoPlayError::ParseError(text, message)) => {
                assert_eq!(text, directive);
                assert!(!message.is_empty());
                assert_ne!(message, directive);
            }
            other => panic!("{:?} gave {:?}", directive, other),
        }
    }
}

#[test]
fn odd_directives_are_judged_one_way_or_the_other() {
    let odd = [
        "\u{0}",
        "\r",
        "a = 1\r",
        "a = \"\\u00zz\"",
        "a = \"\\U0010FFFF\"",
        "a = \"\\UFFFFFFFF\"",
        "a = 0x",
        "a = 0b102",
        "a = 1__0",
        "a = +",
        "a = -",
        "a = 99999999999999999999999999999999",
        "a = 1e99999",
        "a = 1979-05-27",
        "a = 1979-05-27T07:32:00.",
        "a = 1979-05-27T07:32:00.999999999999Z",
        "a = 1979-13-41T25:61:61+99:99",
        "a = 07:32",
        "a = 9999-99-99",
        "a = \u{4e16}",
        "\u{4e16} = 1",
        "\"\" = 1",
        "'' = ''",
        "a = '''",
        "a = \"\"\"",
        "a = [",
        "a = ]",
        "a = {",
        "a = }",
        "a = [1, [2, {b = [3]}]]",
        "[",
        "[[",
        "[[a]",
        "[a]]",
        "[a.]",
        "[.a]",
        "a..b = 1",
        "a. = 1",
        ". = 1",
        "a = 1 # \u{0}",
        "a = b",
        "a = true false",
        "a = inf",
        "a = nan",
        "a = -nan",
        "=",
        "a = \"\u{7f}\"",
    ];
    for directive in odd {
        match check_directive(directive) {
            Ok(()) => assert!(directive.parse::<toml::Value>().is_ok(), "{:?}", directive),
            Err(CargoPlayError::ParseError(text, message)) => {
                assert_eq!(text, directive);
                assert!(!message.is_empty());
                assert!(directive.parse::<toml::Value>().is_err(), "{:?}", directive);
            }
            Err(other) => panic!("{:?} gave {:?}", directive, other),
        }
    }
}

#[test]
fn deep_nesting_is_refused_before_it_is_read() {
    let shallow = format!("a = {}1{}", "[".repeat(64), "]".repeat(64));
    assert!(nests_within_bound(&shallow));
    assert_eq!(check_directive(&shallow), Ok(()));

    let deep = format!("a = {}1{}", "[".repeat(65), "]".repeat(65));
    assert!(!nests_within_bound(&deep));
    assert_eq!(
        check_directive(&deep),
        Err(CargoPlayError::ParseError(deep.clone(), "nested too deeply".to_string()))
    );

    let very_deep = format!("a = {}", "[".repeat(200_000));
    assert_eq!(
        check_directive(&very_deep),
        Err(CargoPlayError::ParseError(very_deep.clone(), "nested too deeply".to_string()))
    );
}

#[test]
fn nesting_marks_are_brackets_braces_and_dots() {
    assert!(nests_within_bound(""));
    assert!(nests_within_bound(&"]})(".repeat(100)));
    assert!(nests_within_bound(&".".repeat(64)));
    assert!(!nests_within_bound(&".".repeat(65)));
    assert!(!nests_within_bound(&"{".repeat(65)));
    assert!(!nests_within_bound(&format!("{}{}{}", "[".repeat(30), "{".repeat(30), ".".repeat(5))));
}

#[test]
fn judge_directive_says_what_the_reading_said() {
    assert_eq!(judge_directive("a = 1", Some(Ok(()))), Ok(()));
    assert_eq!(
        judge_directive("a =", Some(Err("expected a value".to_string()))),
        Err(CargoPlayError::ParseError("a =".to_string(), "expected a value".to_string()))
    );
    assert_eq!(
        judge_directive("a = [[", None),
        Err(CargoPlayError::ParseError("a = [[".to_string(), "nested too deeply".to_string()))
    );
}

#[test]
fn package_names() {
    for name in ["a", "_", "a-b_c9", "cargo-play-0123456789abcdef", "A", "_9"] {
        assert!(is_package_name(name), "{:?}", name);
    }
    for name in ["", "9a", "-a", "a b", "a.b", "a\"b", "a\n", "\u{e9}", "a/b", "cargo-play.x"] {
        assert!(!is_package_name(name), "{:?}", name);
    }
}

#[test]
fn a_name_that_is_no_package_name_fails_the_manifest() {
    for name in ["", "9lives", "a\"\nb = \"c", "cargo-play.0123"] {
        assert_eq!(
            CargoManifest::new(name.to_string(), vec![], RustEdition::E2015),
            Err(CargoPlayError::NameError(name.to_string()))
        );
        assert_eq!(
            cargo_toml(name.to_string(), texts(&["not toml at all ="]), RustEdition::E2015),
            Err(CargoPlayError::NameError(name.to_string()))
        );
    }
}
