use cargo_play::steps::cargo_args;

fn texts(items: &[&str]) -> Vec<String> {
    items.iter().map(|item| item.to_string()).collect()
}

#[test]
fn the_plain_invocation() {
    assert_eq!(
        cargo_args(&None, "/tmp/cargo-play.x", false, &None, &[]),
        texts(&["run", "--manifest-path", "/tmp/cargo-play.x/Cargo.toml", "--"])
    );
}

#[test]
fn the_full_invocation() {
    assert_eq!(
        cargo_args(
            &Some("nightly".to_string()),
            "/tmp/cargo-play.x",
            true,
            &Some("  --features a,b\t-q ".to_string()),
            &texts(&["--flag", "value"]),
        ),
        texts(&[
            "+nightly",
            "run",
            "--manifest-path",
            "/tmp/cargo-play.x/Cargo.toml",
            "--features",
            "a,b",
            "-q",
            "--release",
            "--",
            "--flag",
            "value",
        ])
    );
}

#[test]
fn trailing_arguments_follow_the_separator_unchanged() {
    let program_args = texts(&["--flag", "value"]);
    let args = cargo_args(&None, "p", false, &None, &program_args);
    let separator = args.iter().position(|arg| arg == "--").unwrap();
    assert_eq!(&args[separator + 1..], program_args.as_slice());
    assert_eq!(args.len(), separator + 3);
}

#[test]
fn trailing_arguments_are_neither_split_nor_unquoted() {
    let program_args = texts(&["a b", "", "--", "'q'", "\\", "--release"]);
    let args = cargo_args(&None, "p", true, &Some("-v".to_string()), &program_args);
    assert_eq!(
        args,
        texts(&[
            "run",
            "--manifest-path",
            "p/Cargo.toml",
            "-v",
            "--release",
            "--",
            "a b",
            "",
            "--",
            "'q'",
            "\\",
            "--release",
        ])
    );
}

#[test]
fn the_toolchain_is_given_as_it_is() {
    let args = cargo_args(&Some("stable-x86_64 gnu".to_string()), "p", false, &None, &[]);
    assert_eq!(args[0], "+stable-x86_64 gnu");
    let args = cargo_args(&Some(String::new()), "p", false, &None, &[]);
    assert_eq!(args[0], "+");
}

#[test]
fn further_options_are_split_at_white_space_and_nothing_more() {
    let args = cargo_args(&None, "p", false, &Some("--config 'a b'".to_string()), &[]);
    assert_eq!(
        args,
        texts(&["run", "--manifest-path", "p/Cargo.toml", "--config", "'a", "b'", "--"])
    );
    let args = cargo_args(&None, "p", false, &Some(" \t\n".to_string()), &[]);
    assert_eq!(args, texts(&["run", "--manifest-path", "p/Cargo.toml", "--"]));
}

#[test]
fn the_manifest_of_a_project_without_name() {
    let args = cargo_args(&None, "", false, &None, &[]);
    assert_eq!(args, texts(&["run", "--manifest-path", "Cargo.toml", "--"]));
}
