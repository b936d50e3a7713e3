use cargo_play::errors::CargoPlayError;

fn all() -> Vec<CargoPlayError> {
    vec![
        CargoPlayError::IOError("No such file or directory (os error 2)".to_string()),
        CargoPlayError::ParseError("a =".to_string(), "expected a value".to_string()),
        CargoPlayError::NameError("9lives".to_string()),
        CargoPlayError::EditionError("2016".to_string()),
        CargoPlayError::DiffPathError("rel/two.rs".to_string()),
        CargoPlayError::PathExistError("/home/me/project".to_string()),
        CargoPlayError::LaunchError("Permission denied (os error 13)".to_string()),
        CargoPlayError::StageError,
    ]
}

#[test]
fn every_failure_says_what_it_is_about() {
    let messages: Vec<String> = all().iter().map(|e| e.message()).collect();
    assert_eq!(
        messages,
        vec![
            "I/O error: No such file or directory (os error 2)",
            "malformed directive: a = (expected a value)",
            "not a package name: 9lives",
            "unknown edition: 2016",
            "no relative path to: rel/two.rs",
            "path already exists: /home/me/project",
            "cannot start the build tool: Permission denied (os error 13)",
            "unexpected event",
        ]
    );
}

#[test]
fn every_failure_has_an_exit_status_of_its_class() {
    let codes: Vec<i32> = all().iter().map(|e| e.exit_code()).collect();
    assert_eq!(codes, vec![74, 78, 78, 64, 66, 73, 71, 70]);
    assert!(codes.iter().all(|code| (64..=78).contains(code)));
}
