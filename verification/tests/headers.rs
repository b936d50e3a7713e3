use cargo_play::steps::{extract_headers, file_headers};

fn texts(items: &[&str]) -> Vec<String> {
    items.iter().map(|item| item.to_string()).collect()
}

#[test]
fn marker_blank_line_and_two_directives() {
    let file = [
        "#!/usr/bin/env cargo-play",
        "",
        "//# serde = \"1\"",
        "//#   rand = \"0.7\"",
        "fn main() {}",
        "//# late = \"1\"",
        "",
    ]
    .join("\n");
    let file = file.as_str();
    assert_eq!(file_headers(file), vec!["serde = \"1\"", "rand = \"0.7\""]);
}

#[test]
fn a_directive_below_code_is_not_found() {
    let file = "//# a = \"1\"\nfn main() {}\n//# b = \"2\"\n";
    assert_eq!(file_headers(file), vec!["a = \"1\""]);
    let file = "fn main() {}\n//# b = \"2\"\n";
    assert_eq!(file_headers(file), Vec::<String>::new());
}

#[test]
fn a_file_without_directives_gives_none() {
    assert_eq!(file_headers(""), Vec::<String>::new());
    assert_eq!(file_headers("\n\n"), Vec::<String>::new());
    assert_eq!(file_headers("#!/bin/sh\n"), Vec::<String>::new());
    assert_eq!(file_headers("fn main() {}"), Vec::<String>::new());
    assert_eq!(file_headers("// # a = 1\n"), Vec::<String>::new());
}

#[test]
fn a_directive_needs_no_marker_before_it() {
    assert_eq!(file_headers("//# a = \"1\""), vec!["a = \"1\""]);
    assert_eq!(file_headers("\n\n//# a = \"1\"\n"), vec!["a = \"1\""]);
}

#[test]
fn only_leading_white_space_is_removed() {
    assert_eq!(file_headers("//# \t a = \"1\" \t\n"), vec!["a = \"1\" \t"]);
    assert_eq!(file_headers("//#a\n"), vec!["a"]);
}

#[test]
fn an_empty_directive_is_dropped_and_the_header_goes_on() {
    assert_eq!(file_headers("//# a\n//#\n//#   \n//# b\n"), vec!["a", "b"]);
}

#[test]
fn a_blank_line_ends_the_directives() {
    assert_eq!(file_headers("//# a\n\n//# b\n"), vec!["a"]);
}

#[test]
fn the_marker_counts_on_the_first_line_only() {
    assert_eq!(file_headers("#!/bin/a\n#!/bin/b\n//# a\n"), Vec::<String>::new());
    assert_eq!(file_headers("\n#!/bin/a\n//# a\n"), Vec::<String>::new());
    assert_eq!(file_headers("#!/bin/a\n\n\n//# a\n"), vec!["a"]);
}

#[test]
fn windows_line_endings_are_no_part_of_a_directive() {
    let file =
        "#!/usr/bin/env cargo-play\r\n\r\n//# a = \"1\"\r\n//# b = \"2\"\r\nfn main() {}\r\n";
    assert_eq!(file_headers(file), vec!["a = \"1\"", "b = \"2\""]);
}

#[test]
fn a_prefix_alone_is_a_directive_line() {
    assert_eq!(file_headers("//#\n//# a\n"), vec!["a"]);
    assert_eq!(file_headers("//\n//# a\n"), Vec::<String>::new());
    assert_eq!(file_headers("#\n//# a\n"), Vec::<String>::new());
}

#[test]
fn directives_of_several_files_follow_each_other() {
    let files = texts(&[
        "//# a = \"1\"\n//# b = \"2\"\nfn main() {}\n",
        "pub fn f() {}\n",
        "#!x\n//# a = \"1\"\n",
    ]);
    assert_eq!(extract_headers(&files), vec!["a = \"1\"", "b = \"2\"", "a = \"1\""]);
}

#[test]
fn no_files_give_no_directives() {
    assert_eq!(extract_headers(&[]), Vec::<String>::new());
}

#[test]
fn extraction_agrees_with_the_iterator_form_on_plain_headers() {
    let files = texts(&[
        "//# a\n//#  b \nfn main() {}\n//# c\n",
        "#!/bin/x\n\n\n//#c\nmod x;\n",
        "",
        "\n",
        "//#",
    ]);
    let expected: Vec<String> = files
        .iter()
        .flat_map(|file| {
            file.lines()
                .skip_while(|line| line.starts_with("#!") || line.is_empty())
                .take_while(|line| line.starts_with("//#"))
                .map(|line| line[3..].trim_start().to_string())
                .filter(|s| !s.is_empty())
                .collect::<Vec<String>>()
        })
        .collect();
    assert_eq!(extract_headers(&files), expected);
}
