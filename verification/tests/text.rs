use cargo_play::steps::file_headers;
use cargo_play::text::{chars_of, is_ascii_space, is_white_space, line_bounds, string_of, words};

/// The lines of `text` as the library splits them.
fn library_lines(text: &str) -> Vec<String> {
    let chars = chars_of(text);
    let mut lines = Vec::new();
    let mut at = 0;
    while at < chars.len() {
        let (end, next) = line_bounds(&chars, at);
        lines.push(string_of(&chars, at, end));
        at = next;
    }
    lines
}

fn std_lines(text: &str) -> Vec<String> {
    text.lines().map(|line| line.to_string()).collect()
}

#[test]
fn white_space_is_what_std_calls_white_space() {
    let mut code: u32 = 0;
    while code <= 0x10FFFF {
        if let Some(c) = char::from_u32(code) {
            assert_eq!(is_white_space(c), c.is_whitespace(), "U+{:04X}", code);
        }
        code += 1;
    }
}

#[test]
fn ascii_space_is_what_std_calls_ascii_white_space() {
    let mut code: u32 = 0;
    while code <= 0x10FFFF {
        if let Some(c) = char::from_u32(code) {
            assert_eq!(is_ascii_space(c), c.is_ascii_whitespace(), "U+{:04X}", code);
        }
        code += 1;
    }
}

#[test]
fn chars_of_keeps_every_character() {
    assert_eq!(chars_of(""), Vec::<char>::new());
    assert_eq!(chars_of("a\u{e9}\u{4e16}\n"), vec!['a', '\u{e9}', '\u{4e16}', '\n']);
}

#[test]
fn string_of_takes_the_range() {
    let chars = chars_of("hello world");
    assert_eq!(string_of(&chars, 6, 11), "world");
    assert_eq!(string_of(&chars, 3, 3), "");
    assert_eq!(string_of(&chars, 0, 11), "hello world");
}

#[test]
fn lines_are_split_as_std_splits_them() {
    let samples = [
        "",
        "\n",
        "\r\n",
        "\r",
        "a",
        "a\n",
        "a\nb",
        "a\r\nb\r\n",
        "a\rb\n",
        "a\r",
        "a\n\r",
        "\n\n",
        "a\n\nb\n",
        "\r\r\n",
        "one\r\ntwo\nthree\r",
        "\u{4e16}\u{754c}\r\n\u{e9}",
        "//# a\n\n\n",
    ];
    for text in samples {
        assert_eq!(library_lines(text), std_lines(text), "{:?}", text);
    }
}

#[test]
fn a_lone_carriage_return_stays_in_its_line() {
    assert_eq!(library_lines("a\rb\nc\r"), vec!["a\rb".to_string(), "c\r".to_string()]);
}

#[test]
fn an_empty_text_has_no_lines() {
    assert_eq!(library_lines(""), Vec::<String>::new());
    assert_eq!(library_lines("\n"), vec![String::new()]);
}

#[test]
fn words_are_split_as_std_splits_them() {
    let samples = [
        "",
        " ",
        "a",
        "  a  ",
        "a b",
        "--release --features  x,y",
        "\ta\nb\u{c}c\rd ",
        "a\u{a0}b c",
        "a\u{b}b",
        "\"quoted text\" \\ x",
        "\u{4e16} \u{754c}",
    ];
    for text in samples {
        let expected: Vec<String> =
            text.split_ascii_whitespace().map(|word| word.to_string()).collect();
        assert_eq!(words(text), expected, "{:?}", text);
    }
}

#[test]
fn words_keep_quotes_and_backslashes() {
    assert_eq!(
        words("--config 'a b' c\\ d"),
        vec!["--config", "'a", "b'", "c\\", "d"]
    );
}

#[test]
fn directive_text_loses_leading_white_space_of_any_kind() {
    assert_eq!(file_headers("//#\u{3000}\t\u{a0} x = 1"), vec!["x = 1"]);
    assert_eq!(file_headers("//#\u{200b}x"), vec!["\u{200b}x"]);
}
