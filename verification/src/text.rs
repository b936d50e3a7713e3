//! Character-level helpers shared by the rest of the crate.
//!
//! Text is modelled as `Seq<char>`. Executable code turns a `&str` into a
//! `Vec<char>` once and then works with indices into it, so that every
//! position has a direct meaning in the model.

use vstd::prelude::*;

verus! {

/// Whether `c` is white space: one of the code points that Unicode gives the
/// property `White_Space`.
pub open spec fn white_space(c: char) -> bool {
    let u = c as u32;
    ||| 0x09 <= u <= 0x0D
    ||| u == 0x20
    ||| u == 0x85
    ||| u == 0xA0
    ||| u == 0x1680
    ||| 0x2000 <= u <= 0x200A
    ||| u == 0x2028
    ||| u == 0x2029
    ||| u == 0x202F
    ||| u == 0x205F
    ||| u == 0x3000
}

/// Whether `c` is white space.
pub fn is_white_space(c: char) -> (r: bool)
    ensures
        r == white_space(c),
{
    let u: u32 = c as u32;
    (0x09 <= u && u <= 0x0D) || u == 0x20 || u == 0x85 || u == 0xA0 || u == 0x1680 || (0x2000 <= u
        && u <= 0x200A) || u == 0x2028 || u == 0x2029 || u == 0x202F || u == 0x205F || u == 0x3000
}

/// `String::push` appends one character and leaves the rest unchanged.
#[verifier::external_body]
pub(crate) fn push_char(text: &mut String, c: char)
    ensures
        final(text)@ == old(text)@.push(c),
{
    text.push(c)
}

/// Appends `text` to `list`.
pub fn push_text(list: &mut Vec<String>, text: String)
    ensures
        final(list).deep_view() == old(list).deep_view().push(text@),
{
    let ghost before = list.deep_view();
    list.push(text);
    assert(list.deep_view() =~= before.push(text@));
}

/// Appends copies of `more` to `list`, in order.
pub fn push_texts(list: &mut Vec<String>, more: &[String])
    ensures
        final(list).deep_view() == old(list).deep_view() + more.deep_view(),
{
    let ghost before = list.deep_view();
    let mut i: usize = 0;
    assert(more.deep_view().take(0) =~= Seq::<Seq<char>>::empty());
    while i < more.len()
        invariant
            i <= more.len(),
            list.deep_view() == before + more.deep_view().take(i as int),
        decreases more.len() - i,
    {
        let ghost so_far = more.deep_view().take(i as int);
        push_text(list, more[i].clone());
        assert(more.deep_view().take(i + 1) =~= so_far.push(more[i as int]@));
        i += 1;
    }
    assert(more.deep_view().take(i as int) =~= more.deep_view());
}

/// The characters of `text`, in order.
pub fn chars_of(text: &str) -> (chars: Vec<char>)
    ensures
        chars@ == text@,
{
    let mut chars: Vec<char> = Vec::new();
    for c in it: text.chars()
        invariant
            chars@ == it.seq().take(it.index() as int),
    {
        chars.push(c);
    }
    chars
}

/// The string made of `chars[from..to]`.
pub fn string_of(chars: &Vec<char>, from: usize, to: usize) -> (text: String)
    requires
        from <= to <= chars.len(),
    ensures
        text@ == chars@.subrange(from as int, to as int),
{
    let mut text = String::new();
    let mut i: usize = from;
    while i < to
        invariant
            from <= i <= to <= chars.len(),
            text@ == chars@.subrange(from as int, i as int),
        decreases to - i,
    {
        push_char(&mut text, chars[i]);
        i += 1;
    }
    text
}

/// The number of leading characters of `text` that are white space.
pub open spec fn leading_white_space(text: Seq<char>) -> nat
    decreases text.len(),
{
    if text.len() > 0 && white_space(text[0]) {
        1 + leading_white_space(text.skip(1))
    } else {
        0
    }
}

/// `text` without its leading white space.
pub open spec fn trim_start(text: Seq<char>) -> Seq<char> {
    text.skip(leading_white_space(text) as int)
}

/// The first position at or after `from`, and before `to`, that holds no white
/// space; `to` if there is none.
pub fn skip_white_space(chars: &Vec<char>, from: usize, to: usize) -> (at: usize)
    requires
        from <= to <= chars.len(),
    ensures
        at == from + leading_white_space(chars@.subrange(from as int, to as int)),
        from <= at <= to,
        chars@.subrange(at as int, to as int) == trim_start(
            chars@.subrange(from as int, to as int),
        ),
{
    let mut at: usize = from;
    while at < to && is_white_space(chars[at])
        invariant
            from <= at <= to <= chars.len(),
            leading_white_space(chars@.subrange(from as int, to as int)) == (at - from)
                + leading_white_space(chars@.subrange(at as int, to as int)),
        decreases to - at,
    {
        assert(chars@.subrange(at as int, to as int).skip(1) =~= chars@.subrange(
            at as int + 1,
            to as int,
        ));
        at += 1;
    }
    assert(chars@.subrange(from as int, to as int).skip(at - from) =~= chars@.subrange(
        at as int,
        to as int,
    ));
    at
}

/// The position of the first line feed of `text` at or after `from`; the
/// length of `text` if there is none.
pub open spec fn line_end(text: Seq<char>, from: int) -> int
    decreases text.len() - from,
{
    if 0 <= from < text.len() && text[from] != '\n' {
        line_end(text, from + 1)
    } else {
        from
    }
}

/// Where the content of the line that starts at `from` ends: at its line
/// feed, or one earlier when a carriage return stands right before that line
/// feed. A carriage return at the very end of the text is content.
pub open spec fn line_content_end(text: Seq<char>, from: int) -> int {
    let end = line_end(text, from);
    if from < end < text.len() && text[end - 1] == '\r' {
        end - 1
    } else {
        end
    }
}

/// The line of `text` that starts at `from`, without its line ending.
pub open spec fn line_at(text: Seq<char>, from: int) -> Seq<char> {
    text.subrange(from, line_content_end(text, from))
}

/// Where the line after the one that starts at `from` begins.
pub open spec fn next_line(text: Seq<char>, from: int) -> int {
    let end = line_end(text, from);
    if end < text.len() {
        end + 1
    } else {
        end
    }
}

/// The lines of `text` from position `from` on.
pub open spec fn lines_from(text: Seq<char>, from: int) -> Seq<Seq<char>>
    decreases text.len() - from,
    via lines_from_terminates
{
    if 0 <= from < text.len() {
        seq![line_at(text, from)] + lines_from(text, next_line(text, from))
    } else {
        Seq::empty()
    }
}

/// The next line starts after the start of this one.
#[via_fn]
proof fn lines_from_terminates(text: Seq<char>, from: int) {
    if 0 <= from < text.len() {
        lemma_line_end_bounds(text, from);
    }
}

/// The lines of `text`. A line ends at a line feed, or at a carriage return
/// followed by a line feed; neither belongs to the line. The last line needs
/// no line ending, and an empty text has no lines.
pub open spec fn lines_of(text: Seq<char>) -> Seq<Seq<char>> {
    lines_from(text, 0)
}

/// A line ends at or after its start, at the first line feed from there on.
pub proof fn lemma_line_end_bounds(text: Seq<char>, from: int)
    requires
        0 <= from <= text.len(),
    ensures
        from <= line_end(text, from) <= text.len(),
        line_end(text, from) < text.len() ==> text[line_end(text, from)] == '\n',
        forall|k: int| from <= k < line_end(text, from) ==> text[k] != '\n',
    decreases text.len() - from,
{
    if from < text.len() && text[from] != '\n' {
        lemma_line_end_bounds(text, from + 1);
    }
}

/// The first line and the rest: below the end of the text, `lines_from` is
/// never empty.
pub proof fn lemma_lines_from_unfold(text: Seq<char>, from: int)
    requires
        0 <= from < text.len(),
    ensures
        lines_from(text, from).len() > 0,
        lines_from(text, from)[0] == line_at(text, from),
        lines_from(text, from).skip(1) == lines_from(text, next_line(text, from)),
        from < next_line(text, from) <= text.len(),
        from <= line_content_end(text, from) <= text.len(),
{
    lemma_line_end_bounds(text, from);
    assert(lines_from(text, from).skip(1) =~= lines_from(text, next_line(text, from)));
}

/// The end of a line lies where it lies in the text after `before`, moved by
/// the length of `before`.
pub proof fn lemma_line_end_after(before: Seq<char>, text: Seq<char>, from: int)
    requires
        0 <= from <= text.len(),
    ensures
        line_end(before + text, before.len() + from) == before.len() + line_end(text, from),
    decreases text.len() - from,
{
    let whole = before + text;
    if from < text.len() {
        assert(whole[before.len() + from] == text[from]);
        if text[from] != '\n' {
            lemma_line_end_after(before, text, from + 1);
        }
    }
}

/// The lines of a text that follows `before` are the lines of that text.
pub proof fn lemma_lines_after(before: Seq<char>, text: Seq<char>, from: int)
    requires
        0 <= from <= text.len(),
    ensures
        lines_from(before + text, before.len() + from) == lines_from(text, from),
    decreases text.len() - from,
{
    let whole = before + text;
    let shift = before.len() as int;
    if from < text.len() {
        lemma_line_end_after(before, text, from);
        lemma_line_end_bounds(text, from);
        let end = line_end(text, from);
        if from < end {
            assert(whole[shift + end - 1] == text[end - 1]);
        }
        assert(line_content_end(whole, shift + from) == shift + line_content_end(text, from));
        assert(line_at(whole, shift + from) =~= line_at(text, from));
        assert(next_line(whole, shift + from) == shift + next_line(text, from));
        lemma_lines_after(before, text, next_line(text, from));
    }
}

/// Within a text that ends in a line feed, the end of a line is not moved by
/// what follows the text.
pub proof fn lemma_line_end_before(text: Seq<char>, after: Seq<char>, from: int)
    requires
        0 <= from < text.len(),
        text.last() == '\n',
    ensures
        line_end(text + after, from) == line_end(text, from),
        line_end(text, from) < text.len(),
    decreases text.len() - from,
{
    let whole = text + after;
    assert(whole[from] == text[from]);
    if text[from] != '\n' {
        lemma_line_end_before(text, after, from + 1);
    }
}

/// The lines of a text that ends in a line feed, followed by the lines of
/// what comes after it, are the lines of the two together.
pub proof fn lemma_lines_before(text: Seq<char>, after: Seq<char>, from: int)
    requires
        0 <= from <= text.len(),
        text.len() == 0 || text.last() == '\n',
    ensures
        lines_from(text + after, from) == lines_from(text, from) + lines_of(after),
    decreases text.len() - from,
{
    let whole = text + after;
    if from < text.len() {
        lemma_line_end_before(text, after, from);
        let end = line_end(text, from);
        lemma_line_end_bounds(text, from);
        if from < end {
            assert(whole[end - 1] == text[end - 1]);
        }
        assert(line_at(whole, from) =~= line_at(text, from));
        lemma_lines_before(text, after, end + 1);
        assert(lines_from(whole, from) =~= lines_from(text, from) + lines_of(after));
    } else {
        lemma_lines_after(text, after, 0);
        assert(lines_from(text, from) + lines_of(after) =~= lines_of(after));
    }
}

/// Lines do not reach across a line feed: the lines of a text that ends in a
/// line feed and of a text that follows it are the lines of the two
/// together.
pub proof fn lemma_lines_concat(text: Seq<char>, after: Seq<char>)
    requires
        text.len() == 0 || text.last() == '\n',
    ensures
        lines_of(text + after) == lines_of(text) + lines_of(after),
{
    lemma_lines_before(text, after, 0);
}

/// A text without line feed that does not end in a carriage return, followed
/// by a line feed, is one line.
pub proof fn lemma_one_line(line: Seq<char>)
    requires
        forall|k: int| 0 <= k < line.len() ==> line[k] != '\n',
        line.len() == 0 || line.last() != '\r',
    ensures
        lines_of(line.push('\n')) == seq![line],
{
    let text = line.push('\n');
    lemma_line_end_bounds(text, 0);
    let end = line_end(text, 0);
    assert(text[line.len() as int] == '\n');
    if end < line.len() {
        assert(text[end] == line[end]);
    }
    assert(end == line.len());
    assert(line_at(text, 0) =~= line);
    assert(lines_from(text, text.len() as int) =~= Seq::<Seq<char>>::empty());
    assert(lines_of(text) =~= seq![line]);
}

/// Where the content of the line starting at `from` ends, and where the next
/// line starts.
pub fn line_bounds(chars: &Vec<char>, from: usize) -> (bounds: (usize, usize))
    requires
        from < chars.len(),
    ensures
        bounds.0 == line_content_end(chars@, from as int),
        bounds.1 == next_line(chars@, from as int),
        from <= bounds.0 <= chars.len(),
        from < bounds.1 <= chars.len(),
{
    let mut end: usize = from;
    while end < chars.len() && chars[end] != '\n'
        invariant
            from <= end <= chars.len(),
            line_end(chars@, from as int) == line_end(chars@, end as int),
        decreases chars.len() - end,
    {
        end += 1;
    }
    if end < chars.len() {
        if from < end && chars[end - 1] == '\r' {
            (end - 1, end + 1)
        } else {
            (end, end + 1)
        }
    } else {
        (end, end)
    }
}

/// Whether `c` separates words: a space, a tab, a line feed, a form feed or
/// a carriage return.
pub open spec fn ascii_space(c: char) -> bool {
    c == ' ' || c == '\t' || c == '\n' || c == '\u{c}' || c == '\r'
}

/// The first position at or after `from` that holds a separator; the length
/// of `text` if there is none.
pub open spec fn word_end(text: Seq<char>, from: int) -> int
    decreases text.len() - from,
{
    if 0 <= from < text.len() && !ascii_space(text[from]) {
        word_end(text, from + 1)
    } else {
        from
    }
}

/// The words of `text` from position `from` on.
pub open spec fn words_from(text: Seq<char>, from: int) -> Seq<Seq<char>>
    decreases text.len() - from,
    via words_from_terminates
{
    if 0 <= from < text.len() {
        if ascii_space(text[from]) {
            words_from(text, from + 1)
        } else {
            seq![text.subrange(from, word_end(text, from))] + words_from(
                text,
                word_end(text, from),
            )
        }
    } else {
        Seq::empty()
    }
}

/// A word ends after its start.
#[via_fn]
proof fn words_from_terminates(text: Seq<char>, from: int) {
    if 0 <= from < text.len() {
        lemma_word_end_bounds(text, from);
    }
}

/// The words of `text`: its longest stretches without a separator, in order.
/// No word is empty, and nothing is unquoted or unescaped.
pub open spec fn words_of(text: Seq<char>) -> Seq<Seq<char>> {
    words_from(text, 0)
}

/// A word ends at the first separator after its start, and it is not empty.
pub proof fn lemma_word_end_bounds(text: Seq<char>, from: int)
    requires
        0 <= from <= text.len(),
    ensures
        from <= word_end(text, from) <= text.len(),
        from < text.len() && !ascii_space(text[from]) ==> from < word_end(text, from),
        word_end(text, from) < text.len() ==> ascii_space(text[word_end(text, from)]),
        forall|k: int| from <= k < word_end(text, from) ==> !ascii_space(text[k]),
    decreases text.len() - from,
{
    if from < text.len() && !ascii_space(text[from]) {
        lemma_word_end_bounds(text, from + 1);
    }
}

/// Whether `c` separates words.
pub fn is_ascii_space(c: char) -> (r: bool)
    ensures
        r == ascii_space(c),
{
    c == ' ' || c == '\t' || c == '\n' || c == '\u{c}' || c == '\r'
}

/// The words of `text`, in order.
pub fn words(text: &str) -> (found: Vec<String>)
    ensures
        found.deep_view() == words_of(text@),
{
    let chars = chars_of(text);
    let n = chars.len();
    let mut found: Vec<String> = Vec::new();
    let mut at: usize = 0;
    assert(found.deep_view() =~= Seq::<Seq<char>>::empty());
    while at < n
        invariant
            n == chars.len(),
            at <= n,
            words_of(chars@) == found.deep_view() + words_from(chars@, at as int),
        decreases n - at,
    {
        if is_ascii_space(chars[at]) {
            at += 1;
        } else {
            let mut end: usize = at + 1;
            while end < n && !is_ascii_space(chars[end])
                invariant
                    n == chars.len(),
                    at < end <= n,
                    !ascii_space(chars@[at as int]),
                    word_end(chars@, at as int) == word_end(chars@, end as int),
                decreases n - end,
            {
                end += 1;
            }
            let word = string_of(&chars, at, end);
            let ghost before = found.deep_view();
            push_text(&mut found, word);
            assert(before.push(word@) + words_from(chars@, end as int) =~= before + (seq![word@]
                + words_from(chars@, end as int)));
            at = end;
        }
    }
    assert(words_of(chars@) =~= found.deep_view());
    found
}

} // verus!
