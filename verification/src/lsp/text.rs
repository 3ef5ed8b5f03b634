//! The text of open documents: the word and the character before the cursor,
//! and the few string tests the server makes on names and paths.

use vstd::prelude::*;
use ropey::Rope;
use crate::lsp::model::Position;

verus! {

#[verifier::external_type_specification]
#[verifier::external_body]
pub struct ExRope(Rope);

/// The characters that a rope holds.
pub uninterp spec fn rope_text(rope: Rope) -> Seq<char>;

/// The characters that ropey takes for line breaks (with its default
/// features): LF, VT, FF, CR, NEL, LINE SEPARATOR, PARAGRAPH SEPARATOR.
pub open spec fn is_line_break_char(c: char) -> bool {
    ||| c == '\n'
    ||| c == '\u{b}'
    ||| c == '\u{c}'
    ||| c == '\r'
    ||| c == '\u{85}'
    ||| c == '\u{2028}'
    ||| c == '\u{2029}'
}

/// A line break of `text` ends just before index `i`: the character before
/// `i` is a line break, and is not the CR of a CRLF pair, which counts as one
/// line break ending after its LF.
pub open spec fn break_ends_at(text: Seq<char>, i: int) -> bool {
    &&& 0 < i <= text.len()
    &&& is_line_break_char(text[i - 1])
    &&& !(text[i - 1] == '\r' && i < text.len() && text[i] == '\n')
}

/// The number of line breaks that end within the first `n` characters.
pub open spec fn breaks_before(text: Seq<char>, n: int) -> int
    decreases n,
{
    if n <= 0 {
        0
    } else {
        breaks_before(text, n - 1) + if break_ends_at(text, n) {
            1int
        } else {
            0int
        }
    }
}

/// The number of lines of a text as ropey counts them: one more than the
/// number of its line breaks.
pub open spec fn rope_line_count(text: Seq<char>) -> int {
    breaks_before(text, text.len() as int) + 1
}

/// The first index from `n` on before which at least `line` line breaks
/// end, or the length of the text if there is none.
pub open spec fn line_start_from(text: Seq<char>, line: int, n: int) -> int
    decreases text.len() - n,
{
    if n >= text.len() {
        text.len() as int
    } else if breaks_before(text, n) >= line {
        n
    } else {
        line_start_from(text, line, n + 1)
    }
}

/// The char index at which line `line` of a text starts: just after its
/// `line`-th line break (0 for the first line), and the length of the text
/// for the line one past the last.
pub open spec fn rope_line_to_char(text: Seq<char>, line: int) -> int {
    line_start_from(text, line, 0)
}

proof fn lemma_breaks_before_monotone(text: Seq<char>, n: int, m: int)
    requires
        n <= m,
    ensures
        breaks_before(text, n) <= breaks_before(text, m),
    decreases m - n,
{
    if n < m {
        lemma_breaks_before_monotone(text, n, m - 1);
    }
}

proof fn lemma_line_start_from_bounds(text: Seq<char>, line: int, n: int)
    requires
        0 <= n,
    ensures
        0 <= line_start_from(text, line, n) <= text.len(),
        line >= rope_line_count(text) ==> line_start_from(text, line, n) == text.len(),
    decreases text.len() - n,
{
    if n < text.len() {
        lemma_breaks_before_monotone(text, n, text.len() as int);
        lemma_line_start_from_bounds(text, line, n + 1);
    }
}

/// Line starts are char indices of the text; the line one past the last
/// starts at its end.
pub proof fn lemma_line_start_bounds(text: Seq<char>, line: int)
    ensures
        0 <= rope_line_to_char(text, line) <= text.len(),
        line >= rope_line_count(text) ==> rope_line_to_char(text, line) == text.len(),
{
    lemma_line_start_from_bounds(text, line, 0);
}

/// `Rope::len_chars`: the number of characters of the rope.
#[verifier::external_body]
fn rope_len_chars(rope: &Rope) -> (r: usize)
    ensures
        r == rope_text(*rope).len(),
{
    rope.len_chars()
}

/// `Rope::len_lines`: the number of lines of the rope, at least one.
#[verifier::external_body]
fn rope_len_lines(rope: &Rope) -> (r: usize)
    ensures
        r == rope_line_count(rope_text(*rope)),
        r >= 1,
{
    rope.len_lines()
}

/// `Rope::line_to_char`: the char index of the start of line `line`, which
/// may be one past the last line. It panics on a later line, which
/// `requires` leaves out.
#[verifier::external_body]
fn rope_line_start(rope: &Rope, line: usize) -> (r: usize)
    requires
        line <= rope_line_count(rope_text(*rope)),
    ensures
        r == rope_line_to_char(rope_text(*rope), line as int),
{
    rope.line_to_char(line)
}

/// `Rope::slice` turned into a `String` through its `Display`: the
/// characters `start..end` of the rope. `slice` panics unless
/// `start <= end <= len_chars`.
#[verifier::external_body]
fn rope_slice_string(rope: &Rope, start: usize, end: usize) -> (r: String)
    requires
        start <= end <= rope_text(*rope).len(),
    ensures
        r@ == rope_text(*rope).subrange(start as int, end as int),
{
    rope.slice(start..end).to_string()
}

/// `Rope::char`: the character at index `i`; it panics past the end.
#[verifier::external_body]
fn rope_char(rope: &Rope, i: usize) -> (r: char)
    requires
        i < rope_text(*rope).len(),
    ensures
        r == rope_text(*rope)[i as int],
{
    rope.char(i)
}

/// The characters that have the Unicode `White_Space` property.
pub open spec fn is_white_space(c: char) -> bool {
    ||| '\u{9}' <= c <= '\u{d}'
    ||| c == ' '
    ||| c == '\u{85}'
    ||| c == '\u{a0}'
    ||| c == '\u{1680}'
    ||| '\u{2000}' <= c <= '\u{200a}'
    ||| c == '\u{2028}'
    ||| c == '\u{2029}'
    ||| c == '\u{202f}'
    ||| c == '\u{205f}'
    ||| c == '\u{3000}'
}

/// Whether `c` has the Unicode `White_Space` property, as `char::is_whitespace`
/// decides it.
pub fn char_is_whitespace(c: char) -> (r: bool)
    ensures
        r == is_white_space(c),
{
    ('\u{9}' <= c && c <= '\u{d}') || c == ' ' || c == '\u{85}' || c == '\u{a0}' || c == '\u{1680}'
        || ('\u{2000}' <= c && c <= '\u{200a}') || c == '\u{2028}' || c == '\u{2029}' || c
        == '\u{202f}' || c == '\u{205f}' || c == '\u{3000}'
}

/// The length of `s` without its trailing white space.
pub open spec fn end_of_words(s: Seq<char>) -> int
    decreases s.len(),
{
    if s.len() == 0 {
        0
    } else if is_white_space(s.last()) {
        end_of_words(s.drop_last())
    } else {
        s.len() as int
    }
}

/// Where the word that ends at `e` starts: just after the last white space
/// before `e`, or at 0.
pub open spec fn word_start(s: Seq<char>, e: int) -> int
    decreases e,
{
    if e <= 0 {
        0
    } else if is_white_space(s[e - 1]) {
        e
    } else {
        word_start(s, e - 1)
    }
}

/// The last of the words of `s` that white space separates, if it has any.
pub open spec fn last_word(s: Seq<char>) -> Option<Seq<char>> {
    let e = end_of_words(s);
    if e == 0 {
        None
    } else {
        Some(s.subrange(word_start(s, e), e))
    }
}

proof fn lemma_end_of_words_bounds(s: Seq<char>)
    ensures
        0 <= end_of_words(s) <= s.len(),
        end_of_words(s) > 0 ==> !is_white_space(s[end_of_words(s) - 1]),
    decreases s.len(),
{
    if s.len() > 0 && is_white_space(s.last()) {
        lemma_end_of_words_bounds(s.drop_last());
    }
}

proof fn lemma_word_start_bounds(s: Seq<char>, e: int)
    requires
        e <= s.len(),
    ensures
        0 <= word_start(s, e) <= if e < 0 { 0 } else { e },
    decreases e,
{
    if e > 0 && !is_white_space(s[e - 1]) {
        lemma_word_start_bounds(s, e - 1);
    }
}

proof fn lemma_word_has_no_white_space(s: Seq<char>, e: int)
    requires
        e <= s.len(),
    ensures
        forall|i: int| word_start(s, e) <= i < e ==> !is_white_space(#[trigger] s[i]),
    decreases e,
{
    if e > 0 && !is_white_space(s[e - 1]) {
        lemma_word_has_no_white_space(s, e - 1);
    }
}

/// A word of `s` is a non-empty run of `s` without white space.
proof fn lemma_last_word_shape(s: Seq<char>)
    ensures
        last_word(s) matches Some(w) ==> 0 < w.len() <= s.len() && forall|i: int|
            0 <= i < w.len() ==> !is_white_space(#[trigger] w[i]),
{
    lemma_end_of_words_bounds(s);
    let e = end_of_words(s);
    if e > 0 {
        lemma_word_start_bounds(s, e - 1);
        lemma_word_has_no_white_space(s, e);
        let b = word_start(s, e);
        assert(b == word_start(s, e - 1));
        let w = s.subrange(b, e);
        assert forall|i: int| 0 <= i < w.len() implies !is_white_space(#[trigger] w[i]) by {
            assert(w[i] == s[b + i]);
        }
    }
}

/// The last word of `s` that white space separates, if it has any.
pub fn last_word_of(s: &String) -> (r: Option<String>)
    ensures
        match r {
            Some(w) => last_word(s@) == Some(w@),
            None => last_word(s@) is None,
        },
{
    let text = s.as_str();
    let n = text.unicode_len();
    let mut e = n;
    assert(s@.take(n as int) =~= s@);
    while e > 0 && char_is_whitespace(text.get_char(e - 1))
        invariant
            e <= n,
            n == s@.len(),
            text@ == s@,
            end_of_words(s@) == end_of_words(s@.take(e as int)),
        decreases e,
    {
        assert(s@.take(e as int).drop_last() =~= s@.take(e - 1));
        e = e - 1;
    }
    proof {
        lemma_end_of_words_bounds(s@);
        if e > 0 {
            assert(end_of_words(s@.take(e as int)) == e);
        }
    }
    if e == 0 {
        assert(end_of_words(s@.take(0)) == 0);
        return None;
    }
    let mut b = e;
    while b > 0 && !char_is_whitespace(text.get_char(b - 1))
        invariant
            b <= e,
            e <= n,
            n == s@.len(),
            text@ == s@,
            word_start(s@, e as int) == word_start(s@, b as int),
        decreases b,
    {
        b = b - 1;
    }
    proof {
        lemma_word_start_bounds(s@, e as int);
    }
    Some(String::from_str(text.substring_char(b, e)))
}

/// The number of characters before the cursor that the server looks at to
/// find the word that the cursor follows.
pub const WORD_WINDOW: usize = 50;

/// The char index of the cursor in `text`.
pub open spec fn cursor_index(text: Seq<char>, pos: Position) -> int {
    rope_line_to_char(text, pos.line as int) + pos.character
}

/// The cursor lies within the text: its line exists (or is one past the
/// last), and its character offset does not run past the end.
pub open spec fn cursor_in_text(text: Seq<char>, pos: Position) -> bool {
    &&& pos.line <= rope_line_count(text)
    &&& cursor_index(text, pos) <= text.len()
}

/// The last word among the `WORD_WINDOW` characters before the cursor.
pub open spec fn word_before(text: Seq<char>, pos: Position) -> Option<Seq<char>> {
    let c = cursor_index(text, pos);
    let start = if c < WORD_WINDOW { 0 } else { c - WORD_WINDOW };
    last_word(text.subrange(start, c))
}

/// The character just before the cursor, unless the cursor is at the start.
pub open spec fn char_before(text: Seq<char>, pos: Position) -> Option<char> {
    let c = cursor_index(text, pos);
    if c == 0 {
        None
    } else {
        Some(text[c - 1])
    }
}

/// The word just before the cursor in `document`: the last word among the
/// `WORD_WINDOW` characters before it. A word is never empty, holds no white
/// space and is at most `WORD_WINDOW` characters long.
pub fn get_word_before_position(document: &Rope, pos: &Position) -> (r: Option<String>)
    requires
        cursor_in_text(rope_text(*document), *pos),
    ensures
        match r {
            Some(w) => word_before(rope_text(*document), *pos) == Some(w@),
            None => word_before(rope_text(*document), *pos) is None,
        },
        r matches Some(w) ==> 0 < w@.len() <= WORD_WINDOW && forall|i: int|
            0 <= i < w@.len() ==> !is_white_space(#[trigger] w@[i]),
{
    let len = rope_len_chars(document);
    let char_pos = rope_line_start(document, pos.line as usize) + pos.character as usize;
    let start = char_pos.saturating_sub(WORD_WINDOW);
    let text_before_pos = rope_slice_string(document, start, char_pos);
    proof {
        lemma_last_word_shape(text_before_pos@);
    }
    last_word_of(&text_before_pos)
}

/// The character just before the cursor in `document`, unless the cursor is
/// at its start.
pub fn get_char_before_position(document: &Rope, pos: &Position) -> (r: Option<char>)
    requires
        cursor_in_text(rope_text(*document), *pos),
    ensures
        r == char_before(rope_text(*document), *pos),
{
    let len = rope_len_chars(document);
    let char_pos = rope_line_start(document, pos.line as usize) + pos.character as usize;
    if char_pos == 0 {
        return None;
    }
    let last_char_pos = char_pos.saturating_sub(1);
    Some(rope_char(document, last_char_pos))
}

/// Whether the cursor lies within `document`, that is, whether the two
/// lookups above may be made.
pub fn is_cursor_in_document(document: &Rope, pos: &Position) -> (r: bool)
    ensures
        r == cursor_in_text(rope_text(*document), *pos),
{
    let lines = rope_len_lines(document);
    if pos.line as usize > lines {
        return false;
    }
    let line_start = rope_line_start(document, pos.line as usize);
    proof {
        lemma_line_start_bounds(rope_text(*document), pos.line as int);
    }
    pos.character as usize <= rope_len_chars(document) - line_start
}

/// The word before the cursor, where the cursor lies within the document;
/// `None` where it does not (the lookup cannot be made there).
pub fn checked_word_before_position(document: &Rope, pos: &Position) -> (r: Option<Option<String>>)
    ensures
        r is None <==> !cursor_in_text(rope_text(*document), *pos),
        r matches Some(Some(w)) ==> word_before(rope_text(*document), *pos) == Some(w@),
        r matches Some(None) ==> word_before(rope_text(*document), *pos) is None,
        r matches Some(Some(w)) ==> 0 < w@.len() <= WORD_WINDOW && forall|i: int|
            0 <= i < w@.len() ==> !is_white_space(#[trigger] w@[i]),
{
    if is_cursor_in_document(document, pos) {
        Some(get_word_before_position(document, pos))
    } else {
        None
    }
}

/// The character before the cursor, where the cursor lies within the
/// document; `None` where it does not.
pub fn checked_char_before_position(document: &Rope, pos: &Position) -> (r: Option<Option<char>>)
    ensures
        r is None <==> !cursor_in_text(rope_text(*document), *pos),
        r matches Some(c) ==> c == char_before(rope_text(*document), *pos),
{
    if is_cursor_in_document(document, pos) {
        Some(get_char_before_position(document, pos))
    } else {
        None
    }
}

/// Whether `s` holds the character `c`.
pub fn contains_char(s: &String, c: char) -> (r: bool)
    ensures
        r == s@.contains(c),
{
    let text = s.as_str();
    let n = text.unicode_len();
    let mut i: usize = 0;
    while i < n
        invariant
            i <= n,
            n == s@.len(),
            text@ == s@,
            forall|j: int| 0 <= j < i ==> s@[j] != c,
        decreases n - i,
    {
        if text.get_char(i) == c {
            assert(s@[i as int] == c);
            return true;
        }
        i = i + 1;
    }
    false
}

/// Whether `s` ends with `suffix`.
pub fn ends_with(s: &String, suffix: &str) -> (r: bool)
    ensures
        r == (suffix@.len() <= s@.len() && s@.subrange(s@.len() - suffix@.len(), s@.len() as int)
            == suffix@),
{
    let text = s.as_str();
    let n = text.unicode_len();
    let m = suffix.unicode_len();
    if m > n {
        return false;
    }
    let off = n - m;
    let mut i: usize = 0;
    while i < m
        invariant
            i <= m,
            m <= n,
            off == n - m,
            n == s@.len(),
            m == suffix@.len(),
            text@ == s@,
            forall|j: int| 0 <= j < i ==> s@[off + j] == suffix@[j],
        decreases m - i,
    {
        if text.get_char(off + i) != suffix.get_char(i) {
            assert(s@.subrange(off as int, n as int)[i as int] != suffix@[i as int]);
            return false;
        }
        i = i + 1;
    }
    assert(s@.subrange(off as int, n as int) =~= suffix@);
    true
}

/// `s` with every occurrence of `c` taken out.
pub open spec fn without_char(s: Seq<char>, c: char) -> Seq<char>
    decreases s.len(),
{
    if s.len() == 0 {
        s
    } else if s.last() == c {
        without_char(s.drop_last(), c)
    } else {
        without_char(s.drop_last(), c).push(s.last())
    }
}

/// Whether `name` equals `word` with every `c` taken out of it.
pub fn equals_without_char(name: &String, word: &String, c: char) -> (r: bool)
    ensures
        r == (name@ == without_char(word@, c)),
{
    let text = word.as_str();
    let n = text.unicode_len();
    let mut kept: Vec<char> = Vec::new();
    let mut i: usize = 0;
    while i < n
        invariant
            i <= n,
            n == word@.len(),
            text@ == word@,
            kept@ == without_char(word@.take(i as int), c),
        decreases n - i,
    {
        let d = text.get_char(i);
        assert(word@.take(i + 1).drop_last() =~= word@.take(i as int));
        if d != c {
            kept.push(d);
        }
        i = i + 1;
    }
    assert(word@.take(n as int) =~= word@);
    let other = name.as_str();
    let m = other.unicode_len();
    if m != kept.len() {
        return false;
    }
    let mut j: usize = 0;
    while j < m
        invariant
            j <= m,
            m == kept@.len(),
            m == name@.len(),
            kept@ == without_char(word@, c),
            other@ == name@,
            forall|k: int| 0 <= k < j ==> name@[k] == kept@[k],
        decreases m - j,
    {
        if other.get_char(j) != kept[j] {
            assert(name@[j as int] != kept@[j as int]);
            return false;
        }
        j = j + 1;
    }
    assert(name@ =~= kept@);
    true
}

} // verus!
