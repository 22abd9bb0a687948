//! Lenient reading of partial ISO 8601 date-times.

use vstd::prelude::*;
use vstd::slice::slice_subrange;
use vstd::string::{StrSliceExecFns, StringExecFns};
use chrono::NaiveDateTime;
use crate::chrono_bridge::{datetime_parse_from_str, parsed_datetime};

verus! {

/// The format that the strict parser is given: `YYYY-MM-DD HH:MM:SS`.
pub const CANONICAL_FORMAT: &'static str = "%Y-%m-%d %H:%M:%S";

/// A kind of character that a scan looks for.
#[derive(Clone, Copy, Debug, PartialEq, Eq)]
pub enum CharClass {
    /// White space, as Unicode defines it.
    Whitespace,
    /// Anything but white space.
    Visible,
    /// One given character.
    Only(char),
}

/// Whether `c` is white space: a character with the Unicode property
/// `White_Space`.
pub open spec fn is_whitespace(c: char) -> bool {
    ||| c == ' '
    ||| '\u{9}' <= c <= '\u{d}'
    ||| c == '\u{85}'
    ||| c == '\u{a0}'
    ||| c == '\u{1680}'
    ||| '\u{2000}' <= c <= '\u{200a}'
    ||| c == '\u{2028}'
    ||| c == '\u{2029}'
    ||| c == '\u{202f}'
    ||| c == '\u{205f}'
    ||| c == '\u{3000}'
}

/// Whether `c` is of the kind `class`.
pub open spec fn in_class(c: char, class: CharClass) -> bool {
    match class {
        CharClass::Whitespace => is_whitespace(c),
        CharClass::Visible => !is_whitespace(c),
        CharClass::Only(wanted) => c == wanted,
    }
}

/// The first place in `text`, from `from` on, that holds a character of the
/// kind `class`; the length of `text` where none does.
pub open spec fn first_in_class(text: Seq<char>, from: int, class: CharClass) -> int
    recommends
        0 <= from,
    decreases text.len() - from,
{
    if from >= text.len() {
        text.len() as int
    } else if in_class(text[from], class) {
        from
    } else {
        first_in_class(text, from + 1, class)
    }
}

/// The place after `at` in `text`, or its length where `at` is the length.
pub open spec fn place_after(text: Seq<char>, at: int) -> int {
    if at < text.len() {
        at + 1
    } else {
        at
    }
}

/// The text before its first `.`, where a fraction of a second starts: the
/// fraction and whatever follows it are left out.
pub open spec fn before_fraction(text: Seq<char>) -> Seq<char> {
    text.take(first_in_class(text, 0, CharClass::Only('.')))
}

/// The text with a space in place of each `T`.
pub open spec fn with_spaces(text: Seq<char>) -> Seq<char> {
    Seq::new(
        text.len(),
        |i: int|
            if text[i] == 'T' {
                ' '
            } else {
                text[i]
            },
    )
}

/// Where the first word of `text` at or after `from` starts: at its first
/// character that is no white space.
pub open spec fn word_start(text: Seq<char>, from: int) -> int {
    first_in_class(text, from, CharClass::Visible)
}

/// Where the first word of `text` at or after `from` ends: at the first
/// white space after its start.
pub open spec fn word_end(text: Seq<char>, from: int) -> int {
    first_in_class(text, word_start(text, from), CharClass::Whitespace)
}

/// The date segment of `text`: its first word, empty where it has none.
pub open spec fn date_segment(text: Seq<char>) -> Seq<char> {
    text.subrange(word_start(text, 0), word_end(text, 0))
}

/// The time segment of `text`: its second word, empty where it has none.
/// Further words are left out.
pub open spec fn time_segment(text: Seq<char>) -> Seq<char> {
    text.subrange(word_start(text, word_end(text, 0)), word_end(text, word_end(text, 0)))
}

/// Where the part `n` of `segment` starts, the parts being what the
/// separators `sep` stand between: part 0 at the start, each later part after
/// the separator that ends the one before, or at the end of `segment` where
/// no separator is left.
pub open spec fn part_start(segment: Seq<char>, sep: char, n: nat) -> int
    decreases n,
{
    if n == 0 {
        0
    } else {
        let before = part_start(segment, sep, (n - 1) as nat);
        place_after(segment, first_in_class(segment, before, CharClass::Only(sep)))
    }
}

/// The part `n` of `segment` between separators `sep`; empty where `segment`
/// has no such part.
pub open spec fn part(segment: Seq<char>, sep: char, n: nat) -> Seq<char> {
    let start = part_start(segment, sep, n);
    segment.subrange(start, first_in_class(segment, start, CharClass::Only(sep)))
}

/// `count` zeros.
pub open spec fn zeros(count: nat) -> Seq<char> {
    Seq::new(count, |i: int| '0')
}

/// `field` with zeros before it, as many as it is short of `width`
/// characters.
pub open spec fn zero_padded(field: Seq<char>, width: nat) -> Seq<char> {
    if field.len() >= width {
        field
    } else {
        zeros((width - field.len()) as nat) + field
    }
}

/// `field`, or `1` where it is empty: a month or a day that is missing is the
/// first.
pub open spec fn or_first(field: Seq<char>) -> Seq<char> {
    if field.len() == 0 {
        seq!['1']
    } else {
        field
    }
}

/// The date segment `segment` as `YYYY-MM-DD`. Without a year it is
/// `2000-01-01`, whatever else it holds. Else it is the first three parts
/// between `-`, a missing month or day taken as `1`, the year padded with
/// zeros to four characters and month and day to two.
pub open spec fn normalized_date(segment: Seq<char>) -> Seq<char> {
    if part(segment, '-', 0).len() == 0 {
        "2000-01-01"@
    } else {
        zero_padded(part(segment, '-', 0), 4) + seq!['-'] + zero_padded(
            or_first(part(segment, '-', 1)),
            2,
        ) + seq!['-'] + zero_padded(or_first(part(segment, '-', 2)), 2)
    }
}

/// The time segment `segment` as `HH:MM:SS`: the first three parts between
/// `:`, each padded with zeros to two characters, so that a missing one is
/// `00`.
pub open spec fn normalized_time(segment: Seq<char>) -> Seq<char> {
    zero_padded(part(segment, ':', 0), 2) + seq![':'] + zero_padded(part(segment, ':', 1), 2)
        + seq![':'] + zero_padded(part(segment, ':', 2), 2)
}

/// The text `text` in the form `YYYY-MM-DD HH:MM:SS`: of what stands before
/// its first `.`, with each `T` read as a space, the first word as a date and
/// the second as a time, with a space between them.
pub open spec fn normalized(text: Seq<char>) -> Seq<char> {
    let words = with_spaces(before_fraction(text));
    normalized_date(date_segment(words)) + seq![' '] + normalized_time(time_segment(words))
}

fn is_whitespace_char(c: char) -> (b: bool)
    ensures
        b == is_whitespace(c),
{
    c == ' ' || ('\u{9}' <= c && c <= '\u{d}') || c == '\u{85}' || c == '\u{a0}' || c
        == '\u{1680}' || ('\u{2000}' <= c && c <= '\u{200a}') || c == '\u{2028}' || c
        == '\u{2029}' || c == '\u{202f}' || c == '\u{205f}' || c == '\u{3000}'
}

fn is_in_class(c: char, class: CharClass) -> (b: bool)
    ensures
        b == in_class(c, class),
{
    match class {
        CharClass::Whitespace => is_whitespace_char(c),
        CharClass::Visible => !is_whitespace_char(c),
        CharClass::Only(wanted) => c == wanted,
    }
}

/// The first place from `from` on with a character of the kind `class`.
fn find_first(text: &[char], from: usize, class: CharClass) -> (at: usize)
    requires
        from <= text.len(),
    ensures
        at == first_in_class(text@, from as int, class),
        from <= at <= text.len(),
{
    let mut at = from;
    while at < text.len() && !is_in_class(text[at], class)
        invariant
            from <= at <= text.len(),
            first_in_class(text@, at as int, class) == first_in_class(text@, from as int, class),
        decreases text.len() - at,
    {
        at += 1;
    }
    at
}

/// The characters of `text`, one by one.
fn chars_of(text: &str) -> (chars: Vec<char>)
    ensures
        chars@ == text@,
{
    let mut chars: Vec<char> = Vec::new();
    for c in it: text.chars()
        invariant
            chars@ == it.seq().take(it.index()),
    {
        chars.push(c);
    }
    chars
}

/// What stands before the first `.`, with a space for each `T`.
fn words_of(chars: &[char]) -> (words: Vec<char>)
    ensures
        words@ == with_spaces(before_fraction(chars@)),
{
    let end = find_first(chars, 0, CharClass::Only('.'));
    let mut words: Vec<char> = Vec::new();
    let mut at: usize = 0;
    while at < end
        invariant
            at <= end <= chars.len(),
            words@ == with_spaces(chars@.take(at as int)),
        decreases end - at,
    {
        let c = chars[at];
        words.push(
            if c == 'T' {
                ' '
            } else {
                c
            },
        );
        at += 1;
        assert(words@ =~= with_spaces(chars@.take(at as int)));
    }
    words
}

/// Appends `field` to `out`, after the zeros that pad it to `width`.
fn append_padded(out: &mut String, field: &str, width: usize)
    ensures
        final(out)@ == old(out)@ + zero_padded(field@, width as nat),
{
    let ghost before = out@;
    let len = field.unicode_len();
    let mut padded = len;
    while padded < width
        invariant
            len <= padded,
            len < width ==> padded <= width,
            len >= width ==> padded == len,
            out@ == before + zeros((padded - len) as nat),
        decreases width - padded,
    {
        proof {
            reveal_strlit("0");
        }
        out.append("0");
        padded += 1;
        assert(out@ =~= before + zeros((padded - len) as nat));
    }
    out.append(field);
    assert(out@ =~= before + zero_padded(field@, width as nat));
}

/// The part of `segment` from `start` to `end`, taken from `text`, in which
/// `segment` stands from `offset` on.
fn field_of<'a>(text: &'a str, segment: &[char], offset: usize, start: usize, end: usize) -> (field:
    &'a str)
    requires
        start <= end <= segment.len(),
        offset + segment.len() <= text@.len() <= usize::MAX,
        text@.subrange(offset as int, offset + segment.len()) == segment@,
    ensures
        field@ == segment@.subrange(start as int, end as int),
{
    assert(text@.subrange(offset + start, offset + end) =~= segment@.subrange(
        start as int,
        end as int,
    ));
    text.substring_char(offset + start, offset + end)
}

/// `field`, or `1` where it is empty.
fn or_first_of<'a>(field: &'a str) -> (r: &'a str)
    ensures
        r@ == or_first(field@),
{
    if field.unicode_len() == 0 {
        proof {
            reveal_strlit("1");
            assert("1"@ =~= seq!['1']);
        }
        "1"
    } else {
        field
    }
}

/// Where the part starts that follows the one ending at `end`.
fn start_after(segment: &[char], end: usize) -> (start: usize)
    requires
        end <= segment.len(),
    ensures
        start == place_after(segment@, end as int),
        end <= start <= segment.len(),
{
    if end < segment.len() {
        end + 1
    } else {
        end
    }
}

/// The first three parts of a segment, by their ends.
proof fn lemma_three_parts(segment: Seq<char>, sep: char)
    ensures
        ({
            let class = CharClass::Only(sep);
            let first_end = first_in_class(segment, 0, class);
            let second_start = place_after(segment, first_end);
            let second_end = first_in_class(segment, second_start, class);
            let third_start = place_after(segment, second_end);
            let third_end = first_in_class(segment, third_start, class);
            &&& part(segment, sep, 0) == segment.subrange(0, first_end)
            &&& part(segment, sep, 1) == segment.subrange(second_start, second_end)
            &&& part(segment, sep, 2) == segment.subrange(third_start, third_end)
        }),
{
    reveal_with_fuel(part_start, 3);
}

/// Appends to `out` the date segment `segment` as `YYYY-MM-DD`. `segment`
/// stands in `text` from `offset` on.
fn append_date(out: &mut String, text: &str, segment: &[char], offset: usize)
    requires
        offset + segment.len() <= text@.len() <= usize::MAX,
        text@.subrange(offset as int, offset + segment.len()) == segment@,
    ensures
        final(out)@ == old(out)@ + normalized_date(segment@),
{
    let ghost before = out@;
    let sep = CharClass::Only('-');
    let year_end = find_first(segment, 0, sep);
    if year_end == 0 {
        out.append("2000-01-01");
    } else {
        let month_start = start_after(segment, year_end);
        let month_end = find_first(segment, month_start, sep);
        let day_start = start_after(segment, month_end);
        let day_end = find_first(segment, day_start, sep);
        let year = field_of(text, segment, offset, 0, year_end);
        let month = or_first_of(field_of(text, segment, offset, month_start, month_end));
        let day = or_first_of(field_of(text, segment, offset, day_start, day_end));
        proof {
            lemma_three_parts(segment@, '-');
            reveal_strlit("-");
            assert("-"@ =~= seq!['-']);
        }
        append_padded(out, year, 4);
        out.append("-");
        append_padded(out, month, 2);
        out.append("-");
        append_padded(out, day, 2);
        assert(out@ =~= before + (zero_padded(year@, 4) + seq!['-'] + zero_padded(month@, 2)
            + seq!['-'] + zero_padded(day@, 2)));
    }
}

/// Appends to `out` the time segment `segment` as `HH:MM:SS`. `segment`
/// stands in `text` from `offset` on.
fn append_time(out: &mut String, text: &str, segment: &[char], offset: usize)
    requires
        offset + segment.len() <= text@.len() <= usize::MAX,
        text@.subrange(offset as int, offset + segment.len()) == segment@,
    ensures
        final(out)@ == old(out)@ + normalized_time(segment@),
{
    let ghost before = out@;
    let sep = CharClass::Only(':');
    let hour_end = find_first(segment, 0, sep);
    let minute_start = start_after(segment, hour_end);
    let minute_end = find_first(segment, minute_start, sep);
    let second_start = start_after(segment, minute_end);
    let second_end = find_first(segment, second_start, sep);
    let hour = field_of(text, segment, offset, 0, hour_end);
    let minute = field_of(text, segment, offset, minute_start, minute_end);
    let second = field_of(text, segment, offset, second_start, second_end);
    proof {
        lemma_three_parts(segment@, ':');
        reveal_strlit(":");
        assert(":"@ =~= seq![':']);
    }
    append_padded(out, hour, 2);
    out.append(":");
    append_padded(out, minute, 2);
    out.append(":");
    append_padded(out, second, 2);
    assert(out@ =~= before + (zero_padded(hour@, 2) + seq![':'] + zero_padded(minute@, 2)
        + seq![':'] + zero_padded(second@, 2)));
}

/// From `from` to the first character of the kind `class`, no character of
/// `text` is of that kind.
pub proof fn lemma_first_in_class(text: Seq<char>, from: int, class: CharClass)
    requires
        0 <= from <= text.len(),
    ensures
        from <= first_in_class(text, from, class) <= text.len(),
        forall|i: int|
            from <= i < first_in_class(text, from, class) ==> !in_class(#[trigger] text[i], class),
        first_in_class(text, from, class) < text.len() ==> in_class(
            text[first_in_class(text, from, class)],
            class,
        ),
    decreases text.len() - from,
{
    if from < text.len() && !in_class(text[from], class) {
        lemma_first_in_class(text, from + 1, class);
    }
}

/// The first character of a kind is at `at`, where none before it is of that
/// kind and the one at `at` is, or `at` is the end of `text`.
pub proof fn lemma_first_in_class_is(text: Seq<char>, from: int, class: CharClass, at: int)
    requires
        0 <= from <= at <= text.len(),
        forall|i: int| from <= i < at ==> !in_class(#[trigger] text[i], class),
        at < text.len() ==> in_class(text[at], class),
    ensures
        first_in_class(text, from, class) == at,
    decreases at - from,
{
    if from < at {
        lemma_first_in_class_is(text, from + 1, class, at);
    }
}

/// A word of `words`, the text with spaces for `T`, is the same in `text`: it
/// holds no space, so it held no `T`.
proof fn lemma_word_is_unchanged(text: Seq<char>, from: int)
    requires
        0 <= from <= text.len(),
    ensures
        ({
            let words = with_spaces(text);
            &&& from <= word_start(words, from) <= word_end(words, from) <= text.len()
            &&& words.subrange(word_start(words, from), word_end(words, from)) == text.subrange(
                word_start(words, from),
                word_end(words, from),
            )
        }),
{
    let words = with_spaces(text);
    lemma_first_in_class(words, from, CharClass::Visible);
    lemma_first_in_class(words, word_start(words, from), CharClass::Whitespace);
    let start = word_start(words, from);
    let end = word_end(words, from);
    assert forall|i: int| start <= i < end implies words[i] == text[i] by {
        assert(!in_class(words[i], CharClass::Whitespace));
    }
    assert(words.subrange(start, end) =~= text.subrange(start, end));
}

/// The text in the form `YYYY-MM-DD HH:MM:SS` that the strict parser takes.
///
/// What follows the first `.` is dropped, and each `T` is read as a space. The
/// first word is the date and the second the time; further words are
/// dropped. Of the date, the parts between `-` are year, month and day: the
/// year is padded with zeros to four characters, month and day to two, a
/// missing month or day is `01`, and without a year the date is `2000-01-01`.
/// Of the time, the parts between `:` are hour, minute and second, each padded
/// with zeros to two characters, a missing one `00`. A part is not changed
/// otherwise, whatever it holds.
///
/// A date that begins with `-` is without a year, a year before the year 0
/// among them: `-4713-11-24` is read as `2000-01-01`.
pub fn normalize_fuzzy_iso_string(text: &str) -> (canonical: String)
    ensures
        canonical@ == normalized(text@),
{
    let chars = chars_of(text);
    let words = words_of(chars.as_slice());
    let all = words.as_slice();
    let date_start = find_first(all, 0, CharClass::Visible);
    let date_end = find_first(all, date_start, CharClass::Whitespace);
    let time_start = find_first(all, date_end, CharClass::Visible);
    let time_end = find_first(all, time_start, CharClass::Whitespace);
    proof {
        let stem = before_fraction(text@);
        lemma_first_in_class(text@, 0, CharClass::Only('.'));
        assert(text@.len() == chars.len());
        assert(words@.len() == stem.len());
        assert(stem.len() <= text@.len());
        assert(date_end <= time_end <= words@.len());
        lemma_word_is_unchanged(stem, 0);
        lemma_word_is_unchanged(stem, date_end as int);
        assert(stem.subrange(date_start as int, date_end as int) =~= text@.subrange(
            date_start as int,
            date_end as int,
        ));
        assert(stem.subrange(time_start as int, time_end as int) =~= text@.subrange(
            time_start as int,
            time_end as int,
        ));
        reveal_strlit(" ");
        assert(" "@ =~= seq![' ']);
    }
    let mut canonical = String::new();
    append_date(&mut canonical, text, slice_subrange(all, date_start, date_end), date_start);
    canonical.append(" ");
    append_time(&mut canonical, text, slice_subrange(all, time_start, time_end), time_start);
    assert(canonical@ =~= normalized(text@));
    canonical
}

/// The error of a text that is no date-time.
#[derive(Clone, Copy, Debug, PartialEq, Eq)]
pub struct DateParseError {
    /// What the strict parser said of the text in canonical form.
    pub diagnostic: chrono::format::ParseError,
}

/// The date-time that the text `text` stands for: what the strict parser
/// makes of `normalized(text)` under `CANONICAL_FORMAT`, its error kept.
pub open spec fn fuzzy_datetime(text: Seq<char>) -> Result<NaiveDateTime, DateParseError> {
    match parsed_datetime(normalized(text), CANONICAL_FORMAT@) {
        Ok(dt) => Ok(dt),
        Err(diagnostic) => Err(DateParseError { diagnostic }),
    }
}

/// A date-time that is read from a partial ISO 8601 text.
pub trait FromFuzzyIsoString: Sized {
    /// The date-time that `text` stands for, or why it stands for none.
    spec fn of_fuzzy_iso_string(text: Seq<char>) -> Result<Self, DateParseError>;

    /// The date-time that `text` stands for, what it leaves out filled in.
    fn from_fuzzy_iso_string(text: &str) -> (r: Result<Self, DateParseError>)
        ensures
            r == Self::of_fuzzy_iso_string(text@),
    ;
}

impl FromFuzzyIsoString for NaiveDateTime {
    open spec fn of_fuzzy_iso_string(text: Seq<char>) -> Result<NaiveDateTime, DateParseError> {
        fuzzy_datetime(text)
    }

    /// Reads `text` as `normalize_fuzzy_iso_string` puts it, with the strict
    /// parser. Whatever that parser refuses is an error: a part that is no
    /// number, a month 13, an hour 24.
    fn from_fuzzy_iso_string(text: &str) -> (r: Result<NaiveDateTime, DateParseError>) {
        let canonical = normalize_fuzzy_iso_string(text);
        match datetime_parse_from_str(canonical.as_str(), CANONICAL_FORMAT) {
            Ok(dt) => Ok(dt),
            Err(diagnostic) => Err(DateParseError { diagnostic }),
        }
    }
}

/// Whether `c` is one of the digits `0` to `9`.
pub open spec fn is_digit(c: char) -> bool {
    '0' <= c <= '9'
}

/// What stands at the place `at` of a text in canonical form, where that is
/// no digit.
pub open spec fn canonical_mark(at: int) -> Option<char> {
    if at == 4 || at == 7 {
        Some('-')
    } else if at == 10 {
        Some(' ')
    } else if at == 13 || at == 16 {
        Some(':')
    } else {
        None
    }
}

/// Whether `text` is in canonical form: `YYYY-MM-DD HH:MM:SS`, a digit for
/// each letter.
pub open spec fn is_canonical(text: Seq<char>) -> bool {
    &&& text.len() == 19
    &&& forall|at: int|
        0 <= at < 19 ==> match canonical_mark(at) {
            Some(mark) => #[trigger] text[at] == mark,
            None => is_digit(text[at]),
        }
}

/// Three parts of as many characters as they are padded to, with the
/// separator between them, are what `segment` is made of.
proof fn lemma_parts_of_three(segment: Seq<char>, sep: char, first: int)
    requires
        first >= 2,
        segment.len() == first + 6,
        segment[first] == sep,
        segment[first + 3] == sep,
        forall|i: int|
            0 <= i < segment.len() && i != first && i != first + 3 ==> #[trigger] segment[i]
                != sep,
    ensures
        part(segment, sep, 0) == segment.subrange(0, first),
        part(segment, sep, 1) == segment.subrange(first + 1, first + 3),
        part(segment, sep, 2) == segment.subrange(first + 4, first + 6),
{
    let class = CharClass::Only(sep);
    reveal_with_fuel(part_start, 3);
    lemma_first_in_class_is(segment, 0, class, first);
    lemma_first_in_class_is(segment, first + 1, class, first + 3);
    lemma_first_in_class_is(segment, first + 4, class, first + 6);
}

/// A text in canonical form is its own canonical form, so that it is read as
/// the strict parser reads it.
pub proof fn lemma_canonical_text_is_unchanged(text: Seq<char>)
    requires
        is_canonical(text),
    ensures
        normalized(text) == text,
        fuzzy_datetime(text) == (match parsed_datetime(text, CANONICAL_FORMAT@) {
            Ok(dt) => Ok::<NaiveDateTime, DateParseError>(dt),
            Err(diagnostic) => Err(DateParseError { diagnostic }),
        }),
{
    assert forall|i: int| 0 <= i < 19 implies {
        &&& text[i] != '.'
        &&& text[i] != 'T'
        &&& (i != 10 ==> !is_whitespace(text[i]))
        &&& (i != 4 && i != 7 ==> text[i] != '-')
        &&& (i != 13 && i != 16 ==> text[i] != ':')
    } by {
        assert(match canonical_mark(i) {
            Some(mark) => text[i] == mark,
            None => is_digit(text[i]),
        });
    }
    lemma_first_in_class_is(text, 0, CharClass::Only('.'), 19);
    assert(before_fraction(text) =~= text);
    assert(with_spaces(text) =~= text);
    lemma_first_in_class_is(text, 0, CharClass::Visible, 0);
    lemma_first_in_class_is(text, 0, CharClass::Whitespace, 10);
    lemma_first_in_class_is(text, 10, CharClass::Visible, 11);
    lemma_first_in_class_is(text, 11, CharClass::Whitespace, 19);
    let date = text.subrange(0, 10);
    let time = text.subrange(11, 19);
    assert(date_segment(text) == date);
    assert(time_segment(text) == time);
    lemma_parts_of_three(date, '-', 4);
    lemma_parts_of_three(time, ':', 2);
    assert(normalized_date(date) =~= date);
    assert(normalized_time(time) =~= time);
    assert(normalized(text) =~= text);
}

} // verus!
