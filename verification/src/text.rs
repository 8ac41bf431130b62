//! Plain text as sequences of characters: searching, trimming, lines, words and numerals.

use vstd::prelude::*;
use vstd::slice::{slice_subrange, slice_to_vec};
use vstd::string::*;

verus! {

/// The rows of a list of vectors, as sequences.
pub open spec fn rows<A>(table: Seq<Vec<A>>) -> Seq<Seq<A>> {
    table.map_values(|row: Vec<A>| row@)
}

/// The characters of every string in a list.
pub open spec fn texts(list: Seq<String>) -> Seq<Seq<char>> {
    list.map_values(|item: String| item@)
}

/// `needle` stands in `text` at index `at`.
pub open spec fn occurs_at(text: Seq<char>, needle: Seq<char>, at: int) -> bool {
    &&& 0 <= at
    &&& at + needle.len() <= text.len()
    &&& text.subrange(at, at + needle.len()) == needle
}

/// `needle` stands somewhere in `text`.
pub open spec fn contains_text(text: Seq<char>, needle: Seq<char>) -> bool {
    exists|at: int| occurs_at(text, needle, at)
}

/// The first index from `from` on at which `needle` stands in `text`.
pub open spec fn find_from(text: Seq<char>, needle: Seq<char>, from: int) -> Option<int>
    decreases text.len() + 1 - from,
{
    if from < 0 || from + needle.len() > text.len() {
        None
    } else if occurs_at(text, needle, from) {
        Some(from)
    } else {
        find_from(text, needle, from + 1)
    }
}

/// The first index at which `needle` stands in `text`.
pub open spec fn find_in(text: Seq<char>, needle: Seq<char>) -> Option<int> {
    find_from(text, needle, 0)
}

/// The first index from `from` on that holds `item`.
pub open spec fn position_from<A>(list: Seq<A>, item: A, from: int) -> Option<int>
    decreases list.len() - from,
{
    if from < 0 || from >= list.len() {
        None
    } else if list[from] == item {
        Some(from)
    } else {
        position_from(list, item, from + 1)
    }
}

/// `text` begins with `prefix`.
pub open spec fn begins_with(text: Seq<char>, prefix: Seq<char>) -> bool {
    occurs_at(text, prefix, 0)
}

/// The characters with Unicode's `White_Space` property.
pub open spec fn white_space(c: char) -> bool {
    ||| '\u{9}' <= c <= '\u{d}'
    ||| c == ' '
    ||| c == '\u{85}'
    ||| c == '\u{a0}'
    ||| c == '\u{1680}'
    ||| '\u{2000}' <= c <= '\u{200a}'
    ||| c == '\u{2028}'
    ||| c == '\u{2029}'
    ||| c == '\u{202f}'
    ||| c == '\u{205f}'
    ||| c == '\u{3000}'
}

/// The first index from `from` on that holds no white space, or the end of `text`.
pub open spec fn after_white(text: Seq<char>, from: int) -> int
    decreases text.len() - from,
{
    if from < 0 || from >= text.len() || !white_space(text[from]) {
        from
    } else {
        after_white(text, from + 1)
    }
}

/// The first index from `from` on that holds white space, or the end of `text`.
pub open spec fn after_word(text: Seq<char>, from: int) -> int
    decreases text.len() - from,
{
    if from < 0 || from >= text.len() || white_space(text[from]) {
        from
    } else {
        after_word(text, from + 1)
    }
}

/// `text` without its leading white space.
pub open spec fn trim_start(text: Seq<char>) -> Seq<char> {
    text.skip(after_white(text, 0))
}

/// The end of `text.take(to)` once its trailing white space is left off.
pub open spec fn before_white(text: Seq<char>, to: int) -> int
    decreases to,
{
    if to <= 0 || to > text.len() || !white_space(text[to - 1]) {
        to
    } else {
        before_white(text, to - 1)
    }
}

/// `text` without its leading and trailing white space.
pub open spec fn trim(text: Seq<char>) -> Seq<char> {
    trim_start(text.take(before_white(text, text.len() as int)))
}

/// An upper case ASCII letter in lower case; any other character as it is.
pub open spec fn lower_char(c: char) -> char {
    if 'A' <= c <= 'Z' {
        ((c as u8) + 32) as u8 as char
    } else {
        c
    }
}

/// `text` with its ASCII letters in lower case.
pub open spec fn ascii_lower(text: Seq<char>) -> Seq<char> {
    text.map_values(|c: char| lower_char(c))
}

/// A line's text without a carriage return at its end.
pub open spec fn without_return(line: Seq<char>) -> Seq<char> {
    if line.len() > 0 && line.last() == '\r' {
        line.drop_last()
    } else {
        line
    }
}

/// The lines of `text`: each ends at a line feed, with or without a carriage return before it,
/// and the last one may end with the text.
pub open spec fn lines(text: Seq<char>) -> Seq<Seq<char>>
    decreases text.len(),
{
    if text.len() == 0 {
        seq![]
    } else {
        match position_from(text, '\n', 0) {
            Some(end) => {
                proof {
                    lemma_position_from(text, '\n', 0);
                }
                seq![without_return(text.take(end))] + lines(text.skip(end + 1))
            },
            None => seq![text],
        }
    }
}

/// The words of `text`, parted by white space.
pub open spec fn words(text: Seq<char>) -> Seq<Seq<char>>
    decreases text.len(),
{
    let start = after_white(text, 0);
    let end = after_word(text, start);
    if start >= text.len() {
        seq![]
    } else {
        proof {
            lemma_after_white(text, 0);
            lemma_after_word(text, start);
        }
        seq![text.subrange(start, end)] + words(text.skip(end))
    }
}

/// The decimal digit of `d`.
pub open spec fn digit_char(d: int) -> char {
    if d == 0 {
        '0'
    } else if d == 1 {
        '1'
    } else if d == 2 {
        '2'
    } else if d == 3 {
        '3'
    } else if d == 4 {
        '4'
    } else if d == 5 {
        '5'
    } else if d == 6 {
        '6'
    } else if d == 7 {
        '7'
    } else if d == 8 {
        '8'
    } else {
        '9'
    }
}

/// `n` in decimal, without leading zeros.
pub open spec fn decimal(n: nat) -> Seq<char>
    decreases n,
{
    if n < 10 {
        seq![digit_char(n as int)]
    } else {
        decimal(n / 10).push(digit_char((n % 10) as int))
    }
}

/// The upper case hexadecimal digit of `d`.
pub open spec fn hex_char(d: int) -> char {
    if d < 10 {
        digit_char(d)
    } else if d == 10 {
        'A'
    } else if d == 11 {
        'B'
    } else if d == 12 {
        'C'
    } else if d == 13 {
        'D'
    } else if d == 14 {
        'E'
    } else {
        'F'
    }
}

/// A port as four upper case hexadecimal digits.
pub open spec fn port_hex(port: u16) -> Seq<char> {
    seq![
        hex_char((port / 4096) as int),
        hex_char((port / 256 % 16) as int),
        hex_char((port / 16 % 16) as int),
        hex_char((port % 16) as int),
    ]
}

/// A needle is found at or after `from`, or stands nowhere there.
pub proof fn lemma_find_from(text: Seq<char>, needle: Seq<char>, from: int)
    requires
        0 <= from,
    ensures
        match find_from(text, needle, from) {
            Some(at) => from <= at && occurs_at(text, needle, at) && (forall|j: int|
                from <= j < at ==> !occurs_at(text, needle, j)),
            None => forall|j: int| from <= j ==> !occurs_at(text, needle, j),
        },
    decreases text.len() + 1 - from,
{
    if from + needle.len() <= text.len() && !occurs_at(text, needle, from) {
        lemma_find_from(text, needle, from + 1);
    }
}

/// An item is found at or after `from`, or stands nowhere there.
pub proof fn lemma_position_from<A>(list: Seq<A>, item: A, from: int)
    requires
        0 <= from,
    ensures
        match position_from(list, item, from) {
            Some(at) => from <= at < list.len() && list[at] == item && (forall|j: int|
                from <= j < at ==> list[j] != item),
            None => forall|j: int| from <= j < list.len() ==> list[j] != item,
        },
    decreases list.len() - from,
{
    if from < list.len() && list[from] != item {
        lemma_position_from(list, item, from + 1);
    }
}

/// White space ends at or after `from` and within `text`.
pub proof fn lemma_after_white(text: Seq<char>, from: int)
    requires
        0 <= from <= text.len(),
    ensures
        from <= after_white(text, from) <= text.len(),
        after_white(text, from) < text.len() ==> !white_space(text[after_white(text, from)]),
        forall|j: int| from <= j < after_white(text, from) ==> white_space(text[j]),
    decreases text.len() - from,
{
    if from < text.len() && white_space(text[from]) {
        lemma_after_white(text, from + 1);
    }
}

/// A word ends at or after `from` and within `text`.
pub proof fn lemma_after_word(text: Seq<char>, from: int)
    requires
        0 <= from <= text.len(),
    ensures
        from <= after_word(text, from) <= text.len(),
        after_word(text, from) < text.len() ==> white_space(text[after_word(text, from)]),
        forall|j: int| from <= j < after_word(text, from) ==> !white_space(text[j]),
    decreases text.len() - from,
{
    if from < text.len() && !white_space(text[from]) {
        lemma_after_word(text, from + 1);
    }
}

/// The characters of a string.
pub fn chars_of(text: &str) -> (chars: Vec<char>)
    ensures
        chars@ == text@,
{
    let mut chars: Vec<char> = Vec::new();
    for c in it: text.chars()
        invariant
            it.seq() == text@,
            chars@ == it.seq().take(it.index() as int),
    {
        chars.push(c);
    }
    chars
}

/// std's `String::push`, of which it claims what its documentation says: the character is appended
/// to the end of the string, and nothing else changes.
pub assume_specification[ String::push ](string: &mut String, ch: char)
    ensures
        final(string)@ == old(string)@.push(ch),
;

/// The string of a run of characters.
pub fn string_of(chars: &[char]) -> (string: String)
    ensures
        string@ == chars@,
{
    let mut string = String::new();
    let mut i: usize = 0;
    while i < chars.len()
        invariant
            i <= chars@.len(),
            string@ == chars@.take(i as int),
        decreases chars.len() - i,
    {
        string.push(chars[i]);
        i += 1;
        assert(string@ =~= chars@.take(i as int));
    }
    assert(chars@.take(i as int) =~= chars@);
    string
}

/// Whether two runs of characters are the same.
pub fn same_chars(left: &[char], right: &[char]) -> (same: bool)
    ensures
        same == (left@ == right@),
{
    if left.len() != right.len() {
        return false;
    }
    let mut i: usize = 0;
    while i < left.len()
        invariant
            i <= left.len(),
            left.len() == right.len(),
            forall|j: int| 0 <= j < i ==> left@[j] == right@[j],
        decreases left.len() - i,
    {
        if left[i] != right[i] {
            return false;
        }
        i += 1;
    }
    assert(left@ =~= right@);
    true
}

/// Whether two strings hold the same characters.
pub fn same_text(left: &str, right: &str) -> (same: bool)
    ensures
        same == (left@ == right@),
{
    same_chars(chars_of(left).as_slice(), chars_of(right).as_slice())
}

/// Whether `needle` stands in `text` at `at`.
pub fn stands_at(text: &[char], needle: &[char], at: usize) -> (found: bool)
    ensures
        found == occurs_at(text@, needle@, at as int),
{
    if at > text.len() || needle.len() > text.len() - at {
        return false;
    }
    same_chars(slice_subrange(text, at, at + needle.len()), needle)
}

/// The first place at which `needle` stands in `text`.
pub fn find(text: &[char], needle: &[char]) -> (place: Option<usize>)
    ensures
        match place {
            Some(at) => find_in(text@, needle@) == Some(at as int),
            None => find_in(text@, needle@) is None,
        },
{
    let mut at: usize = 0;
    while at <= text.len() && needle.len() <= text.len() - at
        invariant
            at <= text.len() + 1,
            find_in(text@, needle@) == find_from(text@, needle@, at as int),
        decreases text.len() + 1 - at,
    {
        if stands_at(text, needle, at) {
            return Some(at);
        }
        if at == text.len() {
            assert(text@.subrange(at as int, at as int) =~= needle@);
            return None;
        }
        at += 1;
    }
    None
}

/// Whether `needle` stands anywhere in `text`.
pub fn contains(text: &[char], needle: &str) -> (found: bool)
    ensures
        found == contains_text(text@, needle@),
{
    let needle_chars = chars_of(needle);
    proof {
        lemma_find_from(text@, needle@, 0);
    }
    match find(text, needle_chars.as_slice()) {
        Some(_) => true,
        None => false,
    }
}

/// Whether `text` begins with `prefix`.
pub fn starts_with(text: &[char], prefix: &str) -> (found: bool)
    ensures
        found == begins_with(text@, prefix@),
{
    stands_at(text, chars_of(prefix).as_slice(), 0)
}

/// The first place from `from` on that holds `item`.
pub fn position_of_char(text: &[char], item: char, from: usize) -> (place: Option<usize>)
    ensures
        match place {
            Some(at) => position_from(text@, item, from as int) == Some(at as int),
            None => position_from(text@, item, from as int) is None,
        },
{
    let mut at: usize = from;
    while at < text.len()
        invariant
            position_from(text@, item, from as int) == position_from(text@, item, at as int),
        decreases text.len() - at,
    {
        if text[at] == item {
            return Some(at);
        }
        at += 1;
    }
    None
}

/// The first place from `from` on that holds the byte `item`.
pub fn position_of_byte(bytes: &[u8], item: u8, from: usize) -> (place: Option<usize>)
    ensures
        match place {
            Some(at) => position_from(bytes@, item, from as int) == Some(at as int),
            None => position_from(bytes@, item, from as int) is None,
        },
{
    let mut at: usize = from;
    while at < bytes.len()
        invariant
            position_from(bytes@, item, from as int) == position_from(bytes@, item, at as int),
        decreases bytes.len() - at,
    {
        if bytes[at] == item {
            return Some(at);
        }
        at += 1;
    }
    None
}

/// Whether a character is white space.
pub fn is_white_space(c: char) -> (white: bool)
    ensures
        white == white_space(c),
{
    ('\u{9}' <= c && c <= '\u{d}') || c == ' ' || c == '\u{85}' || c == '\u{a0}' || c == '\u{1680}'
        || ('\u{2000}' <= c && c <= '\u{200a}') || c == '\u{2028}' || c == '\u{2029}' || c
        == '\u{202f}' || c == '\u{205f}' || c == '\u{3000}'
}

/// Skips white space from `from` on.
pub fn skip_white(text: &[char], from: usize) -> (at: usize)
    requires
        from <= text@.len(),
    ensures
        at == after_white(text@, from as int),
        from <= at <= text@.len(),
{
    let mut at: usize = from;
    while at < text.len() && is_white_space(text[at])
        invariant
            from <= at <= text@.len(),
            after_white(text@, from as int) == after_white(text@, at as int),
        decreases text.len() - at,
    {
        at += 1;
    }
    at
}

/// Skips what is not white space from `from` on.
pub fn skip_word(text: &[char], from: usize) -> (at: usize)
    requires
        from <= text@.len(),
    ensures
        at == after_word(text@, from as int),
        from <= at <= text@.len(),
{
    let mut at: usize = from;
    while at < text.len() && !is_white_space(text[at])
        invariant
            from <= at <= text@.len(),
            after_word(text@, from as int) == after_word(text@, at as int),
        decreases text.len() - at,
    {
        at += 1;
    }
    at
}

/// The text without white space at its ends.
pub fn trimmed(text: &str) -> (chars: Vec<char>)
    ensures
        chars@ == trim(text@),
{
    let all = chars_of(text);
    let mut end: usize = all.len();
    while end > 0 && is_white_space(all[end - 1])
        invariant
            end <= all@.len(),
            all@ == text@,
            before_white(text@, text@.len() as int) == before_white(text@, end as int),
        decreases end,
    {
        end -= 1;
    }
    let body = slice_subrange(all.as_slice(), 0, end);
    let start = skip_white(body, 0);
    slice_to_vec(slice_subrange(body, start, body.len()))
}

/// A character with its ASCII letter in lower case.
pub fn to_lower_char(c: char) -> (lower: char)
    ensures
        lower == lower_char(c),
{
    if 'A' <= c && c <= 'Z' {
        ((c as u8) + 32) as char
    } else {
        c
    }
}

/// The characters of a string with ASCII letters in lower case.
pub fn lowered(text: &str) -> (chars: Vec<char>)
    ensures
        chars@ == ascii_lower(text@),
{
    let all = chars_of(text);
    let mut chars: Vec<char> = Vec::new();
    let mut i: usize = 0;
    while i < all.len()
        invariant
            i <= all.len(),
            all@ == text@,
            chars@ == ascii_lower(text@.take(i as int)),
        decreases all.len() - i,
    {
        chars.push(to_lower_char(all[i]));
        i += 1;
        assert(chars@ =~= ascii_lower(text@.take(i as int)));
    }
    assert(text@.take(i as int) =~= text@);
    chars
}

/// The lines of a string.
pub fn lines_of(text: &str) -> (list: Vec<Vec<char>>)
    ensures
        rows(list@) == lines(text@),
{
    let all = chars_of(text);
    let mut list: Vec<Vec<char>> = Vec::new();
    let mut at: usize = 0;
    assert(all@.skip(0) =~= all@);
    while at < all.len()
        invariant
            at <= all@.len(),
            all@ == text@,
            rows(list@) + lines(all@.skip(at as int)) == lines(text@),
        decreases all.len() - at,
    {
        let ghost before = rows(list@);
        let rest = slice_subrange(all.as_slice(), at, all.len());
        assert(rest@ =~= all@.skip(at as int));
        proof {
            lemma_position_from(rest@, '\n', 0);
        }
        match position_of_char(rest, '\n', 0) {
            Some(end) => {
                let mut line = slice_to_vec(slice_subrange(rest, 0, end));
                if end > 0 && rest[end - 1] == '\r' {
                    line.pop();
                }
                assert(line@ =~= without_return(rest@.take(end as int)));
                list.push(line);
                at = at + end + 1;
                assert(rest@.skip(end + 1) =~= all@.skip(at as int));
                assert(rows(list@) =~= before.push(line@));
                assert(before.push(line@) + lines(all@.skip(at as int)) =~= before + (seq![line@]
                    + lines(all@.skip(at as int))));
            },
            None => {
                let line = slice_to_vec(rest);
                list.push(line);
                at = all.len();
                assert(lines(all@.skip(at as int)) =~= seq![]);
                assert(rows(list@) =~= before + seq![rest@]);
                assert(rows(list@) + lines(all@.skip(at as int)) =~= rows(list@));
            },
        }
    }
    assert(lines(all@.skip(at as int)) =~= seq![]);
    assert(rows(list@) =~= rows(list@) + lines(all@.skip(at as int)));
    list
}

/// The words of a run of characters.
pub fn words_of(text: &[char]) -> (list: Vec<Vec<char>>)
    ensures
        rows(list@) == words(text@),
{
    let mut list: Vec<Vec<char>> = Vec::new();
    let mut at: usize = 0;
    assert(text@.skip(0) =~= text@);
    loop
        invariant
            at <= text@.len(),
            rows(list@) + words(text@.skip(at as int)) == words(text@),
        decreases text.len() - at,
    {
        let ghost before = rows(list@);
        let rest = slice_subrange(text, at, text.len());
        assert(rest@ =~= text@.skip(at as int));
        let start = skip_white(rest, 0);
        if start >= rest.len() {
            assert(words(rest@) =~= seq![]);
            assert(rows(list@) =~= rows(list@) + words(rest@));
            return list;
        }
        proof {
            lemma_after_white(rest@, 0);
            lemma_after_word(rest@, start as int);
        }
        let end = skip_word(rest, start);
        let word = slice_to_vec(slice_subrange(rest, start, end));
        list.push(word);
        at = at + end;
        assert(rest@.skip(end as int) =~= text@.skip(at as int));
        assert(rows(list@) =~= before.push(word@));
        assert(before.push(word@) + words(text@.skip(at as int)) =~= before + (seq![word@] + words(
            text@.skip(at as int),
        )));
    }
}

/// The decimal digit of `d`, as a string.
fn digit_text(d: u16) -> (digit: &'static str)
    requires
        d < 10,
    ensures
        digit@ == seq![digit_char(d as int)],
{
    proof {
        reveal_strlit("0");
        reveal_strlit("1");
        reveal_strlit("2");
        reveal_strlit("3");
        reveal_strlit("4");
        reveal_strlit("5");
        reveal_strlit("6");
        reveal_strlit("7");
        reveal_strlit("8");
        reveal_strlit("9");
    }
    let digit = match d {
        0 => "0",
        1 => "1",
        2 => "2",
        3 => "3",
        4 => "4",
        5 => "5",
        6 => "6",
        7 => "7",
        8 => "8",
        _ => "9",
    };
    assert(digit@ =~= seq![digit_char(d as int)]);
    digit
}

/// A number in decimal.
pub fn decimal_of(n: u32) -> (numeral: String)
    ensures
        numeral@ == decimal(n as nat),
    decreases n,
{
    if n < 10 {
        digit_text(n as u16).to_owned()
    } else {
        let mut numeral = decimal_of(n / 10);
        numeral.append(digit_text((n % 10) as u16));
        assert(numeral@ =~= decimal((n / 10) as nat).push(digit_char((n % 10) as int)));
        numeral
    }
}

/// The upper case hexadecimal digit of `d`.
fn hex_digit(d: u16) -> (digit: char)
    requires
        d < 16,
    ensures
        digit == hex_char(d as int),
{
    match d {
        0 => '0',
        1 => '1',
        2 => '2',
        3 => '3',
        4 => '4',
        5 => '5',
        6 => '6',
        7 => '7',
        8 => '8',
        9 => '9',
        10 => 'A',
        11 => 'B',
        12 => 'C',
        13 => 'D',
        14 => 'E',
        _ => 'F',
    }
}

/// A port as four upper case hexadecimal digits.
pub fn port_hex_of(port: u16) -> (digits: Vec<char>)
    ensures
        digits@ == port_hex(port),
{
    let mut digits: Vec<char> = Vec::new();
    digits.push(hex_digit(port / 4096));
    digits.push(hex_digit(port / 256 % 16));
    digits.push(hex_digit(port / 16 % 16));
    digits.push(hex_digit(port % 16));
    assert(digits@ =~= port_hex(port));
    digits
}

/// Distinct digits are written differently.
proof fn lemma_hex_char_injective(a: int, b: int)
    requires
        0 <= a < 16,
        0 <= b < 16,
        hex_char(a) == hex_char(b),
    ensures
        a == b,
{
}

/// Two ports with the same four digits are the same port.
pub proof fn law_port_hex_injective(left: u16, right: u16)
    requires
        port_hex(left) == port_hex(right),
    ensures
        left == right,
{
    let l = port_hex(left);
    let r = port_hex(right);
    assert(l[0] == r[0] && l[1] == r[1] && l[2] == r[2] && l[3] == r[3]);
    lemma_hex_char_injective((left / 4096) as int, (right / 4096) as int);
    lemma_hex_char_injective((left / 256 % 16) as int, (right / 256 % 16) as int);
    lemma_hex_char_injective((left / 16 % 16) as int, (right / 16 % 16) as int);
    lemma_hex_char_injective((left % 16) as int, (right % 16) as int);
    assert(left == right) by (bit_vector)
        requires
            left / 4096 == right / 4096,
            left / 256 % 16 == right / 256 % 16,
            left / 16 % 16 == right / 16 % 16,
            left % 16 == right % 16,
    ;
}

/// Strings and rows are looked at item by item.
pub proof fn law_lists_are_looked_at_item_by_item(list: Seq<String>, table: Seq<Vec<char>>)
    ensures
        texts(list).len() == list.len(),
        forall|i: int| 0 <= i < list.len() ==> #[trigger] texts(list)[i] == list[i]@,
        rows(table).len() == table.len(),
        forall|i: int| 0 <= i < table.len() ==> #[trigger] rows(table)[i] == table[i]@,
{
}

/// A text occurs where it was put between two others, and where it occurs, it can be cut out.
pub proof fn law_occurrence_is_between_two_texts(
    before: Seq<char>,
    needle: Seq<char>,
    after: Seq<char>,
    text: Seq<char>,
    at: int,
)
    ensures
        occurs_at(before + needle + after, needle, before.len() as int),
        contains_text(before + needle + after, needle),
        occurs_at(text, needle, at) ==> 0 <= at <= text.len() && text == text.take(at) + needle
            + text.skip(at + needle.len()),
        contains_text(text, needle) ==> exists|k: int|
            0 <= k && k + needle.len() <= text.len() && #[trigger] text.subrange(
                k,
                k + needle.len(),
            ) == needle,
{
    let whole = before + needle + after;
    let place = before.len() as int;
    assert(whole.subrange(place, place + needle.len()) =~= needle);
    assert(occurs_at(whole, needle, place));
    if occurs_at(text, needle, at) {
        assert(text =~= text.take(at) + text.subrange(at, at + needle.len()) + text.skip(
            at + needle.len(),
        ));
    }
    if contains_text(text, needle) {
        let k = choose|k: int| occurs_at(text, needle, k);
        assert(text.subrange(k, k + needle.len()) == needle);
    }
}

/// A text is found where it first occurs, and found wherever it occurs at all.
pub proof fn law_the_first_occurrence_is_found(text: Seq<char>, needle: Seq<char>, at: int)
    requires
        0 <= at,
        at + needle.len() <= text.len(),
        text.subrange(at, at + needle.len()) == needle,
    ensures
        find_in(text, needle) matches Some(first) && 0 <= first <= at && text.subrange(
            first,
            first + needle.len(),
        ) == needle,
{
    lemma_find_from(text, needle, 0);
    assert(occurs_at(text, needle, at));
}

/// A text begins with what was put in front, and with nothing else of that length.
pub proof fn law_a_text_begins_with_what_is_in_front(
    prefix: Seq<char>,
    other: Seq<char>,
    rest: Seq<char>,
)
    requires
        prefix.len() == other.len(),
    ensures
        begins_with(prefix + rest, prefix),
        begins_with(prefix + rest, other) ==> prefix == other,
{
    assert((prefix + rest).subrange(0, prefix.len() as int) =~= prefix);
}

/// Folding changes the upper case letters of ASCII and nothing else.
pub proof fn law_only_upper_case_letters_are_folded(text: Seq<char>, i: int)
    requires
        0 <= i < text.len(),
    ensures
        ascii_lower(text).len() == text.len(),
        'A' <= text[i] <= 'Z' ==> ascii_lower(text)[i] as int == text[i] as int + 32,
        !('A' <= text[i] <= 'Z') ==> ascii_lower(text)[i] == text[i],
        ascii_lower(ascii_lower(text)) == ascii_lower(text),
{
    assert(ascii_lower(ascii_lower(text)) =~= ascii_lower(text));
}

/// A text of one line, and one with a line in front of the rest: a line ends at a line feed, and a
/// carriage return right before that belongs to the ending.
pub proof fn law_lines_are_parted_at_line_feeds(line: Seq<char>, rest: Seq<char>)
    requires
        !line.contains('\n'),
    ensures
        lines(Seq::<char>::empty()) == Seq::<Seq<char>>::empty(),
        line.len() > 0 ==> lines(line) == seq![line],
        line.len() == 0 || line.last() != '\r' ==> lines(line.push('\n') + rest) == seq![line]
            + lines(rest),
        lines(line.push('\r').push('\n') + rest) == seq![line] + lines(rest),
{
    lemma_position_from(line, '\n', 0);
    if let Some(at) = position_from(line, '\n', 0) {
        assert(line.contains(line[at]));
    }
    lemma_line_ends(line, rest);
    let returned = line.push('\r');
    assert(!returned.contains('\n')) by {
        if returned.contains('\n') {
            let i = choose|i: int| 0 <= i < returned.len() && returned[i] == '\n';
            assert(line.contains(line[i]));
        }
    }
    lemma_line_ends(returned, rest);
    assert(returned.drop_last() =~= line);
}

/// What stands before the first line feed is the first line.
proof fn lemma_line_ends(line: Seq<char>, rest: Seq<char>)
    requires
        !line.contains('\n'),
    ensures
        lines(line.push('\n') + rest) == seq![without_return(line)] + lines(rest),
{
    let whole = line.push('\n') + rest;
    let end = line.len() as int;
    lemma_position_from(whole, '\n', 0);
    assert(whole[end] == '\n');
    let first = position_from(whole, '\n', 0);
    assert(first is Some && first->0 == end) by {
        if first->0 < end {
            assert(whole[first->0] == line[first->0]);
            assert(line.contains(line[first->0]));
        }
    }
    assert(whole.take(end) =~= line);
    assert(whole.skip(end + 1) =~= rest);
}

/// A run of characters that are all white space.
pub open spec fn is_blank(run: Seq<char>) -> bool {
    forall|i: int| 0 <= i < run.len() ==> white_space(#[trigger] run[i])
}

/// A run of characters without white space.
pub open spec fn is_solid(run: Seq<char>) -> bool {
    forall|i: int| 0 <= i < run.len() ==> !white_space(#[trigger] run[i])
}

/// White space in front of a text that opens otherwise ends where the text begins.
pub proof fn lemma_blank_ends(before: Seq<char>, blank: Seq<char>, rest: Seq<char>)
    requires
        is_blank(blank),
        rest.len() > 0 ==> !white_space(rest[0]),
    ensures
        after_white(before + blank + rest, before.len() as int) == before.len() + blank.len(),
    decreases blank.len(),
{
    let whole = before + blank + rest;
    if blank.len() > 0 {
        assert(whole[before.len() as int] == blank[0]);
        let tail = blank.drop_first();
        assert forall|i: int| 0 <= i < tail.len() implies white_space(#[trigger] tail[i]) by {
            assert(white_space(blank[i + 1]));
        }
        lemma_blank_ends(before.push(blank[0]), tail, rest);
        assert(before.push(blank[0]) + tail + rest =~= whole);
    } else if rest.len() > 0 {
        assert(whole[before.len() as int] == rest[0]);
    }
}

/// A word in front of white space ends where the white space begins.
pub proof fn lemma_word_ends(before: Seq<char>, word: Seq<char>, rest: Seq<char>)
    requires
        is_solid(word),
        rest.len() > 0 ==> white_space(rest[0]),
    ensures
        after_word(before + word + rest, before.len() as int) == before.len() + word.len(),
    decreases word.len(),
{
    let whole = before + word + rest;
    if word.len() > 0 {
        assert(whole[before.len() as int] == word[0]);
        let tail = word.drop_first();
        assert forall|i: int| 0 <= i < tail.len() implies !white_space(#[trigger] tail[i]) by {
            assert(!white_space(word[i + 1]));
        }
        lemma_word_ends(before.push(word[0]), tail, rest);
        assert(before.push(word[0]) + tail + rest =~= whole);
    } else if rest.len() > 0 {
        assert(whole[before.len() as int] == rest[0]);
    }
}

/// Words are what stands between white space: the first one, behind any white space, is followed by
/// the words of the rest.
pub proof fn law_words_are_parted_by_white_space(
    blank: Seq<char>,
    word: Seq<char>,
    rest: Seq<char>,
)
    requires
        is_blank(blank),
        is_solid(word),
        word.len() > 0,
        rest.len() > 0 ==> white_space(rest[0]),
    ensures
        words(blank) == Seq::<Seq<char>>::empty(),
        words(blank + word + rest) == seq![word] + words(rest),
{
    let none: Seq<char> = seq![];
    assert(none + blank + none =~= blank);
    lemma_blank_ends(none, blank, none);
    let whole = blank + word + rest;
    assert(!white_space(word[0]));
    assert((word + rest)[0] == word[0]);
    lemma_blank_ends(none, blank, word + rest);
    assert(none + blank + (word + rest) =~= whole);
    lemma_word_ends(blank, word, rest);
    let start = blank.len() as int;
    let end = start + word.len();
    assert(whole.subrange(start, end) =~= word);
    assert(whole.skip(end) =~= rest);
}

/// Trailing white space is left off up to the last other character.
proof fn lemma_trailing_blank_ends(front: Seq<char>, blank: Seq<char>)
    requires
        is_blank(blank),
        front.len() > 0 ==> !white_space(front.last()),
    ensures
        before_white(front + blank, (front + blank).len() as int) == front.len(),
    decreases blank.len(),
{
    lemma_trailing_blank_within(front, blank, blank.len() as int);
}

/// Within a text, trailing white space is left off up to the last other character.
proof fn lemma_trailing_blank_within(front: Seq<char>, blank: Seq<char>, count: int)
    requires
        is_blank(blank),
        0 <= count <= blank.len(),
        front.len() > 0 ==> !white_space(front.last()),
    ensures
        before_white(front + blank, front.len() + count) == front.len(),
    decreases count,
{
    let whole = front + blank;
    if count > 0 {
        assert(whole[front.len() + count - 1] == blank[count - 1]);
        lemma_trailing_blank_within(front, blank, count - 1);
    } else if front.len() > 0 {
        assert(whole[front.len() - 1] == front.last());
    }
}

/// Trimming takes the white space off both ends and nothing else.
pub proof fn law_trimming_takes_the_ends_off(
    before: Seq<char>,
    core: Seq<char>,
    after: Seq<char>,
)
    requires
        is_blank(before),
        is_blank(after),
        core.len() > 0 ==> !white_space(core[0]) && !white_space(core.last()),
    ensures
        core.len() > 0 ==> trim(before + core + after) == core,
        trim(before) == Seq::<char>::empty(),
{
    let none: Seq<char> = seq![];
    lemma_trailing_blank_ends(none, before);
    assert(none + before =~= before);
    assert(before.take(0) =~= none);
    if core.len() > 0 {
        let front = before + core;
        assert(front.last() == core.last());
        lemma_trailing_blank_ends(front, after);
        let whole = front + after;
        assert(whole.take(front.len() as int) =~= front);
        lemma_blank_ends(none, before, core);
        assert(none + before + core =~= front);
        assert(front.skip(before.len() as int) =~= core);
    }
}

/// The number that a decimal numeral stands for.
pub open spec fn numeral_value(digits: Seq<char>) -> int
    decreases digits.len(),
{
    if digits.len() == 0 {
        0
    } else {
        10 * numeral_value(digits.drop_last()) + (digits.last() as int - '0' as int)
    }
}

/// A number that is written in decimal can be read again: every character is a digit, the first one
/// is no needless zero, and together they stand for the number.
pub proof fn law_decimal_is_read_again(n: nat)
    ensures
        numeral_value(decimal(n)) == n,
        forall|i: int| 0 <= i < decimal(n).len() ==> '0' <= #[trigger] decimal(n)[i] <= '9',
        decimal(n).len() > 0,
        decimal(n).len() > 1 ==> decimal(n)[0] != '0',
        n > 0 ==> decimal(n)[0] != '0',
    decreases n,
{
    let d = decimal(n);
    if n < 10 {
        let none: Seq<char> = seq![];
        assert(d.drop_last() =~= none);
        assert(numeral_value(none) == 0);
    } else {
        law_decimal_is_read_again(n / 10);
        assert(d.drop_last() =~= decimal(n / 10));
        assert(d[0] == decimal(n / 10)[0]);
        assert forall|i: int| 0 <= i < d.len() implies '0' <= #[trigger] d[i] <= '9' by {
            if i < d.len() - 1 {
                assert(d[i] == decimal(n / 10)[i]);
            }
        }
    }
}

/// The number that an upper case hexadecimal digit stands for.
pub open spec fn hex_value(digit: char) -> int {
    if digit <= '9' {
        digit as int - '0' as int
    } else {
        digit as int - 'A' as int + 10
    }
}

/// A hexadecimal digit is read again.
proof fn lemma_hex_char_is_read_again(d: int)
    requires
        0 <= d < 16,
    ensures
        hex_value(hex_char(d)) == d,
        '0' <= hex_char(d) <= '9' || 'A' <= hex_char(d) <= 'F',
        hex_char(d) != ':',
{
}

/// A port that is written in hexadecimal can be read again from its four digits, none of which is a
/// colon.
pub proof fn law_port_hex_is_read_again(port: u16)
    ensures
        port_hex(port).len() == 4,
        4096 * hex_value(port_hex(port)[0]) + 256 * hex_value(port_hex(port)[1]) + 16 * hex_value(
            port_hex(port)[2],
        ) + hex_value(port_hex(port)[3]) == port,
        !port_hex(port).contains(':'),
        forall|i: int|
            0 <= i < 4 ==> '0' <= #[trigger] port_hex(port)[i] <= '9' || 'A' <= port_hex(port)[i]
                <= 'F',
{
    lemma_hex_char_is_read_again((port / 4096) as int);
    lemma_hex_char_is_read_again((port / 256 % 16) as int);
    lemma_hex_char_is_read_again((port / 16 % 16) as int);
    lemma_hex_char_is_read_again((port % 16) as int);
    assert(4096 * (port / 4096) + 256 * (port / 256 % 16) + 16 * (port / 16 % 16) + port % 16 == port)
        by (bit_vector);
}

} // verus!
