//! Character-level text operations shared by every module.
//!
//! A string is modelled by its view, the sequence of its characters. The functions here are the
//! executable counterparts of small spec functions on such sequences.

use vstd::prelude::*;
use vstd::utf8::{decode_utf8, valid_utf8};

verus! {

/// `String::push` appends one character to the end of the string.
pub assume_specification[ String::push ](s: &mut String, ch: char)
    ensures
        final(s)@ == old(s)@.push(ch),
;

/// What `String::from_utf8_lossy` makes of bytes.
pub uninterp spec fn lossy_utf8(bytes: Seq<u8>) -> Seq<char>;

/// `String::from_utf8_lossy`: the text that bytes encode in UTF-8. Invalid parts become
/// replacement characters; how many is left unsaid here.
#[verifier::external_body]
pub(crate) fn text_of_bytes(bytes: &Vec<u8>) -> (text: String)
    ensures
        text@ == lossy_utf8(bytes@),
        valid_utf8(bytes@) ==> text@ == decode_utf8(bytes@),
{
    String::from_utf8_lossy(bytes).into_owned()
}

/// The Unicode `White_Space` characters, which is what `char::is_whitespace` recognises.
pub open spec fn white(c: char) -> bool {
    let n = c as u32;
    ||| 0x9 <= n <= 0xd
    ||| n == 0x20
    ||| n == 0x85
    ||| n == 0xa0
    ||| n == 0x1680
    ||| 0x2000 <= n <= 0x200a
    ||| n == 0x2028
    ||| n == 0x2029
    ||| n == 0x202f
    ||| n == 0x205f
    ||| n == 0x3000
}

/// The control characters: Unicode general category `Cc`.
pub open spec fn control(c: char) -> bool {
    let n = c as u32;
    n <= 0x1f || 0x7f <= n <= 0x9f
}

/// An ASCII decimal digit.
pub open spec fn ascii_digit(c: char) -> bool {
    '0' <= c <= '9'
}

/// An ASCII letter or digit.
pub open spec fn ascii_alphanumeric(c: char) -> bool {
    ascii_digit(c) || 'a' <= c <= 'z' || 'A' <= c <= 'Z'
}

/// The lower-case form of an ASCII letter; every other character is itself.
pub open spec fn ascii_lower(c: char) -> char {
    if 'A' <= c <= 'Z' {
        (c as u32 + 32) as char
    } else {
        c
    }
}

/// The lower-case form of every ASCII letter of a text.
pub open spec fn ascii_lower_text(s: Seq<char>) -> Seq<char> {
    s.map_values(|c: char| ascii_lower(c))
}

/// The text without its leading whitespace.
pub open spec fn trim_start(s: Seq<char>) -> Seq<char>
    decreases s.len(),
{
    if s.len() > 0 && white(s[0]) {
        trim_start(s.drop_first())
    } else {
        s
    }
}

/// The text without its trailing whitespace.
pub open spec fn trim_end(s: Seq<char>) -> Seq<char>
    decreases s.len(),
{
    if s.len() > 0 && white(s.last()) {
        trim_end(s.drop_last())
    } else {
        s
    }
}

/// The text without surrounding whitespace.
pub open spec fn trim(s: Seq<char>) -> Seq<char> {
    trim_end(trim_start(s))
}

/// Whether a text starts with a prefix.
pub open spec fn has_prefix(s: Seq<char>, prefix: Seq<char>) -> bool {
    prefix.len() <= s.len() && s.take(prefix.len() as int) == prefix
}

/// Whether a text ends with a suffix.
pub open spec fn has_suffix(s: Seq<char>, suffix: Seq<char>) -> bool {
    suffix.len() <= s.len() && s.skip(s.len() - suffix.len()) == suffix
}

/// The decimal digit that stands for a number below ten.
pub open spec fn digit(d: nat) -> char {
    (48 + d) as char
}

/// The decimal numeral of a number, without leading zeros.
pub open spec fn decimal(n: nat) -> Seq<char>
    decreases n,
{
    if n < 10 {
        seq![digit(n)]
    } else {
        decimal(n / 10).push(digit(n % 10))
    }
}

/// The number that a run of decimal digits stands for.
pub open spec fn decimal_value(s: Seq<char>) -> nat
    decreases s.len(),
{
    if s.len() == 0 {
        0
    } else {
        decimal_value(s.drop_last()) * 10 + (s.last() as u32 - 48) as nat
    }
}

/// Whether a text is a nonempty run of ASCII digits.
pub open spec fn all_digits(s: Seq<char>) -> bool {
    s.len() > 0 && forall|i: int| 0 <= i < s.len() ==> ascii_digit(#[trigger] s[i])
}

/// The digits of a numeral, without the one leading plus sign that an unsigned integer may have.
pub open spec fn numeral_digits(s: Seq<char>) -> Seq<char> {
    if s.len() > 0 && s[0] == '+' {
        s.drop_first()
    } else {
        s
    }
}

/// The unsigned integer of at most `max` that a text denotes: digits with at most one leading plus
/// sign.
pub open spec fn parse_unsigned(s: Seq<char>, max: nat) -> Option<nat> {
    let digits = numeral_digits(s);
    if all_digits(digits) && decimal_value(digits) <= max {
        Some(decimal_value(digits))
    } else {
        None
    }
}

/// The number of bytes of a character in UTF-8.
pub open spec fn char_width(c: char) -> nat {
    let n = c as u32;
    if n <= 0x7f {
        1
    } else if n <= 0x7ff {
        2
    } else if n <= 0xffff {
        3
    } else {
        4
    }
}

/// The number of bytes of a text in UTF-8.
pub open spec fn utf8_width(s: Seq<char>) -> nat
    decreases s.len(),
{
    if s.len() == 0 {
        0
    } else {
        utf8_width(s.drop_last()) + char_width(s.last())
    }
}

/// The number of bytes of a character in UTF-8.
pub fn width_of_char(c: char) -> (width: usize)
    ensures
        width == char_width(c),
{
    let n: u32 = c as u32;
    if n <= 0x7f {
        1
    } else if n <= 0x7ff {
        2
    } else if n <= 0xffff {
        3
    } else {
        4
    }
}

/// The characters of a text.
pub fn chars_of(text: &str) -> (chars: Vec<char>)
    ensures
        chars@ == text@,
{
    let mut chars: Vec<char> = Vec::new();
    for c in it: text.chars()
        invariant
            it.seq() == text@,
            chars@ == text@.take(it.index()),
    {
        chars.push(c);
    }
    assert(text@.take(text@.len() as int) == text@);
    chars
}

/// The text made of the characters at `from` up to but without `to`.
pub fn text_between(chars: &Vec<char>, from: usize, to: usize) -> (text: String)
    requires
        from <= to <= chars@.len(),
    ensures
        text@ == chars@.subrange(from as int, to as int),
{
    let mut text = String::new();
    let mut i: usize = from;
    while i < to
        invariant
            from <= i <= to <= chars@.len(),
            text@ == chars@.subrange(from as int, i as int),
        decreases to - i,
    {
        text.push(chars[i]);
        i = i + 1;
    }
    text
}

/// The text made of the given characters.
pub fn text_of(chars: &Vec<char>) -> (text: String)
    ensures
        text@ == chars@,
{
    let text = text_between(chars, 0, chars.len());
    assert(chars@.subrange(0, chars@.len() as int) == chars@);
    text
}

/// Whether two texts are the same.
pub fn same_text(a: &str, b: &str) -> (same: bool)
    ensures
        same == (a@ == b@),
{
    a.to_owned() == b.to_owned()
}

/// Whether a character is Unicode whitespace.
pub fn is_white(c: char) -> (r: bool)
    ensures
        r == white(c),
{
    let n: u32 = c as u32;
    (0x9 <= n && n <= 0xd) || n == 0x20 || n == 0x85 || n == 0xa0 || n == 0x1680 || (0x2000 <= n && n
        <= 0x200a) || n == 0x2028 || n == 0x2029 || n == 0x202f || n == 0x205f || n == 0x3000
}

/// Whether a character is a control character.
pub fn is_control(c: char) -> (r: bool)
    ensures
        r == control(c),
{
    let n: u32 = c as u32;
    n <= 0x1f || (0x7f <= n && n <= 0x9f)
}

/// Whether a character is an ASCII digit.
pub fn is_ascii_digit(c: char) -> (r: bool)
    ensures
        r == ascii_digit(c),
{
    '0' <= c && c <= '9'
}

/// Whether a character is an ASCII letter or digit.
pub fn is_ascii_alphanumeric(c: char) -> (r: bool)
    ensures
        r == ascii_alphanumeric(c),
{
    is_ascii_digit(c) || ('a' <= c && c <= 'z') || ('A' <= c && c <= 'Z')
}

/// The lower-case form of an ASCII letter; every other character is itself.
pub fn to_ascii_lower(c: char) -> (r: char)
    ensures
        r == ascii_lower(c),
{
    if 'A' <= c && c <= 'Z' {
        (c as u8 + 32) as char
    } else {
        c
    }
}

proof fn lemma_trim_start_skip(s: Seq<char>, n: int)
    requires
        0 <= n <= s.len(),
        forall|i: int| 0 <= i < n ==> white(#[trigger] s[i]),
        n < s.len() ==> !white(s[n]),
    ensures
        trim_start(s) == s.skip(n),
    decreases n,
{
    if n == 0 {
        assert(s.skip(0) == s);
    } else {
        lemma_trim_start_skip(s.drop_first(), n - 1);
        assert(s.drop_first().skip(n - 1) == s.skip(n));
    }
}

proof fn lemma_trim_end_take(s: Seq<char>, n: int)
    requires
        0 <= n <= s.len(),
        forall|i: int| n <= i < s.len() ==> white(#[trigger] s[i]),
        n > 0 ==> !white(s[n - 1]),
    ensures
        trim_end(s) == s.take(n),
    decreases s.len() - n,
{
    if n == s.len() {
        assert(s.take(n) == s);
    } else {
        assert(white(s.last()));
        lemma_trim_end_take(s.drop_last(), n);
        assert(s.drop_last().take(n) == s.take(n));
    }
}

/// The range of positions that remains after trimming surrounding whitespace.
pub fn trim_range(chars: &Vec<char>) -> (range: (usize, usize))
    ensures
        range.0 <= range.1 <= chars@.len(),
        chars@.subrange(range.0 as int, range.1 as int) == trim(chars@),
{
    let mut from: usize = 0;
    while from < chars.len() && is_white(chars[from])
        invariant
            from <= chars@.len(),
            forall|i: int| 0 <= i < from ==> white(#[trigger] chars@[i]),
        decreases chars@.len() - from,
    {
        from = from + 1;
    }
    let mut to: usize = chars.len();
    while to > from && is_white(chars[to - 1])
        invariant
            from <= to <= chars@.len(),
            forall|i: int| to <= i < chars@.len() ==> white(#[trigger] chars@[i]),
        decreases to,
    {
        to = to - 1;
    }
    proof {
        lemma_trim_start_skip(chars@, from as int);
        let rest = chars@.skip(from as int);
        assert forall|i: int| to - from <= i < rest.len() implies white(#[trigger] rest[i]) by {
            assert(rest[i] == chars@[i + from]);
        }
        if to > from {
            assert(rest[to - from - 1] == chars@[to - 1]);
        }
        lemma_trim_end_take(rest, to - from);
        assert(rest.take(to - from) == chars@.subrange(from as int, to as int));
    }
    (from, to)
}

/// The text without surrounding whitespace.
pub fn trimmed(text: &str) -> (r: String)
    ensures
        r@ == trim(text@),
{
    let chars = chars_of(text);
    let range = trim_range(&chars);
    text_between(&chars, range.0, range.1)
}

/// The decimal digit that stands for a number below ten.
pub fn digit_char(d: u8) -> (c: char)
    requires
        d < 10,
    ensures
        c == digit(d as nat),
{
    (48 + d) as char
}

/// The decimal numeral of a number.
pub fn decimal_text(n: u64) -> (text: String)
    ensures
        text@ == decimal(n as nat),
    decreases n,
{
    if n < 10 {
        let mut text = String::new();
        text.push(digit_char(n as u8));
        assert(text@ == seq![digit(n as nat)]);
        text
    } else {
        let mut text = decimal_text(n / 10);
        text.push(digit_char((n % 10) as u8));
        text
    }
}

proof fn lemma_decimal_value_prefix(s: Seq<char>, n: int)
    requires
        0 <= n <= s.len(),
        forall|i: int| 0 <= i < s.len() ==> ascii_digit(#[trigger] s[i]),
    ensures
        decimal_value(s.take(n)) <= decimal_value(s),
    decreases s.len() - n,
{
    if n == s.len() {
        assert(s.take(n) == s);
    } else {
        lemma_decimal_value_prefix(s.drop_last(), n);
        assert(s.drop_last().take(n) == s.take(n));
    }
}

/// The number that the characters at `from` up to but without `to` denote as an unsigned integer
/// of at most `max`.
pub fn parse_unsigned_between(chars: &Vec<char>, from: usize, to: usize, max: u64) -> (r: Option<
    u64,
>)
    requires
        from <= to <= chars@.len(),
    ensures
        match r {
            Some(n) => parse_unsigned(chars@.subrange(from as int, to as int), max as nat) == Some(
                n as nat,
            ),
            None => parse_unsigned(chars@.subrange(from as int, to as int), max as nat) is None,
        },
{
    let ghost s = chars@.subrange(from as int, to as int);
    let mut start: usize = from;
    if from < to && chars[from] == '+' {
        start = from + 1;
    }
    let ghost digits = numeral_digits(s);
    proof {
        assert(digits == chars@.subrange(start as int, to as int));
    }
    if start == to {
        return None;
    }
    let mut value: u64 = 0;
    let mut i: usize = start;
    while i < to
        invariant
            from <= start <= i <= to <= chars@.len(),
            digits == chars@.subrange(start as int, to as int),
            digits == numeral_digits(s),
            s == chars@.subrange(from as int, to as int),
            forall|j: int| 0 <= j < i - start ==> ascii_digit(#[trigger] digits[j]),
            value == decimal_value(digits.take(i - start)),
            value <= max,
        decreases to - i,
    {
        let c = chars[i];
        proof {
            assert(digits[i - start] == c);
            assert(digits.take(i - start + 1).drop_last() == digits.take(i - start));
        }
        if !is_ascii_digit(c) {
            return None;
        }
        let d: u64 = (c as u32 - 48) as u64;
        assert(decimal_value(digits.take(i - start + 1)) == value * 10 + d);
        if value > (u64::MAX - d) / 10 || value * 10 + d > max {
            proof {
                if all_digits(digits) {
                    lemma_decimal_value_prefix(digits, i - start + 1);
                }
            }
            return None;
        }
        value = value * 10 + d;
        i = i + 1;
    }
    assert(digits.take(to - start) == digits);
    Some(value)
}

/// Reading a numeral gives back the number it was written for.
pub proof fn law_parse_reads_decimal(n: nat, max: nat)
    requires
        n <= max,
    ensures
        parse_unsigned(decimal(n), max) == Some(n),
{
    lemma_decimal_digits(n);
}

/// A numeral is a nonempty run of digits that has the number as its value.
pub proof fn lemma_decimal_digits(n: nat)
    ensures
        all_digits(decimal(n)),
        decimal_value(decimal(n)) == n,
    decreases n,
{
    if n < 10 {
        assert(decimal(n).drop_last() == Seq::<char>::empty());
        assert(decimal_value(Seq::<char>::empty()) == 0);
    } else {
        lemma_decimal_digits(n / 10);
        assert(decimal(n).drop_last() == decimal(n / 10));
    }
}

/// Appends a text to another.
pub fn append_text(target: &mut String, suffix: &str)
    ensures
        final(target)@ == old(target)@ + suffix@,
{
    target.append(suffix);
}

/// The position of the first newline of a text at or behind `from`, or the end of the text.
pub open spec fn newline_from(s: Seq<char>, from: int) -> int
    decreases s.len() - from,
{
    if 0 <= from < s.len() && s[from] != '\n' {
        newline_from(s, from + 1)
    } else {
        from
    }
}

/// A line without the carriage return that belongs to its line end.
pub open spec fn without_return(line: Seq<char>) -> Seq<char> {
    if line.len() > 0 && line.last() == '\r' {
        line.drop_last()
    } else {
        line
    }
}

/// The lines of a text from position `from` on. A line ends with a newline, or with a carriage
/// return and a newline; the last one may lack its end.
pub open spec fn lines_from(s: Seq<char>, from: int) -> Seq<Seq<char>>
    decreases s.len() - from,
{
    if from < 0 || from >= s.len() {
        Seq::empty()
    } else {
        let end = newline_from(s, from);
        if end <= from - 1 {
            Seq::empty()
        } else if end >= s.len() {
            seq![s.subrange(from, s.len() as int)]
        } else {
            seq![without_return(s.subrange(from, end))] + lines_from(s, end + 1)
        }
    }
}

/// The lines of a text.
pub open spec fn lines(s: Seq<char>) -> Seq<Seq<char>> {
    lines_from(s, 0)
}

/// The views of a list of texts.
pub open spec fn text_views(texts: Seq<String>) -> Seq<Seq<char>> {
    texts.map_values(|t: String| t@)
}

/// Adding a text to a list adds its view.
pub proof fn lemma_text_views_push(texts: Seq<String>, text: String)
    ensures
        text_views(texts.push(text)) == text_views(texts).push(text@),
{
    assert(text_views(texts.push(text)) =~= text_views(texts).push(text@));
}

proof fn lemma_newline_from(s: Seq<char>, from: int)
    requires
        0 <= from <= s.len(),
    ensures
        from <= newline_from(s, from) <= s.len(),
        newline_from(s, from) < s.len() ==> s[newline_from(s, from)] == '\n',
    decreases s.len() - from,
{
    if from < s.len() && s[from] != '\n' {
        lemma_newline_from(s, from + 1);
    }
}

/// The lines of a text.
pub fn lines_of(chars: &Vec<char>) -> (r: Vec<String>)
    ensures
        text_views(r@) == lines(chars@),
{
    let mut r: Vec<String> = Vec::new();
    let count: usize = chars.len();
    let mut from: usize = 0;
    assert(text_views(r@) + lines_from(chars@, 0) =~= lines(chars@));
    while from < count
        invariant
            from <= count,
            count == chars@.len(),
            text_views(r@) + lines_from(chars@, from as int) == lines(chars@),
        decreases count - from,
    {
        let mut end: usize = from;
        while end < count && chars[end] != '\n'
            invariant
                from <= end <= count,
                count == chars@.len(),
                newline_from(chars@, from as int) == newline_from(chars@, end as int),
            decreases count - end,
        {
            end = end + 1;
        }
        let ghost before = r@;
        let mut stop: usize = end;
        if end < count && end > from && chars[end - 1] == '\r' {
            stop = end - 1;
        }
        let line = text_between(chars, from, stop);
        proof {
            let whole = chars@.subrange(from as int, end as int);
            if end < count {
                if end > from {
                    assert(whole.last() == chars@[end - 1]);
                }
                assert(line@ == without_return(whole));
                assert(lines_from(chars@, from as int) == seq![line@] + lines_from(chars@, end + 1));
            } else {
                assert(lines_from(chars@, from as int) == seq![line@]);
            }
            lemma_text_views_push(before, line);
        }
        r.push(line);
        if end < count {
            proof {
                assert(text_views(r@) + lines_from(chars@, end + 1) == text_views(before)
                    + lines_from(chars@, from as int));
            }
            from = end + 1;
        } else {
            proof {
                assert(lines_from(chars@, count as int) == Seq::<Seq<char>>::empty());
                assert(text_views(r@) + Seq::<Seq<char>>::empty() == text_views(before)
                    + lines_from(chars@, from as int));
            }
            from = count;
        }
    }
    proof {
        assert(text_views(r@) + Seq::<Seq<char>>::empty() == text_views(r@));
    }
    r
}

/// Whether a text holds another somewhere.
pub open spec fn contains_text(s: Seq<char>, part: Seq<char>) -> bool {
    exists|i: int| has_prefix(#[trigger] s.skip(i), part) && 0 <= i <= s.len()
}

/// Whether the characters from `from` on start with a part.
pub fn matches_at(chars: &Vec<char>, from: usize, part: &Vec<char>) -> (r: bool)
    requires
        from <= chars@.len(),
    ensures
        r == has_prefix(chars@.skip(from as int), part@),
{
    let ghost rest = chars@.skip(from as int);
    let count: usize = chars.len();
    if part.len() > count - from {
        return false;
    }
    let mut i: usize = 0;
    while i < part.len()
        invariant
            i <= part@.len(),
            count == chars@.len(),
            from + part@.len() <= count,
            rest == chars@.skip(from as int),
            forall|j: int| 0 <= j < i ==> rest[j] == part@[j],
        decreases part@.len() - i,
    {
        if chars[from + i] != part[i] {
            assert(rest.take(part@.len() as int)[i as int] != part@[i as int]);
            return false;
        }
        i = i + 1;
    }
    assert(rest.take(part@.len() as int) == part@);
    true
}

/// Whether a text holds another somewhere.
pub fn holds_text(text: &str, part: &str) -> (r: bool)
    ensures
        r == contains_text(text@, part@),
{
    let chars = chars_of(text);
    let wanted = chars_of(part);
    let count: usize = chars.len();
    let mut i: usize = 0;
    loop
        invariant
            i <= count,
            count == chars@.len(),
            chars@ == text@,
            wanted@ == part@,
            forall|j: int| 0 <= j < i ==> !has_prefix(#[trigger] text@.skip(j), part@),
        decreases count - i,
    {
        if matches_at(&chars, i, &wanted) {
            assert(has_prefix(text@.skip(i as int), part@));
            return true;
        }
        if i == count {
            return false;
        }
        i = i + 1;
    }
}

/// The position of the first zero byte at or behind `from`, or the end of the bytes.
pub open spec fn zero_from(bytes: Seq<u8>, from: int) -> int
    decreases bytes.len() - from,
{
    if 0 <= from < bytes.len() && bytes[from] != 0 {
        zero_from(bytes, from + 1)
    } else {
        from
    }
}

/// The pieces between zero bytes from position `from` on, without the empty ones.
pub open spec fn pieces_from(bytes: Seq<u8>, from: int) -> Seq<Seq<u8>>
    decreases bytes.len() - from,
{
    if from < 0 || from >= bytes.len() {
        Seq::empty()
    } else {
        let end = zero_from(bytes, from);
        if end <= from {
            pieces_from(bytes, from + 1)
        } else if end >= bytes.len() {
            seq![bytes.subrange(from, bytes.len() as int)]
        } else {
            seq![bytes.subrange(from, end)] + pieces_from(bytes, end + 1)
        }
    }
}

/// The pieces between zero bytes, without the empty ones.
pub open spec fn nul_pieces(bytes: Seq<u8>) -> Seq<Seq<u8>> {
    pieces_from(bytes, 0)
}

/// The views of a list of byte strings.
pub open spec fn piece_views(pieces: Seq<Vec<u8>>) -> Seq<Seq<u8>> {
    pieces.map_values(|p: Vec<u8>| p@)
}

/// The bytes at `from` up to but without `to`.
pub fn bytes_between(bytes: &Vec<u8>, from: usize, to: usize) -> (part: Vec<u8>)
    requires
        from <= to <= bytes@.len(),
    ensures
        part@ == bytes@.subrange(from as int, to as int),
{
    let mut part: Vec<u8> = Vec::new();
    let mut i: usize = from;
    while i < to
        invariant
            from <= i <= to <= bytes@.len(),
            part@ == bytes@.subrange(from as int, i as int),
        decreases to - i,
    {
        part.push(bytes[i]);
        i = i + 1;
    }
    part
}

proof fn lemma_zero_from(bytes: Seq<u8>, from: int)
    requires
        0 <= from <= bytes.len(),
    ensures
        from <= zero_from(bytes, from) <= bytes.len(),
    decreases bytes.len() - from,
{
    if from < bytes.len() && bytes[from] != 0 {
        lemma_zero_from(bytes, from + 1);
    }
}

/// The pieces between zero bytes, without the empty ones.
pub fn nul_pieces_of(bytes: &Vec<u8>) -> (pieces: Vec<Vec<u8>>)
    ensures
        piece_views(pieces@) == nul_pieces(bytes@),
{
    let mut pieces: Vec<Vec<u8>> = Vec::new();
    let count: usize = bytes.len();
    let mut from: usize = 0;
    assert(piece_views(pieces@) + pieces_from(bytes@, 0) =~= nul_pieces(bytes@));
    while from < count
        invariant
            from <= count,
            count == bytes@.len(),
            piece_views(pieces@) + pieces_from(bytes@, from as int) == nul_pieces(bytes@),
        decreases count - from,
    {
        let mut end: usize = from;
        while end < count && bytes[end] != 0
            invariant
                from <= end <= count,
                count == bytes@.len(),
                zero_from(bytes@, from as int) == zero_from(bytes@, end as int),
            decreases count - end,
        {
            end = end + 1;
        }
        let ghost before = pieces@;
        if end > from {
            let piece = bytes_between(bytes, from, end);
            proof {
                assert(piece_views(before.push(piece)) =~= piece_views(before).push(piece@));
            }
            pieces.push(piece);
        }
        proof {
            let rest = if end < count {
                pieces_from(bytes@, end + 1)
            } else {
                Seq::<Seq<u8>>::empty()
            };
            assert(piece_views(pieces@) + rest =~= piece_views(before) + pieces_from(
                bytes@,
                from as int,
            ));
            assert(pieces_from(bytes@, count as int) == Seq::<Seq<u8>>::empty());
        }
        from = if end < count {
            end + 1
        } else {
            count
        };
    }
    proof {
        assert(piece_views(pieces@) + Seq::<Seq<u8>>::empty() =~= piece_views(pieces@));
    }
    pieces
}

/// What is wrong with bytes that are not valid UTF-8.
pub uninterp spec fn utf8_problem(bytes: Seq<u8>) -> Seq<char>;

/// `std::str::from_utf8`: the text that bytes encode, where they are valid UTF-8; where they are not,
/// what is wrong with them depends on the bytes alone. How that is worded stays unsaid.
#[verifier::external_body]
pub(crate) fn utf8_text(bytes: &Vec<u8>) -> (text: Result<String, String>)
    ensures
        match text {
            Ok(t) => vstd::utf8::valid_utf8(bytes@) && t@ == vstd::utf8::decode_utf8(bytes@),
            Err(problem) => !vstd::utf8::valid_utf8(bytes@) && problem@ == utf8_problem(bytes@),
        },
{
    std::str::from_utf8(bytes).map(|text| text.to_string()).map_err(|error| error.to_string())
}

/// Whether two byte strings are the same.
pub fn same_bytes(a: &Vec<u8>, b: &[u8]) -> (same: bool)
    ensures
        same == (a@ == b@),
{
    if a.len() != b.len() {
        return false;
    }
    let mut i: usize = 0;
    while i < a.len()
        invariant
            i <= a@.len(),
            a@.len() == b@.len(),
            forall|j: int| 0 <= j < i ==> a@[j] == b@[j],
        decreases a@.len() - i,
    {
        if a[i] != b[i] {
            return false;
        }
        i = i + 1;
    }
    assert(a@ =~= b@);
    true
}

/// Texts one behind the other, with a text between every two.
pub open spec fn joined_texts(texts: Seq<Seq<char>>, between: Seq<char>) -> Seq<char>
    decreases texts.len(),
{
    if texts.len() == 0 {
        Seq::empty()
    } else if texts.len() == 1 {
        texts[0]
    } else {
        joined_texts(texts.drop_last(), between) + between + texts.last()
    }
}

/// Texts one behind the other, with a text between every two.
pub fn join_texts(texts: &Vec<String>, between: &str) -> (text: String)
    ensures
        text@ == joined_texts(text_views(texts@), between@),
{
    let ghost views = text_views(texts@);
    let mut text = String::new();
    let mut i: usize = 0;
    assert(views.take(0).len() == 0);
    while i < texts.len()
        invariant
            i <= texts@.len(),
            views == text_views(texts@),
            text@ == joined_texts(views.take(i as int), between@),
        decreases texts@.len() - i,
    {
        let ghost before = text@;
        proof {
            assert(views.take(i + 1).drop_last() == views.take(i as int));
            assert(views.take(i + 1).last() == texts@[i as int]@);
        }
        if i > 0 {
            append_text(&mut text, between);
        }
        append_text(&mut text, texts[i].as_str());
        proof {
            if i == 0 {
                assert(text@ =~= views.take(1)[0]);
            }
        }
        i = i + 1;
    }
    assert(views.take(i as int) == views);
    text
}

/// What follows a prefix of a text, where the text begins with it.
pub fn strip_text_prefix(text: &str, prefix: &str) -> (rest: Option<String>)
    ensures
        match rest {
            Some(r) => has_prefix(text@, prefix@) && r@ == text@.skip(prefix@.len() as int),
            None => !has_prefix(text@, prefix@),
        },
{
    let chars = chars_of(text);
    let wanted = chars_of(prefix);
    assert(chars@.skip(0) == chars@);
    if matches_at(&chars, 0, &wanted) {
        let rest = text_between(&chars, wanted.len(), chars.len());
        assert(rest@ == text@.skip(prefix@.len() as int));
        Some(rest)
    } else {
        None
    }
}

/// Whether a text begins with another.
pub fn starts_with_text(text: &str, prefix: &str) -> (r: bool)
    ensures
        r == has_prefix(text@, prefix@),
{
    let chars = chars_of(text);
    let wanted = chars_of(prefix);
    assert(chars@.skip(0) == chars@);
    matches_at(&chars, 0, &wanted)
}

/// A text without the case of its ASCII letters.
pub fn ascii_lowered(text: &str) -> (r: String)
    ensures
        r@ == ascii_lower_text(text@),
{
    let chars = chars_of(text);
    let mut r = String::new();
    let mut i: usize = 0;
    while i < chars.len()
        invariant
            i <= chars@.len(),
            chars@ == text@,
            r@ == ascii_lower_text(chars@.take(i as int)),
        decreases chars@.len() - i,
    {
        r.push(to_ascii_lower(chars[i]));
        i = i + 1;
        assert(r@ =~= ascii_lower_text(chars@.take(i as int)));
    }
    assert(chars@.take(i as int) == text@);
    r
}

/// What trimming leaves is a stretch of the text.
pub proof fn lemma_trim_inside(s: Seq<char>)
    ensures
        exists|from: int|
            0 <= from <= s.len() && from + trim(s).len() <= s.len() && trim(s)
                == #[trigger] s.subrange(from, from + trim(s).len()),
{
    lemma_trim_start_inside(s);
    lemma_trim_end_inside(trim_start(s));
    let from = s.len() - trim_start(s).len();
    assert(trim(s) =~= s.subrange(from, from + trim(s).len()));
}

/// Trimmed text neither begins nor ends with whitespace.
pub proof fn lemma_trim_ends(s: Seq<char>)
    ensures
        trim(s).len() > 0 ==> !white(trim(s)[0]) && !white(trim(s).last()),
{
    lemma_trim_start_first(s);
    lemma_trim_end_last(trim_start(s));
    lemma_trim_end_inside(trim_start(s));
}

proof fn lemma_trim_start_first(s: Seq<char>)
    ensures
        trim_start(s).len() > 0 ==> !white(trim_start(s)[0]),
    decreases s.len(),
{
    if s.len() > 0 && white(s[0]) {
        lemma_trim_start_first(s.drop_first());
    }
}

proof fn lemma_trim_end_last(s: Seq<char>)
    ensures
        trim_end(s).len() > 0 ==> !white(trim_end(s).last()),
    decreases s.len(),
{
    if s.len() > 0 && white(s.last()) {
        lemma_trim_end_last(s.drop_last());
    }
}

proof fn lemma_trim_start_inside(s: Seq<char>)
    ensures
        trim_start(s).len() <= s.len(),
        trim_start(s) == s.skip(s.len() - trim_start(s).len()),
    decreases s.len(),
{
    if s.len() > 0 && white(s[0]) {
        lemma_trim_start_inside(s.skip(1));
        let n = s.skip(1).len() - trim_start(s).len();
        assert(s.skip(1).skip(n) =~= s.skip(n + 1));
    } else {
        assert(s.skip(0) =~= s);
    }
}

proof fn lemma_trim_end_inside(s: Seq<char>)
    ensures
        trim_end(s).len() <= s.len(),
        trim_end(s) == s.take(trim_end(s).len() as int),
    decreases s.len(),
{
    if s.len() > 0 && white(s.last()) {
        lemma_trim_end_inside(s.drop_last());
        let n = trim_end(s).len() as int;
        assert(s.drop_last().take(n) =~= s.take(n));
    } else {
        assert(s.take(s.len() as int) =~= s);
    }
}

proof fn lemma_newline_shift(t: Seq<char>, u: Seq<char>, k: int)
    requires
        0 <= k <= u.len(),
    ensures
        newline_from(t + u, t.len() + k) == t.len() + newline_from(u, k),
    decreases u.len() - k,
{
    if k < u.len() {
        assert((t + u)[t.len() + k] == u[k]);
        if u[k] != '\n' {
            lemma_newline_shift(t, u, k + 1);
        }
    }
}

proof fn lemma_lines_shift(t: Seq<char>, u: Seq<char>, k: int)
    requires
        0 <= k <= u.len(),
    ensures
        lines_from(t + u, t.len() + k) == lines_from(u, k),
    decreases u.len() - k,
{
    if k < u.len() {
        let end = newline_from(u, k);
        lemma_newline_from(u, k);
        lemma_newline_shift(t, u, k);
        assert((t + u).subrange(t.len() + k, t.len() + end) =~= u.subrange(k, end));
        if end < u.len() {
            lemma_lines_shift(t, u, end + 1);
        } else {
            assert((t + u).subrange(t.len() + k, (t + u).len() as int) =~= u.subrange(
                k,
                u.len() as int,
            ));
        }
    }
}

proof fn lemma_newline_prefix(t: Seq<char>, u: Seq<char>, from: int)
    requires
        0 <= from < t.len(),
        t.last() == '\n',
    ensures
        newline_from(t + u, from) == newline_from(t, from),
        newline_from(t, from) < t.len(),
    decreases t.len() - from,
{
    assert((t + u)[from] == t[from]);
    if t[from] != '\n' {
        lemma_newline_prefix(t, u, from + 1);
    }
}

proof fn lemma_lines_behind(t: Seq<char>, u: Seq<char>, from: int)
    requires
        0 <= from <= t.len(),
        from < t.len() ==> t.last() == '\n',
    ensures
        lines_from(t + u, from) == lines_from(t, from) + lines_from(u, 0),
    decreases t.len() - from,
{
    if from == t.len() {
        lemma_lines_shift(t, u, 0);
        assert(lines_from(t, from) + lines_from(u, 0) =~= lines_from(u, 0));
    } else {
        let end = newline_from(t, from);
        lemma_newline_prefix(t, u, from);
        lemma_newline_from(t, from);
        lemma_lines_behind(t, u, end + 1);
        assert((t + u).subrange(from, end) =~= t.subrange(from, end));
        assert(lines_from(t + u, from) =~= lines_from(t, from) + lines_from(u, 0));
    }
}

/// Whether a text can be a line: it holds no line break.
pub open spec fn plain_line(s: Seq<char>) -> bool {
    &&& forall|i: int| 0 <= i < s.len() ==> #[trigger] s[i] != '\n'
    &&& s.len() > 0 ==> s.last() != '\r'
}

proof fn lemma_newline_at_end(s: Seq<char>, k: int)
    requires
        plain_line(s),
        0 <= k <= s.len(),
    ensures
        newline_from(s.push('\n'), k) == s.len(),
    decreases s.len() - k,
{
    if k < s.len() {
        assert(s.push('\n')[k] == s[k]);
        lemma_newline_at_end(s, k + 1);
    }
}

/// Lines that were written one below the other, each with a newline behind it, are read back.
pub proof fn law_written_lines_read_back(texts: Seq<Seq<char>>)
    requires
        texts.len() > 0,
        forall|i: int| 0 <= i < texts.len() ==> plain_line(#[trigger] texts[i]),
    ensures
        lines(joined_texts(texts, "\n"@) + "\n"@) == texts,
    decreases texts.len(),
{
    reveal_strlit("\n");
    let last = texts.last();
    let ended = last + "\n"@;
    assert(plain_line(texts[texts.len() - 1]));
    assert(ended =~= last.push('\n'));
    lemma_newline_at_end(last, 0);
    assert(ended.subrange(0, last.len() as int) =~= last);
    assert(lines_from(ended, ended.len() as int) =~= Seq::<Seq<char>>::empty());
    assert(lines_from(ended, 0) =~= seq![last]);
    if texts.len() == 1 {
        assert(texts =~= seq![last]);
    } else {
        let front = texts.drop_last();
        assert forall|i: int| 0 <= i < front.len() implies plain_line(#[trigger] front[i]) by {
            assert(plain_line(texts[i]));
        }
        law_written_lines_read_back(front);
        let t = joined_texts(front, "\n"@) + "\n"@;
        assert(joined_texts(texts, "\n"@) + "\n"@ =~= t + ended);
        assert(t.last() == '\n');
        lemma_lines_behind(t, ended, 0);
        assert(front + seq![last] =~= texts);
    }
}

/// Trimming takes the whitespace off both ends of a text, and nothing else.
pub proof fn law_trimming_takes_off_the_ends(front: Seq<char>, body: Seq<char>, back: Seq<char>)
    requires
        forall|i: int| 0 <= i < front.len() ==> white(#[trigger] front[i]),
        forall|i: int| 0 <= i < back.len() ==> white(#[trigger] back[i]),
        body.len() > 0,
        !white(body[0]),
        !white(body.last()),
    ensures
        trim(front + body + back) == body,
{
    lemma_front_goes(front, body + back);
    assert(front + body + back =~= front + (body + back));
    lemma_back_goes(body, back);
}

proof fn lemma_front_goes(front: Seq<char>, rest: Seq<char>)
    requires
        forall|i: int| 0 <= i < front.len() ==> white(#[trigger] front[i]),
        rest.len() > 0,
        !white(rest[0]),
    ensures
        trim_start(front + rest) == rest,
    decreases front.len(),
{
    if front.len() > 0 {
        assert(white(front[0]));
        assert((front + rest)[0] == front[0]);
        let shorter = front.skip(1);
        assert forall|i: int| 0 <= i < shorter.len() implies white(#[trigger] shorter[i]) by {
            assert(white(front[i + 1]));
        }
        lemma_front_goes(shorter, rest);
        assert((front + rest).drop_first() =~= shorter + rest);
    } else {
        assert(front + rest =~= rest);
    }
}

proof fn lemma_back_goes(body: Seq<char>, back: Seq<char>)
    requires
        forall|i: int| 0 <= i < back.len() ==> white(#[trigger] back[i]),
        body.len() > 0,
        !white(body.last()),
    ensures
        trim_end(body + back) == body,
    decreases back.len(),
{
    if back.len() > 0 {
        assert(white(back[back.len() - 1]));
        assert((body + back).last() == back[back.len() - 1]);
        let shorter = back.drop_last();
        assert forall|i: int| 0 <= i < shorter.len() implies white(#[trigger] shorter[i]) by {
            assert(white(back[i]));
        }
        lemma_back_goes(body, shorter);
        assert((body + back).drop_last() =~= body + shorter);
    } else {
        assert(body + back =~= body);
    }
}

proof fn lemma_zero_shift(front: Seq<u8>, rest: Seq<u8>, k: int)
    requires
        0 <= k <= rest.len(),
    ensures
        zero_from(front + rest, front.len() + k) == front.len() + zero_from(rest, k),
    decreases rest.len() - k,
{
    if k < rest.len() {
        assert((front + rest)[front.len() + k] == rest[k]);
        if rest[k] != 0 {
            lemma_zero_shift(front, rest, k + 1);
        }
    }
}

proof fn lemma_pieces_shift(front: Seq<u8>, rest: Seq<u8>, k: int)
    requires
        0 <= k <= rest.len(),
    ensures
        pieces_from(front + rest, front.len() + k) == pieces_from(rest, k),
    decreases rest.len() - k,
{
    if k < rest.len() {
        let end = zero_from(rest, k);
        lemma_zero_from(rest, k);
        lemma_zero_shift(front, rest, k);
        assert((front + rest).subrange(front.len() + k, front.len() + end) =~= rest.subrange(k, end));
        if end < rest.len() {
            lemma_pieces_shift(front, rest, end + 1);
        }
    }
}

proof fn lemma_zero_at_end(piece: Seq<u8>, rest: Seq<u8>, k: int)
    requires
        forall|i: int| 0 <= i < piece.len() ==> #[trigger] piece[i] != 0,
        0 <= k <= piece.len(),
    ensures
        zero_from(piece + seq![0u8] + rest, k) == piece.len(),
    decreases piece.len() - k,
{
    let whole = piece + seq![0u8] + rest;
    if k < piece.len() {
        assert(whole[k] == piece[k]);
        lemma_zero_at_end(piece, rest, k + 1);
    } else {
        assert(whole[k] == 0);
    }
}

/// A piece that was written with a zero byte behind it is the first that is read, and what follows is
/// read as it is alone.
pub proof fn law_written_pieces_read_back(piece: Seq<u8>, rest: Seq<u8>)
    requires
        piece.len() > 0,
        forall|i: int| 0 <= i < piece.len() ==> #[trigger] piece[i] != 0,
    ensures
        nul_pieces(piece + seq![0u8] + rest) == seq![piece] + nul_pieces(rest),
{
    let front = piece + seq![0u8];
    let whole = front + rest;
    lemma_zero_at_end(piece, rest, 0);
    lemma_pieces_shift(front, rest, 0);
    assert(whole.subrange(0, piece.len() as int) =~= piece);
    assert(nul_pieces(whole) =~= seq![piece] + nul_pieces(rest));
}

/// Only the capital letters are lowered, each to its own small one.
pub proof fn law_only_capitals_are_lowered(c: char)
    ensures
        'A' <= c && c <= 'Z' ==> ascii_lower(c) as u32 == c as u32 + 32,
        !('A' <= c && c <= 'Z') ==> ascii_lower(c) == c,
{
}

} // verus!
