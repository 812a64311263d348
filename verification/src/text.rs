//! Characters and character sequences: white space, trimming, decimal
//! numerals and comparison with fixed words.

use vstd::prelude::*;
use vstd::string::*;

verus! {

/// Whether `c` is a white-space character (the Unicode property `White_Space`).
pub open spec fn is_space(c: char) -> bool {
    let n = c as int;
    ||| 0x09 <= n <= 0x0d
    ||| n == 0x20
    ||| n == 0x85
    ||| n == 0xa0
    ||| n == 0x1680
    ||| 0x2000 <= n <= 0x200a
    ||| n == 0x2028
    ||| n == 0x2029
    ||| n == 0x202f
    ||| n == 0x205f
    ||| n == 0x3000
}

/// Tells whether `c` is a white-space character.
pub fn is_space_char(c: char) -> (b: bool)
    ensures
        b == is_space(c),
{
    let n: u32 = c as u32;
    (0x09 <= n && n <= 0x0d) || n == 0x20 || n == 0x85 || n == 0xa0 || n == 0x1680 || (0x2000 <= n
        && n <= 0x200a) || n == 0x2028 || n == 0x2029 || n == 0x202f || n == 0x205f || n == 0x3000
}

/// Whether `c` is one of the ten decimal digits `0` to `9`.
pub open spec fn is_digit(c: char) -> bool {
    '0' <= c <= '9'
}

/// The number that the digit `c` stands for.
pub open spec fn digit_value(c: char) -> int {
    c as int - '0' as int
}

/// Tells whether `c` is a decimal digit.
pub fn is_digit_char(c: char) -> (b: bool)
    ensures
        b == is_digit(c),
{
    '0' <= c && c <= '9'
}

/// The characters of `s`, in order.
pub fn chars_of(s: &str) -> (chars: Vec<char>)
    ensures
        chars@ == s@,
{
    let mut chars: Vec<char> = Vec::new();
    for c in it: s.chars()
        invariant
            it.seq() == s@,
            chars@ == s@.take(it.index() as int),
    {
        chars.push(c);
    }
    assert(s@.take(s@.len() as int) == s@);
    chars
}

/// The index at which the run of white space that starts at `from` ends.
pub open spec fn skip_spaces(s: Seq<char>, from: int) -> int
    decreases s.len() - from,
{
    if 0 <= from < s.len() && is_space(s[from]) {
        skip_spaces(s, from + 1)
    } else {
        from
    }
}

/// The index at which the run of decimal digits that starts at `from` ends.
pub open spec fn skip_digits(s: Seq<char>, from: int) -> int
    decreases s.len() - from,
{
    if 0 <= from < s.len() && is_digit(s[from]) {
        skip_digits(s, from + 1)
    } else {
        from
    }
}

/// The index at which the run of white space that ends just before `upto`
/// begins.
pub open spec fn content_end(s: Seq<char>, upto: int) -> int
    decreases upto,
{
    if 0 < upto <= s.len() && is_space(s[upto - 1]) {
        content_end(s, upto - 1)
    } else {
        upto
    }
}

/// `s` without the white space at its two ends.
pub open spec fn trimmed(s: Seq<char>) -> Seq<char> {
    let start = skip_spaces(s, 0);
    let end = content_end(s, s.len() as int);
    if start >= end {
        Seq::empty()
    } else {
        s.subrange(start, end)
    }
}

/// The index of the last white-space character of `s` before `upto`, or -1
/// where there is none.
pub open spec fn last_space(s: Seq<char>, upto: int) -> int
    decreases upto,
{
    if 0 < upto <= s.len() {
        if is_space(s[upto - 1]) {
            upto - 1
        } else {
            last_space(s, upto - 1)
        }
    } else {
        -1
    }
}

/// The number that the decimal numeral `digits` stands for.
pub open spec fn decimal_value(digits: Seq<char>) -> nat
    decreases digits.len(),
{
    if digits.len() == 0 {
        0
    } else {
        (decimal_value(digits.drop_last()) * 10 + digit_value(digits.last())) as nat
    }
}

/// Whether every character of `s` is a decimal digit.
pub open spec fn all_digits(s: Seq<char>) -> bool {
    forall|i: int| 0 <= i < s.len() ==> is_digit(#[trigger] s[i])
}

/// A numeral is worth at least as much as any of its beginnings.
pub proof fn lemma_decimal_value_grows(digits: Seq<char>, k: int)
    requires
        all_digits(digits),
        0 <= k <= digits.len(),
    ensures
        decimal_value(digits.subrange(0, k)) <= decimal_value(digits),
    decreases digits.len(),
{
    if k == digits.len() {
        assert(digits.subrange(0, k) == digits);
    } else {
        let shorter = digits.drop_last();
        assert(all_digits(shorter)) by {
            assert forall|i: int| 0 <= i < shorter.len() implies is_digit(
                #[trigger] shorter[i],
            ) by {
                assert(shorter[i] == digits[i]);
            }
        }
        lemma_decimal_value_grows(shorter, k);
        assert(shorter.subrange(0, k) == digits.subrange(0, k));
        assert(is_digit(digits[digits.len() - 1]));
    }
}

/// Finds where the run of white space that starts at `from` ends.
pub fn skip_spaces_from(text: &Vec<char>, from: usize) -> (next: usize)
    requires
        from <= text.len(),
    ensures
        next == skip_spaces(text@, from as int),
        from <= next <= text.len(),
        forall|i: int| from <= i < next ==> is_space(#[trigger] text@[i]),
        next < text.len() ==> !is_space(text@[next as int]),
{
    let mut i: usize = from;
    while i < text.len() && is_space_char(text[i])
        invariant
            from <= i <= text.len(),
            skip_spaces(text@, from as int) == skip_spaces(text@, i as int),
            forall|j: int| from <= j < i ==> is_space(#[trigger] text@[j]),
        decreases text.len() - i,
    {
        i = i + 1;
    }
    i
}

/// Finds where the run of decimal digits that starts at `from` ends.
pub fn skip_digits_from(text: &Vec<char>, from: usize) -> (next: usize)
    requires
        from <= text.len(),
    ensures
        next == skip_digits(text@, from as int),
        from <= next <= text.len(),
        forall|i: int| from <= i < next ==> is_digit(#[trigger] text@[i]),
        next < text.len() ==> !is_digit(text@[next as int]),
{
    let mut i: usize = from;
    while i < text.len() && is_digit_char(text[i])
        invariant
            from <= i <= text.len(),
            skip_digits(text@, from as int) == skip_digits(text@, i as int),
            forall|j: int| from <= j < i ==> is_digit(#[trigger] text@[j]),
        decreases text.len() - i,
    {
        i = i + 1;
    }
    i
}

/// Finds where the run of white space that ends just before `upto` begins.
pub fn content_end_before(text: &Vec<char>, upto: usize) -> (end: usize)
    requires
        upto <= text.len(),
    ensures
        end == content_end(text@, upto as int),
        end <= upto,
{
    let mut i: usize = upto;
    while i > 0 && is_space_char(text[i - 1])
        invariant
            i <= upto <= text.len(),
            content_end(text@, upto as int) == content_end(text@, i as int),
        decreases i,
    {
        i = i - 1;
    }
    i
}

/// Finds the last white-space character of `text`.
pub fn find_last_space(text: &Vec<char>) -> (found: Option<usize>)
    ensures
        match found {
            Some(at) => at == last_space(text@, text@.len() as int) && at < text.len(),
            None => last_space(text@, text@.len() as int) == -1,
        },
{
    let mut i: usize = text.len();
    while i > 0
        invariant
            i <= text.len(),
            last_space(text@, text@.len() as int) == last_space(text@, i as int),
        decreases i,
    {
        if is_space_char(text[i - 1]) {
            return Some(i - 1);
        }
        i = i - 1;
    }
    None
}

/// The bounds of `text` without the white space at its two ends.
pub fn trim_bounds(text: &Vec<char>) -> (bounds: (usize, usize))
    ensures
        bounds.0 <= bounds.1 <= text.len(),
        text@.subrange(bounds.0 as int, bounds.1 as int) == trimmed(text@),
{
    let start: usize = skip_spaces_from(text, 0);
    let end: usize = content_end_before(text, text.len());
    if start >= end {
        assert(text@.subrange(start as int, start as int) == Seq::<char>::empty());
        (start, start)
    } else {
        (start, end)
    }
}

/// `s` without the white space at its two ends.
pub fn trim(s: &str) -> (inner: &str)
    ensures
        inner@ == trimmed(s@),
{
    let chars = chars_of(s);
    let (start, end) = trim_bounds(&chars);
    s.substring_char(start, end)
}

/// The run of white space from `from` on ends within `s`, at a character
/// that is no white space if it ends before the end of `s`.
pub proof fn lemma_skip_spaces(s: Seq<char>, from: int)
    requires
        0 <= from <= s.len(),
    ensures
        from <= skip_spaces(s, from) <= s.len(),
        skip_spaces(s, from) < s.len() ==> !is_space(s[skip_spaces(s, from)]),
    decreases s.len() - from,
{
    if from < s.len() && is_space(s[from]) {
        lemma_skip_spaces(s, from + 1);
    }
}

/// The run of white space before `upto` begins within `s`, after a
/// character that is no white space if it begins after the start of `s`.
pub proof fn lemma_content_end(s: Seq<char>, upto: int)
    requires
        0 <= upto <= s.len(),
    ensures
        0 <= content_end(s, upto) <= upto,
        content_end(s, upto) > 0 ==> !is_space(s[content_end(s, upto) - 1]),
    decreases upto,
{
    if 0 < upto && is_space(s[upto - 1]) {
        lemma_content_end(s, upto - 1);
    }
}

/// A text without the white space at its ends has none at its ends: to
/// trim it again changes nothing.
pub proof fn lemma_trimmed_is_trimmed(s: Seq<char>)
    ensures
        trimmed(trimmed(s)) == trimmed(s),
        trimmed(s).len() > 0 ==> !is_space(trimmed(s)[0]) && !is_space(trimmed(s).last()),
{
    lemma_skip_spaces(s, 0);
    lemma_content_end(s, s.len() as int);
    let a = skip_spaces(s, 0);
    let b = content_end(s, s.len() as int);
    let t = trimmed(s);
    if a < b {
        assert(t[0] == s[a]);
        assert(t.last() == s[b - 1]);
        assert(skip_spaces(t, 0) == 0);
        assert(content_end(t, t.len() as int) == t.len());
        assert(t.subrange(0, t.len() as int) == t);
    } else {
        assert(t.len() == 0);
        assert(skip_spaces(t, 0) == 0);
        assert(content_end(t, 0) == 0);
    }
}

/// Whether a field begins at the index `at` of `s`: a character that is no
/// white space, at the start of `s` or after white space.
pub open spec fn field_starts(s: Seq<char>, at: int) -> bool {
    0 <= at < s.len() && !is_space(s[at]) && (at == 0 || is_space(s[at - 1]))
}

/// The number of fields of `s` that begin before the index `upto`.
pub open spec fn fields_before(s: Seq<char>, upto: int) -> nat
    decreases upto,
{
    if upto <= 0 {
        0
    } else if field_starts(s, upto - 1) {
        fields_before(s, upto - 1) + 1
    } else {
        fields_before(s, upto - 1)
    }
}

/// The number of fields of `s`: of runs of characters with white space
/// between them.
pub open spec fn field_count(s: Seq<char>) -> nat {
    fields_before(s, s.len() as int)
}

/// Counts the fields of `text`.
pub fn count_fields(text: &Vec<char>) -> (count: usize)
    ensures
        count == field_count(text@),
{
    let mut count: usize = 0;
    let mut i: usize = 0;
    while i < text.len()
        invariant
            i <= text.len(),
            count == fields_before(text@, i as int),
            count <= i,
        decreases text.len() - i,
    {
        if !is_space_char(text[i]) && (i == 0 || is_space_char(text[i - 1])) {
            count = count + 1;
        }
        i = i + 1;
    }
    count
}

/// The characters of `text` from `from` up to `to`.
pub fn slice_of(text: &Vec<char>, from: usize, to: usize) -> (part: Vec<char>)
    requires
        from <= to <= text.len(),
    ensures
        part@ == text@.subrange(from as int, to as int),
{
    let mut part: Vec<char> = Vec::new();
    let mut i: usize = from;
    while i < to
        invariant
            from <= i <= to <= text.len(),
            part@ == text@.subrange(from as int, i as int),
        decreases to - i,
    {
        part.push(text[i]);
        i = i + 1;
    }
    part
}

/// Tells whether `text` is, character for character, the word `word`.
pub fn is_word(text: &Vec<char>, word: &str) -> (same: bool)
    ensures
        same == (text@ == word@),
{
    let expected = chars_of(word);
    if text.len() != expected.len() {
        return false;
    }
    let mut i: usize = 0;
    while i < text.len()
        invariant
            i <= text.len(),
            text.len() == expected.len(),
            expected@ == word@,
            forall|j: int| 0 <= j < i ==> text@[j] == expected@[j],
        decreases text.len() - i,
    {
        if text[i] != expected[i] {
            return false;
        }
        i = i + 1;
    }
    assert(text@ =~= expected@);
    true
}

/// Tells whether the characters of `text` from `from` up to `to` are all
/// decimal digits.
pub fn digits_between(text: &Vec<char>, from: usize, to: usize) -> (all: bool)
    requires
        from <= to <= text.len(),
    ensures
        all == all_digits(text@.subrange(from as int, to as int)),
{
    let mut i: usize = from;
    while i < to
        invariant
            from <= i <= to <= text.len(),
            forall|j: int| from <= j < i ==> is_digit(#[trigger] text@[j]),
        decreases to - i,
    {
        if !is_digit_char(text[i]) {
            assert(!is_digit(text@.subrange(from as int, to as int)[i - from]));
            return false;
        }
        i = i + 1;
    }
    assert forall|j: int| 0 <= j < to - from implies is_digit(
        #[trigger] text@.subrange(from as int, to as int)[j],
    ) by {
        assert(is_digit(text@[from + j]));
    }
    true
}

/// Reads the decimal numeral that `text` holds from `from` up to `to`, or
/// gives `None` where it stands for more than `limit`.
pub fn parse_decimal(text: &Vec<char>, from: usize, to: usize, limit: u64) -> (value: Option<u64>)
    requires
        from <= to <= text.len(),
        all_digits(text@.subrange(from as int, to as int)),
    ensures
        value == (if decimal_value(text@.subrange(from as int, to as int)) <= limit {
            Some(decimal_value(text@.subrange(from as int, to as int)) as u64)
        } else {
            None
        }),
{
    let ghost numeral = text@.subrange(from as int, to as int);
    let mut acc: u64 = 0;
    let mut i: usize = from;
    while i < to
        invariant
            from <= i <= to <= text.len(),
            numeral == text@.subrange(from as int, to as int),
            all_digits(numeral),
            acc == decimal_value(numeral.subrange(0, i - from)),
            acc <= limit,
        decreases to - i,
    {
        let c = text[i];
        assert(c == numeral[i - from]);
        assert(is_digit(c));
        let d: u64 = (c as u32 - '0' as u32) as u64;
        proof {
            let longer = numeral.subrange(0, i - from + 1);
            assert(longer.drop_last() == numeral.subrange(0, i - from));
            assert(longer.last() == c);
            assert(decimal_value(longer) == acc * 10 + d);
            lemma_decimal_value_grows(numeral, i - from + 1);
        }
        if limit < d || acc > (limit - d) / 10 {
            return None;
        }
        acc = acc * 10 + d;
        i = i + 1;
    }
    assert(numeral.subrange(0, to - from) == numeral);
    Some(acc)
}

/// The number that `text` states: decimal digits, at least one, after a
/// plus or minus sign or none; `None` where `text` has another form or the
/// number does not fit `i64`.
pub open spec fn signed_value(text: Seq<char>) -> Option<int> {
    let signed = text.len() > 0 && (text[0] == '-' || text[0] == '+');
    let digits = if signed {
        text.subrange(1, text.len() as int)
    } else {
        text
    };
    let value = if text.len() > 0 && text[0] == '-' {
        -(decimal_value(digits) as int)
    } else {
        decimal_value(digits) as int
    };
    if digits.len() > 0 && all_digits(digits) && i64::MIN <= value <= i64::MAX {
        Some(value)
    } else {
        None
    }
}

/// Reads the number that `text` states, with or without a sign.
pub fn parse_signed(text: &Vec<char>) -> (value: Option<i64>)
    ensures
        value == (match signed_value(text@) {
            Some(v) => Some(v as i64),
            None => None,
        }),
{
    let n: usize = text.len();
    if n == 0 {
        return None;
    }
    let negative = text[0] == '-';
    let from: usize = if negative || text[0] == '+' {
        1
    } else {
        0
    };
    assert(text@.subrange(0, n as int) == text@);
    if from == n || !digits_between(text, from, n) {
        return None;
    }
    if negative {
        match parse_decimal(text, from, n, 0x8000_0000_0000_0000) {
            Some(magnitude) => {
                if magnitude == 0x8000_0000_0000_0000 {
                    Some(i64::MIN)
                } else {
                    Some(-(magnitude as i64))
                }
            },
            None => None,
        }
    } else {
        match parse_decimal(text, from, n, 0x7fff_ffff_ffff_ffff) {
            Some(magnitude) => Some(magnitude as i64),
            None => None,
        }
    }
}

/// The decimal digit that stands for `value`.
pub open spec fn digit_char(value: int) -> char {
    (value + 48) as char
}

/// The decimal numeral of `n`, without leading zeros.
pub open spec fn digits_of(n: nat) -> Seq<char>
    decreases n,
{
    if n < 10 {
        seq![digit_char(n as int)]
    } else {
        digits_of(n / 10).push(digit_char((n % 10) as int))
    }
}

/// The decimal numeral of `n`, with a minus sign before it where `n` is
/// negative.
pub open spec fn numeral(n: int) -> Seq<char> {
    if n < 0 {
        seq!['-'] + digits_of((-n) as nat)
    } else {
        digits_of(n as nat)
    }
}

fn digit_text(digit: u64) -> (text: &'static str)
    requires
        digit < 10,
    ensures
        text@ == seq![digit_char(digit as int)],
{
    proof {
        reveal_strlit("0");
        reveal_strlit("1");
        reveal_strlit("2");
        reveal_strlit("3");
        reveal_strlit("4");
        reveal_strlit("5");
        reveal_strlit("6");
        reveal_strlit("7");
        reveal_strlit("8");
        reveal_strlit("9");
    }
    let text = if digit == 0 {
        "0"
    } else if digit == 1 {
        "1"
    } else if digit == 2 {
        "2"
    } else if digit == 3 {
        "3"
    } else if digit == 4 {
        "4"
    } else if digit == 5 {
        "5"
    } else if digit == 6 {
        "6"
    } else if digit == 7 {
        "7"
    } else if digit == 8 {
        "8"
    } else {
        "9"
    };
    assert(text@ =~= seq![digit_char(digit as int)]);
    text
}

fn append_digits(text: &mut String, n: u64)
    ensures
        final(text)@ == old(text)@ + digits_of(n as nat),
    decreases n,
{
    if n < 10 {
        text.append(digit_text(n));
    } else {
        append_digits(text, n / 10);
        text.append(digit_text(n % 10));
        assert(old(text)@ + digits_of((n / 10) as nat) + seq![digit_char((n % 10) as int)]
            =~= old(text)@ + digits_of((n / 10) as nat).push(digit_char((n % 10) as int)));
    }
}

/// Writes `n` as a decimal numeral.
pub fn numeral_of(n: i64) -> (text: String)
    ensures
        text@ == numeral(n as int),
{
    if n < 0 {
        let magnitude: u64 = (-(n as i128)) as u64;
        let mut text = String::from_str("-");
        proof {
            reveal_strlit("-");
            assert("-"@ =~= seq!['-']);
        }
        append_digits(&mut text, magnitude);
        text
    } else {
        let mut text = String::new();
        append_digits(&mut text, n as u64);
        assert(Seq::<char>::empty() + digits_of(n as nat) =~= digits_of(n as nat));
        text
    }
}

/// The numeral of a number consists of digits, at least one, and stands
/// for the number.
pub proof fn lemma_digits_of(n: nat)
    ensures
        digits_of(n).len() >= 1,
        all_digits(digits_of(n)),
        decimal_value(digits_of(n)) == n,
    decreases n,
{
    let text = digits_of(n);
    if n < 10 {
        assert(text.len() == 1 && text[0] == digit_char(n as int));
        assert(text.drop_last().len() == 0);
        assert(decimal_value(text.drop_last()) == 0);
        assert(decimal_value(text) == n);
    } else {
        lemma_digits_of(n / 10);
        let shorter = digits_of(n / 10);
        assert(text.drop_last() == shorter);
        assert(text.last() == digit_char((n % 10) as int));
        assert forall|i: int| 0 <= i < text.len() implies is_digit(#[trigger] text[i]) by {
            if i < shorter.len() {
                assert(text[i] == shorter[i]);
            }
        }
    }
}

/// The numeral of a number that fits `i64` reads back as that number, and
/// has no white space at its ends.
pub proof fn lemma_numeral_reads_back(n: int)
    requires
        i64::MIN <= n <= i64::MAX,
    ensures
        signed_value(numeral(n)) == Some(n),
        trimmed(numeral(n)) == numeral(n),
{
    let text = numeral(n);
    if n < 0 {
        lemma_digits_of((-n) as nat);
        let digits = digits_of((-n) as nat);
        assert(text[0] == '-');
        assert(text.subrange(1, text.len() as int) == digits);
        assert(text.last() == digits.last());
        assert(is_digit(digits[digits.len() - 1]));
    } else {
        lemma_digits_of(n as nat);
        assert(is_digit(text[0]));
        assert(is_digit(text[text.len() - 1]));
    }
    assert(!is_space(text[0]));
    assert(!is_space(text[text.len() - 1]));
    assert(skip_spaces(text, 0) == 0);
    assert(content_end(text, text.len() as int) == text.len());
    assert(text.subrange(0, text.len() as int) == text);
}

/// The lower-case form of a text, as `str::to_lowercase` gives it.
pub uninterp spec fn lowercase(s: Seq<char>) -> Seq<char>;

/// Whether `s` is plain text: whether each of its characters is one of the
/// first 128.
pub open spec fn is_plain(s: Seq<char>) -> bool {
    forall|i: int| 0 <= i < s.len() ==> (#[trigger] s[i]) as int <= 127
}

/// The small letter of the capital letter `c` of the basic alphabet; any
/// other character itself.
pub open spec fn small(c: char) -> char {
    if 'A' <= c <= 'Z' {
        (c as int + 32) as char
    } else {
        c
    }
}

/// `s` with a small letter for each capital letter of the basic alphabet.
pub open spec fn small_letters(s: Seq<char>) -> Seq<char> {
    s.map_values(|c: char| small(c))
}

/// `str::to_lowercase`: the result depends on the characters of `s` alone.
/// Of plain text it is the text with a small letter for each capital.
#[verifier::external_body]
pub(crate) fn to_lowercase(s: &str) -> (lower: String)
    ensures
        lower@ == lowercase(s@),
        is_plain(s@) ==> lower@ == small_letters(s@),
{
    s.to_lowercase()
}

} // verus!
