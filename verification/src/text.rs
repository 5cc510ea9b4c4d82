//! Text primitives: case folding, trimming, searching, and the decimal and
//! hexadecimal notations that identifiers and options are written in.
//!
//! Text is modelled as a `Seq<char>`. Executable functions work on character
//! slices; [`chars_of`] and [`string_of`] convert.

use vstd::prelude::*;

verus! {

/// Appends `c`, as `String::push` documents: the text grows by that character.
pub assume_specification[ String::push ](s: &mut String, c: char)
    ensures
        final(s)@ == old(s)@.push(c),
;

/// The characters with Unicode's `White_Space` property.
pub open spec fn is_white_space(c: char) -> bool {
    ||| '\u{9}' <= c <= '\u{d}'
    ||| c == '\u{20}'
    ||| c == '\u{85}'
    ||| c == '\u{a0}'
    ||| c == '\u{1680}'
    ||| '\u{2000}' <= c <= '\u{200a}'
    ||| c == '\u{2028}'
    ||| c == '\u{2029}'
    ||| c == '\u{202f}'
    ||| c == '\u{205f}'
    ||| c == '\u{3000}'
}

/// `char::is_whitespace` tells whether a character has the `White_Space`
/// property.
pub assume_specification[ char::is_whitespace ](c: char) -> (white: bool)
    ensures
        white == is_white_space(c),
;

/// `s` as `Debug` renders it: in double quotes, with escapes.
pub uninterp spec fn quoted(s: Seq<char>) -> Seq<char>;

/// Whether `Debug` leaves the characters of `s` as they are: printable ASCII but
/// for the double quote and the backslash.
pub open spec fn needs_no_escape(s: Seq<char>) -> bool {
    forall|i: int|
        0 <= i < s.len() ==> ' ' <= #[trigger] s[i] <= '~' && s[i] != '"' && s[i] != '\\'
}

/// Renders `s` with `str`'s `Debug` through `format!`: quotes around it, and
/// escapes inside where a character needs one.
#[verifier::external_body]
pub(crate) fn quote(s: &str) -> (out: String)
    ensures
        out@ == quoted(s@),
        needs_no_escape(s@) ==> out@ == seq!['"'] + s@ + seq!['"'],
{
    format!("{:?}", s)
}

/// `bytes` read as UTF-8, with replacement characters for what is none.
pub uninterp spec fn lossy_utf8(bytes: Seq<u8>) -> Seq<char>;

/// Decodes `bytes` with `String::from_utf8_lossy`, which gives the text that
/// valid UTF-8 encodes and puts replacement characters in place of what is not.
#[verifier::external_body]
pub(crate) fn decode_lossy(bytes: &[u8]) -> (s: String)
    ensures
        s@ == lossy_utf8(bytes@),
        vstd::utf8::valid_utf8(bytes@) ==> s@ == vstd::utf8::decode_utf8(bytes@),
{
    String::from_utf8_lossy(bytes).into_owned()
}

/// `units` read as UTF-16, with replacement characters for what is none.
pub uninterp spec fn lossy_utf16(units: Seq<u16>) -> Seq<char>;

/// Whether every unit is a character by itself: none is half of a pair.
pub open spec fn has_no_surrogates(units: Seq<u16>) -> bool {
    forall|i: int| 0 <= i < units.len() ==> !(0xD800 <= #[trigger] units[i] <= 0xDFFF)
}

/// Decodes `units` with `String::from_utf16_lossy`, which puts replacement
/// characters in place of halves of pairs that stand alone. Units that are no
/// such halves are characters of the same number.
#[verifier::external_body]
pub(crate) fn decode_utf16_lossy(units: &[u16]) -> (s: String)
    ensures
        s@ == lossy_utf16(units@),
        has_no_surrogates(units@) ==> s@ == Seq::new(
            units@.len(),
            |i: int| units@[i] as char,
        ),
{
    String::from_utf16_lossy(units)
}

/// The characters of `s`.
pub fn chars_of(s: &str) -> (chars: Vec<char>)
    ensures
        chars@ == s@,
{
    let mut chars: Vec<char> = Vec::new();
    for c in it: s.chars()
        invariant
            it.seq() == s@,
            chars@ == s@.take(it.index()),
    {
        chars.push(c);
    }
    chars
}

/// The text made of `chars`.
pub fn string_of(chars: &[char]) -> (s: String)
    ensures
        s@ == chars@,
{
    let mut s = String::new();
    let mut i: usize = 0;
    while i < chars.len()
        invariant
            i <= chars.len(),
            s@ == chars@.take(i as int),
        decreases chars.len() - i,
    {
        s.push(chars[i]);
        i += 1;
    }
    s
}

/// Whether `a` and `b` are the same text.
pub fn same(a: &[char], b: &[char]) -> (equal: bool)
    ensures
        equal == (a@ == b@),
{
    if a.len() != b.len() {
        return false;
    }
    let mut i: usize = 0;
    while i < a.len()
        invariant
            i <= a.len(),
            a.len() == b.len(),
            a@.take(i as int) =~= b@.take(i as int),
        decreases a.len() - i,
    {
        if a[i] != b[i] {
            return false;
        }
        assert(a@.take(i + 1) =~= a@.take(i as int).push(a@[i as int]));
        assert(b@.take(i + 1) =~= b@.take(i as int).push(b@[i as int]));
        i += 1;
    }
    assert(a@.take(i as int) =~= a@);
    assert(b@.take(i as int) =~= b@);
    true
}

/// Whether `a` is the text `b`.
pub fn is_text(a: &[char], b: &str) -> (equal: bool)
    ensures
        equal == (a@ == b@),
{
    same(a, chars_of(b).as_slice())
}

/// Whether `a` and `b` are the same text.
pub fn same_str(a: &str, b: &str) -> (equal: bool)
    ensures
        equal == (a@ == b@),
{
    same(chars_of(a).as_slice(), chars_of(b).as_slice())
}

/// Whether `s` contains the character `c`.
pub fn has_char(s: &str, c: char) -> (found: bool)
    ensures
        found == s@.contains(c),
{
    let chars = chars_of(s);
    match find_char(chars.as_slice(), c) {
        Some(i) => {
            assert(s@[i as int] == c);
            true
        },
        None => false,
    }
}

// ---------------------------------------------------------------------------
// Case folding
// ---------------------------------------------------------------------------

/// `c` with an ASCII capital letter made small.
pub open spec fn ascii_lower_char(c: char) -> char {
    if 'A' <= c <= 'Z' {
        (c as u32 + 32) as char
    } else {
        c
    }
}

/// `s` with its ASCII capital letters made small.
pub open spec fn ascii_lower(s: Seq<char>) -> Seq<char> {
    Seq::new(s.len(), |i: int| ascii_lower_char(s[i]))
}

/// `c` with an ASCII capital letter made small.
pub fn lower_char(c: char) -> (lower: char)
    ensures
        lower == ascii_lower_char(c),
{
    if 'A' <= c && c <= 'Z' {
        (c as u8 + 32) as char
    } else {
        c
    }
}

/// `s` with its capital letters made small, whatever their script.
pub uninterp spec fn lowercase(s: Seq<char>) -> Seq<char>;

/// Makes capital letters small with `str::to_lowercase`, which goes by Unicode
/// and changes text that is ASCII as [`ascii_lower`] does.
#[verifier::external_body]
pub(crate) fn to_lowercase(s: &str) -> (out: String)
    ensures
        out@ == lowercase(s@),
        (forall|i: int| 0 <= i < s@.len() ==> #[trigger] s@[i] <= '\x7F') ==> out@ == ascii_lower(
            s@,
        ),
{
    s.to_lowercase()
}

/// `s` with its ASCII capital letters made small.
pub fn lower(s: &[char]) -> (out: Vec<char>)
    ensures
        out@ == ascii_lower(s@),
{
    let mut out: Vec<char> = Vec::new();
    let mut i: usize = 0;
    while i < s.len()
        invariant
            i <= s.len(),
            out@ == ascii_lower(s@).take(i as int),
        decreases s.len() - i,
    {
        out.push(lower_char(s[i]));
        i += 1;
    }
    out
}

// ---------------------------------------------------------------------------
// Trimming and searching
// ---------------------------------------------------------------------------

/// `s` without the white space it starts with.
pub open spec fn trim_start(s: Seq<char>) -> Seq<char>
    decreases s.len(),
{
    if s.len() > 0 && is_white_space(s[0]) {
        trim_start(s.skip(1))
    } else {
        s
    }
}

/// `s` without the white space it ends with.
pub open spec fn trim_end(s: Seq<char>) -> Seq<char>
    decreases s.len(),
{
    if s.len() > 0 && is_white_space(s.last()) {
        trim_end(s.drop_last())
    } else {
        s
    }
}

/// `s` without the white space around it.
pub open spec fn trimmed(s: Seq<char>) -> Seq<char> {
    trim_end(trim_start(s))
}

/// `s` without the white space around it.
pub fn trim(s: &[char]) -> (out: &[char])
    ensures
        out@ == trimmed(s@),
{
    let mut from: usize = 0;
    assert(s@.skip(0) =~= s@);
    while from < s.len() && s[from].is_whitespace()
        invariant
            from <= s.len(),
            trim_start(s@.skip(from as int)) == trim_start(s@),
        decreases s.len() - from,
    {
        assert(s@.skip(from as int).skip(1) =~= s@.skip(from + 1));
        from += 1;
    }
    assert(trim_start(s@) == s@.skip(from as int));
    let mut to: usize = s.len();
    assert(s@.subrange(from as int, to as int) =~= s@.skip(from as int));
    while from < to && s[to - 1].is_whitespace()
        invariant
            from <= to <= s.len(),
            trim_end(s@.subrange(from as int, to as int)) == trimmed(s@),
        decreases to,
    {
        assert(s@.subrange(from as int, to as int).drop_last() =~= s@.subrange(
            from as int,
            to - 1,
        ));
        to -= 1;
    }
    vstd::slice::slice_subrange(s, from, to)
}

/// Whether `c` occurs in `s` first at `i`.
pub open spec fn first_at(s: Seq<char>, c: char, i: int) -> bool {
    0 <= i < s.len() && s[i] == c && forall|j: int| 0 <= j < i ==> s[j] != c
}

/// Where `c` first occurs in `s`.
pub fn find_char(s: &[char], c: char) -> (found: Option<usize>)
    ensures
        match found {
            Some(i) => first_at(s@, c, i as int),
            None => !s@.contains(c),
        },
{
    let mut i: usize = 0;
    while i < s.len()
        invariant
            i <= s.len(),
            forall|j: int| 0 <= j < i ==> s@[j] != c,
        decreases s.len() - i,
    {
        if s[i] == c {
            return Some(i);
        }
        i += 1;
    }
    None
}

/// Where `c` first occurs in `s`, or the length of `s` where it does not.
pub open spec fn index_or_len(s: Seq<char>, c: char) -> int
    decreases s.len(),
{
    if s.len() == 0 || s[0] == c {
        0
    } else {
        1 + index_or_len(s.skip(1), c)
    }
}

/// [`index_or_len`] is where `c` first occurs.
pub proof fn index_or_len_is_first(s: Seq<char>, c: char)
    ensures
        0 <= index_or_len(s, c) <= s.len(),
        index_or_len(s, c) < s.len() ==> first_at(s, c, index_or_len(s, c)),
        index_or_len(s, c) == s.len() ==> !s.contains(c),
    decreases s.len(),
{
    if s.len() > 0 && s[0] != c {
        index_or_len_is_first(s.skip(1), c);
        let i = index_or_len(s.skip(1), c);
        assert forall|j: int| 0 <= j < 1 + i && j < s.len() implies s[j] != c by {
            if j > 0 {
                assert(s[j] == s.skip(1)[j - 1]);
                if i == s.skip(1).len() {
                    assert(s.skip(1).contains(s.skip(1)[j - 1]));
                }
            }
        }
    }
}

/// The parts of `s` between the occurrences of `c`.
pub open spec fn pieces(s: Seq<char>, c: char) -> Seq<Seq<char>>
    decreases s.len(),
{
    let i = index_or_len(s, c);
    if 0 <= i < s.len() {
        seq![s.take(i)] + pieces(s.skip(i + 1), c)
    } else {
        seq![s]
    }
}

/// Piece `k` of `s`, or the empty text where there are fewer.
pub open spec fn piece(s: Seq<char>, c: char, k: int) -> Seq<char> {
    if 0 <= k < pieces(s, c).len() {
        pieces(s, c)[k]
    } else {
        Seq::empty()
    }
}

/// Splits `s` at its first `c`: what comes before it, and what comes after,
/// where there is one.
pub fn split_first(s: &[char], c: char) -> (parts: (&[char], Option<&[char]>))
    ensures
        parts.0@ == s@.take(index_or_len(s@, c)),
        match parts.1 {
            Some(rest) => index_or_len(s@, c) < s@.len() && rest@ == s@.skip(
                index_or_len(s@, c) + 1,
            ),
            None => index_or_len(s@, c) == s@.len(),
        },
{
    proof {
        index_or_len_is_first(s@, c);
    }
    match find_char(s, c) {
        Some(i) => {
            assert(i == index_or_len(s@, c)) by {
                assert(s@.contains(s@[i as int]));
            }
            let len: usize = s.len();
            let rest = vstd::slice::slice_subrange(s, i + 1, len);
            assert(rest@ =~= s@.skip(i + 1));
            (vstd::slice::slice_subrange(s, 0, i), Some(rest))
        },
        None => {
            assert(index_or_len(s@, c) == s@.len());
            assert(s@.take(s@.len() as int) =~= s@);
            (s, None)
        },
    }
}

/// Whether `needle` stands in `s` at `i`.
pub open spec fn occurs_at(s: Seq<char>, needle: Seq<char>, i: int) -> bool {
    0 <= i <= s.len() - needle.len() && s.subrange(i, i + needle.len()) == needle
}

/// Whether `needle` occurs in `s`.
pub open spec fn contains_text(s: Seq<char>, needle: Seq<char>) -> bool {
    exists|i: int| occurs_at(s, needle, i)
}

/// Whether `needle` occurs in `s`.
pub fn contains(s: &[char], needle: &[char]) -> (found: bool)
    ensures
        found == contains_text(s@, needle@),
{
    if needle.len() > s.len() {
        return false;
    }
    let last: usize = s.len() - needle.len();
    let mut i: usize = 0;
    loop
        invariant
            i <= last,
            last == s.len() - needle.len(),
            forall|j: int| 0 <= j < i ==> !occurs_at(s@, needle@, j),
        decreases last - i,
    {
        let part = vstd::slice::slice_subrange(s, i, i + needle.len());
        if same(part, needle) {
            assert(occurs_at(s@, needle@, i as int));
            return true;
        }
        if i == last {
            return false;
        }
        i += 1;
    }
}

/// Whether `s` ends with `suffix`.
pub open spec fn ends_with_text(s: Seq<char>, suffix: Seq<char>) -> bool {
    s.len() >= suffix.len() && s.skip(s.len() - suffix.len()) == suffix
}

/// Whether `s` ends with `suffix`.
pub fn ends_with(s: &[char], suffix: &[char]) -> (found: bool)
    ensures
        found == ends_with_text(s@, suffix@),
{
    if suffix.len() > s.len() {
        return false;
    }
    let part = vstd::slice::slice_subrange(s, s.len() - suffix.len(), s.len());
    assert(part@ =~= s@.skip(s@.len() - suffix@.len()));
    same(part, suffix)
}

// ---------------------------------------------------------------------------
// Numbers
// ---------------------------------------------------------------------------

/// The value of `c` as a digit in a base of at most 16, or 16 where it is none.
pub open spec fn digit_value(c: char) -> nat {
    if '0' <= c <= '9' {
        (c as u32 - '0' as u32) as nat
    } else if 'a' <= c <= 'f' {
        (c as u32 - 'a' as u32 + 10) as nat
    } else if 'A' <= c <= 'F' {
        (c as u32 - 'A' as u32 + 10) as nat
    } else {
        16
    }
}

/// Whether `s` consists of digits of `base`.
pub open spec fn all_digits(s: Seq<char>, base: nat) -> bool {
    forall|i: int| 0 <= i < s.len() ==> digit_value(#[trigger] s[i]) < base
}

/// The number that the digits `s` spell in `base`, most significant first.
pub open spec fn digits_value(s: Seq<char>, base: nat) -> nat
    decreases s.len(),
{
    if s.len() == 0 {
        0
    } else {
        digits_value(s.drop_last(), base) * base + digit_value(s.last())
    }
}

/// `s` without one leading plus sign.
pub open spec fn unsigned_part(s: Seq<char>) -> Seq<char> {
    if s.len() > 0 && s[0] == '+' {
        s.skip(1)
    } else {
        s
    }
}

/// The number that `s` writes in `base`: one or more digits after an optional
/// plus sign.
pub open spec fn number_of(s: Seq<char>, base: nat) -> Option<nat> {
    let digits = unsigned_part(s);
    if digits.len() > 0 && all_digits(digits, base) {
        Some(digits_value(digits, base))
    } else {
        None
    }
}

/// The number that `s` writes in `base`, where it is at most `max`.
pub open spec fn number_up_to(s: Seq<char>, base: nat, max: nat) -> Option<nat> {
    match number_of(s, base) {
        Some(n) => if n <= max {
            Some(n)
        } else {
            None
        },
        None => None,
    }
}

/// The value of `c` as a digit, or 16 where it is none.
fn digit_of(c: char) -> (value: u64)
    ensures
        value == digit_value(c),
{
    if '0' <= c && c <= '9' {
        c as u64 - '0' as u64
    } else if 'a' <= c && c <= 'f' {
        c as u64 - 'a' as u64 + 10
    } else if 'A' <= c && c <= 'F' {
        c as u64 - 'A' as u64 + 10
    } else {
        16
    }
}

/// More digits do not make a number smaller.
proof fn digits_value_grows(s: Seq<char>, base: nat, i: int)
    requires
        0 <= i <= s.len(),
        base >= 1,
    ensures
        digits_value(s.take(i), base) <= digits_value(s, base),
    decreases s.len() - i,
{
    if i == s.len() {
        assert(s.take(i) =~= s);
    } else {
        digits_value_grows(s, base, i + 1);
        assert(s.take(i + 1).drop_last() =~= s.take(i));
        let v = digits_value(s.take(i), base);
        assert(v <= v * base) by (nonlinear_arith)
            requires
                base >= 1,
        ;
    }
}

/// The number that `s` writes in `base`, where it is at most `max`.
pub fn parse_number(s: &[char], base: u64, max: u64) -> (number: Option<u64>)
    requires
        1 <= base <= 16,
    ensures
        match number {
            Some(n) => number_up_to(s@, base as nat, max as nat) == Some(n as nat),
            None => number_up_to(s@, base as nat, max as nat) is None,
        },
{
    let from: usize = if s.len() > 0 && s[0] == '+' {
        1
    } else {
        0
    };
    let digits = vstd::slice::slice_subrange(s, from, s.len());
    assert(digits@ =~= unsigned_part(s@));
    if digits.len() == 0 {
        return None;
    }
    let ghost b = base as nat;
    let mut value: u64 = 0;
    let mut too_large: bool = false;
    let mut i: usize = 0;
    while i < digits.len()
        invariant
            i <= digits.len(),
            digits@ == unsigned_part(s@),
            1 <= base <= 16,
            b == base as nat,
            all_digits(digits@.take(i as int), b),
            value <= max,
            !too_large ==> value == digits_value(digits@.take(i as int), b),
            too_large ==> digits_value(digits@.take(i as int), b) > max,
        decreases digits.len() - i,
    {
        let d: u64 = digit_of(digits[i]);
        if d >= base {
            assert(digit_value(digits@[i as int]) >= b);
            return None;
        }
        let ghost before = digits@.take(i as int);
        let ghost after = digits@.take(i + 1);
        proof {
            assert(after.drop_last() =~= before);
            assert(after.last() == digits@[i as int]);
            let v = digits_value(before, b);
            assert(v <= v * b) by (nonlinear_arith)
                requires
                    b >= 1,
            ;
        }
        if !too_large {
            match value.checked_mul(base) {
                Some(scaled) => match scaled.checked_add(d) {
                    Some(next) => {
                        if next <= max {
                            value = next;
                        } else {
                            too_large = true;
                        }
                    },
                    None => {
                        too_large = true;
                    },
                },
                None => {
                    too_large = true;
                },
            }
        }
        i += 1;
    }
    assert(digits@.take(i as int) =~= digits@);
    if too_large {
        None
    } else {
        Some(value)
    }
}

/// The character that writes the digit `d`.
pub open spec fn digit_char(d: nat) -> char {
    if d < 10 {
        (d + '0' as u32) as char
    } else {
        (d - 10 + 'a' as u32) as char
    }
}

/// `n` written in `base` with at least one digit and no leading zeros.
pub open spec fn number_text(n: nat, base: nat) -> Seq<char>
    decreases n,
{
    if base < 2 || n < base {
        seq![digit_char(n)]
    } else {
        proof {
            assert(n / base < n) by (nonlinear_arith)
                requires
                    n >= base,
                    base >= 2,
            ;
        }
        number_text(n / base, base).push(digit_char(n % base))
    }
}

/// `n` written in `base` with `width` digits.
pub open spec fn padded_text(n: nat, base: nat, width: nat) -> Seq<char>
    decreases width,
{
    if width == 0 {
        Seq::empty()
    } else {
        padded_text(n / base, base, (width - 1) as nat).push(digit_char(n % base))
    }
}

/// `n` written in decimal.
pub open spec fn decimal(n: nat) -> Seq<char> {
    number_text(n, 10)
}

/// `n` written in decimal, with a minus sign where it is negative.
pub open spec fn signed_decimal(n: int) -> Seq<char> {
    if n < 0 {
        seq!['-'] + decimal((-n) as nat)
    } else {
        decimal(n as nat)
    }
}

/// The character that writes the digit `d`.
pub fn char_of_digit(d: u8) -> (c: char)
    requires
        d < 16,
    ensures
        c == digit_char(d as nat),
{
    if d < 10 {
        (d + 48) as char
    } else {
        (d - 10 + 97) as char
    }
}

/// Appends `n` in decimal to `out`.
pub fn push_decimal(out: &mut String, n: u64)
    ensures
        final(out)@ == old(out)@ + decimal(n as nat),
    decreases n,
{
    if n >= 10 {
        push_decimal(out, n / 10);
    }
    out.push(char_of_digit((n % 10) as u8));
    assert(out@ =~= old(out)@ + decimal(n as nat));
}

/// Appends `n` in decimal to `out`.
pub fn push_signed_decimal(out: &mut String, n: i64)
    ensures
        final(out)@ == old(out)@ + signed_decimal(n as int),
{
    if n < 0 {
        out.push('-');
        let magnitude: u64 = (-(n as i128)) as u64;
        push_decimal(out, magnitude);
        assert(out@ =~= old(out)@ + signed_decimal(n as int));
    } else {
        push_decimal(out, n as u64);
    }
}

/// Appends `n` in hexadecimal with `width` digits to `out`.
pub fn push_hex(out: &mut String, n: u64, width: usize)
    ensures
        final(out)@ == old(out)@ + padded_text(n as nat, 16, width as nat),
    decreases width,
{
    if width > 0 {
        push_hex(out, n / 16, width - 1);
        out.push(char_of_digit((n % 16) as u8));
    }
    assert(out@ =~= old(out)@ + padded_text(n as nat, 16, width as nat));
}

/// A digit's character writes that digit.
pub proof fn digit_round_trip(d: nat)
    requires
        d < 16,
    ensures
        digit_value(digit_char(d)) == d,
        digit_char(d) != '+',
{
}

/// Reading back what [`decimal`] or any other [`number_text`] writes gives the
/// number: the notation loses nothing.
pub proof fn number_text_reads_back(n: nat, base: nat)
    requires
        2 <= base <= 16,
    ensures
        number_of(number_text(n, base), base) == Some(n),
        number_text(n, base).len() > 0,
    decreases n,
{
    let t = number_text(n, base);
    number_text_digits(n, base);
    digit_round_trip(if n < base { n } else { n % base });
    assert(t[0] != '+') by {
        assert(digit_value(t[0]) < base);
    }
    assert(unsigned_part(t) == t);
}

/// The digits that [`number_text`] writes spell the number.
proof fn number_text_digits(n: nat, base: nat)
    requires
        2 <= base <= 16,
    ensures
        number_text(n, base).len() > 0,
        all_digits(number_text(n, base), base),
        digits_value(number_text(n, base), base) == n,
    decreases n,
{
    let t = number_text(n, base);
    if n < base {
        digit_round_trip(n);
        assert(t.drop_last() =~= Seq::<char>::empty());
        assert(digits_value(t.drop_last(), base) == 0);
        assert(0 * base == 0);
    } else {
        assert(n / base < n && n % base < base) by (nonlinear_arith)
            requires
                n >= base,
                base >= 2,
        ;
        number_text_digits(n / base, base);
        digit_round_trip(n % base);
        assert(t.drop_last() =~= number_text(n / base, base));
        assert((n / base) * base + n % base == n) by (nonlinear_arith)
            requires
                base >= 2,
        ;
    }
}

/// Reading back `width` digits gives the number, where it fits.
pub proof fn padded_text_reads_back(n: nat, base: nat, width: nat)
    requires
        2 <= base <= 16,
        n < vstd::arithmetic::power::pow(base as int, width),
    ensures
        padded_text(n, base, width).len() == width,
        all_digits(padded_text(n, base, width), base),
        digits_value(padded_text(n, base, width), base) == n,
    decreases width,
{
    let t = padded_text(n, base, width);
    reveal(vstd::arithmetic::power::pow);
    if width > 0 {
        let p = vstd::arithmetic::power::pow(base as int, (width - 1) as nat);
        assert(vstd::arithmetic::power::pow(base as int, width) == base * p);
        assert(n / base < p && n % base < base) by (nonlinear_arith)
            requires
                n < base * p,
                base >= 2,
        ;
        padded_text_reads_back(n / base, base, (width - 1) as nat);
        digit_round_trip(n % base);
        assert(t.drop_last() =~= padded_text(n / base, base, (width - 1) as nat));
        assert((n / base) * base + n % base == n) by (nonlinear_arith)
            requires
                base >= 2,
        ;
    }
}

// ---------------------------------------------------------------------------
// Paths
// ---------------------------------------------------------------------------

/// `base` and `part` as one path. Where `separator` is a backslash, a slash
/// separates too.
pub open spec fn joined(base: Seq<char>, separator: char, part: Seq<char>) -> Seq<char> {
    (if base.len() == 0 || base.last() == separator || (separator == '\\' && base.last() == '/') {
        base
    } else {
        base.push(separator)
    }) + part
}

/// `base` and `part` as one path.
pub fn join(base: &str, separator: char, part: &str) -> (path: String)
    ensures
        path@ == joined(base@, separator, part@),
{
    let chars = chars_of(base);
    let mut path = String::from_str(base);
    if chars.len() > 0 {
        let last = chars[chars.len() - 1];
        if last != separator && !(separator == '\\' && last == '/') {
            path.push(separator);
        }
    }
    path.append(part);
    path
}

// ---------------------------------------------------------------------------
// What text means
// ---------------------------------------------------------------------------

/// The digits are those that everyone writes: 0 to 9, then a to f, whatever the
/// case of the letters; nothing else is one.
pub proof fn digits_are_the_usual_ones(c: char)
    ensures
        '0' <= c <= '9' ==> digit_value(c) == c as int - '0' as int,
        'a' <= c <= 'f' ==> digit_value(c) == c as int - 'a' as int + 10,
        'A' <= c <= 'F' ==> digit_value(c) == c as int - 'A' as int + 10,
        digit_value(c) < 16 ==> ('0' <= c <= '9' || 'a' <= c <= 'f' || 'A' <= c <= 'F'),
        digit_value(c) < 10 ==> '0' <= c <= '9',
{
}

/// A number's text is digits only, and its last digit is what is left over when
/// the number is divided by the base.
pub proof fn decimals_are_digits(n: nat)
    ensures
        decimal(n).len() > 0,
        forall|i: int| 0 <= i < decimal(n).len() ==> '0' <= #[trigger] decimal(n)[i] <= '9',
        decimal(n).last() as int == '0' as int + n % 10,
        number_of(decimal(n), 10) == Some(n),
    decreases n,
{
    number_text_reads_back(n, 10);
    number_text_digits(n, 10);
    if n >= 10 {
        decimals_are_digits(n / 10);
        assert forall|i: int| 0 <= i < decimal(n).len() implies '0' <= #[trigger] decimal(n)[i]
            <= '9' by {
            if i < decimal(n / 10).len() {
                assert(decimal(n)[i] == decimal(n / 10)[i]);
            }
        }
    }
}

/// Text of digits has no white space around it, no capital letters, and no other
/// characters.
pub proof fn decimals_stay_as_they_are(n: nat)
    ensures
        trimmed(decimal(n)) == decimal(n),
        ascii_lower(decimal(n)) == decimal(n),
        forall|c: char| !('0' <= c <= '9') ==> !(#[trigger] decimal(n).contains(c)),
{
    decimals_are_digits(n);
    let t = decimal(n);
    assert('0' <= t[0] <= '9');
    assert('0' <= t[t.len() - 1] <= '9');
    assert(ascii_lower(t) =~= t) by {
        assert forall|i: int| 0 <= i < t.len() implies ascii_lower_char(#[trigger] t[i]) == t[i] by {
            assert('0' <= t[i] <= '9');
        }
    }
    assert forall|c: char| !('0' <= c <= '9') implies !(#[trigger] t.contains(c)) by {
        if t.contains(c) {
            let i = choose|i: int| 0 <= i < t.len() && t[i] == c;
            assert('0' <= t[i] <= '9');
        }
    }
}

/// Making letters small twice is making them small once; a capital letter becomes
/// the small letter at the same place of the alphabet, and all else stays.
pub proof fn lower_case_is_lower_case(c: char)
    ensures
        'A' <= c <= 'Z' ==> ascii_lower_char(c) as int - 'a' as int == c as int - 'A' as int,
        !('A' <= c <= 'Z') ==> ascii_lower_char(c) == c,
        ascii_lower_char(ascii_lower_char(c)) == ascii_lower_char(c),
{
}

/// White space around a text goes, and all else stays.
pub proof fn only_the_ends_are_trimmed(before: Seq<char>, s: Seq<char>, after: Seq<char>)
    requires
        forall|i: int| 0 <= i < before.len() ==> is_white_space(#[trigger] before[i]),
        forall|i: int| 0 <= i < after.len() ==> is_white_space(#[trigger] after[i]),
        s.len() > 0,
        !is_white_space(s[0]),
        !is_white_space(s.last()),
    ensures
        trimmed(before + s + after) == s,
    decreases before.len() + after.len(),
{
    let whole = before + s + after;
    if before.len() > 0 {
        assert(whole[0] == before[0]);
        assert(whole.skip(1) =~= before.skip(1) + s + after);
        assert forall|i: int| 0 <= i < before.skip(1).len() implies is_white_space(
            #[trigger] before.skip(1)[i],
        ) by {
            assert(before.skip(1)[i] == before[i + 1]);
        }
        only_the_ends_are_trimmed(before.skip(1), s, after);
    } else {
        assert(whole =~= s + after);
        assert(whole[0] == s[0]);
        assert(trim_start(whole) == whole);
        trailing_space_is_trimmed(s, after);
    }
}

proof fn trailing_space_is_trimmed(s: Seq<char>, after: Seq<char>)
    requires
        forall|i: int| 0 <= i < after.len() ==> is_white_space(#[trigger] after[i]),
        s.len() > 0,
        !is_white_space(s.last()),
    ensures
        trim_end(s + after) == s,
    decreases after.len(),
{
    if after.len() > 0 {
        assert((s + after).last() == after[after.len() - 1]);
        assert((s + after).drop_last() =~= s + after.drop_last());
        assert forall|i: int| 0 <= i < after.drop_last().len() implies is_white_space(
            #[trigger] after.drop_last()[i],
        ) by {
            assert(after.drop_last()[i] == after[i]);
        }
        trailing_space_is_trimmed(s, after.drop_last());
    } else {
        assert(s + after =~= s);
    }
}

/// A text occurs wherever it was put, and it ends a text that was made by
/// appending it.
pub proof fn texts_are_found_where_they_are(before: Seq<char>, s: Seq<char>, after: Seq<char>)
    ensures
        contains_text(before + s + after, s),
        ends_with_text(before + s, s),
        contains_text(s, before) ==> before.len() <= s.len(),
        ends_with_text(before, s) ==> before.len() >= s.len() && before.take(
            before.len() - s.len(),
        ) + s == before,
{
    let whole = before + s + after;
    assert(whole.subrange(before.len() as int, before.len() as int + s.len()) =~= s);
    assert(occurs_at(whole, s, before.len() as int));
    assert((before + s).skip(before.len() as int) =~= s);
    if ends_with_text(before, s) {
        assert(before.take(before.len() - s.len()) + before.skip(before.len() - s.len())
            =~= before);
    }
}

/// A joined path is the base, one separator and the part; a base that ends in a
/// separator gets no other, and neither does an empty one.
pub proof fn joined_paths_have_one_separator(base: Seq<char>, part: Seq<char>)
    ensures
        base.len() > 0 && base.last() != '/' ==> joined(base, '/', part) == base + seq!['/'] + part,
        base.len() == 0 || base.last() == '/' ==> joined(base, '/', part) == base + part,
        base.len() > 0 && base.last() != '\\' && base.last() != '/' ==> joined(base, '\\', part)
            == base + seq!['\\'] + part,
        base.len() == 0 || base.last() == '\\' || base.last() == '/' ==> joined(base, '\\', part)
            == base + part,
{
    assert(base.push('/') =~= base + seq!['/']);
    assert(base.push('\\') =~= base + seq!['\\']);
}

/// A digit that is appended to a number multiplies it by the base and adds the
/// digit's value; a plus sign before a number changes nothing; and a text with a
/// character that is no digit behind its first one is no number.
pub proof fn numbers_grow_by_digits(s: Seq<char>, c: char, base: nat)
    requires
        2 <= base <= 16,
        number_of(s, base) is Some,
    ensures
        digit_value(c) < base ==> number_of(s.push(c), base) == Some(
            number_of(s, base)->0 * base + digit_value(c),
        ),
        digit_value(c) >= base ==> number_of(s.push(c), base) is None,
        s[0] != '+' ==> number_of(seq!['+'] + s, base) == number_of(s, base),
        number_of(Seq::empty(), base) is None,
{
    let d = unsigned_part(s);
    assert(unsigned_part(s.push(c)) =~= d.push(c));
    assert(d.push(c).drop_last() =~= d);
    assert(d.push(c)[d.len() as int] == c);
    if digit_value(c) < base {
        assert(all_digits(d.push(c), base)) by {
            assert forall|i: int| 0 <= i < d.push(c).len() implies digit_value(
                #[trigger] d.push(c)[i],
            ) < base by {
                if i < d.len() {
                    assert(d.push(c)[i] == d[i]);
                }
            }
        }
    }
    assert((seq!['+'] + s).skip(1) =~= s);
}

/// A negative number is written as its magnitude with a minus sign before it, and any
/// other one as it is; the two are never written alike.
pub proof fn signed_numbers_have_their_sign(n: int)
    requires
        n >= 0,
    ensures
        signed_decimal(n) == decimal(n as nat),
        n > 0 ==> signed_decimal(-n) == seq!['-'] + decimal(n as nat),
        signed_decimal(n)[0] != '-',
        number_of(signed_decimal(n), 10) == Some(n as nat),
{
    decimals_are_digits(n as nat);
    assert('0' <= decimal(n as nat)[0] <= '9');
}

/// A text of 16-bit units is free of surrogates just where each of its units stands for
/// a character alone.
pub proof fn surrogates_stand_for_no_character(a: Seq<u16>, unit: u16)
    ensures
        has_no_surrogates(seq![unit]) <==> unit < 0xD800 || unit >= 0xE000,
        has_no_surrogates(a.push(unit)) <==> has_no_surrogates(a) && has_no_surrogates(seq![unit]),
        has_no_surrogates(Seq::empty()),
{
    let all = a.push(unit);
    let one = seq![unit];
    assert(one[0] == unit && all[a.len() as int] == unit);
    if has_no_surrogates(all) {
        assert forall|i: int| 0 <= i < a.len() implies !(0xD800 <= #[trigger] a[i] <= 0xDFFF) by {
            assert(all[i] == a[i]);
        }
    }
    if has_no_surrogates(a) && has_no_surrogates(one) {
        assert forall|i: int| 0 <= i < all.len() implies !(0xD800 <= #[trigger] all[i]
            <= 0xDFFF) by {
            if i < a.len() {
                assert(all[i] == a[i]);
            }
        }
    }
}

/// A number is taken up to the largest one that is asked for, and not beyond.
pub proof fn numbers_have_a_largest(n: nat, max: nat)
    ensures
        number_up_to(decimal(n), 10, max) == (if n <= max {
            Some(n)
        } else {
            None
        }),
        number_up_to(decimal(max), 10, max) == Some(max),
        number_up_to(decimal(max + 1), 10, max) is None,
{
    decimals_are_digits(n);
    decimals_are_digits(max);
    decimals_are_digits(max + 1);
}

} // verus!
