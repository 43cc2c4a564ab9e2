//! Text building blocks: numbers in decimal and hexadecimal, ASCII letter case, white space.
//!
//! Texts are sequences of characters in all specifications.

use vstd::prelude::*;

verus! {

/// `String::push` appends the character behind the last one.
pub assume_specification[ String::push ](s: &mut String, c: char)
    ensures
        final(s)@ == old(s)@.push(c),
;

/// `char::from_u32` gives the character of every code point that is a Unicode scalar value: up to
/// 0x10FFFF and not a surrogate. For any other number it gives nothing.
pub assume_specification[ char::from_u32 ](i: u32) -> (c: Option<char>)
    ensures
        scalar_value(i) ==> c == Some(i as char),
        !scalar_value(i) ==> c is None,
;

/// A code point that is a character of its own.
pub open spec fn scalar_value(i: u32) -> bool {
    i <= 0xd7ff || 0xe000 <= i <= 0x10_ffff
}

/// The digit character of `d`, lower case above nine.
pub open spec fn digit(d: int) -> char
    recommends
        0 <= d < 16,
{
    if d < 10 {
        (48 + d) as char
    } else {
        (87 + d) as char
    }
}

/// The digit character of `d`, upper case above nine.
pub open spec fn upper_digit(d: int) -> char
    recommends
        0 <= d < 16,
{
    if d < 10 {
        (48 + d) as char
    } else {
        (55 + d) as char
    }
}

/// `n` in decimal, without leading zeros.
pub open spec fn decimal(n: nat) -> Seq<char>
    decreases n,
{
    if n < 10 {
        seq![digit(n as int)]
    } else {
        decimal(n / 10).push(digit((n % 10) as int))
    }
}

/// `n` in decimal with a minus sign where it is negative.
pub open spec fn signed_decimal(n: int) -> Seq<char> {
    if n < 0 {
        seq!['-'] + decimal((-n) as nat)
    } else {
        decimal(n as nat)
    }
}

/// The last `width` decimal digits of `n`, with leading zeros.
pub open spec fn fixed_decimal(n: nat, width: nat) -> Seq<char>
    decreases width,
{
    if width == 0 {
        Seq::empty()
    } else {
        fixed_decimal(n / 10, (width - 1) as nat).push(digit((n % 10) as int))
    }
}

/// `n` in decimal with leading zeros up to `width` characters.
pub open spec fn padded_decimal(n: nat, width: nat) -> Seq<char> {
    if decimal(n).len() < width {
        fixed_decimal(n, width)
    } else {
        decimal(n)
    }
}

/// The last `width` hexadecimal digits of `n` in upper case, with leading zeros.
pub open spec fn fixed_hex(n: nat, width: nat) -> Seq<char>
    decreases width,
{
    if width == 0 {
        Seq::empty()
    } else {
        fixed_hex(n / 16, (width - 1) as nat).push(upper_digit((n % 16) as int))
    }
}

/// `n` in lower case hexadecimal, without leading zeros.
pub open spec fn hex(n: nat) -> Seq<char>
    decreases n,
{
    if n < 16 {
        seq![digit(n as int)]
    } else {
        hex(n / 16).push(digit((n % 16) as int))
    }
}

fn digit_char(d: u8) -> (c: char)
    requires
        d < 16,
    ensures
        c == digit(d as int),
{
    if d < 10 {
        (48 + d) as char
    } else {
        (87 + d) as char
    }
}

fn upper_digit_char(d: u8) -> (c: char)
    requires
        d < 16,
    ensures
        c == upper_digit(d as int),
{
    if d < 10 {
        (48 + d) as char
    } else {
        (55 + d) as char
    }
}

/// Appends `n` in decimal.
pub fn push_decimal(out: &mut String, n: u64)
    ensures
        final(out)@ == old(out)@ + decimal(n as nat),
    decreases n,
{
    if n >= 10 {
        push_decimal(out, n / 10);
    }
    out.push(digit_char((n % 10) as u8));
    assert(out@ == old(out)@ + decimal(n as nat));
}

/// Appends a wide `n` in decimal.
pub fn push_wide_decimal(out: &mut String, n: u128)
    ensures
        final(out)@ == old(out)@ + decimal(n as nat),
    decreases n,
{
    if n >= 10 {
        push_wide_decimal(out, n / 10);
    }
    out.push(digit_char((n % 10) as u8));
    assert(out@ == old(out)@ + decimal(n as nat));
}

/// Appends `n` in decimal, with a minus sign where it is negative.
pub fn push_signed(out: &mut String, n: i64)
    ensures
        final(out)@ == old(out)@ + signed_decimal(n as int),
{
    if n < 0 {
        out.push('-');
        let magnitude: u64 = if n == i64::MIN {
            0x8000_0000_0000_0000
        } else {
            (-n) as u64
        };
        push_decimal(out, magnitude);
        assert(out@ == old(out)@ + signed_decimal(n as int));
    } else {
        push_decimal(out, n as u64);
    }
}

/// Appends the last `width` decimal digits of `n`.
pub fn push_fixed_decimal(out: &mut String, n: u64, width: u8)
    ensures
        final(out)@ == old(out)@ + fixed_decimal(n as nat, width as nat),
    decreases width,
{
    if width > 0 {
        push_fixed_decimal(out, n / 10, width - 1);
        out.push(digit_char((n % 10) as u8));
    }
    assert(out@ == old(out)@ + fixed_decimal(n as nat, width as nat));
}

fn decimal_width(n: u64) -> (w: u64)
    ensures
        w == decimal(n as nat).len(),
        w <= n / 10 + 1,
    decreases n,
{
    if n < 10 {
        1
    } else {
        1 + decimal_width(n / 10)
    }
}

/// Appends `n` in decimal with leading zeros up to `width` characters.
pub fn push_padded(out: &mut String, n: u64, width: u8)
    ensures
        final(out)@ == old(out)@ + padded_decimal(n as nat, width as nat),
{
    if decimal_width(n) < width as u64 {
        push_fixed_decimal(out, n, width);
    } else {
        push_decimal(out, n);
    }
}

/// Appends the last `width` hexadecimal digits of `n` in upper case.
pub fn push_fixed_hex(out: &mut String, n: u64, width: u8)
    ensures
        final(out)@ == old(out)@ + fixed_hex(n as nat, width as nat),
    decreases width,
{
    if width > 0 {
        push_fixed_hex(out, n / 16, width - 1);
        out.push(upper_digit_char((n % 16) as u8));
    }
    assert(out@ == old(out)@ + fixed_hex(n as nat, width as nat));
}

/// Appends `n` in lower case hexadecimal.
pub fn push_hex(out: &mut String, n: u64)
    ensures
        final(out)@ == old(out)@ + hex(n as nat),
    decreases n,
{
    if n >= 16 {
        push_hex(out, n / 16);
    }
    out.push(digit_char((n % 16) as u8));
    assert(out@ == old(out)@ + hex(n as nat));
}

/// The characters of a text.
pub fn chars_of(s: &str) -> (r: Vec<char>)
    ensures
        r@ == s@,
{
    let mut r: Vec<char> = Vec::new();
    for c in it: s.chars()
        invariant
            r@ == it.seq().take(it.index()),
            it.seq() == s@,
    {
        r.push(c);
        assert(r@ == it.seq().take(it.index() + 1));
    }
    assert(r@ == s@);
    r
}

/// The characters `from..to` as a text.
pub fn text_of(chars: &Vec<char>, from: usize, to: usize) -> (s: String)
    requires
        from <= to <= chars.len(),
    ensures
        s@ == chars@.subrange(from as int, to as int),
{
    let mut s: String = String::new();
    let mut i: usize = from;
    while i < to
        invariant
            from <= i <= to <= chars.len(),
            s@ == chars@.subrange(from as int, i as int),
        decreases to - i,
    {
        s.push(chars[i]);
        i = i + 1;
        assert(s@ == chars@.subrange(from as int, i as int));
    }
    s
}

/// Two texts hold the same characters.
pub fn same_text(a: &str, b: &str) -> (r: bool)
    ensures
        r == (a@ == b@),
{
    let left: String = a.to_owned();
    let right: String = b.to_owned();
    left == right
}

/// Unicode white space.
pub open spec fn is_space(c: char) -> bool {
    let u = c as u32;
    ||| 0x09 <= u <= 0x0d
    ||| u == 0x20
    ||| u == 0x85
    ||| u == 0xa0
    ||| u == 0x1680
    ||| 0x2000 <= u <= 0x200a
    ||| u == 0x2028
    ||| u == 0x2029
    ||| u == 0x202f
    ||| u == 0x205f
    ||| u == 0x3000
}

fn space(c: char) -> (r: bool)
    ensures
        r == is_space(c),
{
    let u: u32 = c as u32;
    (0x09 <= u && u <= 0x0d) || u == 0x20 || u == 0x85 || u == 0xa0 || u == 0x1680 || (0x2000 <= u
        && u <= 0x200a) || u == 0x2028 || u == 0x2029 || u == 0x202f || u == 0x205f || u == 0x3000
}

/// `s` without leading white space.
pub open spec fn trim_start(s: Seq<char>) -> Seq<char>
    decreases s.len(),
{
    if s.len() > 0 && is_space(s[0]) {
        trim_start(s.drop_first())
    } else {
        s
    }
}

/// `s` without trailing white space.
pub open spec fn trim_end(s: Seq<char>) -> Seq<char>
    decreases s.len(),
{
    if s.len() > 0 && is_space(s.last()) {
        trim_end(s.drop_last())
    } else {
        s
    }
}

/// `s` without white space at either end.
pub open spec fn trimmed(s: Seq<char>) -> Seq<char> {
    trim_end(trim_start(s))
}

/// Removes white space at both ends.
pub fn trim(s: &str) -> (r: String)
    ensures
        r@ == trimmed(s@),
{
    let chars: Vec<char> = chars_of(s);
    let mut from: usize = 0;
    assert(chars@.skip(0) == s@);
    while from < chars.len() && space(chars[from])
        invariant
            from <= chars.len(),
            trim_start(s@) == trim_start(chars@.skip(from as int)),
        decreases chars.len() - from,
    {
        assert(chars@.skip(from as int).drop_first() == chars@.skip(from as int + 1));
        from = from + 1;
    }
    assert(trim_start(s@) == chars@.skip(from as int));
    assert(chars@.skip(from as int) == chars@.subrange(from as int, chars@.len() as int));
    let mut to: usize = chars.len();
    while to > from && space(chars[to - 1])
        invariant
            from <= to <= chars.len(),
            trimmed(s@) == trim_end(chars@.subrange(from as int, to as int)),
        decreases to,
    {
        assert(chars@.subrange(from as int, to as int).drop_last() == chars@.subrange(
            from as int,
            to - 1,
        ));
        to = to - 1;
    }
    text_of(&chars, from, to)
}

/// No white space at either end.
pub open spec fn solid(s: Seq<char>) -> bool {
    s.len() > 0 ==> !is_space(s[0]) && !is_space(s.last())
}

/// A text without white space at its ends is left alone.
pub proof fn lemma_trim_of_solid(s: Seq<char>)
    requires
        solid(s),
    ensures
        trimmed(s) == s,
{
}

proof fn lemma_trim_end_keeps_the_start(s: Seq<char>)
    ensures
        trim_end(s).len() <= s.len(),
        trim_end(s) == s.take(trim_end(s).len() as int),
        trim_end(s).len() > 0 ==> !is_space(trim_end(s).last()),
    decreases s.len(),
{
    if s.len() > 0 && is_space(s.last()) {
        lemma_trim_end_keeps_the_start(s.drop_last());
        let n = trim_end(s).len() as int;
        assert(s.drop_last().take(n) =~= s.take(n));
    } else {
        assert(s.take(s.len() as int) =~= s);
    }
}

proof fn lemma_trim_start_begins_solid(s: Seq<char>)
    ensures
        trim_start(s).len() > 0 ==> !is_space(trim_start(s)[0]),
    decreases s.len(),
{
    if s.len() > 0 && is_space(s[0]) {
        lemma_trim_start_begins_solid(s.drop_first());
    }
}

/// Removing white space twice is removing it once.
pub proof fn lemma_trimmed_is_idempotent(s: Seq<char>)
    ensures
        trimmed(trimmed(s)) == trimmed(s),
{
    lemma_trim_start_begins_solid(s);
    lemma_trim_end_keeps_the_start(trim_start(s));
    lemma_trim_of_solid(trimmed(s));
}

/// The lower case form of an ASCII letter; any other character itself.
pub open spec fn lower_char(c: char) -> char {
    if 'A' <= c && c <= 'Z' {
        (c as u32 + 32) as char
    } else {
        c
    }
}

/// The upper case form of an ASCII letter; any other character itself.
pub open spec fn upper_char(c: char) -> char {
    if 'a' <= c && c <= 'z' {
        (c as u32 - 32) as char
    } else {
        c
    }
}

/// `s` with ASCII letters in lower case.
pub open spec fn lower(s: Seq<char>) -> Seq<char> {
    s.map_values(|c: char| lower_char(c))
}

/// `s` with ASCII letters in upper case.
pub open spec fn upper(s: Seq<char>) -> Seq<char> {
    s.map_values(|c: char| upper_char(c))
}

/// ASCII letters to lower case.
pub fn to_lower(s: &str) -> (r: String)
    ensures
        r@ == lower(s@),
{
    let chars: Vec<char> = chars_of(s);
    let mut r: String = String::new();
    let mut i: usize = 0;
    while i < chars.len()
        invariant
            i <= chars.len(),
            r@ == lower(chars@).take(i as int),
        decreases chars.len() - i,
    {
        let c: char = chars[i];
        let l: char = if 'A' <= c && c <= 'Z' {
            (c as u8 + 32) as char
        } else {
            c
        };
        r.push(l);
        i = i + 1;
        assert(r@ == lower(chars@).take(i as int));
    }
    assert(r@ == lower(s@));
    r
}

/// ASCII letters to upper case.
pub fn to_upper(s: &str) -> (r: String)
    ensures
        r@ == upper(s@),
{
    let chars: Vec<char> = chars_of(s);
    let mut r: String = String::new();
    let mut i: usize = 0;
    while i < chars.len()
        invariant
            i <= chars.len(),
            r@ == upper(chars@).take(i as int),
        decreases chars.len() - i,
    {
        let c: char = chars[i];
        let u: char = if 'a' <= c && c <= 'z' {
            (c as u8 - 32) as char
        } else {
            c
        };
        r.push(u);
        i = i + 1;
        assert(r@ == upper(chars@).take(i as int));
    }
    assert(r@ == upper(s@));
    r
}

/// Takes the place of what is not valid UTF-16.
pub open spec fn replacement() -> char {
    0xfffd_u32 as char
}

pub open spec fn high_surrogate(u: u16) -> bool {
    0xd800 <= u <= 0xdbff
}

pub open spec fn low_surrogate(u: u16) -> bool {
    0xdc00 <= u <= 0xdfff
}

/// The text of a UTF-16 sequence. A surrogate without its partner becomes the replacement
/// character.
pub open spec fn utf16_text(units: Seq<u16>) -> Seq<char>
    decreases units.len(),
{
    if units.len() == 0 {
        Seq::empty()
    } else if high_surrogate(units[0]) && units.len() > 1 && low_surrogate(units[1]) {
        seq![
            (0x1_0000 + (units[0] - 0xd800) * 0x400 + (units[1] - 0xdc00)) as char,
        ] + utf16_text(units.skip(2))
    } else if high_surrogate(units[0]) || low_surrogate(units[0]) {
        seq![replacement()] + utf16_text(units.skip(1))
    } else {
        seq![units[0] as char] + utf16_text(units.skip(1))
    }
}

/// Decodes UTF-16, replacing what is not valid.
pub fn decode_utf16(units: &[u16]) -> (s: String)
    ensures
        s@ == utf16_text(units@),
{
    let mut s: String = String::new();
    let mut i: usize = 0;
    assert(units@.skip(0) == units@);
    while i < units.len()
        invariant
            i <= units.len(),
            s@ + utf16_text(units@.skip(i as int)) == utf16_text(units@),
        decreases units.len() - i,
    {
        let ghost rest = units@.skip(i as int);
        let ghost before = s@;
        let u: u16 = units[i];
        assert(rest.skip(1) == units@.skip(i + 1));
        if 0xd800 <= u && u <= 0xdbff && i + 1 < units.len() && 0xdc00 <= units[i + 1] && units[i
            + 1] <= 0xdfff {
            let v: u16 = units[i + 1];
            let code: u32 = 0x1_0000 + (u as u32 - 0xd800) * 0x400 + (v as u32 - 0xdc00);
            if let Some(c) = char::from_u32(code) {
                s.push(c);
            }
            assert(rest.skip(2) == units@.skip(i + 2));
            assert(s@ + utf16_text(rest.skip(2)) == before + utf16_text(rest));
            i = i + 2;
        } else {
            if 0xd800 <= u && u <= 0xdfff {
                if let Some(c) = char::from_u32(0xfffd) {
                    s.push(c);
                }
            } else {
                if let Some(c) = char::from_u32(u as u32) {
                    s.push(c);
                }
            }
            assert(s@ + utf16_text(rest.skip(1)) == before + utf16_text(rest));
            i = i + 1;
        }
    }
    assert(units@.skip(i as int) == Seq::<u16>::empty());
    s
}

/// The units up to the first zero, or all of them.
pub open spec fn up_to_zero(units: Seq<u16>) -> Seq<u16>
    decreases units.len(),
{
    if units.len() == 0 || units[0] == 0 {
        Seq::empty()
    } else {
        seq![units[0]] + up_to_zero(units.skip(1))
    }
}

/// Decodes a buffer that may end with a zero.
pub fn wide_to_string(buf: &[u16]) -> (s: String)
    ensures
        s@ == utf16_text(up_to_zero(buf@)),
{
    let mut len: usize = 0;
    assert(buf@.skip(0) == buf@);
    assert(buf@.take(0) + up_to_zero(buf@) == up_to_zero(buf@));
    while len < buf.len() && buf[len] != 0
        invariant
            len <= buf.len(),
            buf@.take(len as int) + up_to_zero(buf@.skip(len as int)) == up_to_zero(buf@),
        decreases buf.len() - len,
    {
        assert(buf@.skip(len as int).skip(1) == buf@.skip(len + 1));
        assert(buf@.take(len + 1) == buf@.take(len as int) + seq![buf@[len as int]]);
        assert(buf@.take(len + 1) + up_to_zero(buf@.skip(len + 1)) == buf@.take(len as int) + (
        seq![buf@[len as int]] + up_to_zero(buf@.skip(len + 1))));
        len = len + 1;
    }
    assert(up_to_zero(buf@.skip(len as int)) == Seq::<u16>::empty());
    assert(buf@.take(len as int) == up_to_zero(buf@));
    decode_utf16(vstd::slice::slice_subrange(buf, 0, len))
}

/// The value of a digit.
pub open spec fn digit_value(c: char) -> Option<nat> {
    if '0' <= c && c <= '9' {
        Some((c as u32 - 48) as nat)
    } else {
        None
    }
}

/// The number that a run of digits stands for; nothing where a character is no digit.
pub open spec fn digits_value(s: Seq<char>) -> Option<nat>
    decreases s.len(),
{
    if s.len() == 0 {
        Some(0)
    } else {
        match (digits_value(s.drop_last()), digit_value(s.last())) {
            (Some(head), Some(d)) => Some(head * 10 + d),
            _ => None,
        }
    }
}

/// `s` without a leading plus sign.
pub open spec fn without_plus(s: Seq<char>) -> Seq<char> {
    if s.len() > 0 && s[0] == '+' {
        s.skip(1)
    } else {
        s
    }
}

/// The number that a text stands for: digits, at least one, with an optional plus sign, up to
/// `max`.
pub open spec fn parsed_number(s: Seq<char>, max: nat) -> Option<nat> {
    if without_plus(s).len() == 0 {
        None
    } else {
        match digits_value(without_plus(s)) {
            Some(n) if n <= max => Some(n),
            _ => None,
        }
    }
}

proof fn lemma_prefix_bounds_the_value(s: Seq<char>, k: int)
    requires
        0 <= k <= s.len(),
        digits_value(s) is Some,
    ensures
        digits_value(s.take(k)) is Some,
        digits_value(s.take(k))->0 <= digits_value(s)->0,
    decreases s.len() - k,
{
    if k < s.len() {
        lemma_prefix_bounds_the_value(s, k + 1);
        assert(s.take(k + 1).drop_last() == s.take(k));
    } else {
        assert(s.take(k) == s);
    }
}

/// Reads an unsigned number.
pub fn parse_number(s: &str) -> (r: Option<u64>)
    ensures
        match r {
            Some(n) => parsed_number(s@, u64::MAX as nat) == Some(n as nat),
            None => parsed_number(s@, u64::MAX as nat) is None,
        },
{
    let chars: Vec<char> = chars_of(s);
    let from: usize = if chars.len() > 0 && chars[0] == '+' {
        1
    } else {
        0
    };
    let ghost body = without_plus(s@);
    assert(body == chars@.skip(from as int));
    if from == chars.len() {
        return None;
    }
    let mut n: u64 = 0;
    let mut i: usize = from;
    assert(body.take(0) == Seq::<char>::empty());
    while i < chars.len()
        invariant
            from <= i <= chars.len(),
            body == chars@.skip(from as int),
            body == without_plus(s@),
            body.len() > 0,
            digits_value(body.take(i - from)) == Some(n as nat),
        decreases chars.len() - i,
    {
        let c: char = chars[i];
        proof {
            assert(body.take(i - from + 1).drop_last() == body.take(i - from));
            assert(body.take(i - from + 1).last() == c);
            if digits_value(body) is Some {
                lemma_prefix_bounds_the_value(body, i - from + 1);
            }
        }
        if !('0' <= c && c <= '9') {
            return None;
        }
        let d: u64 = (c as u32 - 48) as u64;
        match n.checked_mul(10) {
            None => {
                return None;
            },
            Some(tens) => match tens.checked_add(d) {
                None => {
                    return None;
                },
                Some(next) => {
                    n = next;
                },
            },
        }
        i = i + 1;
    }
    assert(body.take(i - from) == body);
    Some(n)
}

/// A number is written with its last digit last, and what stands before it is the number without
/// that digit.
pub proof fn law_last_digit_comes_last(n: nat)
    ensures
        decimal(n).len() >= 1,
        decimal(n).last() as u32 == 48 + n % 10,
        n < 10 ==> decimal(n).len() == 1,
        n >= 10 ==> decimal(n).drop_last() == decimal(n / 10),
        hex(n).len() >= 1,
        n % 16 < 10 ==> hex(n).last() as u32 == 48 + n % 16,
        n % 16 >= 10 ==> hex(n).last() as u32 == 87 + n % 16,
        n < 16 ==> hex(n).len() == 1,
        n >= 16 ==> hex(n).drop_last() == hex(n / 16),
{
    if n >= 10 {
        assert(decimal(n).drop_last() =~= decimal(n / 10));
    }
    if n >= 16 {
        assert(hex(n).drop_last() =~= hex(n / 16));
    }
}

/// A fixed width is kept: as many characters as asked for, the last digit last.
pub proof fn law_fixed_width_is_kept(n: nat, width: nat)
    ensures
        fixed_decimal(n, width).len() == width,
        fixed_hex(n, width).len() == width,
        width > 0 ==> {
            &&& fixed_decimal(n, width).last() as u32 == 48 + n % 10
            &&& fixed_decimal(n, width).drop_last() == fixed_decimal(n / 10, (width - 1) as nat)
            &&& n % 16 < 10 ==> fixed_hex(n, width).last() as u32 == 48 + n % 16
            &&& n % 16 >= 10 ==> fixed_hex(n, width).last() as u32 == 55 + n % 16
            &&& fixed_hex(n, width).drop_last() == fixed_hex(n / 16, (width - 1) as nat)
        },
        padded_decimal(n, width).len() >= width,
        padded_decimal(n, width).len() == width || padded_decimal(n, width) == decimal(n),
    decreases width,
{
    if width > 0 {
        law_fixed_width_is_kept(n / 10, (width - 1) as nat);
        law_fixed_width_is_kept(n / 16, (width - 1) as nat);
        assert(fixed_decimal(n, width).drop_last() =~= fixed_decimal(n / 10, (width - 1) as nat));
        assert(fixed_hex(n, width).drop_last() =~= fixed_hex(n / 16, (width - 1) as nat));
    }
}

/// A negative number is written with a minus sign before its absolute value.
pub proof fn law_negative_numbers_have_a_sign(n: int)
    ensures
        n >= 0 ==> signed_decimal(n) == decimal(n as nat),
        n < 0 ==> {
            &&& signed_decimal(n)[0] == '-'
            &&& signed_decimal(n).skip(1) == decimal((-n) as nat)
        },
{
    if n < 0 {
        assert(signed_decimal(n).skip(1) =~= decimal((-n) as nat));
    }
}

/// What was written in decimal reads back as the number.
pub proof fn law_decimal_reads_back(n: nat)
    ensures
        digits_value(decimal(n)) == Some(n),
        decimal(n)[0] != '+',
        decimal(n).len() > 0,
        forall|max: nat| n <= max ==> #[trigger] parsed_number(decimal(n), max) == Some(n),
        forall|max: nat| n > max ==> #[trigger] parsed_number(decimal(n), max) is None,
    decreases n,
{
    if n >= 10 {
        law_decimal_reads_back(n / 10);
        assert(decimal(n).drop_last() =~= decimal(n / 10));
        assert(decimal(n)[0] == decimal(n / 10)[0]);
    } else {
        assert(decimal(n).drop_last() =~= Seq::<char>::empty());
        assert(digits_value(Seq::<char>::empty()) == Some(0nat));
    }
}

/// A text is a number where it has a digit and nothing else, a plus sign in front aside.
pub proof fn law_only_digits_are_numbers(s: Seq<char>, max: nat, i: int)
    ensures
        s.len() == 0 ==> parsed_number(s, max) is None,
        0 <= i < s.len() && !('0' <= s[i] && s[i] <= '9') && !(i == 0 && s[i] == '+')
            ==> parsed_number(s, max) is None,
        s.len() > 0 && s[0] != '+' ==> parsed_number(seq!['+'] + s, max) == parsed_number(s, max),
        parsed_number(seq!['+'], max) is None,
        parsed_number(s, max) matches Some(n) ==> n <= max,
{
    if 0 <= i < s.len() && !('0' <= s[i] && s[i] <= '9') && !(i == 0 && s[i] == '+') {
        if s[0] == '+' {
            lemma_no_digit_no_value(s.skip(1), i - 1);
        } else {
            lemma_no_digit_no_value(s, i);
        }
    }
    assert((seq!['+'] + s).skip(1) =~= s);
    assert(seq!['+'].skip(1) =~= Seq::<char>::empty());
}

proof fn lemma_no_digit_no_value(s: Seq<char>, i: int)
    requires
        0 <= i < s.len(),
        digit_value(s[i]) is None,
    ensures
        digits_value(s) is None,
    decreases s.len(),
{
    if i < s.len() - 1 {
        lemma_no_digit_no_value(s.drop_last(), i);
    }
}

/// Trimming takes white space from the ends and nothing else: what is left is a part of the text,
/// everything before and behind it is white space, and it neither starts nor ends with any.
pub proof fn law_trimming_takes_the_ends(s: Seq<char>)
    ensures
        exists|a: int, b: int| #[trigger] is_trimmed_part(s, a, b),
        trimmed(s).len() > 0 ==> !is_space(trimmed(s)[0]) && !is_space(trimmed(s).last()),
{
    let a = lemma_trim_start_part(s);
    let t = trim_start(s);
    let n = lemma_trim_end_part(t);
    assert(trimmed(s) =~= s.subrange(a, a + n));
    assert forall|i: int| a + n <= i < s.len() implies is_space(#[trigger] s[i]) by {
        assert(t[i - a] == s[i]);
    }
    assert(is_trimmed_part(s, a, a + n));
    lemma_trim_end_keeps_the_start(t);
    lemma_trim_start_begins_solid(s);
}

/// What trimming leaves is the part from `a` to `b`, with white space around it.
pub open spec fn is_trimmed_part(s: Seq<char>, a: int, b: int) -> bool {
    &&& 0 <= a <= b <= s.len()
    &&& trimmed(s) == s.subrange(a, b)
    &&& forall|i: int| 0 <= i < a ==> is_space(#[trigger] s[i])
    &&& forall|i: int| b <= i < s.len() ==> is_space(#[trigger] s[i])
}

proof fn lemma_trim_start_part(s: Seq<char>) -> (a: int)
    ensures
        0 <= a <= s.len(),
        trim_start(s) == s.subrange(a, s.len() as int),
        forall|i: int| 0 <= i < a ==> is_space(#[trigger] s[i]),
    decreases s.len(),
{
    if s.len() > 0 && is_space(s[0]) {
        let rest = s.drop_first();
        let a = lemma_trim_start_part(rest);
        assert(rest.subrange(a, rest.len() as int) =~= s.subrange(a + 1, s.len() as int));
        assert forall|i: int| 0 <= i < a + 1 implies is_space(#[trigger] s[i]) by {
            if i > 0 {
                assert(rest[i - 1] == s[i]);
            }
        }
        a + 1
    } else {
        assert(s.subrange(0, s.len() as int) =~= s);
        0
    }
}

proof fn lemma_trim_end_part(s: Seq<char>) -> (n: int)
    ensures
        0 <= n <= s.len(),
        trim_end(s) == s.subrange(0, n),
        forall|i: int| n <= i < s.len() ==> is_space(#[trigger] s[i]),
        n > 0 ==> !is_space(s[n - 1]),
    decreases s.len(),
{
    if s.len() > 0 && is_space(s.last()) {
        let rest = s.drop_last();
        let n = lemma_trim_end_part(rest);
        assert(rest.subrange(0, n) =~= s.subrange(0, n));
        assert forall|i: int| n <= i < s.len() implies is_space(#[trigger] s[i]) by {
            if i < rest.len() {
                assert(rest[i] == s[i]);
            }
        }
        n
    } else {
        assert(s.subrange(0, s.len() as int) =~= s);
        s.len() as int
    }
}

/// Changing the case touches ASCII letters only, each at its place.
pub proof fn law_case_touches_letters_only(s: Seq<char>, i: int)
    requires
        0 <= i < s.len(),
    ensures
        lower(s).len() == s.len() && upper(s).len() == s.len(),
        'A' <= s[i] && s[i] <= 'Z' ==> lower(s)[i] as u32 == s[i] as u32 + 32,
        !('A' <= s[i] && s[i] <= 'Z') ==> lower(s)[i] == s[i],
        'a' <= s[i] && s[i] <= 'z' ==> upper(s)[i] as u32 == s[i] as u32 - 32,
        !('a' <= s[i] && s[i] <= 'z') ==> upper(s)[i] == s[i],
{
}

/// A unit that is no surrogate is its own character, a pair is one character beyond them, and one
/// half of a pair is replaced; what follows is read as if it stood alone.
pub proof fn law_pairs_are_one_character(units: Seq<u16>)
    requires
        units.len() > 0,
    ensures
        !(0xd800 <= units[0] <= 0xdfff) ==> {
            &&& utf16_text(units)[0] as u32 == units[0]
            &&& utf16_text(units).skip(1) == utf16_text(units.skip(1))
        },
        units.len() > 1 && 0xd800 <= units[0] <= 0xdbff && 0xdc00 <= units[1] <= 0xdfff ==> {
            &&& utf16_text(units)[0] as u32 == 0x1_0000 + (units[0] - 0xd800) * 1024 + (units[1]
                - 0xdc00)
            &&& utf16_text(units).skip(1) == utf16_text(units.skip(2))
        },
        0xdc00 <= units[0] <= 0xdfff || (0xd800 <= units[0] <= 0xdbff && (units.len() == 1 || !(
        0xdc00 <= units[1] <= 0xdfff))) ==> {
            &&& utf16_text(units)[0] as u32 == 0xfffd
            &&& utf16_text(units).skip(1) == utf16_text(units.skip(1))
        },
{
    if high_surrogate(units[0]) && units.len() > 1 && low_surrogate(units[1]) {
        assert(utf16_text(units).skip(1) =~= utf16_text(units.skip(2)));
    } else {
        assert(utf16_text(units).skip(1) =~= utf16_text(units.skip(1)));
    }
}

/// A buffer is read up to its first zero: what is read is its start, holds no zero, and ends with
/// the buffer or before a zero.
pub proof fn law_buffers_end_at_the_first_zero(units: Seq<u16>)
    ensures
        ({
            let n = up_to_zero(units).len();
            &&& n <= units.len()
            &&& up_to_zero(units) == units.take(n as int)
            &&& forall|i: int| 0 <= i < n ==> units[i] != 0
            &&& n < units.len() ==> units[n as int] == 0
        }),
    decreases units.len(),
{
    if units.len() > 0 && units[0] != 0 {
        let rest = units.skip(1);
        law_buffers_end_at_the_first_zero(rest);
        let n = up_to_zero(rest).len();
        assert(up_to_zero(units) =~= units.take(n as int + 1));
        assert forall|i: int| 0 <= i < n + 1 implies units[i] != 0 by {
            if i > 0 {
                assert(rest[i - 1] == units[i]);
            }
        }
    } else {
        assert(units.take(0) =~= Seq::<u16>::empty());
    }
}

/// Of the ASCII characters the blank and the five controls around the line feed are white space,
/// and no letter of any script beyond the ideographic blank is.
pub proof fn law_blanks_and_line_ends_are_white_space(c: char)
    ensures
        (c as u32) < 0x80 ==> (is_space(c) <==> c as u32 == 32 || 9 <= c as u32 <= 13),
        c as u32 > 0x3000 ==> !is_space(c),
        c as u32 == 0x3000 || c as u32 == 0xa0 ==> is_space(c),
{
}

} // verus!
