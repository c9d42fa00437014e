//! The wire grammar: delimiters, white space, and the two token patterns
//! that carry data.

use crate::hex::all_hex;
use vstd::prelude::*;

verus! {

/// Ends the callsign.
pub const CALLSIGN_DELIMITER: char = '>';

/// The two characters that end the header: a colon, then a slash.
pub const HEADER_END: char = ':';

pub const BODY_START: char = '/';

/// The length of the pattern of a position token.
pub const GPS_TOKEN_LENGTH: usize = 42;

/// The length of the pattern of a beacon identifier: `id` and eight digits.
pub const BEACON_LENGTH: usize = 10;

/// White space as Unicode defines it: what separates the tokens of a body.
pub open spec fn is_whitespace(c: char) -> bool {
    let code = c as u32;
    ||| 0x09 <= code <= 0x0D
    ||| code == 0x20
    ||| code == 0x85
    ||| code == 0xA0
    ||| code == 0x1680
    ||| 0x2000 <= code <= 0x200A
    ||| code == 0x2028
    ||| code == 0x2029
    ||| code == 0x202F
    ||| code == 0x205F
    ||| code == 0x3000
}

/// Tells whether `c` is white space.
pub fn whitespace(c: char) -> (blank: bool)
    ensures
        blank == is_whitespace(c),
{
    let code = c as u32;
    (0x09 <= code && code <= 0x0D) || code == 0x20 || code == 0x85 || code == 0xA0 || code
        == 0x1680 || (0x2000 <= code && code <= 0x200A) || code == 0x2028 || code == 0x2029
        || code == 0x202F || code == 0x205F || code == 0x3000
}

/// Whether `c` is one of `0` to `9`.
pub open spec fn is_digit(c: char) -> bool {
    '0' <= c && c <= '9'
}

/// Whether every character of `s` is a decimal digit.
pub open spec fn all_digits(s: Seq<char>) -> bool {
    forall|i: int| 0 <= i < s.len() ==> is_digit(#[trigger] s[i])
}

/// The number that `s` denotes when read as decimal digits.
pub open spec fn decimal_value(s: Seq<char>) -> nat
    decreases s.len(),
{
    if s.len() == 0 {
        0
    } else {
        decimal_value(s.drop_last()) * 10 + (s.last() as nat - '0' as nat) as nat
    }
}

/// 10 to the power `n`.
pub open spec fn pow10(n: nat) -> nat
    decreases n,
{
    if n == 0 {
        1
    } else {
        10 * pow10((n - 1) as nat)
    }
}

/// A run of `n` decimal digits denotes a number below 10 to the `n`.
pub proof fn lemma_decimal_value_bound(s: Seq<char>)
    requires
        all_digits(s),
    ensures
        decimal_value(s) < pow10(s.len()),
    decreases s.len(),
{
    if s.len() > 0 {
        assert(is_digit(s.last()));
        assert forall|i: int| 0 <= i < s.drop_last().len() implies is_digit(
            #[trigger] s.drop_last()[i],
        ) by {
            assert(s.drop_last()[i] == s[i]);
        }
        lemma_decimal_value_bound(s.drop_last());
    }
}

/// Reads the characters `chars[from..to]` as a decimal number of at most nine
/// digits.
pub fn parse_decimal(chars: &Vec<char>, from: usize, to: usize) -> (value: Option<u32>)
    requires
        from <= to <= chars.len(),
        to - from <= 9,
    ensures
        value is Some <==> all_digits(chars@.subrange(from as int, to as int)),
        value matches Some(v) ==> v == decimal_value(chars@.subrange(from as int, to as int)),
        value matches Some(v) ==> v < pow10((to - from) as nat),
{
    let ghost field = chars@.subrange(from as int, to as int);
    let mut value: u32 = 0;
    let mut at: usize = from;
    while at < to
        invariant
            from <= at <= to <= chars.len(),
            to - from <= 9,
            field == chars@.subrange(from as int, to as int),
            all_digits(field.take(at - from)),
            value == decimal_value(field.take(at - from)),
        decreases to - at,
    {
        let ghost read = field.take(at - from);
        let ghost next = field.take(at - from + 1);
        assert(next.drop_last() == read);
        assert(next.last() == chars@[at as int]);
        let c = chars[at];
        if '0' <= c && c <= '9' {
            proof {
                lemma_decimal_value_bound(read);
                lemma_pow10_monotonic(read.len(), 8);
                assert(pow10(8) == 100_000_000) by {
                    reveal_with_fuel(pow10, 9);
                }
                assert forall|i: int| 0 <= i < next.len() implies is_digit(#[trigger] next[i]) by {
                    if i < read.len() {
                        assert(next[i] == read[i]);
                    }
                }
            }
            value = value * 10 + (c as u32 - '0' as u32);
            at += 1;
        } else {
            proof {
                assert(field[at - from] == chars@[at as int]);
            }
            return None;
        }
    }
    proof {
        assert(field.take(to - from) == field);
        lemma_decimal_value_bound(field);
    }
    Some(value)
}

/// `pow10` grows with its argument.
pub proof fn lemma_pow10_monotonic(a: nat, b: nat)
    requires
        a <= b,
    ensures
        pow10(a) <= pow10(b),
        pow10(a) > 0,
    decreases b,
{
    if a < b {
        lemma_pow10_monotonic(a, (b - 1) as nat);
    } else if a > 0 {
        lemma_pow10_monotonic((a - 1) as nat, (a - 1) as nat);
    }
}

/// The first place at or after `at` where `s` holds `c`; the length of `s`
/// where there is none.
pub open spec fn position_of(s: Seq<char>, c: char, at: int) -> int
    decreases s.len() - at,
{
    if 0 <= at < s.len() && s[at] != c {
        position_of(s, c, at + 1)
    } else {
        at
    }
}

/// The first place at or after `at` where `s` holds `a` followed directly by
/// `b`; the length of `s` where there is none.
pub open spec fn position_of_pair(s: Seq<char>, a: char, b: char, at: int) -> int
    decreases s.len() - at,
{
    if 0 <= at < s.len() && !(s[at] == a && at + 1 < s.len() && s[at + 1] == b) {
        position_of_pair(s, a, b, at + 1)
    } else {
        at
    }
}

/// Finds the first `c` in `chars`.
pub fn find(chars: &Vec<char>, c: char) -> (at: usize)
    ensures
        at == position_of(chars@, c, 0),
        at <= chars.len(),
        at < chars.len() ==> chars[at as int] == c,
{
    let mut at: usize = 0;
    while at < chars.len() && chars[at] != c
        invariant
            at <= chars.len(),
            position_of(chars@, c, 0) == position_of(chars@, c, at as int),
        decreases chars.len() - at,
    {
        at += 1;
    }
    at
}

/// Finds the first `a` in `chars` that `b` follows directly.
pub fn find_pair(chars: &Vec<char>, a: char, b: char) -> (at: usize)
    ensures
        at == position_of_pair(chars@, a, b, 0),
        at <= chars.len(),
        at < chars.len() ==> at + 1 < chars.len() && chars[at as int] == a && chars[at + 1] == b,
{
    let mut at: usize = 0;
    while at < chars.len() && !(chars[at] == a && at + 1 < chars.len() && chars[at + 1] == b)
        invariant
            at <= chars.len(),
            position_of_pair(chars@, a, b, 0) == position_of_pair(chars@, a, b, at as int),
        decreases chars.len() - at,
    {
        at += 1;
    }
    at
}

/// The end of the white space that starts at `at`.
pub open spec fn blank_end(s: Seq<char>, at: int) -> int
    decreases s.len() - at,
{
    if 0 <= at < s.len() && is_whitespace(s[at]) {
        blank_end(s, at + 1)
    } else {
        at
    }
}

/// The end of the token that starts at `at`: the next white space, or the
/// end of `s`.
pub open spec fn token_end(s: Seq<char>, at: int) -> int
    decreases s.len() - at,
{
    if 0 <= at < s.len() && !is_whitespace(s[at]) {
        token_end(s, at + 1)
    } else {
        at
    }
}

/// Skips the white space that starts at `at`.
pub fn skip_blank(chars: &Vec<char>, at: usize) -> (end: usize)
    requires
        at <= chars.len(),
    ensures
        end == blank_end(chars@, at as int),
        at <= end <= chars.len(),
        end < chars.len() ==> !is_whitespace(chars[end as int]),
{
    let mut end: usize = at;
    while end < chars.len() && whitespace(chars[end])
        invariant
            at <= end <= chars.len(),
            blank_end(chars@, at as int) == blank_end(chars@, end as int),
        decreases chars.len() - end,
    {
        end += 1;
    }
    end
}

/// Skips the token that starts at `at`.
pub fn skip_token(chars: &Vec<char>, at: usize) -> (end: usize)
    requires
        at <= chars.len(),
    ensures
        end == token_end(chars@, at as int),
        at <= end <= chars.len(),
        at < chars.len() && !is_whitespace(chars[at as int]) ==> at < end,
{
    let mut end: usize = at;
    while end < chars.len() && !whitespace(chars[end])
        invariant
            at <= end <= chars.len(),
            token_end(chars@, at as int) == token_end(chars@, end as int),
            at < chars.len() && !is_whitespace(chars[at as int]) && at == end ==> end
                < chars.len(),
        decreases chars.len() - end,
    {
        end += 1;
    }
    end
}

/// Whether the characters of `s` from `from` up to `to` are decimal digits.
pub open spec fn digits_between(s: Seq<char>, from: int, to: int) -> bool {
    forall|i: int| from <= i < to ==> is_digit(#[trigger] s[i])
}

/// A run of digits in `s` is a piece of `s` made of digits.
pub proof fn lemma_digits_between(s: Seq<char>, from: int, to: int)
    requires
        0 <= from <= to <= s.len(),
    ensures
        digits_between(s, from, to) <==> all_digits(s.subrange(from, to)),
{
    let piece = s.subrange(from, to);
    if digits_between(s, from, to) {
        assert forall|i: int| 0 <= i < piece.len() implies is_digit(#[trigger] piece[i]) by {
            assert(piece[i] == s[from + i]);
        }
    }
    if all_digits(piece) {
        assert forall|i: int| from <= i < to implies is_digit(#[trigger] s[i]) by {
            assert(piece[i - from] == s[i]);
        }
    }
}

/// The numbers that a position token carries.
#[derive(Debug, PartialEq, Eq, Clone, Copy, Structural)]
pub struct GpsFields {
    pub hour: u32,
    pub minute: u32,
    pub second: u32,
    pub latitude_degrees: u32,
    pub latitude_minute_hundredths: u32,
    pub longitude_degrees: u32,
    pub longitude_minute_hundredths: u32,
    pub ground_track: u32,
    pub ground_speed: u32,
    pub gps_altitude: u32,
}

/// Whether `t` starts with a position report:
/// `HHMMSS` `h` `DDMM.MM` `N` (`/` or `\`) `DDDMM.MM` `E` `^` `TTT` `/` `SSS`
/// `/A=` `AAAAAA`, every letter but the literal ones a decimal digit.
/// Whatever follows the forty-second character is not looked at.
pub open spec fn is_gps_token(t: Seq<char>) -> bool {
    &&& t.len() >= 42
    &&& digits_between(t, 0, 6)
    &&& t[6] == 'h'
    &&& digits_between(t, 7, 11)
    &&& t[11] == '.'
    &&& digits_between(t, 12, 14)
    &&& t[14] == 'N'
    &&& (t[15] == '/' || t[15] == '\\')
    &&& digits_between(t, 16, 21)
    &&& t[21] == '.'
    &&& digits_between(t, 22, 24)
    &&& t[24] == 'E'
    &&& t[25] == '^'
    &&& digits_between(t, 26, 29)
    &&& t[29] == '/'
    &&& digits_between(t, 30, 33)
    &&& t[33] == '/'
    &&& t[34] == 'A'
    &&& t[35] == '='
    &&& digits_between(t, 36, 42)
}

/// The numbers in a position token.
pub open spec fn gps_fields(t: Seq<char>) -> GpsFields {
    GpsFields {
        hour: decimal_value(t.subrange(0, 2)) as u32,
        minute: decimal_value(t.subrange(2, 4)) as u32,
        second: decimal_value(t.subrange(4, 6)) as u32,
        latitude_degrees: decimal_value(t.subrange(7, 9)) as u32,
        latitude_minute_hundredths: (decimal_value(t.subrange(9, 11)) * 100 + decimal_value(
            t.subrange(12, 14),
        )) as u32,
        longitude_degrees: decimal_value(t.subrange(16, 19)) as u32,
        longitude_minute_hundredths: (decimal_value(t.subrange(19, 21)) * 100 + decimal_value(
            t.subrange(22, 24),
        )) as u32,
        ground_track: decimal_value(t.subrange(26, 29)) as u32,
        ground_speed: decimal_value(t.subrange(30, 33)) as u32,
        gps_altitude: decimal_value(t.subrange(36, 42)) as u32,
    }
}

/// Whether the identifier pattern, `id` and eight hexadecimal digits, stands
/// in `t` at `at`.
pub open spec fn beacon_at(t: Seq<char>, at: int) -> bool {
    &&& 0 <= at
    &&& at + 10 <= t.len()
    &&& t[at] == 'i'
    &&& t[at + 1] == 'd'
    &&& all_hex(t.subrange(at + 2, at + 10))
}

/// The first place at or after `at` where the identifier pattern stands in
/// `t`, if there is one.
pub open spec fn beacon_position(t: Seq<char>, at: int) -> Option<int>
    decreases t.len() - at,
{
    if at < 0 || at + 10 > t.len() {
        None
    } else if beacon_at(t, at) {
        Some(at)
    } else {
        beacon_position(t, at + 1)
    }
}

/// Reads the digits `a..b` of the token `chars[from..to]`.
fn token_number(chars: &Vec<char>, from: usize, to: usize, a: usize, b: usize) -> (value: Option<
    u32,
>)
    requires
        from <= to <= chars.len(),
        a <= b,
        from + b <= to,
        b - a <= 9,
    ensures
        value is Some <==> digits_between(chars@.subrange(from as int, to as int), a as int, b as int),
        value matches Some(v) ==> v == decimal_value(
            chars@.subrange(from as int, to as int).subrange(a as int, b as int),
        ) && v < pow10((b - a) as nat),
{
    proof {
        let t = chars@.subrange(from as int, to as int);
        assert(t.subrange(a as int, b as int) == chars@.subrange(from + a, from + b));
        lemma_digits_between(t, a as int, b as int);
    }
    parse_decimal(chars, from + a, from + b)
}

/// Matches the token `chars[from..to]` against the pattern of a position
/// report, and reads its numbers.
pub fn match_gps(chars: &Vec<char>, from: usize, to: usize) -> (found: Option<GpsFields>)
    requires
        from <= to <= chars.len(),
    ensures
        found is Some <==> is_gps_token(chars@.subrange(from as int, to as int)),
        found matches Some(fields) ==> fields == gps_fields(
            chars@.subrange(from as int, to as int),
        ),
{
    if to - from < GPS_TOKEN_LENGTH {
        return None;
    }
    let ghost t = chars@.subrange(from as int, to as int);
    assert(forall|i: int| 0 <= i < t.len() ==> t[i] == chars@[from + i]);
    proof {
        assert(pow10(2) == 100 && pow10(3) == 1000 && pow10(6) == 1_000_000) by {
            reveal_with_fuel(pow10, 7);
        }
    }
    let hour = match token_number(chars, from, to, 0, 2) {
        Some(v) => v,
        None => {
            return None;
        },
    };
    let minute = match token_number(chars, from, to, 2, 4) {
        Some(v) => v,
        None => {
            return None;
        },
    };
    let second = match token_number(chars, from, to, 4, 6) {
        Some(v) => v,
        None => {
            return None;
        },
    };
    if chars[from + 6] != 'h' {
        return None;
    }
    let latitude_degrees = match token_number(chars, from, to, 7, 9) {
        Some(v) => v,
        None => {
            return None;
        },
    };
    let latitude_minutes = match token_number(chars, from, to, 9, 11) {
        Some(v) => v,
        None => {
            return None;
        },
    };
    if chars[from + 11] != '.' {
        return None;
    }
    let latitude_hundredths = match token_number(chars, from, to, 12, 14) {
        Some(v) => v,
        None => {
            return None;
        },
    };
    if chars[from + 14] != 'N' {
        return None;
    }
    if chars[from + 15] != '/' && chars[from + 15] != '\\' {
        return None;
    }
    let longitude_degrees = match token_number(chars, from, to, 16, 19) {
        Some(v) => v,
        None => {
            return None;
        },
    };
    let longitude_minutes = match token_number(chars, from, to, 19, 21) {
        Some(v) => v,
        None => {
            return None;
        },
    };
    if chars[from + 21] != '.' {
        return None;
    }
    let longitude_hundredths = match token_number(chars, from, to, 22, 24) {
        Some(v) => v,
        None => {
            return None;
        },
    };
    if chars[from + 24] != 'E' || chars[from + 25] != '^' {
        return None;
    }
    let ground_track = match token_number(chars, from, to, 26, 29) {
        Some(v) => v,
        None => {
            return None;
        },
    };
    if chars[from + 29] != '/' {
        return None;
    }
    let ground_speed = match token_number(chars, from, to, 30, 33) {
        Some(v) => v,
        None => {
            return None;
        },
    };
    if chars[from + 33] != '/' || chars[from + 34] != 'A' || chars[from + 35] != '=' {
        return None;
    }
    let gps_altitude = match token_number(chars, from, to, 36, 42) {
        Some(v) => v,
        None => {
            return None;
        },
    };
    Some(
        GpsFields {
            hour,
            minute,
            second,
            latitude_degrees,
            latitude_minute_hundredths: latitude_minutes * 100 + latitude_hundredths,
            longitude_degrees,
            longitude_minute_hundredths: longitude_minutes * 100 + longitude_hundredths,
            ground_track,
            ground_speed,
            gps_altitude,
        },
    )
}

/// Looks in the token `chars[from..to]` for the first identifier pattern, and
/// tells where in `chars` it begins.
pub fn find_beacon(chars: &Vec<char>, from: usize, to: usize) -> (found: Option<usize>)
    requires
        from <= to <= chars.len(),
    ensures
        match beacon_position(chars@.subrange(from as int, to as int), 0) {
            Some(at) => found == Some((from + at) as usize) && from + at + 10 <= to && beacon_at(
                chars@.subrange(from as int, to as int),
                at,
            ),
            None => found is None,
        },
{
    let ghost t = chars@.subrange(from as int, to as int);
    let mut at: usize = from;
    while to - at >= BEACON_LENGTH
        invariant
            from <= at <= to <= chars.len(),
            t == chars@.subrange(from as int, to as int),
            beacon_position(t, 0) == beacon_position(t, at - from),
        decreases to - at,
    {
        assert(t[at - from] == chars@[at as int]);
        assert(t[at - from + 1] == chars@[at + 1]);
        assert(t.subrange(at - from + 2, at - from + 10) == chars@.subrange(at + 2, at + 10));
        if chars[at] == 'i' && chars[at + 1] == 'd' {
            if crate::hex::parse_hex(chars, at + 2, at + 10).is_some() {
                return Some(at);
            }
        }
        at += 1;
    }
    None
}

} // verus!
