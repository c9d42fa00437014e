//! Hexadecimal digits: reading fixed-width fields and writing them back.

use vstd::prelude::*;

verus! {

/// Whether `c` is one of `0-9`, `a-f`, `A-F`.
pub open spec fn is_hex_digit(c: char) -> bool {
    ('0' <= c && c <= '9') || ('a' <= c && c <= 'f') || ('A' <= c && c <= 'F')
}

/// The value of a hexadecimal digit; zero for any other character.
pub open spec fn hex_digit_value(c: char) -> nat {
    if '0' <= c && c <= '9' {
        (c as nat - '0' as nat) as nat
    } else if 'a' <= c && c <= 'f' {
        (c as nat - 'a' as nat + 10) as nat
    } else if 'A' <= c && c <= 'F' {
        (c as nat - 'A' as nat + 10) as nat
    } else {
        0
    }
}

/// Whether every character of `s` is a hexadecimal digit.
pub open spec fn all_hex(s: Seq<char>) -> bool {
    forall|i: int| 0 <= i < s.len() ==> is_hex_digit(#[trigger] s[i])
}

/// The number that `s` denotes when read as big-endian hexadecimal digits.
pub open spec fn hex_value(s: Seq<char>) -> nat
    decreases s.len(),
{
    if s.len() == 0 {
        0
    } else {
        hex_value(s.drop_last()) * 16 + hex_digit_value(s.last())
    }
}

/// The upper-case hexadecimal digit for `n`, which is below 16.
pub open spec fn upper_hex_digit(n: nat) -> char {
    if n < 10 {
        ('0' as nat + n) as char
    } else {
        ('A' as nat + n - 10) as char
    }
}

/// `v` written with exactly `width` upper-case hexadecimal digits, most
/// significant first; digits beyond `width` are cut off.
pub open spec fn upper_hex(v: nat, width: nat) -> Seq<char>
    decreases width,
{
    if width == 0 {
        Seq::empty()
    } else {
        upper_hex(v / 16, (width - 1) as nat).push(upper_hex_digit(v % 16))
    }
}

/// 16 to the power `n`.
pub open spec fn pow16(n: nat) -> nat
    decreases n,
{
    if n == 0 {
        1
    } else {
        16 * pow16((n - 1) as nat)
    }
}

/// Tells whether `c` is a hexadecimal digit.
pub fn hex_digit(c: char) -> (digit: Option<u8>)
    ensures
        digit is Some <==> is_hex_digit(c),
        digit matches Some(d) ==> d == hex_digit_value(c) && d < 16,
{
    if '0' <= c && c <= '9' {
        Some((c as u32 - '0' as u32) as u8)
    } else if 'a' <= c && c <= 'f' {
        Some((c as u32 - 'a' as u32 + 10) as u8)
    } else if 'A' <= c && c <= 'F' {
        Some((c as u32 - 'A' as u32 + 10) as u8)
    } else {
        None
    }
}

/// A run of `n` hexadecimal digits denotes a number below 16 to the `n`.
pub proof fn lemma_hex_value_bound(s: Seq<char>)
    ensures
        hex_value(s) < pow16(s.len()),
    decreases s.len(),
{
    if s.len() > 0 {
        lemma_hex_value_bound(s.drop_last());
        assert(hex_digit_value(s.last()) < 16);
    }
}

/// A run of digits is worth its head, shifted past the tail, plus its tail.
pub proof fn lemma_hex_value_split(s: Seq<char>, at: int)
    requires
        0 <= at <= s.len(),
    ensures
        hex_value(s) == hex_value(s.subrange(0, at)) * pow16((s.len() - at) as nat) + hex_value(
            s.subrange(at, s.len() as int),
        ),
    decreases s.len() - at,
{
    let head = s.subrange(0, at);
    let tail = s.subrange(at, s.len() as int);
    if at == s.len() {
        assert(head == s);
        assert(tail.len() == 0);
        assert(hex_value(tail) == 0);
        assert(pow16(0) == 1);
        assert(hex_value(head) * 1 == hex_value(head));
    } else {
        let shorter = s.drop_last();
        lemma_hex_value_split(shorter, at);
        assert(shorter.subrange(0, at) == head);
        assert(shorter.subrange(at, shorter.len() as int) == tail.drop_last());
        assert(tail.last() == s.last());
        let h = hex_value(head);
        let p = pow16((shorter.len() - at) as nat);
        let t = hex_value(tail.drop_last());
        assert(hex_value(shorter) == h * p + t);
        assert(hex_value(s) == hex_value(shorter) * 16 + hex_digit_value(s.last()));
        assert(hex_value(tail) == t * 16 + hex_digit_value(s.last()));
        assert(pow16((s.len() - at) as nat) == 16 * p);
        assert((h * p + t) * 16 == h * (16 * p) + t * 16) by (nonlinear_arith);
    }
}

/// Reads the characters `chars[from..to]` as a hexadecimal number of at most
/// eight digits.
pub fn parse_hex(chars: &Vec<char>, from: usize, to: usize) -> (value: Option<u32>)
    requires
        from <= to <= chars.len(),
        to - from <= 8,
    ensures
        value is Some <==> all_hex(chars@.subrange(from as int, to as int)),
        value matches Some(v) ==> v == hex_value(chars@.subrange(from as int, to as int)),
{
    let ghost field = chars@.subrange(from as int, to as int);
    let mut value: u32 = 0;
    let mut at: usize = from;
    while at < to
        invariant
            from <= at <= to <= chars.len(),
            to - from <= 8,
            field == chars@.subrange(from as int, to as int),
            all_hex(field.take(at - from)),
            value == hex_value(field.take(at - from)),
        decreases to - at,
    {
        let ghost read = field.take(at - from);
        let ghost next = field.take(at - from + 1);
        assert(next.drop_last() == read);
        assert(next.last() == chars@[at as int]);
        match hex_digit(chars[at]) {
            Some(digit) => {
                proof {
                    lemma_hex_value_bound(read);
                    lemma_pow16_monotonic(read.len(), 7);
                    assert(pow16(7) == 0x1000_0000) by {
                        reveal_with_fuel(pow16, 8);
                    }
                    assert forall|i: int| 0 <= i < next.len() implies is_hex_digit(
                        #[trigger] next[i],
                    ) by {
                        if i < read.len() {
                            assert(next[i] == read[i]);
                        }
                    }
                }
                value = value * 16 + digit as u32;
                at += 1;
            },
            None => {
                proof {
                    assert(field[at - from] == chars@[at as int]);
                }
                return None;
            },
        }
    }
    assert(field.take(to - from) == field);
    Some(value)
}

/// `pow16` grows with its argument.
pub proof fn lemma_pow16_monotonic(a: nat, b: nat)
    requires
        a <= b,
    ensures
        pow16(a) <= pow16(b),
        pow16(a) > 0,
    decreases b,
{
    if a < b {
        lemma_pow16_monotonic(a, (b - 1) as nat);
    } else if a > 0 {
        lemma_pow16_monotonic((a - 1) as nat, (a - 1) as nat);
    }
}

/// Writing a number with `width` digits and reading it back gives the number
/// again, up to the digits that did not fit.
pub proof fn lemma_upper_hex_reads_back(v: nat, width: nat)
    ensures
        upper_hex(v, width).len() == width,
        all_hex(upper_hex(v, width)),
        hex_value(upper_hex(v, width)) == v % pow16(width),
    decreases width,
{
    if width > 0 {
        let head = upper_hex(v / 16, (width - 1) as nat);
        let digit = upper_hex_digit(v % 16);
        lemma_upper_hex_reads_back(v / 16, (width - 1) as nat);
        lemma_pow16_monotonic((width - 1) as nat, (width - 1) as nat);
        let written = upper_hex(v, width);
        assert(written == head.push(digit));
        assert(written.drop_last() == head);
        assert(written.last() == digit);
        assert(is_hex_digit(digit) && hex_digit_value(digit) == v % 16);
        assert forall|i: int| 0 <= i < written.len() implies is_hex_digit(
            #[trigger] written[i],
        ) by {
            if i < head.len() {
                assert(written[i] == head[i]);
            }
        }
        lemma_mod_by_digits(v, pow16((width - 1) as nat));
    }
}

/// Splitting off the last hexadecimal digit commutes with cutting to a width.
proof fn lemma_mod_by_digits(v: nat, m: nat)
    requires
        m > 0,
    ensures
        ((v / 16) % m) * 16 + v % 16 == v % (16 * m),
{
    vstd::arithmetic::div_mod::lemma_fundamental_div_mod(v as int, 16);
    vstd::arithmetic::div_mod::lemma_fundamental_div_mod((v / 16) as int, m as int);
    let q = ((v / 16) / m) as int;
    let r = ((v / 16) % m) as int;
    let low = (v % 16) as int;
    let d = (16 * m) as int;
    assert(v == q * d + (16 * r + low)) by (nonlinear_arith)
        requires
            v == 16 * (v / 16) + low,
            (v / 16) == m * q + r,
            d == 16 * m,
    ;
    assert(0 <= 16 * r + low < d) by (nonlinear_arith)
        requires
            0 <= r < m,
            0 <= low < 16,
            d == 16 * m,
    ;
    vstd::arithmetic::div_mod::lemma_fundamental_div_mod_converse(v as int, d, q, 16 * r + low);
}

/// The one-character string that holds the upper-case digit for `n`.
pub fn upper_hex_digit_str(n: u8) -> (digit: &'static str)
    requires
        n < 16,
    ensures
        digit@ == seq![upper_hex_digit(n as nat)],
{
    proof {
        reveal_strlit("0");
        reveal_strlit("1");
        reveal_strlit("2");
        reveal_strlit("3");
        reveal_strlit("4");
        reveal_strlit("5");
        reveal_strlit("6");
        reveal_strlit("7");
        reveal_strlit("8");
        reveal_strlit("9");
        reveal_strlit("A");
        reveal_strlit("B");
        reveal_strlit("C");
        reveal_strlit("D");
        reveal_strlit("E");
        reveal_strlit("F");
    }
    let digit = match n {
        0 => "0",
        1 => "1",
        2 => "2",
        3 => "3",
        4 => "4",
        5 => "5",
        6 => "6",
        7 => "7",
        8 => "8",
        9 => "9",
        10 => "A",
        11 => "B",
        12 => "C",
        13 => "D",
        14 => "E",
        _ => "F",
    };
    assert(digit@ =~= seq![upper_hex_digit(n as nat)]);
    digit
}

/// Appends `v`, written with exactly `width` upper-case hexadecimal digits.
pub fn push_upper_hex(text: &mut String, v: u32, width: u8)
    ensures
        final(text)@ == old(text)@ + upper_hex(v as nat, width as nat),
    decreases width,
{
    if width > 0 {
        push_upper_hex(text, v / 16, width - 1);
        text.append(upper_hex_digit_str((v % 16) as u8));
        assert(text@ =~= old(text)@ + upper_hex(v as nat, width as nat));
    } else {
        assert(text@ =~= old(text)@ + upper_hex(v as nat, width as nat));
    }
}

} // verus!
