//! Hexadecimal notation of byte strings.

use vstd::prelude::*;
use crate::text::chars_of;

verus! {

/// Whether `c` is a hexadecimal digit, of either case.
pub open spec fn is_hex_digit(c: char) -> bool {
    ||| '0' <= c <= '9'
    ||| 'a' <= c <= 'f'
    ||| 'A' <= c <= 'F'
}

/// Whether `s` holds hexadecimal digits only.
pub open spec fn is_hex(s: Seq<char>) -> bool {
    forall|i: int| 0 <= i < s.len() ==> is_hex_digit(#[trigger] s[i])
}

/// The number that a hexadecimal digit stands for.
pub open spec fn digit_value(c: char) -> int {
    if '0' <= c <= '9' {
        c as int - '0' as int
    } else if 'a' <= c <= 'f' {
        c as int - 'a' as int + 10
    } else {
        c as int - 'A' as int + 10
    }
}

/// The bytes that pairs of digits stand for, the higher digit first. A last
/// digit without a partner stands for nothing.
pub open spec fn hex_bytes(s: Seq<char>) -> Seq<u8> {
    Seq::new(
        s.len() / 2,
        |i: int| (16 * digit_value(s[2 * i]) + digit_value(s[2 * i + 1])) as u8,
    )
}

/// The lower-case digit for a number below sixteen.
pub open spec fn digit_of(n: int) -> char {
    if n < 10 {
        ('0' as int + n) as char
    } else {
        ('a' as int + n - 10) as char
    }
}

/// Two lower-case digits for each byte, the higher first.
pub open spec fn hex_text(bytes: Seq<u8>) -> Seq<char> {
    Seq::new(
        2 * bytes.len(),
        |i: int|
            if i % 2 == 0 {
                digit_of(bytes[i / 2] as int / 16)
            } else {
                digit_of(bytes[i / 2] as int % 16)
            },
    )
}

/// `s` with the upper-case hexadecimal digits made lower case.
pub open spec fn lower_hex(s: Seq<char>) -> Seq<char> {
    s.map_values(|c: char| digit_of(digit_value(c)))
}

fn digit(c: char) -> (res: Option<u8>)
    ensures
        match res {
            Some(d) => is_hex_digit(c) && d == digit_value(c) && d < 16,
            None => !is_hex_digit(c),
        },
{
    if c >= '0' && c <= '9' {
        Some((c as u32 - '0' as u32) as u8)
    } else if c >= 'a' && c <= 'f' {
        Some((c as u32 - 'a' as u32 + 10) as u8)
    } else if c >= 'A' && c <= 'F' {
        Some((c as u32 - 'A' as u32 + 10) as u8)
    } else {
        None
    }
}

/// The bytes that a string of hexadecimal digits stands for; nothing, if it
/// holds anything but digits.
pub fn hex_to_vec(hex: &str) -> (res: Option<Vec<u8>>)
    ensures
        match res {
            Some(bytes) => is_hex(hex@) && bytes@ == hex_bytes(hex@),
            None => !is_hex(hex@),
        },
{
    let chars = chars_of(hex);
    let mut out: Vec<u8> = Vec::with_capacity(chars.len() / 2);
    let mut b: u8 = 0;
    let mut i: usize = 0;
    while i < chars.len()
        invariant
            chars@ == hex@,
            i <= chars.len(),
            forall|j: int| 0 <= j < i ==> is_hex_digit(#[trigger] hex@[j]),
            out.len() == i / 2,
            forall|j: int|
                0 <= j < i / 2 ==> #[trigger] out@[j] == (16 * digit_value(hex@[2 * j])
                    + digit_value(hex@[2 * j + 1])) as u8,
            b < 16,
            i % 2 == 1 ==> b == digit_value(hex@[i - 1]),
        decreases chars.len() - i,
    {
        match digit(chars[i]) {
            Some(d) => {
                if i % 2 == 1 {
                    out.push(16 * b + d);
                    b = 0;
                } else {
                    b = d;
                }
            },
            None => {
                return None;
            },
        }
        i = i + 1;
    }
    assert(out@ == hex_bytes(hex@));
    Some(out)
}

fn digit_str(n: u8) -> (res: &'static str)
    requires
        n < 16,
    ensures
        res@ == seq![digit_of(n as int)],
{
    proof {
        reveal_strlit("0123456789abcdef");
    }
    "0123456789abcdef".substring_char(n as usize, n as usize + 1)
}

/// A byte string in lower-case hexadecimal notation.
pub fn bytes_to_hex(value: &[u8]) -> (res: String)
    ensures
        res@ == hex_text(value@),
{
    let mut res = String::new();
    let mut i: usize = 0;
    assert(res@ == hex_text(value@.take(0)));
    while i < value.len()
        invariant
            i <= value.len(),
            res@ == hex_text(value@.take(i as int)),
        decreases value.len() - i,
    {
        let v = value[i];
        res.append(digit_str(v / 16));
        res.append(digit_str(v % 16));
        assert(res@ == hex_text(value@.take(i + 1)));
        i = i + 1;
    }
    assert(value@.take(i as int) == value@);
    res
}

/// Reading the notation of a byte string gives the byte string back.
pub proof fn law_hex_of_bytes(bytes: Seq<u8>)
    ensures
        is_hex(hex_text(bytes)),
        hex_bytes(hex_text(bytes)) == bytes,
{
    assert forall|i: int| 0 <= i < bytes.len() implies hex_bytes(hex_text(bytes))[i]
        == bytes[i] by {
        assert(hex_text(bytes)[2 * i] == digit_of(bytes[i] as int / 16));
        assert(hex_text(bytes)[2 * i + 1] == digit_of(bytes[i] as int % 16));
    }
}

/// The notation of what an even number of digits stands for is those digits
/// again, in lower case.
pub proof fn law_bytes_of_hex(s: Seq<char>)
    requires
        is_hex(s),
        s.len() % 2 == 0,
    ensures
        hex_text(hex_bytes(s)) == lower_hex(s),
{
    assert forall|i: int| 0 <= i < s.len() implies hex_text(hex_bytes(s))[i] == lower_hex(s)[i] by {
        let h = s[2 * (i / 2)];
        let l = s[2 * (i / 2) + 1];
        assert(is_hex_digit(h) && is_hex_digit(l));
        assert(hex_bytes(s)[i / 2] == 16 * digit_value(h) + digit_value(l));
    }
}

/// Sixteen digits count, ten of them with one form and six with two.
pub proof fn law_hex_digits(s: Seq<char>)
    ensures
        is_hex(s) <==> forall|i: int|
            0 <= i < s.len() ==> "0123456789abcdefABCDEF"@.contains(#[trigger] s[i]),
{
    reveal_strlit("0123456789abcdefABCDEF");
    let digits = "0123456789abcdefABCDEF"@;
    assert forall|c: char| #[trigger] is_hex_digit(c) <==> digits.contains(c) by {
        if '0' <= c <= '9' {
            assert(digits[c as int - '0' as int] == c);
        } else if 'a' <= c <= 'f' {
            assert(digits[c as int - 'a' as int + 10] == c);
        } else if 'A' <= c <= 'F' {
            assert(digits[c as int - 'A' as int + 16] == c);
        }
    }
    if forall|i: int| 0 <= i < s.len() ==> digits.contains(#[trigger] s[i]) {
        assert forall|i: int| 0 <= i < s.len() implies is_hex_digit(#[trigger] s[i]) by {
            assert(digits.contains(s[i]));
        }
    }
}

/// Each byte is written as two lower-case digits, the sixteens and the rest,
/// after those of the bytes before it.
pub proof fn law_hex_written(bytes: Seq<u8>, b: u8)
    ensures
        hex_text(Seq::empty()) == Seq::<char>::empty(),
        hex_text(bytes.push(b)) == hex_text(bytes).push("0123456789abcdef"@[b as int / 16]).push(
            "0123456789abcdef"@[b as int % 16],
        ),
{
    reveal_strlit("0123456789abcdef");
    let digits = "0123456789abcdef"@;
    assert forall|n: int| 0 <= n < 16 implies #[trigger] digits[n] == digit_of(n) by {}
    let whole = bytes.push(b);
    let high = digits[b as int / 16];
    let low = digits[b as int % 16];
    assert forall|i: int| 0 <= i < 2 * whole.len() implies hex_text(whole)[i] == hex_text(
        bytes,
    ).push(high).push(low)[i] by {
        if i < 2 * bytes.len() {
            assert(whole[i / 2] == bytes[i / 2]);
        } else {
            assert(whole[i / 2] == b);
        }
    }
}

/// A pair of digits, of either case, is read as the byte with that many
/// sixteens and that rest, after those of the pairs before it. A digit without
/// a partner adds nothing.
pub proof fn law_hex_read(s: Seq<char>, high: int, low: int, h: char, l: char)
    requires
        s.len() % 2 == 0,
        0 <= high < 16,
        0 <= low < 16,
        h == "0123456789abcdef"@[high] || h == "0123456789ABCDEF"@[high],
        l == "0123456789abcdef"@[low] || l == "0123456789ABCDEF"@[low],
    ensures
        hex_bytes(Seq::empty()) == Seq::<u8>::empty(),
        hex_bytes(s.push(h)) == hex_bytes(s),
        hex_bytes(s.push(h).push(l)) == hex_bytes(s).push((16 * high + low) as u8),
{
    reveal_strlit("0123456789abcdef");
    reveal_strlit("0123456789ABCDEF");
    assert(digit_value(h) == high);
    assert(digit_value(l) == low);
    assert(hex_bytes(s.push(h)) == hex_bytes(s));
    assert(hex_bytes(s.push(h).push(l)) == hex_bytes(s).push((16 * high + low) as u8));
}

} // verus!
