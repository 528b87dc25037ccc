//! Slave-address text: hexadecimal with a `0x` or `0X` prefix, decimal otherwise.
use vstd::prelude::*;
use vstd::string::{StrSliceExecFns, StringExecFns};

verus! {

/// The value of a digit in `radix` (at most 36), if it is one.
pub open spec fn digit_value(c: char, radix: nat) -> Option<nat> {
    let v: int = if '0' <= c <= '9' {
        c as int - '0' as int
    } else if 'a' <= c <= 'z' {
        c as int - 'a' as int + 10
    } else if 'A' <= c <= 'Z' {
        c as int - 'A' as int + 10
    } else {
        36
    };
    if v < radix {
        Some(v as nat)
    } else {
        None
    }
}

/// The value of a digit string, if every character is a digit in `radix`.
pub open spec fn digits_value(d: Seq<char>, radix: nat) -> Option<nat>
    decreases d.len(),
{
    if d.len() == 0 {
        Some(0)
    } else {
        match (digits_value(d.drop_last(), radix), digit_value(d.last(), radix)) {
            (Some(a), Some(b)) => Some(a * radix + b),
            _ => None,
        }
    }
}

/// A `u8` written in `radix`: an optional `+`, then at least one digit, with
/// a value below 256.
pub open spec fn parse_u8_radix(s: Seq<char>, radix: nat) -> Option<u8> {
    let d = if s.len() > 0 && s[0] == '+' {
        s.drop_first()
    } else {
        s
    };
    if d.len() == 0 {
        None
    } else {
        match digits_value(d, radix) {
            Some(v) => if v < 256 {
                Some(v as u8)
            } else {
                None
            },
            None => None,
        }
    }
}

/// Whether the text carries a hexadecimal prefix.
pub open spec fn has_hex_prefix(s: Seq<char>) -> bool {
    s.len() >= 2 && s[0] == '0' && (s[1] == 'x' || s[1] == 'X')
}

proof fn lemma_digits_prefix(d: Seq<char>, radix: nat, k: int)
    requires
        0 <= k <= d.len(),
        radix >= 1,
        digits_value(d, radix) is Some,
    ensures
        digits_value(d.take(k), radix) is Some,
        digits_value(d.take(k), radix)->Some_0 <= digits_value(d, radix)->Some_0,
    decreases d.len(),
{
    if k == d.len() {
        assert(d.take(k) =~= d);
    } else {
        lemma_digits_prefix(d.drop_last(), radix, k);
        assert(d.drop_last().take(k) =~= d.take(k));
        let a = digits_value(d.drop_last(), radix)->Some_0;
        assert(a * radix >= a) by (nonlinear_arith)
            requires
                radix >= 1,
        ;
    }
}

fn digit_of(c: char, radix: u32) -> (r: Option<u32>)
    requires
        radix <= 36,
    ensures
        match digit_value(c, radix as nat) {
            Some(v) => r == Some(v as u32),
            None => r is None,
        },
{
    let v: u32 = if '0' <= c && c <= '9' {
        (c as u32) - ('0' as u32)
    } else if 'a' <= c && c <= 'z' {
        (c as u32) - ('a' as u32) + 10
    } else if 'A' <= c && c <= 'Z' {
        (c as u32) - ('A' as u32) + 10
    } else {
        36
    };
    if v < radix {
        Some(v)
    } else {
        None
    }
}

/// Parses a `u8` written in `radix` (2 to 36).
fn parse_u8(s: &str, radix: u32) -> (r: Option<u8>)
    requires
        2 <= radix <= 36,
    ensures
        r == parse_u8_radix(s@, radix as nat),
{
    let len = s.unicode_len();
    let mut i: usize = 0;
    if len > 0 && s.get_char(0) == '+' {
        i = 1;
    }
    let first = i;
    let ghost d = if s@.len() > 0 && s@[0] == '+' { s@.drop_first() } else { s@ };
    assert(d =~= s@.subrange(first as int, len as int));
    if i == len {
        return None;
    }
    let mut acc: u32 = 0;
    while i < len
        invariant
            len == s@.len(),
            first <= i <= len,
            d == s@.subrange(first as int, len as int),
            d == (if s@.len() > 0 && s@[0] == '+' { s@.drop_first() } else { s@ }),
            digits_value(d.take(i - first), radix as nat) == Some(acc as nat),
            acc < 256,
            2 <= radix <= 36,
        decreases len - i,
    {
        let c = s.get_char(i);
        let ghost p = d.take(i - first + 1);
        assert(p.drop_last() =~= d.take(i - first));
        assert(p.last() == c);
        match digit_of(c, radix) {
            None => {
                proof {
                    assert(digit_value(p.last(), radix as nat) is None);
                    assert(digits_value(p, radix as nat) is None);
                    if digits_value(d, radix as nat) is Some {
                        lemma_digits_prefix(d, radix as nat, i - first + 1);
                    }
                    assert(digits_value(d, radix as nat) is None);
                }
                return None;
            },
            Some(v) => {
                assert(acc * radix <= 255 * 36) by (nonlinear_arith)
                    requires
                        acc < 256,
                        radix <= 36,
                ;
                let next: u32 = acc * radix + v;
                if next >= 256 {
                    proof {
                        assert(digits_value(p, radix as nat) == Some(next as nat));
                        if digits_value(d, radix as nat) is Some {
                            lemma_digits_prefix(d, radix as nat, i - first + 1);
                        }
                        assert(!(digits_value(d, radix as nat) matches Some(x) && x < 256));
                    }
                    return None;
                }
                acc = next;
            },
        }
        i = i + 1;
    }
    assert(d.take(len - first) =~= d);
    Some(acc as u8)
}

/// Parses a slave address: hexadecimal after a `0x` or `0X` prefix, decimal
/// otherwise; the error names the text that was refused.
pub fn parse_address(s: &str) -> (r: Result<u8, String>)
    ensures
        has_hex_prefix(s@) ==> match parse_u8_radix(s@.subrange(2, s@.len() as int), 16) {
            Some(v) => r == Ok::<u8, String>(v),
            None => r is Err && r->Err_0@ == "Invalid hex address: "@ + s@,
        },
        !has_hex_prefix(s@) ==> match parse_u8_radix(s@, 10) {
            Some(v) => r == Ok::<u8, String>(v),
            None => r is Err && r->Err_0@ == "Invalid decimal address: "@ + s@,
        },
{
    let len = s.unicode_len();
    if len >= 2 && s.get_char(0) == '0' && (s.get_char(1) == 'x' || s.get_char(1) == 'X') {
        match parse_u8(s.substring_char(2, len), 16) {
            Some(v) => Ok(v),
            None => Err("Invalid hex address: ".to_owned().concat(s)),
        }
    } else {
        match parse_u8(s, 10) {
            Some(v) => Ok(v),
            None => Err("Invalid decimal address: ".to_owned().concat(s)),
        }
    }
}

} // verus!
