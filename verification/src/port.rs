use vstd::prelude::*;
use vstd::std_specs::iter::IteratorSpec;

use crate::text::{decimal, digit_char};

verus! {

/// The port the server listens on when no `PORT` is set.
pub const DEFAULT_PORT: u16 = 3001;

/// `c` is one of the ASCII digits `0` to `9`.
pub open spec fn is_digit(c: char) -> bool {
    '0' <= c && c <= '9'
}

/// The value of digit character `c`.
pub open spec fn digit_value(c: char) -> int {
    c as int - 48
}

/// Every character of `s` is an ASCII digit.
pub open spec fn all_digits(s: Seq<char>) -> bool {
    forall|i: int| 0 <= i < s.len() ==> is_digit(#[trigger] s[i])
}

/// The number that the digits `s` spell in base ten (leading zeros allowed).
pub open spec fn digits_value(s: Seq<char>) -> nat
    decreases s.len(),
{
    if s.len() == 0 {
        0
    } else {
        (digits_value(s.drop_last()) * 10 + digit_value(s.last())) as nat
    }
}

/// The text after one leading `+`, if there is one.
pub open spec fn unsigned_part(s: Seq<char>) -> Seq<char> {
    if s.len() > 0 && s[0] == '+' {
        s.drop_first()
    } else {
        s
    }
}

/// What `s.parse::<u16>()` gives: an optional `+`, then at least one ASCII
/// digit and nothing else, whose value fits in 16 bits.
pub open spec fn u16_text_value(s: Seq<char>) -> Option<u16> {
    let d = unsigned_part(s);
    if d.len() > 0 && all_digits(d) && digits_value(d) <= u16::MAX {
        Some(digits_value(d) as u16)
    } else {
        None
    }
}

/// The port setting of the server: the text of `PORT` read as a 16-bit
/// number, or `DEFAULT_PORT` where `PORT` is not set.
pub open spec fn port_setting_value(var: Option<Seq<char>>) -> Option<u16> {
    match var {
        Some(text) => u16_text_value(text),
        None => Some(DEFAULT_PORT),
    }
}

/// Past a first character, what follows it passes into the unsigned part
/// unchanged.
proof fn lemma_unsigned_part_append(seen: Seq<char>, rest: Seq<char>)
    requires
        seen.len() > 0,
    ensures
        unsigned_part(seen + rest) =~= unsigned_part(seen) + rest,
{
    assert((seen + rest)[0] == seen[0]);
    if seen[0] == '+' {
        assert((seen + rest).drop_first() =~= seen.drop_first() + rest);
    }
}

/// Reads `text` as a 16-bit unsigned number the way `str::parse::<u16>`
/// does; `None` where that fails.
pub fn parse_port(text: &str) -> (port: Option<u16>)
    ensures
        port == u16_text_value(text@),
{
    let mut chars = text.chars();
    let ghost mut seen: Seq<char> = Seq::empty();
    // the value of the digits read so far, held at 65536 once it passes 65535
    let mut value: u32 = 0;
    let mut any_digit = false;
    let mut at_start = true;
    assert(seen + chars.remaining() =~= text@);
    loop
        invariant
            seen + chars.remaining() == text@,
            at_start == (seen.len() == 0),
            all_digits(unsigned_part(seen)),
            any_digit == (unsigned_part(seen).len() > 0),
            value as int == if digits_value(unsigned_part(seen)) < 65536 {
                digits_value(unsigned_part(seen)) as int
            } else {
                65536
            },
            chars.decrease() is Some,
        decreases chars.decrease()->0,
    {
        let ghost before = chars.remaining();
        let next = chars.next();
        match next {
            None => {
                assert(seen =~= text@);
                if any_digit && value <= 65535 {
                    return Some(value as u16);
                } else {
                    return None;
                }
            },
            Some(c) => {
                let ghost rest = chars.remaining();
                assert(c == before[0]);
                assert(text@ =~= seen.push(c) + rest);
                if at_start && c == '+' {
                    assert(unsigned_part(seen.push(c)) =~= Seq::<char>::empty());
                } else if '0' <= c && c <= '9' {
                    proof {
                        if seen.len() > 0 {
                            lemma_unsigned_part_append(seen, seq![c]);
                        }
                        assert(unsigned_part(seen.push(c)) =~= unsigned_part(seen).push(c));
                        assert(unsigned_part(seen).push(c).drop_last() =~= unsigned_part(seen));
                    }
                    let d = (c as u32) - 48;
                    let next_value = value * 10 + d;
                    value = if next_value >= 65536 { 65536 } else { next_value };
                    any_digit = true;
                } else {
                    proof {
                        if seen.len() > 0 {
                            lemma_unsigned_part_append(seen, seq![c] + rest);
                            assert(unsigned_part(text@)[unsigned_part(seen).len() as int] == c);
                        } else {
                            assert(unsigned_part(text@) == text@);
                            assert(text@[0] == c);
                        }
                    }
                    return None;
                }
                proof {
                    seen = seen.push(c);
                }
                at_start = false;
            },
        }
    }
}

/// The port the server is to listen on: `PORT` read as by `parse_port`
/// where it is set (`var` holds its text), else `DEFAULT_PORT`; `None` where
/// the text is not a 16-bit number.
pub fn port_setting(var: Option<&str>) -> (port: Option<u16>)
    ensures
        port == port_setting_value(match var {
            Some(text) => Some(text@),
            None => None,
        }),
{
    match var {
        Some(text) => parse_port(text),
        None => Some(DEFAULT_PORT),
    }
}

/// The decimal text of `n` is a run of digits that spells `n`.
pub proof fn lemma_decimal_digits(n: nat)
    ensures
        decimal(n).len() > 0,
        all_digits(decimal(n)),
        digits_value(decimal(n)) == n,
    decreases n,
{
    let k = (n % 10) as int;
    assert(digit_value(digit_char(k)) == k);
    if n >= 10 {
        lemma_decimal_digits(n / 10);
        let d = decimal(n / 10);
        assert(decimal(n) == d.push(digit_char((n % 10) as int)));
        assert(d.push(digit_char((n % 10) as int)).drop_last() =~= d);
        assert(digits_value(decimal(n)) == digits_value(d) * 10 + k);
        assert forall|i: int| 0 <= i < decimal(n).len() implies is_digit(#[trigger] decimal(n)[i]) by {
            if i < d.len() {
                assert(decimal(n)[i] == d[i]);
            }
        }
    } else {
        assert(decimal(n).drop_last() =~= Seq::<char>::empty());
        assert(digits_value(decimal(n)) == digits_value(Seq::<char>::empty()) * 10 + k);
    }
}

/// Law: the port number the server reports at start, written in decimal,
/// reads back as that same port: `u16_text_value(decimal(p)) == Some(p)`.
pub proof fn lemma_reported_port_reads_back(p: u16)
    ensures
        u16_text_value(decimal(p as nat)) == Some(p),
        port_setting_value(Some(decimal(p as nat))) == Some(p),
{
    lemma_decimal_digits(p as nat);
    let d = decimal(p as nat);
    assert(is_digit(d[0]));
    assert(unsigned_part(d) == d);
}

} // verus!
