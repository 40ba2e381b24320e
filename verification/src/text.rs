use vstd::prelude::*;

use crate::port::{all_digits, digits_value, lemma_decimal_digits};

verus! {

/// The character of decimal digit `d` (`0 <= d < 10`).
pub open spec fn digit_char(d: int) -> char {
    (d + 48) as char
}

/// The decimal text of `n`, without sign or leading zeros, as `{}` prints an
/// unsigned integer.
pub open spec fn decimal(n: nat) -> Seq<char>
    decreases n,
{
    if n < 10 {
        seq![digit_char(n as int)]
    } else {
        decimal(n / 10).push(digit_char((n % 10) as int))
    }
}

/// The one-character text of digit `d`.
fn digit_text(d: u64) -> (t: &'static str)
    requires
        d < 10,
    ensures
        t@ == seq![digit_char(d as int)],
{
    if d == 0 {
        proof { reveal_strlit("0"); }
        "0"
    } else if d == 1 {
        proof { reveal_strlit("1"); }
        "1"
    } else if d == 2 {
        proof { reveal_strlit("2"); }
        "2"
    } else if d == 3 {
        proof { reveal_strlit("3"); }
        "3"
    } else if d == 4 {
        proof { reveal_strlit("4"); }
        "4"
    } else if d == 5 {
        proof { reveal_strlit("5"); }
        "5"
    } else if d == 6 {
        proof { reveal_strlit("6"); }
        "6"
    } else if d == 7 {
        proof { reveal_strlit("7"); }
        "7"
    } else if d == 8 {
        proof { reveal_strlit("8"); }
        "8"
    } else {
        proof { reveal_strlit("9"); }
        "9"
    }
}

/// Appends the decimal text of `n` to `out`.
fn push_decimal(out: &mut String, n: u64)
    ensures
        final(out)@ == old(out)@ + decimal(n as nat),
    decreases n,
{
    if n >= 10 {
        push_decimal(out, n / 10);
    }
    out.append(digit_text(n % 10));
    proof {
        if n >= 10 {
            assert(old(out)@ + decimal(n as nat) =~= old(out)@ + decimal((n / 10) as nat) + seq![digit_char((n % 10) as int)]);
        } else {
            assert(n % 10 == n);
        }
    }
}

/// Hours and minutes of an uptime given in seconds: whole hours, and whole
/// minutes of what is left after them.
pub fn uptime_parts(uptime_secs: u64) -> (hm: (u64, u64))
    ensures
        hm.0 == uptime_secs / 3600,
        hm.1 == (uptime_secs % 3600) / 60,
        hm.1 < 60,
        hm.0 * 3600 + hm.1 * 60 <= uptime_secs < hm.0 * 3600 + hm.1 * 60 + 60,
{
    let hours = uptime_secs / 3600;
    let minutes = (uptime_secs % 3600) / 60;
    (hours, minutes)
}

/// The uptime line of the report, `"{hours}h {minutes}m"`, for an uptime
/// of `uptime_secs` seconds.
pub open spec fn uptime_text(uptime_secs: u64) -> Seq<char> {
    decimal((uptime_secs / 3600) as nat) + seq!['h', ' '] + decimal(((uptime_secs % 3600) / 60) as nat)
        + seq!['m']
}

/// The uptime line of the report, `"{hours}h {minutes}m"`.
pub fn format_uptime(uptime_secs: u64) -> (t: String)
    ensures
        t@ == uptime_text(uptime_secs),
{
    let (hours, minutes) = uptime_parts(uptime_secs);
    let mut t = String::new();
    push_decimal(&mut t, hours);
    proof { reveal_strlit("h "); }
    t.append("h ");
    push_decimal(&mut t, minutes);
    proof { reveal_strlit("m"); }
    t.append("m");
    assert(t@ =~= decimal((uptime_secs / 3600) as nat) + seq!['h', ' ']
        + decimal(((uptime_secs % 3600) / 60) as nat) + seq!['m']);
    t
}

/// The line printed when the server starts, `"Server running on port {port}"`.
pub fn startup_message(port: u16) -> (t: String)
    ensures
        t@ == "Server running on port "@ + decimal(port as nat),
{
    let mut t = String::new();
    t.append("Server running on port ");
    push_decimal(&mut t, port as u64);
    assert(t@ =~= "Server running on port "@ + decimal(port as nat));
    t
}

/// `t` splits at `i` into a run of digits, `"h "`, a run of digits and
/// `"m"`, whose runs spell whole hours `h` and whole minutes `m < 60` that
/// come to at most `uptime_secs` seconds, less than a minute short.
pub open spec fn reads_as_uptime(t: Seq<char>, i: int, uptime_secs: u64) -> bool {
    let hours = t.subrange(0, i);
    let minutes = t.subrange(i + 2, t.len() - 1);
    &&& 0 < i && i + 2 < t.len() - 1
    &&& t[i] == 'h' && t[i + 1] == ' ' && t[t.len() - 1] == 'm'
    &&& all_digits(hours) && all_digits(minutes)
    &&& digits_value(minutes) < 60
    &&& digits_value(hours) * 3600 + digits_value(minutes) * 60 <= uptime_secs
    &&& uptime_secs < digits_value(hours) * 3600 + digits_value(minutes) * 60 + 60
}

/// Law: the uptime line reads back as the uptime: it is whole hours, `"h "`,
/// whole minutes below 60 and `"m"`, together at most the uptime and less
/// than a minute short of it.
pub proof fn lemma_uptime_text_reads_back(uptime_secs: u64)
    ensures
        exists|i: int| #[trigger] reads_as_uptime(uptime_text(uptime_secs), i, uptime_secs),
{
    let h = (uptime_secs / 3600) as nat;
    let m = ((uptime_secs % 3600) / 60) as nat;
    lemma_decimal_digits(h);
    lemma_decimal_digits(m);
    let t = uptime_text(uptime_secs);
    let i = decimal(h).len() as int;
    assert(t =~= decimal(h) + seq!['h', ' '] + decimal(m) + seq!['m']);
    assert(t.subrange(0, i) =~= decimal(h));
    assert(t.subrange(i + 2, t.len() - 1) =~= decimal(m));
    assert(t[i] == 'h' && t[i + 1] == ' ' && t[t.len() - 1] == 'm');
    assert(reads_as_uptime(t, i, uptime_secs));
}

} // verus!
