//! Session token formatting: `sess_<start-time>_<random-suffix>`, both
//! numbers in decimal. The clock reading and the random suffix come from the
//! caller; only the formatting is done here.

use vstd::prelude::*;
use vstd::string::StringExecFns;

verus! {

/// The decimal digit character for a value below ten.
pub open spec fn digit_char(d: int) -> char {
    if d == 0 {
        '0'
    } else if d == 1 {
        '1'
    } else if d == 2 {
        '2'
    } else if d == 3 {
        '3'
    } else if d == 4 {
        '4'
    } else if d == 5 {
        '5'
    } else if d == 6 {
        '6'
    } else if d == 7 {
        '7'
    } else if d == 8 {
        '8'
    } else {
        '9'
    }
}

/// The decimal digits of `n`, most significant first, without leading
/// zeroes (a single zero digit for zero).
pub open spec fn dec_chars(n: nat) -> Seq<char>
    decreases n,
{
    if n < 10 {
        seq![digit_char(n as int)]
    } else {
        dec_chars(n / 10).push(digit_char((n % 10) as int))
    }
}

/// The characters of the session token for a start time and a suffix.
pub open spec fn token_chars(now_ms: u64, suffix: u64) -> Seq<char> {
    "sess_"@ + dec_chars(now_ms as nat) + "_"@ + dec_chars(suffix as nat)
}

/// Append the digit character of a value below ten.
fn append_digit(out: &mut String, d: u64)
    requires
        d < 10,
    ensures
        final(out)@ == old(out)@ + seq![digit_char(d as int)],
{
    proof {
        reveal_strlit("0");
        reveal_strlit("1");
        reveal_strlit("2");
        reveal_strlit("3");
        reveal_strlit("4");
        reveal_strlit("5");
        reveal_strlit("6");
        reveal_strlit("7");
        reveal_strlit("8");
        reveal_strlit("9");
    }
    match d {
        0 => out.append("0"),
        1 => out.append("1"),
        2 => out.append("2"),
        3 => out.append("3"),
        4 => out.append("4"),
        5 => out.append("5"),
        6 => out.append("6"),
        7 => out.append("7"),
        8 => out.append("8"),
        _ => out.append("9"),
    }
    proof {
        assert(out@ =~= old(out)@ + seq![digit_char(d as int)]);
    }
}

/// `n` in decimal.
pub fn u64_to_dec(n: u64) -> (r: String)
    ensures
        r@ == dec_chars(n as nat),
    decreases n,
{
    if n < 10 {
        let mut s = String::new();
        append_digit(&mut s, n);
        proof {
            assert(s@ =~= dec_chars(n as nat));
        }
        s
    } else {
        let mut s = u64_to_dec(n / 10);
        append_digit(&mut s, n % 10);
        proof {
            assert(s@ =~= dec_chars(n as nat));
        }
        s
    }
}

/// The session token for a start time and a random suffix.
pub fn make_session_token(now_ms: u64, suffix: u64) -> (r: String)
    ensures
        r@ == token_chars(now_ms, suffix),
{
    let mut s = String::from_str("sess_");
    let head = u64_to_dec(now_ms);
    s.append(head.as_str());
    s.append("_");
    let tail = u64_to_dec(suffix);
    s.append(tail.as_str());
    s
}

} // verus!
