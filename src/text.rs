//! Numbers and flags written out as text, the way dumps write them.

use crate::amount::{Amount, UNIT};
use vstd::prelude::*;

verus! {

/// The decimal digit of `d`.
pub open spec fn digit_char(d: nat) -> char {
    if d < 10 {
        ((48 + d) as u8) as char
    } else {
        '?'
    }
}

/// The decimal digits of `n`, most significant first, without leading zeros
/// (zero is `0`).
pub open spec fn digits_of(n: nat) -> Seq<char>
    decreases n,
{
    if n < 10 {
        seq![digit_char(n)]
    } else {
        digits_of(n / 10).push(digit_char(n % 10))
    }
}

/// The four digits of `n`, zero-padded on the left.
pub open spec fn four_digits(n: nat) -> Seq<char> {
    seq![
        digit_char((n / 1000) % 10),
        digit_char((n / 100) % 10),
        digit_char((n / 10) % 10),
        digit_char(n % 10),
    ]
}

/// An amount of `v` ten-thousandths written with exactly four fractional
/// digits: `-` for a negative amount, the whole part, `.`, the fraction.
pub open spec fn amount_text(v: int) -> Seq<char> {
    let m = if v < 0 {
        -v
    } else {
        v
    };
    let sign = if v < 0 {
        seq!['-']
    } else {
        Seq::<char>::empty()
    };
    sign + digits_of((m / 10000) as nat) + seq!['.'] + four_digits((m % 10000) as nat)
}

/// A flag written as `true` or `false`.
pub open spec fn flag_text(b: bool) -> Seq<char> {
    if b {
        seq!['t', 'r', 'u', 'e']
    } else {
        seq!['f', 'a', 'l', 's', 'e']
    }
}

fn digit(d: u128) -> (r: char)
    requires
        d < 10,
    ensures
        r == digit_char(d as nat),
{
    ((48 + d) as u8) as char
}

/// Relies on `String::from_iter` over `char`s: the string holds exactly
/// those characters, in order.
#[verifier::external_body]
fn string_of_chars(cs: &Vec<char>) -> (r: String)
    ensures
        r@ == cs@,
{
    cs.iter().collect::<String>()
}

/// Appends the digits of `n` to `out`.
fn push_digits(out: &mut Vec<char>, n: u128)
    ensures
        final(out)@ == old(out)@ + digits_of(n as nat),
    decreases n,
{
    if n < 10 {
        out.push(digit(n));
        proof {
            assert(digits_of(n as nat) == seq![digit_char(n as nat)]);
        }
    } else {
        push_digits(out, n / 10);
        out.push(digit(n % 10));
        proof {
            assert(old(out)@ + digits_of(n as nat) =~= old(out)@ + digits_of((n / 10) as nat) + seq![
                digit_char((n % 10) as nat),
            ]);
        }
    }
}

/// The decimal text of `n`.
pub fn unsigned_text(n: u128) -> (r: String)
    ensures
        r@ == digits_of(n as nat),
{
    let mut cs: Vec<char> = Vec::new();
    push_digits(&mut cs, n);
    proof {
        assert(cs@ =~= digits_of(n as nat));
    }
    string_of_chars(&cs)
}

/// `true` or `false`.
pub fn flag_to_text(b: bool) -> (r: String)
    ensures
        r@ == flag_text(b),
{
    let mut cs: Vec<char> = Vec::new();
    if b {
        cs.push('t');
        cs.push('r');
        cs.push('u');
        cs.push('e');
    } else {
        cs.push('f');
        cs.push('a');
        cs.push('l');
        cs.push('s');
        cs.push('e');
    }
    proof {
        assert(cs@ =~= flag_text(b));
    }
    string_of_chars(&cs)
}

impl Amount {
    /// The amount with exactly four fractional digits, such as `-5.0000`.
    pub fn to_text(&self) -> (r: String)
        ensures
            r@ == amount_text(self@),
    {
        let u = self.units();
        let neg = u < 0;
        let m: u128 = if neg {
            (-u) as u128
        } else {
            u as u128
        };
        let mut cs: Vec<char> = Vec::new();
        if neg {
            cs.push('-');
        }
        let ghost sign = cs@;
        push_digits(&mut cs, m / (UNIT as u128));
        cs.push('.');
        let f = m % (UNIT as u128);
        cs.push(digit((f / 1000) % 10));
        cs.push(digit((f / 100) % 10));
        cs.push(digit((f / 10) % 10));
        cs.push(digit(f % 10));
        proof {
            assert(cs@ =~= amount_text(self@));
        }
        string_of_chars(&cs)
    }
}

} // verus!
