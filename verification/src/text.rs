//! Decimal rendering of the interpreter's integers.

use vstd::prelude::*;
use vstd::std_specs::iter::IteratorSpec;

verus! {

/// Relies on the standard library's String::push: appends the character to
/// the end of the string.
pub assume_specification[ std::string::String::push ](s: &mut String, c: char)
    ensures
        final(s)@ == old(s)@.push(c),
;

/// The character for one decimal digit.
pub open spec fn digit_char(d: nat) -> char {
    if d == 0 {
        '0'
    } else if d == 1 {
        '1'
    } else if d == 2 {
        '2'
    } else if d == 3 {
        '3'
    } else if d == 4 {
        '4'
    } else if d == 5 {
        '5'
    } else if d == 6 {
        '6'
    } else if d == 7 {
        '7'
    } else if d == 8 {
        '8'
    } else {
        '9'
    }
}

/// Decimal digits of a natural number, most significant first.
pub open spec fn dec_of_nat(n: nat) -> Seq<char>
    decreases n,
{
    if n < 10 {
        seq![digit_char(n)]
    } else {
        dec_of_nat(n / 10).push(digit_char(n % 10))
    }
}

/// Decimal rendering of a signed integer: a minus sign before the digits of
/// its magnitude.
pub open spec fn dec_of_int(i: i64) -> Seq<char> {
    if i >= 0 {
        dec_of_nat(i as nat)
    } else {
        seq!['-'] + dec_of_nat((-(i as int)) as nat)
    }
}

fn push_digit_char(s: &mut String, d: u64)
    requires
        d < 10,
    ensures
        final(s)@ == old(s)@.push(digit_char(d as nat)),
{
    let c: char = if d == 0 {
        '0'
    } else if d == 1 {
        '1'
    } else if d == 2 {
        '2'
    } else if d == 3 {
        '3'
    } else if d == 4 {
        '4'
    } else if d == 5 {
        '5'
    } else if d == 6 {
        '6'
    } else if d == 7 {
        '7'
    } else if d == 8 {
        '8'
    } else {
        '9'
    };
    s.push(c);
}

proof fn lemma_dec_of_nat_unfold(n: nat)
    requires
        n >= 10,
    ensures
        dec_of_nat(n) == dec_of_nat(n / 10) + seq![digit_char(n % 10)],
{
    assert(dec_of_nat(n) == dec_of_nat(n / 10).push(digit_char(n % 10)));
    assert(dec_of_nat(n / 10).push(digit_char(n % 10)) =~= dec_of_nat(n / 10) + seq![
        digit_char(n % 10),
    ]);
}

/// Appends the decimal digits of `n` to `s`.
pub fn push_dec_of_u64(s: &mut String, n: u64)
    ensures
        final(s)@ == old(s)@ + dec_of_nat(n as nat),
    decreases n,
{
    if n < 10 {
        push_digit_char(s, n);
        assert(old(s)@.push(digit_char(n as nat)) =~= old(s)@ + dec_of_nat(n as nat));
    } else {
        let q: u64 = n / 10;
        let r: u64 = n % 10;
        push_dec_of_u64(s, q);
        push_digit_char(s, r);
        proof {
            lemma_dec_of_nat_unfold(n as nat);
            assert((old(s)@ + dec_of_nat(q as nat)).push(digit_char(r as nat)) =~= old(s)@ + (
            dec_of_nat(q as nat) + seq![digit_char(r as nat)]));
        }
    }
}

/// Appends the decimal rendering of `i` to `s`.
pub fn push_dec_of_i64(s: &mut String, i: i64)
    ensures
        final(s)@ == old(s)@ + dec_of_int(i),
{
    if i >= 0 {
        push_dec_of_u64(s, i as u64);
    } else {
        s.push('-');
        let m: u64 = ((0 as i128) - (i as i128)) as u64;
        push_dec_of_u64(s, m);
        assert((old(s)@.push('-')) + dec_of_nat(m as nat) =~= old(s)@ + (seq!['-'] + dec_of_nat(
            (-(i as int)) as nat,
        )));
    }
}

/// The characters of a string slice, in order, as a vector.
pub fn chars_of(s: &str) -> (v: Vec<char>)
    ensures
        v@ == s@,
{
    let mut it = s.chars();
    let mut v: Vec<char> = Vec::new();
    loop
        invariant
            it.obeys_prophetic_iter_laws(),
            v@ + it.remaining() == s@,
        decreases s@.len() - v@.len(),
    {
        let ghost prev_v = v@;
        let ghost prev_rem = it.remaining();
        match it.next() {
            Some(c) => {
                v.push(c);
                assert(prev_v.push(c) + prev_rem.drop_first() =~= prev_v + prev_rem);
            },
            None => {
                assert(v@ =~= s@);
                return v;
            },
        }
    }
}

/// The number of characters in a string slice.
pub fn str_char_len(s: &str) -> (n: usize)
    ensures
        n == s@.len(),
{
    let v = chars_of(s);
    v.len()
}

/// A string holding exactly the given characters.
pub fn string_of_chars(v: &Vec<char>) -> (s: String)
    ensures
        s@ == v@,
{
    let mut s = String::new();
    let mut i: usize = 0;
    while i < v.len()
        invariant
            i <= v@.len(),
            s@ == v@.subrange(0, i as int),
        decreases v@.len() - i,
    {
        s.push(v[i]);
        assert(v@.subrange(0, i as int).push(v@[i as int]) =~= v@.subrange(0, i + 1));
        i = i + 1;
    }
    assert(v@.subrange(0, v@.len() as int) =~= v@);
    s
}

/// Decimal rendering of `i` as a fresh string.
pub fn i64_to_text(i: i64) -> (r: String)
    ensures
        r@ == dec_of_int(i),
{
    let mut s = String::new();
    push_dec_of_i64(&mut s, i);
    assert(Seq::<char>::empty() + dec_of_int(i) =~= dec_of_int(i));
    s
}

} // verus!
