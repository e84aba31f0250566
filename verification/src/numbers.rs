//! Decimal rendering of list-item numbers and the right-aligned `Distinct`
//! list markers.

use vstd::prelude::*;

use crate::reflow::space_run;
use crate::trusted::push_char;

verus! {

/// The digit character for `d` in `0 ..= 9`.
pub open spec fn dec_digit(d: nat) -> char {
    if d == 0 {
        '0'
    } else if d == 1 {
        '1'
    } else if d == 2 {
        '2'
    } else if d == 3 {
        '3'
    } else if d == 4 {
        '4'
    } else if d == 5 {
        '5'
    } else if d == 6 {
        '6'
    } else if d == 7 {
        '7'
    } else if d == 8 {
        '8'
    } else {
        '9'
    }
}

/// `n` in decimal, most significant digit first, no leading zeroes.
pub open spec fn dec_seq(n: nat) -> Seq<char>
    decreases n,
{
    if n < 10 {
        seq![dec_digit(n)]
    } else {
        dec_seq(n / 10).push(dec_digit(n % 10))
    }
}

/// How many digits `n` has in decimal.
pub open spec fn num_digits(n: nat) -> nat {
    dec_seq(n).len()
}

/// `s` padded on the left with spaces to width `w`.
pub open spec fn pad_left(s: Seq<char>, w: nat) -> Seq<char> {
    if s.len() >= w {
        s
    } else {
        space_run((w - s.len()) as nat) + s
    }
}

/// The marker of item number `count` in a `Distinct` list whose markers are
/// right-aligned to `w` digit columns.
pub open spec fn distinct_marker_seq(count: nat, w: nat) -> Seq<char> {
    pad_left(dec_seq(count), w) + ". "@
}

fn dec_digit_char(d: usize) -> (r: char)
    requires
        d < 10,
    ensures
        r == dec_digit(d as nat),
{
    if d == 0 {
        '0'
    } else if d == 1 {
        '1'
    } else if d == 2 {
        '2'
    } else if d == 3 {
        '3'
    } else if d == 4 {
        '4'
    } else if d == 5 {
        '5'
    } else if d == 6 {
        '6'
    } else if d == 7 {
        '7'
    } else if d == 8 {
        '8'
    } else {
        '9'
    }
}

/// The decimal digits of `n`, most significant first.
pub fn dec_chars(n: usize) -> (r: Vec<char>)
    ensures
        r@ == dec_seq(n as nat),
{
    let mut digits: Vec<char> = Vec::new();
    let mut m: usize = n;
    while m >= 10
        invariant
            dec_seq(n as nat) == dec_seq(m as nat) + digits@.reverse(),
        decreases m,
    {
        digits.push(dec_digit_char(m % 10));
        proof {
            assert(dec_seq((m / 10) as nat) + digits@.reverse() =~= dec_seq(m as nat)
                + digits@.drop_last().reverse());
        }
        m = m / 10;
    }
    digits.push(dec_digit_char(m));
    proof {
        assert(dec_seq(m as nat) + digits@.drop_last().reverse() =~= digits@.reverse());
    }
    let n2 = digits.len();
    let mut r: Vec<char> = Vec::new();
    let mut i: usize = n2;
    while i > 0
        invariant
            i <= n2,
            n2 == digits@.len(),
            r@ == digits@.subrange(i as int, n2 as int).reverse(),
        decreases i,
    {
        i = i - 1;
        r.push(digits[i]);
        proof {
            assert(r@ =~= digits@.subrange(i as int, n2 as int).reverse());
        }
    }
    proof {
        assert(digits@.subrange(0, n2 as int) =~= digits@);
    }
    r
}

/// The marker `"<count>. "`, right-aligned so the number sits in `width`
/// columns.
pub fn distinct_marker(count: usize, width: usize) -> (r: String)
    ensures
        r@ == distinct_marker_seq(count as nat, width as nat),
{
    let d = dec_chars(count);
    let dn = d.len();
    let pad: usize = if dn >= width {
        0
    } else {
        width - dn
    };
    let mut r = String::new();
    let mut i: usize = 0;
    while i < pad
        invariant
            i <= pad,
            r@ == space_run(i as nat),
        decreases pad - i,
    {
        push_char(&mut r, ' ');
        i = i + 1;
        proof {
            assert(r@ =~= space_run(i as nat));
        }
    }
    let mut j: usize = 0;
    while j < dn
        invariant
            j <= dn,
            dn == d@.len(),
            r@ == space_run(pad as nat) + d@.subrange(0, j as int),
        decreases dn - j,
    {
        push_char(&mut r, d[j]);
        j = j + 1;
        proof {
            assert(r@ =~= space_run(pad as nat) + d@.subrange(0, j as int));
        }
    }
    r.append(". ");
    proof {
        assert(d@.subrange(0, dn as int) =~= d@);
        assert(r@ =~= distinct_marker_seq(count as nat, width as nat));
    }
    r
}

/// How many columns the number of item `count` takes in decimal.
pub fn dec_width(n: usize) -> (r: usize)
    ensures
        r as nat == num_digits(n as nat),
{
    dec_chars(n).len()
}

} // verus!
