//! Numbers as decimal text.

use crate::fixed::Fixed;
use crate::vec3::Vec3;
use vstd::prelude::*;
use vstd::string::*;

verus! {

/// The character of the digit `d`.
pub open spec fn digit(d: int) -> char {
    if d == 0 {
        '0'
    } else if d == 1 {
        '1'
    } else if d == 2 {
        '2'
    } else if d == 3 {
        '3'
    } else if d == 4 {
        '4'
    } else if d == 5 {
        '5'
    } else if d == 6 {
        '6'
    } else if d == 7 {
        '7'
    } else if d == 8 {
        '8'
    } else {
        '9'
    }
}

/// The decimal digits of `n`, without leading zeros.
pub open spec fn decimal(n: nat) -> Seq<char>
    decreases n,
{
    if n < 10 {
        seq![digit(n as int)]
    } else {
        decimal(n / 10).push(digit((n % 10) as int))
    }
}

/// The decimal text of `v`, with a minus sign where it is negative.
pub open spec fn signed(v: int) -> Seq<char> {
    if v < 0 {
        seq!['-'] + decimal((-v) as nat)
    } else {
        decimal(v as nat)
    }
}

/// The last `places` decimal digits of `n`, with zeros in front where `n`
/// has fewer.
pub open spec fn padded(n: nat, places: nat) -> Seq<char>
    decreases places,
{
    if places == 0 {
        Seq::empty()
    } else {
        padded(n / 10, (places - 1) as nat).push(digit((n % 10) as int))
    }
}

/// The decimal text of a fixed-point number: a minus sign where it is
/// negative, the whole part, a point, and five digits after it.
pub open spec fn fixed_text(c: Fixed) -> Seq<char> {
    let m = if c@ < 0 {
        (-c@) as nat
    } else {
        c@ as nat
    };
    let sign = if c@ < 0 {
        seq!['-']
    } else {
        Seq::empty()
    };
    sign + decimal(m / 100_000).push('.') + padded(m % 100_000, 5)
}

/// The text of a vector: its three components with a space between them.
pub open spec fn vec3_text(v: Vec3) -> Seq<char> {
    fixed_text(v.0).push(' ') + fixed_text(v.1).push(' ') + fixed_text(v.2)
}

/// The text of the digit `d`.
pub(crate) fn digit_text(d: u8) -> (res: &'static str)
    requires
        d < 10,
    ensures
        res@ == seq![digit(d as int)],
{
    proof {
        reveal_strlit("0");
        reveal_strlit("1");
        reveal_strlit("2");
        reveal_strlit("3");
        reveal_strlit("4");
        reveal_strlit("5");
        reveal_strlit("6");
        reveal_strlit("7");
        reveal_strlit("8");
        reveal_strlit("9");
    }
    let res = if d == 0 {
        "0"
    } else if d == 1 {
        "1"
    } else if d == 2 {
        "2"
    } else if d == 3 {
        "3"
    } else if d == 4 {
        "4"
    } else if d == 5 {
        "5"
    } else if d == 6 {
        "6"
    } else if d == 7 {
        "7"
    } else if d == 8 {
        "8"
    } else {
        "9"
    };
    assert(res@ =~= seq![digit(d as int)]);
    res
}

/// Writes the decimal digits of `n` at the end of `out`.
pub(crate) fn append_decimal(out: &mut String, n: u64)
    ensures
        final(out)@ == old(out)@ + decimal(n as nat),
    decreases n,
{
    if n >= 10 {
        append_decimal(out, n / 10);
    }
    out.append(digit_text((n % 10) as u8));
    assert(out@ =~= old(out)@ + decimal(n as nat));
}

/// Writes the decimal text of `v` at the end of `out`.
pub(crate) fn append_signed(out: &mut String, v: i64)
    requires
        v > i64::MIN,
    ensures
        final(out)@ == old(out)@ + signed(v as int),
{
    if v < 0 {
        proof {
            reveal_strlit("-");
        }
        out.append("-");
        append_decimal(out, (-v) as u64);
    } else {
        append_decimal(out, v as u64);
    }
    assert(out@ =~= old(out)@ + signed(v as int));
}

/// Writes the last `places` decimal digits of `n` at the end of `out`.
fn append_padded(out: &mut String, n: u64, places: u8)
    ensures
        final(out)@ == old(out)@ + padded(n as nat, places as nat),
    decreases places,
{
    if places > 0 {
        append_padded(out, n / 10, places - 1);
        out.append(digit_text((n % 10) as u8));
    }
    assert(out@ =~= old(out)@ + padded(n as nat, places as nat));
}

/// Writes the decimal text of `c` at the end of `out`.
fn append_fixed(out: &mut String, c: Fixed)
    ensures
        final(out)@ == old(out)@ + fixed_text(c),
{
    proof {
        reveal_strlit("-");
        reveal_strlit(".");
    }
    let v: i64 = c.raw() as i64;
    let m: u64 = if v < 0 {
        out.append("-");
        (-v) as u64
    } else {
        v as u64
    };
    append_decimal(out, m / 100_000);
    out.append(".");
    append_padded(out, m % 100_000, 5);
    assert(out@ =~= old(out)@ + fixed_text(c));
}

impl Fixed {
    /// The number in decimal, with five digits after the point.
    pub fn to_string(&self) -> (res: String)
        ensures
            res@ == fixed_text(*self),
    {
        let mut out = String::new();
        append_fixed(&mut out, *self);
        assert(out@ =~= fixed_text(*self));
        out
    }
}

impl Vec3 {
    /// The three components in decimal, with a space between them.
    pub fn to_string(&self) -> (res: String)
        ensures
            res@ == vec3_text(*self),
    {
        proof {
            reveal_strlit(" ");
        }
        let mut out = String::new();
        append_fixed(&mut out, self.0);
        out.append(" ");
        append_fixed(&mut out, self.1);
        out.append(" ");
        append_fixed(&mut out, self.2);
        assert(out@ =~= vec3_text(*self));
        out
    }
}

} // verus!
