use crate::ast::Number;
use vstd::prelude::*;

verus! {

pub open spec fn digit_char(d: nat) -> char {
    if d == 0 { '0' }
    else if d == 1 { '1' }
    else if d == 2 { '2' }
    else if d == 3 { '3' }
    else if d == 4 { '4' }
    else if d == 5 { '5' }
    else if d == 6 { '6' }
    else if d == 7 { '7' }
    else if d == 8 { '8' }
    else { '9' }
}

/// The decimal digits of `n`, most significant first, without leading zeros.
pub open spec fn nat_digits(n: nat) -> Seq<char>
    decreases n,
{
    if n < 10 {
        seq![digit_char(n)]
    } else {
        nat_digits(n / 10) + seq![digit_char(n % 10)]
    }
}

/// `n` zeros.
pub open spec fn zeros(n: nat) -> Seq<char> {
    Seq::new(n, |_i: int| '0')
}

/// The decimal text of a magnitude with `scale` digits after the point.
pub open spec fn scaled_text(digits: Seq<char>, scale: nat) -> Seq<char> {
    if scale == 0 {
        digits
    } else if digits.len() > scale {
        digits.take(digits.len() - scale) + seq!['.'] + digits.skip(digits.len() - scale)
    } else {
        seq!['0', '.'] + zeros((scale - digits.len()) as nat) + digits
    }
}

pub open spec fn abs_nat(m: int) -> nat {
    if m < 0 { (-m) as nat } else { m as nat }
}

/// The decimal text of a number: a minus sign when negative, the digits of
/// its magnitude, and `scale` digits after a point.
pub open spec fn number_text(n: Number) -> Seq<char> {
    let body = scaled_text(nat_digits(abs_nat(n.mantissa as int)), n.scale as nat);
    if n.mantissa < 0 {
        seq!['-'] + body
    } else {
        body
    }
}

pub open spec fn int_text(n: int) -> Seq<char> {
    if n < 0 {
        seq!['-'] + nat_digits(abs_nat(n))
    } else {
        nat_digits(abs_nat(n))
    }
}

fn digit_text(d: u64) -> (r: String)
    requires
        d < 10,
    ensures
        r@ == seq![digit_char(d as nat)],
{
    let all = "0123456789";
    proof {
        reveal_strlit("0123456789");
    }
    let r = String::from_str(all.substring_char(d as usize, d as usize + 1));
    assert(r@ =~= seq![digit_char(d as nat)]);
    r
}

/// The decimal digits of `n`.
pub fn nat_text(n: u64) -> (r: String)
    ensures
        r@ == nat_digits(n as nat),
    decreases n,
{
    if n < 10 {
        digit_text(n)
    } else {
        let mut s = nat_text(n / 10);
        let d = digit_text(n % 10);
        s.append(d.as_str());
        s
    }
}

fn magnitude(m: i64) -> (r: u64)
    ensures
        r as nat == abs_nat(m as int),
{
    if m < 0 {
        (-(m as i128)) as u64
    } else {
        m as u64
    }
}

/// The decimal text of a signed integer.
pub fn i64_text(n: i64) -> (r: String)
    ensures
        r@ == int_text(n as int),
{
    let digits = nat_text(magnitude(n));
    if n < 0 {
        let mut s = String::from_str("-");
        proof {
            reveal_strlit("-");
        }
        s.append(digits.as_str());
        s
    } else {
        digits
    }
}

fn zeros_text(n: u32) -> (r: String)
    ensures
        r@ == zeros(n as nat),
{
    let mut s = String::new();
    let mut i: u32 = 0;
    proof {
        reveal_strlit("0");
    }
    while i < n
        invariant
            i <= n,
            s@ == zeros(i as nat),
        decreases n - i,
    {
        proof {
            reveal_strlit("0");
        }
        s.append("0");
        assert(s@ =~= zeros((i + 1) as nat));
        i = i + 1;
    }
    s
}

impl Number {
    /// Whether this number is zero.
    pub fn is_zero(&self) -> (r: bool)
        ensures
            r == (self.mantissa == 0),
    {
        self.mantissa == 0
    }

    /// The decimal text of this number.
    pub fn to_text(&self) -> (r: String)
        ensures
            r@ == number_text(*self),
    {
        let digits = nat_text(magnitude(self.mantissa));
        let len = digits.unicode_len();
        let mut out = if self.mantissa < 0 {
            proof {
                reveal_strlit("-");
            }
            String::from_str("-")
        } else {
            String::new()
        };
        let ghost pre = out@;
        let ghost d = digits@;
        let sc = self.scale;
        if sc == 0 {
            out.append(digits.as_str());
        } else if len as u64 > sc as u64 {
            let cut: usize = len - sc as usize;
            out.append(digits.as_str().substring_char(0, cut));
            proof {
                reveal_strlit(".");
            }
            out.append(".");
            out.append(digits.as_str().substring_char(cut, len));
            assert(out@ =~= pre + (d.take(d.len() - sc) + seq!['.'] + d.skip(d.len() - sc)));
        } else {
            proof {
                reveal_strlit("0.");
            }
            out.append("0.");
            let z = zeros_text(sc - len as u32);
            out.append(z.as_str());
            out.append(digits.as_str());
            assert(out@ =~= pre + (seq!['0', '.'] + zeros((sc - d.len()) as nat) + d));
        }
        assert(out@ =~= number_text(*self));
        out
    }
}

} // verus!
