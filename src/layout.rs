use vstd::prelude::*;
use vstd::string::StringExecFns;

verus! {

/// The character of a decimal digit.
pub open spec fn digit_char(d: nat) -> char {
    seq!['0', '1', '2', '3', '4', '5', '6', '7', '8', '9'][(d % 10) as int]
}

/// The decimal digits of `n`, most significant first, without leading zeros.
pub open spec fn decimal(n: nat) -> Seq<char>
    decreases n,
{
    if n < 10 {
        seq![digit_char(n)]
    } else {
        decimal(n / 10).push(digit_char(n % 10))
    }
}

/// `s` with spaces before it up to `width` characters; `s` itself when it is
/// already that long.
pub open spec fn pad_left(s: Seq<char>, width: nat) -> Seq<char> {
    if s.len() >= width {
        s
    } else {
        Seq::new((width - s.len()) as nat, |i: int| ' ') + s
    }
}

/// Relies on std's integer formatting (`{:>width$}`): the decimal digits of
/// `n`, right-aligned with spaces in a field of `width` characters. A width
/// argument above 65535 panics, so it is left out.
#[verifier::external_body]
pub(crate) fn right_aligned(n: usize, width: usize) -> (r: String)
    requires
        width <= 65535,
    ensures
        r@ == pad_left(decimal(n as nat), width as nat),
{
    format!("{:>1$}", n, width)
}

/// A diagnostic about one input: its name, a colon and a space, and the reason.
pub fn diagnostic(name: &str, reason: &str) -> (r: String)
    ensures
        r@ == name@ + seq![':', ' '] + reason@,
{
    let mut out = String::from_str(name);
    proof {
        reveal_strlit(": ");
    }
    out.append(": ");
    out.append(reason);
    proof {
        assert(out@ =~= name@ + seq![':', ' '] + reason@);
    }
    out
}

} // verus!
