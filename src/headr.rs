use vstd::prelude::*;
use vstd::string::StrSliceExecFns;

verus! {

/// The inputs to print (`-` for standard input) and how much of each: a
/// number of lines, or a number of bytes when one is given.
#[derive(Debug)]
pub struct Config {
    pub files: Vec<String>,
    pub lines: usize,
    pub bytes: Option<usize>,
}

/// An ASCII decimal digit.
pub open spec fn is_digit(c: char) -> bool {
    48 <= c as u32 <= 57
}

/// The value of a string of decimal digits, most significant first.
pub open spec fn digits_value(s: Seq<char>) -> nat
    decreases s.len(),
{
    if s.len() == 0 {
        0
    } else {
        digits_value(s.drop_last()) * 10 + (s.last() as u32 - 48) as nat
    }
}

/// The digits of a number written with an optional leading `+`.
pub open spec fn unsigned_part(s: Seq<char>) -> Seq<char> {
    if s.len() > 0 && s[0] == '+' {
        s.drop_first()
    } else {
        s
    }
}

/// The value of `s` read as an unsigned decimal number, as `str::parse`
/// reads one: an optional `+` and then one or more digits, nothing else.
pub open spec fn decimal_value(s: Seq<char>) -> Option<nat> {
    let d = unsigned_part(s);
    if d.len() > 0 && (forall|i: int| 0 <= i < d.len() ==> #[trigger] is_digit(d[i])) {
        Some(digits_value(d))
    } else {
        None
    }
}

/// `s` is a decimal number from one to the largest `usize`.
pub open spec fn is_positive_int(s: Seq<char>) -> bool {
    decimal_value(s) is Some && 0 < decimal_value(s)->0 <= usize::MAX
}

proof fn lemma_digits_value_grows(s: Seq<char>, k: int)
    requires
        0 <= k <= s.len(),
        forall|i: int| 0 <= i < s.len() ==> #[trigger] is_digit(s[i]),
    ensures
        digits_value(s.take(k)) <= digits_value(s),
    decreases s.len(),
{
    if k < s.len() {
        let d = s.drop_last();
        assert(d.take(k) =~= s.take(k));
        assert forall|i: int| 0 <= i < d.len() implies #[trigger] is_digit(d[i]) by {
            assert(is_digit(s[i]));
        }
        lemma_digits_value_grows(d, k);
        assert(digits_value(d) <= digits_value(d) * 10) by (nonlinear_arith);
    } else {
        assert(s.take(k) =~= s);
    }
}

/// Reads a positive count. On anything but a decimal number from one to the
/// largest `usize`, the error holds the text that was given.
pub fn parse_positive_int(val: &str) -> (r: Result<usize, String>)
    ensures
        match r {
            Ok(n) => decimal_value(val@) == Some(n as nat) && n > 0,
            Err(e) => e@ == val@ && !is_positive_int(val@),
        },
{
    let ghost s = val@;
    let n = val.unicode_len();
    let start: usize = if n > 0 && val.get_char(0) == '+' {
        1
    } else {
        0
    };
    let ghost d = unsigned_part(s);
    proof {
        assert(d =~= s.subrange(start as int, n as int));
    }
    if start == n {
        return Err(val.to_owned());
    }
    let mut value: usize = 0;
    let mut i: usize = start;
    while i < n
        invariant
            n == s.len(),
            s == val@,
            d == unsigned_part(s),
            start <= i <= n,
            d == s.subrange(start as int, n as int),
            forall|j: int| 0 <= j < i - start ==> #[trigger] is_digit(d[j]),
            value == digits_value(d.take(i - start)),
        decreases n - i,
    {
        let c = val.get_char(i);
        let u = c as u32;
        if u < 48 || u > 57 {
            proof {
                assert(!is_digit(d[i - start]));
            }
            return Err(val.to_owned());
        }
        let dv = (u - 48) as usize;
        proof {
            assert(d.take(i - start + 1).drop_last() =~= d.take(i - start));
        }
        if value > (usize::MAX - dv) / 10 {
            proof {
                if decimal_value(s) is Some {
                    lemma_digits_value_grows(d, i - start + 1);
                }
            }
            return Err(val.to_owned());
        }
        value = value * 10 + dv;
        i = i + 1;
    }
    proof {
        assert(d.take(i - start) =~= d);
    }
    if value == 0 {
        Err(val.to_owned())
    } else {
        Ok(value)
    }
}

} // verus!
