use vstd::prelude::*;
use vstd::arithmetic::div_mod::lemma_fundamental_div_mod_converse;

verus! {

pub open spec fn is_digit(c: char) -> bool {
    '0' <= c && c <= '9'
}

pub open spec fn all_digits(s: Seq<char>) -> bool {
    forall|k: int| 0 <= k < s.len() ==> is_digit(s[k])
}

pub open spec fn digit_value(c: char) -> int {
    (c as u32) as int - ('0' as u32) as int
}

/// The decimal value of a run of digits, most significant first.
pub open spec fn digits_value(s: Seq<char>) -> int
    decreases s.len(),
{
    if s.len() == 0 {
        0
    } else {
        10 * digits_value(s.drop_last()) + digit_value(s.last())
    }
}

/// A decimal integer: an optional `+` or `-`, then one digit or more.
pub open spec fn integer_value(s: Seq<char>) -> Option<int> {
    if s.len() > 0 && (s[0] == '-' || s[0] == '+') {
        let d = s.skip(1);
        if d.len() > 0 && all_digits(d) {
            Some(
                if s[0] == '-' {
                    -digits_value(d)
                } else {
                    digits_value(d)
                },
            )
        } else {
            None
        }
    } else if s.len() > 0 && all_digits(s) {
        Some(digits_value(s))
    } else {
        None
    }
}

/// A decimal integer that fits an `i32`.
pub open spec fn i32_value(s: Seq<char>) -> Option<int> {
    match integer_value(s) {
        Some(v) => if i32::MIN <= v <= i32::MAX {
            Some(v)
        } else {
            None
        },
        None => None,
    }
}

proof fn lemma_digits_grow(s: Seq<char>, k: int)
    requires
        all_digits(s),
        0 <= k <= s.len(),
    ensures
        0 <= digits_value(s.take(k)) <= digits_value(s),
    decreases s.len(),
{
    if s.len() > 0 {
        let t = s.drop_last();
        assert(all_digits(t));
        assert(is_digit(s.last()));
        if k == s.len() {
            assert(s.take(k) =~= s);
            lemma_digits_grow(t, t.len() as int);
            assert(t.take(t.len() as int) =~= t);
        } else {
            lemma_digits_grow(t, k);
            assert(t.take(k) =~= s.take(k));
            lemma_digits_grow(t, t.len() as int);
            assert(t.take(t.len() as int) =~= t);
        }
    } else {
        assert(s.take(k) =~= s);
    }
}

/// Parses `s[from..]` as a decimal `i32`.
pub fn parse_i32_from(s: &Vec<char>, from: usize) -> (r: Option<i32>)
    requires
        from <= s@.len(),
    ensures
        match r {
            Some(v) => i32_value(s@.skip(from as int)) == Some(v as int),
            None => i32_value(s@.skip(from as int)) is None,
        },
{
    let ghost t = s@.skip(from as int);
    let mut i: usize = from;
    let mut negative: bool = false;
    let signed: bool = i < s.len() && (s[i] == '-' || s[i] == '+');
    if signed {
        negative = s[i] == '-';
        i = i + 1;
    }
    if i >= s.len() {
        return None;
    }
    let start: usize = i;
    let ghost d = s@.skip(start as int);
    proof {
        if signed {
            assert(t.skip(1) =~= d);
        } else {
            assert(t =~= d);
        }
    }
    let mut acc: i64 = 0;
    while i < s.len()
        invariant
            start <= i <= s@.len(),
            start < s@.len(),
            d == s@.skip(start as int),
            t == s@.skip(from as int),
            signed ==> t.len() > 0 && (t[0] == '-' || t[0] == '+') && t.skip(1) == d
                && negative == (t[0] == '-'),
            !signed ==> t == d && !(t.len() > 0 && (t[0] == '-' || t[0] == '+')),
            all_digits(d.take(i - start)),
            acc == digits_value(d.take(i - start)),
            0 <= acc <= 2147483648,
        decreases s@.len() - i,
    {
        let c = s[i];
        proof {
            assert(d[i - start] == c);
        }
        if !(c >= '0' && c <= '9') {
            return None;
        }
        let ghost before = d.take(i - start);
        acc = acc * 10 + (c as u32 - '0' as u32) as i64;
        i = i + 1;
        proof {
            let now = d.take(i - start);
            assert(now.drop_last() =~= before);
            assert(all_digits(now));
        }
        if acc > 2147483648 {
            proof {
                if all_digits(d) {
                    lemma_digits_grow(d, i - start);
                }
            }
            return None;
        }
    }
    proof {
        assert(d.take(i - start) =~= d);
    }
    if negative {
        Some((-acc) as i32)
    } else if acc <= 2147483647 {
        Some(acc as i32)
    } else {
        None
    }
}

/// An exact rational number, `numer / denom`.
#[derive(Clone, Copy, Debug, PartialEq, Eq, Structural)]
pub struct Ratio {
    pub numer: i64,
    pub denom: u32,
}

/// The greatest integer not above `r` (Verus's `/` on `int` rounds toward
/// negative infinity for a positive divisor).
pub open spec fn floor_of(r: Ratio) -> int {
    r.numer as int / r.denom as int
}

impl Ratio {
    pub open spec fn wf(self) -> bool {
        self.denom > 0
    }

    pub fn new(numer: i64, denom: u32) -> (r: Ratio)
        requires
            denom > 0,
        ensures
            r.wf(),
            r.numer == numer,
            r.denom == denom,
    {
        Ratio { numer, denom }
    }

    /// Rounds toward negative infinity, not toward zero.
    pub fn floor(&self) -> (r: i64)
        requires
            self.wf(),
        ensures
            r == floor_of(*self),
    {
        let d: u64 = self.denom as u64;
        if self.numer >= 0 {
            let n: u64 = self.numer as u64;
            let q: u64 = n / d;
            proof {
                let rem = n % d;
                assert(n == q * d + rem) by (nonlinear_arith)
                    requires
                        q == n / d,
                        rem == n % d,
                        d > 0,
                ;
                lemma_fundamental_div_mod_converse(self.numer as int, d as int, q as int, rem as int);
            }
            q as i64
        } else {
            let a: u64 = (-(self.numer as i128)) as u64;
            let q: u64 = (a - 1) / d;
            proof {
                let rem = (a - 1) % (d as int);
                assert(a - 1 == q * d + rem) by (nonlinear_arith)
                    requires
                        q == (a - 1) / (d as int),
                        rem == (a - 1) % (d as int),
                        d > 0,
                ;
                assert(0 <= rem < d);
                assert(self.numer as int == (-(q as int) - 1) * d + (d - rem - 1)) by (nonlinear_arith)
                    requires
                        a - 1 == q * d + rem,
                        self.numer as int == -(a as int),
                ;
                lemma_fundamental_div_mod_converse(
                    self.numer as int,
                    d as int,
                    -(q as int) - 1,
                    d - rem - 1,
                );
                assert(q * d <= a - 1) by (nonlinear_arith)
                    requires
                        a - 1 == q * d + rem,
                        rem >= 0,
                ;
            }
            -(q as i64) - 1
        }
    }
}

} // verus!
