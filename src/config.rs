//! The depth budget as the user writes it.

use vstd::prelude::*;
use vstd::string::*;

verus! {

/// Why the user's settings are refused.
#[derive(Debug, PartialEq, Eq)]
pub enum ConfigError {
    /// The depth is not a decimal number that fits in `usize`.
    BadDepth,
}

pub open spec fn is_digit(c: char) -> bool {
    '0' <= c <= '9'
}

pub open spec fn all_digits(s: Seq<char>) -> bool {
    forall|i: int| 0 <= i < s.len() ==> is_digit(#[trigger] s[i])
}

/// The number that a string of decimal digits stands for.
pub open spec fn digits_value(s: Seq<char>) -> int
    decreases s.len(),
{
    if s.len() == 0 {
        0
    } else {
        digits_value(s.drop_last()) * 10 + (s.last() as int - '0' as int)
    }
}

/// The digits of a number written with an optional leading `+`.
pub open spec fn unsigned_digits(s: Seq<char>) -> Seq<char> {
    if s.len() > 0 && s[0] == '+' {
        s.drop_first()
    } else {
        s
    }
}

/// `s` writes a depth: one or more decimal digits, after an optional `+`,
/// for a number that fits in `usize`.
pub open spec fn valid_depth(s: Seq<char>) -> bool {
    let t = unsigned_digits(s);
    &&& t.len() > 0
    &&& all_digits(t)
    &&& digits_value(t) <= usize::MAX
}

proof fn lemma_prefix_value_grows(t: Seq<char>, k: int, j: int)
    requires
        all_digits(t),
        0 <= k <= j <= t.len(),
    ensures
        0 <= digits_value(t.subrange(0, k)) <= digits_value(t.subrange(0, j)),
    decreases j - k,
{
    if k < j {
        lemma_prefix_value_grows(t, k, j - 1);
        let s = t.subrange(0, j);
        assert(s.drop_last() =~= t.subrange(0, j - 1));
        assert(is_digit(t[j - 1]));
    } else {
        lemma_prefix_value_nonneg(t, k);
    }
}

proof fn lemma_prefix_value_nonneg(t: Seq<char>, k: int)
    requires
        all_digits(t),
        0 <= k <= t.len(),
    ensures
        0 <= digits_value(t.subrange(0, k)),
    decreases k,
{
    if k > 0 {
        lemma_prefix_value_nonneg(t, k - 1);
        assert(t.subrange(0, k).drop_last() =~= t.subrange(0, k - 1));
        assert(is_digit(t[k - 1]));
    }
}

/// Reads the depth budget: decimal digits after an optional `+`.
pub fn parse_depth(s: &str) -> (r: Result<usize, ConfigError>)
    ensures
        r is Ok <==> valid_depth(s@),
        r matches Ok(v) ==> v == digits_value(unsigned_digits(s@)),
        r is Err ==> r == Err::<usize, ConfigError>(ConfigError::BadDepth),
{
    let n = s.unicode_len();
    let mut start: usize = 0;
    if n > 0 && s.get_char(0) == '+' {
        start = 1;
    }
    let ghost t = unsigned_digits(s@);
    assert(t =~= s@.subrange(start as int, n as int));
    if start == n {
        return Err(ConfigError::BadDepth);
    }
    let mut acc: usize = 0;
    let mut i: usize = start;
    while i < n
        invariant
            start <= i <= n,
            n == s@.len(),
            t == s@.subrange(start as int, n as int),
            t == unsigned_digits(s@),
            all_digits(t.subrange(0, i - start)),
            acc == digits_value(t.subrange(0, i - start)),
        decreases n - i,
    {
        let c = s.get_char(i);
        assert(c == t[i - start]);
        if !('0' <= c && c <= '9') {
            assert(!all_digits(t));
            return Err(ConfigError::BadDepth);
        }
        let d = (c as u32 - '0' as u32) as usize;
        let ghost k = (i - start) as int;
        assert(t.subrange(0, k + 1).drop_last() =~= t.subrange(0, k));
        assert(all_digits(t.subrange(0, k + 1)));
        match acc.checked_mul(10) {
            Some(m) => match m.checked_add(d) {
                Some(v) => {
                    acc = v;
                },
                None => {
                    proof {
                        if all_digits(t) {
                            lemma_prefix_value_grows(t, k + 1, t.len() as int);
                            assert(t.subrange(0, t.len() as int) =~= t);
                        }
                    }
                    return Err(ConfigError::BadDepth);
                },
            },
            None => {
                proof {
                    if all_digits(t) {
                        lemma_prefix_value_nonneg(t, k);
                        lemma_prefix_value_grows(t, k + 1, t.len() as int);
                        assert(t.subrange(0, t.len() as int) =~= t);
                    }
                }
                return Err(ConfigError::BadDepth);
            },
        }
        i = i + 1;
    }
    assert(t.subrange(0, n - start) =~= t);
    Ok(acc)
}

} // verus!
