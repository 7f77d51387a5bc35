//! Text-scanning primitives shared by the history-file parser and the
//! command-line value parser: digit runs, literal matching, and powers of
//! ten.

use vstd::prelude::*;
use vstd::string::*;

verus! {

/// Whether a character is a decimal digit.
pub open spec fn is_digit(c: char) -> bool {
    48 <= c as u32 <= 57
}

/// The numeric value of a digit character.
pub open spec fn digit_val(c: char) -> int {
    c as u32 - 48
}

/// Ten to the `k`.
pub open spec fn pow10(k: nat) -> int
    decreases k,
{
    if k == 0 {
        1
    } else {
        10 * pow10((k - 1) as nat)
    }
}

pub proof fn lemma_pow10_pos(k: nat)
    ensures
        pow10(k) >= 1,
    decreases k,
{
    if k > 0 {
        lemma_pow10_pos((k - 1) as nat);
    }
}

pub proof fn lemma_pow10_le(a: nat, b: nat)
    requires
        a <= b,
    ensures
        pow10(a) <= pow10(b),
    decreases b,
{
    lemma_pow10_pos(a);
    if a < b {
        lemma_pow10_le(a, (b - 1) as nat);
    }
}

pub proof fn lemma_pow10_adds(a: nat, b: nat)
    ensures
        pow10(a) * pow10(b) == pow10(a + b),
    decreases a,
{
    if a == 0 {
        assert(pow10(0) * pow10(b) == pow10(b));
    } else {
        lemma_pow10_adds((a - 1) as nat, b);
        assert((10 * pow10((a - 1) as nat)) * pow10(b) == 10 * (pow10((a - 1) as nat) * pow10(b)))
            by (nonlinear_arith);
    }
}

/// The value of `pow10` at the largest digit count a scanned run may have.
pub proof fn lemma_pow10_18()
    ensures
        pow10(18) == 1_000_000_000_000_000_000,
{
    reveal_with_fuel(pow10, 20);
}

/// Scanning a run of digits left to right from `i`, onto an accumulator:
/// the accumulated value, the digit count, and the position after the run.
pub open spec fn sp_digits(s: Seq<char>, i: int, acc: int, cnt: int) -> (int, int, int)
    decreases s.len() - i
        when 0 <= i <= s.len()
{
    if i < s.len() && is_digit(s[i]) {
        sp_digits(s, i + 1, acc * 10 + digit_val(s[i]), cnt + 1)
    } else {
        (acc, cnt, i)
    }
}

pub proof fn lemma_sp_digits_cnt_ge(s: Seq<char>, i: int, acc: int, cnt: int)
    requires
        0 <= i <= s.len(),
    ensures
        sp_digits(s, i, acc, cnt).1 >= cnt,
        sp_digits(s, i, acc, cnt).2 >= i,
    decreases s.len() - i,
{
    if i < s.len() && is_digit(s[i]) {
        lemma_sp_digits_cnt_ge(s, i + 1, acc * 10 + digit_val(s[i]), cnt + 1);
    }
}

/// Scans the digit run starting at `start`. Rejects runs of more than 18
/// digits; within that bound the accumulated value fits well inside an
/// `i128`.
pub fn scan_digits(cs: &Vec<char>, start: usize) -> (r: Option<(i128, usize, usize)>)
    requires
        start <= cs@.len(),
    ensures
        ({
            let t = sp_digits(cs@, start as int, 0, 0);
            match r {
                Some(x) => {
                    &&& t.1 <= 18
                    &&& x.0 == t.0
                    &&& x.1 as int == t.1
                    &&& x.2 as int == t.2
                    &&& start <= x.2 <= cs@.len()
                    &&& 0 <= x.0 < pow10(x.1 as nat)
                    &&& x.0 < 1_000_000_000_000_000_000
                },
                None => t.1 > 18,
            }
        }),
{
    let ghost s = cs@;
    let mut j = start;
    let mut acc: i128 = 0;
    let mut cnt: usize = 0;
    loop
        invariant
            start <= j <= s.len(),
            s == cs@,
            cnt <= 18,
            0 <= acc < pow10(cnt as nat),
            acc < 1_000_000_000_000_000_000,
            sp_digits(s, start as int, 0, 0) == sp_digits(s, j as int, acc as int, cnt as int),
        decreases s.len() - j,
    {
        if j == cs.len() {
            return Some((acc, cnt, j));
        }
        let c = cs[j];
        let cv = c as u32;
        if cv < 48 || cv > 57 {
            return Some((acc, cnt, j));
        }
        if cnt == 18 {
            proof {
                lemma_sp_digits_cnt_ge(s, j as int + 1, acc as int * 10 + digit_val(s[j as int]), 19);
            }
            return None;
        }
        proof {
            lemma_pow10_le(cnt as nat + 1, 18);
            lemma_pow10_18();
            assert(acc * 10 < pow10(cnt as nat) * 10) by (nonlinear_arith)
                requires
                    acc < pow10(cnt as nat),
            ;
            assert(pow10(cnt as nat + 1) == 10 * pow10(cnt as nat));
        }
        acc = acc * 10 + ((cv - 48) as i128);
        cnt = cnt + 1;
        j = j + 1;
    }
}

/// A literal matches at `i` exactly when the text continues with it; the
/// result is the position after it.
pub open spec fn sp_lit(s: Seq<char>, i: int, lit: Seq<char>) -> Option<int> {
    if 0 <= i && i + lit.len() <= s.len() && s.subrange(i, i + lit.len()) == lit {
        Some(i + lit.len())
    } else {
        None
    }
}

/// Checks whether the text continues with `lit` at `i`.
pub fn eat_lit(cs: &Vec<char>, i: usize, lit: &str) -> (r: Option<usize>)
    requires
        i <= cs@.len(),
    ensures
        match r {
            Some(j) => sp_lit(cs@, i as int, lit@) == Some(j as int) && i <= j <= cs@.len(),
            None => sp_lit(cs@, i as int, lit@) is None,
        },
{
    let n = lit.unicode_len();
    if cs.len() - i < n {
        return None;
    }
    let mut k: usize = 0;
    while k < n
        invariant
            n == lit@.len(),
            i + n <= cs@.len(),
            cs@.len() <= usize::MAX,
            0 <= k <= n,
            forall|m: int| 0 <= m < k ==> cs@[i + m] == lit@[m],
        decreases n - k,
    {
        if cs[i + k] != lit.get_char(k) {
            proof {
                assert(cs@.subrange(i as int, i + lit@.len())[k as int] != lit@[k as int]);
            }
            return None;
        }
        k = k + 1;
    }
    proof {
        assert(cs@.subrange(i as int, i + lit@.len()) =~= lit@);
    }
    Some(i + n)
}

/// The characters of a piece of text, as a vector.
pub fn str_to_chars(s: &str) -> (v: Vec<char>)
    ensures
        v@ == s@,
{
    let n = s.unicode_len();
    let mut v: Vec<char> = Vec::new();
    let mut i: usize = 0;
    while i < n
        invariant
            n == s@.len(),
            0 <= i <= n,
            v@ =~= s@.take(i as int),
        decreases n - i,
    {
        v.push(s.get_char(i));
        proof {
            assert(v@ =~= s@.take(i as int + 1));
        }
        i = i + 1;
    }
    proof {
        assert(s@.take(n as int) =~= s@);
    }
    v
}

/// The value of `pow10` at the width of a stored fraction.
pub proof fn lemma_pow10_12()
    ensures
        pow10(12) == 1_000_000_000_000,
{
    reveal_with_fuel(pow10, 14);
}

/// Executable powers of ten up to the stored-fraction width.
pub fn pow10_i128(k: usize) -> (r: i128)
    requires
        k <= 12,
    ensures
        r == pow10(k as nat),
{
    proof {
        reveal_with_fuel(pow10, 14);
    }
    if k == 0 {
        1
    } else if k == 1 {
        10
    } else if k == 2 {
        100
    } else if k == 3 {
        1_000
    } else if k == 4 {
        10_000
    } else if k == 5 {
        100_000
    } else if k == 6 {
        1_000_000
    } else if k == 7 {
        10_000_000
    } else if k == 8 {
        100_000_000
    } else if k == 9 {
        1_000_000_000
    } else if k == 10 {
        10_000_000_000
    } else if k == 11 {
        100_000_000_000
    } else {
        1_000_000_000_000
    }
}

} // verus!
