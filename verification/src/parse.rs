//! Pure parsing helpers for the driver: the policy name, the quantum in
//! milliseconds, and the first whitespace-delimited token of an input line
//! (the executable name of one process record).

use vstd::prelude::*;

use crate::engine::Policy;

verus! {

/// Decimal digit, by code point.
pub open spec fn is_digit(c: char) -> bool {
    48 <= c as int <= 57
}

/// Numeric value of a decimal digit.
pub open spec fn digit_val(c: char) -> int {
    c as int - 48
}

/// Every character is a decimal digit.
pub open spec fn all_digits(s: Seq<char>) -> bool {
    forall|i: int| 0 <= i < s.len() ==> is_digit(#[trigger] s[i])
}

/// Value of a decimal numeral, most significant digit first.
pub open spec fn dec_value(s: Seq<char>) -> int
    decreases s.len(),
{
    if s.len() == 0 {
        0
    } else {
        dec_value(s.drop_last()) * 10 + digit_val(s.last())
    }
}

proof fn lemma_dec_value_step(s: Seq<char>, i: int)
    requires
        0 <= i < s.len(),
    ensures
        dec_value(s.subrange(0, i + 1)) == dec_value(s.subrange(0, i)) * 10 + digit_val(s[i]),
{
    let t = s.subrange(0, i + 1);
    assert(t.drop_last() =~= s.subrange(0, i));
    assert(t.last() == s[i]);
}

proof fn lemma_dec_value_nonneg(s: Seq<char>, i: int)
    requires
        all_digits(s),
        0 <= i <= s.len(),
    ensures
        dec_value(s.subrange(0, i)) >= 0,
    decreases i,
{
    if i > 0 {
        lemma_dec_value_nonneg(s, i - 1);
        lemma_dec_value_step(s, i - 1);
    } else {
        assert(s.subrange(0, 0).len() == 0);
    }
}

proof fn lemma_dec_value_mono(s: Seq<char>, i: int, j: int)
    requires
        all_digits(s),
        0 <= i <= j <= s.len(),
    ensures
        dec_value(s.subrange(0, i)) <= dec_value(s.subrange(0, j)),
    decreases j - i,
{
    if i < j {
        lemma_dec_value_nonneg(s, j - 1);
        lemma_dec_value_step(s, j - 1);
        lemma_dec_value_mono(s, i, j - 1);
    }
}

/// Parse the scheduling policy name: exactly `FCFS` or `RR`; anything else is
/// an invalid policy.
pub fn parse_policy(s: &str) -> (p: Option<Policy>)
    ensures
        p == Some(Policy::Fcfs) <==> s@ == "FCFS"@,
        p == Some(Policy::Rr) <==> s@ == "RR"@,
        p is None <==> (s@ != "FCFS"@ && s@ != "RR"@),
{
    proof {
        reveal_strlit("FCFS");
        reveal_strlit("RR");
    }
    let n = s.unicode_len();
    if n == 4 && s.get_char(0) == 'F' && s.get_char(1) == 'C' && s.get_char(2) == 'F'
        && s.get_char(3) == 'S' {
        proof {
            assert(s@ =~= "FCFS"@);
        }
        Some(Policy::Fcfs)
    } else if n == 2 && s.get_char(0) == 'R' && s.get_char(1) == 'R' {
        proof {
            assert(s@ =~= "RR"@);
        }
        Some(Policy::Rr)
    } else {
        None
    }
}

/// Parse the quantum: a non-empty string of decimal digits whose value fits
/// in 64 bits. Returns the value in milliseconds, or nothing on any other
/// input.
pub fn parse_quantum(s: &str) -> (q: Option<u64>)
    ensures
        q is Some <==> (s@.len() > 0 && all_digits(s@) && dec_value(s@) <= u64::MAX),
        q matches Some(v) ==> v == dec_value(s@),
{
    let n = s.unicode_len();
    if n == 0 {
        return None;
    }
    let mut acc: u64 = 0;
    let mut i: usize = 0;
    while i < n
        invariant
            0 <= i <= n,
            n == s@.len(),
            all_digits(s@.subrange(0, i as int)),
            acc == dec_value(s@.subrange(0, i as int)),
        decreases n - i,
    {
        let c = s.get_char(i);
        let cv = c as u32;
        if cv < 48 || cv > 57 {
            proof {
                assert(!is_digit(s@[i as int]));
            }
            return None;
        }
        let d = (cv - 48) as u64;
        proof {
            lemma_dec_value_step(s@, i as int);
            assert(all_digits(s@.subrange(0, i as int + 1)));
        }
        let wide = acc.checked_mul(10);
        match wide {
            Some(x) => {
                match x.checked_add(d) {
                    Some(y) => {
                        acc = y;
                    }
                    None => {
                        proof {
                            if all_digits(s@) {
                                lemma_dec_value_mono(s@, i as int + 1, n as int);
                                assert(s@.subrange(0, n as int) =~= s@);
                            }
                        }
                        return None;
                    }
                }
            }
            None => {
                proof {
                    if all_digits(s@) {
                        lemma_dec_value_mono(s@, i as int + 1, n as int);
                        assert(s@.subrange(0, n as int) =~= s@);
                    }
                }
                return None;
            }
        }
        i = i + 1;
    }
    proof {
        assert(s@.subrange(0, n as int) =~= s@);
    }
    Some(acc)
}

/// Whitespace that separates tokens on an input line.
pub open spec fn is_space_char(c: char) -> bool {
    c == ' ' || c == '\t' || c == '\r'
}

/// Index of the first non-whitespace character at or after `i`, or the length
/// of `s` if there is none.
pub open spec fn first_nonspace(s: Seq<char>, i: int) -> int
    decreases s.len() - i,
{
    if 0 <= i < s.len() {
        if !is_space_char(s[i]) {
            i
        } else {
            first_nonspace(s, i + 1)
        }
    } else {
        s.len() as int
    }
}

/// Index of the first whitespace character at or after `i`, or the length of
/// `s` if there is none.
pub open spec fn first_space(s: Seq<char>, i: int) -> int
    decreases s.len() - i,
{
    if 0 <= i < s.len() {
        if is_space_char(s[i]) {
            i
        } else {
            first_space(s, i + 1)
        }
    } else {
        s.len() as int
    }
}

proof fn lemma_first_nonspace_bounds(s: Seq<char>, i: int)
    requires
        0 <= i <= s.len(),
    ensures
        i <= first_nonspace(s, i) <= s.len(),
        first_nonspace(s, i) < s.len() ==> !is_space_char(s[first_nonspace(s, i)]),
    decreases s.len() - i,
{
    if i < s.len() && is_space_char(s[i]) {
        lemma_first_nonspace_bounds(s, i + 1);
    }
}

proof fn lemma_first_space_bounds(s: Seq<char>, i: int)
    requires
        0 <= i <= s.len(),
    ensures
        i <= first_space(s, i) <= s.len(),
    decreases s.len() - i,
{
    if i < s.len() && !is_space_char(s[i]) {
        lemma_first_space_bounds(s, i + 1);
    }
}

/// First whitespace-delimited token of an input line: the executable name of
/// the process record this line describes. A line of only whitespace (or
/// nothing) has no token.
pub fn first_token(line: &str) -> (t: Option<String>)
    ensures
        t is Some <==> first_nonspace(line@, 0) < line@.len(),
        t matches Some(tok) ==> tok@ == line@.subrange(
            first_nonspace(line@, 0),
            first_space(line@, first_nonspace(line@, 0)),
        ),
{
    let n = line.unicode_len();
    let a = scan_nonspace(line, 0);
    proof {
        lemma_first_nonspace_bounds(line@, 0);
    }
    if a >= n {
        return None;
    }
    let b = scan_space(line, a);
    proof {
        lemma_first_space_bounds(line@, a as int);
    }
    Some(line.substring_char(a, b).to_owned())
}

/// Scan for the first non-whitespace character at or after `from`.
fn scan_nonspace(line: &str, from: usize) -> (j: usize)
    requires
        from <= line@.len(),
    ensures
        j == first_nonspace(line@, from as int),
{
    let n = line.unicode_len();
    let mut k: usize = from;
    while k < n
        invariant
            from <= k <= n,
            n == line@.len(),
            first_nonspace(line@, from as int) == first_nonspace(line@, k as int),
        decreases n - k,
    {
        let c = line.get_char(k);
        if !(c == ' ' || c == '\t' || c == '\r') {
            return k;
        }
        k = k + 1;
    }
    k
}

/// Scan for the first whitespace character at or after `from`.
fn scan_space(line: &str, from: usize) -> (j: usize)
    requires
        from <= line@.len(),
    ensures
        j == first_space(line@, from as int),
{
    let n = line.unicode_len();
    let mut k: usize = from;
    while k < n
        invariant
            from <= k <= n,
            n == line@.len(),
            first_space(line@, from as int) == first_space(line@, k as int),
        decreases n - k,
    {
        let c = line.get_char(k);
        if c == ' ' || c == '\t' || c == '\r' {
            return k;
        }
        k = k + 1;
    }
    k
}

} // verus!
