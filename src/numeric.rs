//! Decimal numerals: the integer parsing that extraction relies on.
use vstd::prelude::*;

verus! {

pub open spec fn is_digit(c: char) -> bool {
    '0' <= c && c <= '9'
}

pub open spec fn all_digits(s: Seq<char>) -> bool {
    forall|i: int| 0 <= i < s.len() ==> is_digit(#[trigger] s[i])
}

pub open spec fn digit_value(c: char) -> int {
    c as int - '0' as int
}

/// The value of a run of decimal digits, most significant first.
pub open spec fn digits_value(s: Seq<char>) -> int
    decreases s.len(),
{
    if s.len() == 0 {
        0
    } else {
        10 * digits_value(s.drop_last()) + digit_value(s.last())
    }
}

/// The integer denoted by an optional sign followed by one or more digits.
pub open spec fn signed_numeral(s: Seq<char>) -> Option<int> {
    if s.len() > 1 && s[0] == '-' && all_digits(s.skip(1)) {
        Some(-digits_value(s.skip(1)))
    } else if s.len() > 1 && s[0] == '+' && all_digits(s.skip(1)) {
        Some(digits_value(s.skip(1)))
    } else if s.len() > 0 && all_digits(s) {
        Some(digits_value(s))
    } else {
        None
    }
}

/// The integer denoted by an optional `+` followed by one or more digits.
pub open spec fn unsigned_numeral(s: Seq<char>) -> Option<int> {
    if s.len() > 1 && s[0] == '+' && all_digits(s.skip(1)) {
        Some(digits_value(s.skip(1)))
    } else if s.len() > 0 && all_digits(s) {
        Some(digits_value(s))
    } else {
        None
    }
}

/// `s` with every comma removed.
pub open spec fn without_commas(s: Seq<char>) -> Seq<char>
    decreases s.len(),
{
    if s.len() == 0 {
        s
    } else if s.last() == ',' {
        without_commas(s.drop_last())
    } else {
        without_commas(s.drop_last()).push(s.last())
    }
}

proof fn lemma_digits_nonneg(s: Seq<char>)
    requires
        all_digits(s),
    ensures
        digits_value(s) >= 0,
    decreases s.len(),
{
    if s.len() > 0 {
        assert(is_digit(s[s.len() - 1]));
        lemma_digits_nonneg(s.drop_last());
    }
}

proof fn lemma_prefix_value_le(s: Seq<char>, j: int)
    requires
        all_digits(s),
        0 <= j <= s.len(),
    ensures
        digits_value(s.take(j)) <= digits_value(s),
    decreases s.len(),
{
    if j < s.len() {
        let d = s.drop_last();
        assert(d.take(j) =~= s.take(j));
        assert(is_digit(s[s.len() - 1]));
        lemma_prefix_value_le(d, j);
        lemma_digits_nonneg(d);
    } else {
        assert(s.take(j) =~= s);
    }
}

/// The value of the digits of `s` from `start` on, when they are all digits
/// and their value is at most `bound`.
fn digits_up_to(s: &str, start: usize, bound: u128) -> (r: Option<u128>)
    requires
        start < s@.len(),
        bound <= u64::MAX,
    ensures
        match r {
            Some(v) => all_digits(s@.skip(start as int)) && v == digits_value(s@.skip(start as int))
                && v <= bound,
            None => !(all_digits(s@.skip(start as int)) && digits_value(s@.skip(start as int))
                <= bound),
        },
{
    let n = s.unicode_len();
    let mut acc: u128 = 0;
    let mut i: usize = start;
    while i < n
        invariant
            n == s@.len(),
            start <= i <= n,
            bound <= u64::MAX,
            acc <= bound,
            all_digits(s@.subrange(start as int, i as int)),
            acc == digits_value(s@.subrange(start as int, i as int)),
        decreases n - i,
    {
        let c = s.get_char(i);
        let ghost tail = s@.skip(start as int);
        if !('0' <= c && c <= '9') {
            assert(tail[i - start] == c);
            return None;
        }
        let ghost prev = s@.subrange(start as int, i as int);
        let ghost next = s@.subrange(start as int, i + 1);
        assert(next.drop_last() =~= prev);
        assert(all_digits(next)) by {
            assert forall|k: int| 0 <= k < next.len() implies is_digit(#[trigger] next[k]) by {
                if k < prev.len() {
                    assert(next[k] == prev[k]);
                }
            }
        }
        let d = (c as u32 - '0' as u32) as u128;
        let v = acc * 10 + d;
        if v > bound {
            proof {
                if all_digits(tail) {
                    assert(tail.take(i + 1 - start) =~= next);
                    lemma_prefix_value_le(tail, i + 1 - start);
                }
            }
            return None;
        }
        acc = v;
        i = i + 1;
    }
    assert(s@.subrange(start as int, n as int) =~= s@.skip(start as int));
    Some(acc)
}

/// Parses a decimal `i32`: an optional sign and one or more digits.
pub fn parse_i32(s: &str) -> (r: Option<i32>)
    ensures
        r is Some <==> (signed_numeral(s@) is Some && i32::MIN <= signed_numeral(s@)->0
            <= i32::MAX),
        r matches Some(v) ==> v == signed_numeral(s@)->0,
{
    let n = s.unicode_len();
    if n == 0 {
        return None;
    }
    let c = s.get_char(0);
    if c == '-' || c == '+' {
        if n == 1 {
            return None;
        }
        let bound: u128 = if c == '-' { 0x8000_0000 } else { 0x7fff_ffff };
        match digits_up_to(s, 1, bound) {
            Some(v) => {
                if c == '-' {
                    Some((0 - (v as i64)) as i32)
                } else {
                    Some(v as i32)
                }
            },
            None => None,
        }
    } else {
        proof {
            if all_digits(s@) {
                assert(s@.skip(0) =~= s@);
            }
        }
        match digits_up_to(s, 0, 0x7fff_ffff) {
            Some(v) => {
                assert(s@.skip(0) =~= s@);
                Some(v as i32)
            },
            None => {
                assert(s@.skip(0) =~= s@);
                None
            },
        }
    }
}

/// Parses a decimal `usize`: an optional `+` and one or more digits.
pub fn parse_usize(s: &str) -> (r: Option<usize>)
    ensures
        r is Some <==> (unsigned_numeral(s@) is Some && unsigned_numeral(s@)->0 <= usize::MAX),
        r matches Some(v) ==> v == unsigned_numeral(s@)->0,
{
    let n = s.unicode_len();
    if n == 0 {
        return None;
    }
    let c = s.get_char(0);
    let start: usize = if c == '+' { 1 } else { 0 };
    if start == n {
        return None;
    }
    assert(s@.skip(0) =~= s@);
    match digits_up_to(s, start, usize::MAX as u128) {
        Some(v) => Some(v as usize),
        None => {
            proof {
                if c == '+' && all_digits(s@) {
                    assert(is_digit(s@[0]));
                }
            }
            None
        },
    }
}

/// `s` with every comma removed: thousands separators dropped.
pub fn remove_commas(s: &str) -> (r: String)
    ensures
        r@ == without_commas(s@),
{
    let n = s.unicode_len();
    let mut out = String::new();
    let mut i: usize = 0;
    while i < n
        invariant
            n == s@.len(),
            i <= n,
            out@ == without_commas(s@.take(i as int)),
        decreases n - i,
    {
        let c = s.get_char(i);
        assert(s@.take(i + 1).drop_last() =~= s@.take(i as int));
        if c != ',' {
            let piece = s.substring_char(i, i + 1);
            out.append(piece);
            assert(piece@ =~= seq![c]);
            assert(out@ =~= without_commas(s@.take(i as int)).push(c));
        }
        i = i + 1;
    }
    assert(s@.take(n as int) =~= s@);
    out
}

} // verus!
