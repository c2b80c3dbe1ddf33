//! Command-line request arguments: `key=value` pairs and URLs.
use vstd::prelude::*;

verus! {

/// One `key=value` field of a request body.
#[derive(Clone, Debug, PartialEq)]
pub struct KvPair {
    pub k: String,
    pub v: String,
}

/// Why an argument was refused.
#[derive(Clone, Copy, Debug, PartialEq, Eq, Structural)]
pub enum ArgError {
    /// A pair without `=`.
    MissingSeparator,
    /// Not a URL.
    InvalidUrl,
}

/// `p` is the position of the first `c` in `s`.
pub open spec fn is_first(s: Seq<char>, c: char, p: int) -> bool {
    &&& 0 <= p < s.len()
    &&& s[p] == c
    &&& forall|k: int| 0 <= k < p ==> s[k] != c
}

/// `s` up to its first `c`, or all of `s`.
pub open spec fn before_first(s: Seq<char>, c: char) -> Seq<char> {
    if exists|p: int| is_first(s, c, p) {
        s.take(choose|p: int| is_first(s, c, p))
    } else {
        s
    }
}

/// The pair that `s` spells: the key is what precedes the first `=`, the
/// value what follows it up to the next `=`; none without `=`.
pub open spec fn kv_of(s: Seq<char>) -> Option<(Seq<char>, Seq<char>)> {
    if exists|p: int| is_first(s, '=', p) {
        let p = choose|p: int| is_first(s, '=', p);
        Some((s.take(p), before_first(s.skip(p + 1), '=')))
    } else {
        None
    }
}

proof fn lemma_first_unique(s: Seq<char>, c: char, p: int, q: int)
    requires
        is_first(s, c, p),
        is_first(s, c, q),
    ensures
        p == q,
{
    if p < q {
        assert(s[p] != c);
    } else if q < p {
        assert(s[q] != c);
    }
}

/// The position of the first `c` in `s` at or after `from`, or the length
/// of `s`.
fn find_char(s: &str, c: char, from: usize) -> (r: usize)
    requires
        from <= s@.len(),
    ensures
        from <= r <= s@.len(),
        forall|k: int| from <= k < r ==> s@[k] != c,
        r < s@.len() ==> s@[r as int] == c,
{
    let n = s.unicode_len();
    let mut i = from;
    while i < n
        invariant
            n == s@.len(),
            from <= i <= n,
            forall|k: int| from <= k < i ==> s@[k] != c,
        decreases n - i,
    {
        if s.get_char(i) == c {
            return i;
        }
        i = i + 1;
    }
    i
}

/// Reads a `key=value` pair.
pub fn parse_kv_pair(s: &str) -> (r: Result<KvPair, ArgError>)
    ensures
        r is Ok <==> kv_of(s@) is Some,
        r matches Ok(pair) ==> kv_of(s@) == Some((pair.k@, pair.v@)),
        r matches Err(e) ==> e == ArgError::MissingSeparator,
{
    let n = s.unicode_len();
    let p = find_char(s, '=', 0);
    if p == n {
        proof {
            if exists|q: int| is_first(s@, '=', q) {
                let q = choose|q: int| is_first(s@, '=', q);
                assert(s@[q] != '=');
            }
        }
        return Err(ArgError::MissingSeparator);
    }
    let q = find_char(s, '=', p + 1);
    let k = String::from_str(s.substring_char(0, p));
    let v = String::from_str(s.substring_char(p + 1, q));
    proof {
        assert(is_first(s@, '=', p as int));
        let first = choose|first: int| is_first(s@, '=', first);
        lemma_first_unique(s@, '=', p as int, first);
        let rest = s@.skip(p + 1);
        if q < n {
            assert(is_first(rest, '=', q - p - 1));
            let q0 = choose|q0: int| is_first(rest, '=', q0);
            lemma_first_unique(rest, '=', q - p - 1, q0);
            assert(v@ =~= rest.take(q - p - 1));
        } else {
            if exists|q1: int| is_first(rest, '=', q1) {
                let q1 = choose|q1: int| is_first(rest, '=', q1);
                assert(s@[p + 1 + q1] == '=');
            }
            assert(v@ =~= rest);
        }
        assert(k@ =~= s@.take(p as int));
    }
    Ok(KvPair { k, v })
}

impl std::str::FromStr for KvPair {
    type Err = ArgError;

    fn from_str(s: &str) -> Result<Self, Self::Err> {
        parse_kv_pair(s)
    }
}

/// Whether `s` parses as an absolute URL.
pub uninterp spec fn is_url(s: Seq<char>) -> bool;

/// Relies on url::Url's FromStr, as reqwest::Url: whether `s` is a valid
/// absolute URL.
#[verifier::external_body]
fn url_parses(s: &str) -> (r: bool)
    ensures
        r == is_url(s@),
{
    s.parse::<reqwest::Url>().is_ok()
}

/// Accepts `s` as it is when it is a URL.
pub fn parse_url(s: &str) -> (r: Result<String, ArgError>)
    ensures
        r is Ok <==> is_url(s@),
        r matches Ok(u) ==> u@ == s@,
        r matches Err(e) ==> e == ArgError::InvalidUrl,
{
    if url_parses(s) {
        Ok(String::from_str(s))
    } else {
        Err(ArgError::InvalidUrl)
    }
}

} // verus!
