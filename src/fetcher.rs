//! Raw payloads and the choice of how a locator is fetched.
use vstd::prelude::*;

verus! {

/// What a fetch returns: the content, the locator it came from, and its
/// content type.
pub struct Payload {
    pub content: String,
    pub source: String,
    pub content_type: String,
}

/// Why a locator yields no payload.
#[derive(Clone, Copy, Debug, PartialEq, Eq, Structural)]
pub enum FetchError {
    /// The locator's scheme is neither `http`/`https` nor `file`.
    UnsupportedScheme,
    /// The resource does not exist.
    NotFound,
    /// Any other failure to retrieve the resource.
    Failed,
}

/// A way of retrieving one payload.
pub trait Fetch {
    type Error;

    fn fetch(&self) -> Result<Payload, Self::Error>;
}

/// Where a locator points: a network resource, or a local file by path.
#[derive(Debug)]
pub enum Source {
    Url(String),
    File(String),
}

pub open spec fn http_prefix() -> Seq<char> {
    seq!['h', 't', 't', 'p']
}

pub open spec fn file_prefix() -> Seq<char> {
    seq!['f', 'i', 'l', 'e']
}

/// The length of `file://`, which precedes a file's path.
pub const FILE_SCHEME_LEN: usize = 7;

/// How `locator` is fetched: by its first four characters, `http` (which
/// covers `https`) or `file`, the path of a file following `file://`.
pub open spec fn source_of(locator: Seq<char>) -> Result<(bool, Seq<char>), FetchError> {
    if locator.len() >= 4 && locator.take(4) == http_prefix() {
        Ok((true, locator))
    } else if locator.len() >= FILE_SCHEME_LEN && locator.take(4) == file_prefix() {
        Ok((false, locator.skip(FILE_SCHEME_LEN as int)))
    } else {
        Err(FetchError::UnsupportedScheme)
    }
}

pub open spec fn source_view(r: Result<Source, FetchError>) -> Result<(bool, Seq<char>), FetchError> {
    match r {
        Ok(Source::Url(u)) => Ok((true, u@)),
        Ok(Source::File(p)) => Ok((false, p@)),
        Err(e) => Err(e),
    }
}

fn starts_with(s: &str, prefix: &str) -> (r: bool)
    requires
        prefix@.len() <= s@.len(),
    ensures
        r == (s@.take(prefix@.len() as int) == prefix@),
{
    let n = prefix.unicode_len();
    let mut i: usize = 0;
    while i < n
        invariant
            n == prefix@.len(),
            n <= s@.len(),
            i <= n,
            s@.take(i as int) == prefix@.take(i as int),
        decreases n - i,
    {
        if s.get_char(i) != prefix.get_char(i) {
            assert(s@.take(n as int)[i as int] != prefix@[i as int]);
            return false;
        }
        assert(s@.take(i + 1) =~= s@.take(i as int).push(s@[i as int]));
        assert(prefix@.take(i + 1) =~= prefix@.take(i as int).push(prefix@[i as int]));
        i = i + 1;
    }
    assert(prefix@.take(n as int) =~= prefix@);
    true
}

/// Chooses the fetcher for `locator` from its scheme prefix.
pub fn classify_source(locator: &str) -> (r: Result<Source, FetchError>)
    ensures
        source_view(r) == source_of(locator@),
{
    let n = locator.unicode_len();
    if n >= 4 {
        let http = "http";
        let file = "file";
        proof {
            reveal_strlit("http");
            reveal_strlit("file");
        }
        assert(http@ =~= http_prefix());
        assert(file@ =~= file_prefix());
        if starts_with(locator, http) {
            return Ok(Source::Url(String::from_str(locator)));
        }
        if n >= FILE_SCHEME_LEN && starts_with(locator, file) {
            let path = locator.substring_char(FILE_SCHEME_LEN, n);
            assert(path@ =~= locator@.skip(FILE_SCHEME_LEN as int));
            return Ok(Source::File(String::from_str(path)));
        }
    }
    Err(FetchError::UnsupportedScheme)
}

} // verus!
