//! Resolving a locator to the entity and slot it stands for.
use vstd::prelude::*;
use crate::numeric::{parse_usize, unsigned_numeral};
use crate::model::SLOT_COUNT;

verus! {

/// The number of candidate lookback windows, counted from 1.
pub const WINDOW_COUNT: usize = 6;

/// The window that is never requested: it duplicates its neighbours.
pub const SKIPPED_WINDOW: usize = 5;

/// The longest lookback window, which supplies the last slot.
pub const LONGEST_WINDOW: usize = 6;

/// Why a locator or a payload yields no fact.
#[derive(Clone, Copy, Debug, PartialEq, Eq, Structural)]
pub enum ParseError {
    /// The locator does not follow the expected pattern.
    InvalidLocator,
    /// A field that should hold an integer does not.
    InvalidNumber,
    /// The window index names no slot.
    WindowOutOfRange,
    /// The markup selector could not be built.
    InvalidSelector,
    /// The strategy does not handle this kind of resource.
    NotImplemented,
}

/// The slot fed by window `i` (1-based): `i - 1`, except that the longest
/// window backfills the slot of the skipped one.
pub open spec fn slot_of_window(i: int) -> int {
    if i == LONGEST_WINDOW {
        i - 2
    } else {
        i - 1
    }
}

/// The slot for window `i`, or `None` when `i` is not a window in `1..=6`.
pub fn slot_for_window(i: usize) -> (r: Option<usize>)
    ensures
        r is Some <==> 1 <= i <= WINDOW_COUNT,
        r matches Some(k) ==> k == slot_of_window(i as int) && k < SLOT_COUNT,
{
    if i == 0 || i > WINDOW_COUNT {
        None
    } else if i == LONGEST_WINDOW {
        Some(i - 2)
    } else {
        Some(i - 1)
    }
}

/// The pattern of a locator: the entity id, then the window index.
pub open spec fn locator_pattern() -> Seq<char> {
    "zco_(\\d+)_(\\d+)"@
}

/// The first and second capture groups of the leftmost match of `pattern`
/// in `text`, an absent group read as empty; `None` where `pattern` is not a
/// valid expression or does not match.
pub uninterp spec fn regex_pair(pattern: Seq<char>, text: Seq<char>) -> Option<(Seq<char>, Seq<char>)>;

pub open spec fn pair_view(p: Option<(String, String)>) -> Option<(Seq<char>, Seq<char>)> {
    match p {
        Some(q) => Some((q.0@, q.1@)),
        None => None,
    }
}

/// Relies on regex::Regex::new and Regex::captures: the two capture groups
/// of the leftmost match, read through Captures::get.
#[verifier::external_body]
fn capture_pair(pattern: &str, text: &str) -> (r: Option<(String, String)>)
    ensures
        pair_view(r) == regex_pair(pattern@, text@),
{
    let re = regex::Regex::new(pattern).ok()?;
    let caps = re.captures(text)?;
    Some((
        caps.get(1).map_or(String::new(), |m| m.as_str().to_string()),
        caps.get(2).map_or(String::new(), |m| m.as_str().to_string()),
    ))
}

/// The entity and slot that the capture groups of a locator name.
pub open spec fn identity_of(groups: Option<(Seq<char>, Seq<char>)>) -> Result<(Seq<char>, int), ParseError> {
    match groups {
        None => Err(ParseError::InvalidLocator),
        Some((id, window)) => match unsigned_numeral(window) {
            Some(i) => if i > usize::MAX {
                Err(ParseError::InvalidNumber)
            } else if 1 <= i <= WINDOW_COUNT {
                Ok((id, slot_of_window(i)))
            } else {
                Err(ParseError::WindowOutOfRange)
            },
            None => Err(ParseError::InvalidNumber),
        },
    }
}

pub open spec fn identity_view(r: Result<(String, usize), ParseError>) -> Result<(Seq<char>, int), ParseError> {
    match r {
        Ok((id, slot)) => Ok((id@, slot as int)),
        Err(e) => Err(e),
    }
}

/// The entity named by a locator, from where the pattern's two groups
/// would be read.
pub open spec fn locator_identity(locator: Seq<char>) -> Result<(Seq<char>, int), ParseError> {
    identity_of(regex_pair(locator_pattern(), locator))
}

/// The entity and slot named by the capture groups of a locator: the first
/// group is the entity id, the second the window index.
pub fn identity_from_groups(groups: Option<(String, String)>) -> (r: Result<(String, usize), ParseError>)
    ensures
        identity_view(r) == identity_of(pair_view(groups)),
        r matches Ok((_, slot)) ==> slot < SLOT_COUNT,
{
    match groups {
        None => Err(ParseError::InvalidLocator),
        Some((id, window)) => match parse_usize(window.as_str()) {
            None => Err(ParseError::InvalidNumber),
            Some(i) => match slot_for_window(i) {
                Some(slot) => Ok((id, slot)),
                None => Err(ParseError::WindowOutOfRange),
            },
        },
    }
}

/// The entity id and slot index that `locator` names.
pub fn resolve_locator(locator: &str) -> (r: Result<(String, usize), ParseError>)
    ensures
        identity_view(r) == locator_identity(locator@),
        r matches Ok((_, slot)) ==> slot < SLOT_COUNT,
{
    let pattern = "zco_(\\d+)_(\\d+)";
    assert(pattern@ == locator_pattern());
    identity_from_groups(capture_pair(pattern, locator))
}

/// Resolving a locator is a function of the locator alone: two resolutions
/// of the same locator give the same entity and slot.
pub proof fn lemma_resolution_idempotent(
    locator: Seq<char>,
    first: Result<(String, usize), ParseError>,
    second: Result<(String, usize), ParseError>,
)
    requires
        identity_view(first) == locator_identity(locator),
        identity_view(second) == locator_identity(locator),
    ensures
        identity_view(first) == identity_view(second),
        first matches Ok((id, slot)) ==> second matches Ok((id2, slot2)) && id@ == id2@ && slot == slot2,
{
}

} // verus!
