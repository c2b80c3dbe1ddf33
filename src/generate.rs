//! Request descriptors: one per entity and usable lookback window.
use vstd::prelude::*;
use crate::locator::{slot_for_window, slot_of_window, SKIPPED_WINDOW, WINDOW_COUNT};
use crate::model::SLOT_COUNT;
use crate::numeric::{all_digits, is_digit};

verus! {

/// One request of a run: the locator to fetch, and the entity and slot that
/// its fact will fill.
pub struct RequestDescriptor {
    pub entity_id: String,
    pub slot_index: usize,
    pub locator: String,
}

/// The windows that are requested, in order: all but the skipped one.
pub open spec fn usable_windows() -> Seq<int> {
    seq![1int, 2, 3, 4, 6]
}

pub open spec fn locator_head() -> Seq<char> {
    "https://api.webscrapingapi.com/v1?url=https://fubon-ebrokerdj.fbs.com.tw/z/zc/zco/zco_"@
}

pub open spec fn locator_tail() -> Seq<char> {
    ".djhtm&api_key="@
}

/// The decimal digit of a window index.
pub open spec fn window_digit(w: int) -> char {
    ('0' as int + w) as char
}

/// The locator of window `w` of `entity`, fetched through the proxy with `key`.
pub open spec fn locator_for(entity: Seq<char>, w: int, key: Seq<char>) -> Seq<char> {
    locator_head() + entity + seq!['_', window_digit(w)] + locator_tail() + key
}

/// The descriptor at position `j` of the requests for `entities`: entities
/// in order, and for each the usable windows in order.
pub open spec fn descriptor_at(entities: Seq<Seq<char>>, key: Seq<char>, j: int) -> (Seq<char>, int, Seq<char>) {
    let e = entities[j / SLOT_COUNT as int];
    let w = usable_windows()[j % SLOT_COUNT as int];
    (e, slot_of_window(w), locator_for(e, w, key))
}

pub open spec fn descriptor_view(d: RequestDescriptor) -> (Seq<char>, int, Seq<char>) {
    (d.entity_id@, d.slot_index as int, d.locator@)
}

pub open spec fn strings_view(v: Seq<String>) -> Seq<Seq<char>> {
    v.map_values(|s: String| s@)
}

/// Why a run cannot start.
#[derive(Clone, Copy, Debug, PartialEq, Eq, Structural)]
pub enum ConfigError {
    /// No credential to build locators with.
    MissingCredential,
    /// No entity to track.
    NoEntities,
    /// An entity id is not a run of decimal digits.
    MalformedEntity,
    /// The admission gate would admit no fetch.
    ZeroCapacity,
}

/// An entity id that a locator can carry: one or more decimal digits.
pub open spec fn well_formed_entity(id: Seq<char>) -> bool {
    id.len() > 0 && all_digits(id)
}

/// Whether a run may start with this credential, these entities and this
/// gate capacity, and if not, the first reason why not.
pub open spec fn config_check(key: Seq<char>, entities: Seq<Seq<char>>, capacity: int) -> Result<(), ConfigError> {
    if key.len() == 0 {
        Err(ConfigError::MissingCredential)
    } else if entities.len() == 0 {
        Err(ConfigError::NoEntities)
    } else if exists|a: int| 0 <= a < entities.len() && !well_formed_entity(#[trigger] entities[a]) {
        Err(ConfigError::MalformedEntity)
    } else if capacity == 0 {
        Err(ConfigError::ZeroCapacity)
    } else {
        Ok(())
    }
}

fn is_entity_id(s: &str) -> (r: bool)
    ensures
        r == well_formed_entity(s@),
{
    let n = s.unicode_len();
    if n == 0 {
        return false;
    }
    let mut i: usize = 0;
    while i < n
        invariant
            n == s@.len(),
            i <= n,
            forall|k: int| 0 <= k < i ==> is_digit(#[trigger] s@[k]),
        decreases n - i,
    {
        let c = s.get_char(i);
        if !('0' <= c && c <= '9') {
            return false;
        }
        i = i + 1;
    }
    true
}

/// Checks a run's configuration before any request is generated.
pub fn check_config(proxy_api_key: &str, stocks: &Vec<String>, capacity: usize) -> (r: Result<(), ConfigError>)
    ensures
        r == config_check(proxy_api_key@, strings_view(stocks@), capacity as int),
{
    let ghost entities = strings_view(stocks@);
    if proxy_api_key.unicode_len() == 0 {
        return Err(ConfigError::MissingCredential);
    }
    if stocks.len() == 0 {
        return Err(ConfigError::NoEntities);
    }
    let mut a: usize = 0;
    while a < stocks.len()
        invariant
            entities == strings_view(stocks@),
            a <= stocks@.len(),
            proxy_api_key@.len() > 0,
            forall|b: int| 0 <= b < a ==> well_formed_entity(#[trigger] entities[b]),
        decreases stocks@.len() - a,
    {
        assert(entities[a as int] == stocks@[a as int]@);
        if !is_entity_id(stocks[a].as_str()) {
            assert(entities[a as int] == stocks@[a as int]@);
            assert(!well_formed_entity(entities[a as int]));

            return Err(ConfigError::MalformedEntity);
        }
        a = a + 1;
    }
    if capacity == 0 {
        return Err(ConfigError::ZeroCapacity);
    }
    Ok(())
}

fn window_text(w: usize) -> (r: &'static str)
    requires
        1 <= w <= 9,
    ensures
        r@ == seq![window_digit(w as int)],
{
    proof {
        reveal_strlit("1");
        reveal_strlit("2");
        reveal_strlit("3");
        reveal_strlit("4");
        reveal_strlit("5");
        reveal_strlit("6");
        reveal_strlit("7");
        reveal_strlit("8");
        reveal_strlit("9");
    }
    let r = match w {
        1 => "1",
        2 => "2",
        3 => "3",
        4 => "4",
        5 => "5",
        6 => "6",
        7 => "7",
        8 => "8",
        _ => "9",
    };
    assert(r@ =~= seq![window_digit(w as int)]);
    r
}

/// The locator of window `w` of `entity`.
pub fn locator(entity: &str, w: usize, key: &str) -> (r: String)
    requires
        1 <= w <= 9,
    ensures
        r@ == locator_for(entity@, w as int, key@),
{
    let mut r = String::from_str("https://api.webscrapingapi.com/v1?url=https://fubon-ebrokerdj.fbs.com.tw/z/zc/zco/zco_");
    assert(r@ == locator_head());
    r.append(entity);
    r.append("_");
    r.append(window_text(w));
    r.append(".djhtm&api_key=");
    r.append(key);
    proof {
        reveal_strlit("_");
    }
    assert(r@ =~= locator_for(entity@, w as int, key@));
    r
}

/// The requests for `stocks`: for each entity in order, one per window from
/// 1 to 6 except the skipped window 5, the longest window filling the last
/// slot.
pub fn generate_urls(proxy_api_key: &str, stocks: &Vec<String>) -> (r: Vec<RequestDescriptor>)
    requires
        stocks@.len() * SLOT_COUNT <= usize::MAX,
    ensures
        r@.len() == stocks@.len() * SLOT_COUNT,
        forall|j: int|
            0 <= j < r@.len() ==> descriptor_view(#[trigger] r@[j]) == descriptor_at(
                strings_view(stocks@),
                proxy_api_key@,
                j,
            ),
        forall|j: int| 0 <= j < r@.len() ==> (#[trigger] r@[j]).slot_index < SLOT_COUNT,
{
    let ghost entities = strings_view(stocks@);
    let mut r: Vec<RequestDescriptor> = Vec::new();
    let mut a: usize = 0;
    while a < stocks.len()
        invariant
            entities == strings_view(stocks@),
            stocks@.len() * SLOT_COUNT <= usize::MAX,
            a <= stocks@.len(),
            r@.len() == a * SLOT_COUNT,
            forall|j: int|
                0 <= j < r@.len() ==> descriptor_view(#[trigger] r@[j]) == descriptor_at(
                    entities,
                    proxy_api_key@,
                    j,
                ),
            forall|j: int| 0 <= j < r@.len() ==> (#[trigger] r@[j]).slot_index < SLOT_COUNT,
        decreases stocks@.len() - a,
    {
        let stock = &stocks[a];
        let mut w: usize = 1;
        while w <= WINDOW_COUNT
            invariant
                entities == strings_view(stocks@),
                stocks@.len() * SLOT_COUNT <= usize::MAX,
                a < stocks@.len(),
                stock == stocks@[a as int],
                1 <= w <= WINDOW_COUNT + 1,
                r@.len() == a * SLOT_COUNT + (if w <= SKIPPED_WINDOW { w - 1 } else { w - 2 }),
                forall|j: int|
                    0 <= j < r@.len() ==> descriptor_view(#[trigger] r@[j]) == descriptor_at(
                        entities,
                        proxy_api_key@,
                        j,
                    ),
                forall|j: int| 0 <= j < r@.len() ==> (#[trigger] r@[j]).slot_index < SLOT_COUNT,
            decreases WINDOW_COUNT + 1 - w,
        {
            if w != SKIPPED_WINDOW {
                let slot = match slot_for_window(w) {
                    Some(k) => k,
                    None => 0,
                };
                let ghost j = r@.len() as int;
                let p: usize = if w < SKIPPED_WINDOW { w - 1 } else { w - 2 };
                assert(j == a * SLOT_COUNT + p) ;
                assert(j / SLOT_COUNT as int == a && j % SLOT_COUNT as int == p) by (nonlinear_arith)
                    requires j == a * SLOT_COUNT + p, p < SLOT_COUNT;
                assert(usable_windows()[p as int] == w);
                assert(entities[a as int] == stock@);
                let d = RequestDescriptor {
                    entity_id: stock.clone(),
                    slot_index: slot,
                    locator: locator(stock.as_str(), w, proxy_api_key),
                };
                r.push(d);
                assert(descriptor_view(r@[j]) == descriptor_at(entities, proxy_api_key@, j));
            }
            w = w + 1;
        }
        assert(a * SLOT_COUNT + SLOT_COUNT <= stocks@.len() * SLOT_COUNT) by (nonlinear_arith)
            requires a < stocks@.len();
        a = a + 1;
    }
    r
}

} // verus!
