use crawler::locator::{identity_from_groups, resolve_locator, slot_for_window, ParseError};
use crawler::parser::ConcentrationStrategy;

fn page(entity: &str, window: usize) -> String {
    format!(
        "https://api.webscrapingapi.com/v1?url=https://fubon-ebrokerdj.fbs.com.tw/z/zc/zco/zco_{}_{}.djhtm&api_key=KEY",
        entity, window
    )
}

#[test]
fn windows_map_to_slots() {
    assert_eq!(slot_for_window(0), None);
    assert_eq!(slot_for_window(1), Some(0));
    assert_eq!(slot_for_window(2), Some(1));
    assert_eq!(slot_for_window(3), Some(2));
    assert_eq!(slot_for_window(4), Some(3));
    assert_eq!(slot_for_window(5), Some(4));
    assert_eq!(slot_for_window(6), Some(4));
    assert_eq!(slot_for_window(7), None);
}

#[test]
fn longest_window_of_a_fills_slot_four() {
    let r = identity_from_groups(Some(("A".to_string(), "6".to_string())));
    assert_eq!(r, Ok(("A".to_string(), 4)));
}

#[test]
fn longest_window_locator_fills_slot_four() {
    assert_eq!(resolve_locator(&page("2330", 6)), Ok(("2330".to_string(), 4)));
    assert_eq!(resolve_locator(&page("2330", 1)), Ok(("2330".to_string(), 0)));
    assert_eq!(resolve_locator(&page("8150", 4)), Ok(("8150".to_string(), 3)));
}

#[test]
fn resolving_twice_gives_the_same_pair() {
    let s = ConcentrationStrategy;
    let url = page("2363", 3);
    let first = s.identifier(&url);
    let second = s.identifier(&url);
    assert_eq!(first, second);
    assert_eq!(first, Ok(("2363".to_string(), 2)));
}

#[test]
fn locator_errors() {
    assert_eq!(resolve_locator("https://example.com/zco_x_1"), Err(ParseError::InvalidLocator));
    assert_eq!(resolve_locator("zco_2330_0.djhtm"), Err(ParseError::WindowOutOfRange));
    assert_eq!(resolve_locator("zco_2330_7.djhtm"), Err(ParseError::WindowOutOfRange));
    assert_eq!(
        resolve_locator("zco_2330_99999999999999999999999.djhtm"),
        Err(ParseError::InvalidNumber)
    );
    assert_eq!(identity_from_groups(None), Err(ParseError::InvalidLocator));
}
