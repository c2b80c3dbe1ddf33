use crawler::fetcher::Payload;
use crawler::locator::ParseError;
use crawler::parser::{
    fact_from, net_total_of, parse_grouped_i32, Conversion, ConcentrationStrategy, DailyCloseStrategy, ParseStrategy,
    Parser,
};

fn page(entity: &str, window: usize) -> String {
    format!(
        "https://api.webscrapingapi.com/v1?url=https://fubon-ebrokerdj.fbs.com.tw/z/zc/zco/zco_{}_{}.djhtm&api_key=KEY",
        entity, window
    )
}

fn markup(cells: &[(&str, &str)]) -> String {
    let mut body = String::from("<html><body><table><tr>");
    for (colspan, text) in cells {
        body.push_str(&format!("<td class=\"t3n1\" colspan=\"{}\">{}</td>", colspan, text));
    }
    body.push_str("</tr></table></body></html>");
    body
}

fn payload(source: String, content: String) -> Payload {
    Payload { content, source, content_type: "text/html".to_string() }
}

fn cell(colspan: Option<&str>, text: &str) -> (Option<String>, String) {
    (colspan.map(|c| c.to_string()), text.to_string())
}

#[test]
fn net_total_is_buy_less_sell() {
    let cells = vec![cell(Some("4"), "1,234"), cell(Some("4"), "234"), cell(Some("4"), "junk")];
    assert_eq!(net_total_of(&cells), Ok(1000));
}

#[test]
fn cells_of_other_width_are_skipped() {
    let cells = vec![cell(Some("2"), "xx"), cell(Some("4"), "50"), cell(None, "-20"), cell(Some("4"), "9")];
    assert_eq!(net_total_of(&cells), Ok(70));
}

#[test]
fn missing_sell_total_counts_as_zero() {
    let cells = vec![cell(Some("4"), "3,500")];
    assert_eq!(net_total_of(&cells), Ok(3500));
    assert_eq!(net_total_of(&Vec::new()), Ok(0));
}

#[test]
fn non_numeric_total_fails() {
    let cells = vec![cell(Some("4"), "12"), cell(Some("4"), "n/a")];
    assert_eq!(net_total_of(&cells), Err(ParseError::InvalidNumber));
    let cells = vec![cell(Some("4"), "3000000000")];
    assert_eq!(net_total_of(&cells), Err(ParseError::InvalidNumber));
}

#[test]
fn extreme_totals_do_not_overflow() {
    let cells = vec![cell(Some("4"), "2,147,483,647"), cell(Some("4"), "-2,147,483,648")];
    assert_eq!(net_total_of(&cells), Ok(4294967295));
}

#[test]
fn grouped_numbers() {
    assert_eq!(parse_grouped_i32("-1,000"), Some(-1000));
    assert_eq!(parse_grouped_i32(","), None);
}

#[test]
fn fact_from_parts() {
    let f = fact_from(Ok(("2330".to_string(), 4)), Some(vec![cell(Some("4"), "10"), cell(Some("4"), "3")])).unwrap();
    assert_eq!(f.entity_id, "2330");
    assert_eq!(f.slot_index, 4);
    assert_eq!(f.value, 7);
    assert_eq!(fact_from(Ok(("1".to_string(), 0)), None).err(), Some(ParseError::InvalidSelector));
    assert_eq!(fact_from(Err(ParseError::InvalidLocator), Some(Vec::new())).err(), Some(ParseError::InvalidLocator));
}

#[test]
fn concentration_page_gives_fact() {
    let p = payload(page("2330", 6), markup(&[("4", "12,345"), ("4", "2,345")]));
    let f = ConcentrationStrategy.parse(p).unwrap();
    assert_eq!(f.entity_id, "2330");
    assert_eq!(f.slot_index, 4);
    assert_eq!(f.value, 10000);
}

#[test]
fn page_without_sell_label() {
    let p = payload(page("2363", 2), markup(&[("4", "800")]));
    let f = Parser::new(ConcentrationStrategy).parse(p).unwrap();
    assert_eq!(f.slot_index, 1);
    assert_eq!(f.value, 800);
}

#[test]
fn page_with_other_cells_first() {
    let p = payload(page("2363", 1), markup(&[("3", "ignored"), ("4", "5"), ("4", "8")]));
    let f = ConcentrationStrategy.parse(p).unwrap();
    assert_eq!(f.value, -3);
}

#[test]
fn page_errors() {
    let p = payload("https://example.com/other".to_string(), markup(&[("4", "1")]));
    assert_eq!(ConcentrationStrategy.parse(p).err(), Some(ParseError::InvalidLocator));
    let p = payload(page("2330", 1), markup(&[("4", "abc")]));
    assert_eq!(ConcentrationStrategy.parse(p).err(), Some(ParseError::InvalidNumber));
}

#[test]
fn conversions() {
    assert_eq!(ConcentrationStrategy.to_i32("1,024"), Ok(1024));
    assert_eq!(ConcentrationStrategy.to_i32("x"), Err(ParseError::InvalidNumber));
    assert_eq!(ConcentrationStrategy.to_usize("6"), Ok(6));
    assert_eq!(ConcentrationStrategy.to_usize("1,0"), Err(ParseError::InvalidNumber));
    assert_eq!(DailyCloseStrategy.to_i32("1"), Err(ParseError::NotImplemented));
    assert_eq!(DailyCloseStrategy.to_usize("1"), Err(ParseError::NotImplemented));
}

#[test]
fn daily_close_always_fails() {
    let parser = Parser::new(DailyCloseStrategy);
    assert_eq!(parser.parse("anything".to_string()), Err(ParseError::NotImplemented));
}
