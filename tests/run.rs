use crawler::aggregate::{aggregate, Aggregator};
use crawler::fetcher::{classify_source, FetchError, Payload, Source};
use crawler::generate::{check_config, generate_urls, ConfigError};
use crawler::model::{Fact, Model, SLOT_COUNT};
use crawler::schedule::{AdmissionGate, FetchAction, FetchScheduler};

fn markup(buy: &str, sell: &str) -> String {
    format!(
        "<table><tr><td class=\"t3n1\" colspan=\"4\">{}</td><td class=\"t3n1\" colspan=\"4\">{}</td></tr></table>",
        buy, sell
    )
}

fn payload(source: &str, content: String) -> Payload {
    Payload { content, source: source.to_string(), content_type: "text/html".to_string() }
}

fn fact(id: &str, slot: usize, value: i64) -> Fact {
    Fact { entity_id: id.to_string(), slot_index: slot, value }
}

fn find<'a>(records: &'a [Model], id: &str) -> &'a Model {
    records.iter().find(|m| m.stock_id == id).unwrap()
}

fn stocks(ids: &[&str]) -> Vec<String> {
    ids.iter().map(|s| s.to_string()).collect()
}

#[test]
fn generates_five_windows_per_entity() {
    let d = generate_urls("KEY", &stocks(&["2330", "2363"]));
    assert_eq!(d.len(), 10);
    let slots: Vec<usize> = d.iter().map(|x| x.slot_index).collect();
    assert_eq!(slots, vec![0, 1, 2, 3, 4, 0, 1, 2, 3, 4]);
    assert_eq!(d[0].entity_id, "2330");
    assert_eq!(d[5].entity_id, "2363");
    assert_eq!(
        d[4].locator,
        "https://api.webscrapingapi.com/v1?url=https://fubon-ebrokerdj.fbs.com.tw/z/zc/zco/zco_2330_6.djhtm&api_key=KEY"
    );
    assert!(d.iter().all(|x| !x.locator.contains("_5.djhtm")));
}

#[test]
fn empty_entity_list_completes_with_nothing() {
    let d = generate_urls("KEY", &Vec::new());
    assert!(d.is_empty());
    let mut s = FetchScheduler::new(d.len(), 50);
    assert_eq!(s.next_action(), FetchAction::Finished);
    assert!(aggregate(Vec::new(), "20231102".to_string()).is_empty());
}

#[test]
fn config_errors() {
    assert_eq!(check_config("", &stocks(&["2330"]), 50), Err(ConfigError::MissingCredential));
    assert_eq!(check_config("k", &Vec::new(), 50), Err(ConfigError::NoEntities));
    assert_eq!(check_config("k", &stocks(&["2330", "A"]), 50), Err(ConfigError::MalformedEntity));
    assert_eq!(check_config("k", &stocks(&["2330", ""]), 50), Err(ConfigError::MalformedEntity));
    assert_eq!(check_config("k", &stocks(&["2330"]), 0), Err(ConfigError::ZeroCapacity));
    assert_eq!(check_config("k", &stocks(&["2330", "8150"]), 50), Ok(()));
}

#[test]
fn sources_by_scheme() {
    match classify_source("https://example.com/a").unwrap() {
        Source::Url(u) => assert_eq!(u, "https://example.com/a"),
        Source::File(_) => panic!("expected a url"),
    }
    match classify_source("file:///tmp/page.html").unwrap() {
        Source::File(p) => assert_eq!(p, "/tmp/page.html"),
        Source::Url(_) => panic!("expected a file"),
    }
    assert_eq!(classify_source("ftp://x").err(), Some(FetchError::UnsupportedScheme));
    assert_eq!(classify_source("htt").err(), Some(FetchError::UnsupportedScheme));
    assert_eq!(classify_source("file:/").err(), Some(FetchError::UnsupportedScheme));
}

#[test]
fn gate_admits_up_to_capacity() {
    let mut g = AdmissionGate::new(2);
    assert!(g.try_acquire());
    assert!(g.try_acquire());
    assert!(!g.try_acquire());
    assert_eq!(g.permits_taken(), 2);
    g.release();
    assert!(g.try_acquire());
    assert_eq!(g.permit_count(), 2);
}

#[test]
fn scheduler_never_exceeds_capacity() {
    let mut s = FetchScheduler::new(5, 2);
    let mut started = Vec::new();
    let mut peak = 0;
    loop {
        match s.next_action() {
            FetchAction::Start(i) => started.push(i),
            FetchAction::Wait => s.on_complete(),
            FetchAction::Finished => break,
        }
        peak = peak.max(s.fetches_in_flight());
        assert!(s.fetches_in_flight() <= 2);
    }
    assert_eq!(peak, 2);
    assert_eq!(started, vec![0, 1, 2, 3, 4]);
    assert_eq!(s.fetches_in_flight(), 0);
}

#[test]
fn facts_for_two_entities_fill_two_records() {
    let mut a = Aggregator::new("20231102".to_string());
    for (k, v) in [10, 20, 30, 40, 50].iter().enumerate() {
        a.add(fact("A", k, *v));
        a.add(fact("B", k, -*v));
    }
    let records = a.into_records();
    assert_eq!(records.len(), 2);
    assert_eq!(find(&records, "A").concentration, vec![10, 20, 30, 40, 50]);
    assert_eq!(find(&records, "B").concentration, vec![-10, -20, -30, -40, -50]);
    assert_eq!(find(&records, "A").exchange_date, "20231102");
}

#[test]
fn missing_slots_default_to_zero_and_last_write_wins() {
    let mut a = Aggregator::new("d".to_string());
    a.add(fact("X", 2, 7));
    a.add(fact("X", 2, 9));
    let records = a.into_records();
    assert_eq!(records.len(), 1);
    assert_eq!(records[0].concentration, vec![0, 0, 9, 0, 0]);
    assert_eq!(records[0].concentration.len(), SLOT_COUNT);
}

#[test]
fn full_run_over_two_entities() {
    let descriptors = generate_urls("KEY", &stocks(&["2330", "2363"]));
    let payloads: Vec<Payload> = descriptors
        .iter()
        .enumerate()
        .map(|(n, d)| payload(&d.locator, markup(&format!("{}", 1000 + n), &format!("{}", n))))
        .collect();
    let records = aggregate(payloads, "20231102".to_string());
    assert_eq!(records.len(), 2);
    assert_eq!(find(&records, "2330").concentration, vec![1000, 1000, 1000, 1000, 1000]);
    assert_eq!(find(&records, "2363").concentration, vec![1000, 1000, 1000, 1000, 1000]);
}

#[test]
fn failures_for_one_entity_leave_the_other_whole() {
    let descriptors = generate_urls("KEY", &stocks(&["1111", "2222"]));
    let payloads: Vec<Payload> = descriptors
        .iter()
        .filter(|d| d.entity_id == "2222")
        .map(|d| payload(&d.locator, markup("1,500", &format!("{}", d.slot_index))))
        .collect();
    let records = aggregate(payloads, "20231102".to_string());
    assert_eq!(records.len(), 1);
    assert_eq!(records[0].stock_id, "2222");
    assert_eq!(records[0].concentration, vec![1500, 1499, 1498, 1497, 1496]);
}

#[test]
fn unparseable_payloads_are_dropped() {
    let good = payload("zco_3333_2.djhtm", markup("7", "2"));
    let bad_locator = payload("https://example.com/", markup("1", "1"));
    let bad_number = payload("zco_4444_1.djhtm", markup("x", "1"));
    let records = aggregate(vec![bad_locator, good, bad_number], "d".to_string());
    assert_eq!(records.len(), 1);
    assert_eq!(records[0].stock_id, "3333");
    assert_eq!(records[0].concentration, vec![0, 5, 0, 0, 0]);
}

#[test]
fn new_record_is_zeroed() {
    let m = Model::new("9".to_string(), "20240101".to_string());
    assert_eq!(m.concentration, vec![0; SLOT_COUNT]);
}
