use crawler::model::Model;
use crawler::report::push_int;

#[test]
fn record_as_json_line() {
    let mut m = Model::new("2330".to_string(), "20231102".to_string());
    m.concentration = vec![916, -5173, 0, 12, i64::MIN];
    assert_eq!(
        m.to_json(),
        "{\"entity_id\":\"2330\",\"as_of\":\"20231102\",\"slots\":[916,-5173,0,12,-9223372036854775808]}"
    );
}

#[test]
fn json_strings_are_escaped() {
    let m = Model::new("a\"b\\c\n".to_string(), "d".to_string());
    assert_eq!(
        m.to_json(),
        "{\"entity_id\":\"a\\\"b\\\\c\\u000a\",\"as_of\":\"d\",\"slots\":[0,0,0,0,0]}"
    );
}

#[test]
fn integers_in_decimal() {
    let mut s = String::from("x");
    push_int(&mut s, 1234567890);
    push_int(&mut s, -7);
    push_int(&mut s, i64::MAX);
    assert_eq!(s, "x1234567890-79223372036854775807");
}
