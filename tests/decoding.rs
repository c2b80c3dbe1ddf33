use crawler::decoding::decode;

#[test]
fn decode_keeps_utf8_text() {
    assert_eq!(decode("測試", encoding_rs::UTF_8), "測試");
}

#[test]
fn decode_ascii_in_big5() {
    assert_eq!(decode("abc 123", encoding_rs::BIG5), "abc 123");
}

#[test]
fn decode_reads_bytes_in_big5() {
    let input = "\u{fffd}D\u{fffd}O\u{fffd}\u{fffd}R\u{fffd}W";
    assert_eq!(decode(input, encoding_rs::UTF_8), input);
    assert_eq!(decode(input, encoding_rs::BIG5), "嚙瘩嚙瞌嚙踝蕭R嚙磕");
}
