use rocky_rs::normalize::quote_strings;

#[test]
fn wraps_identifier_tokens() {
    assert_eq!(quote_strings("test"), "\"test\"");
    assert_eq!(quote_strings("a b"), "\"a\" \"b\"");
}

#[test]
fn leaves_numbers_bare() {
    assert_eq!(quote_strings("123"), "123");
    assert_eq!(quote_strings("12.5"), "12.5");
}

#[test]
fn collapses_doubled_quotes() {
    assert_eq!(quote_strings("\"test\""), "\"test\"");
}

#[test]
fn drops_trailing_comma() {
    assert_eq!(quote_strings("{ MsgSize: 4096, }"), "{ \"MsgSize\": 4096}");
    assert_eq!(quote_strings("[1, 2, ]"), "[1, 2]");
}

#[test]
fn malformed_report_blob_becomes_strict_json() {
    let blob = "{ test: foo, Dual_port: OFF, BW_peak: 12.5, MsgSize: 4096, n_iterations: 10, }";
    let normalized = quote_strings(blob);
    assert_eq!(
        normalized,
        "{ \"test\": \"foo\", \"Dual_port\": \"OFF\", \"BW_peak\": 12.5, \"MsgSize\": 4096, \"n_iterations\": 10}"
    );
}

#[test]
fn normalization_is_idempotent_on_report_blobs() {
    let blobs = [
        "{ test: foo, Dual_port: OFF, BW_peak: 12.5, MsgSize: 4096, n_iterations: 10, }",
        "{ already: \"quoted\", nr: 7 }",
        "[a, b, c, ]",
        "plain words only",
        "{ nested: { inner: value, }, }",
        "",
    ];
    for blob in blobs {
        let once = quote_strings(blob);
        let twice = quote_strings(&once);
        assert_eq!(once, twice);
    }
}

#[test]
fn underscore_run_is_not_a_token() {
    assert_eq!(quote_strings("_x"), "_x");
    assert_eq!(quote_strings("9lives"), "9lives");
}
