use skipngo::query::parse_url_query_string;

#[test]
fn test_parse_url_query_string() {
    assert_eq!(
        Some("info"),
        parse_url_query_string("?RUST_LOG=info", "RUST_LOG")
    );
    assert_eq!(
        Some("debug"),
        parse_url_query_string("?RUST_LOG=debug&hello=world&foo=bar", "RUST_LOG")
    );
    assert_eq!(
        Some("trace"),
        parse_url_query_string("?hello=world&RUST_LOG=trace&foo=bar", "RUST_LOG")
    );
    assert_eq!(
        None,
        parse_url_query_string("?hello=world&foo=bar", "RUST_LOG")
    );
}

#[test]
fn query_without_question_mark_has_no_values() {
    assert_eq!(None, parse_url_query_string("RUST_LOG=info", "RUST_LOG"));
    assert_eq!(None, parse_url_query_string("", "RUST_LOG"));
}

#[test]
fn query_pair_without_equals_ends_the_search() {
    assert_eq!(None, parse_url_query_string("?flag&RUST_LOG=info", "RUST_LOG"));
    assert_eq!(Some(""), parse_url_query_string("?RUST_LOG=", "RUST_LOG"));
}

#[test]
fn query_value_stops_at_second_equals() {
    assert_eq!(Some("a"), parse_url_query_string("?k=a=b&x=y", "k"));
    assert_eq!(Some("ü"), parse_url_query_string("?k=ü", "k"));
}
