use kercat::ports::{expand_token, find_byte, parse_port, parse_port_ranges};

#[test]
fn expand_single_port() {
    assert_eq!(parse_port_ranges(b"80"), vec![80]);
}

#[test]
fn expand_range() {
    assert_eq!(parse_port_ranges(b"80-82"), vec![80, 81, 82]);
}

#[test]
fn expand_list() {
    assert_eq!(parse_port_ranges(b"80,443"), vec![80, 443]);
}

#[test]
fn expand_reversed_range_rejected() {
    assert_eq!(parse_port_ranges(b"90-80"), Vec::<u16>::new());
}

#[test]
fn expand_malformed_token_skipped() {
    assert_eq!(parse_port_ranges(b"abc,443"), vec![443]);
}

#[test]
fn expand_mixed_tokens() {
    assert_eq!(parse_port_ranges(b"80,8000-8002,443"), vec![80, 8000, 8001, 8002, 443]);
}

#[test]
fn expand_empty_input() {
    assert_eq!(parse_port_ranges(b""), Vec::<u16>::new());
}

#[test]
fn expand_preserves_duplicates() {
    assert_eq!(parse_port_ranges(b"80,80,79-81"), vec![80, 80, 79, 80, 81]);
}

#[test]
fn expand_out_of_range_value_skipped() {
    assert_eq!(parse_port_ranges(b"65536"), Vec::<u16>::new());
    assert_eq!(parse_port_ranges(b"65535"), vec![65535]);
    assert_eq!(parse_port_ranges(b"99999999999999999999,7"), vec![7]);
}

#[test]
fn expand_wrong_arity_range_skipped() {
    assert_eq!(parse_port_ranges(b"1-2-3"), Vec::<u16>::new());
    assert_eq!(parse_port_ranges(b"1-2-3,5"), vec![5]);
}

#[test]
fn expand_range_with_missing_bound_skipped() {
    assert_eq!(parse_port_ranges(b"80-"), Vec::<u16>::new());
    assert_eq!(parse_port_ranges(b"-80"), Vec::<u16>::new());
}

#[test]
fn expand_single_element_range() {
    assert_eq!(parse_port_ranges(b"80-80"), vec![80]);
}

#[test]
fn parse_port_plain() {
    assert_eq!(parse_port(b"8000"), Some(8000));
    assert_eq!(parse_port(b"0"), Some(0));
    assert_eq!(parse_port(b"007"), Some(7));
}

#[test]
fn parse_port_rejects_bad_tokens() {
    assert_eq!(parse_port(b""), None);
    assert_eq!(parse_port(b"8a"), None);
    assert_eq!(parse_port(b"65536"), None);
    assert_eq!(parse_port(b" 80"), None);
}

#[test]
fn expand_token_single() {
    assert_eq!(expand_token(b"443"), vec![443]);
    assert_eq!(expand_token(b"442-444"), vec![442, 443, 444]);
    assert_eq!(expand_token(b"x"), Vec::<u16>::new());
}

#[test]
fn find_byte_first_occurrence() {
    assert_eq!(find_byte(b"a-b-c", b'-'), 1);
    assert_eq!(find_byte(b"abc", b'-'), 3);
}
