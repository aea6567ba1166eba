use dcs_tetrad::decimal::{format_fixed, format_int, format_u64, parse_fixed, parse_u64};

fn text(v: Vec<u8>) -> String {
    String::from_utf8(v).unwrap()
}

#[test]
fn unsigned_text() {
    assert_eq!(text(format_u64(0)), "0");
    assert_eq!(text(format_u64(1203)), "1203");
    assert_eq!(text(format_u64(u64::MAX)), "18446744073709551615");
}

#[test]
fn signed_text() {
    assert_eq!(text(format_int(-42)), "-42");
    assert_eq!(text(format_int(0)), "0");
    assert_eq!(text(format_int(i64::MIN)), "-9223372036854775808");
}

#[test]
fn fixed_text_has_eight_places() {
    assert_eq!(text(format_fixed(0)), "0.00000000");
    assert_eq!(text(format_fixed(1_600_000)), "0.01600000");
    assert_eq!(text(format_fixed(-150_000_000)), "-1.50000000");
    assert_eq!(text(format_fixed(-1)), "-0.00000001");
    assert_eq!(text(format_fixed(i64::MIN)), "-92233720368.54775808");
}

#[test]
fn parse_unsigned() {
    let s = b"x18446744073709551615y".to_vec();
    assert_eq!(parse_u64(&s, 1, 21), Some(u64::MAX));
    let over = b"18446744073709551616".to_vec();
    assert_eq!(parse_u64(&over, 0, over.len()), None);
    let empty = b"".to_vec();
    assert_eq!(parse_u64(&empty, 0, 0), None);
    let bad = b"12a".to_vec();
    assert_eq!(parse_u64(&bad, 0, 3), None);
}

#[test]
fn parse_fixed_values() {
    for t in [0i64, 1, -1, 1_600_000, -150_000_000, i64::MAX, i64::MIN] {
        let s = format_fixed(t);
        assert_eq!(parse_fixed(&s, 0, s.len()), Some(t));
    }
    let short = b"1.5".to_vec();
    assert_eq!(parse_fixed(&short, 0, short.len()), None);
    let big = b"92233720368.54775808".to_vec();
    assert_eq!(parse_fixed(&big, 0, big.len()), None);
}
