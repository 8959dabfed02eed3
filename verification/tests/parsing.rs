use pi_lattice::parse::parse_size;

#[test]
fn rejects_letters() {
    assert_eq!(parse_size("abc"), None);
}

#[test]
fn rejects_mixed_input() {
    assert_eq!(parse_size("10x4"), None);
    assert_eq!(parse_size(" 1024"), None);
    assert_eq!(parse_size("1024 "), None);
}

#[test]
fn rejects_signs() {
    assert_eq!(parse_size("+1024"), None);
    assert_eq!(parse_size("-1024"), None);
}

#[test]
fn rejects_empty() {
    assert_eq!(parse_size(""), None);
}

#[test]
fn rejects_zero() {
    assert_eq!(parse_size("0"), None);
    assert_eq!(parse_size("0000"), None);
}

#[test]
fn accepts_decimal_sizes() {
    assert_eq!(parse_size("8"), Some(8));
    assert_eq!(parse_size("1024"), Some(1024));
    assert_eq!(parse_size("4096"), Some(4096));
    assert_eq!(parse_size("0008"), Some(8));
}

#[test]
fn bounds_at_32_bits() {
    assert_eq!(parse_size("4294967295"), Some(u32::MAX));
    assert_eq!(parse_size("4294967296"), None);
    assert_eq!(parse_size("99999999999999999999"), None);
}
