use sequent_gateway::text::{
    contains_str, decimal, join, push_hex2, push_hex4, split_char, trim,
};

#[test]
fn decimal_text() {
    assert_eq!(decimal(0), "0");
    assert_eq!(decimal(7), "7");
    assert_eq!(decimal(502), "502");
    assert_eq!(decimal(u64::MAX), "18446744073709551615");
}

#[test]
fn join_text() {
    let v: Vec<String> = vec!["a".into(), "bc".into(), "d".into()];
    assert_eq!(join(&v, ", "), "a, bc, d");
    assert_eq!(join(&v[..1], ", "), "a");
    assert_eq!(join(&[], " + "), "");
}

#[test]
fn contains_text() {
    assert!(contains_str("sequent megaind hat", "megaind"));
    assert!(!contains_str("mega", "megaind"));
    assert!(contains_str("abc", ""));
    assert!(contains_str("x", "x"));
}

#[test]
fn trim_matches_str_trim() {
    for s in ["  a b \t\n", "", "   ", "\u{a0}x\u{3000}", "abc"] {
        assert_eq!(trim(s), s.trim());
    }
}

#[test]
fn split_matches_str_split() {
    for s in ["1,2,3", "", ",", "a,,b,", "no-sep"] {
        let want: Vec<String> = s.split(',').map(|t| t.to_string()).collect();
        assert_eq!(split_char(s, ','), want);
    }
}

#[test]
fn hex_digits_are_upper_case() {
    let mut s = String::from("0x");
    push_hex2(&mut s, 0x0F);
    assert_eq!(s, "0x0F");
    let mut t = String::new();
    push_hex4(&mut t, 0xBEEF);
    assert_eq!(t, "BEEF");
}
