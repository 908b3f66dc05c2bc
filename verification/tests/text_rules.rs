use casetrack::text::{find_char, is_blank, is_end_sentinel, rfind_char, to_decimal};

#[test]
fn fin_sentinel_ignores_case_and_whitespace() {
    assert!(is_end_sentinel("FIN"));
    assert!(is_end_sentinel("fin"));
    assert!(is_end_sentinel("Fin"));
    assert!(is_end_sentinel("fIN"));
    assert!(is_end_sentinel("  FIN  "));
    assert!(is_end_sentinel("\tfin\n"));
    assert!(is_end_sentinel(" FiN"));
}

#[test]
fn fin_sentinel_rejects_everything_else() {
    assert!(!is_end_sentinel(""));
    assert!(!is_end_sentinel("   "));
    assert!(!is_end_sentinel("FINAL"));
    assert!(!is_end_sentinel("afin"));
    assert!(!is_end_sentinel("F I N"));
    assert!(!is_end_sentinel("FI"));
    assert!(!is_end_sentinel("el caso FIN"));
    assert!(!is_end_sentinel("FÍN"));
}

#[test]
fn blank_means_empty_or_whitespace_only() {
    assert!(is_blank(""));
    assert!(is_blank("   "));
    assert!(is_blank(" \t\r\n"));
    assert!(is_blank("\u{a0}\u{2003}"));
    assert!(!is_blank("x"));
    assert!(!is_blank("  x  "));
}

#[test]
fn decimal_rendering_is_exact() {
    assert_eq!(to_decimal(0), "0");
    assert_eq!(to_decimal(7), "7");
    assert_eq!(to_decimal(10), "10");
    assert_eq!(to_decimal(907), "907");
    assert_eq!(to_decimal(123456), "123456");
}

#[test]
fn char_search_finds_first_and_last() {
    assert_eq!(find_char("a:b:c", ':'), 1);
    assert_eq!(find_char("abc", ':'), 3);
    assert_eq!(rfind_char("a:b:c", ':'), Some(3));
    assert_eq!(rfind_char("abc", ':'), None);
}
