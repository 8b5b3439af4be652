use subrass::renderer::drawing::{DrawingParser, NumberToken};

fn chars(s: &str) -> Vec<char> {
    s.chars().collect()
}

#[test]
fn scan_number_reads_sign_digits_and_fraction() {
    let c = chars("  -12.50,3");
    let (end, tok) = DrawingParser::scan_number(&c, 0);
    assert_eq!(end, 8);
    assert_eq!(tok, Some(NumberToken { negative: true, int_lo: 3, int_hi: 5, frac_lo: 6, frac_hi: 8 }));
    let (end2, tok2) = DrawingParser::scan_number(&c, end);
    assert_eq!(end2, 10);
    assert_eq!(tok2, Some(NumberToken { negative: false, int_lo: 9, int_hi: 10, frac_lo: 10, frac_hi: 10 }));
}

#[test]
fn scan_number_without_leading_digits_is_no_number() {
    let c = chars("+.5 x");
    let (end, tok) = DrawingParser::scan_number(&c, 0);
    assert_eq!(end, 3);
    assert_eq!(tok, None);
    let c2 = chars("l");
    assert_eq!(DrawingParser::scan_number(&c2, 0), (0, None));
    assert_eq!(DrawingParser::scan_number(&c2, 1), (1, None));
}
