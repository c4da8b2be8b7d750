use vpi_export::literal::{parse_vector_literal, LiteralError};
use vpi_export::BitVector;

#[test]
fn binary_literal_with_width() {
    let lit = parse_vector_literal("30'b001").unwrap();
    assert_eq!(lit.width, 30);
    assert_eq!(lit.words, vec![1]);
    let lit = parse_vector_literal("2'b10").unwrap();
    assert_eq!(lit.width, 2);
    assert_eq!(lit.words, vec![2]);
}

#[test]
fn literal_without_width_takes_digit_count() {
    let lit = parse_vector_literal("'b101").unwrap();
    assert_eq!(lit.width, 3);
    assert_eq!(lit.words, vec![5]);
}

#[test]
fn width_that_overflows_takes_digit_count() {
    let lit = parse_vector_literal("99999999999999999999999'b1").unwrap();
    assert_eq!(lit.width, 1);
    assert_eq!(lit.words, vec![1]);
}

#[test]
fn long_literal_spans_words() {
    let text = format!("'b1{}", "0".repeat(39));
    let lit = parse_vector_literal(&text).unwrap();
    assert_eq!(lit.width, 40);
    assert_eq!(lit.words, vec![0, 0x80]);
    let v = BitVector::<40>::from_raw(&lit.words);
    assert_eq!(v.debug_string(), format!("40'b1{}", "0".repeat(39)));
}

#[test]
fn empty_digits() {
    let lit = parse_vector_literal("4'b").unwrap();
    assert_eq!(lit.width, 4);
    assert_eq!(lit.words, Vec::<u32>::new());
}

#[test]
fn other_encodings_are_unsupported() {
    assert!(matches!(parse_vector_literal("4'd12"), Err(LiteralError::UnsupportedEncoding)));
    assert!(matches!(parse_vector_literal("8'hff"), Err(LiteralError::UnsupportedEncoding)));
    assert!(matches!(parse_vector_literal("3'o7"), Err(LiteralError::UnsupportedEncoding)));
    assert!(matches!(parse_vector_literal("3'|1"), Err(LiteralError::UnsupportedEncoding)));
}

#[test]
fn non_binary_digit_is_refused() {
    assert!(matches!(parse_vector_literal("4'b102"), Err(LiteralError::InvalidBinaryDigit)));
    assert!(matches!(parse_vector_literal("4'b1a"), Err(LiteralError::InvalidBinaryDigit)));
}

#[test]
fn malformed_text_is_not_a_vector() {
    assert!(matches!(parse_vector_literal("4'x1"), Err(LiteralError::NotAVector)));
    assert!(matches!(parse_vector_literal("abc"), Err(LiteralError::NotAVector)));
    assert!(matches!(parse_vector_literal("4b01"), Err(LiteralError::NotAVector)));
    assert!(matches!(parse_vector_literal("4'"), Err(LiteralError::NotAVector)));
    assert!(matches!(parse_vector_literal(""), Err(LiteralError::NotAVector)));
    assert!(matches!(parse_vector_literal("4'b01z"), Err(LiteralError::NotAVector)));
    assert!(matches!(parse_vector_literal("x4'b01"), Err(LiteralError::NotAVector)));
}
