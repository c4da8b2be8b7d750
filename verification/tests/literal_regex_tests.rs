use regex::Regex;
use vpi_export::literal::{parse_vector_literal, LiteralError};

const SHAPE: &str = r"^(\d*)'([b|d|o|h])([0-9|a|b|c|d|e|f]*)$";

fn inputs() -> Vec<String> {
    let mut v: Vec<String> = [
        "30'b001", "2'b10", "'b101", "4'b", "'b", "4'd12", "8'hff", "3'o7", "3'|1", "3'b1|0",
        "4'b102", "4'b1a", "4'x1", "abc", "4b01", "4'", "", "4'b01z", "x4'b01", "\u{663}'b1",
        "\u{663}\u{664}'b101", "1\u{ff11}'b1", "\u{1d7ce}'b11", "12\u{663}'b1", "99999999999999999999999'b1",
        "0'b", "0'b1", "+3'b1", "3 'b1", "3'B1", "3''b1",
    ]
    .iter()
    .map(|s| s.to_string())
    .collect();
    v.push(format!("'b{}", "1".repeat(31)));
    v
}

/// What the literal's width is by the rule `width.parse().ok()`, falling
/// back to the number of digits.
fn width_by_rule(width: &str, digits: &str) -> usize {
    width.parse::<usize>().ok().unwrap_or(digits.chars().count())
}

#[test]
fn shape_agrees_with_the_regular_expression() {
    let re = Regex::new(SHAPE).unwrap();
    for text in inputs() {
        let parsed = parse_vector_literal(&text);
        match re.captures(&text) {
            None => assert!(matches!(parsed, Err(LiteralError::NotAVector)), "{text}"),
            Some(caps) => {
                let encoding = &caps[2];
                let digits = &caps[3];
                if encoding != "b" {
                    assert!(matches!(parsed, Err(LiteralError::UnsupportedEncoding)), "{text}");
                } else if digits.chars().any(|c| c != '0' && c != '1') {
                    assert!(matches!(parsed, Err(LiteralError::InvalidBinaryDigit)), "{text}");
                } else {
                    let lit = parsed.unwrap();
                    assert_eq!(lit.width, width_by_rule(&caps[1], digits), "{text}");
                    let value = if digits.is_empty() { 0 } else { u32::from_str_radix(digits, 2).unwrap() };
                    let first = lit.words.first().copied().unwrap_or(0);
                    assert_eq!(first, value, "{text}");
                }
            }
        }
    }
}

#[test]
fn unicode_digits_form_a_width_but_do_not_set_it() {
    let lit = parse_vector_literal("\u{663}'b1").unwrap();
    assert_eq!(lit.width, 1);
    let lit = parse_vector_literal("1\u{ff11}'b101").unwrap();
    assert_eq!(lit.width, 3);
}
