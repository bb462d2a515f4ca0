use datafusion::execution::numeral::parse_number;
use datafusion::execution::schema::{Field, Schema};
use datafusion::execution::types::{dec_eq, dec_le, dec_lt, DataType, DecimalValue, ScalarValue};

fn dec(mantissa: i64, scale: u32) -> DecimalValue {
    DecimalValue { mantissa, scale }
}

#[test]
fn decimal_ordering_is_exact_across_scales() {
    // 51.5 < 53, 51.4 < 51.5, and not the other way round
    assert!(dec_lt(dec(515, 1), dec(53, 0)));
    assert!(dec_lt(dec(514, 1), dec(515, 1)));
    assert!(!dec_lt(dec(53, 0), dec(515, 1)));
    // -0.1 < 0.1
    assert!(dec_lt(dec(-1, 1), dec(1, 1)));
    // 51.50 == 51.5 although the representations differ
    assert!(dec_eq(dec(5150, 2), dec(515, 1)));
    assert!(dec_le(dec(5150, 2), dec(515, 1)));
    assert!(!dec_eq(dec(5151, 2), dec(515, 1)));
}

#[test]
fn numerals_parse_to_exact_values() {
    assert_eq!(parse_number("53"), Some(ScalarValue::Int64(53)));
    assert_eq!(parse_number("-7"), Some(ScalarValue::Int64(-7)));
    assert_eq!(parse_number("51.0"), Some(ScalarValue::Decimal(dec(510, 1))));
    assert_eq!(parse_number("-0.1"), Some(ScalarValue::Decimal(dec(-1, 1))));
    assert_eq!(parse_number("0.125"), Some(ScalarValue::Decimal(dec(125, 3))));
    assert_eq!(
        parse_number("9223372036854775807"),
        Some(ScalarValue::Int64(i64::MAX))
    );
}

#[test]
fn malformed_numerals_are_rejected() {
    assert_eq!(parse_number(""), None);
    assert_eq!(parse_number("-"), None);
    assert_eq!(parse_number("1."), None);
    assert_eq!(parse_number(".5"), None);
    assert_eq!(parse_number("1.2.3"), None);
    assert_eq!(parse_number("12a"), None);
    // one past the largest mantissa
    assert_eq!(parse_number("9223372036854775808"), None);
    // more fractional digits than a well-formed decimal may carry
    assert_eq!(parse_number("0.1234567890123456789"), None);
}

#[test]
fn column_names_resolve_to_the_first_match() {
    let schema = Schema::new(vec![
        Field::new("a".to_string(), DataType::Utf8, false),
        Field::new("b".to_string(), DataType::Decimal, true),
        Field::new("a".to_string(), DataType::Int64, false),
    ]);
    assert_eq!(schema.index_of("a"), Some(0));
    assert_eq!(schema.index_of("b"), Some(1));
    assert_eq!(schema.index_of("c"), None);
    // case-sensitive exact match
    assert_eq!(schema.index_of("A"), None);
}
