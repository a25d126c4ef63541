use dice_roller::DiceError;
use dice_roller::dice_result;
use dice_roller::roll;

#[test]
fn test_missing_sides() {
    assert!(matches!(roll("2d"), Err(DiceError::InvalidFormat(_))));
}

#[test]
fn test_missing_die_marker() {
    assert!(matches!(roll("6"), Err(DiceError::InvalidFormat(_))));
}

#[test]
fn test_quantity_below_minimum() {
    assert!(matches!(roll("0d6"), Err(DiceError::InvalidQuantity(0))));
}

#[test]
fn test_invalid_die_size() {
    assert!(matches!(roll("2d0"), Err(DiceError::InvalidDieSize(0))));
}

#[test]
fn test_quantity_limit_exceeded() {
    assert!(matches!(
        roll("1001d6"),
        Err(DiceError::QuantityLimitExceeded(1001))
    ));
}

#[test]
fn test_quantity_overflow() {
    match roll("99999999999d6") {
        Err(DiceError::ParseError(run)) => assert_eq!(run, "99999999999"),
        other => panic!("expected a parse error, got {:?}", other),
    }
}

#[test]
fn test_sides_overflow() {
    match roll("2d99999999999") {
        Err(DiceError::ParseError(run)) => assert_eq!(run, "99999999999"),
        other => panic!("expected a parse error, got {:?}", other),
    }
}

#[test]
fn test_modifier_overflow() {
    assert!(matches!(
        roll("2d6+2147483648"),
        Err(DiceError::ParseError(_))
    ));
    assert!(matches!(roll("2d6-2147483648"), Ok(_)));
}

#[test]
fn test_sign_without_digits() {
    assert!(matches!(roll("2d6+"), Err(DiceError::InvalidFormat(_))));
}

#[test]
fn test_trailing_content() {
    match roll("2d6 nonsense") {
        Err(DiceError::InvalidFormat(rest)) => assert_eq!(rest, "nonsense"),
        other => panic!("expected a format error, got {:?}", other),
    }
}

#[test]
fn test_empty_expression() {
    assert!(matches!(roll(""), Err(DiceError::InvalidFormat(_))));
}

#[test]
fn test_whitespace_inside_notation() {
    assert!(matches!(roll("2 d6"), Err(DiceError::InvalidFormat(_))));
    assert!(matches!(roll("2d 6"), Err(DiceError::InvalidFormat(_))));
    assert!(matches!(roll("2d6+ 5"), Err(DiceError::InvalidFormat(_))));
}

#[test]
fn test_error_messages() {
    let e = roll("0d6").unwrap_err();
    assert_eq!(e.message(), "Invalid quantity: 0 (must be 1-1000)");
    let e = roll("2d0").unwrap_err();
    assert_eq!(e.message(), "Invalid die size: d0 (must be positive)");
    let e = roll("1001d6").unwrap_err();
    assert_eq!(e.message(), "Quantity limit exceeded: 1001 (maximum is 1000)");
    let e = roll("oops").unwrap_err();
    assert_eq!(e.message(), "Invalid dice notation format: oops");
    let e = roll("99999999999d6").unwrap_err();
    assert_eq!(e.message(), "Parse error: 99999999999");
}

#[test]
fn test_parse_level_format_error_holds_expression() {
    match dice_result("2d") {
        Err(DiceError::InvalidFormat(d)) => assert_eq!(d, "2d"),
        other => panic!("expected a format error, got {:?}", other),
    }
}
