use dice_roller::dice_result;
use dice_roller::str_to_i32;
use dice_roller::str_to_i32_or_one;

#[test]
fn test_parse_dx() {
    let (remaining, request) = dice_result("d6").unwrap();
    assert_eq!(remaining, "");
    assert_eq!(request.quantity, 1);
    assert_eq!(request.sides, 6);
    assert_eq!(request.modifier, 0);
}

#[test]
fn test_parse_simple_adx() {
    let (remaining, request) = dice_result("2d6").unwrap();
    assert_eq!(remaining, "");
    assert_eq!(request.quantity, 2);
    assert_eq!(request.sides, 6);
    assert_eq!(request.modifier, 0);
}

#[test]
fn test_parse_with_positive_modifier() {
    let (remaining, request) = dice_result("2d6+5").unwrap();
    assert_eq!(remaining, "");
    assert_eq!(request.quantity, 2);
    assert_eq!(request.sides, 6);
    assert_eq!(request.modifier, 5);
}

#[test]
fn test_parse_with_negative_modifier() {
    let (remaining, request) = dice_result("2d6-5").unwrap();
    assert_eq!(remaining, "");
    assert_eq!(request.quantity, 2);
    assert_eq!(request.sides, 6);
    assert_eq!(request.modifier, -5);
}

#[test]
fn test_parse_with_whitespace() {
    let (remaining, request) = dice_result(" 2d6 +5").unwrap();
    assert_eq!(remaining, "");
    assert_eq!(request.quantity, 2);
    assert_eq!(request.sides, 6);
    assert_eq!(request.modifier, 5);
}

#[test]
fn test_parse_upper_case_marker() {
    let (remaining, request) = dice_result("3D20").unwrap();
    assert_eq!(remaining, "");
    assert_eq!(request.quantity, 3);
    assert_eq!(request.sides, 20);
    assert_eq!(request.modifier, 0);
}

#[test]
fn test_parse_leading_zeros() {
    let (remaining, request) = dice_result("007d010").unwrap();
    assert_eq!(remaining, "");
    assert_eq!(request.quantity, 7);
    assert_eq!(request.sides, 10);
    assert_eq!(request.modifier, 0);
}

#[test]
fn test_parse_surrounding_whitespace() {
    let (remaining, request) = dice_result("  10d12 -3  ").unwrap();
    assert_eq!(remaining, "");
    assert_eq!(request.quantity, 10);
    assert_eq!(request.sides, 12);
    assert_eq!(request.modifier, -3);
}

#[test]
fn test_parse_keeps_trailing_content() {
    let (remaining, request) = dice_result("2d6 rest").unwrap();
    assert_eq!(remaining, "rest");
    assert_eq!(request.quantity, 2);
    assert_eq!(request.sides, 6);
    assert_eq!(request.modifier, 0);
}

#[test]
fn test_str_to_i32_bounds() {
    assert_eq!(str_to_i32("2147483647").unwrap(), 2147483647);
    assert!(str_to_i32("2147483648").is_err());
    assert_eq!(str_to_i32("-2147483648").unwrap(), -2147483648);
    assert!(str_to_i32("-2147483649").is_err());
    assert_eq!(str_to_i32("+41").unwrap(), 41);
    assert!(str_to_i32("").is_err());
    assert!(str_to_i32("12a").is_err());
    assert!(str_to_i32("+").is_err());
}

#[test]
fn test_str_to_i32_or_one_default() {
    assert_eq!(str_to_i32_or_one("").unwrap(), 1);
    assert_eq!(str_to_i32_or_one("9").unwrap(), 9);
}
