use dice_roller::RollResult;

#[test]
fn display_with_positive_modifier() {
    let result = RollResult {
        total: 9,
        dice_rolls: vec![4, 2],
        modifier: 5,
    };

    assert_eq!(result.to_string(), "[4, 2] + 5 = 9");
}

#[test]
fn test_display_with_negative_modifier() {
    let result = RollResult {
        total: 9,
        dice_rolls: vec![1, 7, 3],
        modifier: -2,
    };
    assert_eq!(result.to_string(), "[1, 7, 3] - 2 = 9");
}

#[test]
fn test_display_with_zero_modifier() {
    let result = RollResult {
        total: 18,
        dice_rolls: vec![18],
        modifier: 0,
    };
    assert_eq!(result.to_string(), "[18] = 18");
}

#[test]
fn test_display_empty_rolls() {
    let result = RollResult {
        total: 0,
        dice_rolls: vec![],
        modifier: 0,
    };
    assert_eq!(result.to_string(), "[] = 0");
}

#[test]
fn test_display_negative_values() {
    let result = RollResult {
        total: -11,
        dice_rolls: vec![-4, 0, -7],
        modifier: 0,
    };
    assert_eq!(result.to_string(), "[-4, 0, -7] = -11");
}

#[test]
fn test_display_single_roll_with_modifier() {
    let result = RollResult {
        total: 1,
        dice_rolls: vec![10],
        modifier: -9,
    };
    assert_eq!(result.to_string(), "[10] - 9 = 1");
}
