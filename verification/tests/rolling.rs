use dice_roller::DiceRequest;
use dice_roller::evaluate;
use dice_roller::evaluate_seeded;
use dice_roller::roll;
use dice_roller::roll_with_seed;

#[test]
fn test_roll_counts_and_ranges() {
    let result = roll("1000d6").unwrap();
    assert_eq!(result.dice_rolls.len(), 1000);
    assert!(result.dice_rolls.iter().all(|&d| (1..=6).contains(&d)));
    let sum: i64 = result.dice_rolls.iter().map(|&d| d as i64).sum();
    assert_eq!(result.total, sum);
}

#[test]
fn test_roll_total_includes_modifier() {
    let result = roll("2d8+5").unwrap();
    let sum: i64 = result.dice_rolls.iter().map(|&d| d as i64).sum();
    assert_eq!(result.total, sum + 5);
    assert_eq!(result.modifier, 5);
}

#[test]
fn test_one_sided_dice_are_exact() {
    let result = roll("3d1+5").unwrap();
    assert_eq!(result.dice_rolls, vec![1, 1, 1]);
    assert_eq!(result.total, 8);
    let result = roll("d1-3").unwrap();
    assert_eq!(result.dice_rolls, vec![1]);
    assert_eq!(result.total, -2);
}

#[test]
fn test_seeded_roll_is_deterministic() {
    let seed = [7u8; 32];
    let first = roll_with_seed("10d20+3", seed).unwrap();
    let second = roll_with_seed("10d20+3", seed).unwrap();
    assert_eq!(first.dice_rolls, second.dice_rolls);
    assert_eq!(first.total, second.total);
    assert_eq!(first.modifier, second.modifier);
}

#[test]
fn test_seeded_evaluation_is_deterministic() {
    let request = DiceRequest {
        quantity: 5,
        sides: 12,
        modifier: -2,
    };
    let mut seed = [0u8; 32];
    for (i, b) in seed.iter_mut().enumerate() {
        *b = i as u8;
    }
    let first = evaluate_seeded(&request, seed);
    let second = evaluate_seeded(&request, seed);
    assert_eq!(first.dice_rolls, second.dice_rolls);
    assert_eq!(first.total, second.total);
    assert_eq!(first.modifier, second.modifier);
    assert_eq!(first.dice_rolls.len(), 5);
    assert!(first.dice_rolls.iter().all(|&d| (1..=12).contains(&d)));
}

#[test]
fn test_all_zero_seed_is_accepted() {
    let seed = [0u8; 32];
    let first = roll_with_seed("4d6", seed).unwrap();
    let second = roll_with_seed("4d6", seed).unwrap();
    assert_eq!(first.dice_rolls, second.dice_rolls);
    assert_eq!(first.total, second.total);
    assert_eq!(first.dice_rolls.len(), 4);
    assert!(first.dice_rolls.iter().all(|&d| (1..=6).contains(&d)));
}

#[test]
fn test_evaluate_respects_request() {
    let request = DiceRequest {
        quantity: 100,
        sides: 4,
        modifier: 7,
    };
    let result = evaluate(&request);
    assert_eq!(result.dice_rolls.len(), 100);
    assert!(result.dice_rolls.iter().all(|&d| (1..=4).contains(&d)));
    let sum: i64 = result.dice_rolls.iter().map(|&d| d as i64).sum();
    assert_eq!(result.total, sum + 7);
    assert_eq!(result.modifier, 7);
}

#[test]
fn test_largest_die_size() {
    let seed = [42u8; 32];
    let result = roll_with_seed("1000d2147483647", seed).unwrap();
    assert_eq!(result.dice_rolls.len(), 1000);
    assert!(result.dice_rolls.iter().all(|&d| d >= 1));
    let sum: i64 = result.dice_rolls.iter().map(|&d| d as i64).sum();
    assert_eq!(result.total, sum);
}

#[test]
fn test_roll_renders() {
    let seed = [9u8; 32];
    let result = roll_with_seed("2d6+5", seed).unwrap();
    let text = result.to_string();
    assert!(text.starts_with('['));
    assert!(text.ends_with(&format!("= {}", result.total)));
    assert!(text.contains(" + 5 "));
}
