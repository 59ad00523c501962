use arrayvec::ArrayVec;
use cybersecurity_rrt_logic::defs::OperatorType;
use cybersecurity_rrt_logic::defs::OperatorType::{Biggs, Charm, Sniper};
use cybersecurity_rrt_logic::game::{Difficulty, GameConfig, GameConfigError};

#[test]
fn valid_game_config() {
    let operators = [Biggs, Charm, Sniper];
    let config = GameConfig::new(Difficulty::Easy, ArrayVec::from_iter(operators.clone())).unwrap();

    assert!(matches!(config.difficulty, Difficulty::Easy));
    assert!(config.operators.iter().eq(operators.iter()));
}

#[test]
fn requires_operators() {
    let config = GameConfig::new(Difficulty::Easy, ArrayVec::new()).unwrap_err();
    assert!(matches!(config, GameConfigError::NoOperators));
}

#[test]
fn requires_unique_operators() {
    validate_unique_operators(3, vec![Biggs, Charm, Sniper, Charm]);
    validate_unique_operators(1, vec![Biggs, Biggs, Sniper, Charm]);
    validate_unique_operators(3, vec![Biggs, Sniper, Charm, Charm]);
}

fn validate_unique_operators(dupe_idx: u8, operators: Vec<OperatorType>) {
    let expected = operators[dupe_idx as usize];
    let config = GameConfig::new(Difficulty::Easy, ArrayVec::from_iter(operators)).unwrap_err();
    assert!(matches!(
        config,
        GameConfigError::DuplicateOperator(t) if t == expected
    ));
}

#[test]
fn single_operator_is_enough() {
    let config = GameConfig::new(Difficulty::Heroic, ArrayVec::from_iter([Charm])).unwrap();
    assert_eq!(config.operators.len(), 1);
    assert_eq!(config.operators[0], Charm);
}
