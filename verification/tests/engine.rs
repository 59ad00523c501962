use arrayvec::ArrayVec;
use cybersecurity_rrt_logic::defs::{hacker, OperatorType, NO_HACKER};
use cybersecurity_rrt_logic::game::{
    Choice, ChoiceState, Difficulty, EventError, GameConfig, TableState,
};
use cybersecurity_rrt_logic::game::TableEvent::{
    ActiveOperator, Assist, DatabaseRemove, Face, FirewallDelta, Idle, RoundAdvance,
    WebserviceRemove,
};
use cybersecurity_rrt_logic::game::TableEvent;

fn all_operators() -> [OperatorType; 7] {
    [
        OperatorType::Stone,
        OperatorType::Sniper,
        OperatorType::Rogue,
        OperatorType::Biggs,
        OperatorType::Admin,
        OperatorType::Charm,
        OperatorType::Rich,
    ]
}

fn get_operators(operators: usize) -> ArrayVec<OperatorType, 7> {
    let chosen = all_operators();
    ArrayVec::from_iter(chosen[0..operators].iter().copied())
}

/// Any fixed seed keeps the tests reproducible
const SEED: u64 = 42;

/// Basic initial state with the given difficulty and 2 operators
fn initial_state(difficulty: Difficulty) -> TableState {
    TableState::setup_game(&GameConfig::new(difficulty, get_operators(2)).unwrap(), SEED)
}

fn initial_state_easy() -> TableState {
    initial_state(Difficulty::Easy)
}

fn difficulty_numbers(difficulty: &Difficulty) -> (usize, usize) {
    match difficulty {
        Difficulty::Easy => (3, 6),
        Difficulty::Normal => (2, 7),
        Difficulty::Hard => (1, 7),
        Difficulty::Heroic => (0, 7),
    }
}

fn check_setup(operators: usize, difficulty: Difficulty) {
    let (firewall_mod, hacker_mult) = difficulty_numbers(&difficulty);
    let config = GameConfig::new(difficulty, get_operators(operators)).unwrap();

    let state = TableState::setup_game(&config, SEED);
    assert_eq!(
        state.firewalls,
        (operators + firewall_mod) as u8,
        "firewalls = operators + bonus"
    );
    assert_eq!(state.databases, [true; 3]);
    assert_eq!(state.webservices, [true; 6]);

    assert_eq!(
        state.hackers.len(),
        operators * hacker_mult,
        "hackers = operators * multiplier"
    );
    let mut seen = Vec::new();
    for card in state.hackers.iter() {
        assert!(!card.face_up, "face down");
        assert!(!seen.contains(&card.hacker), "no id drawn twice");
        seen.push(card.hacker);
        let h = hacker(card.hacker);
        assert!(h.value() <= 4, "not lieutenant or boss");
    }

    assert!(state.discard.is_empty());
    assert!(state.breach.is_empty());
    assert_eq!(state.round, 0);
    assert_eq!(state.active_operator, 0);
    assert_eq!(state.facing, NO_HACKER);

    assert_eq!(state.operators.len(), operators);
    for (i, op) in state.operators.iter().enumerate() {
        assert_eq!(op.secure_slots, [NO_HACKER; 3]);
        assert!(op.backtrace_list.is_empty());
        assert!(!op.idle);
        assert!(!op.burnout);
        assert!(!op.desperation);
        assert_eq!(op.skills.len(), 1);
        assert_eq!(op.skills[0], all_operators()[i]);
    }

    assert!(matches!(state.choice_state, ChoiceState::ChooseAction(0)));
}

#[test]
fn sets_up_game() {
    check_setup(1, Difficulty::Easy);
    check_setup(2, Difficulty::Easy);
    check_setup(3, Difficulty::Hard);
    check_setup(4, Difficulty::Heroic);
    check_setup(7, Difficulty::Heroic);
    check_setup(7, Difficulty::Easy);
    check_setup(7, Difficulty::Normal);
}

fn check_valid_choice_choose_action(operators: usize, has_hackers: bool) {
    let mut state = TableState::setup_game(
        &GameConfig::new(Difficulty::Easy, get_operators(operators)).unwrap(),
        SEED,
    );
    if !has_hackers {
        state.hackers.clear();
    }
    let choices = state.valid_choices();
    let mut expected_choices = vec![Choice::Idle];
    if has_hackers {
        expected_choices.push(Choice::Face);
    }
    for i in 0..operators {
        if i != state.active_operator as usize {
            expected_choices.push(Choice::Assist(i as u8));
        }
    }
    assert!(choices.iter().eq(expected_choices.iter()));
}

#[test]
fn valid_choice_choose_action() {
    check_valid_choice_choose_action(1, false);
    check_valid_choice_choose_action(1, true);
    check_valid_choice_choose_action(7, true);
    check_valid_choice_choose_action(7, false);
}

fn firewall_delta(initial: u8, delta: i8) -> (TableState, Result<(), EventError>) {
    let mut state = initial_state_easy();
    state.firewalls = initial;
    let r = state.perform(FirewallDelta(delta));
    (state, r)
}

#[test]
fn perform_firewall_delta_valid() {
    for (initial, delta, expected) in [(2, 1, 3), (1, -1, 0), (3, -2, 1), (3, -3, 0), (0, 3, 3)] {
        let (state, r) = firewall_delta(initial, delta);
        assert!(r.is_ok());
        assert_eq!(state.firewalls, expected);
    }
}

#[test]
fn perform_firewall_delta_invalid() {
    let (state, r) = firewall_delta(0, -1);
    assert_eq!(r.unwrap_err(), EventError::FirewallOutOfBand);
    assert_eq!(state.firewalls, 0, "rejected delta mutates nothing");
}

#[test]
fn perform_firewall_delta_invalid_2() {
    let (state, r) = firewall_delta(2, 2);
    assert_eq!(r.unwrap_err(), EventError::FirewallOutOfBand);
    assert_eq!(state.firewalls, 2, "rejected delta mutates nothing");
}

fn database_remove(initial: [bool; 3], idx: u8) -> (TableState, Result<(), EventError>) {
    let mut state = initial_state_easy();
    state.databases = initial;
    let r = state.perform(DatabaseRemove(idx));
    (state, r)
}

#[test]
fn perform_database_remove_valid() {
    let cases = [
        ([false, true, false], 1, [false, false, false]),
        ([true, true, false], 0, [false, true, false]),
        ([true, true, true], 2, [true, true, false]),
    ];
    for (initial, idx, expected) in cases {
        let (state, r) = database_remove(initial, idx);
        assert!(r.is_ok());
        assert_eq!(state.databases, expected);
    }
}

#[test]
fn perform_database_remove_invalid() {
    let (state, r) = database_remove([true, false, true], 3);
    assert_eq!(r.unwrap_err(), EventError::DatabaseOutOfRange);
    assert_eq!(state.databases, [true, false, true]);
}

#[test]
fn perform_database_remove_invalid_2() {
    let (state, r) = database_remove([true, false, true], 1);
    assert_eq!(r.unwrap_err(), EventError::DatabaseAlreadyRemoved);
    assert_eq!(state.databases, [true, false, true]);
}

fn webservice_remove(initial: [bool; 6], idx: u8) -> (TableState, Result<(), EventError>) {
    let mut state = initial_state_easy();
    state.webservices = initial;
    let r = state.perform(WebserviceRemove(idx));
    (state, r)
}

#[test]
fn perform_webservice_remove_valid() {
    let cases = [
        (
            [false, true, false, false, false, false],
            1,
            [false, false, false, false, false, false],
        ),
        (
            [true, true, false, false, false, false],
            0,
            [false, true, false, false, false, false],
        ),
        (
            [true, true, true, false, false, false],
            2,
            [true, true, false, false, false, false],
        ),
    ];
    for (initial, idx, expected) in cases {
        let (state, r) = webservice_remove(initial, idx);
        assert!(r.is_ok());
        assert_eq!(state.webservices, expected);
    }
}

#[test]
fn perform_webservice_remove_invalid() {
    let (state, r) = webservice_remove([true, false, true, false, false, false], 6);
    assert_eq!(r.unwrap_err(), EventError::WebserviceOutOfRange);
    assert_eq!(state.webservices, [true, false, true, false, false, false]);
}

#[test]
fn perform_webservice_remove_invalid_2() {
    let (state, r) = webservice_remove([true, false, true, false, false, false], 1);
    assert_eq!(r.unwrap_err(), EventError::WebserviceAlreadyRemoved);
    assert_eq!(state.webservices, [true, false, true, false, false, false]);
}

#[test]
fn perform_face() {
    let mut state = initial_state_easy();
    let mut expected_hackers = state.hackers.clone();
    let expected_face = expected_hackers.pop().unwrap();
    state.perform(Face).unwrap();
    assert!(state.hackers.iter().eq(expected_hackers.iter()));
    assert_eq!(state.facing, expected_face.hacker);
}

#[test]
fn perform_face_invalid_deck() {
    let mut state = initial_state_easy();
    state.hackers.clear();
    let r = state.perform(Face);
    assert_eq!(r.unwrap_err(), EventError::DeckEmpty);
    assert_eq!(state.facing, NO_HACKER);
}

#[test]
fn perform_face_already_facing() {
    let mut state = initial_state_easy();
    state.facing = 3;
    let r = state.perform(Face);
    assert_eq!(r.unwrap_err(), EventError::AlreadyFacing);
    assert_eq!(state.facing, 3);
}

#[test]
fn perform_idle() {
    let mut state = initial_state_easy();
    state.perform(Idle).unwrap();
    assert!(state.operators[0].idle);
}

#[test]
fn perform_idle_invalid() {
    let mut state = initial_state_easy();
    state.operators[0].idle = true;
    let r = state.perform(Idle);
    assert_eq!(r.unwrap_err(), EventError::AlreadyIdle);
    assert!(state.operators[0].idle);
}

#[test]
fn perform_choice_state() {
    let mut state = initial_state_easy();
    state
        .perform(TableEvent::ChoiceState(ChoiceState::Face(3)))
        .unwrap();
    assert_eq!(state.choice_state, ChoiceState::Face(3));
}

#[test]
fn perform_assist_grants_skill() {
    let mut state = initial_state_easy();
    state.perform(Assist(1)).unwrap();
    assert_eq!(state.operators[1].skills.len(), 2);
    assert_eq!(state.operators[1].skills[0], OperatorType::Sniper);
    assert_eq!(state.operators[1].skills[1], OperatorType::Stone);
    assert_eq!(state.operators[0].skills.len(), 1, "the giver keeps only their own");

    // granting the same token again changes nothing: the skill set is a set
    state.perform(Assist(1)).unwrap();
    assert_eq!(state.operators[1].skills.len(), 2);
}

#[test]
fn perform_assist_rejects_self_and_strangers() {
    let mut state = initial_state_easy();
    let r = state.perform(Assist(0));
    assert_eq!(r.unwrap_err(), EventError::AssistSelf);
    let r = state.perform(Assist(7));
    assert_eq!(r.unwrap_err(), EventError::AssistOutOfRange);
    assert_eq!(state.operators[0].skills.len(), 1);
    assert_eq!(state.operators[1].skills.len(), 1);
}

#[test]
fn perform_active_operator() {
    let mut state = initial_state_easy();
    state.perform(ActiveOperator(1)).unwrap();
    assert_eq!(state.active_operator, 1);
    let r = state.perform(ActiveOperator(2));
    assert_eq!(r.unwrap_err(), EventError::OperatorOutOfRange);
    assert_eq!(state.active_operator, 1);
}

#[test]
fn resolve_choice_face() {
    let state = initial_state_easy();
    let events = state.resolve_choice(Choice::Face);
    assert_eq!(
        events,
        vec![Face, TableEvent::ChoiceState(ChoiceState::Face(0))]
    );
}

#[test]
fn resolve_choice_idle_passes_the_turn() {
    let state = initial_state_easy();
    let events = state.resolve_choice(Choice::Idle);
    assert_eq!(
        events,
        vec![
            Idle,
            ActiveOperator(1),
            TableEvent::ChoiceState(ChoiceState::ChooseAction(1)),
        ]
    );
}

#[test]
fn resolve_choice_assist_passes_the_turn() {
    let state = initial_state_easy();
    let events = state.resolve_choice(Choice::Assist(1));
    assert_eq!(
        events,
        vec![
            Assist(1),
            ActiveOperator(1),
            TableEvent::ChoiceState(ChoiceState::ChooseAction(1)),
        ]
    );
}

#[test]
fn resolve_choice_skips_idle_operators() {
    let mut state =
        TableState::setup_game(&GameConfig::new(Difficulty::Easy, get_operators(3)).unwrap(), SEED);
    state.operators[1].idle = true;
    let events = state.resolve_choice(Choice::Idle);
    assert_eq!(
        events,
        vec![
            Idle,
            ActiveOperator(2),
            TableEvent::ChoiceState(ChoiceState::ChooseAction(2)),
        ]
    );
}

/// Two operators at easy difficulty: five firewalls, a twelve-card deck of
/// low values, the expected opening offers, and facing pops the top card.
#[test]
fn end_to_end_two_operators_easy() {
    let config = GameConfig::new(Difficulty::Easy, get_operators(2)).unwrap();
    let mut state = TableState::setup_game(&config, SEED);
    assert_eq!(state.firewalls, 5);
    assert_eq!(state.hackers.len(), 12);
    for card in state.hackers.iter() {
        assert!(hacker(card.hacker).value() <= 4);
    }

    let choices = state.valid_choices();
    assert_eq!(choices, vec![Choice::Idle, Choice::Face, Choice::Assist(1)]);

    state.perform(Face).unwrap();
    assert_ne!(state.facing, NO_HACKER);
    assert_eq!(state.hackers.len(), 11);
}

#[test]
fn setup_is_reproducible_for_a_seed() {
    let config_a = GameConfig::new(Difficulty::Easy, get_operators(2)).unwrap();
    let config_b = GameConfig::new(Difficulty::Easy, get_operators(2)).unwrap();
    let a = TableState::setup_game(&config_a, 7);
    let b = TableState::setup_game(&config_b, 7);
    assert!(a.hackers.iter().eq(b.hackers.iter()), "a fixed seed reproduces the deck");
}

#[test]
fn resolve_choice_idle_last_operator_advances_round() {
    let state =
        TableState::setup_game(&GameConfig::new(Difficulty::Easy, get_operators(1)).unwrap(), SEED);
    let events = state.resolve_choice(Choice::Idle);
    assert_eq!(
        events,
        vec![
            Idle,
            RoundAdvance,
            ActiveOperator(0),
            TableEvent::ChoiceState(ChoiceState::ChooseAction(0)),
        ]
    );
}

#[test]
fn resolve_choice_idle_everyone_idle_advances_round() {
    let mut state = initial_state_easy();
    state.operators[1].idle = true;
    let events = state.resolve_choice(Choice::Idle);
    assert_eq!(
        events,
        vec![
            Idle,
            RoundAdvance,
            ActiveOperator(1),
            TableEvent::ChoiceState(ChoiceState::ChooseAction(1)),
        ]
    );
}

#[test]
fn resolve_choice_idle_final_round_ends_game() {
    let mut state =
        TableState::setup_game(&GameConfig::new(Difficulty::Easy, get_operators(1)).unwrap(), SEED);
    state.round = 2;
    let events = state.resolve_choice(Choice::Idle);
    assert_eq!(events, vec![Idle, TableEvent::ChoiceState(ChoiceState::GameOver)]);
}

#[test]
fn perform_round_advance_resets_idles() {
    let mut state = initial_state_easy();
    state.operators[0].idle = true;
    state.operators[1].idle = true;
    state.perform(RoundAdvance).unwrap();
    assert_eq!(state.round, 1);
    assert!(!state.operators[0].idle);
    assert!(!state.operators[1].idle);
}

#[test]
fn perform_round_advance_rejected_after_last_round() {
    let mut state = initial_state_easy();
    state.round = 2;
    let r = state.perform(RoundAdvance);
    assert_eq!(r.unwrap_err(), EventError::NoRoundsLeft);
    assert_eq!(state.round, 2);
}

#[test]
fn valid_choices_game_over_offers_nothing() {
    let mut state = initial_state_easy();
    state.choice_state = ChoiceState::GameOver;
    assert!(state.valid_choices().is_empty());
}

#[test]
fn end_to_end_idling_through_the_game() {
    let mut state =
        TableState::setup_game(&GameConfig::new(Difficulty::Heroic, get_operators(1)).unwrap(), SEED);
    for expected_round in [1, 2] {
        let events = state.resolve_choice(Choice::Idle);
        for event in events {
            state.perform(event).unwrap();
        }
        assert_eq!(state.round, expected_round);
        assert!(!state.operators[0].idle);
        assert_eq!(state.choice_state, ChoiceState::ChooseAction(0));
    }
    let events = state.resolve_choice(Choice::Idle);
    for event in events {
        state.perform(event).unwrap();
    }
    assert_eq!(state.choice_state, ChoiceState::GameOver);
}
