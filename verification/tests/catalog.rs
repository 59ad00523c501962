use cybersecurity_rrt_logic::defs::{
    hacker, operator, symbols, OperatorType, Penalty, Symbol, HACKER_COUNT, NO_HACKER,
};

#[test]
fn operator_stats() {
    let stone = operator(&OperatorType::Stone);
    assert_eq!(stone.operator, OperatorType::Stone);
    assert_eq!(stone.normal_track, 9);
    assert_eq!(stone.desperation_track, 12);

    let biggs = operator(&OperatorType::Biggs);
    assert_eq!(biggs.operator, OperatorType::Biggs);
    assert_eq!(biggs.normal_track, 8);
    assert_eq!(biggs.desperation_track, 11);

    let charm = operator(&OperatorType::Charm);
    assert_eq!(charm.normal_track, 9);
    assert_eq!(charm.desperation_track, 11);

    let rogue = operator(&OperatorType::Rogue);
    assert_eq!(rogue.normal_track, 10);
    assert_eq!(rogue.desperation_track, 13);
}

#[test]
fn hacker_entries() {
    let first = hacker(0);
    assert_eq!(first.value(), 1);
    assert!(first.virus());
    assert_eq!(*first.symbol(), Symbol::Database);
    assert_eq!(*first.penalty(), Penalty::Burnout);

    let last = hacker(65);
    assert_eq!(last.value(), 6);
    assert!(last.virus());
    assert_eq!(*last.symbol(), Symbol::Webservice);
    assert_eq!(*last.penalty(), Penalty::DoubleCompromise);

    let mid = hacker(29);
    assert_eq!(mid.value(), 3);
    assert!(!mid.virus());
    assert_eq!(*mid.symbol(), Symbol::Database);
    assert_eq!(*mid.penalty(), Penalty::DrawLeft);
}

#[test]
fn hacker_values_group_by_rank() {
    let mut low: u32 = 0;
    for id in 0..HACKER_COUNT {
        let h = hacker(id);
        assert!((1..=6).contains(&h.value()));
        if h.value() <= 4 {
            low += 1;
        }
    }
    assert_eq!(low, 52, "52 hackers are eligible for the base draw pool");
}

#[test]
fn symbol_set() {
    let s = symbols();
    assert_eq!(s.len(), 4);
    assert_eq!(s[0], Symbol::NoSymbol);
    assert_eq!(s[1], Symbol::Keyboard);
    assert_eq!(s[2], Symbol::Webservice);
    assert_eq!(s[3], Symbol::Database);
}

#[test]
fn sentinel_is_out_of_catalog() {
    assert_eq!(NO_HACKER, HACKER_COUNT);
}
