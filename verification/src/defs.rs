//! The fixed catalog: operator stats and the 66 hacker cards, with
//! spec-level mirrors of every entry so that contracts can speak of
//! what a lookup returns.

use vstd::prelude::*;

verus! {

/// The different unique operators (each operator has unique abilities, so
/// we only distinguish them by name).
#[derive(Copy, Clone, PartialEq, Eq, Structural, Debug, Hash)]
pub enum OperatorType {
    /// Skill: when facing an attacker with value identical to one already in
    /// their backtrace list, can discard the attacker.
    ///
    /// Flow: any operator can give their assist token to another operator.
    /// Desperation: can additionally add a firewall.
    Stone,
    /// Skill: ignore penalties on attackers that have an even value.
    ///
    /// Flow: discard top 2 cards from the hacker stack. Desperation: top 3 cards.
    Sniper,
    /// Skill: can operate a second time in a turn.
    ///
    /// Flow: discard the last card from any operator's backtrace list.
    /// Desperation: can use twice.
    Rogue,
    /// Skill: can pass odd-valued hackers to a neighbor, who must then face them.
    ///
    /// Flow: can take a hacker from any operator's backtrace list and give it to
    /// any other operator, who can then put it in their backtrace list or
    /// secure slots. Desperation: can do it twice.
    Biggs,
    /// Skill: when facing a hacker, can put it on the bottom of the hacker stack
    /// and face a new hacker, who must then be faced.
    ///
    /// Flow: turn the top 2 cards of the hacker stack face up and reorder them
    /// if desired. Desperation: top 3 cards.
    Rich,
    /// Skill: can pass even-valued hackers to a neighbor, who must then face them.
    ///
    /// Flow: can add one firewall. Desperation: can add one firewall and remove
    /// one burnout token from any operator. The number of firewalls can never
    /// exceed the original amount as determined by operator count.
    Charm,
    /// Skill: ignore penalties on attackers that have an odd value.
    ///
    /// Flow: discard top 2 cards from the breach stack. Desperation: top 3 cards.
    Admin,
}

/// Definition of an operator's stats and type.
#[derive(Copy, Clone, PartialEq, Eq, Structural, Debug)]
pub struct Operator {
    pub operator: OperatorType,
    /// backtrace-list length beyond which the operator's ability changes
    pub normal_track: u8,
    /// backtrace-list length beyond which the operator is in peril
    pub desperation_track: u8,
}

/// The stats of each operator type, as a spec-level table.
pub open spec fn spec_operator(t: OperatorType) -> Operator {
    match t {
        OperatorType::Stone => Operator { operator: OperatorType::Stone, normal_track: 9, desperation_track: 12 },
        OperatorType::Sniper => Operator { operator: OperatorType::Sniper, normal_track: 9, desperation_track: 12 },
        OperatorType::Rogue => Operator { operator: OperatorType::Rogue, normal_track: 10, desperation_track: 13 },
        OperatorType::Biggs => Operator { operator: OperatorType::Biggs, normal_track: 8, desperation_track: 11 },
        OperatorType::Rich => Operator { operator: OperatorType::Rich, normal_track: 10, desperation_track: 13 },
        OperatorType::Charm => Operator { operator: OperatorType::Charm, normal_track: 9, desperation_track: 11 },
        OperatorType::Admin => Operator { operator: OperatorType::Admin, normal_track: 9, desperation_track: 12 },
    }
}

/// Stats lookup, total over the seven operator types.
pub fn operator(operator_type: &OperatorType) -> (r: Operator)
    ensures
        r == spec_operator(*operator_type),
{
    match operator_type {
        OperatorType::Stone => Operator { operator: OperatorType::Stone, normal_track: 9, desperation_track: 12 },
        OperatorType::Sniper => Operator { operator: OperatorType::Sniper, normal_track: 9, desperation_track: 12 },
        OperatorType::Rogue => Operator { operator: OperatorType::Rogue, normal_track: 10, desperation_track: 13 },
        OperatorType::Biggs => Operator { operator: OperatorType::Biggs, normal_track: 8, desperation_track: 11 },
        OperatorType::Rich => Operator { operator: OperatorType::Rich, normal_track: 10, desperation_track: 13 },
        OperatorType::Charm => Operator { operator: OperatorType::Charm, normal_track: 9, desperation_track: 11 },
        OperatorType::Admin => Operator { operator: OperatorType::Admin, normal_track: 9, desperation_track: 12 },
    }
}

/// Symbol on the top right of hacker cards; operators need to secure one of
/// each by end of turn in order to not suffer consequences.
#[derive(Copy, Clone, PartialEq, Eq, Structural, Debug)]
pub enum Symbol {
    NoSymbol,
    Keyboard,
    Webservice,
    Database,
}

/// Index in the array returned by `symbols`.
pub type SymbolID = u8;

/// The fixed 4-element symbol set.
pub fn symbols() -> (r: [Symbol; 4])
    ensures
        r@ =~= seq![Symbol::NoSymbol, Symbol::Keyboard, Symbol::Webservice, Symbol::Database],
{
    [Symbol::NoSymbol, Symbol::Keyboard, Symbol::Webservice, Symbol::Database]
}

/// Penalties which enemies can inflict.
#[derive(Copy, Clone, PartialEq, Eq, Structural, Debug)]
pub enum Penalty {
    NoPenalty,
    /// Compromise a firewall, or a webservice if no firewalls are left.
    Compromise,
    /// Inflict burnout on the operator.
    Burnout,
    /// Place the top card of the hacker stack on the breach stack, unseen.
    Ninja,
    /// Operator cannot secure (place to the left of their board) during their turn.
    NoSecure,
    /// Operator may not perform the assist action, but can receive it.
    NoGiveAssist,
    /// Operator to the left must draw a hacker and add it to their backtrace list.
    DrawLeft,
    /// Operator to the right must draw a hacker and add it to their backtrace list.
    DrawRight,
    /// Compromise, twice.
    DoubleCompromise,
    /// NoSecure, plus shuffle a random hacker from the discard into the hacker stack.
    NoSecureAndHackerRevive,
    /// NoGiveAssist plus Burnout.
    NoGiveAssistAndBurnout,
    /// Discard a card from the left side of the operator's board.
    DiscardSecure,
    /// Burnout, plus the operator may not use their skill nor any assist tokens they have.
    NoTalentAndBurnout,
    /// Ninja, twice.
    DoubleNinja,
    /// Operator must choose to idle.
    Idle,
}

/// Index of a hacker in the catalog. `NO_HACKER` indicates no hacker and is
/// never a valid lookup key.
pub type HackerID = u8;

/// Number of distinct hackers in the catalog.
pub const HACKER_COUNT: u8 = 66;

/// Indicates no hacker is there.
pub const NO_HACKER: HackerID = 66;

/// Definition of a particular hacker. No two hackers in the catalog are alike.
#[derive(Copy, Clone, PartialEq, Eq, Structural, Debug)]
pub struct Hacker {
    pub value: u8,
    pub virus: bool,
    pub penalty: Penalty,
    pub symbol: Symbol,
}

impl Hacker {
    pub fn value(&self) -> (r: u8)
        ensures
            r == self.value,
    {
        self.value
    }

    pub fn virus(&self) -> (r: bool)
        ensures
            r == self.virus,
    {
        self.virus
    }

    pub fn penalty(&self) -> (r: &Penalty)
        ensures
            r == self.penalty,
    {
        &self.penalty
    }

    pub fn symbol(&self) -> (r: &Symbol)
        ensures
            r == self.symbol,
    {
        &self.symbol
    }
}

/// The value printed on a card: 1 for ids 0..13, 2 for 13..26, 3 for 26..39,
/// 4 for 39..52, 5 for 52..59 and 6 for 59..66.
pub open spec fn card_value(id: int) -> u8 {
    if id < 13 {
        1
    } else if id < 26 {
        2
    } else if id < 39 {
        3
    } else if id < 52 {
        4
    } else if id < 59 {
        5
    } else {
        6
    }
}

/// Whether the card with this id carries the virus flag.
pub open spec fn card_virus(id: int) -> bool {
    id == 0 || id == 1 || id == 4 || id == 5 || id == 8 || id == 9 || id == 13 || id == 14
    || id == 17 || id == 18 || id == 21 || id == 22 || id == 27 || id == 28 || id == 32 || id == 33
    || id == 35 || id == 36 || id == 39 || id == 40 || id == 44 || id == 45 || id == 48 || id == 49
    || id == 55 || id == 56 || id == 57 || id == 58 || id == 59 || id == 60 || id == 61 || id == 62
    || id == 63 || id == 64 || id == 65
}

/// The symbol printed on the card with this id.
pub open spec fn card_symbol(id: int) -> Symbol {
    if id == 0 || id == 1 || id == 2 || id == 3 || id == 13 || id == 14 || id == 15 || id == 16
        || id == 26 || id == 27 || id == 28 || id == 29 || id == 30 || id == 39 || id == 40 || id == 41
        || id == 42 || id == 43 || id == 52 || id == 59 {
        Symbol::Database
    } else if id == 4 || id == 5 || id == 6 || id == 7 || id == 17 || id == 18 || id == 19 || id == 20
        || id == 31 || id == 32 || id == 33 || id == 34 || id == 44 || id == 45 || id == 46 || id == 47
        || id == 53 || id == 65 {
        Symbol::Webservice
    } else if id == 8 || id == 9 || id == 10 || id == 11 || id == 21 || id == 22 || id == 23 || id == 24
        || id == 35 || id == 36 || id == 37 || id == 48 || id == 49 || id == 50 || id == 54 || id == 60 {
        Symbol::Keyboard
    } else {
        Symbol::NoSymbol
    }
}

/// The penalty printed on the card with this id.
pub open spec fn card_penalty(id: int) -> Penalty {
    if id == 0 || id == 5 || id == 8 || id == 14 || id == 17 || id == 22 || id == 28 || id == 32
        || id == 38 || id == 40 || id == 44 || id == 51 || id == 54 || id == 57 {
        Penalty::Burnout
    } else if id == 1 || id == 4 || id == 12 || id == 13 || id == 18 || id == 25 || id == 27 || id == 33
        || id == 35 || id == 39 || id == 45 || id == 49 || id == 52 || id == 55 {
        Penalty::Compromise
    } else if id == 2 || id == 7 || id == 10 || id == 15 || id == 19 || id == 23 || id == 53 || id == 56 {
        Penalty::Ninja
    } else if id == 3 || id == 9 || id == 16 || id == 21 || id == 26 || id == 36 || id == 43 || id == 50 {
        Penalty::NoPenalty
    } else if id == 6 || id == 20 || id == 31 || id == 47 || id == 58 {
        Penalty::NoGiveAssist
    } else if id == 11 || id == 24 || id == 30 || id == 42 {
        Penalty::NoSecure
    } else if id == 29 || id == 34 || id == 37 {
        Penalty::DrawLeft
    } else if id == 41 || id == 46 || id == 48 {
        Penalty::DrawRight
    } else if id == 59 {
        Penalty::Idle
    } else if id == 60 {
        Penalty::DoubleNinja
    } else if id == 61 {
        Penalty::NoTalentAndBurnout
    } else if id == 62 {
        Penalty::DiscardSecure
    } else if id == 63 {
        Penalty::NoGiveAssistAndBurnout
    } else if id == 64 {
        Penalty::NoSecureAndHackerRevive
    } else {
        Penalty::DoubleCompromise
    }
}

/// The whole catalog entry for one id, as a spec-level value.
pub open spec fn spec_hacker(id: int) -> Hacker {
    Hacker {
        value: card_value(id),
        virus: card_virus(id),
        symbol: card_symbol(id),
        penalty: card_penalty(id),
    }
}

/// Catalog lookup. The caller must rule out the `NO_HACKER` sentinel first.
#[verifier::rlimit(50)]
pub fn hacker(id: HackerID) -> (r: Hacker)
    requires
        id < HACKER_COUNT,
    ensures
        r == spec_hacker(id as int),
{
    match id {
        0 => Hacker { value: 1, virus: true, symbol: Symbol::Database, penalty: Penalty::Burnout },
        1 => Hacker { value: 1, virus: true, symbol: Symbol::Database, penalty: Penalty::Compromise },
        2 => Hacker { value: 1, virus: false, symbol: Symbol::Database, penalty: Penalty::Ninja },
        3 => Hacker { value: 1, virus: false, symbol: Symbol::Database, penalty: Penalty::NoPenalty },
        4 => Hacker { value: 1, virus: true, symbol: Symbol::Webservice, penalty: Penalty::Compromise },
        5 => Hacker { value: 1, virus: true, symbol: Symbol::Webservice, penalty: Penalty::Burnout },
        6 => Hacker { value: 1, virus: false, symbol: Symbol::Webservice, penalty: Penalty::NoGiveAssist },
        7 => Hacker { value: 1, virus: false, symbol: Symbol::Webservice, penalty: Penalty::Ninja },
        8 => Hacker { value: 1, virus: true, symbol: Symbol::Keyboard, penalty: Penalty::Burnout },
        9 => Hacker { value: 1, virus: true, symbol: Symbol::Keyboard, penalty: Penalty::NoPenalty },
        10 => Hacker { value: 1, virus: false, symbol: Symbol::Keyboard, penalty: Penalty::Ninja },
        11 => Hacker { value: 1, virus: false, symbol: Symbol::Keyboard, penalty: Penalty::NoSecure },
        12 => Hacker { value: 1, virus: false, symbol: Symbol::NoSymbol, penalty: Penalty::Compromise },
        13 => Hacker { value: 2, virus: true, symbol: Symbol::Database, penalty: Penalty::Compromise },
        14 => Hacker { value: 2, virus: true, symbol: Symbol::Database, penalty: Penalty::Burnout },
        15 => Hacker { value: 2, virus: false, symbol: Symbol::Database, penalty: Penalty::Ninja },
        16 => Hacker { value: 2, virus: false, symbol: Symbol::Database, penalty: Penalty::NoPenalty },
        17 => Hacker { value: 2, virus: true, symbol: Symbol::Webservice, penalty: Penalty::Burnout },
        18 => Hacker { value: 2, virus: true, symbol: Symbol::Webservice, penalty: Penalty::Compromise },
        19 => Hacker { value: 2, virus: false, symbol: Symbol::Webservice, penalty: Penalty::Ninja },
        20 => Hacker { value: 2, virus: false, symbol: Symbol::Webservice, penalty: Penalty::NoGiveAssist },
        21 => Hacker { value: 2, virus: true, symbol: Symbol::Keyboard, penalty: Penalty::NoPenalty },
        22 => Hacker { value: 2, virus: true, symbol: Symbol::Keyboard, penalty: Penalty::Burnout },
        23 => Hacker { value: 2, virus: false, symbol: Symbol::Keyboard, penalty: Penalty::Ninja },
        24 => Hacker { value: 2, virus: false, symbol: Symbol::Keyboard, penalty: Penalty::NoSecure },
        25 => Hacker { value: 2, virus: false, symbol: Symbol::NoSymbol, penalty: Penalty::Compromise },
        26 => Hacker { value: 3, virus: false, symbol: Symbol::Database, penalty: Penalty::NoPenalty },
        27 => Hacker { value: 3, virus: true, symbol: Symbol::Database, penalty: Penalty::Compromise },
        28 => Hacker { value: 3, virus: true, symbol: Symbol::Database, penalty: Penalty::Burnout },
        29 => Hacker { value: 3, virus: false, symbol: Symbol::Database, penalty: Penalty::DrawLeft },
        30 => Hacker { value: 3, virus: false, symbol: Symbol::Database, penalty: Penalty::NoSecure },
        31 => Hacker { value: 3, virus: false, symbol: Symbol::Webservice, penalty: Penalty::NoGiveAssist },
        32 => Hacker { value: 3, virus: true, symbol: Symbol::Webservice, penalty: Penalty::Burnout },
        33 => Hacker { value: 3, virus: true, symbol: Symbol::Webservice, penalty: Penalty::Compromise },
        34 => Hacker { value: 3, virus: false, symbol: Symbol::Webservice, penalty: Penalty::DrawLeft },
        35 => Hacker { value: 3, virus: true, symbol: Symbol::Keyboard, penalty: Penalty::Compromise },
        36 => Hacker { value: 3, virus: true, symbol: Symbol::Keyboard, penalty: Penalty::NoPenalty },
        37 => Hacker { value: 3, virus: false, symbol: Symbol::Keyboard, penalty: Penalty::DrawLeft },
        38 => Hacker { value: 3, virus: false, symbol: Symbol::NoSymbol, penalty: Penalty::Burnout },
        39 => Hacker { value: 4, virus: true, symbol: Symbol::Database, penalty: Penalty::Compromise },
        40 => Hacker { value: 4, virus: true, symbol: Symbol::Database, penalty: Penalty::Burnout },
        41 => Hacker { value: 4, virus: false, symbol: Symbol::Database, penalty: Penalty::DrawRight },
        42 => Hacker { value: 4, virus: false, symbol: Symbol::Database, penalty: Penalty::NoSecure },
        43 => Hacker { value: 4, virus: false, symbol: Symbol::Database, penalty: Penalty::NoPenalty },
        44 => Hacker { value: 4, virus: true, symbol: Symbol::Webservice, penalty: Penalty::Burnout },
        45 => Hacker { value: 4, virus: true, symbol: Symbol::Webservice, penalty: Penalty::Compromise },
        46 => Hacker { value: 4, virus: false, symbol: Symbol::Webservice, penalty: Penalty::DrawRight },
        47 => Hacker { value: 4, virus: false, symbol: Symbol::Webservice, penalty: Penalty::NoGiveAssist },
        48 => Hacker { value: 4, virus: true, symbol: Symbol::Keyboard, penalty: Penalty::DrawRight },
        49 => Hacker { value: 4, virus: true, symbol: Symbol::Keyboard, penalty: Penalty::Compromise },
        50 => Hacker { value: 4, virus: false, symbol: Symbol::Keyboard, penalty: Penalty::NoPenalty },
        51 => Hacker { value: 4, virus: false, symbol: Symbol::NoSymbol, penalty: Penalty::Burnout },
        52 => Hacker { value: 5, virus: false, symbol: Symbol::Database, penalty: Penalty::Compromise },
        53 => Hacker { value: 5, virus: false, symbol: Symbol::Webservice, penalty: Penalty::Ninja },
        54 => Hacker { value: 5, virus: false, symbol: Symbol::Keyboard, penalty: Penalty::Burnout },
        55 => Hacker { value: 5, virus: true, symbol: Symbol::NoSymbol, penalty: Penalty::Compromise },
        56 => Hacker { value: 5, virus: true, symbol: Symbol::NoSymbol, penalty: Penalty::Ninja },
        57 => Hacker { value: 5, virus: true, symbol: Symbol::NoSymbol, penalty: Penalty::Burnout },
        58 => Hacker { value: 5, virus: true, symbol: Symbol::NoSymbol, penalty: Penalty::NoGiveAssist },
        59 => Hacker { value: 6, virus: true, symbol: Symbol::Database, penalty: Penalty::Idle },
        60 => Hacker { value: 6, virus: true, symbol: Symbol::Keyboard, penalty: Penalty::DoubleNinja },
        61 => Hacker { value: 6, virus: true, symbol: Symbol::NoSymbol, penalty: Penalty::NoTalentAndBurnout },
        62 => Hacker { value: 6, virus: true, symbol: Symbol::NoSymbol, penalty: Penalty::DiscardSecure },
        63 => Hacker { value: 6, virus: true, symbol: Symbol::NoSymbol, penalty: Penalty::NoGiveAssistAndBurnout },
        64 => Hacker { value: 6, virus: true, symbol: Symbol::NoSymbol, penalty: Penalty::NoSecureAndHackerRevive },
        _ => Hacker { value: 6, virus: true, symbol: Symbol::Webservice, penalty: Penalty::DoubleCompromise },
    }
}

} // verus!
