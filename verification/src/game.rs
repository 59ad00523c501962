//! Game state and configuration: the validated session parameters, the full
//! table snapshot, and the choice/event vocabulary of the state machine.

use vstd::prelude::*;

use crate::defs::{HackerID, OperatorType, NO_HACKER};
use crate::shims::{cards_of, ops_of, ops_get, ops_len, ops_new, ops_push, trace_new, traces_of};

pub mod logic;

verus! {

/// Operator in the current game: an index into `TableState::operators` and
/// `GameConfig::operators` (not an operator type).
pub type OperatorID = u8;

/// A deck of hacker cards. The top is the end, the bottom the start.
pub type HackerDeck = arrayvec::ArrayVec<HackerCard, 66>;

#[derive(Copy, Clone, PartialEq, Eq, Structural, Debug)]
pub enum Difficulty {
    Easy,
    Normal,
    Hard,
    Heroic,
}

#[derive(Copy, Clone, PartialEq, Eq, Structural, Debug)]
pub enum GameConfigError {
    /// duplicate operator in the list, reporting the offending type
    DuplicateOperator(OperatorType),
    /// no operators provided
    NoOperators,
}

/// Configuration of a specific game (operators, difficulty). Does not change
/// for the duration of an entire game.
#[derive(Debug)]
pub struct GameConfig {
    /// Operators selected to be in this game in clockwise order.
    /// Max 7, and all must be unique.
    pub operators: arrayvec::ArrayVec<OperatorType, 7>,
    pub difficulty: Difficulty,
}

/// There is an operator at index `k` that repeats an earlier one.
pub open spec fn dup_at(ops: Seq<OperatorType>, k: int) -> bool {
    exists|i: int| 0 <= i < k && ops[i] == ops[k]
}

/// The first operator type, scanning from index `k`, that repeats an
/// earlier one — the type a validation failure reports.
pub open spec fn first_dup_from(ops: Seq<OperatorType>, k: int) -> Option<OperatorType>
    decreases ops.len() - k,
{
    if k < 0 || k >= ops.len() {
        None
    } else if dup_at(ops, k) {
        Some(ops[k])
    } else {
        first_dup_from(ops, k + 1)
    }
}

/// The first operator type that repeats an earlier one, if any.
pub open spec fn first_dup(ops: Seq<OperatorType>) -> Option<OperatorType> {
    first_dup_from(ops, 0)
}

impl GameConfig {
    /// The roster as a sequence, in turn order.
    pub open spec fn ops(&self) -> Seq<OperatorType> {
        ops_of(self.operators)
    }

    /// A validated configuration: a non-empty roster of at most seven
    /// pairwise-distinct operators.
    pub open spec fn wf(&self) -> bool {
        &&& 1 <= self.ops().len() <= 7
        &&& self.ops().no_duplicates()
    }

    /// Gets a new, validated configuration, or the error that rules the
    /// roster out: `NoOperators` for an empty roster, else the first
    /// operator type that repeats an earlier one.
    pub fn new(difficulty: Difficulty, operators: arrayvec::ArrayVec<OperatorType, 7>) -> (r:
        Result<GameConfig, GameConfigError>)
        ensures
            r is Ok <==> ops_of(operators).len() > 0 && ops_of(operators).no_duplicates(),
            r matches Ok(c) ==> c.wf() && c.difficulty == difficulty && c.ops() == ops_of(
                operators,
            ),
            ops_of(operators).len() == 0 ==> r == Result::<GameConfig, GameConfigError>::Err(
                GameConfigError::NoOperators,
            ),
            ops_of(operators).len() > 0 ==> (first_dup(ops_of(operators)) matches Some(t) ==> r
                == Result::<GameConfig, GameConfigError>::Err(
                GameConfigError::DuplicateOperator(t),
            )),
    {
        let ghost ops = ops_of(operators);
        let n = ops_len(&operators);
        if n == 0 {
            return Result::Err(GameConfigError::NoOperators);
        }
        let mut k: usize = 1;
        while k < n
            invariant
                ops == ops_of(operators),
                n == ops.len(),
                1 <= k <= n,
                forall|j: int| 0 <= j < k ==> !dup_at(ops, j),
                first_dup(ops) == first_dup_from(ops, k as int),
            decreases n - k,
        {
            let cand = ops_get(&operators, k);
            let mut i: usize = 0;
            while i < k
                invariant
                    ops == ops_of(operators),
                    n == ops.len(),
                    0 <= i <= k < n,
                    cand == ops[k as int],
                    forall|j: int| 0 <= j < i ==> ops[j] != ops[k as int],
                    first_dup(ops) == first_dup_from(ops, k as int),
                decreases k - i,
            {
                if ops_get(&operators, i) == cand {
                    proof {
                        assert(dup_at(ops, k as int));
                        assert(first_dup_from(ops, k as int) == Some(ops[k as int]));
                        assert(!ops.no_duplicates());
                    }
                    return Result::Err(GameConfigError::DuplicateOperator(cand));
                }
                i += 1;
            }
            assert(!dup_at(ops, k as int));
            k += 1;
        }
        proof {
            assert forall|a: int, b: int| 0 <= a < b < ops.len() implies ops[a] != ops[b] by {
                assert(!dup_at(ops, b));
            }
        }
        Result::Ok(GameConfig { difficulty, operators })
    }
}

/// One card on the table: which hacker it is and whether it is face up.
#[derive(Copy, Clone, PartialEq, Eq, Structural, Debug)]
pub struct HackerCard {
    pub hacker: HackerID,
    /// true if face up (visible to players), otherwise face down
    pub face_up: bool,
}

impl HackerCard {
    pub fn new(hacker: HackerID) -> (r: HackerCard)
        ensures
            r == (HackerCard { hacker, face_up: false }),
    {
        HackerCard { hacker, face_up: false }
    }
}

/// The spec-level image of an `OperatorState`.
#[verifier::ext_equal]
pub struct OpView {
    pub secure_slots: Seq<HackerID>,
    pub backtrace_list: Seq<HackerID>,
    pub burnout: bool,
    pub desperation: bool,
    pub idle: bool,
    pub skills: Seq<OperatorType>,
}

/// The state a fresh operator starts a game in: empty board, no tokens,
/// only their own skill.
pub open spec fn fresh_op(t: OperatorType) -> OpView {
    OpView {
        secure_slots: seq![NO_HACKER, NO_HACKER, NO_HACKER],
        backtrace_list: Seq::empty(),
        burnout: false,
        desperation: false,
        idle: false,
        skills: seq![t],
    }
}

/// Per-operator state in the current game.
pub struct OperatorState {
    /// hackers on the left side of the operator board, in the secure slots;
    /// index: index in the array returned by `defs::symbols`; value: hacker
    /// placed there, or `NO_HACKER`
    pub secure_slots: [HackerID; 3],
    /// hackers on the right side of the operator board — the backtrace list;
    /// end of the list = bottom (most recently placed), start = top
    pub backtrace_list: arrayvec::ArrayVec<HackerID, 13>,
    /// whether there is a burnout token
    pub burnout: bool,
    /// whether they are in desperation mode
    pub desperation: bool,
    /// whether they are idling for the remainder of the round
    pub idle: bool,
    /// which skills the operator currently has, their own first plus any assist
    pub skills: arrayvec::ArrayVec<OperatorType, 7>,
}

impl View for OperatorState {
    type V = OpView;

    open spec fn view(&self) -> OpView {
        OpView {
            secure_slots: self.secure_slots@,
            backtrace_list: traces_of(self.backtrace_list),
            burnout: self.burnout,
            desperation: self.desperation,
            idle: self.idle,
            skills: ops_of(self.skills),
        }
    }
}

impl OperatorState {
    /// New operator in the initial state they should be in at the start of a
    /// game.
    pub fn new(operator: &OperatorType) -> (r: OperatorState)
        ensures
            r@ == fresh_op(*operator),
    {
        let mut skills = ops_new();
        ops_push(&mut skills, *operator);
        let r = OperatorState {
            secure_slots: [NO_HACKER; 3],
            backtrace_list: trace_new(),
            burnout: false,
            desperation: false,
            idle: false,
            skills,
        };
        proof {
            assert(Seq::<OperatorType>::empty().push(*operator) =~= seq![*operator]);
            assert(r@ =~= fresh_op(*operator));
        }
        r
    }
}

/// Discrete states of the game where player input is required. Each state
/// has associated actions which can be performed by players (via their
/// operators). All states must represent situations where a player has some
/// choice to make (including cases where they normally have a choice, but
/// there is only one valid choice).
///
/// We do NOT encode "intermediate" states in here which might represent some
/// internal step of processing — these are handled internally and should be
/// invisible to the client.
///
/// Note we have `active_operator` in the game state, but some of these
/// variants still carry an `OperatorID` — this is because sometimes choices
/// need to be made by operators other than the active operator.
#[derive(Copy, Clone, PartialEq, Eq, Structural, Debug)]
pub enum ChoiceState {
    /// Specific operator must decide whether to use their flow or not
    Flow(OperatorID),
    /// Charm (desperation mode) must choose who to heal with their flow
    CharmDesperationFlow,
    /// Biggs must choose whose backtrace line to take a card from and who
    /// should receive it; where to place it is a separate state
    BiggsFlow,
    /// Biggs must choose whether to use their flow a second time
    BiggsDesperationFlow,
    /// Indicated operator must choose whether to place the card to the left
    /// or right
    Face(OperatorID),
    /// Indicated operator must choose whether to use one of their applicable
    /// skills
    Skill(OperatorID),
    /// Indicated operator must choose a card to discard from the left of
    /// their board
    DiscardLeft(OperatorID),
    /// Indicated operator must choose to face, assist, or idle
    ChooseAction(OperatorID),
    /// Game is over, only action is to quit or start a new one
    GameOver,
}

/// Indicates a player's chosen action.
#[derive(Copy, Clone, PartialEq, Eq, Structural, Debug)]
pub enum Choice {
    /// draw and face the next hacker from the hacker deck
    Face,
    /// give an assist token to another operator
    Assist(OperatorID),
    /// do nothing for the remainder of the round
    Idle,
}

/// All events which can occur on the table during processing of a choice —
/// any time table state is modified in a way which is visible to the
/// players, a corresponding event is emitted.
#[derive(Copy, Clone, PartialEq, Eq, Structural, Debug)]
pub enum TableEvent {
    /// firewall was added or removed — delta from the previous value of
    /// `TableState::firewalls`
    FirewallDelta(i8),
    /// database was removed — index in `TableState::databases`
    DatabaseRemove(u8),
    /// webservice was removed — index in `TableState::webservices`
    WebserviceRemove(u8),
    /// top card of the hacker stack revealed to the active operator (into
    /// `TableState::facing`)
    Face,
    /// assist token given from the active operator to the specified
    /// operator, as seen in their skill list
    Assist(OperatorID),
    /// active operator now idle for the remainder of the round
    Idle,
    /// active operator changed to the specified operator
    ActiveOperator(OperatorID),
    /// the round ended with every operator idle: the round counter advances
    /// and all idle flags are cleared for the new round
    RoundAdvance,
    /// machine state advanced to the given decision point
    ChoiceState(ChoiceState),
}

/// Why `perform` refused an event: its precondition did not hold of the
/// table, so the state was left unchanged.
#[derive(Copy, Clone, PartialEq, Eq, Structural, Debug)]
pub enum EventError {
    /// the firewall delta would leave the count outside the legal band
    FirewallOutOfBand,
    /// no database has this index
    DatabaseOutOfRange,
    /// the database at this index was already removed
    DatabaseAlreadyRemoved,
    /// no webservice has this index
    WebserviceOutOfRange,
    /// the webservice at this index was already removed
    WebserviceAlreadyRemoved,
    /// a card is already being faced
    AlreadyFacing,
    /// the hacker deck is empty
    DeckEmpty,
    /// the active operator is already idle
    AlreadyIdle,
    /// no operator has this index
    AssistOutOfRange,
    /// an assist token cannot be given to the active operator itself
    AssistSelf,
    /// no operator has this index
    OperatorOutOfRange,
    /// all three rounds are already played: no round is left to advance to
    NoRoundsLeft,
}

/// The spec-level image of a `TableState`.
#[verifier::ext_equal]
pub struct TableView {
    pub firewalls: u8,
    pub databases: Seq<bool>,
    pub webservices: Seq<bool>,
    pub hackers: Seq<HackerCard>,
    pub breach: Seq<HackerCard>,
    pub discard: Seq<HackerCard>,
    pub round: u8,
    pub facing: HackerID,
    pub active_operator: OperatorID,
    pub operators: Seq<OpView>,
    pub choice_state: ChoiceState,
}

/// Entire state of an ongoing game. This plus a `GameConfig` contains
/// everything needed to fully describe a state of the game (a snapshot of
/// the pair would allow saving and resuming the game).
pub struct TableState {
    /// amount of firewalls still standing
    pub firewalls: u8,
    /// remaining databases
    pub databases: [bool; 3],
    /// remaining webservices
    pub webservices: [bool; 6],
    /// hacker stack — hackers randomly selected to be in this game
    pub hackers: HackerDeck,
    /// hackers let through this round
    pub breach: HackerDeck,
    /// discarded hackers
    pub discard: HackerDeck,
    /// round 0, 1, or 2
    pub round: u8,
    /// card currently being faced by the active operator, `NO_HACKER` if
    /// none is currently being faced
    pub facing: HackerID,
    pub active_operator: OperatorID,
    /// status of each operator, same index as `GameConfig::operators`
    pub operators: Vec<OperatorState>,
    /// current decision that needs to be made by an operator
    pub choice_state: ChoiceState,
}

impl View for TableState {
    type V = TableView;

    open spec fn view(&self) -> TableView {
        TableView {
            firewalls: self.firewalls,
            databases: self.databases@,
            webservices: self.webservices@,
            hackers: cards_of(self.hackers),
            breach: cards_of(self.breach),
            discard: cards_of(self.discard),
            round: self.round,
            facing: self.facing,
            active_operator: self.active_operator,
            operators: self.operators@.map_values(|o: OperatorState| o@),
            choice_state: self.choice_state,
        }
    }
}

impl TableState {
    /// The structural facts every table produced by setup has and every
    /// event preserves: a roster of at most seven operators, a valid active
    /// index, and at least one skill (their own) per operator.
    pub open spec fn wf(&self) -> bool {
        &&& 1 <= self@.operators.len() <= 7
        &&& (self@.active_operator as int) < self@.operators.len()
        &&& forall|i: int|
            0 <= i < self@.operators.len() ==> (#[trigger] self@.operators[i]).skills.len() >= 1
    }
}

} // verus!
