//! Actual logic to run a game: table setup and the choice engine.

use vstd::prelude::*;

use crate::defs::{card_value, hacker, NO_HACKER};
use crate::game::{
    fresh_op, Choice, ChoiceState, Difficulty, EventError, GameConfig, HackerCard, HackerDeck,
    OpView, OperatorState, TableEvent, TableState, TableView,
};
use crate::shims::{cards_of, deck_len, deck_new, deck_pop, deck_push, ops_get, ops_len,
    ops_push, shuffle_cards, shuffled};

verus! {

/// Firewall bonus granted by the difficulty.
pub open spec fn firewall_mod(difficulty: Difficulty) -> int {
    match difficulty {
        Difficulty::Easy => 3,
        Difficulty::Normal => 2,
        Difficulty::Hard => 1,
        Difficulty::Heroic => 0,
    }
}

/// Draw-pile multiplier of the difficulty: the deck holds this many cards
/// per operator.
pub open spec fn hacker_mult(difficulty: Difficulty) -> int {
    match difficulty {
        Difficulty::Easy => 6,
        Difficulty::Normal => 7,
        Difficulty::Hard => 7,
        Difficulty::Heroic => 7,
    }
}

/// Gets (firewall mod, hacker multiplier) depending on difficulty.
pub fn difficulty_mod(difficulty: &Difficulty) -> (r: (usize, usize))
    ensures
        r.0 == firewall_mod(*difficulty),
        r.1 == hacker_mult(*difficulty),
{
    match difficulty {
        Difficulty::Easy => (3, 6),
        Difficulty::Normal => (2, 7),
        Difficulty::Hard => (1, 7),
        Difficulty::Heroic => (0, 7),
    }
}

/// One fresh `OperatorState` per rostered operator, in roster order.
fn init_operators(operators: &arrayvec::ArrayVec<crate::defs::OperatorType, 7>) -> (r: Vec<
    OperatorState,
>)
    ensures
        r@.len() == crate::shims::ops_of(*operators).len(),
        forall|i: int|
            0 <= i < r@.len() ==> (#[trigger] r@[i])@ == fresh_op(
                crate::shims::ops_of(*operators)[i],
            ),
{
    let ghost ops = crate::shims::ops_of(*operators);
    let n = ops_len(operators);
    let mut r: Vec<OperatorState> = Vec::new();
    let mut k: usize = 0;
    while k < n
        invariant
            ops == crate::shims::ops_of(*operators),
            n == ops.len(),
            0 <= k <= n,
            r@.len() == k,
            forall|i: int| 0 <= i < k ==> (#[trigger] r@[i])@ == fresh_op(ops[i]),
        decreases n - k,
    {
        let t = ops_get(operators, k);
        r.push(OperatorState::new(&t));
        k += 1;
    }
    r
}

/// The base draw pool before shuffling: the 52 low-value hackers of the
/// catalog in id order, all face down.
pub open spec fn base_pool() -> Seq<HackerCard> {
    Seq::new(52, |i: int| HackerCard { hacker: i as u8, face_up: false })
}

/// A deck that holds the first `hackers` cards of the base pool as the
/// seeded permutation ordered them, all face down: the ids are pairwise
/// distinct, each has value at most 4, and the whole composition is a
/// function of the seed alone, so a fixed seed reproduces it.
fn shuffle(hackers: usize, seed: u64) -> (r: HackerDeck)
    requires
        hackers <= 52,
    ensures
        cards_of(r) == shuffled(base_pool(), seed).subrange(0, hackers as int),
        cards_of(r).len() == hackers,
        forall|i: int|
            0 <= i < hackers ==> (#[trigger] cards_of(r)[i]).hacker < 52 && !cards_of(
                r,
            )[i].face_up,
        forall|i: int, j: int|
            0 <= i < j < hackers ==> cards_of(r)[i].hacker != cards_of(r)[j].hacker,
{
    let mut eligible: Vec<HackerCard> = Vec::new();
    let mut id: u8 = 0;
    while id < 66
        invariant
            id <= 66,
            eligible@.len() == (if id <= 52 {
                id as int
            } else {
                52
            }),
            forall|i: int|
                0 <= i < eligible@.len() ==> eligible@[i] == (HackerCard {
                    hacker: i as u8,
                    face_up: false,
                }),
        decreases 66 - id,
    {
        let h = hacker(id);
        if h.value() <= 4 {
            eligible.push(HackerCard::new(id));
        }
        id += 1;
    }
    proof {
        assert(eligible@.no_duplicates());
    }
    let ghost before = eligible@;
    proof {
        assert(before =~= base_pool());
    }
    shuffle_cards(&mut eligible, seed);
    proof {
        broadcast use vstd::seq_lib::group_to_multiset_ensures;

        before.lemma_multiset_has_no_duplicates();
        eligible@.lemma_multiset_has_no_duplicates_conv();
        assert forall|i: int| 0 <= i < eligible@.len() implies (#[trigger] eligible@[i]).hacker
            < 52 && !eligible@[i].face_up by {
            assert(eligible@.to_multiset().count(eligible@[i]) > 0);
            assert(before.contains(eligible@[i]));
        }
    }
    let mut deck = deck_new();
    let mut k: usize = 0;
    while k < hackers
        invariant
            hackers <= 52,
            eligible@.len() == 52,
            eligible@ == shuffled(base_pool(), seed),
            0 <= k <= hackers,
            cards_of(deck) == eligible@.subrange(0, k as int),
            forall|i: int|
                0 <= i < eligible@.len() ==> (#[trigger] eligible@[i]).hacker < 52 && !eligible@[i].face_up,
            eligible@.no_duplicates(),
        decreases hackers - k,
    {
        let c = eligible[k];
        deck_push(&mut deck, c);
        proof {
            assert(cards_of(deck) =~= eligible@.subrange(0, k + 1));
        }
        k += 1;
    }
    proof {
        assert forall|i: int, j: int| 0 <= i < j < hackers implies cards_of(deck)[i].hacker
            != cards_of(deck)[j].hacker by {
            assert(cards_of(deck)[i] == eligible@[i]);
            assert(cards_of(deck)[j] == eligible@[j]);
            assert(eligible@[i] != eligible@[j]);
        }
        assert(cards_of(deck) == shuffled(base_pool(), seed).subrange(0, hackers as int));
    }
    deck
}

impl TableState {
    /// Returns a table fully set up in accordance with the provided game
    /// config, ready for the first operator to perform their turn: firewalls
    /// are the operator count plus the difficulty bonus, every database and
    /// webservice is present, the deck holds operator count times the
    /// difficulty multiplier distinct low-value hackers face down, the other
    /// piles are empty, every operator starts fresh, and operator 0 is to
    /// choose an action. The deck is a function of the roster size, the
    /// difficulty and the injected seed alone: a fixed seed reproduces an
    /// identical draw pile.
    pub fn setup_game(config: &GameConfig, seed: u64) -> (r: TableState)
        requires
            config.wf(),
        ensures
            r.wf(),
            r@.hackers == shuffled(base_pool(), seed).subrange(
                0,
                config.ops().len() * hacker_mult(config.difficulty),
            ),
            r@.firewalls == config.ops().len() + firewall_mod(config.difficulty),
            r@.databases =~= seq![true, true, true],
            r@.webservices =~= seq![true, true, true, true, true, true],
            r@.hackers.len() == config.ops().len() * hacker_mult(config.difficulty),
            forall|i: int|
                0 <= i < r@.hackers.len() ==> card_value(
                    (#[trigger] r@.hackers[i]).hacker as int,
                ) <= 4 && !r@.hackers[i].face_up && r@.hackers[i].hacker < 52,
            forall|i: int, j: int|
                0 <= i < j < r@.hackers.len() ==> r@.hackers[i].hacker != r@.hackers[j].hacker,
            r@.breach.len() == 0,
            r@.discard.len() == 0,
            r@.round == 0,
            r@.facing == NO_HACKER,
            r@.active_operator == 0,
            r@.operators.len() == config.ops().len(),
            forall|i: int|
                0 <= i < r@.operators.len() ==> #[trigger] r@.operators[i] == fresh_op(
                    config.ops()[i],
                ),
            r@.choice_state == ChoiceState::ChooseAction(0),
    {
        let (firewall_mod, hacker_mult) = difficulty_mod(&config.difficulty);
        let n = ops_len(&config.operators);
        let r = TableState {
            firewalls: (n + firewall_mod) as u8,
            databases: [true;3],
            webservices: [true;6],
            hackers: shuffle(n * hacker_mult, seed),
            breach: deck_new(),
            discard: deck_new(),
            round: 0,
            facing: NO_HACKER,
            active_operator: 0,
            operators: init_operators(&config.operators),
            choice_state: ChoiceState::ChooseAction(0),
        };
        proof {
            assert(r@.databases =~= seq![true, true, true]);
            assert(r@.webservices =~= seq![true, true, true, true, true, true]);
            assert forall|i: int| 0 <= i < r@.operators.len() implies #[trigger] r@.operators[i]
                == fresh_op(config.ops()[i]) by {
                assert(r@.operators[i] == r.operators@.map_values(|o: OperatorState| o@)[i]);
            }
        }
        r
    }
}

/// The assist choices a deciding operator is offered: one per other
/// operator with index below `n`, in roster order.
pub open spec fn assist_choices(op: int, n: int) -> Seq<Choice>
    decreases n,
{
    if n <= 0 {
        Seq::empty()
    } else if n - 1 == op {
        assist_choices(op, n - 1)
    } else {
        assist_choices(op, n - 1).push(Choice::Assist((n - 1) as u8))
    }
}

/// The ordered choices offered to the operator deciding a choose-action
/// state: idle unless already idle, face when the deck is non-empty, then
/// one assist per other operator in roster order.
pub open spec fn choice_seq(op: int, n: int, has_hackers: bool, idle: bool) -> Seq<Choice> {
    (if idle {
        Seq::<Choice>::empty()
    } else {
        seq![Choice::Idle]
    }) + (if has_hackers {
        seq![Choice::Face]
    } else {
        Seq::<Choice>::empty()
    }) + assist_choices(op, n)
}

/// The precondition of an event: whether `perform` may apply it to this
/// table.
pub open spec fn event_ok(s: TableView, event: TableEvent) -> bool {
    match event {
        TableEvent::FirewallDelta(d) => 0 <= s.firewalls + d <= 3,
        TableEvent::DatabaseRemove(i) => i < 3 && s.databases[i as int],
        TableEvent::WebserviceRemove(i) => i < 6 && s.webservices[i as int],
        TableEvent::Face => s.facing == NO_HACKER && s.hackers.len() > 0,
        TableEvent::Idle => !s.operators[s.active_operator as int].idle,
        TableEvent::Assist(t) => t < s.operators.len() && t != s.active_operator,
        TableEvent::ActiveOperator(id) => id < s.operators.len(),
        TableEvent::RoundAdvance => s.round < 2,
        TableEvent::ChoiceState(_) => true,
    }
}

/// The per-operator states at the start of a new round: idle flags are
/// cleared, everything else stands.
pub open spec fn cleared_ops(ops: Seq<OpView>) -> Seq<OpView> {
    Seq::new(ops.len(), |i: int| OpView { idle: false, ..ops[i] })
}

/// The skill list of `target` once the active operator's own skill has been
/// granted to it: unchanged when the token is already held (a set-style
/// grant), else the skill is appended.
pub open spec fn granted_skills(s: TableView, target: int) -> Seq<crate::defs::OperatorType> {
    let grant = s.operators[s.active_operator as int].skills[0];
    let skills = s.operators[target].skills;
    if skills.contains(grant) || skills.len() >= 7 {
        skills
    } else {
        skills.push(grant)
    }
}

/// The table after an event whose precondition holds.
pub open spec fn apply_event(s: TableView, event: TableEvent) -> TableView {
    match event {
        TableEvent::FirewallDelta(d) => TableView { firewalls: (s.firewalls + d) as u8, ..s },
        TableEvent::DatabaseRemove(i) => TableView {
            databases: s.databases.update(i as int, false),
            ..s
        },
        TableEvent::WebserviceRemove(i) => TableView {
            webservices: s.webservices.update(i as int, false),
            ..s
        },
        TableEvent::Face => TableView {
            facing: s.hackers.last().hacker,
            hackers: s.hackers.drop_last(),
            ..s
        },
        TableEvent::Idle => {
            let a = s.active_operator as int;
            TableView { operators: s.operators.update(a, OpView { idle: true, ..s.operators[a] }), ..s }
        },
        TableEvent::Assist(t) => {
            let tgt = s.operators[t as int];
            TableView {
                operators: s.operators.update(t as int, OpView { skills: granted_skills(s, t as int), ..tgt }),
                ..s
            }
        },
        TableEvent::ActiveOperator(id) => TableView { active_operator: id, ..s },
        TableEvent::RoundAdvance => TableView {
            round: (s.round + 1) as u8,
            operators: cleared_ops(s.operators),
            ..s
        },
        TableEvent::ChoiceState(next) => TableView { choice_state: next, ..s },
    }
}

/// The error `perform` reports for an event whose precondition fails, per
/// the first check that fails.
pub open spec fn event_err(s: TableView, event: TableEvent) -> EventError {
    match event {
        TableEvent::FirewallDelta(_) => EventError::FirewallOutOfBand,
        TableEvent::DatabaseRemove(i) => if i >= 3 {
            EventError::DatabaseOutOfRange
        } else {
            EventError::DatabaseAlreadyRemoved
        },
        TableEvent::WebserviceRemove(i) => if i >= 6 {
            EventError::WebserviceOutOfRange
        } else {
            EventError::WebserviceAlreadyRemoved
        },
        TableEvent::Face => if s.facing != NO_HACKER {
            EventError::AlreadyFacing
        } else {
            EventError::DeckEmpty
        },
        TableEvent::Idle => EventError::AlreadyIdle,
        TableEvent::Assist(t) => if t >= s.operators.len() {
            EventError::AssistOutOfRange
        } else {
            EventError::AssistSelf
        },
        TableEvent::ActiveOperator(_) => EventError::OperatorOutOfRange,
        TableEvent::RoundAdvance => EventError::NoRoundsLeft,
        // a machine-state advance has no precondition, so no error arises
        TableEvent::ChoiceState(_) => EventError::OperatorOutOfRange,
    }
}

/// The index of the next operator to take a turn, searching clockwise from
/// `from` for one that is not idle; `from` itself when no other candidate
/// remains.
pub open spec fn next_active_from(ops: Seq<OpView>, from: int, d: int) -> int
    decreases ops.len() - d,
{
    if d < 1 || d >= ops.len() {
        from
    } else if !ops[(from + d) % (ops.len() as int)].idle {
        (from + d) % (ops.len() as int)
    } else {
        next_active_from(ops, from, d + 1)
    }
}

/// The next non-idle operator strictly after `from`, wrapping clockwise.
pub open spec fn next_active(ops: Seq<OpView>, from: int) -> int {
    next_active_from(ops, from, 1)
}

/// Searches clockwise from `from` for the next operator that is not idle;
/// when `from_idles`, the operator at `from` is treated as idle already
/// (the choice being resolved is about to idle it).
fn next_active_exec(operators: &Vec<OperatorState>, from: usize, from_idles: bool) -> (r: usize)
    requires
        from < operators@.len(),
        operators@.len() <= 7,
    ensures
        r == next_active(
            if from_idles {
                let ops = operators@.map_values(|o: OperatorState| o@);
                ops.update(from as int, OpView { idle: true, ..ops[from as int] })
            } else {
                operators@.map_values(|o: OperatorState| o@)
            },
            from as int,
        ),
        r < operators@.len(),
{
    let ghost ops0 = operators@.map_values(|o: OperatorState| o@);
    let ghost ops = if from_idles {
        ops0.update(from as int, OpView { idle: true, ..ops0[from as int] })
    } else {
        ops0
    };
    let n = operators.len();
    let mut d: usize = 1;
    while d < n
        invariant
            1 <= d <= n,
            from < n <= 7,
            n == ops.len(),
            ops.len() == ops0.len(),
            ops0 == operators@.map_values(|o: OperatorState| o@),
            ops == (if from_idles {
                ops0.update(from as int, OpView { idle: true, ..ops0[from as int] })
            } else {
                ops0
            }),
            next_active(ops, from as int) == next_active_from(ops, from as int, d as int),
        decreases n - d,
    {
        let idx = (from + d) % n;
        let idle = if from_idles && idx == from {
            true
        } else {
            self_idle(operators, idx)
        };
        if !idle {
            return idx;
        }
        d += 1;
    }
    from
}

/// Whether the operator at `idx` is idling.
fn self_idle(operators: &Vec<OperatorState>, idx: usize) -> (r: bool)
    requires
        idx < operators@.len(),
    ensures
        r == operators@.map_values(|o: OperatorState| o@)[idx as int].idle,
{
    operators[idx].idle
}

/// The full ordered event list that resolves a choice made in a
/// choose-action state: the action's own event followed by the machine
/// advancing to the next decision point. When the last available operator
/// idles, the round ends: the counter advances and the next round opens
/// clockwise, or, after the final round, the game is over.
pub open spec fn choose_events(s: TableView, choice: Choice) -> Seq<TableEvent> {
    let op = s.active_operator as int;
    match choice {
        Choice::Face => seq![
            TableEvent::Face,
            TableEvent::ChoiceState(ChoiceState::Face(s.active_operator)),
        ],
        Choice::Assist(t) => {
            let na = next_active(s.operators, op);
            seq![
                TableEvent::Assist(t),
                TableEvent::ActiveOperator(na as u8),
                TableEvent::ChoiceState(ChoiceState::ChooseAction(na as u8)),
            ]
        },
        Choice::Idle => {
            let ops = s.operators.update(op, OpView { idle: true, ..s.operators[op] });
            let na = next_active(ops, op);
            if na != op {
                // another operator can still act: the turn passes to it
                seq![
                    TableEvent::Idle,
                    TableEvent::ActiveOperator(na as u8),
                    TableEvent::ChoiceState(ChoiceState::ChooseAction(na as u8)),
                ]
            } else if s.round < 2 {
                // the last available operator idled: the round ends, idle
                // flags clear, and the next round opens clockwise
                let nb = next_active(cleared_ops(ops), op);
                seq![
                    TableEvent::Idle,
                    TableEvent::RoundAdvance,
                    TableEvent::ActiveOperator(nb as u8),
                    TableEvent::ChoiceState(ChoiceState::ChooseAction(nb as u8)),
                ]
            } else {
                // the last available operator idled in the final round
                seq![TableEvent::Idle, TableEvent::ChoiceState(ChoiceState::GameOver)]
            }
        },
    }
}

/// The assist choices offered to operator `op` of a roster of `n` are one
/// per other operator below `n`, each an assist naming that operator.
pub proof fn lemma_assist_choices(op: int, n: int)
    requires
        0 <= op,
        0 <= n <= 256,
    ensures
        assist_choices(op, n).len() == (if n <= op {
            n
        } else {
            n - 1
        }),
        forall|i: int|
            0 <= i < assist_choices(op, n).len() ==> ((#[trigger] assist_choices(op, n)[i])
                matches Choice::Assist(t) && (t as int) < n && (t as int) != op),
    decreases n,
{
    if n > 0 {
        lemma_assist_choices(op, n - 1);
    }
}

/// The offered choices reflect only actions whose precondition currently
/// holds: face is offered only while the deck has cards, an assist only
/// names another rostered operator, and idle is offered only to an
/// operator that does not idle yet.
pub proof fn lemma_choices_meet_preconditions(op: int, n: int, has_hackers: bool, idle: bool)
    requires
        0 <= op < n <= 256,
    ensures
        forall|i: int|
            0 <= i < choice_seq(op, n, has_hackers, idle).len() ==> {
                let c = #[trigger] choice_seq(op, n, has_hackers, idle)[i];
                &&& (c == Choice::Face ==> has_hackers)
                &&& (c matches Choice::Assist(t) ==> (t as int) < n && (t as int) != op)
                &&& (c == Choice::Idle ==> !idle)
            },
{
    lemma_assist_choices(op, n);
    let cs = choice_seq(op, n, has_hackers, idle);
    let base = (if idle {
        Seq::<Choice>::empty()
    } else {
        seq![Choice::Idle]
    }) + (if has_hackers {
        seq![Choice::Face]
    } else {
        Seq::<Choice>::empty()
    });
    assert forall|i: int| 0 <= i < cs.len() implies {
        let c = #[trigger] cs[i];
        &&& (c == Choice::Face ==> has_hackers)
        &&& (c matches Choice::Assist(t) ==> (t as int) < n && (t as int) != op)
        &&& (c == Choice::Idle ==> !idle)
    } by {
        if i >= base.len() {
            assert(cs[i] == assist_choices(op, n)[i - base.len()]);
        }
    }
}

/// On a fresh choose-action state (nobody idles yet) face is never offered
/// while the draw pile is empty: the offers are exactly idle, followed by
/// one assist per other operator.
pub proof fn lemma_fresh_choices_without_hackers(op: int, n: int)
    requires
        0 <= op < n <= 256,
    ensures
        !choice_seq(op, n, false, false).contains(Choice::Face),
        choice_seq(op, n, false, false).len() == n,
        choice_seq(op, n, false, false)[0] == Choice::Idle,
        forall|i: int|
            1 <= i < n ==> (#[trigger] choice_seq(op, n, false, false)[i]) is Assist,
{
    lemma_assist_choices(op, n);
    let cs = choice_seq(op, n, false, false);
    assert(cs =~= seq![Choice::Idle] + assist_choices(op, n));
    assert forall|i: int| 0 <= i < cs.len() implies cs[i] != Choice::Face by {
        if i >= 1 {
            assert(cs[i] == assist_choices(op, n)[i - 1]);
        }
    }
    if cs.contains(Choice::Face) {
        let i = choose|i: int| 0 <= i < cs.len() && cs[i] == Choice::Face;
        assert(false);
    }
}

impl TableState {
    /// Returns the valid choices that can be performed based on the current
    /// game state: idle unless the deciding operator already idles, face
    /// when the deck is non-empty, and one assist per other operator in
    /// roster order; in the terminal state, no choice at all.
    pub fn valid_choices(&self) -> (r: Vec<Choice>)
        requires
            self.wf(),
            self@.choice_state is ChooseAction || self@.choice_state is GameOver,
            self@.choice_state is ChooseAction ==> (self@.choice_state->ChooseAction_0 as int)
                < self@.operators.len(),
        ensures
            self@.choice_state is GameOver ==> r@ == Seq::<Choice>::empty(),
            self@.choice_state is ChooseAction ==> r@ == choice_seq(
                self@.choice_state->ChooseAction_0 as int,
                self@.operators.len() as int,
                self@.hackers.len() > 0,
                self@.operators[self@.choice_state->ChooseAction_0 as int].idle,
            ),
    {
        let op = match self.choice_state {
            ChoiceState::ChooseAction(o) => o as usize,
            ChoiceState::GameOver => {
                // terminal: no further action can be taken
                return Vec::new();
            },
            // unreachable: the contract admits no other state
            _ => 0,
        };
        let n = self.operators.len();
        let has_hackers = deck_len(&self.hackers) > 0;
        let idle = self_idle(&self.operators, op);
        let mut choices: Vec<Choice> = Vec::new();
        if !idle {
            choices.push(Choice::Idle);
        }
        if has_hackers {
            choices.push(Choice::Face);
        }
        let ghost base = choices@;
        proof {
            assert(choices@ =~= base + assist_choices(op as int, 0));
        }
        let mut i: usize = 0;
        while i < n
            invariant
                0 <= i <= n,
                op < n,
                n == self@.operators.len(),
                base == (if self@.operators[op as int].idle {
                    Seq::<Choice>::empty()
                } else {
                    seq![Choice::Idle]
                }) + (if self@.hackers.len() > 0 {
                    seq![Choice::Face]
                } else {
                    Seq::<Choice>::empty()
                }),
                choices@ == base + assist_choices(op as int, i as int),
            decreases n - i,
        {
            if i != op {
                choices.push(Choice::Assist(i as u8));
                proof {
                    assert(choices@ =~= base + assist_choices(op as int, i + 1));
                }
            } else {
                proof {
                    assert(choices@ =~= base + assist_choices(op as int, i + 1));
                }
            }
            i += 1;
        }
        proof {
            assert(choices@ =~= choice_seq(
                self@.choice_state->ChooseAction_0 as int,
                self@.operators.len() as int,
                self@.hackers.len() > 0,
                self@.operators[self@.choice_state->ChooseAction_0 as int].idle,
            ));
        }
        choices
    }

    /// Resolve the indicated choice, made in a choose-action state, into the
    /// ordered list of events that carries the table to the next decision
    /// point — through the end of the round, when the last available
    /// operator idles, to the next round's opening or the end of the game.
    /// A pure computation: the table is not touched.
    pub fn resolve_choice(&self, choice: Choice) -> (r: Vec<TableEvent>)
        requires
            self.wf(),
            self@.choice_state == ChoiceState::ChooseAction(self@.active_operator),
            !self@.operators[self@.active_operator as int].idle,
            self@.facing == NO_HACKER,
            choice == Choice::Face ==> self@.hackers.len() > 0,
            choice matches Choice::Assist(t) ==> (t as int) < self@.operators.len() && t
                != self@.active_operator,
        ensures
            r@ == choose_events(self@, choice),
    {
        let op = self.active_operator as usize;
        let mut events: Vec<TableEvent> = Vec::new();
        match choice {
            Choice::Face => {
                events.push(TableEvent::Face);
                events.push(TableEvent::ChoiceState(ChoiceState::Face(self.active_operator)));
            },
            Choice::Assist(t) => {
                let na = next_active_exec(&self.operators, op, false);
                events.push(TableEvent::Assist(t));
                events.push(TableEvent::ActiveOperator(na as u8));
                events.push(TableEvent::ChoiceState(ChoiceState::ChooseAction(na as u8)));
            },
            Choice::Idle => {
                let n = self.operators.len();
                let na = next_active_exec(&self.operators, op, true);
                events.push(TableEvent::Idle);
                if na != op {
                    events.push(TableEvent::ActiveOperator(na as u8));
                    events.push(TableEvent::ChoiceState(ChoiceState::ChooseAction(na as u8)));
                } else if self.round < 2 {
                    let nb = (op + 1) % n;
                    proof {
                        let ghost idled = self@.operators.update(
                            op as int,
                            OpView { idle: true, ..self@.operators[op as int] },
                        );
                        let cleared = cleared_ops(idled);
                        if n == 1 {
                            assert(nb == op);
                            assert(next_active(cleared, op as int) == op);
                        } else {
                            assert((op as int + 1) % (n as int) == nb as int);
                            assert(!cleared[nb as int].idle);
                            assert(next_active(cleared, op as int) == nb);
                        }
                    }
                    events.push(TableEvent::RoundAdvance);
                    events.push(TableEvent::ActiveOperator(nb as u8));
                    events.push(TableEvent::ChoiceState(ChoiceState::ChooseAction(nb as u8)));
                } else {
                    events.push(TableEvent::ChoiceState(ChoiceState::GameOver));
                }
            },
        }
        proof {
            assert(events@ =~= choose_events(self@, choice));
        }
        events
    }

    /// Update the table corresponding with what the event says to do. The
    /// event's precondition is validated first: a violated precondition is
    /// reported as the exact error and leaves the table unchanged, and an
    /// accepted event effects exactly the update `apply_event` describes.
    pub fn perform(&mut self, event: TableEvent) -> (r: Result<(), EventError>)
        requires
            old(self).wf(),
        ensures
            r is Ok <==> event_ok(old(self)@, event),
            r is Ok ==> final(self)@ == apply_event(old(self)@, event),
            r is Err ==> final(self)@ == old(self)@ && r == Result::<(), EventError>::Err(
                event_err(old(self)@, event),
            ),
            final(self).wf(),
    {
        match event {
            TableEvent::FirewallDelta(delta) => {
                let result: i16 = (self.firewalls as i16) + (delta as i16);
                if !(0 <= result && result <= 3) {
                    return Result::Err(EventError::FirewallOutOfBand);
                }
                self.firewalls = result as u8;
                proof {
                    assert(self@ =~= apply_event(old(self)@, event));
                }
                Result::Ok(())
            },
            TableEvent::DatabaseRemove(idx) => {
                if !(idx < 3) {
                    return Result::Err(EventError::DatabaseOutOfRange);
                }
                let idx = idx as usize;
                if !self.databases[idx] {
                    return Result::Err(EventError::DatabaseAlreadyRemoved);
                }
                self.databases[idx] = false;
                proof {
                    assert(self@ =~= apply_event(old(self)@, event));
                }
                Result::Ok(())
            },
            TableEvent::WebserviceRemove(idx) => {
                if !(idx < 6) {
                    return Result::Err(EventError::WebserviceOutOfRange);
                }
                let idx = idx as usize;
                if !self.webservices[idx] {
                    return Result::Err(EventError::WebserviceAlreadyRemoved);
                }
                self.webservices[idx] = false;
                proof {
                    assert(self@ =~= apply_event(old(self)@, event));
                }
                Result::Ok(())
            },
            TableEvent::Face => {
                if self.facing != NO_HACKER {
                    return Result::Err(EventError::AlreadyFacing);
                }
                match deck_pop(&mut self.hackers) {
                    Some(x) => {
                        self.facing = x.hacker;
                        proof {
                            assert(self@ =~= apply_event(old(self)@, event));
                        }
                        Result::Ok(())
                    },
                    None => Result::Err(EventError::DeckEmpty),
                }
            },
            TableEvent::Idle => {
                let a = self.active_operator as usize;
                if self.operators[a].idle {
                    return Result::Err(EventError::AlreadyIdle);
                }
                self.operators[a].idle = true;
                proof {
                    assert(self@.operators =~= apply_event(old(self)@, event).operators);
                    assert(self@ =~= apply_event(old(self)@, event));
                }
                Result::Ok(())
            },
            TableEvent::Assist(t) => {
                let n = self.operators.len();
                if !((t as usize) < n) {
                    return Result::Err(EventError::AssistOutOfRange);
                }
                if t == self.active_operator {
                    return Result::Err(EventError::AssistSelf);
                }
                let a = self.active_operator as usize;
                let grant = ops_get(&self.operators[a].skills, 0);
                let t = t as usize;
                let m = ops_len(&self.operators[t].skills);
                let mut held = false;
                let mut i: usize = 0;
                while i < m
                    invariant
                        0 <= i <= m,
                        t < self.operators@.len(),
                        m == self.operators@[t as int]@.skills.len(),
                        held <==> exists|j: int|
                            0 <= j < i && self.operators@[t as int]@.skills[j] == grant,
                    decreases m - i,
                {
                    if ops_get(&self.operators[t].skills, i) == grant {
                        held = true;
                    }
                    i += 1;
                }
                if !held && m < 7 {
                    ops_push(&mut self.operators[t].skills, grant);
                }
                proof {
                    assert(!held ==> !old(self)@.operators[t as int].skills.contains(grant));
                    assert(held ==> old(self)@.operators[t as int].skills.contains(grant));
                    assert(self@.operators =~= apply_event(old(self)@, event).operators);
                    assert(self@ =~= apply_event(old(self)@, event));
                }
                Result::Ok(())
            },
            TableEvent::ActiveOperator(id) => {
                if !((id as usize) < self.operators.len()) {
                    return Result::Err(EventError::OperatorOutOfRange);
                }
                self.active_operator = id;
                proof {
                    assert(self@ =~= apply_event(old(self)@, event));
                }
                Result::Ok(())
            },
            TableEvent::RoundAdvance => {
                if !(self.round < 2) {
                    return Result::Err(EventError::NoRoundsLeft);
                }
                self.round = self.round + 1;
                let n = self.operators.len();
                let mut i: usize = 0;
                while i < n
                    invariant
                        0 <= i <= n,
                        n == self.operators@.len(),
                        self.operators@.len() == old(self).operators@.len(),
                        forall|j: int|
                            0 <= j < i ==> (#[trigger] self.operators@[j])@ == (OpView {
                                idle: false,
                                ..old(self).operators@[j]@
                            }),
                        forall|j: int|
                            i <= j < n ==> #[trigger] self.operators@[j] == old(
                                self,
                            ).operators@[j],
                        self.firewalls == old(self).firewalls,
                        self.databases == old(self).databases,
                        self.webservices == old(self).webservices,
                        self.hackers == old(self).hackers,
                        self.breach == old(self).breach,
                        self.discard == old(self).discard,
                        self.round == old(self).round + 1,
                        self.facing == old(self).facing,
                        self.active_operator == old(self).active_operator,
                        self.choice_state == old(self).choice_state,
                    decreases n - i,
                {
                    self.operators[i].idle = false;
                    i += 1;
                }
                proof {
                    assert(self@.operators =~= cleared_ops(old(self)@.operators));
                    assert(self@ =~= apply_event(old(self)@, event));
                }
                Result::Ok(())
            },
            TableEvent::ChoiceState(next) => {
                self.choice_state = next;
                proof {
                    assert(self@ =~= apply_event(old(self)@, event));
                }
                Result::Ok(())
            },
        }
    }
}

/// A firewall delta whose result would leave the legal band of 0 to 3 is
/// never accepted; an accepted delta moves the count by exactly `d` and
/// keeps it in the band.
pub proof fn lemma_firewall_band(s: TableView, d: i8)
    ensures
        !(0 <= s.firewalls + d <= 3) ==> !event_ok(s, TableEvent::FirewallDelta(d)),
        event_ok(s, TableEvent::FirewallDelta(d)) ==> apply_event(
            s,
            TableEvent::FirewallDelta(d),
        ).firewalls == s.firewalls + d && apply_event(s, TableEvent::FirewallDelta(d)).firewalls
            <= 3,
{
}

/// Removing an absent database is rejected; removing a present one is
/// accepted exactly once: afterwards the same index is absent and a second
/// removal is rejected.
pub proof fn lemma_database_removed_once(s: TableView, i: u8)
    requires
        i < 3,
        s.databases.len() == 3,
    ensures
        !s.databases[i as int] ==> !event_ok(s, TableEvent::DatabaseRemove(i)),
        s.databases[i as int] ==> event_ok(s, TableEvent::DatabaseRemove(i)) && !apply_event(
            s,
            TableEvent::DatabaseRemove(i),
        ).databases[i as int] && !event_ok(
            apply_event(s, TableEvent::DatabaseRemove(i)),
            TableEvent::DatabaseRemove(i),
        ),
{
}

/// Removing an absent webservice is rejected; removing a present one is
/// accepted exactly once: afterwards the same index is absent and a second
/// removal is rejected.
pub proof fn lemma_webservice_removed_once(s: TableView, i: u8)
    requires
        i < 6,
        s.webservices.len() == 6,
    ensures
        !s.webservices[i as int] ==> !event_ok(s, TableEvent::WebserviceRemove(i)),
        s.webservices[i as int] ==> event_ok(s, TableEvent::WebserviceRemove(i)) && !apply_event(
            s,
            TableEvent::WebserviceRemove(i),
        ).webservices[i as int] && !event_ok(
            apply_event(s, TableEvent::WebserviceRemove(i)),
            TableEvent::WebserviceRemove(i),
        ),
{
}

/// Facing with an empty draw pile is rejected. On a non-empty pile with no
/// card under resolution, facing pops exactly the top card into `facing`
/// and shrinks the pile by one — and a second face, before the first card
/// is resolved, is rejected.
pub proof fn lemma_face_pops_top(s: TableView)
    ensures
        s.hackers.len() == 0 ==> !event_ok(s, TableEvent::Face),
        s.facing == NO_HACKER && s.hackers.len() > 0 ==> event_ok(s, TableEvent::Face)
            && apply_event(s, TableEvent::Face).facing == s.hackers.last().hacker && apply_event(
            s,
            TableEvent::Face,
        ).hackers == s.hackers.drop_last() && apply_event(s, TableEvent::Face).hackers.len()
            == s.hackers.len() - 1 && (s.hackers.last().hacker != NO_HACKER ==> !event_ok(
            apply_event(s, TableEvent::Face),
            TableEvent::Face,
        )),
{
}

/// Whether a whole event list can be performed in order: each event's
/// precondition holds of the table the previous events produced.
pub open spec fn events_ok(s: TableView, events: Seq<TableEvent>) -> bool
    decreases events.len(),
{
    events.len() == 0 || (event_ok(s, events[0]) && events_ok(
        apply_event(s, events[0]),
        events.drop_first(),
    ))
}

/// The table a whole event list leaves behind when performed in order.
pub open spec fn apply_events(s: TableView, events: Seq<TableEvent>) -> TableView
    decreases events.len(),
{
    if events.len() == 0 {
        s
    } else {
        apply_events(apply_event(s, events[0]), events.drop_first())
    }
}

/// The clockwise search always lands on a rostered index.
pub proof fn lemma_next_active_in_range(ops: Seq<OpView>, from: int, d: int)
    requires
        0 <= from < ops.len(),
        1 <= d,
    ensures
        0 <= next_active_from(ops, from, d) < ops.len(),
    decreases ops.len() - d,
{
    broadcast use vstd::arithmetic::div_mod::lemma_mod_bound;

    if d < ops.len() {
        lemma_next_active_in_range(ops, from, d + 1);
    }
}

/// The clockwise search returns the start index itself, or an index whose
/// operator is not idle.
pub proof fn lemma_next_active_result(ops: Seq<OpView>, from: int, d: int)
    requires
        0 <= from < ops.len(),
        1 <= d,
    ensures
        next_active_from(ops, from, d) == from || !ops[next_active_from(ops, from, d)].idle,
    decreases ops.len() - d,
{
    if d < ops.len() {
        lemma_next_active_result(ops, from, d + 1);
    }
}

/// Every event list the choice engine derives for a legal choice is
/// performable: applied in order, each event's precondition holds, and the
/// table lands on the next decision point — a facing decision for the
/// operator that faced, or a choose-action decision for a non-idle next
/// operator.
pub proof fn lemma_choose_events_perform(s: TableView, choice: Choice)
    requires
        1 <= s.operators.len() <= 7,
        (s.active_operator as int) < s.operators.len(),
        s.choice_state == ChoiceState::ChooseAction(s.active_operator),
        !s.operators[s.active_operator as int].idle,
        s.facing == NO_HACKER,
        choice == Choice::Face ==> s.hackers.len() > 0,
        choice matches Choice::Assist(t) ==> (t as int) < s.operators.len() && t
            != s.active_operator,
    ensures
        events_ok(s, choose_events(s, choice)),
        choice == Choice::Face ==> apply_events(s, choose_events(s, choice)).choice_state
            == ChoiceState::Face(s.active_operator),
        choice != Choice::Face ==> {
            let t = apply_events(s, choose_events(s, choice));
            ||| t.choice_state == ChoiceState::GameOver
            ||| {
                &&& t.choice_state == ChoiceState::ChooseAction(t.active_operator)
                &&& (t.active_operator as int) < t.operators.len()
                &&& !t.operators[t.active_operator as int].idle
            }
        },
{
    let evs = choose_events(s, choice);
    let op = s.active_operator as int;
    let n = s.operators.len() as int;
    match choice {
        Choice::Face => {
            let s1 = apply_event(s, evs[0]);
            let s2 = apply_event(s1, evs[1]);
            assert(evs.drop_first() =~= seq![evs[1]]);
            assert(evs.drop_first().drop_first() =~= Seq::<TableEvent>::empty());
            assert(event_ok(s, evs[0]));
            assert(event_ok(s1, evs[1]));
            assert(events_ok(s2, Seq::<TableEvent>::empty()));
            assert(events_ok(s1, evs.drop_first()));
            assert(events_ok(s, evs));
            assert(apply_events(s2, Seq::<TableEvent>::empty()) == s2);
            assert(apply_events(s1, evs.drop_first()) == s2);
            assert(apply_events(s, evs) == s2);
        },
        Choice::Assist(t) => {
            let na = next_active(s.operators, op);
            lemma_next_active_in_range(s.operators, op, 1);
            lemma_next_active_result(s.operators, op, 1);
            assert(!s.operators[na].idle);
            let s1 = apply_event(s, evs[0]);
            let s2 = apply_event(s1, evs[1]);
            let s3 = apply_event(s2, evs[2]);
            assert(s1.operators.len() == n);
            assert(s1.operators[na].idle == s.operators[na].idle);
            assert(evs.drop_first() =~= seq![evs[1], evs[2]]);
            assert(evs.drop_first().drop_first() =~= seq![evs[2]]);
            assert(evs.drop_first().drop_first().drop_first() =~= Seq::<TableEvent>::empty());
            assert(event_ok(s, evs[0]));
            assert(event_ok(s1, evs[1]));
            assert(event_ok(s2, evs[2]));
            assert(events_ok(s3, Seq::<TableEvent>::empty()));
            assert(events_ok(s2, evs.drop_first().drop_first()));
            assert(events_ok(s1, evs.drop_first()));
            assert(events_ok(s, evs));
            assert(apply_events(s3, Seq::<TableEvent>::empty()) == s3);
            assert(apply_events(s2, evs.drop_first().drop_first()) == s3);
            assert(apply_events(s1, evs.drop_first()) == s3);
            assert(apply_events(s, evs) == s3);
        },
        Choice::Idle => {
            let idled = s.operators.update(op, OpView { idle: true, ..s.operators[op] });
            let na = next_active(idled, op);
            lemma_next_active_in_range(idled, op, 1);
            lemma_next_active_result(idled, op, 1);
            let s1 = apply_event(s, evs[0]);
            assert(s1.operators =~= idled);
            assert(event_ok(s, evs[0]));
            if na != op {
                // the turn passes to the found non-idle operator
                assert(!idled[na].idle);
                let s2 = apply_event(s1, evs[1]);
                let s3 = apply_event(s2, evs[2]);
                assert(evs.drop_first() =~= seq![evs[1], evs[2]]);
                assert(evs.drop_first().drop_first() =~= seq![evs[2]]);
                assert(evs.drop_first().drop_first().drop_first() =~= Seq::<TableEvent>::empty());
                assert(event_ok(s1, evs[1]));
                assert(event_ok(s2, evs[2]));
                assert(events_ok(s3, Seq::<TableEvent>::empty()));
                assert(events_ok(s2, evs.drop_first().drop_first()));
                assert(events_ok(s1, evs.drop_first()));
                assert(events_ok(s, evs));
                assert(apply_events(s3, Seq::<TableEvent>::empty()) == s3);
                assert(apply_events(s2, evs.drop_first().drop_first()) == s3);
                assert(apply_events(s1, evs.drop_first()) == s3);
                assert(apply_events(s, evs) == s3);
            } else if s.round < 2 {
                // the round ends and the next one opens clockwise
                let cleared = cleared_ops(idled);
                let nb = next_active(cleared, op);
                lemma_next_active_in_range(cleared, op, 1);
                lemma_next_active_result(cleared, op, 1);
                assert(!cleared[nb].idle);
                let s2 = apply_event(s1, evs[1]);
                assert(s2.operators =~= cleared);
                let s3 = apply_event(s2, evs[2]);
                let s4 = apply_event(s3, evs[3]);
                assert(evs.drop_first() =~= seq![evs[1], evs[2], evs[3]]);
                assert(evs.drop_first().drop_first() =~= seq![evs[2], evs[3]]);
                assert(evs.drop_first().drop_first().drop_first() =~= seq![evs[3]]);
                assert(evs.drop_first().drop_first().drop_first().drop_first() =~= Seq::<
                    TableEvent,
                >::empty());
                assert(event_ok(s1, evs[1]));
                assert(event_ok(s2, evs[2]));
                assert(event_ok(s3, evs[3]));
                assert(events_ok(s4, Seq::<TableEvent>::empty()));
                assert(events_ok(s3, evs.drop_first().drop_first().drop_first()));
                assert(events_ok(s2, evs.drop_first().drop_first()));
                assert(events_ok(s1, evs.drop_first()));
                assert(events_ok(s, evs));
                assert(apply_events(s4, Seq::<TableEvent>::empty()) == s4);
                assert(apply_events(s3, evs.drop_first().drop_first().drop_first()) == s4);
                assert(apply_events(s2, evs.drop_first().drop_first()) == s4);
                assert(apply_events(s1, evs.drop_first()) == s4);
                assert(apply_events(s, evs) == s4);
                assert(!s4.operators[nb].idle);
            } else {
                // nobody can act and no round is left: the game is over
                let s2 = apply_event(s1, evs[1]);
                assert(evs.drop_first() =~= seq![evs[1]]);
                assert(evs.drop_first().drop_first() =~= Seq::<TableEvent>::empty());
                assert(event_ok(s1, evs[1]));
                assert(events_ok(s2, Seq::<TableEvent>::empty()));
                assert(events_ok(s1, evs.drop_first()));
                assert(events_ok(s, evs));
                assert(apply_events(s2, Seq::<TableEvent>::empty()) == s2);
                assert(apply_events(s1, evs.drop_first()) == s2);
                assert(apply_events(s, evs) == s2);
            }
        },
    }
}

/// Idling twice in the same round is impossible: once the active operator
/// idles, a second idle event for it is rejected.
pub proof fn lemma_idle_once(s: TableView)
    requires
        (s.active_operator as int) < s.operators.len(),
    ensures
        s.operators[s.active_operator as int].idle ==> !event_ok(s, TableEvent::Idle),
        !s.operators[s.active_operator as int].idle ==> event_ok(s, TableEvent::Idle)
            && !event_ok(apply_event(s, TableEvent::Idle), TableEvent::Idle),
{
}

/// A round advance is accepted exactly while a round is left: it moves the
/// counter up by one and clears every idle flag, so each operator may idle
/// again in the new round.
pub proof fn lemma_round_advance_resets_idles(s: TableView)
    ensures
        s.round >= 2 ==> !event_ok(s, TableEvent::RoundAdvance),
        s.round < 2 ==> event_ok(s, TableEvent::RoundAdvance) && apply_event(
            s,
            TableEvent::RoundAdvance,
        ).round == s.round + 1 && apply_event(s, TableEvent::RoundAdvance).operators.len()
            == s.operators.len() && forall|i: int|
            0 <= i < s.operators.len() ==> !(#[trigger] apply_event(
                s,
                TableEvent::RoundAdvance,
            ).operators[i]).idle,
{
}

} // verus!
