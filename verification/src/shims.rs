//! Trusted declarations for the two outside crates the engine leans on:
//! `arrayvec` supplies the bounded vectors that hold rosters, decks and
//! skill lists, and `rand` supplies the shuffle. Each wrapper's contract
//! states only what the crate's source shows.

use vstd::prelude::*;

use crate::defs::OperatorType;
use crate::game::HackerCard;
use rand::seq::SliceRandom;
use rand::SeedableRng;

verus! {

#[verifier::external_type_specification]
#[verifier::external_body]
#[verifier::reject_recursive_types(T)]
pub struct ExArrayVec<T, const CAP: usize>(arrayvec::ArrayVec<T, CAP>);

/// The cards a deck holds, bottom first (the top of the deck is the last
/// element).
pub uninterp spec fn cards_of(deck: arrayvec::ArrayVec<HackerCard, 66>) -> Seq<HackerCard>;

/// The operator types a roster or skill list holds, in order.
pub uninterp spec fn ops_of(list: arrayvec::ArrayVec<OperatorType, 7>) -> Seq<OperatorType>;

/// The hacker ids a backtrace list holds, top first.
pub uninterp spec fn traces_of(list: arrayvec::ArrayVec<u8, 13>) -> Seq<u8>;

/// Relies on arrayvec::ArrayVec::new: makes an empty vector.
#[verifier::external_body]
pub(crate) fn deck_new() -> (r: arrayvec::ArrayVec<HackerCard, 66>)
    ensures
        cards_of(r) == Seq::<HackerCard>::empty(),
{
    arrayvec::ArrayVec::new()
}

/// Relies on arrayvec::ArrayVec::push: appends at the end; panics only when
/// the vector is full.
#[verifier::external_body]
pub(crate) fn deck_push(deck: &mut arrayvec::ArrayVec<HackerCard, 66>, card: HackerCard)
    requires
        cards_of(*old(deck)).len() < 66,
    ensures
        cards_of(*final(deck)) == cards_of(*old(deck)).push(card),
{
    deck.push(card)
}

/// Relies on arrayvec::ArrayVec::pop: removes and returns the last element,
/// or returns None when the vector is empty.
#[verifier::external_body]
pub(crate) fn deck_pop(deck: &mut arrayvec::ArrayVec<HackerCard, 66>) -> (r: Option<HackerCard>)
    ensures
        cards_of(*old(deck)).len() == 0 ==> r is None && cards_of(*final(deck)) == cards_of(
            *old(deck),
        ),
        cards_of(*old(deck)).len() > 0 ==> r == Some(cards_of(*old(deck)).last()) && cards_of(
            *final(deck),
        ) == cards_of(*old(deck)).drop_last(),
{
    deck.pop()
}

/// Relies on arrayvec::ArrayVec::len: the number of elements, at most the
/// capacity.
#[verifier::external_body]
pub(crate) fn deck_len(deck: &arrayvec::ArrayVec<HackerCard, 66>) -> (r: usize)
    ensures
        r == cards_of(*deck).len(),
        r <= 66,
{
    deck.len()
}

/// Relies on arrayvec::ArrayVec::new: makes an empty vector.
#[verifier::external_body]
pub(crate) fn ops_new() -> (r: arrayvec::ArrayVec<OperatorType, 7>)
    ensures
        ops_of(r) == Seq::<OperatorType>::empty(),
{
    arrayvec::ArrayVec::new()
}

/// Relies on arrayvec::ArrayVec::push: appends at the end; panics only when
/// the vector is full.
#[verifier::external_body]
pub(crate) fn ops_push(list: &mut arrayvec::ArrayVec<OperatorType, 7>, op: OperatorType)
    requires
        ops_of(*old(list)).len() < 7,
    ensures
        ops_of(*final(list)) == ops_of(*old(list)).push(op),
{
    list.push(op)
}

/// Relies on arrayvec::ArrayVec::len: the number of elements, at most the
/// capacity.
#[verifier::external_body]
pub(crate) fn ops_len(list: &arrayvec::ArrayVec<OperatorType, 7>) -> (r: usize)
    ensures
        r == ops_of(*list).len(),
        r <= 7,
{
    list.len()
}

/// Relies on arrayvec::ArrayVec's Deref to a slice and on slice indexing;
/// panics only when the index is out of bounds.
#[verifier::external_body]
pub(crate) fn ops_get(list: &arrayvec::ArrayVec<OperatorType, 7>, i: usize) -> (r: OperatorType)
    requires
        i < ops_of(*list).len(),
    ensures
        r == ops_of(*list)[i as int],
{
    list[i]
}

/// Relies on arrayvec::ArrayVec::new: makes an empty vector.
#[verifier::external_body]
pub(crate) fn trace_new() -> (r: arrayvec::ArrayVec<u8, 13>)
    ensures
        traces_of(r) == Seq::<u8>::empty(),
{
    arrayvec::ArrayVec::new()
}

/// The permutation that shuffling with a generator seeded from `seed`
/// leaves behind: a function of the cards and the seed alone, so a fixed
/// seed reproduces an identical order.
pub uninterp spec fn shuffled(cards: Seq<HackerCard>, seed: u64) -> Seq<HackerCard>;

/// Relies on rand::seq::SliceRandom::shuffle with a rand::rngs::StdRng built
/// by SeedableRng::seed_from_u64: the generator is a deterministic function
/// of the seed, and the shuffle permutes the slice in place by in-bounds
/// swaps, so the length and the multiset of elements are unchanged and the
/// result depends on the cards and the seed alone.
#[verifier::external_body]
pub(crate) fn shuffle_cards(cards: &mut Vec<HackerCard>, seed: u64)
    ensures
        final(cards)@ == shuffled(old(cards)@, seed),
        final(cards)@.to_multiset() == old(cards)@.to_multiset(),
        final(cards)@.len() == old(cards)@.len(),
{
    let mut rng = rand::rngs::StdRng::seed_from_u64(seed);
    cards.shuffle(&mut rng)
}

} // verus!
