//! What an answer decides about a card, as far as whole numbers go, and
//! which card is shown next.

use rand::seq::SliceRandom;
use vstd::prelude::*;
use vstd::seq_lib::{to_multiset_contains, to_multiset_len};

verus! {

/// How well a card was answered, from 0, a complete blackout, to 5, a
/// perfect response.  From 3 on the answer was correct.
#[derive(Clone, Copy, Debug, PartialEq, Eq, Structural)]
pub enum Quality {
    Zero,
    One,
    Two,
    Three,
    Four,
    Five,
}

/// What an answer does to the count of repetitions of a card.
#[derive(Clone, Copy, Debug, PartialEq, Eq, Structural)]
pub struct Progress {
    /// The count after the answer.
    pub repetition: usize,
    /// Whether the card's easiness and interval are worked out anew.  If
    /// not, the card is due again at once and its easiness stays.
    pub rescheduled: bool,
}

impl Quality {
    /// The quality as a number from 0 to 5.
    pub open spec fn value(self) -> nat {
        match self {
            Quality::Zero => 0,
            Quality::One => 1,
            Quality::Two => 2,
            Quality::Three => 3,
            Quality::Four => 4,
            Quality::Five => 5,
        }
    }

    /// The quality as a number from 0 to 5.
    pub fn score(self) -> (n: usize)
        ensures
            n == self.value(),
    {
        match self {
            Quality::Zero => 0,
            Quality::One => 1,
            Quality::Two => 2,
            Quality::Three => 3,
            Quality::Four => 4,
            Quality::Five => 5,
        }
    }
}

/// What an answer of quality `q` does to a card that has been repeated
/// `repetition` times.  An answer below 3 failed: the repetitions start
/// again from zero and nothing else changes.  Any other answer counts as
/// one more repetition, after which the card is rescheduled.
pub fn grade(repetition: usize, q: Quality) -> (p: Progress)
    requires
        q.value() >= 3 ==> repetition < usize::MAX,
    ensures
        p == if q.value() < 3 {
            (Progress { repetition: 0, rescheduled: false })
        } else {
            (Progress { repetition: (repetition + 1) as usize, rescheduled: true })
        },
{
    if q.score() < 3 {
        Progress { repetition: 0, rescheduled: false }
    } else {
        Progress { repetition: repetition + 1, rescheduled: true }
    }
}

/// The places at which `due` holds `true`, in rising order.
pub open spec fn due_indices(due: Seq<bool>) -> Seq<usize>
    decreases due.len(),
{
    if due.len() == 0 {
        Seq::<usize>::empty()
    } else if due.last() {
        due_indices(due.drop_last()).push((due.len() - 1) as usize)
    } else {
        due_indices(due.drop_last())
    }
}

/// The numbers of the cards that are due, in rising order, given for each
/// card whether it is due.
pub fn due_cards(due: &Vec<bool>) -> (cards: Vec<usize>)
    ensures
        cards@ == due_indices(due@),
{
    let mut cards: Vec<usize> = Vec::new();
    let mut i: usize = 0;
    while i < due.len()
        invariant
            i <= due@.len(),
            cards@ == due_indices(due@.take(i as int)),
        decreases due@.len() - i,
    {
        assert(due@.take(i + 1).drop_last() =~= due@.take(i as int));
        if due[i] {
            cards.push(i);
        }
        i += 1;
    }
    assert(due@.take(i as int) =~= due@);
    cards
}

/// The card shown next when the cards come in the order `order`: the
/// first one, if there is any.
pub fn first_card(order: &Vec<usize>) -> (res: Option<usize>)
    ensures
        res == if order@.len() > 0 {
            Some(order@[0])
        } else {
            None
        },
{
    if order.len() > 0 {
        Some(order[0])
    } else {
        None
    }
}

/// Calls `SliceRandom::shuffle` of the crate `rand` on the numbers, with
/// the generator that `rand::thread_rng` gives.  The order that comes out
/// is left open; taken on trust is that the numbers are the same as
/// before, each as often as before, since the call only swaps them.
#[verifier::external_body]
fn shuffle(cards: &mut Vec<usize>)
    ensures
        final(cards)@.to_multiset() == old(cards)@.to_multiset(),
{
    cards.shuffle(&mut rand::thread_rng());
}

/// Every place in the list of due cards is the number of a card that is
/// due, and every card that is due has its number in the list.
pub proof fn lemma_due_indices(due: Seq<bool>)
    requires
        due.len() <= usize::MAX,
    ensures
        forall|j: int|
            0 <= j < due_indices(due).len() ==> (#[trigger] due_indices(due)[j]) < due.len()
                && due[due_indices(due)[j] as int],
        forall|i: int| 0 <= i < due.len() && due[i] ==> due_indices(due).contains(i as usize),
    decreases due.len(),
{
    if due.len() > 0 {
        lemma_due_indices(due.drop_last());
        let shorter = due_indices(due.drop_last());
        let longer = due_indices(due);
        assert forall|i: int| 0 <= i < due.len() && due[i] implies longer.contains(
            i as usize,
        ) by {
            if i < due.len() - 1 {
                assert(due.drop_last()[i]);
                let j = choose|j: int| 0 <= j < shorter.len() && shorter[j] == i as usize;
                assert(longer[j] == i as usize);
            } else {
                assert(longer[shorter.len() as int] == i as usize);
            }
        }
    }
}

/// Picks at random one of the cards that are due, given for each card
/// whether it is due.  Which one is picked is left to chance; some card is
/// picked exactly if some card is due, and the card picked is due.
pub fn pick_card(due: &Vec<bool>) -> (res: Option<usize>)
    ensures
        res is Some <==> exists|i: int| 0 <= i < due@.len() && due@[i],
        res matches Some(i) ==> i < due@.len() && due@[i as int],
{
    let mut cards = due_cards(due);
    let ghost sorted = cards@;
    assert(due@.len() == due.len());
    shuffle(&mut cards);
    let res = first_card(&cards);
    proof {
        lemma_due_indices(due@);
        to_multiset_len(sorted);
        to_multiset_len(cards@);
        if cards@.len() > 0 {
            let first = cards@[0];
            to_multiset_contains(cards@, first);
            to_multiset_contains(sorted, first);
        }
    }
    res
}

} // verus!
