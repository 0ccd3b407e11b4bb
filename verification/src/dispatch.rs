//! How one fragment becomes words: the kinds are tried in order, the first
//! that does not miss decides, and what it leaves over is dispatched again.

use vstd::prelude::*;
use crate::parse_result::Recognition;
use crate::priority::Priority;
use crate::token::valid_text;

verus! {

/// A recognizer as a function of the text it is given.
pub type Recognizer = spec_fn(Seq<char>) -> Recognition;

/// The registered recognizers of each rank, in the order of their registration.
pub type Registry = Map<Priority, Seq<Recognizer>>;

/// The registry that holds no recognizer.
pub open spec fn empty_registry() -> Registry {
    Map::new(|p: Priority| true, |p: Priority| Seq::<Recognizer>::empty())
}

/// The recognizers of the first `ranks` ranks of the trial order, rank by rank.
pub open spec fn leading(registry: Registry, ranks: int) -> Seq<Recognizer>
    decreases ranks,
{
    if ranks <= 0 {
        Seq::empty()
    } else {
        leading(registry, ranks - 1) + registry[Priority::trial_order()[ranks - 1]]
    }
}

/// All recognizers in the order in which they are tried: from the highest
/// rank to the lowest, and within a rank in the order of registration.
pub open spec fn trial_order(registry: Registry) -> Seq<Recognizer> {
    leading(registry, 5)
}

/// The place in the trial order of the `index`-th recognizer of `rank`.
pub open spec fn position(registry: Registry, rank: Priority, index: int) -> int {
    leading(registry, rank.place()).len() + index
}

/// What the recognizer at place `at` makes of `fragment`.
pub open spec fn answer(kinds: Seq<Recognizer>, at: int, fragment: Seq<char>) -> Recognition {
    (kinds[at])(fragment)
}

/// Every recognizer splits valid texts without loss.
pub open spec fn sound(kinds: Seq<Recognizer>) -> bool {
    forall|at: int, fragment: Seq<char>|
        0 <= at < kinds.len() && valid_text(fragment) ==> (#[trigger] answer(
            kinds,
            at,
            fragment,
        )).sound_for(fragment)
}

/// The first place from `from` on whose recognizer does not miss `fragment`.
pub open spec fn first_from(kinds: Seq<Recognizer>, fragment: Seq<char>, from: int) -> Option<int>
    decreases kinds.len() - from,
{
    if from < 0 || from >= kinds.len() {
        None
    } else if !(answer(kinds, from, fragment) is Missed) {
        Some(from)
    } else {
        first_from(kinds, fragment, from + 1)
    }
}

/// The place of the recognizer that decides on `fragment`, if any does.
pub open spec fn chosen(kinds: Seq<Recognizer>, fragment: Seq<char>) -> Option<int> {
    first_from(kinds, fragment, 0)
}

/// The number of characters that a split accounts for.
pub open spec fn extent(recognition: Recognition) -> nat {
    match recognition {
        Recognition::Split { before, word, after } => before.len() + word.len() + after.len(),
        _ => 0,
    }
}

/// The texts of the words of `fragment`, in the order of the text: the one
/// fallback word where no recognizer is chosen, and else what the answer of
/// the chosen recognizer stands for. An answer that accounts for more
/// characters than the fragment has stands for nothing; no sound recognizer
/// gives one.
pub open spec fn dispatch(kinds: Seq<Recognizer>, fragment: Seq<char>) -> Seq<Seq<char>>
    decreases fragment.len(), 2nat,
{
    match chosen(kinds, fragment) {
        None => seq![fragment],
        Some(at) => {
            let recognition = answer(kinds, at, fragment);
            if extent(recognition) <= fragment.len() {
                resolution(kinds, recognition)
            } else {
                Seq::empty()
            }
        },
    }
}

/// The texts of the words that an answer stands for: the word itself, and
/// around it the words of what a split left over. A split around an empty
/// word stands for nothing; no sound recognizer gives one.
pub open spec fn resolution(kinds: Seq<Recognizer>, recognition: Recognition) -> Seq<Seq<char>>
    decreases extent(recognition), 1nat,
{
    match recognition {
        Recognition::Whole { word } => seq![word],
        Recognition::Split { before, word, after } => {
            if word.len() > 0 {
                remainder(kinds, before, extent(recognition)) + seq![word] + remainder(
                    kinds,
                    after,
                    extent(recognition),
                )
            } else {
                Seq::empty()
            }
        },
        Recognition::Missed => Seq::empty(),
    }
}

/// The texts of the words of a leftover of fewer than `bound` characters:
/// none where nothing is left.
pub open spec fn remainder(kinds: Seq<Recognizer>, side: Seq<char>, bound: nat) -> Seq<Seq<char>>
    decreases bound, 0nat,
{
    if 0 < side.len() < bound {
        dispatch(kinds, side)
    } else {
        Seq::empty()
    }
}

/// Recognizers that are sound one by one are sound in a row.
pub proof fn sound_in_a_row(front: Seq<Recognizer>, back: Seq<Recognizer>)
    requires
        sound(front),
        sound(back),
    ensures
        sound(front + back),
{
    assert forall|at: int, fragment: Seq<char>|
        0 <= at < (front + back).len() && valid_text(fragment) implies (#[trigger] answer(
        front + back,
        at,
        fragment,
    )).sound_for(fragment) by {
        if at < front.len() {
            assert(answer(front + back, at, fragment) == answer(front, at, fragment));
        } else {
            assert(answer(front + back, at, fragment) == answer(
                back,
                at - front.len(),
                fragment,
            ));
        }
    }
}

/// A registry whose every rank is sound has a sound trial order.
pub proof fn sound_by_rank(registry: Registry, ranks: int)
    requires
        forall|rank: Priority| sound(#[trigger] registry[rank]),
        0 <= ranks <= 5,
    ensures
        sound(leading(registry, ranks)),
    decreases ranks,
{
    if ranks > 0 {
        sound_by_rank(registry, ranks - 1);
        sound_in_a_row(
            leading(registry, ranks - 1),
            registry[Priority::trial_order()[ranks - 1]],
        );
    }
}

/// The ranks before a rank come before it in the trial order, and those
/// after it come after it.
pub proof fn leading_grows(registry: Registry, fewer: int, more: int)
    requires
        0 <= fewer <= more <= 5,
    ensures
        leading(registry, fewer).len() <= leading(registry, more).len(),
        leading(registry, more).subrange(0, leading(registry, fewer).len() as int) == leading(
            registry,
            fewer,
        ),
    decreases more - fewer,
{
    if fewer < more {
        leading_grows(registry, fewer, more - 1);
        assert(leading(registry, more).subrange(0, leading(registry, fewer).len() as int)
            =~= leading(registry, fewer));
    } else {
        assert(leading(registry, more).subrange(0, leading(registry, fewer).len() as int)
            =~= leading(registry, fewer));
    }
}

/// The `index`-th recognizer of a rank stands in the trial order at its position.
pub proof fn trial_order_at(registry: Registry, rank: Priority, index: int)
    requires
        0 <= index < registry[rank].len(),
    ensures
        0 <= position(registry, rank, index) < leading(registry, rank.place() + 1).len(),
        leading(registry, rank.place() + 1).len() <= trial_order(registry).len(),
        trial_order(registry)[position(registry, rank, index)] == registry[rank][index],
{
    Priority::trial_order_is_total();
    let place = rank.place();
    assert(Priority::trial_order()[place] == rank);
    assert(leading(registry, place + 1) == leading(registry, place) + registry[rank]);
    leading_grows(registry, place + 1, 5);
    let at = position(registry, rank, index);
    assert(leading(registry, 5).subrange(0, leading(registry, place + 1).len() as int)[at]
        == leading(registry, 5)[at]);
}

/// The recognizer at a place that no earlier recognizer leaves to it, and
/// that does not miss, is the chosen one.
pub proof fn chosen_is_first(kinds: Seq<Recognizer>, fragment: Seq<char>, at: int)
    requires
        0 <= at < kinds.len(),
        !(answer(kinds, at, fragment) is Missed),
        forall|earlier: int| 0 <= earlier < at ==> answer(kinds, earlier, fragment) is Missed,
    ensures
        chosen(kinds, fragment) == Some(at),
{
    first_from_skips(kinds, fragment, 0, at);
}

proof fn first_from_skips(kinds: Seq<Recognizer>, fragment: Seq<char>, from: int, to: int)
    requires
        0 <= from <= to <= kinds.len(),
        forall|earlier: int| from <= earlier < to ==> answer(kinds, earlier, fragment) is Missed,
    ensures
        first_from(kinds, fragment, from) == first_from(kinds, fragment, to),
    decreases to - from,
{
    if from < to {
        first_from_skips(kinds, fragment, from + 1, to);
    }
}

/// Where every recognizer misses, none is chosen.
pub proof fn chosen_is_none(kinds: Seq<Recognizer>, fragment: Seq<char>)
    requires
        forall|at: int| 0 <= at < kinds.len() ==> answer(kinds, at, fragment) is Missed,
    ensures
        chosen(kinds, fragment) is None,
{
    first_from_skips(kinds, fragment, 0, kinds.len() as int);
}

/// What `chosen` says: the recognizer at the chosen place does not miss, and
/// every recognizer before it does; where none is chosen, all miss.
pub proof fn chosen_is_exact(kinds: Seq<Recognizer>, fragment: Seq<char>)
    ensures
        match chosen(kinds, fragment) {
            Some(at) => {
                &&& 0 <= at < kinds.len()
                &&& !(answer(kinds, at, fragment) is Missed)
                &&& forall|earlier: int|
                    0 <= earlier < at ==> answer(kinds, earlier, fragment) is Missed
            },
            None => forall|at: int| 0 <= at < kinds.len() ==> answer(kinds, at, fragment) is Missed,
        },
{
    first_from_is_exact(kinds, fragment, 0);
}

proof fn first_from_is_exact(kinds: Seq<Recognizer>, fragment: Seq<char>, from: int)
    requires
        0 <= from,
    ensures
        match first_from(kinds, fragment, from) {
            Some(at) => {
                &&& from <= at < kinds.len()
                &&& !(answer(kinds, at, fragment) is Missed)
                &&& forall|earlier: int|
                    from <= earlier < at ==> answer(kinds, earlier, fragment) is Missed
            },
            None => forall|at: int|
                from <= at < kinds.len() ==> answer(kinds, at, fragment) is Missed,
        },
    decreases kinds.len() - from,
{
    if from < kinds.len() && answer(kinds, from, fragment) is Missed {
        first_from_is_exact(kinds, fragment, from + 1);
    }
}

} // verus!
