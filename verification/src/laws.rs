//! What holds of every dispatch.

use vstd::prelude::*;
use vstd::seq_lib::lemma_flatten_concat;
use crate::default_words::punctuation::literal_recognition;
use crate::dispatch::{
    answer, chosen, chosen_is_exact, chosen_is_none, dispatch, extent, leading_grows, position,
    remainder, sound, trial_order, trial_order_at, Recognizer, Registry,
};
use crate::parse_result::Recognition;
use crate::priority::Priority;
use crate::text::{byte_len, occurs, spaceless_subrange};
use crate::token::valid_text;

verus! {

/// Every word that the dispatch of `fragment` takes whole is the text that
/// it was taken from.
pub open spec fn faithful(kinds: Seq<Recognizer>, fragment: Seq<char>) -> bool
    decreases fragment.len(),
{
    match chosen(kinds, fragment) {
        None => true,
        Some(at) => match answer(kinds, at, fragment) {
            Recognition::Whole { word } => word == fragment,
            Recognition::Split { before, word, after } => {
                &&& 0 < before.len() < fragment.len() ==> faithful(kinds, before)
                &&& 0 < after.len() < fragment.len() ==> faithful(kinds, after)
            },
            Recognition::Missed => true,
        },
    }
}

/// A recognizer that takes a text whole takes it as it is.
pub open spec fn literal_minded(kinds: Seq<Recognizer>) -> bool {
    forall|at: int, fragment: Seq<char>|
        0 <= at < kinds.len() ==> (#[trigger] answer(kinds, at, fragment) matches Recognition::Whole {
            word,
        } ==> word == fragment)
}

/// Every valid text has at least one word.
pub proof fn dispatch_yields_words(kinds: Seq<Recognizer>, fragment: Seq<char>)
    requires
        sound(kinds),
        valid_text(fragment),
    ensures
        dispatch(kinds, fragment).len() > 0,
{
    chosen_is_exact(kinds, fragment);
    match chosen(kinds, fragment) {
        None => {},
        Some(at) => {
            assert(answer(kinds, at, fragment).sound_for(fragment));
        },
    }
}

/// The words of a valid text, one after the other, are the text again,
/// character for character, where the dispatch is faithful.
pub proof fn dispatch_rebuilds(kinds: Seq<Recognizer>, fragment: Seq<char>)
    requires
        sound(kinds),
        valid_text(fragment),
        faithful(kinds, fragment),
    ensures
        dispatch(kinds, fragment).flatten() == fragment,
    decreases fragment.len(),
{
    chosen_is_exact(kinds, fragment);
    match chosen(kinds, fragment) {
        None => {
            seq![fragment].lemma_flatten_one_element();
        },
        Some(at) => {
            let recognition = answer(kinds, at, fragment);
            assert(recognition.sound_for(fragment));
            match recognition {
                Recognition::Whole { word } => {
                    seq![word].lemma_flatten_one_element();
                },
                Recognition::Split { before, word, after } => {
                    let bound = extent(recognition);
                    assert(bound == fragment.len());
                    assert(before =~= fragment.subrange(0, before.len() as int));
                    assert(after =~= fragment.subrange(
                        (before.len() + word.len()) as int,
                        fragment.len() as int,
                    ));
                    let head = remainder(kinds, before, bound);
                    let tail = remainder(kinds, after, bound);
                    if before.len() > 0 {
                        spaceless_subrange(fragment, 0, before.len() as int);
                        dispatch_rebuilds(kinds, before);
                    } else {
                        assert(head.flatten() =~= before);
                    }
                    if after.len() > 0 {
                        spaceless_subrange(
                            fragment,
                            (before.len() + word.len()) as int,
                            fragment.len() as int,
                        );
                        dispatch_rebuilds(kinds, after);
                    } else {
                        assert(tail.flatten() =~= after);
                    }
                    seq![word].lemma_flatten_one_element();
                    lemma_flatten_concat(head, seq![word]);
                    lemma_flatten_concat(head + seq![word], tail);
                },
                Recognition::Missed => {},
            }
        },
    }
}

/// Where every recognizer takes whole only what it repeats, every dispatch
/// is faithful.
pub proof fn literal_minded_is_faithful(kinds: Seq<Recognizer>, fragment: Seq<char>)
    requires
        literal_minded(kinds),
    ensures
        faithful(kinds, fragment),
    decreases fragment.len(),
{
    chosen_is_exact(kinds, fragment);
    match chosen(kinds, fragment) {
        None => {},
        Some(at) => match answer(kinds, at, fragment) {
            Recognition::Split { before, word, after } => {
                if 0 < before.len() < fragment.len() {
                    literal_minded_is_faithful(kinds, before);
                }
                if 0 < after.len() < fragment.len() {
                    literal_minded_is_faithful(kinds, after);
                }
            },
            _ => {},
        },
    }
}

/// The recognizer that decides is the first in the trial order that does
/// not miss: of two recognizers of different ranks that both recognize
/// something in a fragment, the one of the lower rank never decides, for
/// the chosen recognizer stands before every recognizer of the lower rank.
pub proof fn higher_rank_decides(
    registry: Registry,
    fragment: Seq<char>,
    high: Priority,
    index: int,
    low: Priority,
)
    requires
        high.weight() > low.weight(),
        0 <= index < registry[high].len(),
        !(answer(registry[high], index, fragment) is Missed),
    ensures
        chosen(trial_order(registry), fragment) matches Some(at) && at <= position(
            registry,
            high,
            index,
        ) && at < position(registry, low, 0),
{
    let order = trial_order(registry);
    Priority::trial_order_is_total();
    trial_order_at(registry, high, index);
    leading_grows(registry, high.place() + 1, low.place());
    chosen_is_exact(order, fragment);
    let here = position(registry, high, index);
    assert(answer(order, here, fragment) == answer(registry[high], index, fragment));
}

/// A fragment that every recognizer misses is one word, the fragment
/// itself, and no recognizer is chosen for it: the word is the fallback's.
pub proof fn unrecognized_is_one_fallback(kinds: Seq<Recognizer>, fragment: Seq<char>)
    requires
        forall|at: int| 0 <= at < kinds.len() ==> answer(kinds, at, fragment) is Missed,
    ensures
        chosen(kinds, fragment) is None,
        dispatch(kinds, fragment) == seq![fragment],
{
    chosen_is_none(kinds, fragment);
}

/// A literal misses exactly the fragments that are not of its length in
/// bytes and do not hold it.
pub proof fn literal_misses(literal: Seq<char>, fragment: Seq<char>)
    ensures
        literal_recognition(literal, fragment) is Missed <==> byte_len(fragment) != byte_len(
            literal,
        ) && !occurs(literal, fragment),
{
}

} // verus!
