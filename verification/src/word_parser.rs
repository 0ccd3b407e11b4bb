//! The engine: a registry of kinds of word, and the dispatch of a token over it.

use vstd::prelude::*;
use std::marker::PhantomData;
use fxhash::{FxHashMap, FxHasher};
use crate::dispatch::{
    answer, chosen_is_first, chosen_is_none, dispatch, empty_registry, extent, leading,
    leading_grows, position, remainder, resolution, sound, sound_by_rank, trial_order,
    trial_order_at, Recognizer, Registry,
};
use crate::laws::{dispatch_rebuilds, dispatch_yields_words, faithful};
use crate::parse_result::{leftover, ParseResult, Recognition};
use crate::priority::Priority;
use crate::token::{valid_text, Token};
use crate::word::{AnyWord, Normal, Word, Words};

verus! {

/// `fxhash::FxHasher`, the hasher of the registry's map. Nothing is said of
/// what is inside it.
#[verifier::external_type_specification]
#[verifier::external_body]
pub struct ExFxHasher(FxHasher);

/// `std::hash::BuildHasherDefault`, which makes the hashers of the
/// registry's map. Nothing is said of what is inside it.
#[verifier::external_type_specification]
#[verifier::external_body]
#[verifier::reject_recursive_types(H)]
pub struct ExBuildHasherDefault<H>(std::hash::BuildHasherDefault<H>);

/// A recognizer whose kind is forgotten.
trait Constructor {
    spec fn outcome(&self, fragment: Seq<char>) -> Recognition;

    fn construct(&self, token: Token) -> (result: ParseResult<AnyWord>)
        ensures
            result.recognition(|word: AnyWord| word@) == self.outcome(token@),
            result matches ParseResult::NoMatch(back) ==> back@ == token@,
    ;
}

/// The recognizer of the kind `W`.
struct Kind<W> {
    marker: PhantomData<W>,
}

impl<W: Word + 'static> Constructor for Kind<W> {
    closed spec fn outcome(&self, fragment: Seq<char>) -> Recognition {
        W::recognize(fragment)
    }

    fn construct(&self, token: Token) -> (result: ParseResult<AnyWord>) {
        match W::try_from_token(token) {
            ParseResult::Matched(word) => ParseResult::Matched(AnyWord::new(word)),
            ParseResult::Partial(pre, word, post) => ParseResult::Partial(
                pre,
                AnyWord::new(word),
                post,
            ),
            ParseResult::NoMatch(back) => ParseResult::NoMatch(back),
        }
    }
}

/// One registered recognizer.
struct Slot {
    inner: Box<dyn Constructor>,
}

impl Slot {
    spec fn model(self) -> Recognizer {
        |fragment: Seq<char>| self.inner.outcome(fragment)
    }

    /// This recognizer splits valid texts without loss.
    spec fn is_sound(self) -> bool {
        forall|fragment: Seq<char>|
            valid_text(fragment) ==> (#[trigger] self.inner.outcome(fragment)).sound_for(
                fragment,
            )
    }

    /// The slot of the kind `W`.
    fn of<W: Word + 'static>() -> (slot: Slot)
        ensures
            slot.model() == (|fragment: Seq<char>| W::recognize(fragment)),
            slot.is_sound(),
    {
        let kind: Kind<W> = Kind { marker: PhantomData };
        let slot = Slot { inner: Box::new(kind) };
        assert(slot.model() =~= (|fragment: Seq<char>| W::recognize(fragment)));
        assert forall|fragment: Seq<char>| valid_text(fragment) implies (
        #[trigger] slot.inner.outcome(fragment)).sound_for(fragment) by {
            W::recognize_is_sound(fragment);
        }
        slot
    }
}

/// The recognizers of a bucket, as functions.
spec fn models(slots: Seq<Slot>) -> Seq<Recognizer> {
    slots.map_values(|slot: Slot| slot.model())
}

/// Looks up the bucket of a weight with `HashMap::get`, on a map that hashes
/// with `fxhash::FxHasher`: the bucket stored under the weight, if there is one.
#[verifier::external_body]
fn bucket_of(buckets: &FxHashMap<u8, Vec<Slot>>, weight: u8) -> (bucket: Option<&Vec<Slot>>)
    ensures
        bucket == (if buckets@.contains_key(weight) {
            Some(&buckets@[weight])
        } else {
            None
        }),
{
    buckets.get(&weight)
}

/// Takes the bucket of a weight out with `HashMap::remove`, on a map that
/// hashes with `fxhash::FxHasher`: the bucket that was stored under the
/// weight comes back, and the map no longer holds the weight.
#[verifier::external_body]
fn take_bucket(buckets: &mut FxHashMap<u8, Vec<Slot>>, weight: u8) -> (bucket: Option<Vec<Slot>>)
    ensures
        final(buckets)@ == old(buckets)@.remove(weight),
        bucket == (if old(buckets)@.contains_key(weight) {
            Some(old(buckets)@[weight])
        } else {
            None
        }),
{
    buckets.remove(&weight)
}

/// Stores a bucket under a weight with `HashMap::insert`, on a map that
/// hashes with `fxhash::FxHasher`: the map then holds the bucket under the
/// weight, and under every other weight what it held before.
#[verifier::external_body]
fn put_bucket(buckets: &mut FxHashMap<u8, Vec<Slot>>, weight: u8, bucket: Vec<Slot>)
    ensures
        final(buckets)@ == old(buckets)@.insert(weight, bucket),
{
    buckets.insert(weight, bucket);
}

/// The registry of kinds of word and the dispatch over it.
pub struct WordParser {
    parsers: FxHashMap<u8, Vec<Slot>>,
}

impl View for WordParser {
    type V = Registry;

    closed spec fn view(&self) -> Registry {
        Map::new(
            |rank: Priority| true,
            |rank: Priority|
                if self.parsers@.contains_key(rank.weight()) {
                    models(self.parsers@[rank.weight()]@)
                } else {
                    Seq::empty()
                },
        )
    }
}

impl WordParser {
    /// Every registered recognizer splits valid texts without loss.
    #[verifier::type_invariant]
    spec fn slots_are_sound(self) -> bool {
        forall|weight: u8, index: int|
            self.parsers@.contains_key(weight) && 0 <= index < self.parsers@[weight]@.len()
                ==> (#[trigger] self.parsers@[weight]@[index]).is_sound()
    }

    /// The trial order of a parser is sound.
    proof fn registry_is_sound(self)
        requires
            self.slots_are_sound(),
        ensures
            sound(trial_order(self@)),
    {
        assert forall|rank: Priority| sound(#[trigger] self@[rank]) by {
            let kinds = self@[rank];
            assert forall|at: int, fragment: Seq<char>|
                0 <= at < kinds.len() && valid_text(fragment) implies (#[trigger] answer(
                kinds,
                at,
                fragment,
            )).sound_for(fragment) by {
                let slot = self.parsers@[rank.weight()]@[at];
                assert(slot.is_sound());
                assert(answer(kinds, at, fragment) == slot.inner.outcome(fragment));
            }
        }
        sound_by_rank(self@, 5);
    }

    /// A parser that knows no kind of word.
    pub fn new() -> (parser: WordParser)
        ensures
            parser@ == empty_registry(),
            sound(trial_order(parser@)),
    {
        let parser = WordParser { parsers: FxHashMap::default() };
        assert(parser@ =~= empty_registry());
        proof {
            parser.registry_is_sound();
        }
        parser
    }

    /// Registers the kind `W`: it is tried after all kinds of its rank that
    /// were registered before it.
    pub fn register<W: Word + 'static>(&mut self)
        ensures
            final(self)@ == old(self)@.insert(
                W::rank(),
                old(self)@[W::rank()].push(|fragment: Seq<char>| W::recognize(fragment)),
            ),
            sound(trial_order(final(self)@)),
    {
        proof {
            use_type_invariant(&*self);
        }
        let priority = W::priority();
        let slot = Slot::of::<W>();
        // The map is worked on outside the parser and put back whole.
        let mut parsers: FxHashMap<u8, Vec<Slot>> = FxHashMap::default();
        std::mem::swap(&mut self.parsers, &mut parsers);
        let mut bucket = match take_bucket(&mut parsers, priority.number()) {
            Some(bucket) => bucket,
            None => Vec::new(),
        };
        let ghost before = bucket@;
        assert(models(before) =~= old(self)@[W::rank()]);
        let ghost added = slot;
        bucket.push(slot);
        proof {
            assert forall|i: int| 0 <= i < bucket@.len() implies models(bucket@)[i] == models(
                before,
            ).push(added.model())[i] by {
                if i < before.len() {
                    assert(bucket@[i] == before[i]);
                } else {
                    assert(bucket@[i] == added);
                }
            }
            assert(models(bucket@) =~= models(before).push(added.model()));
        }
        put_bucket(&mut parsers, priority.number(), bucket);
        std::mem::swap(&mut self.parsers, &mut parsers);
        proof {
            let wanted = old(self)@.insert(
                W::rank(),
                old(self)@[W::rank()].push(|fragment: Seq<char>| W::recognize(fragment)),
            );
            assert(added.model() == (|fragment: Seq<char>| W::recognize(fragment)));
            Priority::trial_order_is_total();
            assert forall|rank: Priority| #[trigger] self@[rank] == wanted[rank] by {
                if rank != W::rank() {
                    assert(rank.weight() != W::rank().weight());
                }
            }
            assert(self@ =~= wanted);
            self.registry_is_sound();
        }
    }

    /// The words of `token`: the registered kinds are tried from the highest
    /// rank to the lowest, and within a rank in the order of registration.
    /// The first kind that does not miss decides; what it leaves over before
    /// and after its word is parsed in the same way. A token that every kind
    /// misses is one fallback word.
    pub fn parse(&self, token: Token) -> (words: Words)
        ensures
            words@ == dispatch(trial_order(self@), token@),
            words@.len() > 0,
            faithful(trial_order(self@), token@) ==> words@.flatten() == token@,
        decreases token@.len(), 1nat,
    {
        proof {
            use_type_invariant(self);
            use_type_invariant(&token);
            self.registry_is_sound();
            Priority::trial_order_is_total();
            dispatch_yields_words(trial_order(self@), token@);
            if faithful(trial_order(self@), token@) {
                dispatch_rebuilds(trial_order(self@), token@);
            }
        }
        let ghost order = trial_order(self@);
        let ranks = Priority::list();
        let mut r: usize = 0;
        while r < 5
            invariant
                r <= 5,
                ranks@ == Priority::trial_order(),
                order == trial_order(self@),
                sound(order),
                valid_text(token@),
                self.slots_are_sound(),
                dispatch(order, token@).len() > 0,
                faithful(order, token@) ==> dispatch(order, token@).flatten() == token@,
                leading(self@, r as int).len() <= order.len(),
                forall|at: int|
                    0 <= at < leading(self@, r as int).len() ==> answer(order, at, token@)
                        is Missed,
            decreases 5 - r,
        {
            let rank = ranks[r];
            proof {
                Priority::trial_order_is_total();
                assert(rank.place() == r);
                assert(leading(self@, r + 1) == leading(self@, r as int) + self@[rank]);
                leading_grows(self@, r + 1, 5);
            }
            match bucket_of(&self.parsers, rank.number()) {
                Some(slots) => {
                    assert(self@[rank] == models(slots@));
                    let mut i: usize = 0;
                    while i < slots.len()
                        invariant
                            i <= slots.len(),
                            r < 5,
                            rank.place() == r,
                            order == trial_order(self@),
                            sound(order),
                            valid_text(token@),
                            dispatch(order, token@).len() > 0,
                            faithful(order, token@) ==> dispatch(order, token@).flatten()
                                == token@,
                            self@[rank] == models(slots@),
                            leading(self@, r + 1) == leading(self@, r as int) + self@[rank],
                            leading(self@, r + 1).len() <= order.len(),
                            forall|at: int|
                                0 <= at < leading(self@, r as int).len() + i ==> answer(
                                    order,
                                    at,
                                    token@,
                                ) is Missed,
                        decreases slots.len() - i,
                    {
                        let ghost at = position(self@, rank, i as int);
                        proof {
                            trial_order_at(self@, rank, i as int);
                            assert(answer(order, at, token@) == slots@[i as int].inner.outcome(
                                token@,
                            ));
                        }
                        match slots[i].inner.construct(token.clone()) {
                            ParseResult::NoMatch(_) => {},
                            found => {
                                proof {
                                    chosen_is_first(order, token@, at);
                                    assert(answer(order, at, token@).sound_for(token@));
                                    assert(extent(answer(order, at, token@)) <= token@.len());
                                }
                                return self.resolve(found);
                            },
                        }
                        i += 1;
                    }
                },
                None => {
                    assert(self@[rank] =~= Seq::empty());
                },
            }
            r += 1;
        }
        proof {
            chosen_is_none(order, token@);
        }
        let mut words = Words::new();
        words.push(AnyWord::new(Normal::new(token.as_str())));
        assert(words@ =~= seq![token@]);
        words
    }

    /// The words that the answer of a recognizer stands for: the word of a
    /// match; for a partial match the words of the token before, the word,
    /// and the words of the token after; none where nothing was recognized.
    pub fn resolve(&self, found: ParseResult<AnyWord>) -> (words: Words)
        requires
            found matches ParseResult::Partial(_, word, _) ==> word@.len() > 0,
        ensures
            words@ == resolution(trial_order(self@), found.recognition(|word: AnyWord| word@)),
        decreases extent(found.recognition(|word: AnyWord| word@)), 0nat,
    {
        let ghost order = trial_order(self@);
        let ghost bound = extent(found.recognition(|word: AnyWord| word@));
        match found {
            ParseResult::Matched(word) => {
                let mut words = Words::new();
                words.push(word);
                assert(words@ =~= seq![word@]);
                words
            },
            ParseResult::Partial(pre, word, post) => {
                let mut words = match pre {
                    Some(pre) => {
                        proof {
                            use_type_invariant(&pre);
                        }
                        self.parse(pre)
                    },
                    None => Words::new(),
                };
                assert(words@ == remainder(order, leftover(pre), bound));
                let ghost text = word@;
                words.push(word);
                match post {
                    Some(post) => {
                        proof {
                            use_type_invariant(&post);
                        }
                        let rest = self.parse(post);
                        words.extend(rest);
                    },
                    None => {},
                }
                assert(words@ =~= remainder(order, leftover(pre), bound) + seq![text]
                    + remainder(order, leftover(post), bound));
                words
            },
            ParseResult::NoMatch(_) => Words::new(),
        }
    }
}

} // verus!
