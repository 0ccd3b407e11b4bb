//! Text as a sequence of characters: where one text occurs in another.

use vstd::prelude::*;

verus! {

/// `needle` stands in `hay` at character `at`.
pub open spec fn occurs_at(needle: Seq<char>, hay: Seq<char>, at: int) -> bool {
    &&& 0 <= at
    &&& at + needle.len() <= hay.len()
    &&& hay.subrange(at, at + needle.len()) == needle
}

/// `needle` stands somewhere in `hay`.
pub open spec fn occurs(needle: Seq<char>, hay: Seq<char>) -> bool {
    exists|at: int| occurs_at(needle, hay, at)
}

/// `at` is the first place at which `needle` stands in `hay`.
pub open spec fn first_at(needle: Seq<char>, hay: Seq<char>, at: int) -> bool {
    &&& occurs_at(needle, hay, at)
    &&& forall|earlier: int| 0 <= earlier < at ==> !occurs_at(needle, hay, earlier)
}

/// The first place at which `needle` stands in `hay`, where it stands in it at all.
pub open spec fn first_occurrence(needle: Seq<char>, hay: Seq<char>) -> int {
    choose|at: int| first_at(needle, hay, at)
}

/// No character of `s` is a space.
pub open spec fn spaceless(s: Seq<char>) -> bool {
    forall|i: int| 0 <= i < s.len() ==> s[i] != ' '
}

/// The number of bytes that `s` takes in UTF-8.
pub open spec fn byte_len(s: Seq<char>) -> nat {
    vstd::utf8::encode_utf8(s).len()
}

/// A piece of a text without spaces has no space.
pub proof fn spaceless_subrange(s: Seq<char>, from: int, to: int)
    requires
        spaceless(s),
        0 <= from <= to <= s.len(),
    ensures
        spaceless(s.subrange(from, to)),
{
    assert forall|i: int| 0 <= i < s.subrange(from, to).len() implies s.subrange(from, to)[i]
        != ' ' by {
        assert(s.subrange(from, to)[i] == s[from + i]);
    }
}

/// A text cut in three at an occurrence is the three pieces in a row.
pub proof fn cut_at_occurrence(needle: Seq<char>, hay: Seq<char>, at: int)
    requires
        occurs_at(needle, hay, at),
    ensures
        hay.subrange(0, at) + needle + hay.subrange(at + needle.len(), hay.len() as int) == hay,
{
    assert(hay.subrange(0, at) + hay.subrange(at, at + needle.len()) + hay.subrange(
        at + needle.len(),
        hay.len() as int,
    ) =~= hay);
}

/// There is only one first place.
pub proof fn first_at_is_unique(needle: Seq<char>, hay: Seq<char>, a: int, b: int)
    requires
        first_at(needle, hay, a),
        first_at(needle, hay, b),
    ensures
        a == b,
{
}

/// A text that occurs has a first place, and `first_occurrence` is that place.
pub proof fn first_occurrence_is_first(needle: Seq<char>, hay: Seq<char>)
    requires
        occurs(needle, hay),
    ensures
        first_at(needle, hay, first_occurrence(needle, hay)),
{
    let some = choose|at: int| occurs_at(needle, hay, at);
    least_place(needle, hay, some);
}

proof fn least_place(needle: Seq<char>, hay: Seq<char>, bound: int)
    requires
        occurs_at(needle, hay, bound),
    ensures
        exists|at: int| first_at(needle, hay, at),
    decreases bound,
{
    if exists|earlier: int| 0 <= earlier < bound && occurs_at(needle, hay, earlier) {
        let earlier = choose|earlier: int| 0 <= earlier < bound && occurs_at(needle, hay, earlier);
        least_place(needle, hay, earlier);
    } else {
        assert(first_at(needle, hay, bound));
    }
}

/// The characters of a string, one by one.
pub fn chars_of(s: &str) -> (v: Vec<char>)
    ensures
        v@ == s@,
{
    let mut v: Vec<char> = Vec::new();
    for c in it: s.chars()
        invariant
            it.seq() == s@,
            v@ == s@.subrange(0, it.index()),
    {
        v.push(c);
    }
    assert(v@ == s@);
    v
}

/// Whether `needle` stands in `hay` at `at`.
fn stands_at(needle: &Vec<char>, hay: &Vec<char>, at: usize) -> (b: bool)
    requires
        at + needle.len() <= hay.len(),
    ensures
        b == occurs_at(needle@, hay@, at as int),
{
    let mut k: usize = 0;
    while k < needle.len()
        invariant
            k <= needle.len(),
            at + needle.len() <= hay.len(),
            forall|j: int| 0 <= j < k ==> hay@[at + j] == needle@[j],
        decreases needle.len() - k,
    {
        if hay[at + k] != needle[k] {
            assert(hay@.subrange(at as int, at + needle.len())[k as int] != needle@[k as int]);
            return false;
        }
        k += 1;
    }
    assert(hay@.subrange(at as int, at + needle.len()) =~= needle@);
    true
}

/// The first place at which `needle` stands in `hay`, counted in characters.
pub fn find(hay: &str, needle: &str) -> (place: Option<usize>)
    ensures
        place is Some <==> occurs(needle@, hay@),
        place matches Some(at) ==> first_at(needle@, hay@, at as int),
{
    let hay_chars = chars_of(hay);
    let needle_chars = chars_of(needle);
    if needle_chars.len() > hay_chars.len() {
        return None;
    }
    let last: usize = hay_chars.len() - needle_chars.len();
    let mut at: usize = 0;
    loop
        invariant
            hay_chars@ == hay@,
            needle_chars@ == needle@,
            last + needle_chars.len() == hay_chars.len(),
            at <= last,
            forall|earlier: int| 0 <= earlier < at ==> !occurs_at(needle@, hay@, earlier),
        decreases last - at,
    {
        if stands_at(&needle_chars, &hay_chars, at) {
            return Some(at);
        }
        if at == last {
            return None;
        }
        at += 1;
    }
}

/// The number of bytes of a string.
pub fn byte_count(s: &str) -> (n: usize)
    ensures
        n == byte_len(s@),
{
    s.as_bytes().len()
}

/// Whether a string holds a space.
pub fn has_space(s: &str) -> (b: bool)
    ensures
        b == !spaceless(s@),
{
    let chars = chars_of(s);
    let mut i: usize = 0;
    while i < chars.len()
        invariant
            chars@ == s@,
            i <= chars.len(),
            forall|j: int| 0 <= j < i ==> s@[j] != ' ',
        decreases chars.len() - i,
    {
        if chars[i] == ' ' {
            return true;
        }
        i += 1;
    }
    false
}

} // verus!
