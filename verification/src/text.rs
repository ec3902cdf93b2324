//! Searching in text, character by character.

use vstd::prelude::*;

verus! {

/// `needle` stands in `hay` at index `i`.
pub open spec fn occurs_at(hay: Seq<char>, needle: Seq<char>, i: int) -> bool {
    0 <= i && i + needle.len() <= hay.len() && hay.subrange(i, i + needle.len()) == needle
}

/// `needle` stands somewhere in `hay`. The empty text stands in every text.
pub open spec fn contains_text(hay: Seq<char>, needle: Seq<char>) -> bool {
    exists|i: int| occurs_at(hay, needle, i)
}

/// `needle` stands in `hay` at index `i` and nowhere before.
pub open spec fn is_first_occurrence(hay: Seq<char>, needle: Seq<char>, i: int) -> bool {
    occurs_at(hay, needle, i) && forall|j: int| 0 <= j < i ==> !occurs_at(hay, needle, j)
}

/// The index at which `needle` first stands in `hay`.
pub open spec fn first_occurrence(hay: Seq<char>, needle: Seq<char>) -> Option<int> {
    if contains_text(hay, needle) {
        Some(choose|i: int| is_first_occurrence(hay, needle, i))
    } else {
        None
    }
}

/// There is one first occurrence at most, and `first_occurrence` names it.
pub proof fn lemma_first_occurrence(hay: Seq<char>, needle: Seq<char>, i: int)
    requires
        is_first_occurrence(hay, needle, i),
    ensures
        first_occurrence(hay, needle) == Some(i),
{
    let k = choose|k: int| is_first_occurrence(hay, needle, k);
    assert(is_first_occurrence(hay, needle, k));
    if k < i {
        assert(!occurs_at(hay, needle, k));
    }
    if i < k {
        assert(!occurs_at(hay, needle, i));
    }
}

/// Where there is an occurrence there is a first one, and
/// `first_occurrence` names it.
pub proof fn lemma_first_occurrence_exists(hay: Seq<char>, needle: Seq<char>, at: int)
    requires
        occurs_at(hay, needle, at),
    ensures
        first_occurrence(hay, needle) matches Some(i) && is_first_occurrence(hay, needle, i) && i
            <= at,
    decreases at,
{
    if forall|j: int| 0 <= j < at ==> !occurs_at(hay, needle, j) {
        lemma_first_occurrence(hay, needle, at);
    } else {
        let j = choose|j: int| 0 <= j < at && occurs_at(hay, needle, j);
        lemma_first_occurrence_exists(hay, needle, j);
    }
}

/// What `first_occurrence` names is a first occurrence.
pub proof fn lemma_first_occurrence_is_first(hay: Seq<char>, needle: Seq<char>)
    ensures
        first_occurrence(hay, needle) matches Some(i) ==> is_first_occurrence(hay, needle, i),
{
    if contains_text(hay, needle) {
        let at = choose|at: int| occurs_at(hay, needle, at);
        lemma_first_occurrence_exists(hay, needle, at);
    }
}

/// Without an occurrence there is no first one.
pub proof fn lemma_no_occurrence(hay: Seq<char>, needle: Seq<char>)
    requires
        forall|j: int| !occurs_at(hay, needle, j),
    ensures
        first_occurrence(hay, needle) is None,
{
}

/// The characters of `s`, one by one.
pub fn chars_of(s: &str) -> (v: Vec<char>)
    ensures
        v@ == s@,
{
    let mut v: Vec<char> = Vec::new();
    for c in it: s.chars()
        invariant
            it.seq() == s@,
            v@ == s@.take(it.index() as int),
    {
        v.push(c);
        assert(s@.take(it.index() + 1) =~= s@.take(it.index() as int).push(c));
    }
    assert(s@.take(s@.len() as int) =~= s@);
    v
}

/// Whether `needle` stands in `hay` at index `i`.
pub fn matches_at(hay: &Vec<char>, needle: &Vec<char>, i: usize) -> (b: bool)
    requires
        i + needle.len() <= hay.len(),
    ensures
        b == occurs_at(hay@, needle@, i as int),
{
    let mut k: usize = 0;
    while k < needle.len()
        invariant
            k <= needle.len(),
            i + needle.len() <= hay.len(),
            forall|m: int| 0 <= m < k ==> hay@[i + m] == needle@[m],
        decreases needle.len() - k,
    {
        if hay[i + k] != needle[k] {
            assert(hay@.subrange(i as int, i + needle.len())[k as int] != needle@[k as int]);
            return false;
        }
        k = k + 1;
    }
    assert(hay@.subrange(i as int, i + needle.len()) =~= needle@);
    true
}

/// Where `needle` first stands in the part of `hay` from index `from` up
/// to index `to`, counted from `from`.
pub fn find_in(hay: &Vec<char>, from: usize, to: usize, needle: &Vec<char>) -> (at: Option<usize>)
    requires
        from <= to <= hay.len(),
    ensures
        match at {
            Some(i) => first_occurrence(hay@.subrange(from as int, to as int), needle@) == Some(
                i as int,
            ) && is_first_occurrence(hay@.subrange(from as int, to as int), needle@, i as int),
            None => first_occurrence(hay@.subrange(from as int, to as int), needle@) is None,
        },
{
    let ghost part = hay@.subrange(from as int, to as int);
    if needle.len() == 0 {
        proof {
            assert(part.subrange(0, 0) =~= needle@);
            lemma_first_occurrence(part, needle@, 0);
        }
        return Some(0);
    }
    if needle.len() > to - from {
        assert forall|j: int| !occurs_at(part, needle@, j) by {}
        return None;
    }
    let last: usize = to - needle.len();
    let mut i: usize = from;
    while i <= last
        invariant
            from <= i <= last + 1,
            0 < needle.len(),
            last + needle.len() == to,
            to <= hay.len(),
            part == hay@.subrange(from as int, to as int),
            forall|j: int| 0 <= j < i - from ==> !occurs_at(part, needle@, j),
        decreases last + 1 - i,
    {
        let hit = matches_at(hay, needle, i);
        assert(part.subrange(i - from, i - from + needle.len()) =~= hay@.subrange(
            i as int,
            i + needle.len(),
        ));
        if hit {
            proof {
                lemma_first_occurrence(part, needle@, i - from);
            }
            return Some(i - from);
        }
        i = i + 1;
    }
    assert forall|j: int| !occurs_at(part, needle@, j) by {}
    None
}

/// `String::push` puts one character at the end of the text.
pub assume_specification[ String::push ](text: &mut String, c: char)
    ensures
        final(text)@ == old(text)@.push(c),
;

/// The characters of `chars` from index `from` up to index `to`, as text.
pub fn string_of(chars: &Vec<char>, from: usize, to: usize) -> (s: String)
    requires
        from <= to <= chars.len(),
    ensures
        s@ == chars@.subrange(from as int, to as int),
{
    let mut s = String::new();
    let mut i: usize = from;
    while i < to
        invariant
            from <= i <= to <= chars.len(),
            s@ == chars@.subrange(from as int, i as int),
        decreases to - i,
    {
        s.push(chars[i]);
        assert(chars@.subrange(from as int, i + 1) =~= chars@.subrange(from as int, i as int).push(
            chars@[i as int],
        ));
        i = i + 1;
    }
    s
}

} // verus!
