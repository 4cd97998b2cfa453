//! Sequences of characters: the predicates that the log scanner is stated
//! in, and executable searches proved against them.

use vstd::prelude::*;

verus! {

/// `needle` stands in `hay` at position `at`.
pub open spec fn occurs_at(hay: Seq<char>, needle: Seq<char>, at: int) -> bool {
    &&& 0 <= at
    &&& at + needle.len() <= hay.len()
    &&& hay.subrange(at, at + needle.len()) == needle
}

/// `needle` stands somewhere in `hay`.
pub open spec fn contains(hay: Seq<char>, needle: Seq<char>) -> bool {
    exists|at: int| occurs_at(hay, needle, at)
}

/// `hay` begins with `needle`.
pub open spec fn starts_with(hay: Seq<char>, needle: Seq<char>) -> bool {
    occurs_at(hay, needle, 0)
}

/// `hay` without every leading repetition of `prefix`.
pub open spec fn trim_start_matches(hay: Seq<char>, prefix: Seq<char>) -> Seq<char>
    decreases hay.len(),
{
    if prefix.len() > 0 && starts_with(hay, prefix) {
        trim_start_matches(hay.skip(prefix.len() as int), prefix)
    } else {
        hay
    }
}

/// The characters of `s`, in order.
pub fn to_chars(s: &str) -> (chars: Vec<char>)
    ensures
        chars@ == s@,
{
    broadcast use vstd::string::group_string_axioms;

    let mut chars: Vec<char> = Vec::new();
    for c in it: s.chars()
        invariant
            it.seq() == s@,
            chars@ == it.seq().take(it.index()),
    {
        chars.push(c);
    }
    chars
}

/// Whether `needle` stands in `hay` at position `at`.
pub fn matches_at(hay: &[char], needle: &[char], at: usize) -> (found: bool)
    ensures
        found == occurs_at(hay@, needle@, at as int),
{
    let hay_len: usize = hay.len();
    let needle_len: usize = needle.len();
    if at > hay_len || needle_len > hay_len - at {
        return false;
    }
    let mut j: usize = 0;
    while j < needle_len
        invariant
            j <= needle_len == needle@.len(),
            at + needle_len <= hay_len == hay@.len(),
            forall|k: int| 0 <= k < j ==> hay@[at + k] == needle@[k],
        decreases needle_len - j,
    {
        if hay[at + j] != needle[j] {
            assert(hay@.subrange(at as int, at + needle_len)[j as int] != needle@[j as int]);
            return false;
        }
        j += 1;
    }
    assert(hay@.subrange(at as int, at + needle_len) =~= needle@);
    true
}

/// Whether `needle` stands somewhere in `hay`.
pub fn contains_chars(hay: &[char], needle: &[char]) -> (found: bool)
    ensures
        found == contains(hay@, needle@),
{
    let hay_len: usize = hay.len();
    let needle_len: usize = needle.len();
    if needle_len > hay_len {
        return false;
    }
    if needle_len == 0 {
        assert(hay@.subrange(0, 0) =~= needle@);
        assert(occurs_at(hay@, needle@, 0));
        return true;
    }
    let last: usize = hay_len - needle_len;
    let mut at: usize = 0;
    while at <= last
        invariant
            at <= last + 1,
            last < hay_len,
            last == hay@.len() - needle@.len(),
            forall|k: int| 0 <= k < at ==> !occurs_at(hay@, needle@, k),
        decreases last + 1 - at,
    {
        if matches_at(hay, needle, at) {
            return true;
        }
        at += 1;
    }
    false
}

/// Whether `hay` begins with `needle`.
pub fn starts_with_chars(hay: &[char], needle: &[char]) -> (found: bool)
    ensures
        found == starts_with(hay@, needle@),
{
    matches_at(hay, needle, 0)
}

/// Where `hay` goes on behind every leading repetition of `prefix`.
pub fn trimmed_start(hay: &[char], prefix: &[char]) -> (start: usize)
    ensures
        start <= hay@.len(),
        hay@.skip(start as int) == trim_start_matches(hay@, prefix@),
{
    let hay_len: usize = hay.len();
    let prefix_len: usize = prefix.len();
    let mut start: usize = 0;
    assert(hay@.skip(0) =~= hay@);
    if prefix_len == 0 {
        return start;
    }
    while matches_at(hay, prefix, start)
        invariant
            start <= hay_len == hay@.len(),
            prefix_len == prefix@.len(),
            prefix_len > 0,
            trim_start_matches(hay@.skip(start as int), prefix@) == trim_start_matches(
                hay@,
                prefix@,
            ),
        decreases hay@.len() - start,
    {
        proof {
            let rest = hay@.skip(start as int);
            assert(rest.subrange(0, prefix_len as int) =~= hay@.subrange(
                start as int,
                start + prefix_len,
            ));
            assert(starts_with(rest, prefix@));
            assert(rest.skip(prefix_len as int) =~= hay@.skip(start + prefix_len));
        }
        start += prefix_len;
    }
    proof {
        let rest = hay@.skip(start as int);
        if starts_with(rest, prefix@) {
            assert(rest.subrange(0, prefix_len as int) =~= hay@.subrange(
                start as int,
                start + prefix_len,
            ));
        }
    }
    start
}

} // verus!
