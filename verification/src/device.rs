//! The device-selection heuristic: pick the first enumerated device whose
//! name, lowercased, contains a fixed keyword. Enumeration itself belongs to
//! the audio backend; this module holds the matching rule, over an injected
//! list of names.

use vstd::prelude::*;

verus! {

/// The lowercase form of a string, as `str::to_lowercase` computes it.
pub uninterp spec fn lower_of(s: Seq<char>) -> Seq<char>;

/// Relies on str::to_lowercase: the lowercase form of a string is a function
/// of its characters alone.
#[verifier::external_body]
fn to_lower_chars(s: &String) -> (r: Vec<char>)
    ensures
        r@ == lower_of(s@),
{
    s.to_lowercase().chars().collect()
}

/// `needle` occurs as a contiguous run inside `hay`.
pub open spec fn contains_seq(hay: Seq<char>, needle: Seq<char>) -> bool {
    exists|k: int|
        0 <= k <= hay.len() - needle.len() && #[trigger] hay.subrange(k, k + needle.len())
            == needle
}

/// Whether `needle` matches `hay` at offset `k`.
#[verifier::loop_isolation(false)]
fn matches_at(hay: &Vec<char>, needle: &Vec<char>, k: usize) -> (r: bool)
    requires
        k + needle@.len() <= hay@.len(),
    ensures
        r == (hay@.subrange(k as int, k + needle@.len()) == needle@),
{
    let hay_len = hay.len();
    let mut t: usize = 0;
    while t < needle.len()
        invariant
            t <= needle@.len(),
            hay@.len() == hay_len,
            k + needle@.len() <= hay@.len(),
            forall|u: int| 0 <= u < t ==> hay@[k + u] == needle@[u],
        decreases needle@.len() - t,
    {
        if hay[k + t] != needle[t] {
            proof {
                assert(hay@.subrange(k as int, k + needle@.len())[t as int] == hay@[k + t]);
            }
            return false;
        }
        t = t + 1;
    }
    proof {
        assert(hay@.subrange(k as int, k + needle@.len()) =~= needle@);
    }
    true
}

/// Whether `needle` occurs contiguously inside `hay`, by scanning every
/// offset. An empty needle occurs in every haystack.
#[verifier::loop_isolation(false)]
pub fn contains_chars(hay: &Vec<char>, needle: &Vec<char>) -> (r: bool)
    ensures
        r == contains_seq(hay@, needle@),
{
    if needle.len() > hay.len() {
        return false;
    }
    if needle.len() == 0 {
        proof {
            assert(hay@.subrange(0, 0 + needle@.len() as int) =~= needle@);
        }
        return true;
    }
    let last = hay.len() - needle.len();
    let mut k: usize = 0;
    while k <= last
        invariant
            1 <= needle@.len() <= hay@.len(),
            last == hay@.len() - needle@.len(),
            k <= last + 1,
            forall|k2: int|
                0 <= k2 < k ==> #[trigger] hay@.subrange(k2, k2 + needle@.len()) != needle@,
        decreases last + 1 - k,
    {
        if matches_at(hay, needle, k) {
            return true;
        }
        k = k + 1;
    }
    false
}

/// The name picks the device: its lowercase form contains the keyword.
pub open spec fn name_matches(name: Seq<char>, keyword: Seq<char>) -> bool {
    contains_seq(lower_of(name), keyword)
}

/// Scan an enumerated list of device names, in order, for the first whose
/// lowercase form contains the keyword (itself expected in lowercase, so the
/// match is case-insensitive); `None` when no name matches, the
/// device-not-found condition.
#[verifier::loop_isolation(false)]
pub fn find_matching_device(names: &Vec<String>, keyword: &Vec<char>) -> (r: Option<usize>)
    ensures
        match r {
            Some(i) => 0 <= i < names@.len() && name_matches(names@[i as int]@, keyword@)
                && forall|j: int| 0 <= j < i ==> !name_matches(names@[j]@, keyword@),
            None => forall|j: int| 0 <= j < names@.len() ==> !name_matches(names@[j]@, keyword@),
        },
{
    let mut i: usize = 0;
    while i < names.len()
        invariant
            i <= names@.len(),
            forall|j: int| 0 <= j < i ==> !name_matches(names@[j]@, keyword@),
        decreases names@.len() - i,
    {
        let lowered = to_lower_chars(&names[i]);
        if contains_chars(&lowered, keyword) {
            return Some(i);
        }
        i = i + 1;
    }
    None
}

} // verus!
