//! The textual payload of a frame: `key@=value` tokens, each closed by a
//! slash.
//!
//! A field is found by searching the payload for the key marker as a plain
//! byte string. The search is not aligned to tokens: a marker that happens
//! to stand inside another field's value is found there. This is a known
//! limit of the format's reader, kept as it is.

use vstd::prelude::*;
use vstd::slice::slice_subrange;

verus! {

/// The byte that closes a value.
pub const SLASH: u8 = 47;

/// `needle` stands in `hay` at index `i`.
pub open spec fn occurs_at(hay: Seq<u8>, needle: Seq<u8>, i: int) -> bool {
    0 <= i && i + needle.len() <= hay.len() && hay.subrange(i, i + needle.len()) == needle
}

/// `needle` stands somewhere in `hay`.
pub open spec fn occurs(hay: Seq<u8>, needle: Seq<u8>) -> bool {
    exists|i: int| occurs_at(hay, needle, i)
}

/// `needle` stands in `hay` at index `i` and nowhere before it.
pub open spec fn is_first_occurrence(hay: Seq<u8>, needle: Seq<u8>, i: int) -> bool {
    occurs_at(hay, needle, i) && forall|j: int| 0 <= j < i ==> !occurs_at(hay, needle, j)
}

/// The first index at which `needle` stands in `hay`.
pub open spec fn first_occurrence(hay: Seq<u8>, needle: Seq<u8>) -> int
    recommends
        occurs(hay, needle),
{
    choose|i: int| is_first_occurrence(hay, needle, i)
}

/// A value that starts at `from` ends at `end`: at the first slash from
/// `from` on, or at the end of the payload where no slash follows.
pub open spec fn is_value_end(payload: Seq<u8>, from: int, end: int) -> bool {
    &&& from <= end <= payload.len()
    &&& end < payload.len() ==> payload[end] == SLASH
    &&& forall|k: int| from <= k < end ==> payload[k] != SLASH
}

/// Where the value that starts at `from` ends.
pub open spec fn value_end(payload: Seq<u8>, from: int) -> int
    recommends
        0 <= from <= payload.len(),
{
    choose|end: int| is_value_end(payload, from, end)
}

/// The value of the field whose marker is `key`: the bytes between the first
/// occurrence of `key` and the next slash, or the end of the payload. `None`
/// where `key` does not occur.
pub open spec fn field(payload: Seq<u8>, key: Seq<u8>) -> Option<Seq<u8>> {
    if occurs(payload, key) {
        let from = first_occurrence(payload, key) + key.len();
        Some(payload.subrange(from, value_end(payload, from)))
    } else {
        None
    }
}

/// `payload` begins with `prefix`.
pub open spec fn has_prefix(payload: Seq<u8>, prefix: Seq<u8>) -> bool {
    occurs_at(payload, prefix, 0)
}

/// There is one first occurrence at most.
pub proof fn lemma_first_occurrence(hay: Seq<u8>, needle: Seq<u8>, i: int)
    requires
        is_first_occurrence(hay, needle, i),
    ensures
        occurs(hay, needle),
        first_occurrence(hay, needle) == i,
{
    let c = first_occurrence(hay, needle);
    assert(is_first_occurrence(hay, needle, c));
    if c < i {
        assert(!occurs_at(hay, needle, c));
    }
    if i < c {
        assert(!occurs_at(hay, needle, i));
    }
}

/// A value has one end.
pub proof fn lemma_value_end(payload: Seq<u8>, from: int, end: int)
    requires
        is_value_end(payload, from, end),
    ensures
        value_end(payload, from) == end,
{
    let c = value_end(payload, from);
    assert(is_value_end(payload, from, c));
    if c < end {
        assert(payload[c] != SLASH);
    }
    if end < c {
        assert(payload[end] != SLASH);
    }
}

/// A marker that stands nowhere in the payload has no value.
pub proof fn lemma_absent_marker(payload: Seq<u8>, key: Seq<u8>)
    requires
        !occurs(payload, key),
    ensures
        field(payload, key) is None,
{
}

/// An empty payload holds no field, whatever the marker.
pub proof fn lemma_empty_payload(payload: Seq<u8>, key: Seq<u8>)
    requires
        payload.len() == 0,
        key.len() > 0,
    ensures
        field(payload, key) is None,
{
    assert forall|i: int| !occurs_at(payload, key, i) by {}
}

/// Where no slash follows the first occurrence of the marker, the value is
/// all that is left of the payload.
pub proof fn lemma_last_field(payload: Seq<u8>, key: Seq<u8>, at: int)
    requires
        is_first_occurrence(payload, key, at),
        forall|k: int| at + key.len() <= k < payload.len() ==> payload[k] != SLASH,
    ensures
        field(payload, key) == Some(payload.subrange(at + key.len(), payload.len() as int)),
{
    lemma_first_occurrence(payload, key, at);
    lemma_value_end(payload, at + key.len(), payload.len() as int);
}

/// Where the marker first stands at `at` and the next slash at `end`, the
/// value is what lies between the marker and that slash.
pub proof fn lemma_closed_field(payload: Seq<u8>, key: Seq<u8>, at: int, end: int)
    requires
        is_first_occurrence(payload, key, at),
        at + key.len() <= end < payload.len(),
        payload[end] == SLASH,
        forall|k: int| at + key.len() <= k < end ==> payload[k] != SLASH,
    ensures
        field(payload, key) == Some(payload.subrange(at + key.len(), end)),
{
    lemma_first_occurrence(payload, key, at);
    lemma_value_end(payload, at + key.len(), end);
}

/// Tells whether `needle` stands in `hay` at index `at`.
fn matches_at(hay: &[u8], needle: &[u8], at: usize) -> (found: bool)
    requires
        at + needle@.len() <= hay@.len(),
    ensures
        found == occurs_at(hay@, needle@, at as int),
{
    let ghost window = hay@.subrange(at as int, at + needle@.len());
    let hay_len: usize = hay.len();
    let mut k: usize = 0;
    while k < needle.len()
        invariant
            k <= needle@.len(),
            hay_len == hay@.len(),
            at + needle@.len() <= hay@.len(),
            window == hay@.subrange(at as int, at + needle@.len()),
            forall|j: int| 0 <= j < k ==> window[j] == needle@[j],
        decreases needle@.len() - k,
    {
        if hay[at + k] != needle[k] {
            assert(window[k as int] != needle@[k as int]);
            return false;
        }
        k += 1;
    }
    assert(window =~= needle@);
    true
}

/// Finds the first index at which `needle` stands in `haystack`.
pub fn find_subsequence(haystack: &[u8], needle: &[u8]) -> (r: Option<usize>)
    requires
        needle@.len() > 0,
    ensures
        match r {
            Some(i) => is_first_occurrence(haystack@, needle@, i as int),
            None => !occurs(haystack@, needle@),
        },
{
    if needle.len() > haystack.len() {
        return None;
    }
    let last: usize = haystack.len() - needle.len();
    let mut i: usize = 0;
    while i <= last
        invariant
            needle@.len() > 0,
            last == haystack@.len() - needle@.len(),
            last < usize::MAX,
            i <= last + 1,
            forall|j: int| 0 <= j < i ==> !occurs_at(haystack@, needle@, j),
        decreases last + 1 - i,
    {
        if matches_at(haystack, needle, i) {
            return Some(i);
        }
        i += 1;
    }
    None
}

/// Finds where the value that starts at `from` ends.
fn find_value_end(payload: &[u8], from: usize) -> (end: usize)
    requires
        from <= payload@.len(),
    ensures
        is_value_end(payload@, from as int, end as int),
{
    let mut end: usize = from;
    while end < payload.len() && payload[end] != SLASH
        invariant
            from <= end <= payload@.len(),
            forall|k: int| from <= k < end ==> payload@[k] != SLASH,
        decreases payload@.len() - end,
    {
        end += 1;
    }
    end
}

/// Extracts the value of the field whose marker is `key` (the key with its
/// `@=`, as in `nn@=`): the bytes after the first occurrence of the marker,
/// up to the next slash or to the end of the payload. A marker that does not
/// occur gives `None`.
pub fn extract_field<'a>(payload: &'a [u8], key: &[u8]) -> (r: Option<&'a [u8]>)
    requires
        key@.len() > 0,
    ensures
        match r {
            Some(value) => field(payload@, key@) == Some(value@),
            None => field(payload@, key@) is None,
        },
{
    match find_subsequence(payload, key) {
        Some(start) => {
            let payload_len: usize = payload.len();
            assert(start + key@.len() <= payload_len);
            let from: usize = start + key.len();
            let end: usize = find_value_end(payload, from);
            proof {
                lemma_first_occurrence(payload@, key@, start as int);
                lemma_value_end(payload@, from as int, end as int);
            }
            Some(slice_subrange(payload, from, end))
        },
        None => None,
    }
}

/// Tells whether `payload` begins with `prefix`.
pub fn starts_with(payload: &[u8], prefix: &[u8]) -> (yes: bool)
    ensures
        yes == has_prefix(payload@, prefix@),
{
    prefix.len() <= payload.len() && matches_at(payload, prefix, 0)
}

} // verus!
