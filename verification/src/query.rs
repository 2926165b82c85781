//! The query part of a request line: where it starts, and the pairs of
//! key and value it holds.

use crate::text::str_eq;
use vstd::prelude::*;
use vstd::string::*;
use vstd::utf8::*;

verus! {

/// The pairs of key and value that the `querystring` crate reads out of a
/// query, in the order in which they stand in it. Nothing is stated of
/// them beyond their being a function of the query.
pub uninterp spec fn query_pairs(query: Seq<char>) -> Seq<(Seq<char>, Seq<char>)>;

/// The characters of each key and value of a list of pairs.
pub open spec fn pairs_view(pairs: Seq<(&str, &str)>) -> Seq<(Seq<char>, Seq<char>)> {
    Seq::new(pairs.len(), |i: int| (pairs[i].0@, pairs[i].1@))
}

/// The value of the last pair under `key`: a later pair overrides an
/// earlier one with the same key.
pub open spec fn last_value(pairs: Seq<(Seq<char>, Seq<char>)>, key: Seq<char>) -> Option<
    Seq<char>,
>
    decreases pairs.len(),
{
    if pairs.len() == 0 {
        None
    } else if pairs.last().0 == key {
        Some(pairs.last().1)
    } else {
        last_value(pairs.drop_last(), key)
    }
}

/// What follows the first `skip` bytes of the UTF-8 form of a request
/// line, provided that the line is that long and that no character
/// straddles the cut.
pub open spec fn after_prefix(uri: Seq<char>, skip: usize) -> Option<Seq<char>> {
    let bytes = encode_utf8(uri);
    if skip <= bytes.len() && is_char_boundary(bytes, skip as int) {
        Some(decode_utf8(bytes.subrange(skip as int, bytes.len() as int)))
    } else {
        None
    }
}

/// The characters of an optional string slice.
pub open spec fn text_view(text: Option<&str>) -> Option<Seq<char>> {
    match text {
        Some(t) => Some(t@),
        None => None,
    }
}

/// Calls `querystring::querify`, which cuts a query at each `&` and keeps
/// the pieces that hold a `=`. The contract gives the result its name and
/// claims no more.
#[verifier::external_body]
pub(crate) fn querify<'a>(query: &'a str) -> (pairs: Vec<(&'a str, &'a str)>)
    ensures
        pairs_view(pairs@) == query_pairs(query@),
{
    querystring::querify(query)
}

/// The value that a query gives for `key`, the last one if it gives
/// several.
pub fn lookup<'a>(pairs: &Vec<(&'a str, &'a str)>, key: &str) -> (value: Option<&'a str>)
    ensures
        text_view(value) == last_value(pairs_view(pairs@), key@),
{
    let mut i: usize = pairs.len();
    proof {
        assert(pairs_view(pairs@).take(i as int) =~= pairs_view(pairs@));
    }
    while i > 0
        invariant
            i <= pairs.len(),
            last_value(pairs_view(pairs@), key@) == last_value(
                pairs_view(pairs@).take(i as int),
                key@,
            ),
        decreases i,
    {
        let ghost head = pairs_view(pairs@).take(i as int);
        i -= 1;
        let (k, v) = pairs[i];
        proof {
            assert(head.last() == (k@, v@));
            assert(head.drop_last() =~= pairs_view(pairs@).take(i as int));
        }
        if str_eq(k, key) {
            return Some(v);
        }
    }
    proof {
        assert(pairs_view(pairs@).take(0) =~= Seq::<(Seq<char>, Seq<char>)>::empty());
    }
    None
}

/// Cuts the first `skip` bytes off a request line. A line shorter than
/// that, or one in which a character straddles the cut, has no rest.
pub fn skip_prefix(uri: &str, skip: usize) -> (rest: Option<&str>)
    ensures
        text_view(rest) == after_prefix(uri@, skip),
{
    if uri.as_bytes().len() < skip || !uri.is_char_boundary(skip) {
        return None;
    }
    let (_, rest) = uri.split_at(skip);
    proof {
        encode_utf8_decode_utf8(rest@);
    }
    Some(rest)
}

/// The UTF-8 form of two texts in a row is the UTF-8 form of the first
/// followed by that of the second, and the second starts on a character
/// boundary.
proof fn lemma_encode_concat(head: Seq<char>, rest: Seq<char>)
    ensures
        encode_utf8(head + rest) == encode_utf8(head) + encode_utf8(rest),
        is_char_boundary(encode_utf8(head + rest), encode_utf8(head).len() as int),
    decreases head.len(),
{
    let whole = head + rest;
    let bytes = encode_utf8(whole);
    encode_utf8_valid_utf8(whole);
    if head.len() == 0 {
        assert(whole =~= rest);
        assert(encode_utf8(head) + encode_utf8(rest) =~= encode_utf8(rest));
    } else {
        let tail = head.drop_first();
        lemma_encode_concat(tail, rest);
        assert(whole.drop_first() =~= tail + rest);
        assert(whole[0] == head[0]);
        assert(bytes =~= encode_utf8(head) + encode_utf8(rest));
        encode_utf8_first_scalar(whole);
        assert(pop_first_scalar(bytes) =~= encode_utf8(tail + rest));
    }
}

/// A request line that starts with ASCII characters only loses exactly
/// those to a cut of as many bytes: what follows the prefix is the rest
/// of the line, as it stands.
pub proof fn lemma_after_ascii_prefix(prefix: Seq<char>, rest: Seq<char>)
    requires
        is_ascii_chars(prefix),
        prefix.len() <= usize::MAX,
    ensures
        after_prefix(prefix + rest, prefix.len() as usize) == Some(rest),
{
    let bytes = encode_utf8(prefix + rest);
    lemma_encode_concat(prefix, rest);
    is_ascii_chars_encode_utf8(prefix);
    assert(bytes.subrange(prefix.len() as int, bytes.len() as int) =~= encode_utf8(rest));
    encode_utf8_decode_utf8(rest);
}

} // verus!
