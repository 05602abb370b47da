//! Extraction of a comment identifier, and optionally a video identifier,
//! from what a member submits: either a bare identifier or a watch URL whose
//! query names the comment (`lc`) and the video (`v`).
use vstd::prelude::*;

use crate::strutil;

verus! {

/// What url::Url::parse followed by query_pairs yields for an input: nothing
/// when the input is no absolute URL, otherwise the percent-decoded query
/// key/value pairs in order; fixed by the input alone.
pub uninterp spec fn url_query_pairs(s: Seq<char>) -> Option<Seq<(Seq<char>, Seq<char>)>>;

/// Relies on url::Url::parse (accepts exactly absolute URLs) and
/// Url::query_pairs (the percent-decoded query pairs, in order).
#[verifier::external_body]
fn parse_url_query_pairs(input: &str) -> (r: Option<Vec<(String, String)>>)
    ensures
        r matches Some(v) ==> url_query_pairs(input@) == Some(v.deep_view()),
        r is None ==> url_query_pairs(input@) is None,
{
    match url::Url::parse(input) {
        Ok(u) => Some(u.query_pairs().map(|(k, v)| (k.into_owned(), v.into_owned())).collect()),
        Err(_) => None,
    }
}

/// The value of the last pair carrying the key, as a forward scan that
/// overwrites earlier values leaves it.
pub open spec fn last_value_for_key(pairs: Seq<(Seq<char>, Seq<char>)>, key: Seq<char>) -> Option<
    Seq<char>,
>
    decreases pairs.len(),
{
    if pairs.len() == 0 {
        None
    } else if pairs.last().0 == key {
        Some(pairs.last().1)
    } else {
        last_value_for_key(pairs.drop_last(), key)
    }
}

/// Scans the pairs for a key; a later pair wins over an earlier one.
pub(crate) fn find_query_value(pairs: &Vec<(String, String)>, key: &str) -> (r: Option<String>)
    ensures
        match r {
            Some(s) => last_value_for_key(pairs.deep_view(), key@) == Some(s@),
            None => last_value_for_key(pairs.deep_view(), key@) is None,
        },
{
    let ghost pv = pairs.deep_view();
    proof {
        assert(pv.len() == pairs@.len());
    }
    let mut found: Option<String> = None;
    let mut i: usize = 0;
    while i < pairs.len()
        invariant
            i <= pairs@.len(),
            pv == pairs.deep_view(),
            pv.len() == pairs@.len(),
            forall|j: int|
                0 <= j < pv.len() ==> #[trigger] pv[j] == (pairs@[j].0@, pairs@[j].1@),
            match found {
                Some(s) => last_value_for_key(pv.subrange(0, i as int), key@) == Some(s@),
                None => last_value_for_key(pv.subrange(0, i as int), key@) is None,
            },
        decreases pairs@.len() - i,
    {
        proof {
            assert(pv.subrange(0, i as int + 1).drop_last() =~= pv.subrange(0, i as int));
            assert(pv.subrange(0, i as int + 1).last() == pv[i as int]);
        }
        if strutil::chars_eq(pairs[i].0.as_str(), key) {
            found = Some(pairs[i].1.clone());
        }
        i = i + 1;
    }
    proof {
        assert(pv.subrange(0, pv.len() as int) =~= pv);
    }
    found
}

/// Whether a character may stand in a bare comment identifier.
pub open spec fn plain_ref_char(c: char) -> bool {
    strutil::unicode_alphanumeric(c) || c == '-' || c == '_'
}

/// Whether the whole input is a bare identifier: alphanumerics, hyphens and
/// underscores only.
pub open spec fn is_plain_reference(s: Seq<char>) -> bool {
    forall|i: int| 0 <= i < s.len() ==> plain_ref_char(#[trigger] s[i])
}

/// The key naming the comment in a watch URL's query.
pub open spec fn comment_key() -> Seq<char> {
    seq!['l', 'c']
}

/// The key naming the video in a watch URL's query.
pub open spec fn video_key() -> Seq<char> {
    seq!['v']
}

/// What reference extraction yields: a bare identifier as it stands, with no
/// video; otherwise the URL's `lc` value with its optional `v` value; nothing
/// when the input is neither.
pub open spec fn comment_reference_of(s: Seq<char>) -> Option<(Seq<char>, Option<Seq<char>>)> {
    if is_plain_reference(s) {
        Some((s, None))
    } else {
        match url_query_pairs(s) {
            Some(pairs) => match last_value_for_key(pairs, comment_key()) {
                Some(cid) => Some((cid, last_value_for_key(pairs, video_key()))),
                None => None,
            },
            None => None,
        }
    }
}

/// Extracts the comment ID and video ID from a comment URL or bare ID.
/// A bare identifier is returned as it stands, with no video; a URL yields
/// its `lc` query value and, when present, its `v` query value.
pub fn extract_comment_and_video_id(input: &str) -> (r: Option<(String, Option<String>)>)
    ensures
        match r {
            Some(p) => comment_reference_of(input@) matches Some(q) && p.0@ == q.0 && (match p.1 {
                Some(v) => q.1 == Some(v@),
                None => q.1 is None,
            }),
            None => comment_reference_of(input@) is None,
        },
{
    let cs = strutil::chars_of(input);
    let mut plain = true;
    let mut i: usize = 0;
    while i < cs.len()
        invariant
            i <= cs@.len(),
            cs@ == input@,
            plain <==> (forall|j: int| 0 <= j < i ==> plain_ref_char(#[trigger] input@[j])),
        decreases cs@.len() - i,
    {
        let c = cs[i];
        if !(strutil::char_is_alphanumeric(c) || c == '-' || c == '_') {
            plain = false;
        }
        i = i + 1;
    }
    if plain {
        return Some((input.to_owned(), None));
    }
    proof {
        reveal_strlit("lc");
        reveal_strlit("v");
        assert("lc"@ =~= comment_key());
        assert("v"@ =~= video_key());
    }
    match parse_url_query_pairs(input) {
        None => None,
        Some(pairs) => match find_query_value(&pairs, "lc") {
            None => None,
            Some(cid) => Some((cid, find_query_value(&pairs, "v"))),
        },
    }
}

/// What comment-ID extraction alone yields: the first half of the pair.
pub open spec fn comment_id_of(s: Seq<char>) -> Option<Seq<char>> {
    match comment_reference_of(s) {
        Some(p) => Some(p.0),
        None => None,
    }
}

/// Extracts the comment ID from a comment URL or bare ID.
pub fn extract_comment_id(input: &str) -> (r: Option<String>)
    ensures
        match r {
            Some(s) => comment_id_of(input@) == Some(s@),
            None => comment_id_of(input@) is None,
        },
{
    match extract_comment_and_video_id(input) {
        Some(p) => Some(p.0),
        None => None,
    }
}

/// Law: a bare identifier — alphanumerics, hyphens and underscores only —
/// extracts as itself, with no video named.
pub proof fn lemma_bare_reference(s: Seq<char>)
    requires
        is_plain_reference(s),
    ensures
        comment_reference_of(s) == Some((s, None::<Seq<char>>)),
{
}

} // verus!
