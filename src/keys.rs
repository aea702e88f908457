//! Keys of the origin key-value store.
//!
//! Conversation metadata lives under `composerData:{composerId}` and each
//! message under `bubbleId:{composerId}:{bubbleId}`.

use vstd::prelude::*;
use vstd::string::StringExecFns;
use crate::text::{has_prefix, strip_prefix};

verus! {

/// A raw entry of the origin store: its key and its payload bytes.
#[derive(Debug, Clone)]
pub struct RawKvEntry {
    pub key: String,
    pub value: Vec<u8>,
}

/// Prefix of the keys of conversation metadata.
pub open spec fn composer_prefix() -> Seq<char> {
    "composerData:"@
}

/// Prefix of the keys of messages.
pub open spec fn bubble_prefix() -> Seq<char> {
    "bubbleId:"@
}

/// Whether `s` holds no `:`.
pub open spec fn colon_free(s: Seq<char>) -> bool {
    forall|i: int| 0 <= i < s.len() ==> #[trigger] s[i] != ':'
}

/// `seg` is what `s` holds before its first `:` (all of `s` if it has none).
pub open spec fn is_first_segment(s: Seq<char>, seg: Seq<char>) -> bool {
    &&& seg.len() <= s.len()
    &&& seg == s.subrange(0, seg.len() as int)
    &&& colon_free(seg)
    &&& (seg.len() == s.len() || s[seg.len() as int] == ':')
}

/// Length of the part of `s` before its first `:`.
pub open spec fn segment_len(s: Seq<char>) -> nat
    decreases s.len(),
{
    if s.len() == 0 {
        0
    } else if s[0] == ':' {
        0
    } else {
        1 + segment_len(s.drop_first())
    }
}

/// The composer id that a message key carries, if it is one.
pub open spec fn conversation_id_of_key(key: Seq<char>) -> Option<Seq<char>> {
    if has_prefix(key, bubble_prefix()) {
        let rest = key.subrange(bubble_prefix().len() as int, key.len() as int);
        Some(rest.subrange(0, segment_len(rest) as int))
    } else {
        None
    }
}

/// The composer id that a metadata key carries, if it is one.
pub open spec fn composer_id_of_key(key: Seq<char>) -> Option<Seq<char>> {
    if has_prefix(key, composer_prefix()) {
        Some(key.subrange(composer_prefix().len() as int, key.len() as int))
    } else {
        None
    }
}

/// The key under which a conversation's metadata is stored.
pub open spec fn composer_key_of(id: Seq<char>) -> Seq<char> {
    composer_prefix() + id
}

/// The key under which a message is stored.
pub open spec fn bubble_key_of(composer_id: Seq<char>, bubble_id: Seq<char>) -> Seq<char> {
    bubble_prefix() + composer_id + seq![':'] + bubble_id
}

/// The part of `s` before its first `:`.
fn first_segment<'a>(s: &'a str) -> (r: &'a str)
    ensures
        is_first_segment(s@, r@),
{
    let n = s.unicode_len();
    let mut i: usize = 0;
    while i < n && s.get_char(i) != ':'
        invariant
            n == s@.len(),
            i <= n,
            colon_free(s@.subrange(0, i as int)),
        decreases n - i,
    {
        assert(s@.subrange(0, i + 1) =~= s@.subrange(0, i as int).push(s@[i as int]));
        i = i + 1;
    }
    s.substring_char(0, i)
}

/// The composer id of a message key (`bubbleId:{composerId}:{bubbleId}`),
/// or `None` when the key does not start with `bubbleId:`.
pub fn extract_conversation_id(key: &str) -> (r: Option<&str>)
    ensures
        r.is_some() == has_prefix(key@, bubble_prefix()),
        r.is_some() ==> is_first_segment(
            key@.subrange(bubble_prefix().len() as int, key@.len() as int),
            r.unwrap()@,
        ),
        r.is_some() == conversation_id_of_key(key@).is_some(),
        r.is_some() ==> r.unwrap()@ == conversation_id_of_key(key@).unwrap(),
{
    match strip_prefix(key, "bubbleId:") {
        Some(rest) => {
            let seg = first_segment(rest);
            proof {
                lemma_segment_len_is_first_segment(rest@);
                lemma_first_segment_unique(
                    rest@,
                    seg@,
                    rest@.subrange(0, segment_len(rest@) as int),
                );
            }
            Some(seg)
        },
        None => None,
    }
}

proof fn lemma_segment_len_is_first_segment(s: Seq<char>)
    ensures
        segment_len(s) <= s.len(),
        is_first_segment(s, s.subrange(0, segment_len(s) as int)),
    decreases s.len(),
{
    if s.len() > 0 && s[0] != ':' {
        let t = s.drop_first();
        lemma_segment_len_is_first_segment(t);
        let k = segment_len(s) as int;
        assert(s.subrange(0, k) =~= seq![s[0]] + t.subrange(0, k - 1));
        assert forall|i: int| 0 <= i < k implies #[trigger] s.subrange(0, k)[i] != ':' by {
            if i > 0 {
                assert(s.subrange(0, k)[i] == t.subrange(0, k - 1)[i - 1]);
            }
        }
        if k < s.len() {
            assert(s[k] == t[k - 1]);
        }
    } else {
        assert(s.subrange(0, 0) =~= Seq::<char>::empty());
    }
}

/// The composer id of a metadata key (`composerData:{composerId}`), or `None`
/// when the key does not start with `composerData:`.
pub fn extract_composer_id(key: &str) -> (r: Option<&str>)
    ensures
        r.is_some() == composer_id_of_key(key@).is_some(),
        r.is_some() ==> r.unwrap()@ == composer_id_of_key(key@).unwrap(),
{
    strip_prefix(key, "composerData:")
}

/// The key of a conversation's metadata entry.
pub fn composer_key(composer_id: &str) -> (r: String)
    ensures
        r@ == composer_key_of(composer_id@),
{
    let mut k = String::from_str("composerData:");
    k.append(composer_id);
    k
}

/// The key of a message entry.
pub fn bubble_key(composer_id: &str, bubble_id: &str) -> (r: String)
    ensures
        r@ == bubble_key_of(composer_id@, bubble_id@),
{
    let mut k = String::from_str("bubbleId:");
    k.append(composer_id);
    k.append(":");
    k.append(bubble_id);
    proof {
        reveal_strlit(":");
        assert(k@ =~= bubble_key_of(composer_id@, bubble_id@));
    }
    k
}

/// Two first segments of one string are the same.
pub proof fn lemma_first_segment_unique(s: Seq<char>, a: Seq<char>, b: Seq<char>)
    requires
        is_first_segment(s, a),
        is_first_segment(s, b),
    ensures
        a == b,
{
    if a.len() < b.len() {
        assert(b[a.len() as int] == s[a.len() as int]);
    } else if b.len() < a.len() {
        assert(a[b.len() as int] == s[b.len() as int]);
    }
    assert(a =~= b);
}

/// Reading the composer id back from a metadata key gives the id it was made from.
pub proof fn lemma_composer_key_round_trip(id: Seq<char>)
    ensures
        composer_id_of_key(composer_key_of(id)) == Some(id),
{
    let k = composer_key_of(id);
    assert(k.subrange(0, composer_prefix().len() as int) =~= composer_prefix());
    assert(k.subrange(composer_prefix().len() as int, k.len() as int) =~= id);
}

/// Reading the composer id back from a message key gives the composer id it was
/// made from, when that id holds no `:`.
pub proof fn lemma_bubble_key_round_trip(composer_id: Seq<char>, bubble_id: Seq<char>)
    requires
        colon_free(composer_id),
    ensures
        conversation_id_of_key(bubble_key_of(composer_id, bubble_id)) == Some(composer_id),
        has_prefix(bubble_key_of(composer_id, bubble_id), bubble_prefix()),
        is_first_segment(
            bubble_key_of(composer_id, bubble_id).subrange(
                bubble_prefix().len() as int,
                bubble_key_of(composer_id, bubble_id).len() as int,
            ),
            composer_id,
        ),
{
    let k = bubble_key_of(composer_id, bubble_id);
    let p = bubble_prefix();
    assert(k.subrange(0, p.len() as int) =~= p);
    let rest = k.subrange(p.len() as int, k.len() as int);
    assert(rest =~= composer_id + seq![':'] + bubble_id);
    assert(rest.subrange(0, composer_id.len() as int) =~= composer_id);
    assert(rest[composer_id.len() as int] == ':');
    lemma_segment_len_is_first_segment(rest);
    lemma_first_segment_unique(rest, composer_id, rest.subrange(0, segment_len(rest) as int));
}

} // verus!
