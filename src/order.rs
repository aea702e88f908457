//! Stable orderings by creation time.
//!
//! A missing time sorts before any known time; messages or conversations
//! with equal times keep the order in which they were found.

use vstd::prelude::*;
use crate::model::{Bubble, BubbleView, Conversation, ConversationView, bubble_views, conversation_views};

verus! {

/// Whether time `a` comes strictly before time `b`.
pub open spec fn time_lt(a: Option<i64>, b: Option<i64>) -> bool {
    match (a, b) {
        (None, Some(_)) => true,
        (Some(x), Some(y)) => x < y,
        _ => false,
    }
}

fn lt_time(a: Option<i64>, b: Option<i64>) -> (r: bool)
    ensures
        r == time_lt(a, b),
{
    match (a, b) {
        (None, Some(_)) => true,
        (Some(x), Some(y)) => x < y,
        _ => false,
    }
}

/// Where a message with time `t` goes among sorted messages: before the
/// first one that is later.
pub open spec fn asc_position(s: Seq<BubbleView>, t: Option<i64>) -> int
    decreases s.len(),
{
    if s.len() == 0 {
        0
    } else if time_lt(t, s[0].created_at) {
        0
    } else {
        1 + asc_position(s.drop_first(), t)
    }
}

/// Messages sorted by creation time, oldest first, stably.
pub open spec fn sorted_by_time(s: Seq<BubbleView>) -> Seq<BubbleView>
    decreases s.len(),
{
    if s.len() == 0 {
        Seq::empty()
    } else {
        let r = sorted_by_time(s.drop_last());
        r.insert(asc_position(r, s.last().created_at), s.last())
    }
}

/// Where a conversation with time `t` goes among conversations sorted newest
/// first: before the first one that is older.
pub open spec fn desc_position(s: Seq<ConversationView>, t: Option<i64>) -> int
    decreases s.len(),
{
    if s.len() == 0 {
        0
    } else if time_lt(s[0].created_at, t) {
        0
    } else {
        1 + desc_position(s.drop_first(), t)
    }
}

/// Conversations sorted by creation time, newest first, stably.
pub open spec fn sorted_newest_first(s: Seq<ConversationView>) -> Seq<ConversationView>
    decreases s.len(),
{
    if s.len() == 0 {
        Seq::empty()
    } else {
        let r = sorted_newest_first(s.drop_last());
        r.insert(desc_position(r, s.last().created_at), s.last())
    }
}

proof fn lemma_asc_position_bounds(s: Seq<BubbleView>, t: Option<i64>)
    ensures
        0 <= asc_position(s, t) <= s.len(),
    decreases s.len(),
{
    if s.len() > 0 && !time_lt(t, s[0].created_at) {
        lemma_asc_position_bounds(s.drop_first(), t);
    }
}

pub(crate) proof fn lemma_desc_position_bounds(s: Seq<ConversationView>, t: Option<i64>)
    ensures
        0 <= desc_position(s, t) <= s.len(),
    decreases s.len(),
{
    if s.len() > 0 && !time_lt(s[0].created_at, t) {
        lemma_desc_position_bounds(s.drop_first(), t);
    }
}

proof fn lemma_sorted_by_time_len(s: Seq<BubbleView>)
    ensures
        sorted_by_time(s).len() == s.len(),
    decreases s.len(),
{
    if s.len() > 0 {
        lemma_sorted_by_time_len(s.drop_last());
        lemma_asc_position_bounds(sorted_by_time(s.drop_last()), s.last().created_at);
    }
}

pub(crate) proof fn lemma_sorted_newest_first_len(s: Seq<ConversationView>)
    ensures
        sorted_newest_first(s).len() == s.len(),
    decreases s.len(),
{
    if s.len() > 0 {
        lemma_sorted_newest_first_len(s.drop_last());
        lemma_desc_position_bounds(sorted_newest_first(s.drop_last()), s.last().created_at);
    }
}

/// Sorts messages by creation time, oldest first, keeping the order of
/// messages with equal times.
pub fn sort_bubbles(v: Vec<Bubble>) -> (r: Vec<Bubble>)
    ensures
        bubble_views(r@) == sorted_by_time(bubble_views(v@)),
{
    let ghost orig = bubble_views(v@);
    let n = v.len();
    let mut input = v;
    let mut out: Vec<Bubble> = Vec::new();
    let mut k: usize = 0;
    proof {
        assert(orig.subrange(0, 0) =~= Seq::<BubbleView>::empty());
        assert(bubble_views(out@) =~= Seq::<BubbleView>::empty());
        assert(bubble_views(input@) =~= orig.subrange(0, n as int));
    }
    while input.len() > 0
        invariant
            orig.len() == n,
            k + input@.len() == n,
            bubble_views(out@) == sorted_by_time(orig.subrange(0, k as int)),
            bubble_views(input@) == orig.subrange(k as int, n as int),
        decreases input@.len(),
    {
        let ghost before = bubble_views(out@);
        let ghost in_before = input@;
        let x = input.remove(0);
        proof {
            assert(input@ =~= in_before.subrange(1, in_before.len() as int));
            assert(bubble_views(in_before)[0] == orig.subrange(k as int, n as int)[0]);
            assert forall|j: int| 0 <= j < input@.len() implies #[trigger] bubble_views(input@)[j]
                == orig.subrange(k + 1, n as int)[j] by {
                assert(bubble_views(input@)[j] == bubble_views(in_before)[j + 1]);
            }
            assert(bubble_views(input@) =~= orig.subrange(k + 1, n as int));
            assert(x@ == orig[k as int]);
            lemma_sorted_by_time_len(orig.subrange(0, k as int));
        }
        let t = x.created_at;
        let mut p: usize = 0;
        proof {
            assert(before.subrange(0, before.len() as int) =~= before);
        }
        while p < out.len() && !lt_time(t, out[p].created_at)
            invariant
                bubble_views(out@) == before,
                p <= out@.len(),
                asc_position(before, t) == p + asc_position(before.subrange(p as int, before.len() as int), t),
            decreases out@.len() - p,
        {
            proof {
                assert(before.subrange(p as int, before.len() as int).drop_first()
                    =~= before.subrange(p + 1, before.len() as int));
            }
            p = p + 1;
        }
        proof {
            lemma_asc_position_bounds(before.subrange(p as int, before.len() as int), t);
        }
        out.insert(p, x);
        proof {
            assert(orig.subrange(0, k + 1).drop_last() =~= orig.subrange(0, k as int));
            assert(bubble_views(out@) =~= before.insert(p as int, x@));
        }
        k = k + 1;
    }
    proof {
        assert(orig.subrange(0, n as int) =~= orig);
    }
    out
}

/// Sorts conversations by creation time, newest first, keeping the order of
/// conversations with equal times.
pub fn sort_conversations(v: Vec<Conversation>) -> (r: Vec<Conversation>)
    ensures
        conversation_views(r@) == sorted_newest_first(conversation_views(v@)),
{
    let ghost orig = conversation_views(v@);
    let n = v.len();
    let mut input = v;
    let mut out: Vec<Conversation> = Vec::new();
    let mut k: usize = 0;
    proof {
        assert(orig.subrange(0, 0) =~= Seq::<ConversationView>::empty());
        assert(conversation_views(out@) =~= Seq::<ConversationView>::empty());
        assert(conversation_views(input@) =~= orig.subrange(0, n as int));
    }
    while input.len() > 0
        invariant
            orig.len() == n,
            k + input@.len() == n,
            conversation_views(out@) == sorted_newest_first(orig.subrange(0, k as int)),
            conversation_views(input@) == orig.subrange(k as int, n as int),
        decreases input@.len(),
    {
        let ghost before = conversation_views(out@);
        let ghost in_before = input@;
        let x = input.remove(0);
        proof {
            assert(input@ =~= in_before.subrange(1, in_before.len() as int));
            assert(conversation_views(in_before)[0] == orig.subrange(k as int, n as int)[0]);
            assert forall|j: int| 0 <= j < input@.len() implies #[trigger] conversation_views(input@)[j]
                == orig.subrange(k + 1, n as int)[j] by {
                assert(conversation_views(input@)[j] == conversation_views(in_before)[j + 1]);
            }
            assert(conversation_views(input@) =~= orig.subrange(k + 1, n as int));
            assert(x@ == orig[k as int]);
            lemma_sorted_newest_first_len(orig.subrange(0, k as int));
        }
        let t = x.created_at;
        let mut p: usize = 0;
        proof {
            assert(before.subrange(0, before.len() as int) =~= before);
        }
        while p < out.len() && !lt_time(out[p].created_at, t)
            invariant
                conversation_views(out@) == before,
                p <= out@.len(),
                desc_position(before, t) == p + desc_position(before.subrange(p as int, before.len() as int), t),
            decreases out@.len() - p,
        {
            proof {
                assert(before.subrange(p as int, before.len() as int).drop_first()
                    =~= before.subrange(p + 1, before.len() as int));
            }
            p = p + 1;
        }
        proof {
            lemma_desc_position_bounds(before.subrange(p as int, before.len() as int), t);
        }
        out.insert(p, x);
        proof {
            assert(orig.subrange(0, k + 1).drop_last() =~= orig.subrange(0, k as int));
            assert(conversation_views(out@) =~= before.insert(p as int, x@));
        }
        k = k + 1;
    }
    proof {
        assert(orig.subrange(0, n as int) =~= orig);
    }
    out
}

/// Whether messages are in time order: none is earlier than one before it.
pub open spec fn in_time_order(s: Seq<BubbleView>) -> bool {
    forall|i: int, j: int| 0 <= i < j < s.len() ==> !time_lt(s[j].created_at, s[i].created_at)
}

proof fn lemma_asc_position_end(s: Seq<BubbleView>, t: Option<i64>)
    requires
        forall|k: int| 0 <= k < s.len() ==> !time_lt(t, (#[trigger] s[k]).created_at),
    ensures
        asc_position(s, t) == s.len(),
    decreases s.len(),
{
    if s.len() > 0 {
        assert(!time_lt(t, s[0].created_at));
        assert forall|k: int| 0 <= k < s.drop_first().len() implies !time_lt(t, (#[trigger] s.drop_first()[k]).created_at) by {
            assert(s.drop_first()[k] == s[k + 1]);
        }
        lemma_asc_position_end(s.drop_first(), t);
    }
}

/// Sorting messages that are already in time order leaves them as they are.
pub proof fn lemma_sorted_by_time_identity(s: Seq<BubbleView>)
    requires
        in_time_order(s),
    ensures
        sorted_by_time(s) == s,
    decreases s.len(),
{
    if s.len() > 0 {
        let s0 = s.drop_last();
        assert forall|i: int, j: int| 0 <= i < j < s0.len() implies !time_lt(s0[j].created_at, s0[i].created_at) by {
            assert(s0[i] == s[i]);
            assert(s0[j] == s[j]);
        }
        lemma_sorted_by_time_identity(s0);
        assert forall|k: int| 0 <= k < s0.len() implies !time_lt(s.last().created_at, (#[trigger] s0[k]).created_at) by {
            assert(s0[k] == s[k]);
        }
        lemma_asc_position_end(s0, s.last().created_at);
        assert(s0.insert(s0.len() as int, s.last()) =~= s);
    }
}

} // verus!
