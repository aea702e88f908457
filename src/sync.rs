//! Incremental synchronisation: the persisted sync state and the decision
//! of which conversations need writing to the local store.
//!
//! A cycle goes `Idle -> Syncing -> Completed | Failed`. Each conversation
//! is written only when its fingerprint differs from the one stored for its
//! composer id, so a second cycle over unchanged data writes nothing.

use vstd::prelude::*;
use crate::extract::{extracted, lemma_extracted_distinct_ids, BubbleEntryView, ComposerEntryView, ExtractOptions};
use crate::fingerprint::fingerprint_of;
use crate::model::{Conversation, ConversationView, conversation_views, opt_text};

verus! {

/// The persisted state of synchronisation; one per local store.
#[derive(Debug, Clone)]
pub struct SyncState {
    /// Time of the last completed cycle, in milliseconds since the epoch.
    pub last_sync: Option<i64>,
    /// Hash of all synced data; reserved, informational.
    pub last_hash: Option<String>,
    /// Conversations in the local store.
    pub conversation_count: usize,
    /// Messages in the local store.
    pub message_count: usize,
    /// Size of the local store in bytes.
    pub storage_bytes: u64,
    /// Whether a cycle is in progress (or was interrupted).
    pub is_syncing: bool,
    /// Error of the last failed cycle.
    pub last_error: Option<String>,
}

impl Default for SyncState {
    fn default() -> (r: SyncState)
        ensures
            r.last_sync.is_none() && r.last_hash.is_none() && r.conversation_count == 0
                && r.message_count == 0 && r.storage_bytes == 0 && !r.is_syncing && r.last_error.is_none(),
    {
        SyncState {
            last_sync: None,
            last_hash: None,
            conversation_count: 0,
            message_count: 0,
            storage_bytes: 0,
            is_syncing: false,
            last_error: None,
        }
    }
}

impl SyncState {
    /// Records the time of a sync.
    pub fn with_sync_time(self, now_ms: i64) -> (r: SyncState)
        ensures
            r == (SyncState { last_sync: Some(now_ms), ..self }),
    {
        SyncState { last_sync: Some(now_ms), ..self }
    }

    /// Marks a cycle as started.
    pub fn syncing(self) -> (r: SyncState)
        ensures
            r == (SyncState { is_syncing: true, ..self }),
    {
        SyncState { is_syncing: true, ..self }
    }

    /// Marks a cycle as finished.
    pub fn completed(self) -> (r: SyncState)
        ensures
            r == (SyncState { is_syncing: false, ..self }),
    {
        SyncState { is_syncing: false, ..self }
    }

    /// Records a failed cycle.
    pub fn with_error(self, error: String) -> (r: SyncState)
        ensures
            r == (SyncState { last_error: Some(error), is_syncing: false, ..self }),
    {
        SyncState { last_error: Some(error), is_syncing: false, ..self }
    }

    /// Records the failure of a cycle that was cut short: the error is kept
    /// and the cycle stays marked as in progress, for the next cycle to see.
    pub fn failed(self, error: String) -> (r: SyncState)
        ensures
            r == (SyncState { last_error: Some(error), ..self }),
    {
        SyncState { last_error: Some(error), ..self }
    }

    /// Clears the error of a previous cycle.
    pub fn clear_error(self) -> (r: SyncState)
        ensures
            r == (SyncState { last_error: None, ..self }),
    {
        SyncState { last_error: None, ..self }
    }

    /// The state after a completed cycle: its time and the store's counts,
    /// no cycle in progress and no error.
    pub fn after_cycle(now_ms: i64, conversation_count: usize, message_count: usize, storage_bytes: u64) -> (r: SyncState)
        ensures
            r.last_sync == Some(now_ms),
            r.last_hash.is_none(),
            r.conversation_count == conversation_count,
            r.message_count == message_count,
            r.storage_bytes == storage_bytes,
            !r.is_syncing,
            r.last_error.is_none(),
    {
        SyncState {
            last_sync: Some(now_ms),
            last_hash: None,
            conversation_count,
            message_count,
            storage_bytes,
            is_syncing: false,
            last_error: None,
        }
    }
}

/// Whether a conversation must be written: its stored fingerprint is absent
/// or differs.
pub open spec fn must_write(c: ConversationView, stored: Option<Seq<char>>) -> bool {
    stored != Some(fingerprint_of(c))
}

/// For each conversation, whether it must be written.
pub open spec fn write_flags(cs: Seq<ConversationView>, stored: Seq<Option<Seq<char>>>) -> Seq<bool> {
    Seq::new(cs.len(), |i: int| must_write(cs[i], stored[i]))
}

/// The texts of optional stored fingerprints.
pub open spec fn stored_views(s: Seq<Option<String>>) -> Seq<Option<Seq<char>>> {
    s.map_values(|o: Option<String>| opt_text(o))
}

/// Whether a conversation whose fingerprint is `fingerprint` must be written,
/// given what the store holds for it.
pub fn needs_write(fingerprint: &String, stored: &Option<String>) -> (r: bool)
    ensures
        r == (opt_text(*stored) != Some(fingerprint@)),
{
    match stored {
        Some(s) => !(*s == *fingerprint),
        None => true,
    }
}

/// For each conversation, whether it must be written, given the fingerprint
/// stored for it (`stored[i]` for `conversations[i]`).
pub fn changed_conversations(conversations: &Vec<Conversation>, stored: &Vec<Option<String>>) -> (r: Vec<bool>)
    requires
        stored@.len() == conversations@.len(),
    ensures
        r@ == write_flags(conversation_views(conversations@), stored_views(stored@)),
{
    let ghost cs = conversation_views(conversations@);
    let ghost st = stored_views(stored@);
    let mut out: Vec<bool> = Vec::new();
    let mut i: usize = 0;
    while i < conversations.len()
        invariant
            cs == conversation_views(conversations@),
            st == stored_views(stored@),
            st.len() == cs.len(),
            i <= cs.len(),
            out@ =~= write_flags(cs, st).subrange(0, i as int),
        decreases cs.len() - i,
    {
        let fp = conversations[i].fingerprint();
        let w = needs_write(&fp, &stored[i]);
        proof {
            assert(cs[i as int] == conversations@[i as int]@);
            assert(st[i as int] == opt_text(stored@[i as int]));
        }
        out.push(w);
        i = i + 1;
    }
    out
}

/// What the local store holds for each conversation: its stored fingerprint,
/// looked up by composer id.
pub open spec fn lookup(store: Map<Seq<char>, Seq<char>>, cs: Seq<ConversationView>) -> Seq<Option<Seq<char>>> {
    Seq::new(
        cs.len(),
        |i: int|
            if store.contains_key(cs[i].composer_id) {
                Some(store[cs[i].composer_id])
            } else {
                None
            },
    )
}

/// The stored fingerprints after writing the flagged conversations of `cs`,
/// in order.
pub open spec fn written(store: Map<Seq<char>, Seq<char>>, cs: Seq<ConversationView>, flags: Seq<bool>) -> Map<
    Seq<char>,
    Seq<char>,
>
    decreases cs.len(),
{
    if cs.len() == 0 || flags.len() != cs.len() {
        store
    } else {
        let prev = written(store, cs.drop_last(), flags.drop_last());
        if flags.last() {
            prev.insert(cs.last().composer_id, fingerprint_of(cs.last()))
        } else {
            prev
        }
    }
}

/// Whether no two conversations share a composer id.
pub open spec fn distinct_ids(cs: Seq<ConversationView>) -> bool {
    forall|i: int, j: int| 0 <= i < j < cs.len() ==> cs[i].composer_id != cs[j].composer_id
}

proof fn lemma_written_keeps(
    store: Map<Seq<char>, Seq<char>>,
    cs: Seq<ConversationView>,
    flags: Seq<bool>,
    i: int,
)
    requires
        distinct_ids(cs),
        flags.len() == cs.len(),
        0 <= i < cs.len(),
    ensures
        flags[i] ==> written(store, cs, flags).contains_key(cs[i].composer_id)
            && written(store, cs, flags)[cs[i].composer_id] == fingerprint_of(cs[i]),
        !flags[i] ==> written(store, cs, flags).contains_key(cs[i].composer_id)
            == store.contains_key(cs[i].composer_id),
        !flags[i] && store.contains_key(cs[i].composer_id)
            ==> written(store, cs, flags)[cs[i].composer_id] == store[cs[i].composer_id],
    decreases cs.len(),
{
    let n = cs.len() - 1;
    let c0 = cs.drop_last();
    let f0 = flags.drop_last();
    if i < n {
        assert(c0[i] == cs[i]);
        assert(f0[i] == flags[i]);
        assert(cs.last().composer_id != cs[i].composer_id);
        lemma_written_keeps(store, c0, f0, i);
    } else {
        assert forall|j: int| 0 <= j < c0.len() implies (#[trigger] c0[j]).composer_id != cs[i].composer_id by {
            assert(c0[j] == cs[j]);
        }
        lemma_written_elsewhere(store, c0, f0, cs[i].composer_id);
    }
}

proof fn lemma_written_elsewhere(
    store: Map<Seq<char>, Seq<char>>,
    cs: Seq<ConversationView>,
    flags: Seq<bool>,
    x: Seq<char>,
)
    requires
        flags.len() == cs.len(),
        forall|j: int| 0 <= j < cs.len() ==> (#[trigger] cs[j]).composer_id != x,
    ensures
        written(store, cs, flags).contains_key(x) == store.contains_key(x),
        store.contains_key(x) ==> written(store, cs, flags)[x] == store[x],
    decreases cs.len(),
{
    if cs.len() > 0 {
        let c0 = cs.drop_last();
        assert forall|j: int| 0 <= j < c0.len() implies (#[trigger] c0[j]).composer_id != x by {
            assert(c0[j] == cs[j]);
        }
        assert(cs[cs.len() - 1].composer_id != x);
        lemma_written_elsewhere(store, c0, flags.drop_last(), x);
    }
}

/// Idempotence: once a cycle has written the changed conversations of a
/// set with distinct composer ids, a second cycle over the same set flags
/// none of them, so the store's rows and fingerprints stay as they are.
pub proof fn lemma_sync_idempotent(store: Map<Seq<char>, Seq<char>>, cs: Seq<ConversationView>)
    requires
        distinct_ids(cs),
    ensures
        ({
            let after = written(store, cs, write_flags(cs, lookup(store, cs)));
            &&& forall|i: int| 0 <= i < cs.len() ==> !(#[trigger] write_flags(cs, lookup(after, cs))[i])
            &&& written(after, cs, write_flags(cs, lookup(after, cs))) == after
        }),
{
    let flags = write_flags(cs, lookup(store, cs));
    let after = written(store, cs, flags);
    assert forall|i: int| 0 <= i < cs.len() implies !(#[trigger] write_flags(cs, lookup(after, cs))[i]) by {
        lemma_written_keeps(store, cs, flags, i);
    }
    lemma_written_unchanged(after, cs, write_flags(cs, lookup(after, cs)));
}

proof fn lemma_written_unchanged(store: Map<Seq<char>, Seq<char>>, cs: Seq<ConversationView>, flags: Seq<bool>)
    requires
        flags.len() == cs.len(),
        forall|i: int| 0 <= i < cs.len() ==> !(#[trigger] flags[i]),
    ensures
        written(store, cs, flags) == store,
    decreases cs.len(),
{
    if cs.len() > 0 {
        let f0 = flags.drop_last();
        assert forall|i: int| 0 <= i < cs.drop_last().len() implies !(#[trigger] f0[i]) by {
            assert(f0[i] == flags[i]);
        }
        lemma_written_unchanged(store, cs.drop_last(), f0);
        assert(!flags[cs.len() - 1]);
    }
}

/// Idempotence of sync over what extraction yields: a second cycle over the
/// same origin entries writes nothing.
pub proof fn lemma_sync_of_extraction_idempotent(
    store: Map<Seq<char>, Seq<char>>,
    cs: Seq<ComposerEntryView>,
    bs: Seq<BubbleEntryView>,
    o: ExtractOptions,
)
    ensures
        ({
            let convs = extracted(cs, bs, o);
            let after = written(store, convs, write_flags(convs, lookup(store, convs)));
            &&& forall|i: int| 0 <= i < convs.len() ==> !(#[trigger] write_flags(convs, lookup(after, convs))[i])
            &&& written(after, convs, write_flags(convs, lookup(after, convs))) == after
        }),
{
    lemma_extracted_distinct_ids(cs, bs, o);
    lemma_sync_idempotent(store, extracted(cs, bs, o));
}

} // verus!
