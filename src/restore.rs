//! Restore: writing conversations back into the origin store, and deciding
//! when the origin looks wiped.

use vstd::prelude::*;
use crate::clock::millis_in_range;
use crate::config::AppConfig;
use crate::extract::{
    accepted_bubble, add_bubble, add_composer, arena_of_bubbles, arena_of_composers, extracted, filters_of, find_from,
    finished, kept, BubbleEntryView, ComposerEntryView, ExtractOptions,
};
use crate::keys::{colon_free, lemma_bubble_key_round_trip, lemma_composer_key_round_trip};
use crate::order::{in_time_order, lemma_sorted_by_time_identity, sorted_newest_first};
use crate::records::{composer_read_back, conversation_of_composer, lemma_bubble_round_trip, lemma_composer_round_trip, time_reads_back};
use crate::text::is_blank;
use crate::title::title_of;
use crate::extract::{matches_any_filter, matches_filters};
use crate::keys::{bubble_key, bubble_key_of, composer_key, composer_key_of};
use crate::model::{BubbleView, Conversation, ConversationView, conversation_views};
use crate::records::{
    ComposerRecord, ComposerRecordView, RawBubble, RawBubbleView, bubble_record, composer_record,
    raw_of_bubble, record_of_conversation,
};
use crate::title::texts;

verus! {

/// How many times more conversations the local store must hold than the
/// origin before the origin is taken to have been reset.
pub const DEFAULT_RESET_FACTOR: usize = 2;

/// Decides on and frames restores into the origin store.
#[derive(Debug, Clone)]
pub struct RestoreService {
    config: AppConfig,
    reset_factor: usize,
}

/// Outcome of a restore.
#[derive(Debug, Clone)]
pub struct RestoreResult {
    /// Conversations written back.
    pub restored_conversations: usize,
    /// Messages of those conversations.
    pub restored_messages: usize,
    /// Path of the origin store written to.
    pub cursor_db_path: String,
}

/// The entries that restore one conversation: its metadata entry, then one
/// entry per message, each with its key.
#[derive(Debug)]
pub struct RestoreBatch {
    pub composer_key: String,
    pub composer: ComposerRecord,
    pub bubbles: Vec<(String, RawBubble)>,
}

/// Whether the origin looks reset: the local store exists, and the origin is
/// missing or the local store holds more than `factor` times as many
/// conversations as the origin.
pub open spec fn reset_detected(
    factor: nat,
    local_exists: bool,
    origin_exists: bool,
    local_count: nat,
    origin_count: nat,
) -> bool {
    local_exists && (!origin_exists || local_count > factor * origin_count)
}

/// Messages of the flagged conversations, in total.
pub open spec fn flagged_messages(cs: Seq<ConversationView>, flags: Seq<bool>) -> nat
    decreases cs.len(),
{
    if cs.len() == 0 || flags.len() != cs.len() {
        0
    } else {
        flagged_messages(cs.drop_last(), flags.drop_last()) + if flags.last() {
            cs.last().bubbles.len()
        } else {
            0
        }
    }
}

/// Number of flagged conversations.
pub open spec fn flagged_count(flags: Seq<bool>) -> nat
    decreases flags.len(),
{
    if flags.len() == 0 {
        0
    } else {
        flagged_count(flags.drop_last()) + if flags.last() {
            1nat
        } else {
            0nat
        }
    }
}

/// Flags that select the conversations whose id matches one of `ids`.
pub open spec fn id_flags(cs: Seq<ConversationView>, ids: Seq<Seq<char>>) -> Seq<bool> {
    Seq::new(cs.len(), |i: int| matches_filters(cs[i].composer_id, ids))
}

/// Both flags set.
pub open spec fn both(a: Seq<bool>, b: Seq<bool>) -> Seq<bool> {
    Seq::new(a.len(), |i: int| a[i] && b[i])
}

proof fn lemma_flagged_count_bounded(flags: Seq<bool>)
    ensures
        flagged_count(flags) <= flags.len(),
    decreases flags.len(),
{
    if flags.len() > 0 {
        lemma_flagged_count_bounded(flags.drop_last());
    }
}

/// Tallies the conversations that were written back (`written[i]` for
/// `conversations[i]`) and their messages.
fn tally(conversations: &Vec<Conversation>, written: &Vec<bool>, cursor_db_path: String) -> (r: RestoreResult)
    requires
        written@.len() == conversations@.len(),
        flagged_messages(conversation_views(conversations@), written@) <= usize::MAX,
    ensures
        r.restored_conversations == flagged_count(written@),
        r.restored_messages == flagged_messages(conversation_views(conversations@), written@),
        r.cursor_db_path == cursor_db_path,
{
    let ghost cs = conversation_views(conversations@);
    let mut count: usize = 0;
    let mut messages: usize = 0;
    let mut i: usize = 0;
    proof {
        assert(cs.subrange(0, 0) =~= Seq::<ConversationView>::empty());
        assert(written@.subrange(0, 0) =~= Seq::<bool>::empty());
    }
    while i < conversations.len()
        invariant
            cs == conversation_views(conversations@),
            written@.len() == cs.len(),
            flagged_messages(cs, written@) <= usize::MAX,
            i <= cs.len(),
            count == flagged_count(written@.subrange(0, i as int)),
            messages == flagged_messages(cs.subrange(0, i as int), written@.subrange(0, i as int)),
        decreases cs.len() - i,
    {
        proof {
            assert(cs.subrange(0, i + 1).drop_last() =~= cs.subrange(0, i as int));
            assert(written@.subrange(0, i + 1).drop_last() =~= written@.subrange(0, i as int));
            lemma_flagged_count_bounded(written@.subrange(0, i as int));
            lemma_flagged_messages_prefix(cs, written@, i + 1);
            assert(cs[i as int] == conversations@[i as int]@);
        }
        if written[i] {
            count = count + 1;
            messages = messages + conversations[i].bubbles.len();
        }
        i = i + 1;
    }
    proof {
        assert(cs.subrange(0, i as int) =~= cs);
        assert(written@.subrange(0, i as int) =~= written@);
    }
    RestoreResult { restored_conversations: count, restored_messages: messages, cursor_db_path }
}

proof fn lemma_flagged_messages_prefix(cs: Seq<ConversationView>, flags: Seq<bool>, k: int)
    requires
        flags.len() == cs.len(),
        0 <= k <= cs.len(),
    ensures
        flagged_messages(cs.subrange(0, k), flags.subrange(0, k)) <= flagged_messages(cs, flags),
    decreases cs.len() - k,
{
    if k < cs.len() {
        lemma_flagged_messages_prefix(cs, flags, k + 1);
        assert(cs.subrange(0, k + 1).drop_last() =~= cs.subrange(0, k));
        assert(flags.subrange(0, k + 1).drop_last() =~= flags.subrange(0, k));
    } else {
        assert(cs.subrange(0, k) =~= cs);
        assert(flags.subrange(0, k) =~= flags);
    }
}

impl RestoreService {
    /// A restore service with the default reset factor.
    pub fn new(config: AppConfig) -> (r: RestoreService)
        ensures
            r.reset_factor() == DEFAULT_RESET_FACTOR,
            r.config_value() == config,
    {
        RestoreService { config, reset_factor: DEFAULT_RESET_FACTOR }
    }

    /// The same service with another reset factor (at least one).
    pub fn with_reset_factor(self, factor: usize) -> (r: RestoreService)
        requires
            factor >= 1,
        ensures
            r.reset_factor() == factor,
            r.config_value() == self.config_value(),
    {
        RestoreService { config: self.config, reset_factor: factor }
    }

    /// The reset factor.
    pub closed spec fn reset_factor(&self) -> nat {
        if self.reset_factor == 0 {
            1
        } else {
            self.reset_factor as nat
        }
    }

    /// The configuration of the service.
    pub closed spec fn config_value(&self) -> AppConfig {
        self.config
    }

    /// The configuration the service was made with.
    pub fn config(&self) -> (r: &AppConfig)
        ensures
            *r == self.config_value(),
    {
        &self.config
    }

    /// Whether the origin store looks reset, so that a full restore is due:
    /// the local store exists and the origin store is missing, or the local
    /// store holds more than `factor` times as many conversations.
    pub fn needs_restore(
        &self,
        local_exists: bool,
        origin_exists: bool,
        local_count: usize,
        origin_count: usize,
    ) -> (r: bool)
        ensures
            r == reset_detected(
                self.reset_factor(),
                local_exists,
                origin_exists,
                local_count as nat,
                origin_count as nat,
            ),
    {
        let factor = if self.reset_factor == 0 {
            1
        } else {
            self.reset_factor
        };
        if !local_exists {
            return false;
        }
        if !origin_exists {
            return true;
        }
        assert(factor as nat == self.reset_factor());
        proof {
            assert(factor * origin_count == origin_count * factor) by (nonlinear_arith);
        }
        match origin_count.checked_mul(factor) {
            Some(m) => local_count > m,
            None => {
                false
            },
        }
    }

    /// Whether the origin store holds no conversation at all.
    pub fn cursor_is_empty(&self, origin_exists: bool, origin_count: usize) -> (r: bool)
        ensures
            r == (!origin_exists || origin_count == 0),
    {
        !origin_exists || origin_count == 0
    }

    /// The result of restoring all conversations, given which of them were
    /// written back (a failed one is skipped and the others go on).
    pub fn restore_all(
        &self,
        conversations: &Vec<Conversation>,
        written: &Vec<bool>,
        cursor_db_path: String,
    ) -> (r: RestoreResult)
        requires
            written@.len() == conversations@.len(),
            flagged_messages(conversation_views(conversations@), written@) <= usize::MAX,
        ensures
            r.restored_conversations == flagged_count(written@),
            r.restored_messages == flagged_messages(conversation_views(conversations@), written@),
            r.cursor_db_path == cursor_db_path,
    {
        tally(conversations, written, cursor_db_path)
    }

    /// Which conversations a restore by ids targets: those whose id matches
    /// one of `ids` (as a prefix or anywhere in it).
    pub fn select_by_ids(&self, conversations: &Vec<Conversation>, ids: &Vec<String>) -> (r: Vec<bool>)
        ensures
            r@ == id_flags(conversation_views(conversations@), texts(ids@)),
    {
        let ghost cs = conversation_views(conversations@);
        let mut out: Vec<bool> = Vec::new();
        let mut i: usize = 0;
        while i < conversations.len()
            invariant
                cs == conversation_views(conversations@),
                i <= cs.len(),
                out@ =~= id_flags(cs, texts(ids@)).subrange(0, i as int),
            decreases cs.len() - i,
        {
            let m = matches_any_filter(conversations[i].composer_id.as_str(), ids);
            proof {
                assert(cs[i as int] == conversations@[i as int]@);
            }
            out.push(m);
            i = i + 1;
        }
        out
    }

    /// The result of restoring the conversations that match `ids`, given
    /// which conversations were written back.
    pub fn restore_by_ids(
        &self,
        conversations: &Vec<Conversation>,
        ids: &Vec<String>,
        written: &Vec<bool>,
        cursor_db_path: String,
    ) -> (r: RestoreResult)
        requires
            written@.len() == conversations@.len(),
            flagged_messages(
                conversation_views(conversations@),
                both(id_flags(conversation_views(conversations@), texts(ids@)), written@),
            ) <= usize::MAX,
        ensures
            r.restored_conversations == flagged_count(
                both(id_flags(conversation_views(conversations@), texts(ids@)), written@),
            ),
            r.restored_messages == flagged_messages(
                conversation_views(conversations@),
                both(id_flags(conversation_views(conversations@), texts(ids@)), written@),
            ),
            r.cursor_db_path == cursor_db_path,
    {
        let selected = self.select_by_ids(conversations, ids);
        let mut flags: Vec<bool> = Vec::new();
        let mut i: usize = 0;
        while i < conversations.len()
            invariant
                selected@ == id_flags(conversation_views(conversations@), texts(ids@)),
                written@.len() == conversations@.len(),
                i <= conversations@.len(),
                flags@ =~= both(selected@, written@).subrange(0, i as int),
            decreases conversations@.len() - i,
        {
            flags.push(selected[i] && written[i]);
            i = i + 1;
        }
        proof {
            assert(flags@ =~= both(selected@, written@));
        }
        tally(conversations, &flags, cursor_db_path)
    }
}

/// The message entries that restore messages `bs` of conversation `id`.
pub open spec fn bubble_entries_of(id: Seq<char>, c: ConversationView) -> Seq<(Seq<char>, RawBubbleView)> {
    Seq::new(
        c.bubbles.len(),
        |i: int| (bubble_key_of(id, c.bubbles[i].bubble_id), raw_of_bubble(c.bubbles[i])),
    )
}

/// The values of keyed message entries.
pub open spec fn entry_views(s: Seq<(String, RawBubble)>) -> Seq<(Seq<char>, RawBubbleView)> {
    s.map_values(|e: (String, RawBubble)| (e.0@, e.1@))
}

/// The value of a restore batch.
pub open spec fn batch_view(b: RestoreBatch) -> (Seq<char>, ComposerRecordView, Seq<(Seq<char>, RawBubbleView)>) {
    (b.composer_key@, b.composer@, entry_views(b.bubbles@))
}

/// The entries that write a conversation back into the origin store.
pub fn restore_records(c: &Conversation) -> (r: RestoreBatch)
    ensures
        batch_view(r) == (
            composer_key_of(c@.composer_id),
            record_of_conversation(c@),
            bubble_entries_of(c@.composer_id, c@),
        ),
{
    let key = composer_key(c.composer_id.as_str());
    let record = composer_record(c);
    let mut entries: Vec<(String, RawBubble)> = Vec::new();
    let mut i: usize = 0;
    while i < c.bubbles.len()
        invariant
            i <= c.bubbles@.len(),
            entry_views(entries@) =~= bubble_entries_of(
                c@.composer_id,
                c@,
            ).subrange(0, i as int),
        decreases c.bubbles@.len() - i,
    {
        let b = &c.bubbles[i];
        let k = bubble_key(c.composer_id.as_str(), b.bubble_id.as_str());
        let raw = bubble_record(b);
        proof {
            assert(c@.bubbles[i as int] == b@);
        }
        let ghost before = entries@;
        let ghost kv = k@;
        let ghost rv = raw@;
        entries.push((k, raw));
        proof {
            assert(entry_views(entries@) =~= entry_views(before).push((kv, rv)));
        }
        i = i + 1;
    }
    RestoreBatch { composer_key: key, composer: record, bubbles: entries }
}

/// The metadata entry the origin holds after `c` was restored, as read back.
pub open spec fn restored_composer_entries(c: ConversationView) -> Seq<ComposerEntryView> {
    seq![ComposerEntryView { key: composer_key_of(c.composer_id), composer: composer_read_back(record_of_conversation(c)) }]
}

/// The message entries the origin holds after `c` was restored.
pub open spec fn restored_bubble_entries(c: ConversationView) -> Seq<BubbleEntryView> {
    Seq::new(
        c.bubbles.len(),
        |i: int| BubbleEntryView { key: bubble_key_of(c.composer_id, c.bubbles[i].bubble_id), bubble: Some(raw_of_bubble(c.bubbles[i])) },
    )
}

/// Whether a conversation is one that extraction can give back unchanged
/// after a restore: an id without `:`, a creation time that fits the
/// origin's unsigned field, message times whose text reads back, reasoning
/// durations only with reasoning, no blank message, messages in time order,
/// and the derived title.
pub open spec fn restorable(c: ConversationView) -> bool {
    &&& colon_free(c.composer_id)
    &&& match c.created_at {
        Some(ms) => ms >= 0 && millis_in_range(ms),
        None => true,
    }
    &&& forall|i: int| 0 <= i < c.bubbles.len() ==> {
        let b = #[trigger] c.bubbles[i];
        &&& time_reads_back(b.created_at)
        &&& (b.thinking.is_none() ==> b.thinking_duration_ms.is_none())
        &&& !is_blank(b.text)
    }
    &&& in_time_order(c.bubbles)
    &&& c.title == title_of(c.bubbles)
}

proof fn lemma_restored_prefix(c: ConversationView, o: ExtractOptions, k: int)
    requires
        restorable(c),
        o.conversation_ids is None,
        0 <= k <= c.bubbles.len(),
    ensures
        arena_of_bubbles(
            seq![ConversationView { title: Seq::empty(), bubbles: Seq::empty(), ..c }],
            restored_bubble_entries(c).subrange(0, k),
            o,
        ) == seq![ConversationView { title: Seq::empty(), bubbles: c.bubbles.subrange(0, k), ..c }],
    decreases k,
{
    let meta = ConversationView { title: Seq::empty(), bubbles: Seq::empty(), ..c };
    let es = restored_bubble_entries(c);
    if k == 0 {
        assert(es.subrange(0, 0) =~= Seq::<BubbleEntryView>::empty());
        assert(c.bubbles.subrange(0, 0) =~= Seq::<BubbleView>::empty());
    } else {
        lemma_restored_prefix(c, o, k - 1);
        assert(es.subrange(0, k).drop_last() =~= es.subrange(0, k - 1));
        let b = c.bubbles[k - 1];
        let e = es[k - 1];
        assert(es.subrange(0, k).last() == e);
        lemma_bubble_key_round_trip(c.composer_id, b.bubble_id);
        lemma_bubble_round_trip(b);
        assert(accepted_bubble(e, o) == Some((c.composer_id, b)));
        let prev = seq![ConversationView { title: Seq::empty(), bubbles: c.bubbles.subrange(0, k - 1), ..c }];
        assert(find_from(prev, c.composer_id) == Some(0int));
        assert(c.bubbles.subrange(0, k - 1).push(b) =~= c.bubbles.subrange(0, k));
        assert(add_bubble(prev, c.composer_id, b) =~= seq![ConversationView { title: Seq::empty(), bubbles: c.bubbles.subrange(0, k), ..c }]);
    }
}

/// Round trip: restoring a conversation into an emptied origin store and
/// extracting again gives the same conversation back, field for field, when
/// it is in the form extraction produces (see `restorable`); the schema's
/// placeholder fields play no part.
pub proof fn lemma_restore_then_extract(c: ConversationView, o: ExtractOptions)
    requires
        restorable(c),
        o.conversation_ids is None,
        o.min_messages <= c.bubbles.len(),
    ensures
        extracted(restored_composer_entries(c), restored_bubble_entries(c), o) == seq![c],
{
    let cs = restored_composer_entries(c);
    let meta = ConversationView { title: Seq::empty(), bubbles: Seq::empty(), ..c };
    lemma_composer_key_round_trip(c.composer_id);
    lemma_composer_round_trip(c);
    assert(cs.drop_last() =~= Seq::<ComposerEntryView>::empty());
    assert(find_from(Seq::<ConversationView>::empty(), c.composer_id) is None);
    assert(arena_of_composers(cs.drop_last(), filters_of(o)) == Seq::<ConversationView>::empty());
    assert(filters_of(o) is None);
    let rb = composer_read_back(record_of_conversation(c)).unwrap();
    assert(cs.last().composer == Some(rb));
    assert(conversation_of_composer(c.composer_id, rb) == meta);
    assert(Seq::<ConversationView>::empty().push(meta) =~= seq![meta]);
    assert(add_composer(Seq::<ConversationView>::empty(), cs.last(), filters_of(o)) == seq![meta]);
    assert(arena_of_composers(cs, filters_of(o)) =~= seq![meta]);
    lemma_restored_prefix(c, o, c.bubbles.len() as int);
    let es = restored_bubble_entries(c);
    assert(es.subrange(0, es.len() as int) =~= es);
    assert(c.bubbles.subrange(0, c.bubbles.len() as int) =~= c.bubbles);
    let full = ConversationView { title: Seq::empty(), bubbles: c.bubbles, ..c };
    assert(arena_of_bubbles(seq![meta], es, o) == seq![full]);
    lemma_sorted_by_time_identity(c.bubbles);
    assert(finished(full) == c);
    assert(seq![full].drop_last() =~= Seq::<ConversationView>::empty());
    assert(kept(seq![full].drop_last(), o.min_messages as nat) == Seq::<ConversationView>::empty());
    assert(seq![full].last() == full);
    assert(Seq::<ConversationView>::empty().push(c) =~= seq![c]);
    assert(kept(seq![full], o.min_messages as nat) =~= seq![c]);
    assert(seq![c].drop_last() =~= Seq::<ConversationView>::empty());
    assert(sorted_newest_first(seq![c].drop_last()) == Seq::<ConversationView>::empty());
    assert(seq![c].last() == c);
    assert(crate::order::desc_position(Seq::<ConversationView>::empty(), c.created_at) == 0);
    assert(Seq::<ConversationView>::empty().insert(0, c) =~= seq![c]);
    assert(sorted_newest_first(seq![c]) =~= seq![c]);
}

} // verus!
