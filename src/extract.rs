//! Building conversations from the entries of the origin store.
//!
//! Metadata entries are read first and open one conversation each, keyed
//! by composer id; message entries are then attached to their conversation,
//! which is created on the spot when its metadata is missing. An entry whose
//! payload could not be read is skipped alone.

use vstd::prelude::*;
use crate::keys::{composer_id_of_key, conversation_id_of_key, extract_composer_id, extract_conversation_id};
use crate::model::{
    BubbleType, BubbleView, Conversation, ConversationView, ExtractionStats, bubble_views,
    conversation_views, opt_text,
};
use crate::order::{sort_bubbles, sort_conversations, sorted_by_time, sorted_newest_first};
use crate::records::{
    RawBubble, RawBubbleView, RawComposer, RawComposerView, bubble_from_raw, bubble_of_raw,
    conversation_from_composer, conversation_of_composer, orphan_conversation, orphan_of,
};
use crate::text::{blank, contains, contains_text, has_prefix, is_blank, matches_at, starts_with};
use crate::sync::distinct_ids;
use crate::title::{texts, title_of};

verus! {

/// Options of an extraction.
#[derive(Debug, Clone)]
pub struct ExtractOptions {
    /// Read only the global store.
    pub global_only: bool,
    /// Keep only conversations whose id contains one of these.
    pub conversation_ids: Option<Vec<String>>,
    /// Fewest messages a conversation needs to be kept.
    pub min_messages: usize,
    /// Keep messages whose text is blank.
    pub include_empty: bool,
}

impl Default for ExtractOptions {
    fn default() -> (r: ExtractOptions)
        ensures
            !r.global_only && r.conversation_ids.is_none() && r.min_messages == 0 && !r.include_empty,
    {
        ExtractOptions { global_only: false, conversation_ids: None, min_messages: 0, include_empty: false }
    }
}

/// A metadata entry of the origin store: its key, and its payload when it
/// could be read.
#[derive(Debug)]
pub struct ComposerEntry {
    pub key: String,
    pub composer: Option<RawComposer>,
}

/// A message entry of the origin store: its key, and its payload when it
/// could be read.
#[derive(Debug)]
pub struct BubbleEntry {
    pub key: String,
    pub bubble: Option<RawBubble>,
}

/// Value of a metadata entry.
pub struct ComposerEntryView {
    pub key: Seq<char>,
    pub composer: Option<RawComposerView>,
}

/// Value of a message entry.
pub struct BubbleEntryView {
    pub key: Seq<char>,
    pub bubble: Option<RawBubbleView>,
}

impl View for ComposerEntry {
    type V = ComposerEntryView;

    open spec fn view(&self) -> ComposerEntryView {
        ComposerEntryView {
            key: self.key@,
            composer: match self.composer {
                Some(c) => Some(c@),
                None => None,
            },
        }
    }
}

impl View for BubbleEntry {
    type V = BubbleEntryView;

    open spec fn view(&self) -> BubbleEntryView {
        BubbleEntryView {
            key: self.key@,
            bubble: match self.bubble {
                Some(b) => Some(b@),
                None => None,
            },
        }
    }
}

/// The values of metadata entries.
pub open spec fn composer_entry_views(s: Seq<ComposerEntry>) -> Seq<ComposerEntryView> {
    s.map_values(|e: ComposerEntry| e@)
}

/// The values of message entries.
pub open spec fn bubble_entry_views(s: Seq<BubbleEntry>) -> Seq<BubbleEntryView> {
    s.map_values(|e: BubbleEntry| e@)
}

/// The id filters of the options, as text.
pub open spec fn filters_of(o: ExtractOptions) -> Option<Seq<Seq<char>>> {
    match o.conversation_ids {
        Some(v) => Some(texts(v@)),
        None => None,
    }
}

/// Whether an id matches one of the filters, as a prefix or anywhere in it.
pub open spec fn matches_filters(id: Seq<char>, fs: Seq<Seq<char>>) -> bool {
    exists|k: int| 0 <= k < fs.len() && (has_prefix(id, #[trigger] fs[k]) || contains_text(id, fs[k]))
}

/// Whether an id passes the optional filters.
pub open spec fn passes(id: Seq<char>, filters: Option<Seq<Seq<char>>>) -> bool {
    match filters {
        Some(fs) => matches_filters(id, fs),
        None => true,
    }
}

/// Whether `id` matches one of the filters (partial match).
pub fn matches_any_filter(id: &str, filters: &Vec<String>) -> (r: bool)
    ensures
        r == matches_filters(id@, texts(filters@)),
{
    let mut k: usize = 0;
    while k < filters.len()
        invariant
            k <= filters@.len(),
            forall|j: int| 0 <= j < k ==> !(has_prefix(id@, #[trigger] texts(filters@)[j])
                || contains_text(id@, texts(filters@)[j])),
        decreases filters@.len() - k,
    {
        let f = filters[k].as_str();
        if starts_with(id, f) || contains(id, f) {
            assert(texts(filters@)[k as int] == f@);
            return true;
        }
        k = k + 1;
    }
    false
}

fn passes_options(id: &str, options: &ExtractOptions) -> (r: bool)
    ensures
        r == passes(id@, filters_of(*options)),
{
    match &options.conversation_ids {
        Some(fs) => matches_any_filter(id, fs),
        None => true,
    }
}

/// Index of the first conversation with composer id `id`.
pub open spec fn find_from(a: Seq<ConversationView>, id: Seq<char>) -> Option<int>
    decreases a.len(),
{
    if a.len() == 0 {
        None
    } else if a[0].composer_id == id {
        Some(0)
    } else {
        match find_from(a.drop_first(), id) {
            Some(i) => Some(i + 1),
            None => None,
        }
    }
}

proof fn lemma_find_from_bounds(a: Seq<ConversationView>, id: Seq<char>)
    ensures
        find_from(a, id) matches Some(i) ==> 0 <= i < a.len() && a[i].composer_id == id,
    decreases a.len(),
{
    if a.len() > 0 && a[0].composer_id != id {
        lemma_find_from_bounds(a.drop_first(), id);
    }
}

fn same_text(a: &str, b: &str) -> (r: bool)
    ensures
        r == (a@ == b@),
{
    let r = a.unicode_len() == b.unicode_len() && matches_at(a, 0, b);
    proof {
        if a@ == b@ {
            assert(a@.subrange(0, b@.len() as int) =~= a@);
        }
        if r {
            assert(a@.subrange(0, b@.len() as int) =~= a@);
        }
    }
    r
}

fn find_conversation(a: &Vec<Conversation>, id: &str) -> (r: Option<usize>)
    ensures
        match r {
            Some(j) => find_from(conversation_views(a@), id@) == Some(j as int),
            None => find_from(conversation_views(a@), id@).is_none(),
        },
{
    let ghost all = conversation_views(a@);
    let mut i: usize = 0;
    proof {
        assert(all.subrange(0, all.len() as int) =~= all);
    }
    while i < a.len()
        invariant
            all == conversation_views(a@),
            i <= a@.len(),
            find_from(all, id@) == match find_from(all.subrange(i as int, all.len() as int), id@) {
                Some(j) => Some(j + i),
                None => None,
            },
        decreases a@.len() - i,
    {
        let ghost rest = all.subrange(i as int, all.len() as int);
        if same_text(a[i].composer_id.as_str(), id) {
            assert(rest[0] == all[i as int]);
            assert(find_from(rest, id@) == Some(0int));
            return Some(i);
        }
        proof {
            assert(rest.drop_first() =~= all.subrange(i + 1, all.len() as int));
        }
        i = i + 1;
    }
    None
}

/// The conversations after reading one metadata entry: a readable entry
/// that passes the filters opens its conversation, or replaces the one with
/// the same id.
pub open spec fn add_composer(
    a: Seq<ConversationView>,
    e: ComposerEntryView,
    filters: Option<Seq<Seq<char>>>,
) -> Seq<ConversationView> {
    match composer_id_of_key(e.key) {
        Some(id) => if passes(id, filters) {
            match e.composer {
                Some(r) => {
                    let c = conversation_of_composer(id, r);
                    match find_from(a, id) {
                        Some(i) => a.update(i, c),
                        None => a.push(c),
                    }
                },
                None => a,
            }
        } else {
            a
        },
        None => a,
    }
}

/// The conversations that the metadata entries open, in order of discovery.
pub open spec fn arena_of_composers(
    es: Seq<ComposerEntryView>,
    filters: Option<Seq<Seq<char>>>,
) -> Seq<ConversationView>
    decreases es.len(),
{
    if es.len() == 0 {
        Seq::empty()
    } else {
        add_composer(arena_of_composers(es.drop_last(), filters), es.last(), filters)
    }
}

/// The composer id and the message that an entry contributes, if any: its
/// key must name a conversation that passes the filters, its payload must
/// be readable, and its text not blank unless blank messages are kept.
pub open spec fn accepted_bubble(e: BubbleEntryView, o: ExtractOptions) -> Option<(Seq<char>, BubbleView)> {
    match conversation_id_of_key(e.key) {
        Some(cid) => if passes(cid, filters_of(o)) {
            match e.bubble {
                Some(r) => {
                    let b = bubble_of_raw(r);
                    if !o.include_empty && is_blank(b.text) {
                        None
                    } else {
                        Some((cid, b))
                    }
                },
                None => None,
            }
        } else {
            None
        },
        None => None,
    }
}

/// The conversations after attaching a message: to its conversation, or to
/// a placeholder conversation created for it.
pub open spec fn add_bubble(a: Seq<ConversationView>, cid: Seq<char>, b: BubbleView) -> Seq<ConversationView> {
    match find_from(a, cid) {
        Some(i) => a.update(i, ConversationView { bubbles: a[i].bubbles.push(b), ..a[i] }),
        None => a.push(ConversationView { bubbles: seq![b], ..orphan_of(cid, b.created_at) }),
    }
}

/// The conversations after attaching the messages of the entries, in order.
pub open spec fn arena_of_bubbles(
    a: Seq<ConversationView>,
    es: Seq<BubbleEntryView>,
    o: ExtractOptions,
) -> Seq<ConversationView>
    decreases es.len(),
{
    if es.len() == 0 {
        a
    } else {
        let prev = arena_of_bubbles(a, es.drop_last(), o);
        match accepted_bubble(es.last(), o) {
            Some((cid, b)) => add_bubble(prev, cid, b),
            None => prev,
        }
    }
}

/// A conversation with its messages in time order and its derived title.
pub open spec fn finished(c: ConversationView) -> ConversationView {
    let bs = sorted_by_time(c.bubbles);
    ConversationView { bubbles: bs, title: title_of(bs), ..c }
}

/// The finished conversations that have at least `min` messages.
pub open spec fn kept(a: Seq<ConversationView>, min: nat) -> Seq<ConversationView>
    decreases a.len(),
{
    if a.len() == 0 {
        Seq::empty()
    } else {
        let r = kept(a.drop_last(), min);
        if a.last().bubbles.len() >= min {
            r.push(finished(a.last()))
        } else {
            r
        }
    }
}

/// The conversations an extraction yields, newest first.
pub open spec fn extracted(
    cs: Seq<ComposerEntryView>,
    bs: Seq<BubbleEntryView>,
    o: ExtractOptions,
) -> Seq<ConversationView> {
    sorted_newest_first(
        kept(arena_of_bubbles(arena_of_composers(cs, filters_of(o)), bs, o), o.min_messages as nat),
    )
}

/// The workspace hints of an accepted message entry: its composer id, the
/// workspace URI it names, and the origin's project directory, when the
/// entry is accepted and names a workspace.
pub open spec fn entry_workspace(e: BubbleEntryView, o: ExtractOptions) -> Option<(Seq<char>, Seq<char>, Option<Seq<char>>)> {
    match accepted_bubble(e, o) {
        Some((cid, _)) => match e.bubble {
            Some(r) => match r.workspace_uri {
                Some(u) => Some((cid, u, r.workspace_project_dir)),
                None => None,
            },
            None => None,
        },
        None => None,
    }
}

/// The workspace hints of a message entry that the extraction accepts.
pub fn accepted_entry_workspace(e: &BubbleEntry, options: &ExtractOptions) -> (r: Option<(String, String, Option<String>)>)
    ensures
        match (entry_workspace(e@, *options), r) {
            (Some((cid, u, d)), Some((a, b, c))) => a@ == cid && b@ == u && opt_text(c) == d,
            (None, None) => true,
            _ => false,
        },
{
    match extract_conversation_id(e.key.as_str()) {
        Some(cid) => {
            if !passes_options(cid, options) {
                return None;
            }
            match &e.bubble {
                Some(raw) => {
                    if !options.include_empty && blank(raw.text.as_str()) {
                        return None;
                    }
                    match &raw.workspace_uri {
                        Some(u) => Some((cid.to_owned(), u.clone(), match &raw.workspace_project_dir {
                            Some(d) => Some(d.clone()),
                            None => None,
                        })),
                        None => None,
                    }
                },
                None => None,
            }
        },
        None => None,
    }
}

/// A workspace hint: composer id, workspace URI, origin project directory.
pub type HintView = (Seq<char>, Seq<char>, Option<Seq<char>>);

/// Index of the hint for composer id `id`.
pub open spec fn hint_index(h: Seq<HintView>, id: Seq<char>) -> Option<int>
    decreases h.len(),
{
    if h.len() == 0 {
        None
    } else if h[0].0 == id {
        Some(0)
    } else {
        match hint_index(h.drop_first(), id) {
            Some(i) => Some(i + 1),
            None => None,
        }
    }
}

/// The hints after reading one entry: a later hint for a conversation
/// replaces the earlier one in place.
pub open spec fn add_hint(h: Seq<HintView>, e: BubbleEntryView, o: ExtractOptions) -> Seq<HintView> {
    match entry_workspace(e, o) {
        Some(x) => match hint_index(h, x.0) {
            Some(i) => h.update(i, x),
            None => h.push(x),
        },
        None => h,
    }
}

/// One workspace hint per conversation, the last one its messages give, in
/// order of first appearance.
pub open spec fn hints_of(es: Seq<BubbleEntryView>, o: ExtractOptions) -> Seq<HintView>
    decreases es.len(),
{
    if es.len() == 0 {
        Seq::empty()
    } else {
        add_hint(hints_of(es.drop_last(), o), es.last(), o)
    }
}

/// The value of a hint.
pub open spec fn hint_view(x: (String, String, Option<String>)) -> HintView {
    (x.0@, x.1@, opt_text(x.2))
}

/// The values of hints.
pub open spec fn hint_views(s: Seq<(String, String, Option<String>)>) -> Seq<HintView> {
    s.map_values(|x: (String, String, Option<String>)| hint_view(x))
}

proof fn lemma_hint_index_bounds(h: Seq<HintView>, id: Seq<char>)
    ensures
        hint_index(h, id) matches Some(i) ==> 0 <= i < h.len() && h[i].0 == id,
    decreases h.len(),
{
    if h.len() > 0 && h[0].0 != id {
        lemma_hint_index_bounds(h.drop_first(), id);
    }
}

fn find_hint(h: &Vec<(String, String, Option<String>)>, id: &str) -> (r: Option<usize>)
    ensures
        match r {
            Some(j) => hint_index(hint_views(h@), id@) == Some(j as int),
            None => hint_index(hint_views(h@), id@).is_none(),
        },
{
    let ghost all = hint_views(h@);
    let mut i: usize = 0;
    proof {
        assert(all.subrange(0, all.len() as int) =~= all);
    }
    while i < h.len()
        invariant
            all == hint_views(h@),
            i <= h@.len(),
            hint_index(all, id@) == match hint_index(all.subrange(i as int, all.len() as int), id@) {
                Some(j) => Some(j + i),
                None => None,
            },
        decreases h@.len() - i,
    {
        let ghost rest = all.subrange(i as int, all.len() as int);
        if same_text(h[i].0.as_str(), id) {
            assert(rest[0] == all[i as int]);
            assert(hint_index(rest, id@) == Some(0int));
            return Some(i);
        }
        proof {
            assert(rest.drop_first() =~= all.subrange(i + 1, all.len() as int));
        }
        i = i + 1;
    }
    None
}

/// One workspace hint per conversation: for each composer id whose accepted
/// messages name a workspace, the hint of the last such message.
pub fn workspace_hints(bubbles: &Vec<BubbleEntry>, options: &ExtractOptions) -> (r: Vec<(String, String, Option<String>)>)
    ensures
        hint_views(r@) == hints_of(bubble_entry_views(bubbles@), *options),
{
    let ghost es = bubble_entry_views(bubbles@);
    let mut out: Vec<(String, String, Option<String>)> = Vec::new();
    let mut i: usize = 0;
    proof {
        assert(es.subrange(0, 0) =~= Seq::<BubbleEntryView>::empty());
        assert(hint_views(out@) =~= Seq::<HintView>::empty());
    }
    while i < bubbles.len()
        invariant
            es == bubble_entry_views(bubbles@),
            i <= bubbles@.len(),
            hint_views(out@) == hints_of(es.subrange(0, i as int), *options),
        decreases bubbles@.len() - i,
    {
        let ghost prev = hint_views(out@);
        proof {
            assert(es.subrange(0, i + 1).drop_last() =~= es.subrange(0, i as int));
            assert(es.subrange(0, i + 1).last() == bubbles@[i as int]@);
        }
        match accepted_entry_workspace(&bubbles[i], options) {
            Some(x) => {
                let ghost xv = hint_view(x);
                match find_hint(&out, x.0.as_str()) {
                    Some(j) => {
                        proof {
                            lemma_hint_index_bounds(prev, xv.0);
                        }
                        out.set(j, x);
                        proof {
                            assert(hint_views(out@) =~= prev.update(j as int, xv));
                        }
                    },
                    None => {
                        out.push(x);
                        proof {
                            assert(hint_views(out@) =~= prev.push(xv));
                        }
                    },
                }
            },
            None => {},
        }
        i = i + 1;
    }
    proof {
        assert(es.subrange(0, i as int) =~= es);
    }
    out
}

/// Number of accepted messages among the entries, of type `t` when given.
pub open spec fn accepted_count(es: Seq<BubbleEntryView>, o: ExtractOptions, t: Option<BubbleType>) -> nat
    decreases es.len(),
{
    if es.len() == 0 {
        0
    } else {
        accepted_count(es.drop_last(), o, t) + match accepted_bubble(es.last(), o) {
            Some((_, b)) => if t is None || t == Some(b.bubble_type) {
                1nat
            } else {
                0nat
            },
            None => 0nat,
        }
    }
}

proof fn lemma_accepted_count_bounded(es: Seq<BubbleEntryView>, o: ExtractOptions, t: Option<BubbleType>)
    ensures
        accepted_count(es, o, t) <= es.len(),
    decreases es.len(),
{
    if es.len() > 0 {
        lemma_accepted_count_bounded(es.drop_last(), o, t);
    }
}

fn read_composers(
    composers: &Vec<ComposerEntry>,
    options: &ExtractOptions,
) -> (arena: Vec<Conversation>)
    ensures
        conversation_views(arena@) == arena_of_composers(
            composer_entry_views(composers@),
            filters_of(*options),
        ),
{
    let ghost es = composer_entry_views(composers@);
    let ghost fs = filters_of(*options);
    let mut arena: Vec<Conversation> = Vec::new();
    let mut i: usize = 0;
    proof {
        assert(es.subrange(0, 0) =~= Seq::<ComposerEntryView>::empty());
        assert(conversation_views(arena@) =~= Seq::<ConversationView>::empty());
    }
    while i < composers.len()
        invariant
            es == composer_entry_views(composers@),
            fs == filters_of(*options),
            i <= composers@.len(),
            conversation_views(arena@) == arena_of_composers(es.subrange(0, i as int), fs),
        decreases composers@.len() - i,
    {
        let ghost prev = conversation_views(arena@);
        proof {
            assert(es.subrange(0, i + 1).drop_last() =~= es.subrange(0, i as int));
            assert(es.subrange(0, i + 1).last() == composers@[i as int]@);
        }
        let e = &composers[i];
        assert(e@ == es[i as int]);
        match extract_composer_id(e.key.as_str()) {
            Some(id) => {
                if passes_options(id, options) {
                    match &e.composer {
                        Some(raw) => {
                            assert(es[i as int].composer == Some(raw@));
                            let c = conversation_from_composer(id, raw);
                            match find_conversation(&arena, id) {
                                Some(j) => {
                                    proof {
                                        lemma_find_from_bounds(prev, id@);
                                        assert(find_from(prev, id@) == Some(j as int));
                                    }
                                    arena.set(j, c);
                                    proof {
                                        assert(conversation_views(arena@) =~= prev.update(j as int, c@));
                                    }
                                    assert(conversation_views(arena@) == add_composer(prev, es[i as int], fs));
                                },
                                None => {
                                    arena.push(c);
                                    proof {
                                        assert(conversation_views(arena@) =~= prev.push(c@));
                                    }
                                    assert(conversation_views(arena@) == add_composer(prev, es[i as int], fs));
                                },
                            }
                        },
                        None => {},
                    }
                }
            },
            None => {},
        }
        assert(conversation_views(arena@) == add_composer(prev, es[i as int], fs));
        i = i + 1;
    }
    proof {
        assert(es.subrange(0, i as int) =~= es);
    }
    arena
}

fn read_bubbles(
    arena: Vec<Conversation>,
    bubbles: &Vec<BubbleEntry>,
    options: &ExtractOptions,
) -> (r: (Vec<Conversation>, usize, usize, usize))
    ensures
        conversation_views(r.0@) == arena_of_bubbles(
            conversation_views(arena@),
            bubble_entry_views(bubbles@),
            *options,
        ),
        r.1 == accepted_count(bubble_entry_views(bubbles@), *options, None),
        r.2 == accepted_count(bubble_entry_views(bubbles@), *options, Some(BubbleType::User)),
        r.3 == accepted_count(bubble_entry_views(bubbles@), *options, Some(BubbleType::Assistant)),
{
    let ghost es = bubble_entry_views(bubbles@);
    let ghost start = conversation_views(arena@);
    let mut arena = arena;
    let mut total: usize = 0;
    let mut users: usize = 0;
    let mut assistants: usize = 0;
    let mut i: usize = 0;
    proof {
        assert(es.subrange(0, 0) =~= Seq::<BubbleEntryView>::empty());
    }
    while i < bubbles.len()
        invariant
            es == bubble_entry_views(bubbles@),
            i <= bubbles@.len(),
            conversation_views(arena@) == arena_of_bubbles(start, es.subrange(0, i as int), *options),
            total == accepted_count(es.subrange(0, i as int), *options, None),
            users == accepted_count(es.subrange(0, i as int), *options, Some(BubbleType::User)),
            assistants == accepted_count(es.subrange(0, i as int), *options, Some(BubbleType::Assistant)),
        decreases bubbles@.len() - i,
    {
        let ghost prev = conversation_views(arena@);
        proof {
            assert(es.subrange(0, i + 1).drop_last() =~= es.subrange(0, i as int));
            lemma_accepted_count_bounded(es.subrange(0, i as int), *options, None);
            lemma_accepted_count_bounded(es.subrange(0, i as int), *options, Some(BubbleType::User));
            lemma_accepted_count_bounded(es.subrange(0, i as int), *options, Some(BubbleType::Assistant));
        }
        let e = &bubbles[i];
        assert(e@ == es[i as int]);
        match extract_conversation_id(e.key.as_str()) {
            Some(cid) => {
                if passes_options(cid, options) {
                    match &e.bubble {
                        Some(raw) => {
                            assert(es[i as int].bubble == Some(raw@));
                            let b = bubble_from_raw(raw);
                            if options.include_empty || !blank(b.text.as_str()) {
                                total = total + 1;
                                match b.bubble_type {
                                    BubbleType::User => {
                                        users = users + 1;
                                    },
                                    BubbleType::Assistant => {
                                        assistants = assistants + 1;
                                    },
                                    BubbleType::Unknown => {},
                                }
                                let ghost bv = b@;
                                match find_conversation(&arena, cid) {
                                    Some(j) => {
                                        proof {
                                            lemma_find_from_bounds(prev, cid@);
                                        }
                                        let mut c = arena.remove(j);
                                        c.bubbles.push(b);
                                        arena.insert(j, c);
                                        proof {
                                            assert(bubble_views(c.bubbles@) =~= prev[j as int].bubbles.push(bv));
                                            assert(conversation_views(arena@) =~= prev.update(
                                                j as int,
                                                ConversationView { bubbles: prev[j as int].bubbles.push(bv), ..prev[j as int] },
                                            ));
                                        }
                                    },
                                    None => {
                                        let mut c = orphan_conversation(cid, b.created_at);
                                        c.bubbles.push(b);
                                        arena.push(c);
                                        proof {
                                            assert(bubble_views(c.bubbles@) =~= seq![bv]);
                                            assert(conversation_views(arena@) =~= prev.push(
                                                ConversationView { bubbles: seq![bv], ..orphan_of(cid@, bv.created_at) },
                                            ));
                                        }
                                    },
                                }
                            }
                        },
                        None => {},
                    }
                }
            },
            None => {},
        }
        i = i + 1;
    }
    proof {
        assert(es.subrange(0, i as int) =~= es);
    }
    (arena, total, users, assistants)
}

fn finish_all(arena: Vec<Conversation>, min: usize) -> (r: Vec<Conversation>)
    ensures
        conversation_views(r@) == kept(conversation_views(arena@), min as nat),
{
    let ghost orig = conversation_views(arena@);
    let n = arena.len();
    let mut input = arena;
    let mut out: Vec<Conversation> = Vec::new();
    let mut k: usize = 0;
    proof {
        assert(orig.subrange(0, 0) =~= Seq::<ConversationView>::empty());
        assert(conversation_views(out@) =~= Seq::<ConversationView>::empty());
        assert(conversation_views(input@) =~= orig.subrange(0, n as int));
    }
    while input.len() > 0
        invariant
            orig.len() == n,
            k + input@.len() == n,
            conversation_views(out@) == kept(orig.subrange(0, k as int), min as nat),
            conversation_views(input@) == orig.subrange(k as int, n as int),
        decreases input@.len(),
    {
        let ghost before = conversation_views(out@);
        let ghost in_before = input@;
        let c = input.remove(0);
        proof {
            assert(input@ =~= in_before.subrange(1, in_before.len() as int));
            assert(conversation_views(in_before)[0] == orig.subrange(k as int, n as int)[0]);
            assert forall|j: int| 0 <= j < input@.len() implies #[trigger] conversation_views(input@)[j]
                == orig.subrange(k + 1, n as int)[j] by {
                assert(conversation_views(input@)[j] == conversation_views(in_before)[j + 1]);
            }
            assert(conversation_views(input@) =~= orig.subrange(k + 1, n as int));
            assert(orig.subrange(0, k + 1).drop_last() =~= orig.subrange(0, k as int));
        }
        if c.bubbles.len() >= min {
            let ghost cv = c@;
            let Conversation { composer_id, title: _, created_at, model_config, unified_mode, bubbles } = c;
            let sorted = sort_bubbles(bubbles);
            let mut f = Conversation {
                composer_id,
                title: String::new(),
                created_at,
                model_config,
                unified_mode,
                bubbles: sorted,
            };
            let t = f.generate_title();
            f.title = t;
            proof {
                assert(f@ == finished(cv));
            }
            out.push(f);
            proof {
                assert(conversation_views(out@) =~= before.push(finished(cv)));
            }
        }
        k = k + 1;
    }
    proof {
        assert(orig.subrange(0, n as int) =~= orig);
    }
    out
}

/// Builds the conversations that the entries of the origin store hold, newest
/// first, each with its messages in time order and a derived title, and the
/// counts of the extraction (the scanned store count is left at zero for the
/// caller to set).
pub fn extract_conversations(
    composers: &Vec<ComposerEntry>,
    bubbles: &Vec<BubbleEntry>,
    options: &ExtractOptions,
) -> (r: (Vec<Conversation>, ExtractionStats))
    ensures
        conversation_views(r.0@) == extracted(
            composer_entry_views(composers@),
            bubble_entry_views(bubbles@),
            *options,
        ),
        r.1.conversation_count == r.0@.len(),
        r.1.total_bubbles == accepted_count(bubble_entry_views(bubbles@), *options, None),
        r.1.user_messages == accepted_count(
            bubble_entry_views(bubbles@),
            *options,
            Some(BubbleType::User),
        ),
        r.1.assistant_messages == accepted_count(
            bubble_entry_views(bubbles@),
            *options,
            Some(BubbleType::Assistant),
        ),
        r.1.databases_scanned == 0,
{
    let arena = read_composers(composers, options);
    let (arena, total, users, assistants) = read_bubbles(arena, bubbles, options);
    let kept_convs = finish_all(arena, options.min_messages);
    let convs = sort_conversations(kept_convs);
    let stats = ExtractionStats {
        conversation_count: convs.len(),
        total_bubbles: total,
        user_messages: users,
        assistant_messages: assistants,
        databases_scanned: 0,
    };
    (convs, stats)
}

proof fn lemma_composers_skip_unreadable(
    s1: Seq<ComposerEntryView>,
    bad: ComposerEntryView,
    s2: Seq<ComposerEntryView>,
    filters: Option<Seq<Seq<char>>>,
)
    requires
        bad.composer is None,
    ensures
        arena_of_composers(s1 + seq![bad] + s2, filters) == arena_of_composers(s1 + s2, filters),
    decreases s2.len(),
{
    if s2.len() == 0 {
        assert(s1 + seq![bad] + s2 =~= (s1 + seq![bad]));
        assert((s1 + seq![bad]).drop_last() =~= s1);
        assert(s1 + s2 =~= s1);
    } else {
        lemma_composers_skip_unreadable(s1, bad, s2.drop_last(), filters);
        assert((s1 + seq![bad] + s2).drop_last() =~= s1 + seq![bad] + s2.drop_last());
        assert((s1 + s2).drop_last() =~= s1 + s2.drop_last());
    }
}

/// An unreadable metadata entry is skipped alone: the extraction is the one
/// without that entry, whatever the other entries hold.
pub proof fn lemma_unreadable_composer_skipped(
    s1: Seq<ComposerEntryView>,
    bad: ComposerEntryView,
    s2: Seq<ComposerEntryView>,
    bs: Seq<BubbleEntryView>,
    o: ExtractOptions,
)
    requires
        bad.composer is None,
    ensures
        extracted(s1 + seq![bad] + s2, bs, o) == extracted(s1 + s2, bs, o),
{
    lemma_composers_skip_unreadable(s1, bad, s2, filters_of(o));
}

proof fn lemma_bubbles_skip_unreadable(
    a: Seq<ConversationView>,
    s1: Seq<BubbleEntryView>,
    bad: BubbleEntryView,
    s2: Seq<BubbleEntryView>,
    o: ExtractOptions,
)
    requires
        bad.bubble is None,
    ensures
        arena_of_bubbles(a, s1 + seq![bad] + s2, o) == arena_of_bubbles(a, s1 + s2, o),
    decreases s2.len(),
{
    if s2.len() == 0 {
        assert(s1 + seq![bad] + s2 =~= (s1 + seq![bad]));
        assert((s1 + seq![bad]).drop_last() =~= s1);
        assert(s1 + s2 =~= s1);
    } else {
        lemma_bubbles_skip_unreadable(a, s1, bad, s2.drop_last(), o);
        assert((s1 + seq![bad] + s2).drop_last() =~= s1 + seq![bad] + s2.drop_last());
        assert((s1 + s2).drop_last() =~= s1 + s2.drop_last());
    }
}

/// An unreadable message entry is skipped alone: the conversations are the
/// ones extracted without that entry.
pub proof fn lemma_unreadable_bubble_skipped(
    cs: Seq<ComposerEntryView>,
    s1: Seq<BubbleEntryView>,
    bad: BubbleEntryView,
    s2: Seq<BubbleEntryView>,
    o: ExtractOptions,
)
    requires
        bad.bubble is None,
    ensures
        extracted(cs, s1 + seq![bad] + s2, o) == extracted(cs, s1 + s2, o),
{
    lemma_bubbles_skip_unreadable(arena_of_composers(cs, filters_of(o)), s1, bad, s2, o);
}

proof fn lemma_sorted_newest_first_keeps(s: Seq<ConversationView>, x: ConversationView)
    requires
        s.contains(x),
    ensures
        sorted_newest_first(s).contains(x),
    decreases s.len(),
{
    let r = sorted_newest_first(s.drop_last());
    let p = crate::order::desc_position(r, s.last().created_at);
    lemma_desc_position_in_range(r, s.last().created_at);
    if s.last() == x {
        assert(r.insert(p, s.last())[p] == x);
    } else {
        let w = choose|w: int| 0 <= w < s.len() && s[w] == x;
        assert(w < s.len() - 1);
        assert(s.drop_last()[w] == x);
        lemma_sorted_newest_first_keeps(s.drop_last(), x);
        let v = choose|v: int| 0 <= v < r.len() && r[v] == x;
        if v < p {
            assert(r.insert(p, s.last())[v] == x);
        } else {
            assert(r.insert(p, s.last())[v + 1] == x);
        }
    }
}

proof fn lemma_desc_position_in_range(s: Seq<ConversationView>, t: Option<i64>)
    ensures
        0 <= crate::order::desc_position(s, t) <= s.len(),
    decreases s.len(),
{
    if s.len() > 0 && !crate::order::time_lt(s[0].created_at, t) {
        lemma_desc_position_in_range(s.drop_first(), t);
    }
}

/// The composer id of an accepted message entry.
pub open spec fn accepted_id(e: BubbleEntryView, o: ExtractOptions) -> Seq<char> {
    match accepted_bubble(e, o) {
        Some((cid, _)) => cid,
        None => Seq::empty(),
    }
}

/// The message of an accepted message entry.
pub open spec fn accepted_message(e: BubbleEntryView, o: ExtractOptions) -> BubbleView {
    match accepted_bubble(e, o) {
        Some((_, b)) => b,
        None => arbitrary(),
    }
}

/// The conversation synthesised for a message whose metadata is missing.
pub open spec fn orphan_with(cid: Seq<char>, b: BubbleView) -> ConversationView {
    ConversationView {
        composer_id: cid,
        title: title_of(seq![b]),
        created_at: b.created_at,
        model_name: Seq::empty(),
        max_mode: false,
        unified_mode: Seq::empty(),
        bubbles: seq![b],
    }
}

/// The placeholder conversation made for message `b` of conversation `cid`,
/// before it is finished.
pub open spec fn orphan_arena_entry(cid: Seq<char>, b: BubbleView) -> ConversationView {
    ConversationView { bubbles: seq![b], ..orphan_of(cid, b.created_at) }
}

/// Whether no conversation of `a` has composer id `id`.
pub open spec fn lacks_id(a: Seq<ConversationView>, id: Seq<char>) -> bool {
    forall|j: int| 0 <= j < a.len() ==> (#[trigger] a[j]).composer_id != id
}

/// Whether `a` holds `x` at one place and no other conversation with its id.
pub open spec fn holds_alone(a: Seq<ConversationView>, x: ConversationView) -> bool {
    exists|p: int| 0 <= p < a.len() && #[trigger] a[p] == x && (forall|j: int| 0 <= j < a.len() && j != p ==> (#[trigger] a[j]).composer_id != x.composer_id)
}

/// Whether message entry `k` is the only accepted entry for its conversation.
pub open spec fn only_message_of_its_conversation(bs: Seq<BubbleEntryView>, k: int, o: ExtractOptions) -> bool {
    forall|i: int| 0 <= i < bs.len() && i != k && accepted_bubble(#[trigger] bs[i], o) is Some ==> accepted_id(bs[i], o) != accepted_id(bs[k], o)
}

proof fn lemma_orphan_prefix(a: Seq<ConversationView>, bs: Seq<BubbleEntryView>, k: int, o: ExtractOptions, n: int)
    requires
        0 <= k < bs.len(),
        0 <= n <= bs.len(),
        accepted_bubble(bs[k], o) is Some,
        lacks_id(a, accepted_id(bs[k], o)),
        only_message_of_its_conversation(bs, k, o),
    ensures
        n <= k ==> lacks_id(arena_of_bubbles(a, bs.subrange(0, n), o), accepted_id(bs[k], o)),
        n > k ==> holds_alone(
            arena_of_bubbles(a, bs.subrange(0, n), o),
            orphan_arena_entry(accepted_id(bs[k], o), accepted_message(bs[k], o)),
        ),
    decreases n,
{
    let cid = accepted_id(bs[k], o);
    let x = orphan_arena_entry(cid, accepted_message(bs[k], o));
    if n == 0 {
        assert(bs.subrange(0, 0) =~= Seq::<BubbleEntryView>::empty());
    } else {
        lemma_orphan_prefix(a, bs, k, o, n - 1);
        let es = bs.subrange(0, n);
        assert(es.drop_last() =~= bs.subrange(0, n - 1));
        assert(es.last() == bs[n - 1]);
        let prev = arena_of_bubbles(a, bs.subrange(0, n - 1), o);
        let r = arena_of_bubbles(a, es, o);
        let e = bs[n - 1];
        if accepted_bubble(e, o) is Some {
            lemma_accepted_parts(e, o);
            let c2 = accepted_id(e, o);
            let b2 = accepted_message(e, o);
            assert(r == add_bubble(prev, c2, b2));
            if n - 1 == k {
                lemma_find_from_absent(prev, cid);
                assert(r == prev.push(x));
                assert(r[prev.len() as int] == x);
                assert forall|j: int| 0 <= j < r.len() && j != prev.len() implies (#[trigger] r[j]).composer_id != x.composer_id by {
                    assert(r[j] == prev[j]);
                }
            } else {
                assert(c2 != cid);
                match find_from(prev, c2) {
                    Some(i) => {
                        lemma_find_from_bounds(prev, c2);
                        assert forall|j: int| 0 <= j < r.len() implies (#[trigger] r[j]).composer_id == prev[j].composer_id by {}
                        if n - 1 > k {
                            let p = choose|p: int| 0 <= p < prev.len() && #[trigger] prev[p] == x && (forall|j: int| 0 <= j < prev.len() && j != p ==> (#[trigger] prev[j]).composer_id != x.composer_id);
                            assert(p != i);
                            assert(r[p] == x);
                        }
                    },
                    None => {
                        assert(r == prev.push(ConversationView { bubbles: seq![b2], ..orphan_of(c2, b2.created_at) }));
                        assert forall|j: int| 0 <= j < prev.len() implies (#[trigger] r[j]) == prev[j] by {}
                        if n - 1 > k {
                            let p = choose|p: int| 0 <= p < prev.len() && #[trigger] prev[p] == x && (forall|j: int| 0 <= j < prev.len() && j != p ==> (#[trigger] prev[j]).composer_id != x.composer_id);
                            assert(r[p] == x);
                            assert forall|j: int| 0 <= j < r.len() && j != p implies (#[trigger] r[j]).composer_id != x.composer_id by {
                                if j < prev.len() {
                                    assert(r[j] == prev[j]);
                                }
                            }
                        }
                    },
                }
            }
        } else {
            assert(r == prev);
            assert(n - 1 != k);
        }
    }
}

/// A message whose conversation has no metadata entry is not dropped: when
/// it is the only accepted message of that conversation, the extraction
/// holds a placeholder conversation with exactly that message, its creation
/// time taken from the message, whatever other entries the store holds.
pub proof fn lemma_orphan_bubble_kept(cs: Seq<ComposerEntryView>, bs: Seq<BubbleEntryView>, k: int, o: ExtractOptions)
    requires
        0 <= k < bs.len(),
        accepted_bubble(bs[k], o) is Some,
        find_from(arena_of_composers(cs, filters_of(o)), accepted_id(bs[k], o)) is None,
        only_message_of_its_conversation(bs, k, o),
        o.min_messages <= 1,
    ensures
        extracted(cs, bs, o).contains(orphan_with(accepted_id(bs[k], o), accepted_message(bs[k], o))),
{
    let cid = accepted_id(bs[k], o);
    let b = accepted_message(bs[k], o);
    let a = arena_of_composers(cs, filters_of(o));
    lemma_find_from_none(a, cid);
    lemma_orphan_prefix(a, bs, k, o, bs.len() as int);
    assert(bs.subrange(0, bs.len() as int) =~= bs);
    let a2 = arena_of_bubbles(a, bs, o);
    let orphan = orphan_arena_entry(cid, b);
    let p = choose|p: int| 0 <= p < a2.len() && #[trigger] a2[p] == orphan && (forall|j: int| 0 <= j < a2.len() && j != p ==> (#[trigger] a2[j]).composer_id != orphan.composer_id);
    assert(seq![b].drop_last() =~= Seq::<BubbleView>::empty());
    assert(sorted_by_time(seq![b].drop_last()) == Seq::<BubbleView>::empty());
    assert(crate::order::asc_position(Seq::<BubbleView>::empty(), b.created_at) == 0);
    assert(Seq::<BubbleView>::empty().insert(0, b) =~= seq![b]);
    assert(sorted_by_time(seq![b]) =~= seq![b]);
    assert(finished(orphan) == orphan_with(cid, b));
    lemma_kept_contains(a2, o.min_messages as nat, p);
    lemma_sorted_newest_first_keeps(kept(a2, o.min_messages as nat), orphan_with(cid, b));
}

proof fn lemma_find_from_none(a: Seq<ConversationView>, id: Seq<char>)
    requires
        find_from(a, id) is None,
    ensures
        forall|j: int| 0 <= j < a.len() ==> (#[trigger] a[j]).composer_id != id,
    decreases a.len(),
{
    if a.len() > 0 {
        lemma_find_from_none(a.drop_first(), id);
        assert forall|j: int| 0 <= j < a.len() implies (#[trigger] a[j]).composer_id != id by {
            if j > 0 {
                assert(a[j] == a.drop_first()[j - 1]);
            }
        }
    }
}

proof fn lemma_distinct_update(a: Seq<ConversationView>, i: int, c: ConversationView)
    requires
        distinct_ids(a),
        0 <= i < a.len(),
        c.composer_id == a[i].composer_id,
    ensures
        distinct_ids(a.update(i, c)),
{
    let b = a.update(i, c);
    assert forall|x: int, y: int| 0 <= x < y < b.len() implies b[x].composer_id != b[y].composer_id by {
        assert(b[x].composer_id == a[x].composer_id);
        assert(b[y].composer_id == a[y].composer_id);
    }
}

proof fn lemma_distinct_push(a: Seq<ConversationView>, c: ConversationView)
    requires
        distinct_ids(a),
        forall|j: int| 0 <= j < a.len() ==> (#[trigger] a[j]).composer_id != c.composer_id,
    ensures
        distinct_ids(a.push(c)),
{
    let b = a.push(c);
    assert forall|x: int, y: int| 0 <= x < y < b.len() implies b[x].composer_id != b[y].composer_id by {
        assert(b[x] == a[x]);
        if y < a.len() {
            assert(b[y] == a[y]);
        }
    }
}

proof fn lemma_composers_distinct(es: Seq<ComposerEntryView>, fs: Option<Seq<Seq<char>>>)
    ensures
        distinct_ids(arena_of_composers(es, fs)),
    decreases es.len(),
{
    if es.len() > 0 {
        lemma_composers_distinct(es.drop_last(), fs);
        let a = arena_of_composers(es.drop_last(), fs);
        let e = es.last();
        match composer_id_of_key(e.key) {
            Some(id) => if passes(id, fs) {
                match e.composer {
                    Some(r) => {
                        let c = conversation_of_composer(id, r);
                        match find_from(a, id) {
                            Some(i) => {
                                lemma_find_from_bounds(a, id);
                                lemma_distinct_update(a, i, c);
                            },
                            None => {
                                lemma_find_from_none(a, id);
                                lemma_distinct_push(a, c);
                            },
                        }
                    },
                    None => {},
                }
            },
            None => {},
        }
    }
}

proof fn lemma_bubbles_distinct(a: Seq<ConversationView>, es: Seq<BubbleEntryView>, o: ExtractOptions)
    requires
        distinct_ids(a),
    ensures
        distinct_ids(arena_of_bubbles(a, es, o)),
    decreases es.len(),
{
    if es.len() > 0 {
        lemma_bubbles_distinct(a, es.drop_last(), o);
        let prev = arena_of_bubbles(a, es.drop_last(), o);
        match accepted_bubble(es.last(), o) {
            Some((cid, b)) => match find_from(prev, cid) {
                Some(i) => {
                    lemma_find_from_bounds(prev, cid);
                    lemma_distinct_update(prev, i, ConversationView { bubbles: prev[i].bubbles.push(b), ..prev[i] });
                },
                None => {
                    lemma_find_from_none(prev, cid);
                    lemma_distinct_push(prev, ConversationView { bubbles: seq![b], ..orphan_of(cid, b.created_at) });
                },
            },
            None => {},
        }
    }
}

proof fn lemma_kept_distinct(a: Seq<ConversationView>, min: nat)
    requires
        distinct_ids(a),
    ensures
        distinct_ids(kept(a, min)),
        forall|k: int| 0 <= k < kept(a, min).len() ==> exists|j: int| 0 <= j < a.len() && (#[trigger] kept(a, min)[k]).composer_id == a[j].composer_id,
    decreases a.len(),
{
    if a.len() > 0 {
        let a0 = a.drop_last();
        assert forall|x: int, y: int| 0 <= x < y < a0.len() implies a0[x].composer_id != a0[y].composer_id by {
            assert(a0[x] == a[x]);
            assert(a0[y] == a[y]);
        }
        lemma_kept_distinct(a0, min);
        let r = kept(a0, min);
        assert forall|k: int| 0 <= k < r.len() implies exists|j: int| 0 <= j < a.len() && (#[trigger] r[k]).composer_id == a[j].composer_id by {
            let j = choose|j: int| 0 <= j < a0.len() && r[k].composer_id == a0[j].composer_id;
            assert(a0[j] == a[j]);
        }
        if a.last().bubbles.len() >= min {
            let x = finished(a.last());
            assert forall|j: int| 0 <= j < r.len() implies (#[trigger] r[j]).composer_id != x.composer_id by {
                let w = choose|w: int| 0 <= w < a0.len() && r[j].composer_id == a0[w].composer_id;
                assert(a0[w] == a[w]);
                assert(a[w].composer_id != a[a.len() - 1].composer_id);
            }
            lemma_distinct_push(r, x);
            let k2 = r.push(x);
            assert forall|k: int| 0 <= k < k2.len() implies exists|j: int| 0 <= j < a.len() && (#[trigger] k2[k]).composer_id == a[j].composer_id by {
                if k < r.len() {
                    assert(k2[k] == r[k]);
                } else {
                    assert(k2[k].composer_id == a[a.len() - 1].composer_id);
                }
            }
        }
    }
}

proof fn lemma_sorted_distinct(s: Seq<ConversationView>)
    requires
        distinct_ids(s),
    ensures
        distinct_ids(sorted_newest_first(s)),
        sorted_newest_first(s).len() == s.len(),
        forall|k: int| 0 <= k < sorted_newest_first(s).len() ==> exists|j: int| 0 <= j < s.len() && (#[trigger] sorted_newest_first(s)[k]).composer_id == s[j].composer_id,
    decreases s.len(),
{
    if s.len() > 0 {
        let s0 = s.drop_last();
        assert forall|x: int, y: int| 0 <= x < y < s0.len() implies s0[x].composer_id != s0[y].composer_id by {
            assert(s0[x] == s[x]);
            assert(s0[y] == s[y]);
        }
        lemma_sorted_distinct(s0);
        let r = sorted_newest_first(s0);
        let x = s.last();
        let p = crate::order::desc_position(r, x.created_at);
        crate::order::lemma_desc_position_bounds(r, x.created_at);
        let t = r.insert(p, x);
        assert(t == sorted_newest_first(s));
        assert forall|j: int| 0 <= j < r.len() implies (#[trigger] r[j]).composer_id != x.composer_id by {
            let w = choose|w: int| 0 <= w < s0.len() && r[j].composer_id == s0[w].composer_id;
            assert(s0[w] == s[w]);
            assert(s[w].composer_id != s[s.len() - 1].composer_id);
        }
        assert forall|a: int, b: int| 0 <= a < b < t.len() implies t[a].composer_id != t[b].composer_id by {
            if a < p {
                assert(t[a] == r[a]);
                if b < p {
                    assert(t[b] == r[b]);
                } else if b == p {
                    assert(t[b] == x);
                } else {
                    assert(t[b] == r[b - 1]);
                }
            } else if a == p {
                assert(t[a] == x);
                assert(t[b] == r[b - 1]);
            } else {
                assert(t[a] == r[a - 1]);
                assert(t[b] == r[b - 1]);
            }
        }
        assert forall|k: int| 0 <= k < t.len() implies exists|j: int| 0 <= j < s.len() && (#[trigger] t[k]).composer_id == s[j].composer_id by {
            if k < p {
                assert(t[k] == r[k]);
                let w = choose|w: int| 0 <= w < s0.len() && r[k].composer_id == s0[w].composer_id;
                assert(s0[w] == s[w]);
            } else if k == p {
                assert(t[k] == s[s.len() - 1]);
            } else {
                assert(t[k] == r[k - 1]);
                let w = choose|w: int| 0 <= w < s0.len() && r[k - 1].composer_id == s0[w].composer_id;
                assert(s0[w] == s[w]);
            }
        }
    }
}

/// No two extracted conversations share a composer id: each id opens one
/// conversation, and later entries with that id amend it.
pub proof fn lemma_extracted_distinct_ids(cs: Seq<ComposerEntryView>, bs: Seq<BubbleEntryView>, o: ExtractOptions)
    ensures
        distinct_ids(extracted(cs, bs, o)),
{
    lemma_composers_distinct(cs, filters_of(o));
    let a = arena_of_composers(cs, filters_of(o));
    lemma_bubbles_distinct(a, bs, o);
    let b = arena_of_bubbles(a, bs, o);
    lemma_kept_distinct(b, o.min_messages as nat);
    lemma_sorted_distinct(kept(b, o.min_messages as nat));
}

proof fn lemma_find_from_absent(a: Seq<ConversationView>, id: Seq<char>)
    requires
        forall|j: int| 0 <= j < a.len() ==> (#[trigger] a[j]).composer_id != id,
    ensures
        find_from(a, id) is None,
    decreases a.len(),
{
    if a.len() > 0 {
        assert(a[0].composer_id != id);
        assert forall|j: int| 0 <= j < a.drop_first().len() implies (#[trigger] a.drop_first()[j]).composer_id != id by {
            assert(a.drop_first()[j] == a[j + 1]);
        }
        lemma_find_from_absent(a.drop_first(), id);
    }
}

/// Whether every metadata entry is readable, under a metadata key, and
/// names a composer id of its own.
pub open spec fn valid_distinct_composers(cs: Seq<ComposerEntryView>) -> bool {
    &&& forall|i: int| 0 <= i < cs.len() ==> (#[trigger] cs[i]).composer is Some && composer_id_of_key(cs[i].key) is Some
    &&& forall|i: int, j: int| 0 <= i < j < cs.len() ==> composer_id_of_key(cs[i].key) != composer_id_of_key(cs[j].key)
}

proof fn lemma_valid_composers_arena(cs: Seq<ComposerEntryView>)
    requires
        valid_distinct_composers(cs),
    ensures
        arena_of_composers(cs, None).len() == cs.len(),
        forall|k: int| 0 <= k < cs.len() ==> Some((#[trigger] arena_of_composers(cs, None)[k]).composer_id) == composer_id_of_key(cs[k].key),
    decreases cs.len(),
{
    if cs.len() > 0 {
        let c0 = cs.drop_last();
        assert forall|i: int| 0 <= i < c0.len() implies (#[trigger] c0[i]).composer is Some && composer_id_of_key(c0[i].key) is Some by {
            assert(c0[i] == cs[i]);
        }
        assert forall|i: int, j: int| 0 <= i < j < c0.len() implies composer_id_of_key(c0[i].key) != composer_id_of_key(c0[j].key) by {
            assert(c0[i] == cs[i]);
            assert(c0[j] == cs[j]);
        }
        lemma_valid_composers_arena(c0);
        let a = arena_of_composers(c0, None);
        let e = cs.last();
        assert(e == cs[cs.len() - 1]);
        let id = composer_id_of_key(e.key)->0;
        assert forall|j: int| 0 <= j < a.len() implies (#[trigger] a[j]).composer_id != id by {
            assert(c0[j] == cs[j]);
            assert(Some(a[j].composer_id) == composer_id_of_key(cs[j].key));
        }
        lemma_find_from_absent(a, id);
        let r = e.composer->0;
        assert(arena_of_composers(cs, None) == a.push(conversation_of_composer(id, r)));
    }
}

proof fn lemma_kept_all(a: Seq<ConversationView>)
    ensures
        kept(a, 0).len() == a.len(),
    decreases a.len(),
{
    if a.len() > 0 {
        lemma_kept_all(a.drop_last());
    }
}

/// Whether some conversation of `v` has composer id `id`.
pub open spec fn yields_id(v: Seq<ConversationView>, id: Option<Seq<char>>) -> bool {
    exists|x: ConversationView| #[trigger] v.contains(x) && Some(x.composer_id) == id
}

/// Whether a conversation with composer id `id` is among `a`.
pub open spec fn has_id(a: Seq<ConversationView>, id: Seq<char>) -> bool {
    exists|j: int| 0 <= j < a.len() && (#[trigger] a[j]).composer_id == id
}

/// Whether every accepted message entry names a conversation of `a`.
pub open spec fn messages_all_known(a: Seq<ConversationView>, bs: Seq<BubbleEntryView>, o: ExtractOptions) -> bool {
    forall|i: int| 0 <= i < bs.len() ==> (accepted_bubble(#[trigger] bs[i], o) is Some ==> has_id(a, accepted_id(bs[i], o)))
}

proof fn lemma_find_from_present(a: Seq<ConversationView>, id: Seq<char>, j: int)
    requires
        0 <= j < a.len(),
        a[j].composer_id == id,
    ensures
        find_from(a, id) is Some,
{
    if find_from(a, id) is None {
        lemma_find_from_none(a, id);
    }
}

proof fn lemma_accepted_parts(e: BubbleEntryView, o: ExtractOptions)
    requires
        accepted_bubble(e, o) is Some,
    ensures
        accepted_bubble(e, o) == Some((accepted_id(e, o), accepted_message(e, o))),
{
}

proof fn lemma_bubbles_keep_ids(a: Seq<ConversationView>, bs: Seq<BubbleEntryView>, o: ExtractOptions)
    requires
        messages_all_known(a, bs, o),
    ensures
        arena_of_bubbles(a, bs, o).len() == a.len(),
        forall|j: int| 0 <= j < a.len() ==> (#[trigger] arena_of_bubbles(a, bs, o)[j]).composer_id == a[j].composer_id,
    decreases bs.len(),
{
    if bs.len() > 0 {
        let b0 = bs.drop_last();
        assert forall|i: int| 0 <= i < b0.len() && accepted_bubble(#[trigger] b0[i], o) is Some implies has_id(a, accepted_id(b0[i], o)) by {
            assert(b0[i] == bs[i]);
        }
        lemma_bubbles_keep_ids(a, b0, o);
        let prev = arena_of_bubbles(a, b0, o);
        let e = bs.last();
        assert(e == bs[bs.len() - 1]);
        if accepted_bubble(e, o) is Some {
            lemma_accepted_parts(e, o);
            let cid = accepted_id(e, o);
            let j = choose|j: int| 0 <= j < a.len() && (#[trigger] a[j]).composer_id == cid;
            assert(prev[j].composer_id == a[j].composer_id);
            lemma_find_from_present(prev, cid, j);
            lemma_find_from_bounds(prev, cid);
        }
    }
}

proof fn lemma_kept_contains(a: Seq<ConversationView>, min: nat, p: int)
    requires
        0 <= p < a.len(),
        a[p].bubbles.len() >= min,
    ensures
        kept(a, min).contains(finished(a[p])),
    decreases a.len(),
{
    let r = kept(a.drop_last(), min);
    if p == a.len() - 1 {
        assert(a.last() == a[p]);
        assert(kept(a, min) == r.push(finished(a[p])));
        assert(r.push(finished(a[p]))[r.len() as int] == finished(a[p]));
    } else {
        assert(a.drop_last()[p] == a[p]);
        lemma_kept_contains(a.drop_last(), min, p);
        let w = choose|w: int| 0 <= w < r.len() && r[w] == finished(a[p]);
        if a.last().bubbles.len() >= min {
            assert(r.push(finished(a.last()))[w] == r[w]);
        }
        assert(kept(a, min)[w] == finished(a[p]));
    }
}

/// Every readable metadata entry with an id of its own yields one
/// conversation: when every accepted message belongs to one of them, and
/// with no filters and no minimum, there are exactly as many conversations
/// as such entries, one for each of their ids.
pub proof fn lemma_each_valid_composer_yields_one(cs: Seq<ComposerEntryView>, bs: Seq<BubbleEntryView>, o: ExtractOptions)
    requires
        valid_distinct_composers(cs),
        messages_all_known(arena_of_composers(cs, None), bs, o),
        o.conversation_ids is None,
        o.min_messages == 0,
    ensures
        extracted(cs, bs, o).len() == cs.len(),
        forall|k: int| 0 <= k < cs.len() ==> yields_id(extracted(cs, bs, o), composer_id_of_key(#[trigger] cs[k].key)),
{
    lemma_valid_composers_arena(cs);
    let a = arena_of_composers(cs, filters_of(o));
    lemma_bubbles_keep_ids(a, bs, o);
    let a2 = arena_of_bubbles(a, bs, o);
    lemma_kept_all(a2);
    crate::order::lemma_sorted_newest_first_len(kept(a2, 0));
    assert forall|k: int| 0 <= k < cs.len() implies yields_id(extracted(cs, bs, o), composer_id_of_key(#[trigger] cs[k].key)) by {
        lemma_kept_contains(a2, 0, k);
        lemma_sorted_newest_first_keeps(kept(a2, 0), finished(a2[k]));
        assert(extracted(cs, bs, o).contains(finished(a2[k])));
    }
}

/// Malformed tolerance: beside an unreadable metadata entry, every readable
/// entry with an id of its own still yields its conversation, and nothing
/// else does when every accepted message belongs to one of them.
pub proof fn lemma_corrupt_composer_tolerated(
    s1: Seq<ComposerEntryView>,
    bad: ComposerEntryView,
    s2: Seq<ComposerEntryView>,
    bs: Seq<BubbleEntryView>,
    o: ExtractOptions,
)
    requires
        bad.composer is None,
        valid_distinct_composers(s1 + s2),
        messages_all_known(arena_of_composers(s1 + s2, None), bs, o),
        o.conversation_ids is None,
        o.min_messages == 0,
    ensures
        extracted(s1 + seq![bad] + s2, bs, o).len() == s1.len() + s2.len(),
        forall|k: int| 0 <= k < (s1 + s2).len() ==> yields_id(
            extracted(s1 + seq![bad] + s2, bs, o),
            composer_id_of_key(#[trigger] (s1 + s2)[k].key),
        ),
{
    lemma_unreadable_composer_skipped(s1, bad, s2, bs, o);
    lemma_each_valid_composer_yields_one(s1 + s2, bs, o);
}

} // verus!
