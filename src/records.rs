//! Records as the origin store holds them, and their normalisation into
//! conversations and messages.
//!
//! A payload is read into a raw record with every field optional or
//! defaulted; normalisation then never fails. Restore goes the other way,
//! from a conversation to the records the origin expects.

use vstd::prelude::*;
use crate::clock::{
    format_rfc3339, millis_in_range, parse_timestamp, rfc3339_of, timestamp_from_millis,
    timestamp_of_millis, timestamp_of_text, iso_millis,
};
use crate::model::{
    opt_text, Bubble, BubbleType, BubbleView, Conversation, ConversationView, ModelConfig,
    ThinkingBlock, ThinkingView, TokenCount, type_code, type_of_code,
};

verus! {

/// Schema version written into restored payloads.
pub const SCHEMA_VERSION: u8 = 10;

/// Model settings as a metadata payload carries them.
#[derive(Debug)]
pub struct RawModelConfig {
    pub model_name: String,
    pub max_mode: bool,
}

/// Conversation metadata as the origin stores it.
#[derive(Debug)]
pub struct RawComposer {
    /// Schema version marker.
    pub version: Option<u8>,
    /// Creation time in milliseconds since the epoch.
    pub created_at: Option<u64>,
    pub model_config: Option<RawModelConfig>,
    pub unified_mode: Option<String>,
}

/// Reasoning block as a message payload carries it.
#[derive(Debug)]
pub struct RawThinking {
    pub text: String,
    pub signature: Option<String>,
}

/// Token counters as a message payload carries them.
#[derive(Debug, Clone, Copy, PartialEq, Eq, Structural)]
pub struct RawTokenCount {
    pub input_tokens: u64,
    pub output_tokens: u64,
}

/// A message as the origin stores it.
#[derive(Debug)]
pub struct RawBubble {
    /// Schema version marker.
    pub version: Option<u8>,
    /// Origin type code: 1 user, 2 assistant, anything else unknown.
    pub bubble_type: u8,
    pub bubble_id: String,
    pub text: String,
    /// Creation time, ISO-8601 or a number of milliseconds, as text.
    pub created_at: Option<String>,
    pub thinking: Option<RawThinking>,
    pub thinking_duration_ms: Option<u64>,
    pub token_count: Option<RawTokenCount>,
    pub is_agentic: bool,
    /// First workspace URI the message names, if any.
    pub workspace_uri: Option<String>,
    /// The origin's own project directory of that workspace.
    pub workspace_project_dir: Option<String>,
}

/// Value of raw model settings.
pub struct RawModelConfigView {
    pub model_name: Seq<char>,
    pub max_mode: bool,
}

/// Value of raw conversation metadata.
pub struct RawComposerView {
    pub version: Option<u8>,
    pub created_at: Option<u64>,
    pub model_config: Option<RawModelConfigView>,
    pub unified_mode: Option<Seq<char>>,
}

/// Value of a raw message.
pub struct RawBubbleView {
    pub version: Option<u8>,
    pub bubble_type: u8,
    pub bubble_id: Seq<char>,
    pub text: Seq<char>,
    pub created_at: Option<Seq<char>>,
    pub thinking: Option<ThinkingView>,
    pub thinking_duration_ms: Option<u64>,
    pub token_count: Option<RawTokenCount>,
    pub is_agentic: bool,
    pub workspace_uri: Option<Seq<char>>,
    pub workspace_project_dir: Option<Seq<char>>,
}

impl View for RawModelConfig {
    type V = RawModelConfigView;

    open spec fn view(&self) -> RawModelConfigView {
        RawModelConfigView { model_name: self.model_name@, max_mode: self.max_mode }
    }
}

impl View for RawComposer {
    type V = RawComposerView;

    open spec fn view(&self) -> RawComposerView {
        RawComposerView {
            version: self.version,
            created_at: self.created_at,
            model_config: match self.model_config {
                Some(m) => Some(m@),
                None => None,
            },
            unified_mode: opt_text(self.unified_mode),
        }
    }
}

impl View for RawThinking {
    type V = ThinkingView;

    open spec fn view(&self) -> ThinkingView {
        ThinkingView { text: self.text@, signature: opt_text(self.signature) }
    }
}

impl View for RawBubble {
    type V = RawBubbleView;

    open spec fn view(&self) -> RawBubbleView {
        RawBubbleView {
            version: self.version,
            bubble_type: self.bubble_type,
            bubble_id: self.bubble_id@,
            text: self.text@,
            created_at: opt_text(self.created_at),
            thinking: match self.thinking {
                Some(t) => Some(t@),
                None => None,
            },
            thinking_duration_ms: self.thinking_duration_ms,
            token_count: self.token_count,
            is_agentic: self.is_agentic,
            workspace_uri: opt_text(self.workspace_uri),
            workspace_project_dir: opt_text(self.workspace_project_dir),
        }
    }
}

/// The message a raw record stands for: unknown codes become `Unknown`,
/// an unreadable timestamp becomes `None`, missing counters become zero.
pub open spec fn bubble_of_raw(r: RawBubbleView) -> BubbleView {
    BubbleView {
        bubble_id: r.bubble_id,
        bubble_type: type_of_code(r.bubble_type),
        text: r.text,
        created_at: match r.created_at {
            Some(t) => timestamp_of_text(t),
            None => None,
        },
        thinking: r.thinking,
        thinking_duration_ms: r.thinking_duration_ms,
        token_count: match r.token_count {
            Some(t) => TokenCount { input_tokens: t.input_tokens, output_tokens: t.output_tokens },
            None => TokenCount { input_tokens: 0, output_tokens: 0 },
        },
        is_agentic: r.is_agentic,
    }
}

/// The conversation, without messages or title, that metadata stored under
/// `id` stands for.
pub open spec fn conversation_of_composer(id: Seq<char>, r: RawComposerView) -> ConversationView {
    ConversationView {
        composer_id: id,
        title: Seq::empty(),
        created_at: match r.created_at {
            Some(ms) => timestamp_of_millis(ms),
            None => None,
        },
        model_name: match r.model_config {
            Some(m) => m.model_name,
            None => Seq::empty(),
        },
        max_mode: match r.model_config {
            Some(m) => m.max_mode,
            None => false,
        },
        unified_mode: match r.unified_mode {
            Some(u) => u,
            None => Seq::empty(),
        },
        bubbles: Seq::empty(),
    }
}

/// The placeholder conversation made for messages whose metadata is missing.
pub open spec fn orphan_of(id: Seq<char>, created_at: Option<i64>) -> ConversationView {
    ConversationView {
        composer_id: id,
        title: Seq::empty(),
        created_at: created_at,
        model_name: Seq::empty(),
        max_mode: false,
        unified_mode: Seq::empty(),
        bubbles: Seq::empty(),
    }
}

fn copy_opt_string(o: &Option<String>) -> (r: Option<String>)
    ensures
        opt_text(r) == opt_text(*o),
{
    match o {
        Some(s) => Some(s.clone()),
        None => None,
    }
}

/// Normalises a raw message record; never fails.
pub fn bubble_from_raw(raw: &RawBubble) -> (b: Bubble)
    ensures
        b@ == bubble_of_raw(raw@),
{
    let created_at = match &raw.created_at {
        Some(t) => parse_timestamp(t.as_str()),
        None => None,
    };
    let thinking = match &raw.thinking {
        Some(t) => Some(ThinkingBlock { text: t.text.clone(), signature: copy_opt_string(&t.signature) }),
        None => None,
    };
    let token_count = match raw.token_count {
        Some(t) => TokenCount { input_tokens: t.input_tokens, output_tokens: t.output_tokens },
        None => TokenCount { input_tokens: 0, output_tokens: 0 },
    };
    Bubble {
        bubble_id: raw.bubble_id.clone(),
        bubble_type: BubbleType::from_code(raw.bubble_type),
        text: raw.text.clone(),
        created_at,
        thinking,
        thinking_duration_ms: raw.thinking_duration_ms,
        token_count,
        is_agentic: raw.is_agentic,
    }
}

/// The conversation that metadata stored under `id` describes, with no
/// messages and an empty title yet.
pub fn conversation_from_composer(id: &str, raw: &RawComposer) -> (c: Conversation)
    ensures
        c@ == conversation_of_composer(id@, raw@),
{
    let created_at = match raw.created_at {
        Some(ms) => timestamp_from_millis(ms),
        None => None,
    };
    let model_config = match &raw.model_config {
        Some(m) => ModelConfig { model_name: m.model_name.clone(), max_mode: m.max_mode },
        None => ModelConfig { model_name: String::new(), max_mode: false },
    };
    let unified_mode = match &raw.unified_mode {
        Some(u) => u.clone(),
        None => String::new(),
    };
    let c = Conversation {
        composer_id: id.to_owned(),
        title: String::new(),
        created_at,
        model_config,
        unified_mode,
        bubbles: Vec::new(),
    };
    proof {
        assert(c@.bubbles =~= Seq::<BubbleView>::empty());
    }
    c
}

/// The placeholder conversation for messages whose metadata is missing: it
/// takes the creation time of the message that revealed it.
pub fn orphan_conversation(id: &str, created_at: Option<i64>) -> (c: Conversation)
    ensures
        c@ == orphan_of(id@, created_at),
{
    let c = Conversation {
        composer_id: id.to_owned(),
        title: String::new(),
        created_at,
        model_config: ModelConfig { model_name: String::new(), max_mode: false },
        unified_mode: String::new(),
        bubbles: Vec::new(),
    };
    proof {
        assert(c@.bubbles =~= Seq::<BubbleView>::empty());
    }
    c
}

/// Metadata payload written back to the origin for a conversation.
#[derive(Debug)]
pub struct ComposerRecord {
    pub composer_id: String,
    /// Creation time in milliseconds since the epoch.
    pub created_at: Option<i64>,
    pub model_config: RawModelConfig,
    pub unified_mode: String,
}

/// Value of a metadata payload to restore.
pub struct ComposerRecordView {
    pub composer_id: Seq<char>,
    pub created_at: Option<i64>,
    pub model_config: RawModelConfigView,
    pub unified_mode: Seq<char>,
}

impl View for ComposerRecord {
    type V = ComposerRecordView;

    open spec fn view(&self) -> ComposerRecordView {
        ComposerRecordView {
            composer_id: self.composer_id@,
            created_at: self.created_at,
            model_config: self.model_config@,
            unified_mode: self.unified_mode@,
        }
    }
}

/// The metadata payload restored for a conversation.
pub open spec fn record_of_conversation(c: ConversationView) -> ComposerRecordView {
    ComposerRecordView {
        composer_id: c.composer_id,
        created_at: c.created_at,
        model_config: RawModelConfigView { model_name: c.model_name, max_mode: c.max_mode },
        unified_mode: c.unified_mode,
    }
}

/// What the origin reads back from the payload written for `r`: a negative
/// creation time does not fit the origin's unsigned field, so the payload
/// is then unreadable.
pub open spec fn composer_read_back(r: ComposerRecordView) -> Option<RawComposerView> {
    match r.created_at {
        Some(ms) => if ms < 0 {
            None
        } else {
            Some(RawComposerView {
                version: Some(SCHEMA_VERSION),
                created_at: Some(ms as u64),
                model_config: Some(r.model_config),
                unified_mode: Some(r.unified_mode),
            })
        },
        None => Some(RawComposerView {
            version: Some(SCHEMA_VERSION),
            created_at: None,
            model_config: Some(r.model_config),
            unified_mode: Some(r.unified_mode),
        }),
    }
}

/// The message payload restored for a message: the type as its code, the
/// time as RFC 3339 text, counters always, and the reasoning duration only
/// together with a reasoning block.
pub open spec fn raw_of_bubble(b: BubbleView) -> RawBubbleView {
    RawBubbleView {
        version: Some(SCHEMA_VERSION),
        bubble_type: type_code(b.bubble_type),
        bubble_id: b.bubble_id,
        text: b.text,
        created_at: match b.created_at {
            Some(ms) => if millis_in_range(ms) {
                Some(rfc3339_of(ms))
            } else {
                None
            },
            None => None,
        },
        thinking: b.thinking,
        thinking_duration_ms: if b.thinking.is_some() {
            b.thinking_duration_ms
        } else {
            None
        },
        token_count: Some(
            RawTokenCount {
                input_tokens: b.token_count.input_tokens,
                output_tokens: b.token_count.output_tokens,
            },
        ),
        is_agentic: b.is_agentic,
        workspace_uri: None,
        workspace_project_dir: None,
    }
}

/// The metadata payload to write back for a conversation.
pub fn composer_record(c: &Conversation) -> (r: ComposerRecord)
    ensures
        r@ == record_of_conversation(c@),
{
    ComposerRecord {
        composer_id: c.composer_id.clone(),
        created_at: c.created_at,
        model_config: RawModelConfig {
            model_name: c.model_config.model_name.clone(),
            max_mode: c.model_config.max_mode,
        },
        unified_mode: c.unified_mode.clone(),
    }
}

/// The message payload to write back for a message.
pub fn bubble_record(b: &Bubble) -> (r: RawBubble)
    ensures
        r@ == raw_of_bubble(b@),
{
    let created_at = match b.created_at {
        Some(ms) => format_rfc3339(ms),
        None => None,
    };
    let thinking = match &b.thinking {
        Some(t) => Some(RawThinking { text: t.text.clone(), signature: copy_opt_string(&t.signature) }),
        None => None,
    };
    let thinking_duration_ms = if thinking.is_some() {
        b.thinking_duration_ms
    } else {
        None
    };
    RawBubble {
        version: Some(SCHEMA_VERSION),
        bubble_type: b.bubble_type.code(),
        bubble_id: b.bubble_id.clone(),
        text: b.text.clone(),
        created_at,
        thinking,
        thinking_duration_ms,
        token_count: Some(
            RawTokenCount {
                input_tokens: b.token_count.input_tokens,
                output_tokens: b.token_count.output_tokens,
            },
        ),
        is_agentic: b.is_agentic,
        workspace_uri: None,
        workspace_project_dir: None,
    }
}

/// Whether the RFC 3339 text chrono writes for every timestamp of the message
/// reads back as the same instant.
pub open spec fn time_reads_back(t: Option<i64>) -> bool {
    match t {
        Some(ms) => millis_in_range(ms) && iso_millis(rfc3339_of(ms)) == Some(ms),
        None => true,
    }
}

/// Restoring a message and reading the payload back gives the message again,
/// field for field, provided its timestamp text reads back as the same
/// instant and a reasoning duration comes only with a reasoning block.
pub proof fn lemma_bubble_round_trip(b: BubbleView)
    requires
        time_reads_back(b.created_at),
        b.thinking.is_none() ==> b.thinking_duration_ms.is_none(),
    ensures
        bubble_of_raw(raw_of_bubble(b)) == b,
{
    crate::model::lemma_type_code_round_trip(b.bubble_type);
}

/// Restoring a conversation's metadata and reading it back gives its model
/// settings, mode and creation time again, when that time is not before the
/// epoch and chrono can hold it.
pub proof fn lemma_composer_round_trip(c: ConversationView)
    requires
        match c.created_at {
            Some(ms) => ms >= 0 && millis_in_range(ms),
            None => true,
        },
    ensures
        composer_read_back(record_of_conversation(c)).is_some(),
        conversation_of_composer(
            c.composer_id,
            composer_read_back(record_of_conversation(c)).unwrap(),
        ) == (ConversationView { title: Seq::empty(), bubbles: Seq::empty(), ..c }),
{
}

} // verus!
