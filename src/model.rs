//! Conversations and the messages ("bubbles") they are made of.

use vstd::prelude::*;

verus! {

/// Role of the author of a message.
#[derive(Debug, Clone, Copy, PartialEq, Eq, Structural)]
pub enum BubbleType {
    /// Message written by the user.
    User,
    /// Message written by the assistant.
    Assistant,
    /// Any other origin code.
    Unknown,
}

/// The numeric code that the origin store uses for a bubble type.
pub open spec fn type_code(t: BubbleType) -> u8 {
    match t {
        BubbleType::User => 1,
        BubbleType::Assistant => 2,
        BubbleType::Unknown => 0,
    }
}

/// The bubble type that an origin code stands for; unrecognised codes are `Unknown`.
pub open spec fn type_of_code(code: u8) -> BubbleType {
    if code == 1 {
        BubbleType::User
    } else if code == 2 {
        BubbleType::Assistant
    } else {
        BubbleType::Unknown
    }
}

impl BubbleType {
    /// Reads an origin type code; never fails.
    pub fn from_code(code: u8) -> (r: BubbleType)
        ensures
            r == type_of_code(code),
    {
        if code == 1 {
            BubbleType::User
        } else if code == 2 {
            BubbleType::Assistant
        } else {
            BubbleType::Unknown
        }
    }

    /// The origin type code of this bubble type.
    pub fn code(&self) -> (r: u8)
        ensures
            r == type_code(*self),
    {
        match self {
            BubbleType::User => 1,
            BubbleType::Assistant => 2,
            BubbleType::Unknown => 0,
        }
    }

    /// The name of the type, for display.
    pub fn name(&self) -> (r: &'static str)
        ensures
            r@ == match *self {
                BubbleType::User => "User"@,
                BubbleType::Assistant => "Assistant"@,
                BubbleType::Unknown => "Unknown"@,
            },
    {
        match self {
            BubbleType::User => "User",
            BubbleType::Assistant => "Assistant",
            BubbleType::Unknown => "Unknown",
        }
    }
}

/// Reading a code back from a type gives the type again.
pub proof fn lemma_type_code_round_trip(t: BubbleType)
    ensures
        type_of_code(type_code(t)) == t,
{
}

/// Reasoning attached to an assistant turn.
#[derive(Debug, Clone)]
pub struct ThinkingBlock {
    /// The reasoning text.
    pub text: String,
    /// Optional signature of the reasoning.
    pub signature: Option<String>,
}

/// Token usage of one message.
#[derive(Debug, Clone, Copy, PartialEq, Eq, Structural)]
pub struct TokenCount {
    /// Input tokens.
    pub input_tokens: u64,
    /// Output tokens.
    pub output_tokens: u64,
}

impl Default for TokenCount {
    fn default() -> (r: TokenCount)
        ensures
            r.input_tokens == 0 && r.output_tokens == 0,
    {
        TokenCount { input_tokens: 0, output_tokens: 0 }
    }
}

/// One message of a conversation.
///
/// Timestamps are milliseconds since the Unix epoch.
#[derive(Debug, Clone)]
pub struct Bubble {
    /// Identity of the message, unique within its conversation.
    pub bubble_id: String,
    /// Author role.
    pub bubble_type: BubbleType,
    /// Message text.
    pub text: String,
    /// Creation time, when known.
    pub created_at: Option<i64>,
    /// Reasoning block, present only for some assistant turns.
    pub thinking: Option<ThinkingBlock>,
    /// Duration of the reasoning in milliseconds.
    pub thinking_duration_ms: Option<u64>,
    /// Token usage.
    pub token_count: TokenCount,
    /// Whether the message came from an agentic turn.
    pub is_agentic: bool,
}

/// Model settings of a conversation.
#[derive(Debug, Clone)]
pub struct ModelConfig {
    /// Name of the model.
    pub model_name: String,
    /// Whether the "max" mode was enabled.
    pub max_mode: bool,
}

impl Default for ModelConfig {
    fn default() -> (r: ModelConfig)
        ensures
            r.model_name@.len() == 0 && !r.max_mode,
    {
        ModelConfig { model_name: String::new(), max_mode: false }
    }
}

/// A conversation ("composer") and its messages.
#[derive(Debug, Clone)]
pub struct Conversation {
    /// Identity assigned by the origin store.
    pub composer_id: String,
    /// Title derived from the first user message.
    pub title: String,
    /// Creation time, when known, in milliseconds since the epoch.
    pub created_at: Option<i64>,
    /// Model settings.
    pub model_config: ModelConfig,
    /// Free-text mode tag.
    pub unified_mode: String,
    /// Messages, ordered by creation time.
    pub bubbles: Vec<Bubble>,
}

/// The characters of an optional string.
pub open spec fn opt_text(o: Option<String>) -> Option<Seq<char>> {
    match o {
        Some(s) => Some(s@),
        None => None,
    }
}

/// Mathematical value of a reasoning block.
pub struct ThinkingView {
    pub text: Seq<char>,
    pub signature: Option<Seq<char>>,
}

impl View for ThinkingBlock {
    type V = ThinkingView;

    open spec fn view(&self) -> ThinkingView {
        ThinkingView { text: self.text@, signature: opt_text(self.signature) }
    }
}

/// The value of an optional reasoning block.
pub open spec fn opt_thinking(o: Option<ThinkingBlock>) -> Option<ThinkingView> {
    match o {
        Some(t) => Some(t@),
        None => None,
    }
}

/// Mathematical value of a message.
pub struct BubbleView {
    pub bubble_id: Seq<char>,
    pub bubble_type: BubbleType,
    pub text: Seq<char>,
    pub created_at: Option<i64>,
    pub thinking: Option<ThinkingView>,
    pub thinking_duration_ms: Option<u64>,
    pub token_count: TokenCount,
    pub is_agentic: bool,
}

impl View for Bubble {
    type V = BubbleView;

    open spec fn view(&self) -> BubbleView {
        BubbleView {
            bubble_id: self.bubble_id@,
            bubble_type: self.bubble_type,
            text: self.text@,
            created_at: self.created_at,
            thinking: opt_thinking(self.thinking),
            thinking_duration_ms: self.thinking_duration_ms,
            token_count: self.token_count,
            is_agentic: self.is_agentic,
        }
    }
}

/// Mathematical value of a conversation.
pub struct ConversationView {
    pub composer_id: Seq<char>,
    pub title: Seq<char>,
    pub created_at: Option<i64>,
    pub model_name: Seq<char>,
    pub max_mode: bool,
    pub unified_mode: Seq<char>,
    pub bubbles: Seq<BubbleView>,
}

/// The values of a sequence of messages.
pub open spec fn bubble_views(s: Seq<Bubble>) -> Seq<BubbleView> {
    s.map_values(|b: Bubble| b@)
}

/// The values of a sequence of conversations.
pub open spec fn conversation_views(s: Seq<Conversation>) -> Seq<ConversationView> {
    s.map_values(|c: Conversation| c@)
}

impl View for Conversation {
    type V = ConversationView;

    open spec fn view(&self) -> ConversationView {
        ConversationView {
            composer_id: self.composer_id@,
            title: self.title@,
            created_at: self.created_at,
            model_name: self.model_config.model_name@,
            max_mode: self.model_config.max_mode,
            unified_mode: self.unified_mode@,
            bubbles: bubble_views(self.bubbles@),
        }
    }
}

/// Number of bubbles of type `t` in `s`.
pub open spec fn count_of_type(s: Seq<Bubble>, t: BubbleType) -> nat
    decreases s.len(),
{
    if s.len() == 0 {
        0
    } else {
        count_of_type(s.drop_last(), t) + if s.last().bubble_type == t {
            1nat
        } else {
            0nat
        }
    }
}

proof fn lemma_count_of_type_bounded(s: Seq<Bubble>, t: BubbleType)
    ensures
        count_of_type(s, t) <= s.len(),
    decreases s.len(),
{
    if s.len() > 0 {
        lemma_count_of_type_bounded(s.drop_last(), t);
    }
}

/// Counts the bubbles of one type.
fn count_bubbles_of_type(bubbles: &Vec<Bubble>, t: BubbleType) -> (r: usize)
    ensures
        r == count_of_type(bubbles@, t),
{
    let mut n: usize = 0;
    let mut i: usize = 0;
    while i < bubbles.len()
        invariant
            i <= bubbles@.len(),
            n == count_of_type(bubbles@.subrange(0, i as int), t),
        decreases bubbles@.len() - i,
    {
        proof {
            assert(bubbles@.subrange(0, i + 1).drop_last() =~= bubbles@.subrange(0, i as int));
            lemma_count_of_type_bounded(bubbles@.subrange(0, i as int), t);
        }
        if bubbles[i].bubble_type == t {
            n = n + 1;
        }
        i = i + 1;
    }
    proof {
        assert(bubbles@.subrange(0, i as int) =~= bubbles@);
    }
    n
}

impl Conversation {
    /// Total number of messages.
    pub fn message_count(&self) -> (r: usize)
        ensures
            r == self.bubbles@.len(),
    {
        self.bubbles.len()
    }

    /// Number of messages written by the user.
    pub fn user_message_count(&self) -> (r: usize)
        ensures
            r == count_of_type(self.bubbles@, BubbleType::User),
    {
        count_bubbles_of_type(&self.bubbles, BubbleType::User)
    }

    /// Number of messages written by the assistant.
    pub fn assistant_message_count(&self) -> (r: usize)
        ensures
            r == count_of_type(self.bubbles@, BubbleType::Assistant),
    {
        count_bubbles_of_type(&self.bubbles, BubbleType::Assistant)
    }
}

} // verus!

verus! {

/// Counts gathered while extracting conversations.
#[derive(Debug, Clone, Copy, PartialEq, Eq, Structural)]
pub struct ExtractionStats {
    /// Conversations returned.
    pub conversation_count: usize,
    /// Messages accepted.
    pub total_bubbles: usize,
    /// Accepted messages written by the user.
    pub user_messages: usize,
    /// Accepted messages written by the assistant.
    pub assistant_messages: usize,
    /// Store files that were scanned.
    pub databases_scanned: usize,
}

impl Default for ExtractionStats {
    fn default() -> (r: ExtractionStats)
        ensures
            r.conversation_count == 0 && r.total_bubbles == 0 && r.user_messages == 0
                && r.assistant_messages == 0 && r.databases_scanned == 0,
    {
        ExtractionStats {
            conversation_count: 0,
            total_bubbles: 0,
            user_messages: 0,
            assistant_messages: 0,
            databases_scanned: 0,
        }
    }
}

} // verus!
