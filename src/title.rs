//! Titles derived from the first user message of a conversation.

use vstd::prelude::*;
use vstd::string::StringExecFns;
use crate::model::{Bubble, BubbleType, BubbleView, Conversation, bubble_views};
use crate::text::{char_is_alnum, char_is_space, is_alnum, is_space, lower_of, lowercase, push_char};

verus! {

/// Longest part of the cleaned message, in characters, that a title draws on.
pub const TITLE_SPAN: usize = 50;

/// Most words a title keeps.
pub const TITLE_WORDS: usize = 8;

/// Text used when a conversation has no user message.
pub open spec fn fallback_text() -> Seq<char> {
    "conversa"@
}

/// The text of the first user message, or the fallback text.
pub open spec fn first_user_text(s: Seq<BubbleView>) -> Seq<char>
    decreases s.len(),
{
    if s.len() == 0 {
        fallback_text()
    } else if s[0].bubble_type == BubbleType::User {
        s[0].text
    } else {
        first_user_text(s.drop_first())
    }
}

/// Characters a title keeps: letters, digits, white space, `-` and `_`.
pub open spec fn title_char(c: char) -> bool {
    is_alnum(c) || is_space(c) || c == '-' || c == '_'
}

/// The characters of `s` that a title keeps, in order.
pub open spec fn cleaned(s: Seq<char>) -> Seq<char>
    decreases s.len(),
{
    if s.len() == 0 {
        Seq::empty()
    } else if title_char(s.last()) {
        cleaned(s.drop_last()).push(s.last())
    } else {
        cleaned(s.drop_last())
    }
}

/// Index of the last space in `s`, if any.
pub open spec fn last_space(s: Seq<char>) -> Option<int>
    decreases s.len(),
{
    if s.len() == 0 {
        None
    } else if s.last() == ' ' {
        Some(s.len() - 1)
    } else {
        last_space(s.drop_last())
    }
}

/// A long text is cut to its first fifty characters, and then before the
/// last space among them, if there is one.
pub open spec fn cut(s: Seq<char>) -> Seq<char> {
    if s.len() > TITLE_SPAN {
        let c = s.subrange(0, TITLE_SPAN as int);
        match last_space(c) {
            Some(i) => c.subrange(0, i),
            None => c,
        }
    } else {
        s
    }
}

/// Words found so far in `s`, and the word being read at its end.
pub open spec fn split_state(s: Seq<char>) -> (Seq<Seq<char>>, Seq<char>)
    decreases s.len(),
{
    if s.len() == 0 {
        (Seq::empty(), Seq::empty())
    } else {
        let (ws, cur) = split_state(s.drop_last());
        if is_space(s.last()) {
            if cur.len() > 0 {
                (ws.push(cur), Seq::empty())
            } else {
                (ws, Seq::empty())
            }
        } else {
            (ws, cur.push(s.last()))
        }
    }
}

/// The maximal runs of non-space characters of `s`.
pub open spec fn words(s: Seq<char>) -> Seq<Seq<char>> {
    let (ws, cur) = split_state(s);
    if cur.len() > 0 {
        ws.push(cur)
    } else {
        ws
    }
}

/// Words joined with `_` between them.
pub open spec fn joined(ws: Seq<Seq<char>>) -> Seq<char>
    decreases ws.len(),
{
    if ws.len() == 0 {
        Seq::empty()
    } else if ws.len() == 1 {
        ws[0]
    } else {
        joined(ws.drop_last()) + seq!['_'] + ws.last()
    }
}

/// The first `n` words, or all when there are fewer.
pub open spec fn first_words(ws: Seq<Seq<char>>, n: nat) -> Seq<Seq<char>> {
    if ws.len() <= n {
        ws
    } else {
        ws.subrange(0, n as int)
    }
}

/// The title of a conversation with these messages: the first user message,
/// cleaned, cut, its first eight words joined with `_`, in lower case.
pub open spec fn title_of(s: Seq<BubbleView>) -> Seq<char> {
    lower_of(joined(first_words(words(cut(cleaned(first_user_text(s)))), TITLE_WORDS as nat)))
}

fn first_user_message(bubbles: &Vec<Bubble>) -> (r: String)
    ensures
        r@ == first_user_text(bubble_views(bubbles@)),
{
    let mut i: usize = 0;
    proof {
        assert(bubble_views(bubbles@).subrange(0, bubbles@.len() as int) =~= bubble_views(bubbles@));
    }
    while i < bubbles.len()
        invariant
            i <= bubbles@.len(),
            first_user_text(bubble_views(bubbles@)) == first_user_text(
                bubble_views(bubbles@).subrange(i as int, bubbles@.len() as int),
            ),
        decreases bubbles@.len() - i,
    {
        let ghost rest = bubble_views(bubbles@).subrange(i as int, bubbles@.len() as int);
        if bubbles[i].bubble_type == BubbleType::User {
            return bubbles[i].text.clone();
        }
        proof {
            assert(rest.drop_first() =~= bubble_views(bubbles@).subrange(i + 1, bubbles@.len() as int));
        }
        i = i + 1;
    }
    String::from_str("conversa")
}

fn clean_text(s: &str) -> (r: String)
    ensures
        r@ == cleaned(s@),
{
    let n = s.unicode_len();
    let mut out = String::new();
    let mut i: usize = 0;
    while i < n
        invariant
            n == s@.len(),
            i <= n,
            out@ == cleaned(s@.subrange(0, i as int)),
        decreases n - i,
    {
        let c = s.get_char(i);
        proof {
            assert(s@.subrange(0, i + 1).drop_last() =~= s@.subrange(0, i as int));
        }
        if char_is_alnum(c) || char_is_space(c) || c == '-' || c == '_' {
            push_char(&mut out, c);
        }
        i = i + 1;
    }
    proof {
        assert(s@.subrange(0, n as int) =~= s@);
    }
    out
}

fn cut_text(s: &str) -> (r: &str)
    ensures
        r@ == cut(s@),
{
    let n = s.unicode_len();
    if n <= TITLE_SPAN {
        return s;
    }
    let c = s.substring_char(0, TITLE_SPAN);
    let mut j: usize = TITLE_SPAN;
    proof {
        assert(c@.subrange(0, TITLE_SPAN as int) =~= c@);
    }
    while j > 0 && c.get_char(j - 1) != ' '
        invariant
            j <= TITLE_SPAN,
            c@.len() == TITLE_SPAN,
            last_space(c@) == last_space(c@.subrange(0, j as int)),
        decreases j,
    {
        proof {
            assert(c@.subrange(0, j as int).drop_last() =~= c@.subrange(0, j - 1));
        }
        j = j - 1;
    }
    if j == 0 {
        proof {
            assert(c@.subrange(0, 0) =~= Seq::<char>::empty());
        }
        c
    } else {
        proof {
            assert(c@.subrange(0, j as int).last() == ' ');
        }
        c.substring_char(0, j - 1)
    }
}

/// The views of a sequence of strings.
pub open spec fn texts(v: Seq<String>) -> Seq<Seq<char>> {
    v.map_values(|w: String| w@)
}

fn split_words(s: &str) -> (r: Vec<String>)
    ensures
        texts(r@) == words(s@),
{
    let n = s.unicode_len();
    let mut ws: Vec<String> = Vec::new();
    let mut cur = String::new();
    let mut i: usize = 0;
    while i < n
        invariant
            n == s@.len(),
            i <= n,
            (texts(ws@), cur@) == split_state(s@.subrange(0, i as int)),
        decreases n - i,
    {
        let c = s.get_char(i);
        proof {
            assert(s@.subrange(0, i + 1).drop_last() =~= s@.subrange(0, i as int));
        }
        if char_is_space(c) {
            if cur.unicode_len() > 0 {
                let ghost old_ws = ws@;
                let w = cur;
                ws.push(w);
                proof {
                    assert(texts(ws@) =~= texts(old_ws).push(w@));
                }
                cur = String::new();
            } else {
                cur = String::new();
            }
        } else {
            push_char(&mut cur, c);
        }
        i = i + 1;
    }
    proof {
        assert(s@.subrange(0, n as int) =~= s@);
    }
    if cur.unicode_len() > 0 {
        let ghost old_ws = ws@;
        let w = cur;
        ws.push(w);
        proof {
            assert(texts(ws@) =~= texts(old_ws).push(w@));
        }
    }
    ws
}

fn join_words(ws: &Vec<String>, limit: usize) -> (r: String)
    ensures
        r@ == joined(first_words(texts(ws@), limit as nat)),
{
    let n = if ws.len() <= limit {
        ws.len()
    } else {
        limit
    };
    let ghost all = texts(ws@);
    let mut out = String::new();
    let mut i: usize = 0;
    while i < n
        invariant
            n <= ws@.len(),
            all == texts(ws@),
            i <= n,
            out@ == joined(all.subrange(0, i as int)),
        decreases n - i,
    {
        proof {
            assert(all.subrange(0, i + 1).drop_last() =~= all.subrange(0, i as int));
        }
        if i > 0 {
            out.append("_");
            proof {
                reveal_strlit("_");
            }
        }
        out.append(ws[i].as_str());
        proof {
            if i == 0 {
                assert(out@ =~= all.subrange(0, 1)[0]);
            } else {
                assert(out@ =~= joined(all.subrange(0, i as int)) + seq!['_'] + all[i as int]);
            }
        }
        i = i + 1;
    }
    proof {
        if ws@.len() <= limit {
            assert(all.subrange(0, n as int) =~= all);
        }
    }
    out
}

/// Text shown for a conversation without messages.
pub open spec fn empty_preview() -> Seq<char> {
    "[Empty conversation]"@
}

/// The file name of an export: the first eight characters of the id, `_`,
/// and the title.
pub open spec fn file_name_of_conversation(id: Seq<char>, bubbles: Seq<BubbleView>) -> Seq<char> {
    let k = if id.len() < 8 { id.len() } else { 8 };
    id.subrange(0, k as int) + seq!['_'] + title_of(bubbles)
}

impl Conversation {
    /// The text of the first message, or a placeholder.
    pub fn preview(&self) -> (r: &str)
        ensures
            r@ == if self.bubbles@.len() > 0 {
                self.bubbles@[0].text@
            } else {
                empty_preview()
            },
    {
        if self.bubbles.len() > 0 {
            self.bubbles[0].text.as_str()
        } else {
            "[Empty conversation]"
        }
    }

    /// A file name for exporting the conversation.
    pub fn filename(&self) -> (r: String)
        ensures
            r@ == file_name_of_conversation(self.composer_id@, self@.bubbles),
    {
        let title = self.generate_title();
        let n = self.composer_id.unicode_len();
        let k = if n < 8 {
            n
        } else {
            8
        };
        let mut out = crate::text::owned(self.composer_id.as_str().substring_char(0, k));
        out.append("_");
        out.append(title.as_str());
        proof {
            reveal_strlit("_");
            assert(out@ =~= file_name_of_conversation(self.composer_id@, self@.bubbles));
        }
        out
    }

    /// A snake_case title made from the first user message.
    pub fn generate_title(&self) -> (r: String)
        ensures
            r@ == title_of(self@.bubbles),
    {
        let first = first_user_message(&self.bubbles);
        let clean = clean_text(first.as_str());
        let short = cut_text(clean.as_str());
        let ws = split_words(short);
        let j = join_words(&ws, TITLE_WORDS);
        lowercase(j.as_str())
    }
}

} // verus!
