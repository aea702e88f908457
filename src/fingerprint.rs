//! Content fingerprints for change detection.
//!
//! A fingerprint covers a conversation's id, title, message count and its
//! five most recent messages (id and text). It is an FNV-1a hash, written
//! in lower-case hexadecimal, over a symbol sequence in which every text is
//! followed by a separator that no character can equal. It depends on
//! nothing but the conversation, so it is the same in every process.

use vstd::prelude::*;
use crate::model::{Bubble, BubbleView, Conversation, ConversationView, bubble_views};
use crate::text::push_char;

verus! {

/// FNV-1a offset basis.
pub const FNV_OFFSET: u64 = 0xcbf29ce484222325;

/// FNV-1a prime.
pub const FNV_PRIME: u64 = 0x100000001b3;

/// Symbol that ends every text; above every 32-bit character code.
pub const TEXT_END: u64 = 0x1_0000_0000;

/// How many of the most recent messages a fingerprint covers.
pub const RECENT: usize = 5;

/// One FNV-1a step.
pub open spec fn fnv_step(h: u64, x: u64) -> u64 {
    vstd::wrapping::u64_specs::wrapping_mul(h ^ x, FNV_PRIME)
}

/// FNV-1a over a symbol sequence, from state `h`.
pub open spec fn fnv(h: u64, s: Seq<u64>) -> u64
    decreases s.len(),
{
    if s.len() == 0 {
        h
    } else {
        fnv_step(fnv(h, s.drop_last()), s.last())
    }
}

/// The symbols of a text: its character codes, then the end symbol.
pub open spec fn text_symbols(s: Seq<char>) -> Seq<u64> {
    s.map_values(|c: char| c as u32 as u64).push(TEXT_END)
}

/// The symbols of messages taken from the newest back: id, then text.
pub open spec fn recent_symbols(s: Seq<BubbleView>) -> Seq<u64>
    decreases s.len(),
{
    if s.len() == 0 {
        Seq::empty()
    } else {
        text_symbols(s.last().bubble_id) + text_symbols(s.last().text) + recent_symbols(s.drop_last())
    }
}

/// The most recent messages a fingerprint covers.
pub open spec fn recent(s: Seq<BubbleView>) -> Seq<BubbleView> {
    if s.len() <= RECENT {
        s
    } else {
        s.subrange(s.len() - RECENT, s.len() as int)
    }
}

/// Everything a fingerprint is computed over, as symbols.
pub open spec fn fingerprint_symbols(c: ConversationView) -> Seq<u64> {
    text_symbols(c.composer_id) + text_symbols(c.title) + seq![c.bubbles.len() as u64]
        + recent_symbols(recent(c.bubbles))
}

/// Lower-case hexadecimal digit of `d`.
pub open spec fn hex_digit(d: nat) -> char {
    if d < 10 {
        (('0' as nat) + d) as char
    } else {
        (('a' as nat) + d - 10) as char
    }
}

/// Lower-case hexadecimal text of `v`, without leading zeros.
pub open spec fn hex_of(v: nat) -> Seq<char>
    decreases v,
{
    if v < 16 {
        seq![hex_digit(v)]
    } else {
        hex_of(v / 16).push(hex_digit(v % 16))
    }
}

/// The fingerprint of a conversation, as text.
pub open spec fn fingerprint_of(c: ConversationView) -> Seq<char> {
    hex_of(fnv(FNV_OFFSET, fingerprint_symbols(c)) as nat)
}

proof fn lemma_fnv_append(h: u64, a: Seq<u64>, b: Seq<u64>)
    ensures
        fnv(h, a + b) == fnv(fnv(h, a), b),
    decreases b.len(),
{
    if b.len() == 0 {
        assert(a + b =~= a);
    } else {
        lemma_fnv_append(h, a, b.drop_last());
        assert((a + b).drop_last() =~= a + b.drop_last());
    }
}

fn hash_step(h: u64, x: u64) -> (r: u64)
    ensures
        r == fnv_step(h, x),
{
    (h ^ x).wrapping_mul(FNV_PRIME)
}

fn hash_text(h: u64, s: &str) -> (r: u64)
    ensures
        r == fnv(h, text_symbols(s@)),
{
    let n = s.unicode_len();
    let ghost syms = s@.map_values(|c: char| c as u32 as u64);
    let mut acc = h;
    let mut i: usize = 0;
    proof {
        assert(syms.subrange(0, 0) =~= Seq::<u64>::empty());
    }
    while i < n
        invariant
            n == s@.len(),
            syms == s@.map_values(|c: char| c as u32 as u64),
            i <= n,
            acc == fnv(h, syms.subrange(0, i as int)),
        decreases n - i,
    {
        let c = s.get_char(i);
        proof {
            assert(syms.subrange(0, i + 1).drop_last() =~= syms.subrange(0, i as int));
        }
        acc = hash_step(acc, c as u32 as u64);
        i = i + 1;
    }
    proof {
        assert(syms.subrange(0, n as int) =~= syms);
        assert(text_symbols(s@).drop_last() =~= syms);
    }
    hash_step(acc, TEXT_END)
}

fn push_hex(s: &mut String, v: u64)
    ensures
        final(s)@ == old(s)@ + hex_of(v as nat),
    decreases v,
{
    if v >= 16 {
        push_hex(s, v / 16);
    }
    let d = v % 16;
    let c = if d < 10 {
        ((('0' as u8) + (d as u8)) as char)
    } else {
        ((('a' as u8) + (d as u8) - 10) as char)
    };
    proof {
        assert(c == hex_digit(d as nat));
    }
    push_char(s, c);
    proof {
        if v < 16 {
            assert(final(s)@ =~= old(s)@ + hex_of(v as nat));
        } else {
            assert(final(s)@ =~= old(s)@ + hex_of(v as nat));
        }
    }
}

fn hash_recent(h: u64, bubbles: &Vec<Bubble>, lo: usize) -> (r: u64)
    requires
        lo <= bubbles@.len(),
    ensures
        r == fnv(h, recent_symbols(bubble_views(bubbles@).subrange(lo as int, bubbles@.len() as int))),
{
    let ghost bs = bubble_views(bubbles@);
    let n = bubbles.len();
    let mut acc = h;
    let mut k: usize = n;
    proof {
        assert(bs.subrange(n as int, n as int) =~= Seq::<BubbleView>::empty());
    }
    while k > lo
        invariant
            bs == bubble_views(bubbles@),
            n == bs.len(),
            lo <= k <= n,
            acc == fnv(h, recent_symbols(bs.subrange(k as int, n as int))),
        decreases k - lo,
    {
        let ghost hk = acc;
        let b = &bubbles[k - 1];
        let ha = hash_text(acc, b.bubble_id.as_str());
        let hb = hash_text(ha, b.text.as_str());
        proof {
            assert(bs[k - 1] == b@);
            lemma_recent_symbols_front(bs, k - 1, n as int);
            lemma_fnv_append(hk, text_symbols(b.bubble_id@), text_symbols(b.text@));
            lemma_fnv_append(
                h,
                recent_symbols(bs.subrange(k as int, n as int)),
                text_symbols(b.bubble_id@) + text_symbols(b.text@),
            );
            assert(recent_symbols(bs.subrange(k as int, n as int)) + (text_symbols(b.bubble_id@)
                + text_symbols(b.text@)) =~= recent_symbols(bs.subrange(k - 1, n as int)));
        }
        acc = hb;
        k = k - 1;
    }
    acc
}

impl Conversation {
    /// The content fingerprint used to skip unchanged conversations.
    pub fn fingerprint(&self) -> (r: String)
        ensures
            r@ == fingerprint_of(self@),
    {
        let ghost cv = self@;
        let h0 = hash_text(FNV_OFFSET, self.composer_id.as_str());
        let h1 = hash_text(h0, self.title.as_str());
        let n = self.bubbles.len();
        let h2 = hash_step(h1, n as u64);
        proof {
            lemma_fnv_append(FNV_OFFSET, text_symbols(cv.composer_id), text_symbols(cv.title));
            lemma_fnv_append(
                FNV_OFFSET,
                text_symbols(cv.composer_id) + text_symbols(cv.title),
                seq![n as u64],
            );
            assert(seq![n as u64].drop_last() =~= Seq::<u64>::empty());
            assert(fnv(h1, seq![n as u64]) == fnv_step(fnv(h1, Seq::<u64>::empty()), n as u64));
        }
        let lo = if n > RECENT {
            n - RECENT
        } else {
            0
        };
        let ghost bs = cv.bubbles;
        let ghost rec = recent(bs);
        proof {
            assert(rec =~= bs.subrange(lo as int, n as int));
        }
        let h = hash_recent(h2, &self.bubbles, lo);
        proof {
            lemma_fnv_append(
                FNV_OFFSET,
                text_symbols(cv.composer_id) + text_symbols(cv.title) + seq![n as u64],
                recent_symbols(rec),
            );
        }
        let mut out = String::new();
        push_hex(&mut out, h);
        proof {
            assert(out@ =~= hex_of(h as nat));
        }
        out
    }
}

/// Dropping the oldest message of `k..n` drops its symbols from the end.
proof fn lemma_recent_symbols_front(bs: Seq<BubbleView>, k: int, n: int)
    requires
        0 <= k < n <= bs.len(),
    ensures
        recent_symbols(bs.subrange(k, n)) == recent_symbols(bs.subrange(k + 1, n)) + text_symbols(
            bs[k].bubble_id,
        ) + text_symbols(bs[k].text),
    decreases n - k,
{
    let a = bs.subrange(k, n);
    let b = bs.subrange(k + 1, n);
    if n == k + 1 {
        assert(b =~= Seq::<BubbleView>::empty());
        assert(a.drop_last() =~= Seq::<BubbleView>::empty());
        assert(a.last() == bs[k]);
        assert(recent_symbols(a) =~= recent_symbols(b) + text_symbols(bs[k].bubble_id) + text_symbols(bs[k].text));
    } else {
        lemma_recent_symbols_front(bs, k, n - 1);
        assert(a.drop_last() =~= bs.subrange(k, n - 1));
        assert(b.drop_last() =~= bs.subrange(k + 1, n - 1));
        assert(a.last() == bs[n - 1]);
        assert(b.last() == bs[n - 1]);
        assert(recent_symbols(a) =~= recent_symbols(b) + text_symbols(bs[k].bubble_id) + text_symbols(bs[k].text));
    }
}

/// Whether two message sequences agree on the ids and texts of the messages
/// in `lo..len`.
pub open spec fn same_ids_and_texts(s: Seq<BubbleView>, t: Seq<BubbleView>, lo: int) -> bool {
    &&& s.len() == t.len()
    &&& forall|k: int| lo <= k < s.len() ==> (#[trigger] s[k]).bubble_id == t[k].bubble_id && s[k].text == t[k].text
}

proof fn lemma_recent_symbols_same(s: Seq<BubbleView>, t: Seq<BubbleView>)
    requires
        same_ids_and_texts(s, t, 0),
    ensures
        recent_symbols(s) == recent_symbols(t),
    decreases s.len(),
{
    if s.len() > 0 {
        assert(s.last() == s[s.len() - 1]);
        assert(t.last() == t[t.len() - 1]);
        assert forall|k: int| 0 <= k < s.drop_last().len() implies (#[trigger] s.drop_last()[k]).bubble_id
            == t.drop_last()[k].bubble_id && s.drop_last()[k].text == t.drop_last()[k].text by {
            assert(s.drop_last()[k] == s[k]);
            assert(t.drop_last()[k] == t[k]);
        }
        lemma_recent_symbols_same(s.drop_last(), t.drop_last());
    }
}

/// Two conversations with the same id, title, message count and the same
/// ids and texts in their five most recent messages have the same
/// fingerprint: edits to older messages go unnoticed, by design.
pub proof fn lemma_fingerprint_ignores_older_messages(a: ConversationView, b: ConversationView)
    requires
        a.composer_id == b.composer_id,
        a.title == b.title,
        same_ids_and_texts(a.bubbles, b.bubbles, a.bubbles.len() - RECENT),
    ensures
        fingerprint_of(a) == fingerprint_of(b),
{
    let ra = recent(a.bubbles);
    let rb = recent(b.bubbles);
    let lo = if a.bubbles.len() > RECENT { a.bubbles.len() - RECENT } else { 0 };
    assert forall|k: int| 0 <= k < ra.len() implies (#[trigger] ra[k]).bubble_id == rb[k].bubble_id
        && ra[k].text == rb[k].text by {
        assert(ra[k] == a.bubbles[lo + k]);
        assert(rb[k] == b.bubbles[lo + k]);
    }
    lemma_recent_symbols_same(ra, rb);
}

/// A text's symbols followed by anything determine the text and what follows.
proof fn lemma_text_symbols_injective(x: Seq<char>, y: Seq<char>, r1: Seq<u64>, r2: Seq<u64>)
    requires
        text_symbols(x) + r1 == text_symbols(y) + r2,
    ensures
        x == y,
        r1 == r2,
{
    let l = text_symbols(x) + r1;
    let m = text_symbols(y) + r2;
    if x.len() < y.len() {
        assert(l[x.len() as int] == TEXT_END);
        assert(m[x.len() as int] == y[x.len() as int] as u32 as u64);
        assert((y[x.len() as int] as u32 as u64) <= 0xFFFF_FFFF);
    } else if y.len() < x.len() {
        assert(m[y.len() as int] == TEXT_END);
        assert(l[y.len() as int] == x[y.len() as int] as u32 as u64);
        assert((x[y.len() as int] as u32 as u64) <= 0xFFFF_FFFF);
    }
    assert forall|i: int| 0 <= i < x.len() implies x[i] == y[i] by {
        assert(l[i] == x[i] as u32 as u64);
        assert(m[i] == y[i] as u32 as u64);
        vstd::utf8::char_u32_cast(x[i], x[i] as u32);
        vstd::utf8::char_u32_cast(y[i], y[i] as u32);
    }
    assert(x =~= y);
    assert(r1 =~= l.subrange(x.len() as int + 1, l.len() as int));
    assert(r2 =~= m.subrange(y.len() as int + 1, m.len() as int));
}

proof fn lemma_recent_symbols_determine(s: Seq<BubbleView>, t: Seq<BubbleView>)
    requires
        s.len() == t.len(),
        recent_symbols(s) == recent_symbols(t),
    ensures
        same_ids_and_texts(s, t, 0),
    decreases s.len(),
{
    if s.len() > 0 {
        let a = s.last();
        let b = t.last();
        assert(recent_symbols(s) =~= text_symbols(a.bubble_id) + (text_symbols(a.text) + recent_symbols(s.drop_last())));
        assert(recent_symbols(t) =~= text_symbols(b.bubble_id) + (text_symbols(b.text) + recent_symbols(t.drop_last())));
        lemma_text_symbols_injective(
            a.bubble_id,
            b.bubble_id,
            text_symbols(a.text) + recent_symbols(s.drop_last()),
            text_symbols(b.text) + recent_symbols(t.drop_last()),
        );
        lemma_text_symbols_injective(a.text, b.text, recent_symbols(s.drop_last()), recent_symbols(t.drop_last()));
        lemma_recent_symbols_determine(s.drop_last(), t.drop_last());
        assert forall|k: int| 0 <= k < s.len() implies (#[trigger] s[k]).bubble_id == t[k].bubble_id
            && s[k].text == t[k].text by {
            if k < s.len() - 1 {
                assert(s.drop_last()[k] == s[k]);
                assert(t.drop_last()[k] == t[k]);
            }
        }
    }
}

/// Changing the text of one of the five most recent messages, all else
/// equal, changes what the fingerprint is computed over. (The hash of two
/// different inputs may still collide; fingerprints tolerate that.)
pub proof fn lemma_recent_text_change_is_seen(a: ConversationView, b: ConversationView, k: int)
    requires
        a.composer_id == b.composer_id,
        a.title == b.title,
        a.bubbles.len() == b.bubbles.len(),
        a.bubbles.len() - RECENT <= k < a.bubbles.len(),
        0 <= k,
        a.bubbles[k].text != b.bubbles[k].text,
        forall|j: int| 0 <= j < a.bubbles.len() && j != k ==> #[trigger] a.bubbles[j] == b.bubbles[j],
        a.bubbles[k].bubble_id == b.bubbles[k].bubble_id,
    ensures
        fingerprint_symbols(a) != fingerprint_symbols(b),
{
    let ra = recent(a.bubbles);
    let rb = recent(b.bubbles);
    let lo = if a.bubbles.len() > RECENT { a.bubbles.len() - RECENT } else { 0 };
    let p = text_symbols(a.composer_id) + text_symbols(a.title) + seq![a.bubbles.len() as u64];
    if fingerprint_symbols(a) == fingerprint_symbols(b) {
        assert(recent_symbols(ra) =~= fingerprint_symbols(a).subrange(p.len() as int, fingerprint_symbols(a).len() as int));
        assert(recent_symbols(rb) =~= fingerprint_symbols(b).subrange(p.len() as int, fingerprint_symbols(b).len() as int));
        lemma_recent_symbols_determine(ra, rb);
        assert(ra[k - lo] == a.bubbles[k]);
        assert(rb[k - lo] == b.bubbles[k]);
    }
}

} // verus!
