//! Output formats and short display text.

use vstd::prelude::*;
use vstd::string::StringExecFns;
use crate::text::{lower_of, lowercase, owned};

verus! {

/// How conversations are printed.
#[derive(Debug, Clone, Copy, PartialEq, Eq, Structural)]
pub enum OutputFormat {
    /// Human-readable Markdown.
    Markdown,
    /// JSON for programs.
    Json,
    /// A compact table.
    Table,
}

impl Default for OutputFormat {
    fn default() -> (r: OutputFormat)
        ensures
            r == OutputFormat::Markdown,
    {
        OutputFormat::Markdown
    }
}

/// The format a (lower-cased) name selects.
pub open spec fn format_of_name(lower: Seq<char>) -> Option<OutputFormat> {
    if lower == "markdown"@ || lower == "md"@ {
        Some(OutputFormat::Markdown)
    } else if lower == "json"@ {
        Some(OutputFormat::Json)
    } else if lower == "table"@ {
        Some(OutputFormat::Table)
    } else {
        None
    }
}

fn same(a: &str, b: &str) -> (r: bool)
    ensures
        r == (a@ == b@),
{
    let r = a.unicode_len() == b.unicode_len() && crate::text::matches_at(a, 0, b);
    proof {
        if a@ == b@ {
            assert(a@.subrange(0, b@.len() as int) =~= a@);
        }
        if r {
            assert(a@.subrange(0, b@.len() as int) =~= a@);
        }
    }
    r
}

impl OutputFormat {
    /// The format a name selects, in any letter case.
    pub fn parse_name(s: &str) -> (r: Option<OutputFormat>)
        ensures
            r == format_of_name(lower_of(s@)),
    {
        let l = lowercase(s);
        let t = l.as_str();
        if same(t, "markdown") || same(t, "md") {
            Some(OutputFormat::Markdown)
        } else if same(t, "json") {
            Some(OutputFormat::Json)
        } else if same(t, "table") {
            Some(OutputFormat::Table)
        } else {
            None
        }
    }
}

impl std::str::FromStr for OutputFormat {
    type Err = String;

    fn from_str(s: &str) -> Result<OutputFormat, String> {
        match OutputFormat::parse_name(s) {
            Some(f) => Ok(f),
            None => {
                let mut m = owned("Unknown format: ");
                m.append(s);
                m.append(". Use: markdown, json, table");
                Err(m)
            },
        }
    }
}

/// The first line of `s`: up to the first line feed, without the carriage
/// return of a `\r\n` ending.
pub open spec fn first_line(s: Seq<char>) -> Seq<char> {
    let k = line_end(s);
    if 0 < k < s.len() && s[k - 1] == '\r' {
        s.subrange(0, k - 1)
    } else {
        s.subrange(0, k)
    }
}

/// Index of the first line feed of `s`, or its length.
pub open spec fn line_end(s: Seq<char>) -> int
    decreases s.len(),
{
    if s.len() == 0 {
        0
    } else if s[0] == '\n' {
        0
    } else {
        1 + line_end(s.drop_first())
    }
}

/// Text cut to `max` characters: its first line, and when that is longer,
/// its first `max - 3` characters followed by `...`.
pub open spec fn truncated(s: Seq<char>, max: nat) -> Seq<char> {
    let l = first_line(s);
    if l.len() <= max {
        l
    } else {
        l.subrange(0, max - 3) + "..."@
    }
}

proof fn lemma_line_end(s: Seq<char>)
    ensures
        0 <= line_end(s) <= s.len(),
        line_end(s) < s.len() ==> s[line_end(s)] == '\n',
        forall|j: int| 0 <= j < line_end(s) ==> s[j] != '\n',
    decreases s.len(),
{
    if s.len() > 0 && s[0] != '\n' {
        lemma_line_end(s.drop_first());
        assert forall|j: int| 0 <= j < line_end(s) implies s[j] != '\n' by {
            if j > 0 {
                assert(s[j] == s.drop_first()[j - 1]);
            }
        }
    }
}

/// Cuts text for a one-line display (see `truncated`).
pub fn truncate(s: &str, max_len: usize) -> (r: String)
    requires
        max_len >= 3,
    ensures
        r@ == truncated(s@, max_len as nat),
{
    let n = s.unicode_len();
    let mut k: usize = 0;
    proof {
        lemma_line_end(s@);
    }
    while k < n && s.get_char(k) != '\n'
        invariant
            n == s@.len(),
            k <= n,
            k <= line_end(s@),
            0 <= line_end(s@) <= n,
            line_end(s@) < n ==> s@[line_end(s@)] == '\n',
            forall|j: int| 0 <= j < line_end(s@) ==> s@[j] != '\n',
        decreases n - k,
    {
        k = k + 1;
    }
    proof {
        if k < n {
            assert(s@[k as int] == '\n');
        }
    }
    let end = if k > 0 && k < n && s.get_char(k - 1) == '\r' {
        k - 1
    } else {
        k
    };
    let line = s.substring_char(0, end);
    if end <= max_len {
        owned(line)
    } else {
        let mut out = owned(line.substring_char(0, max_len - 3));
        out.append("...");
        out
    }
}

} // verus!
