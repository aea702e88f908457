//! Workspaces (projects) that conversations belong to.

use vstd::prelude::*;
use crate::model::opt_text;
use crate::text::{owned, strip_prefix, has_prefix};

verus! {

/// A workspace, derived from the hints a message carries.
#[derive(Debug, Clone)]
pub struct WorkspaceInfo {
    /// Project name: the last segment of its path.
    pub name: String,
    /// Path of the project on disk.
    pub path: Option<String>,
    /// The origin's own path for the workspace.
    pub cursor_path: Option<String>,
}

/// Index just after the last `/` of `p` (zero when there is none).
pub open spec fn segment_start(p: Seq<char>) -> int
    decreases p.len(),
{
    if p.len() == 0 {
        0
    } else if p.last() == '/' {
        p.len() as int
    } else {
        segment_start(p.drop_last())
    }
}

/// The last component of a path, as `Path::file_name` gives it: trailing
/// `/` and `.` components are ignored, and a final `..` gives none.
pub open spec fn file_name_of(p: Seq<char>) -> Option<Seq<char>>
    decreases p.len(),
{
    if p.len() == 0 {
        None
    } else if p.last() == '/' || (p.last() == '.' && (p.len() == 1 || p[p.len() - 2] == '/')) {
        file_name_of(p.drop_last())
    } else {
        let seg = p.subrange(segment_start(p), p.len() as int);
        if seg == seq!['.', '.'] {
            None
        } else {
            Some(seg)
        }
    }
}

/// Name given to a workspace whose path has no last component.
pub open spec fn unknown_name() -> Seq<char> {
    "unknown"@
}

/// The name of a workspace with this path.
pub open spec fn name_of_path(path: Option<Seq<char>>) -> Seq<char> {
    match path {
        Some(p) => match file_name_of(p) {
            Some(n) => n,
            None => unknown_name(),
        },
        None => unknown_name(),
    }
}

proof fn lemma_segment_start_bounds(p: Seq<char>)
    ensures
        0 <= segment_start(p) <= p.len(),
        forall|j: int| segment_start(p) <= j < p.len() ==> p[j] != '/',
        segment_start(p) > 0 ==> p[segment_start(p) - 1] == '/',
    decreases p.len(),
{
    if p.len() > 0 && p.last() != '/' {
        lemma_segment_start_bounds(p.drop_last());
        assert forall|j: int| segment_start(p) <= j < p.len() implies p[j] != '/' by {
            if j < p.len() - 1 {
                assert(p.drop_last()[j] == p[j]);
            }
        }
        if segment_start(p) > 0 {
            assert(p.drop_last()[segment_start(p) - 1] == p[segment_start(p) - 1]);
        }
    }
}

proof fn lemma_segment_start_of_prefix(p: Seq<char>, start: int)
    requires
        0 <= start <= p.len(),
        forall|j: int| start <= j < p.len() ==> p[j] != '/',
        start == 0 || p[start - 1] == '/',
    ensures
        segment_start(p) == start,
    decreases p.len(),
{
    if p.len() > start {
        assert(p.drop_last().len() >= start);
        assert forall|j: int| start <= j < p.drop_last().len() implies p.drop_last()[j] != '/' by {
            assert(p.drop_last()[j] == p[j]);
        }
        if start > 0 {
            assert(p.drop_last()[start - 1] == p[start - 1]);
        }
        lemma_segment_start_of_prefix(p.drop_last(), start);
    } else if start > 0 {
        assert(p.last() == p[start - 1]);
    }
}

/// The last component of a path.
pub fn file_name(p: &str) -> (r: Option<&str>)
    ensures
        r.is_some() == file_name_of(p@).is_some(),
        r.is_some() ==> r.unwrap()@ == file_name_of(p@).unwrap(),
{
    let n = p.unicode_len();
    let mut end: usize = n;
    proof {
        assert(p@.subrange(0, n as int) =~= p@);
    }
    loop
        invariant
            n == p@.len(),
            end <= n,
            file_name_of(p@) == file_name_of(p@.subrange(0, end as int)),
        decreases end,
    {
        let ghost q = p@.subrange(0, end as int);
        if end == 0 {
            return None;
        }
        let c = p.get_char(end - 1);
        proof {
            assert(q.last() == c);
            assert(q.drop_last() =~= p@.subrange(0, end - 1));
            if end >= 2 {
                assert(q[end - 2] == p@[end - 2]);
            }
        }
        if c == '/' || (c == '.' && (end == 1 || p.get_char(end - 2) == '/')) {
            end = end - 1;
        } else {
            let mut start: usize = end;
            while start > 0 && p.get_char(start - 1) != '/'
                invariant
                    start <= end,
                    end <= n,
                    n == p@.len(),
                    forall|j: int| start <= j < end ==> p@[j] != '/',
                decreases start,
            {
                start = start - 1;
            }
            proof {
                assert forall|j: int| start <= j < q.len() implies q[j] != '/' by {
                    assert(q[j] == p@[j]);
                }
                if start > 0 {
                    assert(q[start - 1] == p@[start - 1]);
                }
                lemma_segment_start_of_prefix(q, start as int);
            }
            let seg = p.substring_char(start, end);
            proof {
                assert(seg@ =~= q.subrange(start as int, end as int));
            }
            if end - start == 2 && seg.get_char(0) == '.' && seg.get_char(1) == '.' {
                proof {
                    assert(seg@ =~= seq!['.', '.']);
                }
                return None;
            }
            proof {
                if seg@ == seq!['.', '.'] {
                    assert(seg@[0] == '.' && seg@[1] == '.');
                }
            }
            return Some(seg);
        }
    }
}

impl WorkspaceInfo {
    /// A workspace from a URI such as `file:///path/to/project`; a URI of
    /// another scheme gives no path.
    pub fn from_uri(uri: &str) -> (r: WorkspaceInfo)
        ensures
            opt_text(r.path) == (if has_prefix(uri@, "file://"@) {
                Some(uri@.subrange("file://"@.len() as int, uri@.len() as int))
            } else {
                None
            }),
            r.name@ == name_of_path(opt_text(r.path)),
            r.cursor_path.is_none(),
    {
        let path = match strip_prefix(uri, "file://") {
            Some(p) => Some(owned(p)),
            None => None,
        };
        let name = match &path {
            Some(p) => match file_name(p.as_str()) {
                Some(n) => owned(n),
                None => owned("unknown"),
            },
            None => owned("unknown"),
        };
        WorkspaceInfo { name, path, cursor_path: None }
    }

    /// A workspace from its path and the origin's own path for it.
    pub fn new(path: String, cursor_path: Option<String>) -> (r: WorkspaceInfo)
        ensures
            opt_text(r.path) == Some(path@),
            r.name@ == name_of_path(Some(path@)),
            opt_text(r.cursor_path) == opt_text(cursor_path),
    {
        let name = match file_name(path.as_str()) {
            Some(n) => owned(n),
            None => owned("unknown"),
        };
        WorkspaceInfo { name, path: Some(path), cursor_path }
    }
}

} // verus!
