//! Results of the service and reset operations, and the file-name patterns
//! those operations match.

use vstd::prelude::*;
use crate::config::AppConfig;

verus! {

/// Whether a file name matches a pattern in which `*` stands for any run of
/// characters (possibly empty) and every other character for itself.
pub open spec fn pattern_matches(name: Seq<char>, pattern: Seq<char>) -> bool
    decreases pattern.len(), name.len(),
{
    if pattern.len() == 0 {
        name.len() == 0
    } else if pattern[0] == '*' {
        pattern_matches(name, pattern.drop_first()) || (name.len() > 0 && pattern_matches(
            name.drop_first(),
            pattern,
        ))
    } else {
        name.len() > 0 && name[0] == pattern[0] && pattern_matches(name.drop_first(), pattern.drop_first())
    }
}

/// Whether the tail of `name` from `i` matches the tail of `pattern` from `j`.
pub open spec fn tail_matches(name: Seq<char>, i: int, pattern: Seq<char>, j: int) -> bool {
    pattern_matches(name.subrange(i, name.len() as int), pattern.subrange(j, pattern.len() as int))
}

proof fn lemma_tail_step(name: Seq<char>, i: int, pattern: Seq<char>, j: int)
    requires
        0 <= i <= name.len(),
        0 <= j < pattern.len(),
    ensures
        tail_matches(name, i, pattern, j) == if pattern[j] == '*' {
            tail_matches(name, i, pattern, j + 1) || (i < name.len() && tail_matches(name, i + 1, pattern, j))
        } else {
            i < name.len() && name[i] == pattern[j] && tail_matches(name, i + 1, pattern, j + 1)
        },
{
    let n = name.subrange(i, name.len() as int);
    let p = pattern.subrange(j, pattern.len() as int);
    assert(p.drop_first() =~= pattern.subrange(j + 1, pattern.len() as int));
    if i < name.len() {
        assert(n.drop_first() =~= name.subrange(i + 1, name.len() as int));
    }
}

fn chars_of(s: &str) -> (r: Vec<char>)
    ensures
        r@ == s@,
{
    let n = s.unicode_len();
    let mut v: Vec<char> = Vec::new();
    let mut i: usize = 0;
    while i < n
        invariant
            n == s@.len(),
            i <= n,
            v@ =~= s@.subrange(0, i as int),
        decreases n - i,
    {
        v.push(s.get_char(i));
        i = i + 1;
    }
    v
}

fn all_false(n: usize) -> (r: Vec<bool>)
    ensures
        r@.len() == n,
        forall|i: int| 0 <= i < n ==> !r@[i],
{
    let mut v: Vec<bool> = Vec::new();
    let mut t: usize = 0;
    while t < n
        invariant
            t <= n,
            v@.len() == t,
            forall|i: int| 0 <= i < t ==> !v@[i],
        decreases n - t,
    {
        v.push(false);
        t = t + 1;
    }
    v
}

/// Whether `name` matches `pattern`, where `*` stands for any run of characters.
pub fn matches_pattern(name: &str, pattern: &str) -> (r: bool)
    ensures
        r == pattern_matches(name@, pattern@),
{
    let nm = chars_of(name);
    let pt = chars_of(pattern);
    let n = nm.len();
    let m = pt.len();
    // next[i] and next_end: whether the name's tail from i (from n) matches the pattern's tail from j
    let mut next = all_false(n);
    let mut next_end = true;
    proof {
        assert(pt@.subrange(m as int, m as int) =~= Seq::<char>::empty());
        assert(nm@.subrange(n as int, n as int) =~= Seq::<char>::empty());
        assert forall|i: int| 0 <= i < n implies next@[i] == tail_matches(nm@, i, pt@, m as int) by {
            assert(nm@.subrange(i, n as int).len() > 0);
        }
    }
    let mut j: usize = m;
    while j > 0
        invariant
            j <= m,
            m == pt@.len(),
            n == nm@.len(),
            next@.len() == n,
            forall|i: int| 0 <= i < n ==> next@[i] == tail_matches(nm@, i, pt@, j as int),
            next_end == tail_matches(nm@, n as int, pt@, j as int),
        decreases j,
    {
        let pc = pt[j - 1];
        proof {
            lemma_tail_step(nm@, n as int, pt@, j - 1);
        }
        let cur_end = if pc == '*' {
            next_end
        } else {
            false
        };
        let mut cur = all_false(n);
        let mut i: usize = n;
        while i > 0
            invariant
                i <= n,
                1 <= j <= m,
                m == pt@.len(),
                n == nm@.len(),
                pc == pt@[j - 1],
                cur@.len() == n,
                next@.len() == n,
                forall|q: int| 0 <= q < n ==> next@[q] == tail_matches(nm@, q, pt@, j as int),
                next_end == tail_matches(nm@, n as int, pt@, j as int),
                cur_end == tail_matches(nm@, n as int, pt@, j - 1),
                forall|q: int| i <= q < n ==> cur@[q] == tail_matches(nm@, q, pt@, j - 1),
            decreases i,
        {
            let q = i - 1;
            let v = if pc == '*' {
                next[q] || (if q + 1 < n {
                    cur[q + 1]
                } else {
                    cur_end
                })
            } else {
                nm[q] == pc && (if q + 1 < n {
                    next[q + 1]
                } else {
                    next_end
                })
            };
            proof {
                lemma_tail_step(nm@, q as int, pt@, j - 1);
            }
            cur.set(q, v);
            i = i - 1;
        }
        next = cur;
        next_end = cur_end;
        j = j - 1;
    }
    proof {
        assert(nm@.subrange(0, n as int) =~= nm@);
        assert(pt@.subrange(0, m as int) =~= pt@);
    }
    if n == 0 {
        next_end
    } else {
        next[0]
    }
}

/// Result of signalling the editor's processes.
#[derive(Debug, Clone, Copy, PartialEq, Eq, Structural)]
pub struct KillResult {
    /// Processes signalled.
    pub killed: usize,
}

impl Default for KillResult {
    fn default() -> (r: KillResult)
        ensures
            r.killed == 0,
    {
        KillResult { killed: 0 }
    }
}

/// Result of regenerating the machine id.
#[derive(Debug, Clone)]
pub struct MachineIdResult {
    /// The new machine id.
    pub new_id: String,
}

/// Counts of a cleanup of files and directories.
#[derive(Debug, Clone)]
pub struct CleanupStats {
    /// Directories removed.
    pub dirs_removed: usize,
    /// Files removed.
    pub files_removed: usize,
    /// Paths removed.
    pub paths_cleaned: Vec<String>,
    /// Paths that were not there.
    pub paths_skipped: Vec<String>,
}

impl Default for CleanupStats {
    fn default() -> (r: CleanupStats)
        ensures
            r.dirs_removed == 0 && r.files_removed == 0 && r.paths_cleaned@.len() == 0
                && r.paths_skipped@.len() == 0,
    {
        CleanupStats { dirs_removed: 0, files_removed: 0, paths_cleaned: Vec::new(), paths_skipped: Vec::new() }
    }
}

impl CleanupStats {
    /// Adds the counts and paths of another cleanup to these.
    pub fn merge(&mut self, other: CleanupStats)
        requires
            old(self).dirs_removed + other.dirs_removed <= usize::MAX,
            old(self).files_removed + other.files_removed <= usize::MAX,
        ensures
            final(self).dirs_removed == old(self).dirs_removed + other.dirs_removed,
            final(self).files_removed == old(self).files_removed + other.files_removed,
            final(self).paths_cleaned@ == old(self).paths_cleaned@ + other.paths_cleaned@,
            final(self).paths_skipped@ == old(self).paths_skipped@ + other.paths_skipped@,
    {
        let CleanupStats { dirs_removed, files_removed, paths_cleaned, paths_skipped } = other;
        let mut cleaned = paths_cleaned;
        let mut skipped = paths_skipped;
        self.dirs_removed = self.dirs_removed + dirs_removed;
        self.files_removed = self.files_removed + files_removed;
        self.paths_cleaned.append(&mut cleaned);
        self.paths_skipped.append(&mut skipped);
    }
}

/// Outcome of a full reset of the editor's installation.
#[derive(Debug, Clone)]
pub struct ResetResult {
    pub kill_result: KillResult,
    pub config_stats: CleanupStats,
    pub desktop_stats: CleanupStats,
    pub appimage_stats: CleanupStats,
    pub machine_id: MachineIdResult,
}

/// Settings of a reset of the editor's installation.
#[derive(Debug, Clone)]
pub struct CursorReset {
    /// Whether downloaded application images are removed too.
    pub clean_appimage: bool,
    /// Where downloaded application images are looked for.
    pub downloads_dir: String,
}

impl CursorReset {
    /// Reset settings.
    pub fn new(clean_appimage: bool, downloads_dir: String) -> (r: CursorReset)
        ensures
            r.clean_appimage == clean_appimage && r.downloads_dir == downloads_dir,
    {
        CursorReset { clean_appimage, downloads_dir }
    }
}

/// Result of installing the background service.
#[derive(Debug, Clone)]
pub struct InstallResult {
    /// Where the unit file was written.
    pub service_path: String,
    /// Content of the unit file.
    pub unit_content: String,
}

/// State of the background service.
#[derive(Debug, Clone)]
pub struct ServiceStatus {
    pub is_installed: bool,
    pub is_enabled: bool,
    pub is_running: bool,
    /// Full status text reported by the service manager.
    pub status_text: String,
}

/// The short description of a service state.
pub open spec fn short_status_of(installed: bool, enabled: bool, running: bool) -> Seq<char> {
    if !installed {
        "not installed"@
    } else if !enabled && !running {
        "installed, disabled"@
    } else if enabled && !running {
        "enabled, stopped"@
    } else if !enabled && running {
        "running (not enabled)"@
    } else {
        "running"@
    }
}

impl ServiceStatus {
    /// A short description of the state.
    pub fn short_status(&self) -> (r: &'static str)
        ensures
            r@ == short_status_of(self.is_installed, self.is_enabled, self.is_running),
    {
        match (self.is_installed, self.is_enabled, self.is_running) {
            (false, _, _) => "not installed",
            (true, false, false) => "installed, disabled",
            (true, true, false) => "enabled, stopped",
            (true, false, true) => "running (not enabled)",
            (true, true, true) => "running",
        }
    }
}

/// Manager of the background service's unit.
#[derive(Debug, Clone)]
pub struct SystemdService {
    config: AppConfig,
}

impl SystemdService {
    /// A manager for the given configuration.
    pub fn new(config: AppConfig) -> (r: SystemdService)
        ensures
            r.config_value() == config,
    {
        SystemdService { config }
    }

    /// The configuration of the manager.
    pub closed spec fn config_value(&self) -> AppConfig {
        self.config
    }

    /// The configuration the manager was made with.
    pub fn config(&self) -> (r: &AppConfig)
        ensures
            *r == self.config_value(),
    {
        &self.config
    }
}

} // verus!
