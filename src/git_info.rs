//! Repository status of a project and its one-line summaries.

use vstd::prelude::*;
use vstd::string::*;

use crate::text::{decimal_of, push_decimal};

verus! {

/// The status of a project's repository.
#[derive(Debug, Clone, Default, PartialEq, Eq)]
pub struct GitInfo {
    /// Current branch name (none on a detached head).
    pub branch: Option<String>,
    /// Whether there are uncommitted changes.
    pub is_dirty: bool,
    /// Commits ahead of upstream.
    pub ahead: u32,
    /// Commits behind upstream.
    pub behind: u32,
    /// Files staged.
    pub staged_count: u32,
    /// Files modified and not staged.
    pub unstaged_count: u32,
    /// The modified files, when the detailed level asks for them.
    pub modified_files: Vec<String>,
}

/// The branch shown: its name, or `HEAD` on a detached head.
pub open spec fn branch_text(branch: Option<String>) -> Seq<char> {
    match branch {
        Some(b) => b@,
        None => "HEAD"@,
    }
}

/// The short summary: the branch, then ` *` when there are changes.
pub open spec fn minimal_text(g: GitInfo) -> Seq<char> {
    branch_text(g.branch) + if g.is_dirty { " *"@ } else { ""@ }
}

/// The standard summary: the short one, then ` | +A -B` when the branch is
/// ahead or behind, then ` | SS UU` when files are staged or modified.
pub open spec fn standard_text(g: GitInfo) -> Seq<char> {
    minimal_text(g) + if g.ahead > 0 || g.behind > 0 {
        " | +"@ + decimal_of(g.ahead as nat) + " -"@ + decimal_of(g.behind as nat)
    } else {
        ""@
    } + if g.staged_count > 0 || g.unstaged_count > 0 {
        " | "@ + decimal_of(g.staged_count as nat) + "S "@ + decimal_of(g.unstaged_count as nat) + "U"@
    } else {
        ""@
    }
}

impl GitInfo {
    /// The short summary, such as `main *` or `main`.
    pub fn format_minimal(&self) -> (r: String)
        ensures
            r@ == minimal_text(*self),
    {
        let mut r = match &self.branch {
            Some(b) => b.clone(),
            None => String::from_str("HEAD"),
        };
        proof {
            reveal_strlit("");
        }
        if self.is_dirty {
            r.append(" *");
        }
        assert(r@ =~= minimal_text(*self));
        r
    }

    /// The standard summary, such as `main * | +2 -1 | 3S 2U`.
    pub fn format_standard(&self) -> (r: String)
        ensures
            r@ == standard_text(*self),
    {
        let mut r = self.format_minimal();
        let ghost base = r@;
        proof {
            reveal_strlit("");
        }
        if self.ahead > 0 || self.behind > 0 {
            r.append(" | +");
            push_decimal(&mut r, self.ahead as u64);
            r.append(" -");
            push_decimal(&mut r, self.behind as u64);
        }
        let ghost mid = r@;
        if self.staged_count > 0 || self.unstaged_count > 0 {
            r.append(" | ");
            push_decimal(&mut r, self.staged_count as u64);
            r.append("S ");
            push_decimal(&mut r, self.unstaged_count as u64);
            r.append("U");
        }
        assert(r@ =~= standard_text(*self));
        r
    }
}

/// How many entries have their first flag set (`first`) or their second.
pub open spec fn count_flagged(flags: Seq<(bool, bool)>, first: bool) -> nat
    decreases flags.len(),
{
    if flags.len() == 0 {
        0
    } else {
        count_flagged(flags.drop_last(), first) + if (if first { flags.last().0 } else { flags.last().1 }) {
            1nat
        } else {
            0nat
        }
    }
}

/// The count, or the largest `u32` when it does not fit.
pub open spec fn capped(n: nat) -> u32 {
    if n <= u32::MAX { n as u32 } else { u32::MAX }
}

/// Counts the staged and the unstaged files, given for each file whether
/// it has staged changes and whether it has unstaged ones.
pub fn count_changes(flags: &Vec<(bool, bool)>) -> (r: (u32, u32))
    ensures
        r.0 == capped(count_flagged(flags@, true)),
        r.1 == capped(count_flagged(flags@, false)),
{
    let mut staged: u32 = 0;
    let mut unstaged: u32 = 0;
    let n = flags.len();
    let mut i: usize = 0;
    while i < n
        invariant
            n == flags.len(),
            i <= n,
            staged == capped(count_flagged(flags@.take(i as int), true)),
            unstaged == capped(count_flagged(flags@.take(i as int), false)),
        decreases n - i,
    {
        assert(flags@.take(i + 1).drop_last() =~= flags@.take(i as int));
        let (s, u) = flags[i];
        if s && staged < u32::MAX {
            staged = staged + 1;
        }
        if u && unstaged < u32::MAX {
            unstaged = unstaged + 1;
        }
        i = i + 1;
    }
    assert(flags@.take(n as int) =~= flags@);
    (staged, unstaged)
}

} // verus!
