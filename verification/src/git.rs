//! Reading git state for status-line tokens: the branch named by a
//! `HEAD` file, the git directory named by a `.git` file, and whether
//! `git status --porcelain` output shows changes.

use vstd::prelude::*;
use vstd::string::*;
use crate::text::{chars_of, is_space, string_from_range, trim, trim_chars, trim_end, trim_start};

verus! {

/// Whether `prefix` begins `s`.
pub open spec fn has_prefix(s: Seq<char>, prefix: Seq<char>) -> bool {
    prefix.len() <= s.len() && s.take(prefix.len() as int) == prefix
}

pub(crate) fn strip_prefix_chars(s: &[char], prefix: &str) -> (r: Option<Vec<char>>)
    ensures
        match r {
            Some(rest) => has_prefix(s@, prefix@) && rest@ == s@.skip(prefix@.len() as int),
            None => !has_prefix(s@, prefix@),
        },
{
    let p = chars_of(prefix);
    if p.len() > s.len() {
        return None;
    }
    let mut i: usize = 0;
    while i < p.len()
        invariant
            p.len() <= s.len(),
            p@ == prefix@,
            i <= p.len(),
            forall|j: int| 0 <= j < i ==> s@[j] == p@[j],
        decreases p.len() - i,
    {
        if s[i] != p[i] {
            assert(s@.take(p.len() as int)[i as int] != p@[i as int]);
            return None;
        }
        i = i + 1;
    }
    assert(s@.take(p.len() as int) =~= p@);
    let rest = crate::text::sub_chars(s, p.len(), s.len());
    assert(rest@ =~= s@.skip(prefix@.len() as int));
    Some(rest)
}

/// Whether `git status --porcelain` output lists any entry: blank output
/// means a clean tree.
pub fn dirty_from_porcelain(output: &str) -> (r: bool)
    ensures
        r == (trim(output@).len() > 0),
{
    let chars = chars_of(output);
    trim_chars(&chars).len() > 0
}

/// Whether a character is an ASCII hexadecimal digit.
pub open spec fn is_hex_digit(c: char) -> bool {
    ('0' <= c && c <= '9') || ('a' <= c && c <= 'f') || ('A' <= c && c <= 'F')
}

/// The branch a `HEAD` file names: after `ref: `, the reference without
/// `refs/heads/` (none when that leaves nothing); for a detached HEAD, the
/// first seven digits of its commit hash.
pub open spec fn branch_from_head_spec(contents: Seq<char>) -> Option<Seq<char>> {
    let head = trim(contents);
    if has_prefix(head, "ref: "@) {
        let reference = head.skip(5);
        let branch = if has_prefix(reference, "refs/heads/"@) {
            reference.skip(11)
        } else {
            reference
        };
        if branch.len() == 0 {
            None
        } else {
            Some(branch)
        }
    } else if head.len() >= 7 && forall|i: int| 0 <= i < head.len() ==> is_hex_digit(#[trigger] head[i]) {
        Some(head.take(7))
    } else {
        None
    }
}

/// The branch a `HEAD` file names.
pub fn branch_from_head(contents: &str) -> (r: Option<String>)
    ensures
        match branch_from_head_spec(contents@) {
            Some(b) => r matches Some(s) && s@ == b,
            None => r is None,
        },
{
    let chars = chars_of(contents);
    let head = trim_chars(&chars);
    proof {
        reveal_strlit("ref: ");
        reveal_strlit("refs/heads/");
    }
    match strip_prefix_chars(&head, "ref: ") {
        Some(reference) => {
            let branch = match strip_prefix_chars(&reference, "refs/heads/") {
                Some(b) => b,
                None => reference,
            };
            if branch.len() == 0 {
                return None;
            }
            return Some(crate::text::string_from_chars(&branch));
        },
        None => {},
    }
    if head.len() < 7 {
        return None;
    }
    let mut i: usize = 0;
    while i < head.len()
        invariant
            i <= head.len(),
            head@ == trim(contents@),
            head.len() >= 7,
            !has_prefix(head@, "ref: "@),
            forall|j: int| 0 <= j < i ==> is_hex_digit(#[trigger] head@[j]),
        decreases head.len() - i,
    {
        let c = head[i];
        if !(('0' <= c && c <= '9') || ('a' <= c && c <= 'f') || ('A' <= c && c <= 'F')) {
            assert(!is_hex_digit(head@[i as int]));
            return None;
        }
        i = i + 1;
    }
    let s = string_from_range(&head, 0, 7);
    assert(head@.subrange(0, 7) =~= head@.take(7));
    Some(s)
}

/// The git directory a `.git` file names after `gitdir: `.
pub open spec fn gitdir_from_file_spec(contents: Seq<char>) -> Option<Seq<char>> {
    let t = trim(contents);
    if has_prefix(t, "gitdir: "@) {
        Some(t.skip(8))
    } else {
        None
    }
}

/// The git directory a `.git` file (of a worktree or submodule) names.
pub fn gitdir_from_file(contents: &str) -> (r: Option<String>)
    ensures
        match gitdir_from_file_spec(contents@) {
            Some(d) => r matches Some(s) && s@ == d,
            None => r is None,
        },
{
    let chars = chars_of(contents);
    let t = trim_chars(&chars);
    proof {
        reveal_strlit("gitdir: ");
    }
    match strip_prefix_chars(&t, "gitdir: ") {
        Some(rest) => Some(crate::text::string_from_chars(&rest)),
        None => None,
    }
}

/// How long a cached dirty result is reused, in milliseconds.
pub const DIRTY_TTL_MS: u64 = 2000;

/// Whether a dirty result checked at `checked_at` may still be used at
/// `now` (both in milliseconds on one clock): less than the reuse time has
/// passed, counting a check from the future as just made.
pub fn dirty_cache_fresh(checked_at: u64, now: u64) -> (r: bool)
    ensures
        r == (now < checked_at + DIRTY_TTL_MS),
{
    now < checked_at || now - checked_at < DIRTY_TTL_MS
}


/// A `HEAD` file that points at a local branch names that branch, whatever
/// the branch is called (slashes included), once the line's trailing
/// newline is dropped.
pub proof fn law_branch_from_head_names_local_branch(branch: Seq<char>)
    requires
        branch.len() > 0,
        !is_space(branch.last()),
    ensures
        branch_from_head_spec("ref: refs/heads/"@ + branch + "\n"@) == Some(branch),
{
    reveal_strlit("ref: refs/heads/");
    reveal_strlit("ref: ");
    reveal_strlit("refs/heads/");
    reveal_strlit("\n");
    let line = "ref: refs/heads/"@ + branch;
    let contents = line + "\n"@;
    assert(!is_space(contents[0]));
    assert(trim_start(contents) == contents);
    assert(contents.drop_last() =~= line);
    assert(line.last() == branch.last());
    assert(trim_end(line) == line);
    assert(trim_end(contents) == line);
    assert(trim(contents) == line);
    assert(line.take(5) =~= "ref: "@);
    let reference = line.skip(5);
    assert(reference =~= "refs/heads/"@ + branch);
    assert(reference.take(11) =~= "refs/heads/"@);
    assert(reference.skip(11) =~= branch);
}

} // verus!
