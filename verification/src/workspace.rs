//! Workspace bindings and the display label a tab shows for one.
//!
//! A tab may be bound to a workspace: a directory on this machine, or one on
//! a remote host reached as `user@host`.  The tab strip shows the last
//! segment of the workspace path, suffixed with `[user@host]` for a remote
//! workspace, or the fixed fallback label when no workspace is bound.

use vstd::prelude::*;
use vstd::string::*;
use vstd::pervasive::unreached;

verus! {

/// Where a workspace lives: on this machine, or on a remote host reached
/// over SSH as `(user, host)`.
#[derive(Debug, PartialEq, Eq)]
pub enum LapceWorkspaceType {
    Local,
    RemoteSSH(String, String),
}

/// A tab's workspace binding: a directory path plus where that path lives.
#[derive(Debug, PartialEq, Eq)]
pub struct LapceWorkspace {
    pub kind: LapceWorkspaceType,
    pub path: String,
}

/// The characters of `s` after its last `/`; empty when `s` is empty or
/// ends in `/`.
pub open spec fn after_last_sep(s: Seq<char>) -> Seq<char>
    decreases s.len(),
{
    if s.len() == 0 {
        Seq::<char>::empty()
    } else if s[s.len() - 1] == '/' {
        Seq::<char>::empty()
    } else {
        after_last_sep(s.drop_last()).push(s[s.len() - 1])
    }
}

/// The workspace path has a non-empty final segment after its last `/`,
/// so a display label can be derived from it.  A path without one (empty,
/// or ending in `/`) has no displayable name; the container treats such a
/// binding as a caller error and refuses it up front.
pub open spec fn has_final_segment(w: LapceWorkspace) -> bool {
    after_last_sep(w.path@).len() > 0
}

/// The label a tab shows for workspace `w`: the last path segment, plus
/// ` [user@host]` when the workspace is remote.
pub open spec fn workspace_label_view(w: LapceWorkspace) -> Seq<char> {
    match w.kind {
        LapceWorkspaceType::Local => after_last_sep(w.path@),
        LapceWorkspaceType::RemoteSSH(user, host) => after_last_sep(w.path@) + " ["@ + user@
            + "@"@ + host@ + "]"@,
    }
}

/// The label a tab shows: its workspace's label, or the fallback name when
/// no workspace is bound.
pub open spec fn tab_label_view(w: Option<LapceWorkspace>) -> Seq<char> {
    match w {
        Some(ws) => workspace_label_view(ws),
        None => "Lapce"@,
    }
}

/// Workspace kinds denote the same place: same variant, same user and host
/// character for character.
pub open spec fn workspace_type_eqv(a: LapceWorkspaceType, b: LapceWorkspaceType) -> bool {
    match (a, b) {
        (LapceWorkspaceType::Local, LapceWorkspaceType::Local) => true,
        (
            LapceWorkspaceType::RemoteSSH(u1, h1),
            LapceWorkspaceType::RemoteSSH(u2, h2),
        ) => u1@ == u2@ && h1@ == h2@,
        _ => false,
    }
}

/// Workspaces denote the same place: same kind and same path.
pub open spec fn workspace_eqv(a: LapceWorkspace, b: LapceWorkspace) -> bool {
    workspace_type_eqv(a.kind, b.kind) && a.path@ == b.path@
}

/// Optional workspaces agree: both absent, or both present and equivalent.
pub open spec fn workspace_opt_eqv(a: Option<LapceWorkspace>, b: Option<LapceWorkspace>) -> bool {
    match (a, b) {
        (None, None) => true,
        (Some(x), Some(y)) => workspace_eqv(x, y),
        _ => false,
    }
}

/// Decides `workspace_opt_eqv` on two optional workspace bindings.
pub fn workspace_opt_eq(a: &Option<LapceWorkspace>, b: &Option<LapceWorkspace>) -> (r: bool)
    ensures
        r == workspace_opt_eqv(*a, *b),
{
    match (a, b) {
        (None, None) => true,
        (Some(x), Some(y)) => {
            let kind_eq = match (&x.kind, &y.kind) {
                (LapceWorkspaceType::Local, LapceWorkspaceType::Local) => true,
                (
                    LapceWorkspaceType::RemoteSSH(u1, h1),
                    LapceWorkspaceType::RemoteSSH(u2, h2),
                ) => u1.eq(u2) && h1.eq(h2),
                _ => false,
            };
            kind_eq && x.path.eq(&y.path)
        },
        _ => false,
    }
}

proof fn lemma_after_last_sep_no_sep(s: Seq<char>)
    requires
        forall|k: int| 0 <= k < s.len() ==> s[k] != '/',
    ensures
        after_last_sep(s) == s,
    decreases s.len(),
{
    if s.len() == 0 {
        assert(after_last_sep(s) =~= s);
    } else {
        lemma_after_last_sep_no_sep(s.drop_last());
        assert(after_last_sep(s) =~= s);
    }
}

proof fn lemma_after_last_sep_from(s: Seq<char>, sep: int)
    requires
        0 < sep <= s.len(),
        s[sep - 1] == '/',
        forall|k: int| sep <= k < s.len() ==> s[k] != '/',
    ensures
        after_last_sep(s) == s.subrange(sep, s.len() as int),
    decreases s.len() - sep,
{
    if sep == s.len() {
        assert(after_last_sep(s) =~= s.subrange(sep, s.len() as int));
    } else {
        let t = s.drop_last();
        assert(t[sep - 1] == '/');
        lemma_after_last_sep_from(t, sep);
        assert(after_last_sep(s) =~= s.subrange(sep, s.len() as int));
    }
}

/// The last path segment of `path`: the characters after its final `/`.
/// `None` when that run is empty (an empty path, or one ending in `/`).
pub fn last_path_segment(path: &str) -> (r: Option<String>)
    ensures
        match r {
            Some(s) => s@ == after_last_sep(path@) && after_last_sep(path@).len() > 0,
            None => after_last_sep(path@).len() == 0,
        },
{
    let n = path.unicode_len();
    let mut j: usize = 0;
    let mut sep: usize = 0;
    while j < n
        invariant
            j <= n,
            sep <= j,
            n == path@.len(),
            (sep == 0 && forall|k: int| 0 <= k < j ==> path@[k] != '/')
                || (0 < sep <= j && path@[sep - 1] == '/'
                    && forall|k: int| sep <= k < j ==> path@[k] != '/'),
        decreases n - j,
    {
        if path.get_char(j) == '/' {
            sep = j + 1;
        }
        j += 1;
    }
    proof {
        if sep == 0 {
            lemma_after_last_sep_no_sep(path@);
            assert(path@.subrange(0, n as int) =~= path@);
        } else {
            lemma_after_last_sep_from(path@, sep as int);
        }
    }
    if sep == n {
        None
    } else {
        let seg = path.substring_char(sep, n);
        Some(seg.to_owned())
    }
}

/// The display label for workspace `w`.
pub fn workspace_label(w: &LapceWorkspace) -> (r: String)
    requires
        has_final_segment(*w),
    ensures
        r@ == workspace_label_view(*w),
{
    let seg = match last_path_segment(w.path.as_str()) {
        Some(s) => s,
        None => unreached(),
    };
    match &w.kind {
        LapceWorkspaceType::Local => seg,
        LapceWorkspaceType::RemoteSSH(user, host) => {
            let r = seg.concat(" [").concat(user.as_str()).concat("@").concat(host.as_str()).concat(
                "]",
            );
            r
        },
    }
}

/// The display label for a tab bound to `w`, or the fallback name when
/// `w` is `None`.
pub fn tab_label(w: &Option<LapceWorkspace>) -> (r: String)
    requires
        w matches Some(ws) ==> has_final_segment(*ws),
    ensures
        r@ == tab_label_view(*w),
{
    match w {
        Some(ws) => workspace_label(ws),
        None => String::from_str("Lapce"),
    }
}

} // verus!
