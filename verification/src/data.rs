//! Per-window application state: one state entry per open tab, keyed by the
//! tab's widget identifier, in insertion order, together with the active
//! index and active identifier the container keeps in step.

use vstd::prelude::*;
use crate::workspace::LapceWorkspace;

verus! {

/// Per-tab session data.  The tab's background process handle lives with
/// the host; when a tab is closed or replaced the container reports whose
/// handle must be stopped, it never stops one itself.
pub struct TabState {
    pub workspace: Option<LapceWorkspace>,
}

/// There is an entry with key `id` in `s`.
pub open spec fn has_key(s: Seq<(u64, TabState)>, id: u64) -> bool {
    exists|k: int| 0 <= k < s.len() && (#[trigger] s[k]).0 == id
}

/// Index of the first entry with key `id` in `s`.
pub open spec fn key_index(s: Seq<(u64, TabState)>, id: u64) -> int
    decreases s.len(),
{
    if s.len() == 0 {
        0
    } else if s[0].0 == id {
        0
    } else {
        1 + key_index(s.subrange(1, s.len() as int), id)
    }
}

/// No two entries of `s` share a key.
pub open spec fn keys_distinct(s: Seq<(u64, TabState)>) -> bool {
    forall|i: int, j: int|
        0 <= i < j < s.len() ==> (#[trigger] s[i]).0 != (#[trigger] s[j]).0
}

/// `s` without its first entry keyed `id`; `s` itself when there is none.
pub open spec fn remove_key(s: Seq<(u64, TabState)>, id: u64) -> Seq<(u64, TabState)> {
    if has_key(s, id) {
        s.remove(key_index(s, id))
    } else {
        s
    }
}

/// `key_index` points at an entry with key `id` whenever one exists.
pub proof fn lemma_key_index(s: Seq<(u64, TabState)>, id: u64)
    requires
        has_key(s, id),
    ensures
        0 <= key_index(s, id) < s.len(),
        s[key_index(s, id)].0 == id,
    decreases s.len(),
{
    if s.len() == 0 {
    } else if s[0].0 == id {
    } else {
        let t = s.subrange(1, s.len() as int);
        assert(has_key(t, id)) by {
            let k = choose|k: int| 0 <= k < s.len() && (#[trigger] s[k]).0 == id;
            assert(t[k - 1].0 == id);
        }
        lemma_key_index(t, id);
    }
}

/// When the first entry with key `id` stands at `i`, `key_index` finds `i`.
pub proof fn lemma_key_index_at(s: Seq<(u64, TabState)>, id: u64, i: int)
    requires
        0 <= i < s.len(),
        s[i].0 == id,
        forall|k: int| 0 <= k < i ==> (#[trigger] s[k]).0 != id,
    ensures
        has_key(s, id),
        key_index(s, id) == i,
    decreases s.len(),
{
    assert(has_key(s, id));
    if i == 0 {
    } else {
        let t = s.subrange(1, s.len() as int);
        assert(t[i - 1].0 == id);
        assert(forall|k: int| 0 <= k < i - 1 ==> (#[trigger] t[k]).0 != id);
        lemma_key_index_at(t, id, i - 1);
    }
}

/// Insertion-ordered mapping from tab identifier to per-tab state.  Keys
/// stay unique as long as every identifier is inserted at most once, which
/// the container guarantees by allocating fresh identifiers.
pub struct TabMap {
    entries: Vec<(u64, TabState)>,
}

impl TabMap {
    /// The entries, in insertion order.
    pub closed spec fn kv(self) -> Seq<(u64, TabState)> {
        self.entries@
    }

    /// An empty mapping.
    pub fn new() -> (m: TabMap)
        ensures
            m.kv() == Seq::<(u64, TabState)>::empty(),
    {
        TabMap { entries: Vec::new() }
    }

    /// How many tabs have state here.
    pub fn len(&self) -> (n: usize)
        ensures
            n == self.kv().len(),
    {
        self.entries.len()
    }

    /// Appends the entry `(id, st)`.
    pub fn insert(&mut self, id: u64, st: TabState)
        ensures
            final(self).kv() == old(self).kv().push((id, st)),
    {
        self.entries.push((id, st));
    }

    /// Removes and returns the first entry keyed `id`, keeping the order of
    /// the rest; `None` when there is none.
    pub fn remove(&mut self, id: u64) -> (r: Option<TabState>)
        ensures
            final(self).kv() == remove_key(old(self).kv(), id),
            match r {
                Some(st) => has_key(old(self).kv(), id) && st == old(self).kv()[key_index(
                    old(self).kv(),
                    id,
                )].1,
                None => !has_key(old(self).kv(), id),
            },
    {
        let n = self.entries.len();
        let mut i: usize = 0;
        while i < n
            invariant
                i <= n,
                n == self.kv().len(),
                *self == *old(self),
                forall|k: int| 0 <= k < i ==> (#[trigger] self.kv()[k]).0 != id,
            decreases n - i,
        {
            if self.entries[i].0 == id {
                proof {
                    lemma_key_index_at(self.kv(), id, i as int);
                }
                let e = self.entries.remove(i);
                return Some(e.1);
            }
            i += 1;
        }
        None
    }

    /// The state entry for `id`, when there is one.
    pub fn get(&self, id: u64) -> (r: Option<&TabState>)
        ensures
            match r {
                Some(st) => has_key(self.kv(), id) && *st == self.kv()[key_index(
                    self.kv(),
                    id,
                )].1,
                None => !has_key(self.kv(), id),
            },
    {
        let n = self.entries.len();
        let mut i: usize = 0;
        while i < n
            invariant
                i <= n,
                n == self.kv().len(),
                forall|k: int| 0 <= k < i ==> (#[trigger] self.kv()[k]).0 != id,
            decreases n - i,
        {
            if self.entries[i].0 == id {
                proof {
                    lemma_key_index_at(self.kv(), id, i as int);
                }
                return Some(&self.entries[i].1);
            }
            i += 1;
        }
        None
    }

    /// The identifiers, in insertion order.
    pub fn keys_vec(&self) -> (r: Vec<u64>)
        ensures
            r@.len() == self.kv().len(),
            forall|i: int| 0 <= i < r@.len() ==> r@[i] == (#[trigger] self.kv()[i]).0,
    {
        let n = self.entries.len();
        let mut r: Vec<u64> = Vec::new();
        let mut i: usize = 0;
        while i < n
            invariant
                i <= n,
                n == self.kv().len(),
                r@.len() == i,
                forall|k: int| 0 <= k < i ==> r@[k] == (#[trigger] self.kv()[k]).0,
            decreases n - i,
        {
            r.push(self.entries[i].0);
            i += 1;
        }
        r
    }
}

/// The window-level state the container works on: per-tab state entries in
/// insertion order, the active index into the container's widget sequence,
/// the active tab's identifier, and the counter from which fresh tab
/// identifiers are drawn (the model of the toolkit's widget-id allocator).
pub struct LapceWindowData {
    pub tabs: TabMap,
    pub active: usize,
    pub active_id: u64,
    pub next_id: u64,
}

impl LapceWindowData {
    /// Window state as a host builds it before constructing the container:
    /// one tab, identifier `0`, no workspace bound, active.
    pub fn new() -> (d: LapceWindowData)
        ensures
            d.tabs.kv() =~= seq![(0u64, TabState { workspace: None::<LapceWorkspace> })],
            d.active == 0,
            d.active_id == 0,
            d.next_id == 1,
    {
        let mut tabs = TabMap::new();
        tabs.insert(0, TabState { workspace: None });
        LapceWindowData { tabs, active: 0, active_id: 0, next_id: 1 }
    }
}

} // verus!
