//! The container's laws, proved over the model transitions: the invariant
//! holds along every sequence of open/close operations, closing the only
//! tab changes nothing, opening and closing reshape the strip exactly as
//! promised, and tab selection wraps.

use vstd::prelude::*;
use crate::data::{TabState, has_key, key_index, keys_distinct, remove_key, lemma_key_index};
use crate::model::{
    WinModel, TabOp, apply_op, apply_ops, close_tab_model, next_tab_model, open_tab_model,
    prev_tab_model, wf,
};
use crate::workspace::LapceWorkspace;

verus! {

/// Removing the first entry keyed `rid` keeps the keys unique, drops `rid`,
/// keeps every other key, and shortens the sequence by exactly one entry.
pub proof fn lemma_remove_key_props(s: Seq<(u64, TabState)>, rid: u64)
    requires
        keys_distinct(s),
        has_key(s, rid),
    ensures
        keys_distinct(remove_key(s, rid)),
        !has_key(remove_key(s, rid), rid),
        forall|id: u64| id != rid ==> (has_key(remove_key(s, rid), id) <==> has_key(s, id)),
        remove_key(s, rid).len() == s.len() - 1,
{
    let ki = key_index(s, rid);
    lemma_key_index(s, rid);
    let r = s.remove(ki);
    s.remove_ensures(ki);
    assert(remove_key(s, rid) == r);
    assert forall|i: int, j: int| 0 <= i < j < r.len() implies (#[trigger] r[i]).0 != (
    #[trigger] r[j]).0 by {
        let i1 = if i < ki { i } else { i + 1 };
        let j1 = if j < ki { j } else { j + 1 };
        assert(r[i] == s[i1]);
        assert(r[j] == s[j1]);
    }
    assert forall|k: int| 0 <= k < r.len() implies (#[trigger] r[k]).0 != rid by {
        let k1 = if k < ki { k } else { k + 1 };
        assert(r[k] == s[k1]);
        assert(k1 != ki);
    }
    assert forall|id: u64| id != rid && has_key(r, id) implies has_key(s, id) by {
        let k = choose|k: int| 0 <= k < r.len() && (#[trigger] r[k]).0 == id;
        let k1 = if k < ki { k } else { k + 1 };
        assert(s[k1].0 == id);
    }
    assert forall|id: u64| id != rid && has_key(s, id) implies has_key(r, id) by {
        let k = choose|k: int| 0 <= k < s.len() && (#[trigger] s[k]).0 == id;
        assert(k != ki);
        let k1 = if k < ki { k } else { k - 1 };
        assert(r[k1].0 == id);
    }
}

/// Opening a tab preserves the container invariant.
pub proof fn lemma_open_preserves_wf(m: WinModel, ws: Option<LapceWorkspace>, replace: bool)
    requires
        wf(m),
    ensures
        wf(open_tab_model(m, ws, replace).0),
{
    if m.next_id == u64::MAX {
        return ;
    }
    let id = m.next_id;
    let p = (id, TabState { workspace: ws });
    let s1 = m.states.push(p);
    let n = m.states.len() as int;
    assert(forall|k: int| 0 <= k < n ==> s1[k] == m.states[k]);
    assert(s1[n] == p);
    assert forall|k: int| 0 <= k < n implies (#[trigger] m.states[k]).0 != id by {
        let i = choose|i: int| 0 <= i < m.widgets.len() && m.widgets[i] == m.states[k].0;
        assert(m.widgets[i] < m.next_id);
    }
    assert(keys_distinct(s1));
    assert(has_key(s1, id)) by {
        assert(s1[n].0 == id);
    }
    assert forall|w: u64| has_key(m.states, w) implies has_key(s1, w) by {
        let k = choose|k: int| 0 <= k < m.states.len() && (#[trigger] m.states[k]).0 == w;
        assert(s1[k].0 == w);
    }
    if replace {
        assert(has_key(m.states, m.active_id));
        assert(has_key(s1, m.active_id));
        lemma_remove_key_props(s1, m.active_id);
        let s2 = remove_key(s1, m.active_id);
        let w1 = m.widgets.update(m.active, id);
        let m1 = open_tab_model(m, ws, replace).0;
        assert(m1.widgets == w1);
        assert(m1.states == s2);
        assert(id != m.active_id);
        assert(w1.no_duplicates()) by {
            assert forall|i: int, j: int|
                0 <= i < j < w1.len() implies #[trigger] w1[i] != #[trigger] w1[j] by {
                if i != m.active && j != m.active {
                    assert(w1[i] == m.widgets[i]);
                    assert(w1[j] == m.widgets[j]);
                }
            }
        }
        assert forall|i: int| 0 <= i < w1.len() implies has_key(s2, #[trigger] w1[i]) by {
            if i == m.active {
                assert(w1[i] == id);
            } else {
                assert(w1[i] == m.widgets[i]);
                assert(m.widgets[i] != m.widgets[m.active]);
                assert(has_key(s1, m.widgets[i]));
            }
        }
        assert forall|k: int| 0 <= k < s2.len() implies w1.contains((#[trigger] s2[k]).0) by {
            let ki = key_index(s1, m.active_id);
            lemma_key_index(s1, m.active_id);
            s1.remove_ensures(ki);
            let k1 = if k < ki { k } else { k + 1 };
            assert(s2[k] == s1[k1]);
            assert(s2[k].0 != m.active_id);
            if k1 < n {
                assert(s1[k1] == m.states[k1]);
                assert(m.widgets.contains(m.states[k1].0));
                let i = choose|i: int|
                    0 <= i < m.widgets.len() && m.widgets[i] == m.states[k1].0;
                assert(i != m.active);
                assert(w1[i] == s2[k].0);
            } else {
                assert(s2[k].0 == id);
                assert(w1[m.active] == id);
            }
        }
        assert(wf(m1));
    } else {
        let w1 = m.widgets.insert(m.active + 1, id);
        m.widgets.insert_ensures(m.active + 1, id);
        let m1 = open_tab_model(m, ws, replace).0;
        assert(m1.widgets == w1);
        assert(m1.states == s1);
        assert(w1.no_duplicates()) by {
            assert forall|i: int, j: int|
                0 <= i < j < w1.len() implies #[trigger] w1[i] != #[trigger] w1[j] by {
                let i1 = if i <= m.active { i } else { i - 1 };
                let j1 = if j <= m.active { j } else { j - 1 };
                if i == m.active + 1 {
                    assert(w1[i] == id);
                    assert(w1[j] == m.widgets[j1]);
                } else if j == m.active + 1 {
                    assert(w1[j] == id);
                    assert(w1[i] == m.widgets[i1]);
                } else {
                    assert(w1[i] == m.widgets[i1]);
                    assert(w1[j] == m.widgets[j1]);
                }
            }
        }
        assert forall|i: int| 0 <= i < w1.len() implies has_key(s1, #[trigger] w1[i]) by {
            if i == m.active + 1 {
                assert(w1[i] == id);
            } else {
                let i1 = if i <= m.active { i } else { i - 1 };
                assert(w1[i] == m.widgets[i1]);
                assert(has_key(m.states, m.widgets[i1]));
            }
        }
        assert forall|k: int| 0 <= k < s1.len() implies w1.contains((#[trigger] s1[k]).0) by {
            if k < n {
                assert(s1[k] == m.states[k]);
                let i = choose|i: int| 0 <= i < m.widgets.len() && m.widgets[i] == m.states[k].0;
                let i1 = if i <= m.active { i } else { i + 1 };
                assert(w1[i1] == m.widgets[i]);
            } else {
                assert(s1[k].0 == id);
                assert(w1[m.active + 1] == id);
            }
        }
        assert(wf(m1));
    }
}

/// Closing a tab preserves the container invariant.
pub proof fn lemma_close_preserves_wf(m: WinModel)
    requires
        wf(m),
    ensures
        wf(close_tab_model(m).0),
{
    if m.states.len() == 1 {
        return ;
    }
    let w1 = m.widgets.remove(m.active);
    m.widgets.remove_ensures(m.active);
    assert(has_key(m.states, m.active_id));
    lemma_remove_key_props(m.states, m.active_id);
    let s1 = remove_key(m.states, m.active_id);
    let m1 = close_tab_model(m).0;
    assert(m1.widgets == w1);
    assert(m1.states == s1);
    assert(w1.len() == m.widgets.len() - 1);
    assert(w1.len() >= 1);
    assert(0 <= m1.active < w1.len());
    assert(w1.no_duplicates()) by {
        assert forall|i: int, j: int|
            0 <= i < j < w1.len() implies #[trigger] w1[i] != #[trigger] w1[j] by {
            let i1 = if i < m.active { i } else { i + 1 };
            let j1 = if j < m.active { j } else { j + 1 };
            assert(w1[i] == m.widgets[i1]);
            assert(w1[j] == m.widgets[j1]);
        }
    }
    assert forall|i: int| 0 <= i < w1.len() implies has_key(s1, #[trigger] w1[i]) by {
        let i1 = if i < m.active { i } else { i + 1 };
        assert(w1[i] == m.widgets[i1]);
        assert(i1 != m.active);
        assert(m.widgets[i1] != m.active_id);
        assert(has_key(m.states, m.widgets[i1]));
    }
    assert forall|k: int| 0 <= k < s1.len() implies w1.contains((#[trigger] s1[k]).0) by {
        let ki = key_index(m.states, m.active_id);
        lemma_key_index(m.states, m.active_id);
        m.states.remove_ensures(ki);
        let k1 = if k < ki { k } else { k + 1 };
        assert(s1[k] == m.states[k1]);
        assert(s1[k].0 != m.active_id);
        let i = choose|i: int| 0 <= i < m.widgets.len() && m.widgets[i] == m.states[k1].0;
        assert(i != m.active);
        let i1 = if i < m.active { i } else { i - 1 };
        assert(w1[i1] == m.widgets[i]);
    }
    assert(wf(m1));
}

/// Selecting the next or the previous tab preserves the container
/// invariant.
pub proof fn lemma_select_preserves_wf(m: WinModel)
    requires
        wf(m),
    ensures
        wf(next_tab_model(m)),
        wf(prev_tab_model(m)),
{
}

/// Along every sequence of open and close operations, starting from any
/// state with the invariant — in particular from a one-tab window — the
/// active index stays a valid index into the widget sequence and the
/// active identifier stays the identifier at the active index.
pub proof fn lemma_ops_keep_invariant(m: WinModel, ops: Seq<TabOp>)
    requires
        wf(m),
    ensures
        wf(apply_ops(m, ops)),
        0 <= apply_ops(m, ops).active < apply_ops(m, ops).widgets.len(),
        apply_ops(m, ops).active_id == apply_ops(m, ops).widgets[apply_ops(m, ops).active],
    decreases ops.len(),
{
    if ops.len() == 0 {
    } else {
        match ops[0] {
            TabOp::Open(ws, replace) => lemma_open_preserves_wf(m, ws, replace),
            TabOp::Close => lemma_close_preserves_wf(m),
        }
        lemma_ops_keep_invariant(apply_op(m, ops[0]), ops.subrange(1, ops.len() as int));
    }
}

/// Closing is a no-op when exactly one tab is open: the state is unchanged
/// and no background handle is stopped.
pub proof fn lemma_close_single_tab_noop(m: WinModel)
    requires
        wf(m),
        m.widgets.len() == 1,
    ensures
        close_tab_model(m) == (m, None::<u64>),
{
}

/// Opening without replacing grows the strip by exactly one tab, placed
/// right after the previously active index, and that new tab becomes the
/// active one; no background handle is stopped.
pub proof fn lemma_open_insert_shape(m: WinModel, ws: Option<LapceWorkspace>)
    requires
        wf(m),
        m.next_id < u64::MAX,
    ensures
        open_tab_model(m, ws, false).0.widgets.len() == m.widgets.len() + 1,
        open_tab_model(m, ws, false).0.active == m.active + 1,
        open_tab_model(m, ws, false).0.widgets[m.active + 1] == m.next_id,
        open_tab_model(m, ws, false).0.active_id == m.next_id,
        open_tab_model(m, ws, false).1 is None,
{
    m.widgets.insert_ensures(m.active + 1, m.next_id);
}

/// Opening with replacement keeps the tab count, keeps the active index,
/// changes the active identifier to the fresh one, and stops exactly one
/// background handle: the replaced tab's.
pub proof fn lemma_open_replace_shape(m: WinModel, ws: Option<LapceWorkspace>)
    requires
        wf(m),
        m.next_id < u64::MAX,
    ensures
        open_tab_model(m, ws, true).0.widgets.len() == m.widgets.len(),
        open_tab_model(m, ws, true).0.states.len() == m.states.len(),
        open_tab_model(m, ws, true).0.active == m.active,
        open_tab_model(m, ws, true).0.active_id != m.active_id,
        open_tab_model(m, ws, true).1 == Some(m.active_id),
{
    let id = m.next_id;
    let s1 = m.states.push((id, TabState { workspace: ws }));
    assert(has_key(s1, m.active_id)) by {
        let k = choose|k: int|
            0 <= k < m.states.len() && (#[trigger] m.states[k]).0 == m.active_id;
        assert(s1[k].0 == m.active_id);
    }
    assert forall|k: int| 0 <= k < m.states.len() implies (#[trigger] m.states[k]).0 != id by {
        let i = choose|i: int| 0 <= i < m.widgets.len() && m.widgets[i] == m.states[k].0;
        assert(m.widgets[i] < m.next_id);
    }
    assert(keys_distinct(s1));
    lemma_remove_key_props(s1, m.active_id);
}

/// Tab selection wraps: advancing moves the active index to
/// `(active + 1) % count` and retreating to `(active + count - 1) % count`,
/// and both keep the active identifier synchronized.
pub proof fn lemma_select_wraps(m: WinModel)
    requires
        wf(m),
    ensures
        next_tab_model(m).active == (m.active + 1) % (m.widgets.len() as int),
        prev_tab_model(m).active == (m.active + m.widgets.len() - 1) % (m.widgets.len() as int),
        next_tab_model(m).active_id == m.widgets[next_tab_model(m).active],
        prev_tab_model(m).active_id == m.widgets[prev_tab_model(m).active],
{
    let n = m.widgets.len() as int;
    if m.active >= n - 1 {
        assert(n % n == 0) by (nonlinear_arith)
            requires n >= 1;
    } else {
        assert((m.active + 1) % n == m.active + 1) by (nonlinear_arith)
            requires 0 <= m.active + 1 < n;
    }
    if m.active == 0 {
        assert((n - 1) % n == n - 1) by (nonlinear_arith)
            requires n >= 1;
    } else {
        assert((m.active + n - 1) % n == m.active - 1) by (nonlinear_arith)
            requires 1 <= m.active < n;
    }
}

/// Closing the active tab when it is the last-indexed one clamps the new
/// active index to the new last index.
pub proof fn lemma_close_last_clamps(m: WinModel)
    requires
        wf(m),
        m.widgets.len() > 1,
        m.active == m.widgets.len() - 1,
    ensures
        close_tab_model(m).0.active == m.widgets.len() - 2,
{
}

} // verus!
