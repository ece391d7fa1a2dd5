use vstd::prelude::*;
use crate::stack::Zipper;
use crate::window_system::Window;
use crate::workspace::WorkspaceModel;
use crate::screen::{ScreenModel, ScreenDetail};
use crate::window_manager::rescreened;
use crate::workspaces::{
    WorkspacesModel,
    remove_window,
    insert_up_stack,
    other_than,
    workspace_ids,
    screen_ids,
    screen_workspaces,
    initial_model,
    initial_workspace,
};

verus! {

broadcast use {
    vstd::multiset::group_multiset_axioms,
    vstd::seq_lib::group_to_multiset_ensures,
};

/// Two sequences with the same elements, counted with multiplicity, still
/// have the same elements after mapping each element.
pub proof fn lemma_permutation_map<A, B>(a: Seq<A>, b: Seq<A>, f: spec_fn(A) -> B)
    requires
        a.to_multiset() == b.to_multiset(),
    ensures
        a.map_values(f).to_multiset() == b.map_values(f).to_multiset(),
    decreases a.len(),
{
    a.to_multiset_ensures();
    b.to_multiset_ensures();
    if a.len() == 0 {
        assert(b.len() == 0);
        assert(a.map_values(f) =~= Seq::<B>::empty());
        assert(b.map_values(f) =~= Seq::<B>::empty());
    } else {
        let x = a.last();
        let a2 = a.drop_last();
        assert(a2.push(x) =~= a);
        assert(a.to_multiset().count(x) > 0);
        assert(b.contains(x));
        let j = choose|j: int| 0 <= j < b.len() && b[j] == x;
        let b2 = b.remove(j);
        assert(a2.to_multiset() =~= b2.to_multiset());
        lemma_permutation_map(a2, b2, f);
        assert(a.map_values(f) =~= a2.map_values(f).push(f(x)));
        assert(b.map_values(f).remove(j) =~= b2.map_values(f));
        assert(b.map_values(f)[j] == f(x));
        assert(b.map_values(f).to_multiset() =~= b2.map_values(f).to_multiset().insert(f(x)));
    }
}

/// A rearrangement of a sequence without duplicates has none.
pub proof fn lemma_permutation_no_duplicates<A>(a: Seq<A>, b: Seq<A>)
    requires
        a.to_multiset() == b.to_multiset(),
        b.no_duplicates(),
    ensures
        a.no_duplicates(),
{
    b.lemma_multiset_has_no_duplicates();
    a.lemma_multiset_has_no_duplicates_conv();
}

proof fn lemma_multiset_concat3<A>(x: Seq<A>, y: Seq<A>, z: Seq<A>)
    ensures
        (x + y + z).to_multiset() == x.to_multiset().add(y.to_multiset()).add(z.to_multiset()),
{
    vstd::seq_lib::lemma_multiset_commutative(x + y, z);
    vstd::seq_lib::lemma_multiset_commutative(x, y);
}

/// Viewing a workspace only rearranges the workspaces and the screens; the
/// floating windows stay.
pub proof fn lemma_viewed_rearranges<R>(m: WorkspacesModel<R>, i: u32)
    ensures
        m.viewed(i).workspaces().to_multiset() == m.workspaces().to_multiset(),
        m.viewed(i).screen_numbers().to_multiset() == m.screen_numbers().to_multiset(),
        m.viewed(i).floating == m.floating,
{
    let v = m.viewed(i);
    if m.current.workspace.id == i {
    } else {
        match screen_ids(m.visible).index_of_first(i) {
            Some(k) => {
                screen_ids(m.visible).index_of_first_ensures(i);
                let sw = screen_workspaces(m.visible);
                assert(screen_workspaces(v.visible) =~= sw.remove(k).push(m.current.workspace));
                lemma_multiset_concat3(seq![m.current.workspace], sw, m.hidden);
                lemma_multiset_concat3(seq![m.visible[k].workspace], screen_workspaces(v.visible), m.hidden);
                assert(sw[k] == m.visible[k].workspace);
                assert(sw.to_multiset().count(sw[k]) > 0);
                assert(v.workspaces().to_multiset() =~= m.workspaces().to_multiset());
                let numbers = m.visible.map_values(|x: ScreenModel| x.screen_id);
                assert(m.screen_numbers() =~= seq![m.current.screen_id] + numbers);
                assert(v.screen_numbers() =~= seq![m.visible[k].screen_id] + numbers.remove(k).push(
                    m.current.screen_id,
                ));
                vstd::seq_lib::lemma_multiset_commutative(seq![m.current.screen_id], numbers);
                vstd::seq_lib::lemma_multiset_commutative(
                    seq![m.visible[k].screen_id],
                    numbers.remove(k).push(m.current.screen_id),
                );
                assert(numbers[k] == m.visible[k].screen_id);
                assert(numbers.to_multiset().count(numbers[k]) > 0);
                assert(v.screen_numbers().to_multiset() =~= m.screen_numbers().to_multiset());
            },
            None => match workspace_ids(m.hidden).index_of_first(i) {
                Some(k) => {
                    workspace_ids(m.hidden).index_of_first_ensures(i);
                    let sw = screen_workspaces(m.visible);
                    lemma_multiset_concat3(seq![m.current.workspace], sw, m.hidden);
                    lemma_multiset_concat3(
                        seq![m.hidden[k]],
                        sw,
                        m.hidden.remove(k).push(m.current.workspace),
                    );
                    assert(m.hidden.to_multiset().count(m.hidden[k]) > 0);
                    assert(v.workspaces().to_multiset() =~= m.workspaces().to_multiset());
                    assert(v.screen_numbers() =~= m.screen_numbers());
                },
                None => {},
            },
        }
    }
}

/// Viewing keeps workspace ids and screen ids unique.
pub proof fn lemma_viewed_wf<R>(m: WorkspacesModel<R>, i: u32)
    requires
        m.wf(),
    ensures
        m.viewed(i).wf(),
{
    lemma_viewed_rearranges(m, i);
    lemma_permutation_map(m.viewed(i).workspaces(), m.workspaces(), |x: WorkspaceModel| x.id);
    lemma_permutation_no_duplicates(workspace_ids(m.viewed(i).workspaces()), workspace_ids(m.workspaces()));
    lemma_permutation_no_duplicates(m.viewed(i).screen_numbers(), m.screen_numbers());
}

/// Viewing a workspace that exists makes it the current one; viewing one
/// that does not changes nothing.
pub proof fn lemma_viewed_current<R>(m: WorkspacesModel<R>, i: u32)
    ensures
        workspace_ids(m.workspaces()).contains(i) ==> m.viewed(i).current_tag() == i,
        !workspace_ids(m.workspaces()).contains(i) ==> m.viewed(i) == m,
{
    let ids = workspace_ids(m.workspaces());
    let vids = screen_ids(m.visible);
    let hids = workspace_ids(m.hidden);
    vids.index_of_first_ensures(i);
    hids.index_of_first_ensures(i);
    let nv = m.visible.len();
    if ids.contains(i) {
        let k = choose|k: int| 0 <= k < ids.len() && ids[k] == i;
        if k == 0 {
        } else if k <= nv {
            assert(vids[k - 1] == ids[k]);
        } else {
            assert(hids[k - 1 - nv] == ids[k]);
        }
    } else {
        if m.current.workspace.id == i {
            assert(ids[0] == i);
        }
        if vids.contains(i) {
            let k = choose|k: int| 0 <= k < vids.len() && vids[k] == i;
            assert(ids[1 + k] == vids[k]);
        }
        if hids.contains(i) {
            let k = choose|k: int| 0 <= k < hids.len() && hids[k] == i;
            assert(ids[1 + nv + k] == hids[k]);
        }
    }
}

/// When exactly the element at `k` fails the predicate, filtering removes
/// just that element.
proof fn lemma_filter_removes_one<A>(s: Seq<A>, p: spec_fn(A) -> bool, k: int)
    requires
        0 <= k < s.len(),
        !p(s[k]),
        forall|j: int| 0 <= j < s.len() && j != k ==> p(#[trigger] s[j]),
    ensures
        s.filter(p) == s.remove(k),
{
    let a = s.take(k);
    let b = s.skip(k + 1);
    assert(s =~= a + seq![s[k]] + b);
    Seq::filter_distributes_over_add(a + seq![s[k]], b, p);
    Seq::filter_distributes_over_add(a, seq![s[k]], p);
    assert forall|j: int| 0 <= j < a.len() implies p(#[trigger] a[j]) by {
        assert(a[j] == s[j]);
    }
    assert forall|j: int| 0 <= j < b.len() implies p(#[trigger] b[j]) by {
        assert(b[j] == s[k + 1 + j]);
    }
    crate::stack::lemma_seq_filter_all(a, p);
    crate::stack::lemma_seq_filter_all(b, p);
    assert(seq![s[k]].filter(p) =~= Seq::<A>::empty()) by {
        reveal_with_fuel(Seq::filter, 2);
        assert(seq![s[k]].drop_last() =~= Seq::<A>::empty());
    }
    assert(s.remove(k) =~= a + b);
    assert(a + Seq::<A>::empty() =~= a);
}

/// With unique ids, greedily viewing a workspace only rearranges the
/// workspaces and the screens, keeps the ids unique, makes an existing
/// workspace current and keeps the current screen; the floating windows
/// stay.
pub proof fn lemma_greedy_viewed<R>(m: WorkspacesModel<R>, i: u32)
    requires
        m.wf(),
    ensures
        m.greedy_viewed(i).workspaces().to_multiset() == m.workspaces().to_multiset(),
        m.greedy_viewed(i).screen_numbers().to_multiset() == m.screen_numbers().to_multiset(),
        m.greedy_viewed(i).wf(),
        m.greedy_viewed(i).floating == m.floating,
        workspace_ids(m.workspaces()).contains(i) ==> m.greedy_viewed(i).current_tag() == i,
        !workspace_ids(m.hidden).contains(i) ==> m.greedy_viewed(i).current.screen_id == m.current.screen_id
            && m.greedy_viewed(i).current.screen_detail == m.current.screen_detail,
{
    let g = m.greedy_viewed(i);
    lemma_viewed_rearranges(m, i);
    lemma_viewed_wf(m, i);
    lemma_viewed_current(m, i);
    let vids = screen_ids(m.visible);
    let hids = workspace_ids(m.hidden);
    let ids = workspace_ids(m.workspaces());
    let nv = m.visible.len();
    vids.index_of_first_ensures(i);
    if hids.contains(i) {
    } else {
        match vids.index_of_first(i) {
            Some(k) => {
                let sv = m.visible[k];
                let numbers = m.visible.map_values(|x: ScreenModel| x.screen_id);
                assert(m.screen_numbers() =~= seq![m.current.screen_id] + numbers);
                let p = |x: ScreenModel| x.screen_id != sv.screen_id;
                assert forall|j: int| 0 <= j < m.visible.len() && j != k implies p(#[trigger] m.visible[j]) by {
                    assert(m.screen_numbers()[1 + j] == m.visible[j].screen_id);
                    assert(m.screen_numbers()[1 + k] == m.visible[k].screen_id);
                }
                lemma_filter_removes_one(m.visible, p, k);
                assert(g.visible == m.visible.remove(k).push(sv.with_workspace(m.current.workspace)));
                let sw = screen_workspaces(m.visible);
                assert(screen_workspaces(g.visible) =~= sw.remove(k).push(m.current.workspace));
                lemma_multiset_concat3(seq![m.current.workspace], sw, m.hidden);
                lemma_multiset_concat3(seq![m.visible[k].workspace], screen_workspaces(g.visible), m.hidden);
                assert(sw[k] == m.visible[k].workspace);
                assert(sw.to_multiset().count(sw[k]) > 0);
                assert(g.workspaces().to_multiset() =~= m.workspaces().to_multiset());
                assert(g.screen_numbers() =~= seq![m.current.screen_id] + numbers.remove(k).push(sv.screen_id));
                vstd::seq_lib::lemma_multiset_commutative(seq![m.current.screen_id], numbers);
                vstd::seq_lib::lemma_multiset_commutative(
                    seq![m.current.screen_id],
                    numbers.remove(k).push(sv.screen_id),
                );
                assert(numbers[k] == sv.screen_id);
                assert(numbers.to_multiset().count(numbers[k]) > 0);
                assert(g.screen_numbers().to_multiset() =~= m.screen_numbers().to_multiset());
                lemma_permutation_map(g.workspaces(), m.workspaces(), |x: WorkspaceModel| x.id);
                lemma_permutation_no_duplicates(workspace_ids(g.workspaces()), ids);
                lemma_permutation_no_duplicates(g.screen_numbers(), m.screen_numbers());
                assert(vids[k] == i);
            },
            None => {
                if ids.contains(i) {
                    let k = choose|k: int| 0 <= k < ids.len() && ids[k] == i;
                    if 1 <= k <= nv {
                        assert(vids[k - 1] == ids[k]);
                    } else if k > nv {
                        assert(hids[k - 1 - nv] == ids[k]);
                    }
                }
            },
        }
    }
}

/// A fresh set of workspaces holds one workspace per tag, in order, with
/// its position as id and no windows; the first one is current; workspace
/// ids and screen ids are unique; nothing floats.
pub proof fn lemma_initial<R>(tags: Seq<Seq<char>>, screens: Seq<ScreenDetail>)
    requires
        tags.len() >= 1,
        screens.len() >= 1,
        tags.len() <= u32::MAX + 1,
    ensures
        initial_model::<R>(tags, screens).workspaces().len() == tags.len(),
        forall|k: int|
            0 <= k < tags.len() ==> #[trigger] initial_model::<R>(tags, screens).workspaces()[k]
                == initial_workspace(tags, k),
        initial_model::<R>(tags, screens).wf(),
        initial_model::<R>(tags, screens).current_tag() == 0,
        initial_model::<R>(tags, screens).floating.dom().len() == 0,
{
    let m = initial_model::<R>(tags, screens);
    let ws = m.workspaces();
    let nv = m.visible.len();
    assert forall|k: int| 0 <= k < tags.len() implies #[trigger] ws[k] == initial_workspace(tags, k) by {
        if k == 0 {
        } else if k <= nv {
            assert(ws[k] == m.visible[k - 1].workspace);
        } else {
            assert(ws[k] == m.hidden[k - 1 - nv]);
        }
    }
    let ids = workspace_ids(ws);
    assert forall|a: int, b: int| 0 <= a < ids.len() && 0 <= b < ids.len() && a != b implies ids[a] != ids[b] by {
        assert(ids[a] == ws[a].id);
        assert(ids[b] == ws[b].id);
        assert(ws[a] == initial_workspace(tags, a));
        assert(ws[b] == initial_workspace(tags, b));
    }
    let sn = m.screen_numbers();
    assert forall|a: int, b: int| 0 <= a < sn.len() && 0 <= b < sn.len() && a != b implies sn[a] != sn[b] by {
        assert(sn[a] == a as u32);
        assert(sn[b] == b as u32);
    }
    assert(m.floating.dom() =~= Set::<Window>::empty());
}

/// Replacing the current stack keeps the workspace ids and screen ids.
pub proof fn lemma_with_current_stack_ids<R>(m: WorkspacesModel<R>, s: Option<Zipper<Window>>)
    ensures
        workspace_ids(m.with_current_stack(s).workspaces()) == workspace_ids(m.workspaces()),
        m.with_current_stack(s).screen_numbers() == m.screen_numbers(),
        m.with_current_stack(s).wf() == m.wf(),
{
    assert(workspace_ids(m.with_current_stack(s).workspaces()) =~= workspace_ids(m.workspaces()));
    assert(m.with_current_stack(s).screen_numbers() =~= m.screen_numbers());
}

/// Moving the focus down undoes moving it up, on the current workspace,
/// and the other way round.
pub proof fn lemma_focus_up_down_workspaces<R>(m: WorkspacesModel<R>)
    ensures
        m.focused_up().focused_down() == m,
        m.focused_down().focused_up() == m,
{
    if let Some(z) = m.current.workspace.stack {
        crate::stack::lemma_focus_up_down(z);
        crate::stack::lemma_focus_down_up(z);
    }
    assert(m.focused_up().focused_down() =~= m);
    assert(m.focused_down().focused_up() =~= m);
}

/// Swapping down undoes swapping up, on the current workspace, and the
/// other way round.
pub proof fn lemma_swap_up_down_workspaces<R>(m: WorkspacesModel<R>)
    ensures
        m.swapped_up().swapped_down() == m,
        m.swapped_down().swapped_up() == m,
{
    if let Some(z) = m.current.workspace.stack {
        crate::stack::lemma_swap_up_down(z);
        crate::stack::lemma_swap_down_up(z);
    }
    assert(m.swapped_up().swapped_down() =~= m);
    assert(m.swapped_down().swapped_up() =~= m);
}

/// Moving the focus keeps every window where it is in every workspace's
/// order; moving or swapping the focus keeps the ids unique.
pub proof fn lemma_focus_moves_keep_windows<R>(m: WorkspacesModel<R>)
    ensures
        m.focused_up().all_windows() == m.all_windows(),
        m.focused_down().all_windows() == m.all_windows(),
        m.wf() ==> m.focused_up().wf() && m.focused_down().wf() && m.swapped_up().wf()
            && m.swapped_down().wf() && m.swapped_master().wf() && m.shifted_master().wf(),
{
    let cs = m.current.workspace.stack;
    if let Some(z) = cs {
        crate::stack::lemma_focus_up_integrate(z);
        crate::stack::lemma_focus_down_integrate(z);
        lemma_with_current_stack_ids(m, Some(z.focus_up()));
        lemma_with_current_stack_ids(m, Some(z.focus_down()));
        lemma_with_current_stack_ids(m, Some(z.swap_up()));
        lemma_with_current_stack_ids(m, Some(z.swap_down()));
        lemma_with_current_stack_ids(m, Some(z.swap_master()));
        lemma_with_current_stack_ids(m, Some(crate::workspaces::shift_master_stack(z)));
        let f = |x: ScreenModel| x.workspace.windows();
        assert(m.focused_up().screens().map_values(f) =~= m.screens().map_values(f));
        assert(m.focused_down().screens().map_values(f) =~= m.screens().map_values(f));
    } else {
        assert(m.focused_up() =~= m);
        assert(m.focused_down() =~= m);
        assert(m.swapped_up() =~= m);
        assert(m.swapped_down() =~= m);
        assert(m.swapped_master() =~= m);
        assert(m.shifted_master() =~= m);
    }
}

/// Removing a window that a stack does not hold keeps the stack.
pub proof fn lemma_remove_absent(s: Option<Zipper<Window>>, w: Window)
    requires
        s matches Some(z) ==> !z.contains(w),
    ensures
        remove_window(s, w) == s,
{
    if let Some(z) = s {
        crate::stack::lemma_filter_all(z, other_than(w));
    }
}

/// After removing a window, the stack does not hold it.
pub proof fn lemma_remove_removes(s: Option<Zipper<Window>>, w: Window)
    ensures
        remove_window(s, w) matches Some(z) ==> !z.contains(w),
{
    if let Some(z) = s {
        let p = other_than(w);
        crate::stack::lemma_filter_integrate(z, p);
        if let Some(y) = z.filter(p) {
            crate::stack::lemma_integrate_len_contains(y, w);
            if y.integrate().contains(w) {
                let k = choose|k: int| 0 <= k < y.integrate().len() && y.integrate()[k] == w;
                z.integrate().lemma_filter_pred(p, k);
            }
        }
    }
}

/// Inserting a window that a stack does not hold and then removing it
/// gives the stack back.
pub proof fn lemma_insert_up_remove(s: Option<Zipper<Window>>, w: Window)
    requires
        s matches Some(z) ==> !z.contains(w),
    ensures
        remove_window(Some(insert_up_stack(s, w)), w) == s,
{
    let p = other_than(w);
    reveal_with_fuel(Seq::filter, 2);
    assert(seq![w].drop_last() =~= Seq::<Window>::empty());
    assert(seq![w].filter(p) =~= Seq::<Window>::empty());
    match s {
        Some(z) => {
            let fd = seq![z.focus] + z.down;
            assert forall|i: int| 0 <= i < fd.len() implies p(#[trigger] fd[i]) by {
                if i > 0 {
                    assert(fd[i] == z.down[i - 1]);
                    assert(z.down.contains(fd[i]));
                }
            }
            assert forall|i: int| 0 <= i < z.up.len() implies p(#[trigger] z.up[i]) by {
                assert(z.up.contains(z.up[i]));
            }
            crate::stack::lemma_seq_filter_all(fd, p);
            crate::stack::lemma_seq_filter_all(z.up, p);
            let ins = insert_up_stack(s, w);
            assert(seq![ins.focus] + ins.down =~= seq![w] + fd);
            Seq::filter_distributes_over_add(seq![w], fd, p);
            assert(Seq::<Window>::empty() + fd =~= fd);
            assert(fd.drop_first() =~= z.down);
            assert(ins.filter(p).unwrap() =~= z);
        },
        None => {
            let ins = insert_up_stack(s, w);
            assert(seq![ins.focus] + ins.down =~= seq![w]);
        },
    }
}

/// Removing a window keeps every workspace's id and tag and every screen.
pub proof fn lemma_deleted_ids<R>(m: WorkspacesModel<R>, w: Window)
    ensures
        workspace_ids(m.deleted(w).workspaces()) == workspace_ids(m.workspaces()),
        m.deleted(w).screen_numbers() == m.screen_numbers(),
        m.deleted(w).wf() == m.wf(),
{
    assert(workspace_ids(m.deleted(w).workspaces()) =~= workspace_ids(m.workspaces()));
    assert(m.deleted(w).screen_numbers() =~= m.screen_numbers());
}

/// After a window is deleted, no workspace holds it and it does not float.
pub proof fn lemma_deleted_absent<R>(m: WorkspacesModel<R>, w: Window)
    ensures
        !m.deleted(w).contains(w),
{
    let d = m.deleted(w);
    lemma_remove_removes(m.current.workspace.stack, w);
    assert forall|k: int| 0 <= k < d.visible.len() implies !(#[trigger] d.visible[k]).workspace.contains(w) by {
        lemma_remove_removes(m.visible[k].workspace.stack, w);
    }
    assert forall|k: int| 0 <= k < d.hidden.len() implies !(#[trigger] d.hidden[k]).contains(w) by {
        lemma_remove_removes(m.hidden[k].stack, w);
    }
}

/// A window that is not managed, once inserted, is managed and focused,
/// and ids stay unique.
pub proof fn lemma_inserted_up<R>(m: WorkspacesModel<R>, w: Window)
    ensures
        m.inserted_up(w).contains(w),
        !m.contains(w) ==> m.inserted_up(w).peek() == Some(w),
        m.inserted_up(w).wf() == m.wf(),
{
    if !m.contains(w) {
        lemma_with_current_stack_ids(m, Some(insert_up_stack(m.current.workspace.stack, w)));
    }
}

/// Inserting a window that is not managed and deleting it again gives the
/// workspaces back.
pub proof fn lemma_insert_delete<R>(m: WorkspacesModel<R>, w: Window)
    requires
        !m.contains(w),
    ensures
        m.inserted_up(w).deleted(w) == m,
{
    let i = m.inserted_up(w);
    let d = i.deleted(w);
    lemma_insert_up_remove(m.current.workspace.stack, w);
    assert forall|k: int| 0 <= k < m.visible.len() implies #[trigger] d.visible[k] == m.visible[k] by {
        assert(!m.visible[k].workspace.contains(w));
        lemma_remove_absent(m.visible[k].workspace.stack, w);
    }
    assert forall|k: int| 0 <= k < m.hidden.len() implies #[trigger] d.hidden[k] == m.hidden[k] by {
        assert(!m.hidden[k].contains(w));
        lemma_remove_absent(m.hidden[k].stack, w);
    }
    assert(d.visible =~= m.visible);
    assert(d.hidden =~= m.hidden);
    assert(d.floating =~= m.floating);
    assert(d =~= m);
}

/// Floating a window and sinking it again is the same as sinking it.
pub proof fn lemma_float_sink<R>(m: WorkspacesModel<R>, w: Window, r: R)
    ensures
        m.floated(w, r).sunk(w) == m.sunk(w),
        !m.floating.dom().contains(w) ==> m.floated(w, r).sunk(w) == m,
{
    assert(m.floated(w, r).sunk(w).floating =~= m.sunk(w).floating);
    if !m.floating.dom().contains(w) {
        assert(m.sunk(w).floating =~= m.floating);
    }
}

/// Focusing a window that some workspace holds makes it the focused
/// window, and ids stay unique.
pub proof fn lemma_focus_window<R>(m: WorkspacesModel<R>, w: Window)
    requires
        m.wf(),
        m.find_tag(w) is Some,
    ensures
        m.focus_window(w).peek() == Some(w),
        m.focus_window(w).wf(),
{
    if m.peek() == Some(w) {
    } else {
        let t = m.find_tag(w).unwrap();
        crate::workspaces::lemma_viewed_find_tag(m, w);
        lemma_viewed_wf(m, t);
        let v = m.viewed(t);
        let z = v.current.workspace.stack.unwrap();
        crate::stack::lemma_integrate_len_contains(z, w);
        let p = choose|p: int| 0 <= p < z.integrate().len() && z.integrate()[p] == w;
        crate::stack::lemma_focus_up_until(z, w, p, z.len());
        lemma_with_current_stack_ids(v, Some(crate::stack::focus_up_until(z, w, z.len())));
    }
}

/// A window is managed exactly when some workspace holds it or it floats.
pub proof fn lemma_contains_workspaces<R>(m: WorkspacesModel<R>, w: Window)
    ensures
        m.contains(w) <==> (exists|k: int| 0 <= k < m.workspaces().len() && #[trigger] m.workspaces()[k].contains(w))
            || m.floating.dom().contains(w),
{
    let ws = m.workspaces();
    let nv = m.visible.len();
    if m.current.workspace.contains(w) {
        assert(ws[0].contains(w));
    }
    if exists|k: int| 0 <= k < m.visible.len() && #[trigger] m.visible[k].workspace.contains(w) {
        let k = choose|k: int| 0 <= k < m.visible.len() && #[trigger] m.visible[k].workspace.contains(w);
        assert(ws[1 + k] == m.visible[k].workspace);
    }
    if exists|k: int| 0 <= k < m.hidden.len() && #[trigger] m.hidden[k].contains(w) {
        let k = choose|k: int| 0 <= k < m.hidden.len() && #[trigger] m.hidden[k].contains(w);
        assert(ws[1 + nv + k] == m.hidden[k]);
    }
    if exists|k: int| 0 <= k < ws.len() && #[trigger] ws[k].contains(w) {
        let k = choose|k: int| 0 <= k < ws.len() && #[trigger] ws[k].contains(w);
        if k == 0 {
        } else if k <= nv {
            assert(m.visible[k - 1].workspace == ws[k]);
        } else {
            assert(m.hidden[k - 1 - nv] == ws[k]);
        }
    }
}

/// Sequences with the same elements, counted with multiplicity, have the
/// same members.
pub proof fn lemma_permutation_members<A>(a: Seq<A>, b: Seq<A>, x: A)
    requires
        a.to_multiset() == b.to_multiset(),
    ensures
        a.contains(x) <==> b.contains(x),
{
    a.to_multiset_ensures();
    b.to_multiset_ensures();
    assert(a.to_multiset().count(x) == b.to_multiset().count(x));
    assert(a.contains(x) <==> a.to_multiset().count(x) > 0);
    assert(b.contains(x) <==> b.to_multiset().count(x) > 0);
}

/// Viewing keeps the set of managed windows.
pub proof fn lemma_viewed_contains<R>(m: WorkspacesModel<R>, i: u32, w: Window)
    ensures
        m.viewed(i).contains(w) == m.contains(w),
{
    let v = m.viewed(i);
    lemma_viewed_rearranges(m, i);
    lemma_contains_workspaces(m, w);
    lemma_contains_workspaces(v, w);
    if exists|k: int| 0 <= k < m.workspaces().len() && #[trigger] m.workspaces()[k].contains(w) {
        let k = choose|k: int| 0 <= k < m.workspaces().len() && #[trigger] m.workspaces()[k].contains(w);
        lemma_permutation_members(v.workspaces(), m.workspaces(), m.workspaces()[k]);
        let j = choose|j: int| 0 <= j < v.workspaces().len() && v.workspaces()[j] == m.workspaces()[k];
        assert(v.workspaces()[j].contains(w));
    }
    if exists|k: int| 0 <= k < v.workspaces().len() && #[trigger] v.workspaces()[k].contains(w) {
        let k = choose|k: int| 0 <= k < v.workspaces().len() && #[trigger] v.workspaces()[k].contains(w);
        lemma_permutation_members(v.workspaces(), m.workspaces(), v.workspaces()[k]);
        let j = choose|j: int| 0 <= j < m.workspaces().len() && m.workspaces()[j] == v.workspaces()[k];
        assert(m.workspaces()[j].contains(w));
    }
}

/// Viewing keeps the set of workspace ids.
pub proof fn lemma_viewed_ids<R>(m: WorkspacesModel<R>, i: u32, t: u32)
    ensures
        workspace_ids(m.viewed(i).workspaces()).contains(t) == workspace_ids(m.workspaces()).contains(t),
{
    lemma_viewed_rearranges(m, i);
    lemma_permutation_map(m.viewed(i).workspaces(), m.workspaces(), |x: WorkspaceModel| x.id);
    lemma_permutation_members(workspace_ids(m.viewed(i).workspaces()), workspace_ids(m.workspaces()), t);
}

/// Shifting a managed window to an existing workspace leaves the current
/// workspace current and the ids unique; afterwards the window is the
/// focused window of the target workspace, no other workspace holds it,
/// and it does not float.
pub proof fn lemma_shift_window<R>(m: WorkspacesModel<R>, index: u32, w: Window)
    requires
        m.wf(),
        m.find_tag(w) is Some,
        workspace_ids(m.workspaces()).contains(index),
    ensures
        m.shifted_window(index, w).current_tag() == m.current_tag(),
        m.shifted_window(index, w).wf(),
        exists|k: int|
            0 <= k < m.shifted_window(index, w).workspaces().len() && (#[trigger] m.shifted_window(
                index,
                w,
            ).workspaces()[k]).id == index && m.shifted_window(index, w).workspaces()[k].peek() == Some(w),
        forall|k: int|
            0 <= k < m.shifted_window(index, w).workspaces().len() && (#[trigger] m.shifted_window(
                index,
                w,
            ).workspaces()[k]).contains(w) ==> m.shifted_window(index, w).workspaces()[k].id == index,
        !m.shifted_window(index, w).floating.dom().contains(w),
{
    let from = m.find_tag(w).unwrap();
    let cur = m.current_tag();
    let a0 = m.viewed(from);
    let a1 = a0.deleted(w);
    let a = a1.viewed(cur);
    let b0 = a.viewed(index);
    let b1 = b0.inserted_up(w);
    let b = b1.viewed(a.current_tag());
    assert(b == m.shifted_window(index, w));
    // ids
    let ids = workspace_ids(m.workspaces());
    assert(ids[0] == cur);
    assert(ids.contains(cur));
    lemma_viewed_wf(m, from);
    lemma_viewed_ids(m, from, cur);
    lemma_viewed_ids(m, from, index);
    lemma_deleted_ids(a0, w);
    lemma_viewed_wf(a1, cur);
    lemma_viewed_current(a1, cur);
    lemma_viewed_ids(a1, cur, index);
    lemma_viewed_ids(a1, cur, cur);
    assert(a.current_tag() == cur);
    lemma_viewed_wf(a, index);
    lemma_viewed_current(a, index);
    lemma_viewed_ids(a, index, cur);
    // the window is nowhere before inserting it
    lemma_deleted_absent(a0, w);
    lemma_viewed_contains(a1, cur, w);
    lemma_viewed_contains(a, index, w);
    assert(!b0.contains(w));
    lemma_inserted_up(b0, w);
    lemma_with_current_stack_ids(b0, Some(insert_up_stack(b0.current.workspace.stack, w)));
    assert(workspace_ids(b1.workspaces()).contains(cur));
    lemma_viewed_wf(b1, cur);
    lemma_viewed_current(b1, cur);
    // the target workspace
    let target = b1.current.workspace;
    assert(target.id == index);
    assert(target.peek() == Some(w));
    lemma_viewed_rearranges(b1, cur);
    assert(b1.workspaces()[0] == target);
    lemma_permutation_members(b.workspaces(), b1.workspaces(), target);
    let k = choose|k: int| 0 <= k < b.workspaces().len() && b.workspaces()[k] == target;
    assert(b.workspaces()[k].id == index && b.workspaces()[k].peek() == Some(w));
    // no other workspace holds the window
    lemma_contains_workspaces(b0, w);
    assert forall|j: int| 0 <= j < b.workspaces().len() && (#[trigger] b.workspaces()[j]).contains(w) implies b.workspaces()[j].id
        == index by {
        lemma_permutation_members(b.workspaces(), b1.workspaces(), b.workspaces()[j]);
        let q = choose|q: int| 0 <= q < b1.workspaces().len() && b1.workspaces()[q] == b.workspaces()[j];
        if q > 0 {
            assert(b1.workspaces()[q] == b0.workspaces()[q]);
            assert(b0.workspaces()[q].contains(w));
        }
    }
    lemma_viewed_rearranges(b1, cur);
}

/// Spreading the workspaces over new screens keeps every workspace, in its
/// order, and the floating windows; as many screens as there are
/// workspaces, at most, show one each, with the new areas and numbered in
/// order; the ids stay unique.
pub proof fn lemma_rescreen<R>(m: WorkspacesModel<R>, screens: Seq<ScreenDetail>)
    requires
        screens.len() >= 1,
    ensures
        rescreened(m, screens).workspaces() == m.workspaces(),
        rescreened(m, screens).floating == m.floating,
        rescreened(m, screens).screens().len() == if m.workspaces().len() <= screens.len() {
            m.workspaces().len()
        } else {
            screens.len()
        },
        forall|i: int|
            0 <= i < rescreened(m, screens).screens().len() ==> #[trigger] rescreened(m, screens).screens()[i].screen_id
                == i as u32 && rescreened(m, screens).screens()[i].screen_detail == screens[i],
        m.wf() && screens.len() <= u32::MAX + 1 ==> rescreened(m, screens).wf(),
{
    let ws = m.workspaces();
    let n = if ws.len() <= screens.len() {
        ws.len()
    } else {
        screens.len()
    };
    let r = rescreened(m, screens);
    let sc = Seq::new(
        n,
        |a: int| ScreenModel { workspace: ws[a], screen_id: a as u32, screen_detail: screens[a] },
    );
    assert(r.screens() =~= sc);
    assert(screen_workspaces(sc.drop_first()) =~= ws.subrange(1, n as int));
    assert(r.workspaces() =~= ws.take(n as int) + ws.skip(n as int));
    assert(ws.take(n as int) + ws.skip(n as int) =~= ws);
    if m.wf() && screens.len() <= u32::MAX + 1 {
        assert forall|i: int, j: int| 0 <= i < r.screen_numbers().len() && 0 <= j < r.screen_numbers().len() && i != j
            implies r.screen_numbers()[i] != r.screen_numbers()[j] by {
            assert(r.screen_numbers()[i] == i as u32);
            assert(r.screen_numbers()[j] == j as u32);
        }
    }
}

/// Each screen's id together with its area.
pub open spec fn screen_areas(s: Seq<ScreenModel>) -> Seq<(u32, ScreenDetail)> {
    s.map_values(|x: ScreenModel| (x.screen_id, x.screen_detail))
}

/// Viewing a workspace never moves an area from one screen to another:
/// the screens' ids together with their areas are those of before, so
/// every screen afterwards has the id and the area of a screen before.
pub proof fn lemma_viewed_screen_areas<R>(m: WorkspacesModel<R>, i: u32)
    ensures
        screen_areas(m.viewed(i).screens()).to_multiset() == screen_areas(m.screens()).to_multiset(),
        forall|x: (u32, ScreenDetail)|
            #[trigger] screen_areas(m.viewed(i).screens()).contains(x) ==> screen_areas(m.screens()).contains(x),
{
    let v = m.viewed(i);
    if m.current.workspace.id != i {
        match screen_ids(m.visible).index_of_first(i) {
            Some(k) => {
                screen_ids(m.visible).index_of_first_ensures(i);
                let vis = m.visible;
                assert(v.screens() =~= seq![vis[k]] + vis.remove(k).push(m.current));
                assert(m.screens() =~= seq![m.current] + vis);
                vstd::seq_lib::lemma_multiset_commutative(seq![vis[k]], vis.remove(k).push(m.current));
                vstd::seq_lib::lemma_multiset_commutative(seq![m.current], vis);
                assert(vis.to_multiset().count(vis[k]) > 0);
                assert(v.screens().to_multiset() =~= m.screens().to_multiset());
                lemma_permutation_map(v.screens(), m.screens(), |x: ScreenModel| (x.screen_id, x.screen_detail));
            },
            None => match workspace_ids(m.hidden).index_of_first(i) {
                Some(k) => {
                    assert(screen_areas(v.screens()) =~= screen_areas(m.screens()));
                },
                None => {},
            },
        }
    }
    assert forall|x: (u32, ScreenDetail)| #[trigger] screen_areas(v.screens()).contains(x) implies screen_areas(
        m.screens(),
    ).contains(x) by {
        lemma_permutation_members(screen_areas(v.screens()), screen_areas(m.screens()), x);
    }
}

/// Viewing a workspace shown on another screen makes that screen, as it
/// was, the current one, and the old current screen, as it was, one of the
/// other visible screens; the hidden workspaces stay.
pub proof fn lemma_viewed_visible<R>(m: WorkspacesModel<R>, i: u32, k: int)
    requires
        m.wf(),
        0 <= k < m.visible.len(),
        m.visible[k].workspace.id == i,
    ensures
        m.viewed(i).current == m.visible[k],
        m.viewed(i).visible.contains(m.current),
        m.viewed(i).visible.len() == m.visible.len(),
        m.viewed(i).hidden == m.hidden,
{
    let ids = workspace_ids(m.workspaces());
    let vids = screen_ids(m.visible);
    assert(ids[1 + k] == vids[k]);
    assert(ids[0] == m.current.workspace.id);
    assert forall|j: int| 0 <= j < k implies vids[j] != i by {
        assert(ids[1 + j] == vids[j]);
    }
    crate::workspaces::lemma_index_of_first_is(vids, i, k);
    let v = m.viewed(i);
    assert(v.visible[v.visible.len() - 1] == m.current);
}

/// Viewing a hidden workspace shows it on the current screen, which keeps
/// its id and its area; the other screens stay, and the workspace that was
/// current becomes hidden.
pub proof fn lemma_viewed_hidden<R>(m: WorkspacesModel<R>, i: u32, k: int)
    requires
        m.wf(),
        0 <= k < m.hidden.len(),
        m.hidden[k].id == i,
    ensures
        m.viewed(i).current.workspace == m.hidden[k],
        m.viewed(i).current.screen_id == m.current.screen_id,
        m.viewed(i).current.screen_detail == m.current.screen_detail,
        m.viewed(i).visible == m.visible,
        m.viewed(i).hidden.contains(m.current.workspace),
{
    let ids = workspace_ids(m.workspaces());
    let vids = screen_ids(m.visible);
    let hids = workspace_ids(m.hidden);
    let nv = m.visible.len();
    assert(ids[1 + nv + k] == hids[k]);
    assert(ids[0] == m.current.workspace.id);
    assert forall|j: int| 0 <= j < vids.len() implies vids[j] != i by {
        assert(ids[1 + j] == vids[j]);
    }
    crate::workspaces::lemma_index_of_first_none(vids, i);
    assert forall|j: int| 0 <= j < k implies hids[j] != i by {
        assert(ids[1 + nv + j] == hids[j]);
    }
    crate::workspaces::lemma_index_of_first_is(hids, i, k);
    let v = m.viewed(i);
    assert(v.hidden[v.hidden.len() - 1] == m.current.workspace);
}

/// Greedily viewing a workspace shown on another screen trades the two
/// screens' workspaces: the current screen keeps its id and its area and
/// shows the wanted workspace, and the other screen keeps its id and its
/// area and shows the workspace that was current.
pub proof fn lemma_greedy_viewed_visible<R>(m: WorkspacesModel<R>, i: u32, k: int)
    requires
        m.wf(),
        0 <= k < m.visible.len(),
        m.visible[k].workspace.id == i,
    ensures
        m.greedy_viewed(i).current == (ScreenModel {
            workspace: m.visible[k].workspace,
            screen_id: m.current.screen_id,
            screen_detail: m.current.screen_detail,
        }),
        m.greedy_viewed(i).visible.contains(
            ScreenModel {
                workspace: m.current.workspace,
                screen_id: m.visible[k].screen_id,
                screen_detail: m.visible[k].screen_detail,
            },
        ),
        m.greedy_viewed(i).visible.len() == m.visible.len(),
        m.greedy_viewed(i).hidden == m.hidden,
        screen_areas(m.greedy_viewed(i).screens()).to_multiset() == screen_areas(m.screens()).to_multiset(),
{
    let ids = workspace_ids(m.workspaces());
    let vids = screen_ids(m.visible);
    let hids = workspace_ids(m.hidden);
    let nv = m.visible.len();
    assert(ids[1 + k] == vids[k]);
    assert forall|j: int| 0 <= j < k implies vids[j] != i by {
        assert(ids[1 + j] == vids[j]);
    }
    crate::workspaces::lemma_index_of_first_is(vids, i, k);
    assert(!hids.contains(i)) by {
        if hids.contains(i) {
            let q = choose|q: int| 0 <= q < hids.len() && hids[q] == i;
            assert(ids[1 + nv + q] == hids[q]);
        }
    }
    let sv = m.visible[k];
    let g = m.greedy_viewed(i);
    let p = |x: ScreenModel| x.screen_id != sv.screen_id;
    assert forall|j: int| 0 <= j < m.visible.len() && j != k implies p(#[trigger] m.visible[j]) by {
        assert(m.screen_numbers()[1 + j] == m.visible[j].screen_id);
        assert(m.screen_numbers()[1 + k] == m.visible[k].screen_id);
    }
    lemma_filter_removes_one(m.visible, p, k);
    let moved = sv.with_workspace(m.current.workspace);
    assert(g.visible == m.visible.remove(k).push(moved));
    assert(g.visible[g.visible.len() - 1] == moved);
    let f = |x: ScreenModel| (x.screen_id, x.screen_detail);
    let a = screen_areas(m.visible);
    assert(screen_areas(g.screens()) =~= seq![f(m.current)] + a.remove(k).push(f(sv)));
    assert(screen_areas(m.screens()) =~= seq![f(m.current)] + a);
    assert(a[k] == f(sv));
    assert(a.remove(k).push(a[k]).to_multiset() =~= a.to_multiset()) by {
        assert(a.to_multiset().count(a[k]) > 0);
    }
    vstd::seq_lib::lemma_multiset_commutative(seq![f(m.current)], a.remove(k).push(f(sv)));
    vstd::seq_lib::lemma_multiset_commutative(seq![f(m.current)], a);
}

/// Greedily viewing a workspace never moves an area from one screen to
/// another: the screens' ids together with their areas are those of before.
pub proof fn lemma_greedy_viewed_screen_areas<R>(m: WorkspacesModel<R>, i: u32)
    requires
        m.wf(),
    ensures
        screen_areas(m.greedy_viewed(i).screens()).to_multiset() == screen_areas(m.screens()).to_multiset(),
{
    if workspace_ids(m.hidden).contains(i) {
        lemma_viewed_screen_areas(m, i);
    } else {
        screen_ids(m.visible).index_of_first_ensures(i);
        match screen_ids(m.visible).index_of_first(i) {
            Some(k) => {
                lemma_greedy_viewed_visible(m, i, k);
            },
            None => {},
        }
    }
}

/// Removing a window from a stack leaves the other windows in their order.
pub proof fn lemma_remove_window_windows(ws: WorkspaceModel, w: Window)
    ensures
        crate::workspaces::remove_from_workspace(ws, w).windows() == ws.windows().filter(other_than(w)),
        crate::workspaces::remove_from_workspace(ws, w).id == ws.id,
{
    if let Some(z) = ws.stack {
        crate::stack::lemma_filter_integrate(z, other_than(w));
        if z.filter(other_than(w)) is None {
            assert(z.integrate().filter(other_than(w)) =~= Seq::<Window>::empty());
        }
    } else {
        assert(Seq::<Window>::empty().filter(other_than(w)) =~= Seq::<Window>::empty());
    }
}

/// Deleting a window takes it out of every workspace and out of the
/// floating windows, and nothing else: every workspace keeps its id and its
/// other windows in their order, every screen stays where it was, and the
/// other floating windows keep their placement.
pub proof fn lemma_deleted_keeps_others<R>(m: WorkspacesModel<R>, w: Window)
    ensures
        m.deleted(w).workspaces().len() == m.workspaces().len(),
        forall|k: int|
            0 <= k < m.workspaces().len() ==> (#[trigger] m.deleted(w).workspaces()[k]).windows()
                == m.workspaces()[k].windows().filter(other_than(w)) && m.deleted(w).workspaces()[k].id
                == m.workspaces()[k].id,
        screen_areas(m.deleted(w).screens()) == screen_areas(m.screens()),
        m.deleted(w).floating == m.floating.remove(w),
{
    let d = m.deleted(w);
    let nv = m.visible.len();
    assert forall|k: int| 0 <= k < m.workspaces().len() implies (#[trigger] d.workspaces()[k]).windows()
        == m.workspaces()[k].windows().filter(other_than(w)) && d.workspaces()[k].id == m.workspaces()[k].id by {
        lemma_remove_window_windows(m.workspaces()[k], w);
        if k == 0 {
        } else if k <= nv {
            assert(d.workspaces()[k] == d.visible[k - 1].workspace);
            assert(m.workspaces()[k] == m.visible[k - 1].workspace);
        } else {
            assert(d.workspaces()[k] == d.hidden[k - 1 - nv]);
            assert(m.workspaces()[k] == m.hidden[k - 1 - nv]);
        }
    }
    assert(screen_areas(d.screens()) =~= screen_areas(m.screens()));
}

/// Inserting a window that is not managed puts it, focused, in the place of
/// the current workspace's focus, which moves one place down; every other
/// window, workspace and screen stays where it was.
pub proof fn lemma_inserted_up_keeps_others<R>(m: WorkspacesModel<R>, w: Window)
    requires
        !m.contains(w),
    ensures
        m.inserted_up(w).visible == m.visible,
        m.inserted_up(w).hidden == m.hidden,
        m.inserted_up(w).floating == m.floating,
        m.inserted_up(w).current.screen_id == m.current.screen_id,
        m.inserted_up(w).current.screen_detail == m.current.screen_detail,
        m.inserted_up(w).current.workspace.id == m.current.workspace.id,
        m.inserted_up(w).peek() == Some(w),
        m.current.workspace.stack matches Some(z) ==> m.inserted_up(w).current.workspace.windows()
            == z.integrate().insert(z.up.len() as int, w),
        m.current.workspace.stack is None ==> m.inserted_up(w).current.workspace.windows() == seq![w],
{
    crate::workspaces::lemma_insert_up_stack_integrate(m.current.workspace.stack, w);
}

/// Each workspace's id with its windows in display order.
pub open spec fn workspace_contents(s: Seq<WorkspaceModel>) -> Seq<(u32, Seq<Window>)> {
    s.map_values(|x: WorkspaceModel| (x.id, x.windows()))
}

/// Focusing a window changes no workspace's windows nor their order: the
/// workspaces' ids with their windows are those of before.
pub proof fn lemma_focus_window_keeps_windows<R>(m: WorkspacesModel<R>, w: Window)
    ensures
        workspace_contents(m.focus_window(w).workspaces()).to_multiset() == workspace_contents(
            m.workspaces(),
        ).to_multiset(),
        m.focus_window(w).floating == m.floating,
{
    let f = |x: WorkspaceModel| (x.id, x.windows());
    if m.peek() != Some(w) {
        if let Some(t) = m.find_tag(w) {
            let v = m.viewed(t);
            lemma_viewed_rearranges(m, t);
            lemma_permutation_map(v.workspaces(), m.workspaces(), f);
            if let Some(z) = v.current.workspace.stack {
                lemma_focus_up_until_keeps(z, w, z.len());
            }
            assert(workspace_contents(v.focused_to(w).workspaces()) =~= workspace_contents(v.workspaces()));
        }
    }
}

/// Moving the focus up any number of times keeps the flattened list.
proof fn lemma_focus_up_until_keeps(z: Zipper<Window>, w: Window, fuel: nat)
    ensures
        crate::stack::focus_up_until(z, w, fuel).integrate() == z.integrate(),
    decreases fuel,
{
    if fuel > 0 && z.focus != w {
        crate::stack::lemma_focus_up_integrate(z);
        lemma_focus_up_until_keeps(z.focus_up(), w, (fuel - 1) as nat);
    }
}

/// The tag found for a window is the id of the first workspace that holds
/// it; there is none exactly when no workspace holds it.
pub proof fn lemma_find_tag<R>(m: WorkspacesModel<R>, w: Window)
    ensures
        m.find_tag(w) is None <==> forall|k: int|
            0 <= k < m.workspaces().len() ==> !(#[trigger] m.workspaces()[k]).contains(w),
        m.find_tag(w) matches Some(t) ==> exists|k: int|
            0 <= k < m.workspaces().len() && (#[trigger] m.workspaces()[k]).id == t && m.workspaces()[k].contains(w)
                && forall|j: int| 0 <= j < k ==> !(#[trigger] m.workspaces()[j]).contains(w),
{
    let ws = m.workspaces();
    let flags = ws.map_values(|x: WorkspaceModel| x.contains(w));
    flags.index_of_first_ensures(true);
    if let Some(k) = flags.index_of_first(true) {
        assert(flags[k]);
        assert forall|j: int| 0 <= j < k implies !(#[trigger] ws[j]).contains(w) by {
            assert(flags[j] != true);
        }
    } else {
        assert forall|k: int| 0 <= k < ws.len() implies !(#[trigger] ws[k]).contains(w) by {
            assert(flags[k] != true);
        }
    }
}

/// The screen found for a window shows it: the current screen when it does,
/// else the first other screen that does; there is none exactly when no
/// screen shows the window.
pub proof fn lemma_find_screen<R>(m: WorkspacesModel<R>, w: Window)
    ensures
        m.find_screen(w) is None <==> forall|k: int|
            0 <= k < m.screens().len() ==> !(#[trigger] m.screens()[k]).workspace.contains(w),
        m.find_screen(w) matches Some(s) ==> exists|k: int|
            0 <= k < m.screens().len() && #[trigger] m.screens()[k] == s && s.workspace.contains(w) && forall|
                j: int,
            | 0 <= j < k ==> !(#[trigger] m.screens()[j]).workspace.contains(w),
{
    let sc = m.screens();
    let flags = m.visible.map_values(|x: ScreenModel| x.workspace.contains(w));
    flags.index_of_first_ensures(true);
    if m.current.workspace.contains(w) {
        assert(sc[0] == m.current);
    } else if let Some(k) = flags.index_of_first(true) {
        assert(flags[k]);
        assert(sc[k + 1] == m.visible[k]);
        assert forall|j: int| 0 <= j < k + 1 implies !(#[trigger] sc[j]).workspace.contains(w) by {
            if j > 0 {
                assert(flags[j - 1] != true);
                assert(sc[j] == m.visible[j - 1]);
            }
        }
    } else {
        assert forall|k: int| 0 <= k < sc.len() implies !(#[trigger] sc[k]).workspace.contains(w) by {
            if k > 0 {
                assert(flags[k - 1] != true);
                assert(sc[k] == m.visible[k - 1]);
            }
        }
    }
}

/// The windows on screen are those of the current workspace, then those of
/// the other screens in order; all windows are those of every workspace in
/// the order of `workspaces`, each workspace's in display order.
pub proof fn lemma_windows_order<R>(m: WorkspacesModel<R>)
    ensures
        m.visible_windows() == m.current.workspace.windows() + m.visible.map_values(
            |x: ScreenModel| x.workspace.windows(),
        ).flatten(),
        m.all_windows() == m.workspaces().map_values(|x: WorkspaceModel| x.windows()).flatten(),
{
    let f = |x: ScreenModel| x.workspace.windows();
    let g = |x: WorkspaceModel| x.windows();
    let a = m.screens().map_values(f);
    assert(a.drop_first() =~= m.visible.map_values(f));
    assert(a.first() == m.current.workspace.windows());
    let b = m.workspaces().map_values(g);
    let vs = seq![m.current.workspace] + screen_workspaces(m.visible);
    assert(b =~= vs.map_values(g) + m.hidden.map_values(g));
    vstd::seq_lib::lemma_flatten_concat(vs.map_values(g), m.hidden.map_values(g));
    assert(vs.map_values(g) =~= a);
}
} // verus!
