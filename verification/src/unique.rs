//! No window is held twice, not by two workspaces and not twice by one:
//! every operation on the workspaces keeps this so. A window enters a stack
//! only through `inserted_up`, which turns away managed windows.
use vstd::prelude::*;
use crate::stack::Zipper;
use crate::window_system::Window;
use crate::workspace::WorkspaceModel;
use crate::screen::ScreenModel;
use crate::workspaces::{
    WorkspacesModel,
    screen_workspaces,
    insert_up_stack,
    remove_from_workspace,
    other_than,
    initial_model,
};
use crate::window_manager::rescreened;
use crate::screen::ScreenDetail;

verus! {

broadcast use {
    vstd::multiset::group_multiset_axioms,
    vstd::seq_lib::group_to_multiset_ensures,
};

/// No window occurs twice among the windows of all workspaces.
pub open spec fn windows_unique<R>(m: WorkspacesModel<R>) -> bool {
    m.all_windows().no_duplicates()
}

/// The windows of the workspaces other than the current one, in the order
/// of `workspaces`.
pub open spec fn other_windows<R>(m: WorkspacesModel<R>) -> Seq<Window> {
    screen_workspaces(m.visible).map_values(|x: WorkspaceModel| x.windows()).flatten() + m.hidden.map_values(
        |x: WorkspaceModel| x.windows(),
    ).flatten()
}

/// The windows of all workspaces are those of the current one, then the
/// others; they are the windows of `workspaces`, flattened.
proof fn lemma_all_windows_split<R>(m: WorkspacesModel<R>)
    ensures
        m.all_windows() == m.current.workspace.windows() + other_windows(m),
        m.all_windows() == m.workspaces().map_values(|x: WorkspaceModel| x.windows()).flatten(),
{
    let sv = m.screens().map_values(|x: ScreenModel| x.workspace.windows());
    let vv = screen_workspaces(m.visible).map_values(|x: WorkspaceModel| x.windows());
    let hv = m.hidden.map_values(|x: WorkspaceModel| x.windows());
    assert(sv.drop_first() =~= vv);
    assert(sv.first() == m.current.workspace.windows());
    assert(m.visible_windows() == sv.first() + sv.drop_first().flatten());
    let all = m.workspaces().map_values(|x: WorkspaceModel| x.windows());
    assert(all =~= seq![m.current.workspace.windows()] + vv + hv);
    vstd::seq_lib::lemma_flatten_concat(seq![m.current.workspace.windows()] + vv, hv);
    vstd::seq_lib::lemma_flatten_concat(seq![m.current.workspace.windows()], vv);
    seq![m.current.workspace.windows()].lemma_flatten_one_element();
    assert(m.all_windows() =~= m.current.workspace.windows() + other_windows(m));
}

/// Sequences of sequences that are rearrangements of each other flatten
/// to rearrangements of each other.
proof fn lemma_flatten_permutation<A>(a: Seq<Seq<A>>, b: Seq<Seq<A>>)
    requires
        a.to_multiset() == b.to_multiset(),
    ensures
        a.flatten().to_multiset() == b.flatten().to_multiset(),
    decreases a.len(),
{
    a.to_multiset_ensures();
    b.to_multiset_ensures();
    if a.len() == 0 {
        assert(b.len() == 0);
        assert(b =~= Seq::<Seq<A>>::empty());
    } else {
        let x = a.last();
        let a2 = a.drop_last();
        assert(a2.push(x) =~= a);
        assert(a.to_multiset().count(x) > 0);
        assert(b.contains(x));
        let j = choose|j: int| 0 <= j < b.len() && b[j] == x;
        let b2 = b.remove(j);
        assert(a2.to_multiset() =~= b2.to_multiset());
        lemma_flatten_permutation(a2, b2);
        a2.lemma_flatten_push(x);
        let front = b.subrange(0, j);
        let back = b.subrange(j + 1, b.len() as int);
        assert(b =~= front + seq![x] + back);
        assert(b2 =~= front + back);
        vstd::seq_lib::lemma_flatten_concat(front + seq![x], back);
        vstd::seq_lib::lemma_flatten_concat(front, seq![x]);
        vstd::seq_lib::lemma_flatten_concat(front, back);
        seq![x].lemma_flatten_one_element();
        vstd::seq_lib::lemma_multiset_commutative(a2.flatten(), x);
        vstd::seq_lib::lemma_multiset_commutative(front.flatten() + x, back.flatten());
        vstd::seq_lib::lemma_multiset_commutative(front.flatten(), x);
        vstd::seq_lib::lemma_multiset_commutative(front.flatten(), back.flatten());
        assert(b.flatten().to_multiset() =~= b2.flatten().to_multiset().add(x.to_multiset()));
    }
}

/// A sequence with the same elements as one without duplicates has none.
proof fn lemma_same_multiset_unique<A>(a: Seq<A>, b: Seq<A>)
    requires
        a.to_multiset() == b.to_multiset(),
        a.no_duplicates(),
    ensures
        b.no_duplicates(),
{
    crate::laws::lemma_permutation_no_duplicates(b, a);
}

/// Workspaces that are a rearrangement of those of `m` hold the same
/// windows, counted with multiplicity.
proof fn lemma_rearranged_windows<R>(m: WorkspacesModel<R>, n: WorkspacesModel<R>)
    requires
        n.workspaces().to_multiset() == m.workspaces().to_multiset(),
    ensures
        n.all_windows().to_multiset() == m.all_windows().to_multiset(),
{
    let f = |x: WorkspaceModel| x.windows();
    crate::laws::lemma_permutation_map(n.workspaces(), m.workspaces(), f);
    lemma_flatten_permutation(n.workspaces().map_values(f), m.workspaces().map_values(f));
    lemma_all_windows_split(m);
    lemma_all_windows_split(n);
}

/// Viewing a workspace keeps every window held once.
pub proof fn lemma_viewed_unique<R>(m: WorkspacesModel<R>, i: u32)
    requires
        windows_unique(m),
    ensures
        windows_unique(m.viewed(i)),
{
    crate::laws::lemma_viewed_rearranges(m, i);
    lemma_rearranged_windows(m, m.viewed(i));
    lemma_same_multiset_unique(m.all_windows(), m.viewed(i).all_windows());
}

/// Replacing the current stack by one with the same windows, counted with
/// multiplicity, keeps every window held once.
proof fn lemma_current_stack_rearranged<R>(m: WorkspacesModel<R>, s: Option<Zipper<Window>>)
    requires
        windows_unique(m),
        m.with_current_stack(s).current.workspace.windows().to_multiset()
            == m.current.workspace.windows().to_multiset(),
    ensures
        windows_unique(m.with_current_stack(s)),
{
    let n = m.with_current_stack(s);
    lemma_all_windows_split(m);
    lemma_all_windows_split(n);
    assert(other_windows(n) == other_windows(m)) by {
        assert(screen_workspaces(n.visible) =~= screen_workspaces(m.visible));
    }
    vstd::seq_lib::lemma_multiset_commutative(m.current.workspace.windows(), other_windows(m));
    vstd::seq_lib::lemma_multiset_commutative(n.current.workspace.windows(), other_windows(n));
    lemma_same_multiset_unique(m.all_windows(), n.all_windows());
}

/// Moving the focus or swapping windows on the current workspace keeps
/// every window held once.
pub proof fn lemma_focus_moves_unique<R>(m: WorkspacesModel<R>)
    requires
        windows_unique(m),
    ensures
        windows_unique(m.focused_up()),
        windows_unique(m.focused_down()),
        windows_unique(m.swapped_up()),
        windows_unique(m.swapped_down()),
        windows_unique(m.swapped_master()),
        windows_unique(m.shifted_master()),
{
    match m.current.workspace.stack {
        Some(z) => {
            crate::stack::lemma_focus_up_integrate(z);
            crate::stack::lemma_focus_down_integrate(z);
            crate::stack::lemma_swaps_permute(z);
            lemma_shift_master_permutes(z);
            lemma_current_stack_rearranged(m, Some(z.focus_up()));
            lemma_current_stack_rearranged(m, Some(z.focus_down()));
            lemma_current_stack_rearranged(m, Some(z.swap_up()));
            lemma_current_stack_rearranged(m, Some(z.swap_down()));
            lemma_current_stack_rearranged(m, Some(z.swap_master()));
            lemma_current_stack_rearranged(m, Some(crate::workspaces::shift_master_stack(z)));
        },
        None => {
            assert(m.with_current_stack(None) =~= m) by {
                assert(m.current.with_workspace(m.current.workspace.with_stack(None)) == m.current);
            }
        },
    }
}

/// Moving the focus to the top keeps the windows, counted with
/// multiplicity.
proof fn lemma_shift_master_permutes(z: Zipper<Window>)
    ensures
        crate::workspaces::shift_master_stack(z).integrate().to_multiset() == z.integrate().to_multiset(),
{
    if z.up.len() > 0 {
        let r = z.up.reverse();
        assert(z.integrate() =~= r + (seq![z.focus] + z.down));
        assert(crate::workspaces::shift_master_stack(z).integrate() =~= seq![z.focus] + (r + z.down));
        vstd::seq_lib::lemma_multiset_commutative(r, seq![z.focus] + z.down);
        vstd::seq_lib::lemma_multiset_commutative(seq![z.focus], z.down);
        vstd::seq_lib::lemma_multiset_commutative(seq![z.focus], r + z.down);
        vstd::seq_lib::lemma_multiset_commutative(r, z.down);
    }
}

/// Inserting a window keeps every window held once: a managed window is
/// turned away, and a new one is held by the current workspace alone.
pub proof fn lemma_inserted_up_unique<R>(m: WorkspacesModel<R>, w: Window)
    requires
        windows_unique(m),
    ensures
        windows_unique(m.inserted_up(w)),
{
    if !m.contains(w) {
        let s = Some(insert_up_stack(m.current.workspace.stack, w));
        let n = m.with_current_stack(s);
        lemma_all_windows_split(m);
        lemma_all_windows_split(n);
        assert(other_windows(n) == other_windows(m)) by {
            assert(screen_workspaces(n.visible) =~= screen_workspaces(m.visible));
        }
        // the new stack holds the old windows and the new one
        let cw = m.current.workspace.windows();
        let nw = n.current.workspace.windows();
        match m.current.workspace.stack {
            Some(z) => {
                assert(cw =~= z.up.reverse() + (seq![z.focus] + z.down));
                assert(nw =~= z.up.reverse() + (seq![w] + (seq![z.focus] + z.down)));
                vstd::seq_lib::lemma_multiset_commutative(z.up.reverse(), seq![z.focus] + z.down);
                vstd::seq_lib::lemma_multiset_commutative(z.up.reverse(), seq![w] + (seq![z.focus] + z.down));
                vstd::seq_lib::lemma_multiset_commutative(seq![w], seq![z.focus] + z.down);
                assert(nw.to_multiset() =~= cw.to_multiset().insert(w));
            },
            None => {
                assert(cw =~= Seq::<Window>::empty());
                assert(nw =~= seq![w]);
                assert(nw.to_multiset() =~= cw.to_multiset().insert(w));
            },
        }
        vstd::seq_lib::lemma_multiset_commutative(cw, other_windows(m));
        vstd::seq_lib::lemma_multiset_commutative(nw, other_windows(n));
        assert(n.all_windows().to_multiset() =~= m.all_windows().to_multiset().insert(w));
        // the new window was not held
        assert(!m.all_windows().contains(w)) by {
            if m.all_windows().contains(w) {
                let all = m.workspaces().map_values(|x: WorkspaceModel| x.windows());
                lemma_flatten_member(all, w);
                let k = choose|k: int| 0 <= k < all.len() && #[trigger] all[k].contains(w);
                lemma_windows_contains(m.workspaces()[k], w);
                crate::laws::lemma_contains_workspaces(m, w);
            }
        }
        m.all_windows().lemma_multiset_has_no_duplicates();
        assert forall|x: Window| n.all_windows().to_multiset().contains(x) implies n.all_windows().to_multiset().count(
            x,
        ) == 1 by {
            if x != w {
                assert(m.all_windows().to_multiset().contains(x));
            }
        }
        n.all_windows().lemma_multiset_has_no_duplicates_conv();
    }
}

/// An element of a flattened sequence is in one of the parts.
proof fn lemma_flatten_member<A>(s: Seq<Seq<A>>, x: A)
    requires
        s.flatten().contains(x),
    ensures
        exists|k: int| 0 <= k < s.len() && #[trigger] s[k].contains(x),
    decreases s.len(),
{
    if s.len() > 0 {
        let i = choose|i: int| 0 <= i < s.flatten().len() && s.flatten()[i] == x;
        if i < s.first().len() {
            assert(s[0][i] == x);
            assert(s[0].contains(x));
        } else {
            assert(s.drop_first().flatten()[i - s.first().len()] == x);
            lemma_flatten_member(s.drop_first(), x);
            let k = choose|k: int| 0 <= k < s.drop_first().len() && #[trigger] s.drop_first()[k].contains(x);
            assert(s[k + 1] == s.drop_first()[k]);
        }
    }
}

/// A workspace holds exactly the windows in its list of windows.
proof fn lemma_windows_contains(x: WorkspaceModel, w: Window)
    ensures
        x.windows().contains(w) <==> x.contains(w),
{
    match x.stack {
        Some(z) => crate::stack::lemma_integrate_len_contains(z, w),
        None => {},
    }
}

/// Filtering each part and flattening is flattening and filtering.
proof fn lemma_flatten_filter<A>(s: Seq<Seq<A>>, p: spec_fn(A) -> bool)
    ensures
        s.map_values(|x: Seq<A>| x.filter(p)).flatten() == s.flatten().filter(p),
    decreases s.len(),
{
    let f = s.map_values(|x: Seq<A>| x.filter(p));
    if s.len() == 0 {
        assert(f =~= Seq::<Seq<A>>::empty());
        assert(s.flatten().filter(p) =~= Seq::<A>::empty()) by {
            reveal_with_fuel(Seq::filter, 1);
        }
    } else {
        lemma_flatten_filter(s.drop_first(), p);
        assert(f.drop_first() =~= s.drop_first().map_values(|x: Seq<A>| x.filter(p)));
        Seq::filter_distributes_over_add(s.first(), s.drop_first().flatten(), p);
    }
}

/// Filtering keeps a sequence free of duplicates.
proof fn lemma_filter_unique<A>(s: Seq<A>, p: spec_fn(A) -> bool)
    requires
        s.no_duplicates(),
    ensures
        s.filter(p).no_duplicates(),
    decreases s.len(),
{
    reveal_with_fuel(Seq::filter, 1);
    if s.len() > 0 {
        let d = s.drop_last();
        assert(d.no_duplicates());
        lemma_filter_unique(d, p);
        if p(s.last()) {
            assert(!d.filter(p).contains(s.last())) by {
                if d.filter(p).contains(s.last()) {
                    crate::stack::lemma_seq_filter_kept(d, p, s.last());
                    let k = choose|k: int| 0 <= k < d.len() && d[k] == s.last();
                    assert(s[k] == s[s.len() - 1]);
                }
            }
        }
    }
}

/// A workspace without the window lists its windows without it.
proof fn lemma_removed_windows(x: WorkspaceModel, w: Window)
    ensures
        remove_from_workspace(x, w).windows() == x.windows().filter(other_than(w)),
{
    match x.stack {
        Some(z) => {
            crate::stack::lemma_filter_integrate(z, other_than(w));
            if z.filter(other_than(w)) is None {
                assert(x.windows().filter(other_than(w)) =~= Seq::<Window>::empty());
            }
        },
        None => {
            assert(x.windows().filter(other_than(w)) =~= Seq::<Window>::empty()) by {
                reveal_with_fuel(Seq::filter, 1);
            }
        },
    }
}

/// Deleting a window takes it out of the windows of all workspaces and
/// leaves the other windows in their order.
pub proof fn lemma_deleted_windows<R>(m: WorkspacesModel<R>, w: Window)
    ensures
        m.deleted(w).all_windows() == m.all_windows().filter(other_than(w)),
{
    let n = m.deleted(w);
    let rf = |x: WorkspaceModel| remove_from_workspace(x, w);
    let win = |x: WorkspaceModel| x.windows();
    lemma_deleted_workspaces(m, w);
    lemma_all_windows_split(m);
    lemma_all_windows_split(n);
    let parts = m.workspaces().map_values(win);
    assert(n.workspaces().map_values(win) =~= parts.map_values(|x: Seq<Window>| x.filter(other_than(w)))) by {
        assert forall|k: int| 0 <= k < parts.len() implies #[trigger] n.workspaces().map_values(win)[k]
            == parts.map_values(|x: Seq<Window>| x.filter(other_than(w)))[k] by {
            lemma_removed_windows(m.workspaces()[k], w);
        }
    }
    lemma_flatten_filter(parts, other_than(w));
}

/// Deleting a window keeps every window held once.
pub proof fn lemma_deleted_unique<R>(m: WorkspacesModel<R>, w: Window)
    requires
        windows_unique(m),
    ensures
        windows_unique(m.deleted(w)),
{
    lemma_deleted_windows(m, w);
    lemma_filter_unique(m.all_windows(), other_than(w));
}

/// With unique ids, greedily viewing a workspace keeps every window held
/// once.
pub proof fn lemma_greedy_viewed_unique<R>(m: WorkspacesModel<R>, i: u32)
    requires
        m.wf(),
        windows_unique(m),
    ensures
        windows_unique(m.greedy_viewed(i)),
{
    crate::laws::lemma_greedy_viewed(m, i);
    lemma_rearranged_windows(m, m.greedy_viewed(i));
    lemma_same_multiset_unique(m.all_windows(), m.greedy_viewed(i).all_windows());
}

/// Moving the focus up any number of times keeps the flattened stack.
proof fn lemma_focus_up_until_integrate(z: Zipper<Window>, w: Window, fuel: nat)
    ensures
        crate::stack::focus_up_until(z, w, fuel).integrate() == z.integrate(),
    decreases fuel,
{
    if fuel > 0 && z.focus != w {
        crate::stack::lemma_focus_up_integrate(z);
        lemma_focus_up_until_integrate(z.focus_up(), w, (fuel - 1) as nat);
    }
}

/// Focusing a window keeps every window held once.
pub proof fn lemma_focus_window_unique<R>(m: WorkspacesModel<R>, w: Window)
    requires
        windows_unique(m),
    ensures
        windows_unique(m.focus_window(w)),
{
    if m.peek() != Some(w) {
        match m.find_tag(w) {
            Some(t) => {
                lemma_viewed_unique(m, t);
                let v = m.viewed(t);
                match v.current.workspace.stack {
                    Some(z) => {
                        lemma_focus_up_until_integrate(z, w, z.len());
                        lemma_current_stack_rearranged(v, Some(crate::stack::focus_up_until(z, w, z.len())));
                    },
                    None => {
                        assert(v.with_current_stack(None) =~= v) by {
                            assert(v.current.with_workspace(v.current.workspace.with_stack(None)) == v.current);
                        }
                    },
                }
            },
            None => {},
        }
    }
}

/// Moving a window to another workspace keeps every window held once.
pub proof fn lemma_shifted_window_unique<R>(m: WorkspacesModel<R>, index: u32, w: Window)
    requires
        windows_unique(m),
    ensures
        windows_unique(m.shifted_window(index, w)),
        windows_unique(m.shifted(index)),
{
    lemma_shifted_window_unique_one(m, index, w);
    match m.peek() {
        Some(f) => lemma_shifted_window_unique_one(m, index, f),
        None => {},
    }
}

proof fn lemma_shifted_window_unique_one<R>(m: WorkspacesModel<R>, index: u32, w: Window)
    requires
        windows_unique(m),
    ensures
        windows_unique(m.shifted_window(index, w)),
{
    match m.find_tag(w) {
        Some(from) => {
            lemma_viewed_unique(m, from);
            lemma_deleted_unique(m.viewed(from), w);
            lemma_viewed_unique(m.viewed(from).deleted(w), m.current_tag());
            let a = m.viewed(from).deleted(w).viewed(m.current_tag());
            lemma_viewed_unique(a, index);
            lemma_inserted_up_unique(a.viewed(index), w);
            lemma_viewed_unique(a.viewed(index).inserted_up(w), a.current_tag());
        },
        None => {},
    }
}

/// Floating or sinking a window, or giving a floating window a new place,
/// does not touch the stacks.
pub proof fn lemma_floating_unique<R>(m: WorkspacesModel<R>, w: Window, r: R)
    ensures
        m.floated(w, r).all_windows() == m.all_windows(),
        m.sunk(w).all_windows() == m.all_windows(),
{
}

/// Parts that are all empty flatten to nothing.
proof fn lemma_flatten_empty_parts<A>(s: Seq<Seq<A>>)
    requires
        forall|k: int| 0 <= k < s.len() ==> (#[trigger] s[k]).len() == 0,
    ensures
        s.flatten().len() == 0,
    decreases s.len(),
{
    if s.len() > 0 {
        assert(s.drop_first()[0] == s[1] || s.drop_first().len() == 0);
        assert forall|k: int| 0 <= k < s.drop_first().len() implies (#[trigger] s.drop_first()[k]).len() == 0 by {
            assert(s.drop_first()[k] == s[k + 1]);
        }
        lemma_flatten_empty_parts(s.drop_first());
    }
}

/// A fresh set of workspaces holds no window.
pub proof fn lemma_initial_unique<R>(tags: Seq<Seq<char>>, screens: Seq<ScreenDetail>)
    requires
        tags.len() >= 1,
        screens.len() >= 1,
        tags.len() <= u32::MAX + 1,
    ensures
        initial_model::<R>(tags, screens).all_windows().len() == 0,
        windows_unique(initial_model::<R>(tags, screens)),
{
    let m = initial_model::<R>(tags, screens);
    crate::laws::lemma_initial::<R>(tags, screens);
    lemma_all_windows_split(m);
    let parts = m.workspaces().map_values(|x: WorkspaceModel| x.windows());
    assert forall|k: int| 0 <= k < parts.len() implies (#[trigger] parts[k]).len() == 0 by {
        assert(m.workspaces()[k] == crate::workspaces::initial_workspace(tags, k));
    }
    lemma_flatten_empty_parts(parts);
}

/// Spreading the workspaces over new screens keeps every window held once.
pub proof fn lemma_rescreen_unique<R>(m: WorkspacesModel<R>, screens: Seq<ScreenDetail>)
    requires
        windows_unique(m),
        screens.len() >= 1,
    ensures
        windows_unique(rescreened(m, screens)),
{
    crate::laws::lemma_rescreen(m, screens);
    lemma_all_windows_split(m);
    lemma_all_windows_split(rescreened(m, screens));
}

/// Managing a new window, floating or not, and unmanaging a window keep
/// every window held once.
pub proof fn lemma_manage_unique<R>(m: WorkspacesModel<R>, w: Window, r: R)
    requires
        windows_unique(m),
    ensures
        windows_unique(m.inserted_up(w)),
        windows_unique(m.inserted_up(w).floated(w, r)),
        windows_unique(m.deleted(w)),
{
    lemma_inserted_up_unique(m, w);
    lemma_floating_unique(m.inserted_up(w), w, r);
    lemma_deleted_unique(m, w);
}

/// When no window is held twice and every floating window is also in a
/// stack, as managing a window keeps it, the number of windows is the
/// number of windows in the stacks.
pub proof fn lemma_len_counts_windows<R>(m: WorkspacesModel<R>)
    requires
        windows_unique(m),
        forall|w: Window| #[trigger] m.floating.dom().contains(w) ==> m.all_windows().contains(w),
    ensures
        m.len() == m.all_windows().len(),
{
    assert(m.all_windows().to_set().union(m.floating.dom()) =~= m.all_windows().to_set());
    m.all_windows().unique_seq_to_set();
}

/// Deleting a window takes it out of each workspace, in place.
proof fn lemma_deleted_workspaces<R>(m: WorkspacesModel<R>, w: Window)
    ensures
        m.deleted(w).workspaces() == m.workspaces().map_values(|x: WorkspaceModel| remove_from_workspace(x, w)),
{
    let n = m.deleted(w);
    let rf = |x: WorkspaceModel| remove_from_workspace(x, w);
    assert(screen_workspaces(n.visible) =~= screen_workspaces(m.visible).map_values(rf));
    assert(n.hidden =~= m.hidden.map_values(rf));
    assert(n.workspaces() =~= m.workspaces().map_values(rf));
}

/// Some workspace with id `t` holds the window.
pub open spec fn held_by<R>(m: WorkspacesModel<R>, t: u32, w: Window) -> bool {
    exists|k: int| 0 <= k < m.workspaces().len() && (#[trigger] m.workspaces()[k]).id == t && m.workspaces()[k].contains(w)
}

/// Viewing keeps which workspaces hold which windows.
proof fn lemma_viewed_held<R>(m: WorkspacesModel<R>, i: u32, t: u32, w: Window)
    ensures
        held_by(m.viewed(i), t, w) == held_by(m, t, w),
{
    crate::laws::lemma_viewed_rearranges(m, i);
    let a = m.workspaces();
    let b = m.viewed(i).workspaces();
    if held_by(m, t, w) {
        let k = choose|k: int| 0 <= k < a.len() && (#[trigger] a[k]).id == t && a[k].contains(w);
        assert(a.contains(a[k]));
        crate::laws::lemma_permutation_members(a, b, a[k]);
        let j = choose|j: int| 0 <= j < b.len() && b[j] == a[k];
        assert(b[j].id == t && b[j].contains(w));
    }
    if held_by(m.viewed(i), t, w) {
        let k = choose|k: int| 0 <= k < b.len() && (#[trigger] b[k]).id == t && b[k].contains(w);
        assert(b.contains(b[k]));
        crate::laws::lemma_permutation_members(a, b, b[k]);
        let j = choose|j: int| 0 <= j < a.len() && a[j] == b[k];
        assert(a[j].id == t && a[j].contains(w));
    }
}

/// A workspace without one window still holds every other window it held.
proof fn lemma_removed_holds(x: WorkspaceModel, w: Window, v: Window)
    requires
        v != w,
    ensures
        remove_from_workspace(x, w).contains(v) == x.contains(v),
        remove_from_workspace(x, w).id == x.id,
{
    lemma_removed_windows(x, w);
    lemma_windows_contains(x, v);
    lemma_windows_contains(remove_from_workspace(x, w), v);
    let ws = x.windows();
    if ws.filter(other_than(w)).contains(v) {
        crate::stack::lemma_seq_filter_kept(ws, other_than(w), v);
    }
    if ws.contains(v) {
        let k = choose|k: int| 0 <= k < ws.len() && ws[k] == v;
        ws.lemma_filter_contains(other_than(w), k);
    }
}

/// Deleting a window keeps which workspaces hold the other windows.
proof fn lemma_deleted_held<R>(m: WorkspacesModel<R>, w: Window, t: u32, v: Window)
    requires
        v != w,
    ensures
        held_by(m.deleted(w), t, v) == held_by(m, t, v),
{
    lemma_deleted_workspaces(m, w);
    let a = m.workspaces();
    let b = m.deleted(w).workspaces();
    if held_by(m, t, v) {
        let k = choose|k: int| 0 <= k < a.len() && (#[trigger] a[k]).id == t && a[k].contains(v);
        lemma_removed_holds(a[k], w, v);
        assert(b[k].id == t && b[k].contains(v));
    }
    if held_by(m.deleted(w), t, v) {
        let k = choose|k: int| 0 <= k < b.len() && (#[trigger] b[k]).id == t && b[k].contains(v);
        lemma_removed_holds(a[k], w, v);
        assert(a[k].id == t && a[k].contains(v));
    }
}

/// Inserting a window keeps which workspaces hold the other windows.
proof fn lemma_inserted_up_held<R>(m: WorkspacesModel<R>, w: Window, t: u32, v: Window)
    requires
        v != w,
    ensures
        held_by(m.inserted_up(w), t, v) == held_by(m, t, v),
{
    if !m.contains(w) {
        let n = m.inserted_up(w);
        let a = m.workspaces();
        let b = n.workspaces();
        assert(b.len() == a.len());
        assert forall|k: int| 0 <= k < a.len() implies (#[trigger] b[k]).id == a[k].id && b[k].contains(v)
            == a[k].contains(v) by {
            if k > 0 {
                assert(b[k] == a[k]);
            } else {
                match m.current.workspace.stack {
                    Some(z) => {
                        let d = seq![z.focus] + z.down;
                        if d.contains(v) {
                            let i = choose|i: int| 0 <= i < d.len() && d[i] == v;
                            if i > 0 {
                                assert(z.down[i - 1] == v);
                            }
                        }
                        if z.down.contains(v) {
                            let i = choose|i: int| 0 <= i < z.down.len() && z.down[i] == v;
                            assert(d[i + 1] == v);
                        }
                        if z.focus == v {
                            assert(d[0] == v);
                        }
                    },
                    None => {},
                }
            }
        }
        if held_by(m, t, v) {
            let k = choose|k: int| 0 <= k < a.len() && (#[trigger] a[k]).id == t && a[k].contains(v);
            assert(b[k].id == t && b[k].contains(v));
        }
        if held_by(n, t, v) {
            let k = choose|k: int| 0 <= k < b.len() && (#[trigger] b[k]).id == t && b[k].contains(v);
            assert(a[k].id == t && a[k].contains(v));
        }
    }
}

/// Moving a window to another workspace leaves every other window with the
/// workspaces that held it.
pub proof fn lemma_shifted_window_others<R>(m: WorkspacesModel<R>, index: u32, w: Window, t: u32, v: Window)
    requires
        v != w,
    ensures
        held_by(m.shifted_window(index, w), t, v) == held_by(m, t, v),
{
    match m.find_tag(w) {
        Some(from) => {
            lemma_viewed_held(m, from, t, v);
            lemma_deleted_held(m.viewed(from), w, t, v);
            lemma_viewed_held(m.viewed(from).deleted(w), m.current_tag(), t, v);
            let a = m.viewed(from).deleted(w).viewed(m.current_tag());
            lemma_viewed_held(a, index, t, v);
            lemma_inserted_up_held(a.viewed(index), w, t, v);
            lemma_viewed_held(a.viewed(index).inserted_up(w), a.current_tag(), t, v);
        },
        None => {},
    }
}

} // verus!
