//! The decisions the window manager takes when it changes the workspaces
//! and shows the result: which windows are new on screen, what each
//! screen's layout is given to place, which windows float there, which
//! must be hidden, and how many unmap notifications are then expected.
use vstd::prelude::*;
use std::collections::{BTreeMap, BTreeSet};
use crate::stack::{Stack, Zipper};
use crate::window_system::Window;
use crate::workspace::stack_model;
use crate::screen::{ScreenDetail, ScreenModel};
use crate::workspaces::{Workspaces, WorkspacesModel, screens_model};
use crate::window_manager::{WindowManager, unmap_inserted};

verus! {

broadcast use {
    vstd::laws_eq::group_laws_eq,
    vstd::laws_cmp::group_laws_cmp,
    vstd::std_specs::btree::group_btree_axioms,
};

/// The windows of the screens before screen `i`, in order.
pub open spec fn shown_before(screens: Seq<ScreenModel>, i: int) -> Seq<Window> {
    screens.take(i).map_values(|x: ScreenModel| x.workspace.windows()).flatten()
}

/// The stack without its floating windows.
pub open spec fn unfloated(stack: Option<Zipper<Window>>, floating: Set<Window>) -> Option<Zipper<Window>> {
    match stack {
        None => None,
        Some(z) => z.filter(|w: Window| !floating.contains(w)),
    }
}

/// The part of a stack that a layout places: the windows that do not
/// float, then of those the ones that no earlier screen shows.
pub open spec fn tiled_part(
    stack: Option<Zipper<Window>>,
    floating: Set<Window>,
    before: Seq<Window>,
) -> Option<Zipper<Window>> {
    match unfloated(stack, floating) {
        None => None,
        Some(t) => t.filter(|w: Window| !before.contains(w)),
    }
}

/// The model of what one screen shows.
pub struct ArrangementModel {
    pub screen_detail: ScreenDetail,
    pub workspace_id: u32,
    pub tiled: Option<Zipper<Window>>,
    pub floating: Seq<Window>,
}

/// What screen `i` of `m` shows: its area, its workspace, the windows its
/// layout places, and the windows of its workspace that `placed` gives a
/// floating placement, in display order.
pub open spec fn arranged<R>(placed: Map<Window, R>, m: WorkspacesModel<R>, i: int) -> ArrangementModel {
    let s = m.screens()[i];
    ArrangementModel {
        screen_detail: s.screen_detail,
        workspace_id: s.workspace.id,
        tiled: tiled_part(s.workspace.stack, m.floating.dom(), shown_before(m.screens(), i)),
        floating: s.workspace.windows().filter(|w: Window| placed.dom().contains(w)),
    }
}

/// The unmap counts after one more unmap is expected of each window of `s`.
pub open spec fn unmaps_inserted(m: Map<Window, Window>, s: Seq<Window>) -> Map<Window, Window>
    decreases s.len(),
{
    if s.len() == 0 {
        m
    } else {
        unmap_inserted(unmaps_inserted(m, s.drop_last()), s.last())
    }
}

/// What one screen shows: its area, the id of its workspace, the stack its
/// layout places and the floating windows of its workspace.
pub struct ScreenArrangement {
    pub screen_detail: ScreenDetail,
    pub workspace_id: u32,
    pub tiled: Option<Stack<Window>>,
    pub floating: Vec<Window>,
}

impl View for ScreenArrangement {
    type V = ArrangementModel;

    open spec fn view(&self) -> ArrangementModel {
        ArrangementModel {
            screen_detail: self.screen_detail,
            workspace_id: self.workspace_id,
            tiled: stack_model(self.tiled),
            floating: self.floating@,
        }
    }
}

/// Whether the list holds the window.
pub fn holds_window(v: &Vec<Window>, w: Window) -> (r: bool)
    ensures
        r == v@.contains(w),
{
    let mut i: usize = 0;
    while i < v.len()
        invariant
            i <= v.len(),
            forall|k: int| 0 <= k < i ==> v@[k] != w,
        decreases v.len() - i,
    {
        if v[i] == w {
            return true;
        }
        i = i + 1;
    }
    false
}

/// The windows of `wins` that `placed` gives a floating placement, in order.
fn placed_windows<R>(wins: &Vec<Window>, placed: &BTreeMap<Window, R>) -> (r: Vec<Window>)
    ensures
        r@ == wins@.filter(|w: Window| placed@.dom().contains(w)),
{
    let ghost p = |w: Window| placed@.dom().contains(w);
    let mut r: Vec<Window> = Vec::new();
    let mut i: usize = 0;
    while i < wins.len()
        invariant
            i <= wins.len(),
            p == (|w: Window| placed@.dom().contains(w)),
            r@ == wins@.subrange(0, i as int).filter(p),
        decreases wins.len() - i,
    {
        proof {
            crate::stack::lemma_filter_step(wins@, p, i as int);
        }
        if placed.contains_key(&wins[i]) {
            r.push(wins[i]);
        }
        i = i + 1;
    }
    assert(wins@.subrange(0, wins@.len() as int) =~= wins@);
    r
}

/// The stack without the windows that `floating` places.
fn without_floating<R>(stack: &Option<Stack<Window>>, floating: &BTreeMap<Window, R>) -> (r: Option<Stack<Window>>)
    ensures
        stack_model(r) == unfloated(stack_model(*stack), floating@.dom()),
{
    match stack {
        None => None,
        Some(s) => {
            let not_floating = |x: &Window| -> (b: bool)
                ensures
                    b == !floating@.dom().contains(*x),
                { !floating.contains_key(x) };
            let t = s.filter(not_floating);
            proof {
                assert forall|x: Window| s@.contains(x) implies crate::stack::keeps(not_floating, x)
                    == !floating@.dom().contains(x) by {
                    assert(not_floating.ensures((&x,), crate::stack::keeps(not_floating, x)));
                }
                crate::stack::lemma_filter_congruent(
                    s@,
                    |x: Window| crate::stack::keeps(not_floating, x),
                    |w: Window| !floating@.dom().contains(w),
                );
            }
            t
        },
    }
}

/// The part of the stack that a layout places: see `tiled_part`.
fn tiled_windows<R>(
    stack: &Option<Stack<Window>>,
    floating: &BTreeMap<Window, R>,
    before: &Vec<Window>,
) -> (r: Option<Stack<Window>>)
    ensures
        stack_model(r) == tiled_part(stack_model(*stack), floating@.dom(), before@),
{
    match without_floating(stack, floating) {
        None => None,
        Some(t) => {
            let not_before = |x: &Window| -> (b: bool)
                ensures
                    b == !before@.contains(*x),
                { !holds_window(before, *x) };
            let r = t.filter(not_before);
            proof {
                assert forall|x: Window| t@.contains(x) implies crate::stack::keeps(not_before, x)
                    == !before@.contains(x) by {
                    assert(not_before.ensures((&x,), crate::stack::keeps(not_before, x)));
                }
                crate::stack::lemma_filter_congruent(
                    t@,
                    |x: Window| crate::stack::keeps(not_before, x),
                    |w: Window| !before@.contains(w),
                );
            }
            r
        },
    }
}

/// What a stack filter keeps was in the stack and passes the test.
proof fn lemma_filter_kept<T>(z: Zipper<T>, p: spec_fn(T) -> bool, x: T)
    requires
        z.filter(p) matches Some(t) && t.contains(x),
    ensures
        z.contains(x),
        p(x),
{
    let fd = seq![z.focus] + z.down;
    let t = z.filter(p).unwrap();
    let lrs = fd.filter(p);
    let ups = z.up.filter(p);
    if lrs.len() > 0 {
        if t.focus == x {
            assert(lrs.contains(x)) by {
                assert(lrs[0] == x);
            }
            crate::stack::lemma_seq_filter_kept(fd, p, x);
        } else if t.up.contains(x) {
            crate::stack::lemma_seq_filter_kept(z.up, p, x);
        } else {
            assert(lrs.drop_first().contains(x));
            let k = choose|k: int| 0 <= k < lrs.drop_first().len() && lrs.drop_first()[k] == x;
            assert(lrs[k + 1] == x);
            crate::stack::lemma_seq_filter_kept(fd, p, x);
        }
        if fd.contains(x) {
            let k = choose|k: int| 0 <= k < fd.len() && fd[k] == x;
            if k > 0 {
                assert(z.down[k - 1] == x);
            }
        }
    } else {
        if t.focus == x {
            assert(ups[0] == x);
        } else if t.up.contains(x) {
            let k = choose|k: int| 0 <= k < t.up.len() && t.up[k] == x;
            assert(ups[k + 1] == x);
        }
        assert(ups.contains(x));
        crate::stack::lemma_seq_filter_kept(z.up, p, x);
    }
}

/// A screen before screen `j` shows its windows among those shown before `j`.
proof fn lemma_shown_before_holds(screens: Seq<ScreenModel>, i: int, j: int, w: Window)
    requires
        0 <= i < j <= screens.len(),
        screens[i].workspace.windows().contains(w),
    ensures
        shown_before(screens, j).contains(w),
    decreases j,
{
    let t0 = screens.take(j - 1).map_values(|x: ScreenModel| x.workspace.windows());
    let t1 = screens.take(j).map_values(|x: ScreenModel| x.workspace.windows());
    assert(t1 =~= t0.push(screens[j - 1].workspace.windows()));
    t0.lemma_flatten_push(screens[j - 1].workspace.windows());
    if i == j - 1 {
        let k = choose|k: int| 0 <= k < screens[i].workspace.windows().len() && screens[i].workspace.windows()[k] == w;
        assert(shown_before(screens, j)[t0.flatten().len() + k] == w);
    } else {
        lemma_shown_before_holds(screens, i, j - 1, w);
        let k = choose|k: int| 0 <= k < t0.flatten().len() && t0.flatten()[k] == w;
        assert(shown_before(screens, j)[k] == w);
    }
}

/// No window is placed by the layouts of two screens: a window that the
/// layout of one screen places is not given to the layout of a later one.
pub proof fn lemma_arranged_disjoint<R>(placed: Map<Window, R>, m: WorkspacesModel<R>, i: int, j: int, w: Window)
    requires
        0 <= i < j < m.screens().len(),
        arranged(placed, m, i).tiled matches Some(a) && a.contains(w),
    ensures
        !(arranged(placed, m, j).tiled matches Some(b) && b.contains(w)),
{
    let si = m.screens()[i];
    let z = si.workspace.stack.unwrap();
    let f = m.floating.dom();
    let t = z.filter(|x: Window| !f.contains(x)).unwrap();
    lemma_filter_kept(t, |x: Window| !shown_before(m.screens(), i).contains(x), w);
    lemma_filter_kept(z, |x: Window| !f.contains(x), w);
    crate::stack::lemma_integrate_len_contains(z, w);
    lemma_shown_before_holds(m.screens(), i, j, w);
    let sj = m.screens()[j];
    if arranged(placed, m, j).tiled matches Some(b) && b.contains(w) {
        let zj = sj.workspace.stack.unwrap();
        let tj = zj.filter(|x: Window| !f.contains(x)).unwrap();
        lemma_filter_kept(tj, |x: Window| !shown_before(m.screens(), j).contains(x), w);
    }
}

/// A window that a screen's layout places is in that screen's workspace,
/// does not float, and is not shown by an earlier screen.
pub proof fn lemma_arranged_tiled<R>(placed: Map<Window, R>, m: WorkspacesModel<R>, i: int, w: Window)
    requires
        0 <= i < m.screens().len(),
        arranged(placed, m, i).tiled matches Some(a) && a.contains(w),
    ensures
        m.screens()[i].workspace.contains(w),
        !m.floating.dom().contains(w),
        !shown_before(m.screens(), i).contains(w),
{
    let z = m.screens()[i].workspace.stack.unwrap();
    let f = m.floating.dom();
    let t = z.filter(|x: Window| !f.contains(x)).unwrap();
    lemma_filter_kept(t, |x: Window| !shown_before(m.screens(), i).contains(x), w);
    lemma_filter_kept(z, |x: Window| !f.contains(x), w);
}

/// One element more of a sequence adds it to the set of the elements.
proof fn lemma_prefix_set_step(s: Seq<Window>, i: int)
    requires
        0 <= i < s.len(),
    ensures
        s.subrange(0, i + 1).to_set() == s.subrange(0, i).to_set().insert(s[i]),
{
    let s0 = s.subrange(0, i);
    let s1 = s.subrange(0, i + 1);
    assert forall|x: Window| #[trigger] s1.contains(x) == (s0.contains(x) || x == s[i]) by {
        if s1.contains(x) {
            let k = choose|k: int| 0 <= k < s1.len() && s1[k] == x;
            if k < i {
                assert(s0[k] == x);
            }
        }
        if s0.contains(x) {
            let k = choose|k: int| 0 <= k < s0.len() && s0[k] == x;
            assert(s1[k] == x);
        }
        assert(s1[i] == s[i]);
    }
    assert(s1.to_set() =~= s0.to_set().insert(s[i]));
}

/// The set of the windows of the list.
fn window_set(v: &Vec<Window>) -> (r: BTreeSet<Window>)
    ensures
        r@ == v@.to_set(),
{
    let mut r: BTreeSet<Window> = BTreeSet::new();
    let mut i: usize = 0;
    while i < v.len()
        invariant
            i <= v.len(),
            r@ == v@.subrange(0, i as int).to_set(),
        decreases v.len() - i,
    {
        r.insert(v[i]);
        proof {
            lemma_prefix_set_step(v@, i as int);
        }
        i = i + 1;
    }
    assert(v@.subrange(0, v@.len() as int) =~= v@);
    r
}

impl<R: Clone> WindowManager<R> {
    /// The stack without the windows that float: what a layout is given to
    /// place when the screens are not shown anew.
    pub fn layout_stack(&self, stack: &Option<Stack<Window>>) -> (r: Option<Stack<Window>>)
        ensures
            stack_model(r) == unfloated(stack_model(*stack), self.workspaces.model().floating.dom()),
    {
        without_floating(stack, &self.workspaces.floating)
    }

    /// The windows that the new workspaces show and the current ones do
    /// not.
    pub fn new_windows(&self, ws: &Workspaces<R>) -> (r: BTreeSet<Window>)
        ensures
            r@ == ws.model().visible_windows().to_set().difference(self.workspaces.model().visible_windows().to_set()),
    {
        let old_visible = window_set(&self.workspaces.visible_windows());
        let new_visible = ws.visible_windows();
        let mut r: BTreeSet<Window> = BTreeSet::new();
        let mut i: usize = 0;
        while i < new_visible.len()
            invariant
                i <= new_visible.len(),
                old_visible@ == self.workspaces.model().visible_windows().to_set(),
                new_visible@ == ws.model().visible_windows(),
                r@ == new_visible@.subrange(0, i as int).to_set().difference(old_visible@),
            decreases new_visible.len() - i,
        {
            let w = new_visible[i];
            if !old_visible.contains(&w) {
                r.insert(w);
            }
            proof {
                lemma_prefix_set_step(new_visible@, i as int);
                assert(r@ =~= new_visible@.subrange(0, i + 1).to_set().difference(old_visible@));
            }
            i = i + 1;
        }
        assert(new_visible@.subrange(0, new_visible@.len() as int) =~= new_visible@);
        r
    }

    /// What each screen of the new workspaces shows, the current screen
    /// first: the layout places the windows that do not float in the new
    /// workspaces and that no earlier screen shows; the floating windows
    /// are those that float in the current workspaces.
    pub fn arrange(&self, ws: &Workspaces<R>) -> (r: Vec<ScreenArrangement>)
        ensures
            r@.len() == ws.model().screens().len(),
            forall|i: int| 0 <= i < r@.len() ==> #[trigger] r@[i]@ == arranged(
                self.workspaces.model().floating,
                ws.model(),
                i,
            ),
    {
        let scr = ws.screens();
        let ghost screens = ws.model().screens();
        let ghost parts = screens.map_values(|x: ScreenModel| x.workspace.windows());
        let mut before: Vec<Window> = Vec::new();
        let mut r: Vec<ScreenArrangement> = Vec::new();
        let mut i: usize = 0;
        assert(parts.take(0) =~= Seq::<Seq<Window>>::empty());
        assert(screens.take(0).map_values(|x: ScreenModel| x.workspace.windows()) =~= parts.take(0));
        while i < scr.len()
            invariant
                i <= scr.len(),
                screens_model(scr@) == screens,
                screens == ws.model().screens(),
                parts == screens.map_values(|x: ScreenModel| x.workspace.windows()),
                before@ == shown_before(screens, i as int),
                r@.len() == i,
                forall|k: int| 0 <= k < i ==> #[trigger] r@[k]@ == arranged(
                    self.workspaces.model().floating,
                    ws.model(),
                    k,
                ),
            decreases scr.len() - i,
        {
            assert(scr@[i as int]@ == screens[i as int]);
            let tiled = tiled_windows(&scr[i].workspace.stack, &ws.floating, &before);
            let wins = scr[i].windows();
            let floating = placed_windows(&wins, &self.workspaces.floating);
            r.push(
                ScreenArrangement {
                    screen_detail: scr[i].screen_detail,
                    workspace_id: scr[i].workspace.id,
                    tiled: tiled,
                    floating: floating,
                },
            );
            append_all(&mut before, &wins);
            proof {
                let t0 = screens.take(i as int).map_values(|x: ScreenModel| x.workspace.windows());
                let t1 = screens.take(i + 1).map_values(|x: ScreenModel| x.workspace.windows());
                assert(t1 =~= t0.push(parts[i as int]));
                t0.lemma_flatten_push(parts[i as int]);
            }
            i = i + 1;
        }
        r
    }

    /// The windows to hide once the screens show `shown`: those shown
    /// before and those new on screen, less the ones shown now.
    pub fn windows_to_hide(&self, new_windows: &BTreeSet<Window>, shown: &Vec<Window>) -> (r: BTreeSet<Window>)
        ensures
            r@ == self.workspaces.model().visible_windows().to_set().union(new_windows@).difference(shown@.to_set()),
    {
        let old_visible = self.workspaces.visible_windows();
        let mut r = new_windows.clone();
        let mut i: usize = 0;
        while i < old_visible.len()
            invariant
                i <= old_visible.len(),
                r@ == new_windows@.union(old_visible@.subrange(0, i as int).to_set()),
            decreases old_visible.len() - i,
        {
            r.insert(old_visible[i]);
            proof {
                lemma_prefix_set_step(old_visible@, i as int);
                assert(r@ =~= new_windows@.union(old_visible@.subrange(0, i + 1).to_set()));
            }
            i = i + 1;
        }
        assert(old_visible@.subrange(0, old_visible@.len() as int) =~= old_visible@);
        let ghost both = r@;
        let mut j: usize = 0;
        while j < shown.len()
            invariant
                j <= shown.len(),
                r@ == both.difference(shown@.subrange(0, j as int).to_set()),
            decreases shown.len() - j,
        {
            r.remove(&shown[j]);
            proof {
                lemma_prefix_set_step(shown@, j as int);
                assert(r@ =~= both.difference(shown@.subrange(0, j + 1).to_set()));
            }
            j = j + 1;
        }
        assert(shown@.subrange(0, shown@.len() as int) =~= shown@);
        assert(r@ =~= self.workspaces.model().visible_windows().to_set().union(new_windows@).difference(
            shown@.to_set(),
        ));
        r
    }

    /// The new workspaces take effect, and one more unmap notification is
    /// expected of each hidden window.
    pub fn commit_windows(&mut self, ws: Workspaces<R>, hidden: &Vec<Window>)
        requires
            hidden@.no_duplicates(),
            forall|k: int|
                0 <= k < hidden@.len() && old(self).waiting_unmap@.dom().contains(#[trigger] hidden@[k])
                    ==> old(self).waiting_unmap@[hidden@[k]] < u64::MAX,
        ensures
            final(self).workspaces == ws,
            final(self).running == old(self).running,
            final(self).waiting_unmap@ == unmaps_inserted(old(self).waiting_unmap@, hidden@),
    {
        self.workspaces = ws;
        let ghost m = old(self).waiting_unmap@;
        let mut i: usize = 0;
        while i < hidden.len()
            invariant
                i <= hidden.len(),
                hidden@.no_duplicates(),
                self.workspaces == ws,
                self.running == old(self).running,
                self.waiting_unmap@ == unmaps_inserted(m, hidden@.subrange(0, i as int)),
                forall|k: int|
                    0 <= k < hidden@.len() && m.dom().contains(#[trigger] hidden@[k]) ==> m[hidden@[k]] < u64::MAX,
                forall|k: int|
                    i <= k < hidden@.len() ==> (self.waiting_unmap@.dom().contains(#[trigger] hidden@[k])
                        == m.dom().contains(hidden@[k])) && (m.dom().contains(hidden@[k])
                        ==> self.waiting_unmap@[hidden@[k]] == m[hidden@[k]]),
            decreases hidden.len() - i,
        {
            let w = hidden[i];
            let ghost cur = self.waiting_unmap@;
            self.insert_or_update_unmap(w);
            proof {
                assert(hidden@.subrange(0, i + 1).drop_last() =~= hidden@.subrange(0, i as int));
                assert forall|k: int| i + 1 <= k < hidden@.len() implies (self.waiting_unmap@.dom().contains(
                    #[trigger] hidden@[k],
                ) == m.dom().contains(hidden@[k])) && (m.dom().contains(hidden@[k])
                    ==> self.waiting_unmap@[hidden@[k]] == m[hidden@[k]]) by {
                    assert(hidden@[k] != w);
                }
            }
            i = i + 1;
        }
        assert(hidden@.subrange(0, hidden@.len() as int) =~= hidden@);
    }
}

/// Appends a copy of `b` to `a`.
fn append_all(a: &mut Vec<Window>, b: &Vec<Window>)
    ensures
        final(a)@ == old(a)@ + b@,
{
    let mut i: usize = 0;
    while i < b.len()
        invariant
            i <= b.len(),
            a@ == old(a)@ + b@.subrange(0, i as int),
        decreases b.len() - i,
    {
        a.push(b[i]);
        i = i + 1;
        assert(old(a)@ + b@.subrange(0, i as int) =~= (old(a)@ + b@.subrange(0, i - 1)).push(b@[i - 1]));
    }
    assert(b@.subrange(0, b@.len() as int) =~= b@);
}

} // verus!
