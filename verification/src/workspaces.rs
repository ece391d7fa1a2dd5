use vstd::prelude::*;
use std::collections::{BTreeMap, BTreeSet};
use crate::stack::{Stack, Zipper};
use crate::window_system::Window;
use crate::workspace::{Workspace, WorkspaceModel, stack_model};
use crate::screen::{Screen, ScreenModel, ScreenDetail};

verus! {

broadcast use {
    vstd::laws_eq::group_laws_eq,
    vstd::laws_cmp::group_laws_cmp,
    vstd::std_specs::btree::group_btree_axioms,
};

/// The ids of the workspaces on the screens, in order.
pub open spec fn screen_ids(s: Seq<ScreenModel>) -> Seq<u32> {
    s.map_values(|x: ScreenModel| x.workspace.id)
}

/// The ids of the workspaces, in order.
pub open spec fn workspace_ids(s: Seq<WorkspaceModel>) -> Seq<u32> {
    s.map_values(|x: WorkspaceModel| x.id)
}

/// The workspaces shown on the screens, in order.
pub open spec fn screen_workspaces(s: Seq<ScreenModel>) -> Seq<WorkspaceModel> {
    s.map_values(|x: ScreenModel| x.workspace)
}

/// The models of the screens.
pub open spec fn screens_model(v: Seq<Screen>) -> Seq<ScreenModel> {
    v.map_values(|x: Screen| x@)
}

/// The models of the workspaces.
pub open spec fn workspaces_model(v: Seq<Workspace>) -> Seq<WorkspaceModel> {
    v.map_values(|x: Workspace| x@)
}

/// The model of a set of workspaces: the focused screen, the other
/// visible screens, the hidden workspaces and the floating windows with
/// their placement.
pub struct WorkspacesModel<R> {
    pub current: ScreenModel,
    pub visible: Seq<ScreenModel>,
    pub hidden: Seq<WorkspaceModel>,
    pub floating: Map<Window, R>,
}

impl<R> WorkspacesModel<R> {
    /// All workspaces: the current one, those on the other screens, then
    /// the hidden ones.
    pub open spec fn workspaces(self) -> Seq<WorkspaceModel> {
        seq![self.current.workspace] + screen_workspaces(self.visible) + self.hidden
    }

    /// All screens, the current one first.
    pub open spec fn screens(self) -> Seq<ScreenModel> {
        seq![self.current] + self.visible
    }

    /// The screen ids of all screens, the current one first.
    pub open spec fn screen_numbers(self) -> Seq<u32> {
        self.screens().map_values(|x: ScreenModel| x.screen_id)
    }

    /// Workspace ids are unique, and so are screen ids.
    pub open spec fn wf(self) -> bool {
        &&& workspace_ids(self.workspaces()).no_duplicates()
        &&& self.screen_numbers().no_duplicates()
    }

    /// The id of the current workspace.
    pub open spec fn current_tag(self) -> u32 {
        self.current.workspace.id
    }

    /// The focused window of the current workspace, if any.
    pub open spec fn peek(self) -> Option<Window> {
        self.current.workspace.peek()
    }

    /// The same with another current screen.
    pub open spec fn with_current(self, c: ScreenModel) -> Self {
        WorkspacesModel { current: c, visible: self.visible, hidden: self.hidden, floating: self.floating }
    }

    /// The same with other visible screens.
    pub open spec fn with_visible(self, v: Seq<ScreenModel>) -> Self {
        WorkspacesModel { current: self.current, visible: v, hidden: self.hidden, floating: self.floating }
    }

    /// The same with other hidden workspaces.
    pub open spec fn with_hidden(self, h: Seq<WorkspaceModel>) -> Self {
        WorkspacesModel { current: self.current, visible: self.visible, hidden: h, floating: self.floating }
    }

    /// The same with other floating windows.
    pub open spec fn with_floating(self, f: Map<Window, R>) -> Self {
        WorkspacesModel { current: self.current, visible: self.visible, hidden: self.hidden, floating: f }
    }

    /// The same, with the given stack on the current workspace.
    pub open spec fn with_current_stack(self, s: Option<Zipper<Window>>) -> Self {
        self.with_current(self.current.with_workspace(self.current.workspace.with_stack(s)))
    }

    /// The workspace with the given id becomes current. When it is on
    /// another screen, that screen becomes the current one and the old
    /// current screen goes to the end of the visible screens. When it is
    /// hidden, it takes the place of the current workspace on the current
    /// screen and that workspace goes to the end of the hidden ones.
    /// When there is no such workspace, nothing changes.
    pub open spec fn viewed(self, i: u32) -> Self {
        if self.current.workspace.id == i {
            self
        } else {
            match screen_ids(self.visible).index_of_first(i) {
                Some(k) => self.with_visible(self.visible.remove(k).push(self.current)).with_current(
                    self.visible[k],
                ),
                None => match workspace_ids(self.hidden).index_of_first(i) {
                    Some(k) => self.with_hidden(self.hidden.remove(k).push(self.current.workspace)).with_current(
                        self.current.with_workspace(self.hidden[k]),
                    ),
                    None => self,
                },
            }
        }
    }

    /// The current stack with `f` applied, if there is one.
    pub open spec fn map_current_stack(self, f: spec_fn(Zipper<Window>) -> Zipper<Window>) -> Self {
        self.with_current_stack(
            match self.current.workspace.stack {
                Some(z) => Some(f(z)),
                None => None,
            },
        )
    }

    /// The focus moves up the current stack.
    pub open spec fn focused_up(self) -> Self {
        self.map_current_stack(|z: Zipper<Window>| z.focus_up())
    }

    /// The focus moves down the current stack.
    pub open spec fn focused_down(self) -> Self {
        self.map_current_stack(|z: Zipper<Window>| z.focus_down())
    }

    /// The focused window moves up the current stack.
    pub open spec fn swapped_up(self) -> Self {
        self.map_current_stack(|z: Zipper<Window>| z.swap_up())
    }

    /// The focused window moves down the current stack.
    pub open spec fn swapped_down(self) -> Self {
        self.map_current_stack(|z: Zipper<Window>| z.swap_down())
    }

    /// The focused window trades places with the top one of the current stack.
    pub open spec fn swapped_master(self) -> Self {
        self.map_current_stack(|z: Zipper<Window>| z.swap_master())
    }

    /// The focused window moves to the top; the others keep their order.
    pub open spec fn shifted_master(self) -> Self {
        self.map_current_stack(|z: Zipper<Window>| shift_master_stack(z))
    }

    /// The window floats, placed at `r`.
    pub open spec fn floated(self, w: Window, r: R) -> Self {
        self.with_floating(self.floating.insert(w, r))
    }

    /// The window floats no more.
    pub open spec fn sunk(self, w: Window) -> Self {
        self.with_floating(self.floating.remove(w))
    }

    /// The window is removed from every stack; the floating windows stay.
    pub open spec fn deleted_p(self, w: Window) -> Self {
        WorkspacesModel {
            current: self.current.with_workspace(remove_from_workspace(self.current.workspace, w)),
            visible: self.visible.map_values(
                |x: ScreenModel| x.with_workspace(remove_from_workspace(x.workspace, w)),
            ),
            hidden: self.hidden.map_values(|x: WorkspaceModel| remove_from_workspace(x, w)),
            floating: self.floating,
        }
    }

    /// The window is removed from every stack and from the floating windows.
    pub open spec fn deleted(self, w: Window) -> Self {
        self.deleted_p(w).sunk(w)
    }

    /// Some workspace holds the window, or it floats.
    pub open spec fn contains(self, w: Window) -> bool {
        ||| self.current.workspace.contains(w)
        ||| exists|k: int| 0 <= k < self.visible.len() && #[trigger] self.visible[k].workspace.contains(w)
        ||| exists|k: int| 0 <= k < self.hidden.len() && #[trigger] self.hidden[k].contains(w)
        ||| self.floating.dom().contains(w)
    }

    /// A window that is not yet managed goes on top of the focus of the
    /// current workspace and is focused.
    pub open spec fn inserted_up(self, w: Window) -> Self {
        if self.contains(w) {
            self
        } else {
            self.with_current_stack(Some(insert_up_stack(self.current.workspace.stack, w)))
        }
    }

    /// The id of the first workspace, in the order of `workspaces`, that
    /// holds the window in its stack.
    pub open spec fn find_tag(self, w: Window) -> Option<u32> {
        match self.workspaces().map_values(|x: WorkspaceModel| x.contains(w)).index_of_first(true) {
            Some(k) => Some(self.workspaces()[k].id),
            None => None,
        }
    }

    /// The current screen if it shows the window, else the first other
    /// visible screen that does.
    pub open spec fn find_screen(self, w: Window) -> Option<ScreenModel> {
        if self.current.workspace.contains(w) {
            Some(self.current)
        } else {
            match self.visible.map_values(|x: ScreenModel| x.workspace.contains(w)).index_of_first(true) {
                Some(k) => Some(self.visible[k]),
                None => None,
            }
        }
    }

    /// The windows of the screens, the current one first, each in display
    /// order.
    pub open spec fn visible_windows(self) -> Seq<Window> {
        self.screens().map_values(|x: ScreenModel| x.workspace.windows()).flatten()
    }

    /// The windows of all workspaces: those on screens, then the hidden
    /// ones.
    pub open spec fn all_windows(self) -> Seq<Window> {
        self.visible_windows() + self.hidden.map_values(|x: WorkspaceModel| x.windows()).flatten()
    }

    /// Each workspace's windows in reverse display order, paired with the
    /// workspace's id, in the order of `workspaces`.
    pub open spec fn all_windows_with_workspaces(self) -> Seq<(Window, u32)> {
        self.workspaces().map_values(|x: WorkspaceModel| tagged_windows(x)).flatten()
    }

    /// The number of windows in all workspaces, floating windows included,
    /// each counted once.
    pub open spec fn len(self) -> nat {
        self.all_windows().to_set().union(self.floating.dom()).len()
    }

    /// Moves the focus up the current stack until the window is focused.
    pub open spec fn focused_to(self, w: Window) -> Self {
        self.with_current_stack(
            match self.current.workspace.stack {
                Some(z) => Some(crate::stack::focus_up_until(z, w, z.len())),
                None => None,
            },
        )
    }

    /// The workspace of the window becomes current and the window is
    /// focused on it.
    pub open spec fn focus_window(self, w: Window) -> Self {
        if self.peek() == Some(w) {
            self
        } else {
            match self.find_tag(w) {
                Some(t) => self.viewed(t).focused_to(w),
                None => self,
            }
        }
    }

    /// The window leaves its workspace and goes on top of the focus of
    /// workspace `index`; the current workspace stays current.
    pub open spec fn shifted_window(self, index: u32, w: Window) -> Self {
        match self.find_tag(w) {
            Some(from) => {
                let a = self.viewed(from).deleted(w).viewed(self.current_tag());
                a.viewed(index).inserted_up(w).viewed(a.current_tag())
            },
            None => self,
        }
    }

    /// The focused window moves to workspace `index`.
    pub open spec fn shifted(self, index: u32) -> Self {
        match self.peek() {
            Some(w) => self.shifted_window(index, w),
            None => self,
        }
    }

    /// Like `viewed`, except that a workspace on another screen trades
    /// places with the current workspace, so that no screen changes.
    pub open spec fn greedy_viewed(self, i: u32) -> Self {
        if workspace_ids(self.hidden).contains(i) {
            self.viewed(i)
        } else {
            match screen_ids(self.visible).index_of_first(i) {
                Some(k) => {
                    let s = self.visible[k];
                    self.with_current(self.current.with_workspace(s.workspace)).with_visible(
                        self.visible.filter(|x: ScreenModel| x.screen_id != s.screen_id).push(
                            s.with_workspace(self.current.workspace),
                        ),
                    )
                },
                None => self,
            }
        }
    }
}

/// The focus moved to the top of the stack, the other windows keeping
/// their order.
pub open spec fn shift_master_stack(z: Zipper<Window>) -> Zipper<Window> {
    if z.up.len() == 0 {
        z
    } else {
        Zipper { focus: z.focus, up: Seq::empty(), down: z.up.reverse() + z.down }
    }
}

/// Shifting to the master position puts the focused window first and keeps
/// the order of the others; the focus stays.
pub proof fn lemma_shift_master_stack(z: Zipper<Window>)
    ensures
        shift_master_stack(z).integrate() == seq![z.focus] + z.integrate().remove(z.up.len() as int),
        shift_master_stack(z).focus == z.focus,
        shift_master_stack(z).up.len() == 0,
{
    let r = z.up.reverse();
    assert(z.integrate().remove(z.up.len() as int) =~= r + z.down);
    if z.up.len() == 0 {
        assert(r =~= Seq::<Window>::empty());
    }
    assert(shift_master_stack(z).integrate() =~= seq![z.focus] + (r + z.down));
}

/// Inserting a window puts it, focused, in the place of the old focus, which
/// moves one place down; every other window keeps its place.
pub proof fn lemma_insert_up_stack_integrate(s: Option<Zipper<Window>>, w: Window)
    ensures
        insert_up_stack(s, w).focus == w,
        s matches Some(z) ==> insert_up_stack(s, w).integrate() == z.integrate().insert(z.up.len() as int, w)
            && insert_up_stack(s, w).up == z.up,
        s is None ==> insert_up_stack(s, w).integrate() == seq![w],
{
    match s {
        Some(z) => {
            assert(insert_up_stack(s, w).integrate() =~= z.integrate().insert(z.up.len() as int, w));
        },
        None => {
            assert(insert_up_stack(s, w).integrate() =~= seq![w]);
        },
    }
}

/// The predicate that holds of every window but `w`.
pub open spec fn other_than(w: Window) -> spec_fn(Window) -> bool {
    |x: Window| x != w
}

/// The stack without the window.
pub open spec fn remove_window(s: Option<Zipper<Window>>, w: Window) -> Option<Zipper<Window>> {
    match s {
        Some(z) => z.filter(other_than(w)),
        None => None,
    }
}

/// The workspace without the window.
pub open spec fn remove_from_workspace(ws: WorkspaceModel, w: Window) -> WorkspaceModel {
    ws.with_stack(remove_window(ws.stack, w))
}

/// The window on top of the focus and focused; the only window when there
/// is no stack.
pub open spec fn insert_up_stack(s: Option<Zipper<Window>>, w: Window) -> Zipper<Window> {
    match s {
        Some(z) => Zipper { focus: w, up: z.up, down: seq![z.focus] + z.down },
        None => Zipper { focus: w, up: Seq::empty(), down: Seq::empty() },
    }
}

/// The workspace's windows in reverse display order, each paired with the
/// workspace's id.
pub open spec fn tagged_windows(x: WorkspaceModel) -> Seq<(Window, u32)> {
    x.windows().reverse().map_values(|w: Window| (w, x.id))
}

/// The workspaces of the window manager: the focused screen, the other
/// visible screens, the hidden workspaces and the floating windows with
/// their placement `R`.
pub struct Workspaces<R> {
    /// The currently focused and visible screen
    pub current: Screen,
    /// The other visible, but non-focused screens
    pub visible: Vec<Screen>,
    /// All remaining workspaces that are currently hidden
    pub hidden: Vec<Workspace>,
    /// A list of all floating windows
    pub floating: BTreeMap<Window, R>,
}

impl<R> Workspaces<R> {
    /// The model of the workspaces (the method `view` switches workspaces).
    pub open spec fn model(&self) -> WorkspacesModel<R> {
        WorkspacesModel {
            current: self.current@,
            visible: screens_model(self.visible@),
            hidden: workspaces_model(self.hidden@),
            floating: self.floating@,
        }
    }
}

/// A copy of the screens.
pub fn clone_screens(v: &Vec<Screen>) -> (r: Vec<Screen>)
    ensures
        screens_model(r@) == screens_model(v@),
{
    let mut r: Vec<Screen> = Vec::new();
    let mut i: usize = 0;
    while i < v.len()
        invariant
            i <= v.len(),
            screens_model(r@) == screens_model(v@.subrange(0, i as int)),
        decreases v.len() - i,
    {
        r.push(v[i].clone());
        i = i + 1;
        assert(screens_model(v@.subrange(0, i as int)) =~= screens_model(v@.subrange(0, i - 1)).push(v@[i - 1]@));
    }
    assert(v@.subrange(0, v@.len() as int) =~= v@);
    r
}

/// A copy of the workspaces.
pub fn clone_workspaces(v: &Vec<Workspace>) -> (r: Vec<Workspace>)
    ensures
        workspaces_model(r@) == workspaces_model(v@),
{
    let mut r: Vec<Workspace> = Vec::new();
    let mut i: usize = 0;
    while i < v.len()
        invariant
            i <= v.len(),
            workspaces_model(r@) == workspaces_model(v@.subrange(0, i as int)),
        decreases v.len() - i,
    {
        r.push(v[i].clone());
        i = i + 1;
        assert(workspaces_model(v@.subrange(0, i as int)) =~= workspaces_model(v@.subrange(0, i - 1)).push(v@[i - 1]@));
    }
    assert(v@.subrange(0, v@.len() as int) =~= v@);
    r
}

/// The screens without the one at position `k`.
fn screens_without(v: &Vec<Screen>, k: usize) -> (r: Vec<Screen>)
    requires
        k < v.len(),
    ensures
        screens_model(r@) == screens_model(v@).remove(k as int),
{
    let mut r: Vec<Screen> = Vec::new();
    let mut i: usize = 0;
    while i < v.len()
        invariant
            i <= v.len(),
            k < v.len(),
            screens_model(r@) == if i <= k {
                screens_model(v@).subrange(0, i as int)
            } else {
                screens_model(v@).remove(k as int).subrange(0, i - 1)
            },
        decreases v.len() - i,
    {
        if i != k {
            r.push(v[i].clone());
        }
        i = i + 1;
        proof {
            let m = screens_model(v@);
            if i <= k {
                assert(m.subrange(0, i as int) =~= m.subrange(0, i - 1).push(m[i - 1]));
            } else if i == k + 1 {
                assert(m.remove(k as int).subrange(0, i - 1) =~= m.subrange(0, k as int));
            } else {
                assert(m.remove(k as int).subrange(0, i - 1) =~= m.remove(k as int).subrange(0, i - 2).push(
                    m[i - 1],
                ));
            }
        }
    }
    assert(screens_model(v@).remove(k as int).subrange(0, v@.len() - 1) =~= screens_model(v@).remove(k as int));
    r
}

/// The workspaces without the one at position `k`.
fn workspaces_without(v: &Vec<Workspace>, k: usize) -> (r: Vec<Workspace>)
    requires
        k < v.len(),
    ensures
        workspaces_model(r@) == workspaces_model(v@).remove(k as int),
{
    let mut r: Vec<Workspace> = Vec::new();
    let mut i: usize = 0;
    while i < v.len()
        invariant
            i <= v.len(),
            k < v.len(),
            workspaces_model(r@) == if i <= k {
                workspaces_model(v@).subrange(0, i as int)
            } else {
                workspaces_model(v@).remove(k as int).subrange(0, i - 1)
            },
        decreases v.len() - i,
    {
        if i != k {
            r.push(v[i].clone());
        }
        i = i + 1;
        proof {
            let m = workspaces_model(v@);
            if i <= k {
                assert(m.subrange(0, i as int) =~= m.subrange(0, i - 1).push(m[i - 1]));
            } else if i == k + 1 {
                assert(m.remove(k as int).subrange(0, i - 1) =~= m.subrange(0, k as int));
            } else {
                assert(m.remove(k as int).subrange(0, i - 1) =~= m.remove(k as int).subrange(0, i - 2).push(
                    m[i - 1],
                ));
            }
        }
    }
    assert(workspaces_model(v@).remove(k as int).subrange(0, v@.len() - 1) =~= workspaces_model(v@).remove(
        k as int,
    ));
    r
}

/// The first position `k` with `s[k] == x` is what `index_of_first` gives.
pub proof fn lemma_index_of_first_is<T>(s: Seq<T>, x: T, k: int)
    requires
        0 <= k < s.len(),
        s[k] == x,
        forall|j: int| 0 <= j < k ==> s[j] != x,
    ensures
        s.index_of_first(x) == Some(k),
{
    s.index_of_first_ensures(x);
    assert(s.contains(x));
    let j = s.index_of_first(x).unwrap();
    if j < k {
        assert(s[j] != x);
    }
    if j > k {
    }
}

/// A value that does not occur has no first position.
pub proof fn lemma_index_of_first_none<T>(s: Seq<T>, x: T)
    requires
        forall|j: int| 0 <= j < s.len() ==> s[j] != x,
    ensures
        s.index_of_first(x) is None,
{
    s.index_of_first_ensures(x);
}

/// The position of the first screen showing workspace `id`.
fn position_in_screens(v: &Vec<Screen>, id: u32) -> (r: Option<usize>)
    ensures
        match r {
            Some(k) => k < v@.len() && screen_ids(screens_model(v@)).index_of_first(id) == Some(k as int),
            None => screen_ids(screens_model(v@)).index_of_first(id) is None,
        },
{
    let ghost ids = screen_ids(screens_model(v@));
    let mut i: usize = 0;
    while i < v.len()
        invariant
            i <= v.len(),
            ids == screen_ids(screens_model(v@)),
            ids.len() == v@.len(),
            forall|j: int| 0 <= j < i ==> ids[j] != id,
        decreases v.len() - i,
    {
        if v[i].workspace.id == id {
            proof {
                lemma_index_of_first_is(ids, id, i as int);
            }
            return Some(i);
        }
        i = i + 1;
    }
    proof {
        lemma_index_of_first_none(ids, id);
    }
    None
}

/// The position of the first workspace with the given id.
fn position_in_workspaces(v: &Vec<Workspace>, id: u32) -> (r: Option<usize>)
    ensures
        match r {
            Some(k) => k < v@.len() && workspace_ids(workspaces_model(v@)).index_of_first(id) == Some(k as int),
            None => workspace_ids(workspaces_model(v@)).index_of_first(id) is None,
        },
{
    let ghost ids = workspace_ids(workspaces_model(v@));
    let mut i: usize = 0;
    while i < v.len()
        invariant
            i <= v.len(),
            ids == workspace_ids(workspaces_model(v@)),
            ids.len() == v@.len(),
            forall|j: int| 0 <= j < i ==> ids[j] != id,
        decreases v.len() - i,
    {
        if v[i].id == id {
            proof {
                lemma_index_of_first_is(ids, id, i as int);
            }
            return Some(i);
        }
        i = i + 1;
    }
    proof {
        lemma_index_of_first_none(ids, id);
    }
    None
}

impl<R: Clone> Clone for Workspaces<R> {
    fn clone(&self) -> (r: Self)
        ensures
            r.model() == self.model(),
    {
        Workspaces {
            current: self.current.clone(),
            visible: clone_screens(&self.visible),
            hidden: clone_workspaces(&self.hidden),
            floating: self.floating.clone(),
        }
    }
}

impl<R: Clone> Workspaces<R> {
    /// The same with another current screen.
    pub fn from_current(&self, current: Screen) -> (r: Workspaces<R>)
        ensures
            r.model() == self.model().with_current(current@),
            r.current == current,
    {
        Workspaces {
            current: current,
            visible: clone_screens(&self.visible),
            hidden: clone_workspaces(&self.hidden),
            floating: self.floating.clone(),
        }
    }

    /// The same with other visible screens.
    pub fn from_visible(&self, visible: Vec<Screen>) -> (r: Workspaces<R>)
        ensures
            r.model() == self.model().with_visible(screens_model(visible@)),
            r.visible == visible,
    {
        Workspaces {
            current: self.current.clone(),
            visible: visible,
            hidden: clone_workspaces(&self.hidden),
            floating: self.floating.clone(),
        }
    }

    /// The same with other hidden workspaces.
    pub fn from_hidden(&self, hidden: Vec<Workspace>) -> (r: Workspaces<R>)
        ensures
            r.model() == self.model().with_hidden(workspaces_model(hidden@)),
            r.hidden == hidden,
    {
        Workspaces {
            current: self.current.clone(),
            visible: clone_screens(&self.visible),
            hidden: hidden,
            floating: self.floating.clone(),
        }
    }

    /// Set focus to the workspace with index \'i\'.
    /// If the index is out of range, the workspaces stay as they are.
    ///
    /// Xinerama: If the workspace is not visible on any Xinerama screen, it
    /// becomes the current screen. If it is in the visible list, it becomes
    /// current.
    pub fn view(&self, index: u32) -> (r: Workspaces<R>)
        ensures
            r.model() == self.model().viewed(index),
    {
        // We are already on the desired workspace. Do nothing
        if self.current.workspace.id == index {
            return self.clone();
        }
        // Desired workspace is visible, switch to it by raising
        // it to current and pushing the current one to visible
        if let Some(screen_pos) = position_in_screens(&self.visible, index) {
            let screen = self.visible[screen_pos].clone();
            let mut visible = screens_without(&self.visible, screen_pos);
            visible.push(self.current.clone());
            proof {
                assert(screens_model(visible@) =~= self.model().visible.remove(screen_pos as int).push(self.model().current));
            }
            self.from_visible(visible).from_current(screen)
        // Desired workspace is hidden. Switch it with the current workspace
        } else if let Some(workspace_pos) = position_in_workspaces(&self.hidden, index) {
            let mut hidden = workspaces_without(&self.hidden, workspace_pos);
            hidden.push(self.current.workspace.clone());
            proof {
                assert(workspaces_model(hidden@) =~= self.model().hidden.remove(workspace_pos as int).push(
                    self.model().current.workspace,
                ));
            }
            let ws = self.hidden[workspace_pos].clone();
            let screen = Screen { workspace: ws, screen_id: self.current.screen_id, screen_detail: self.current.screen_detail };
            self.from_hidden(hidden).from_current(screen)
        } else {
            self.clone()
        }
    }

    /// Set focus to the given workspace.  If that workspace does not exist,
    /// the workspaces stay as they are.  If that workspace is
    /// 'hidden', then display that workspace on the current screen, and move the
    /// current workspace to 'hidden'.  If that workspace is 'visible' on another
    /// screen, the workspaces of the current screen and the other screen are
    /// swapped.
    pub fn greedy_view(&self, index: u32) -> (r: Workspaces<R>)
        ensures
            r.model() == self.model().greedy_viewed(index),
    {
        if let Some(_) = position_in_workspaces(&self.hidden, index) {
            proof {
                workspace_ids(self.model().hidden).index_of_first_ensures(index);
            }
            return self.view(index);
        }
        proof {
            workspace_ids(self.model().hidden).index_of_first_ensures(index);
        }
        if let Some(pos) = position_in_screens(&self.visible, index) {
            let ghost p = |x: ScreenModel| x.screen_id != self.visible@[pos as int].screen_id;
            let sid = self.visible[pos].screen_id;
            let mut current_screen = self.current.clone();
            let old_workspace = current_screen.workspace.clone();
            let mut with_requested = self.visible[pos].clone();
            let desired = with_requested.workspace.clone();
            current_screen.workspace = desired;
            with_requested.workspace = old_workspace;
            let mut visible: Vec<Screen> = Vec::new();
            let mut i: usize = 0;
            while i < self.visible.len()
                invariant
                    i <= self.visible.len(),
                    pos < self.visible.len(),
                    sid == self.visible@[pos as int].screen_id,
                    p == (|x: ScreenModel| x.screen_id != self.visible@[pos as int].screen_id),
                    screens_model(visible@) == self.model().visible.subrange(0, i as int).filter(p),
                decreases self.visible.len() - i,
            {
                proof {
                    crate::stack::lemma_filter_step(self.model().visible, p, i as int);
                }
                if self.visible[i].screen_id != sid {
                    visible.push(self.visible[i].clone());
                    proof {
                        assert(screens_model(visible@) =~= self.model().visible.subrange(0, i as int).filter(p).push(
                            self.model().visible[i as int],
                        ));
                    }
                }
                i = i + 1;
            }
            assert(self.model().visible.subrange(0, self.model().visible.len() as int) =~= self.model().visible);
            visible.push(with_requested);
            proof {
                assert(screens_model(visible@) =~= self.model().visible.filter(p).push(
                    self.model().visible[pos as int].with_workspace(self.model().current.workspace),
                ));
            }
            self.from_current(current_screen).from_visible(visible)
        } else {
            self.clone()
        }
    }
}


/// `b` is `a` with only the stack of the current workspace replaced.
pub open spec fn same_but_current_stack<R>(a: WorkspacesModel<R>, b: WorkspacesModel<R>) -> bool {
    a.with_current_stack(b.current.workspace.stack) == b
}

/// `b.hidden` is `a.hidden` with each stack replaced through `f`.
pub open spec fn hidden_mapped<R, F: Fn(Stack<Window>) -> Stack<Window>>(
    f: F,
    a: WorkspacesModel<R>,
    b: Workspaces<R>,
) -> bool {
    &&& b.hidden@.len() == a.hidden.len()
    &&& forall|k: int|
        0 <= k < a.hidden.len() ==> {
            &&& #[trigger] b.hidden@[k].id == a.hidden[k].id
            &&& b.hidden@[k].tag@ == a.hidden[k].tag
            &&& crate::workspace::maps_stack(f, a.hidden[k].stack, b.hidden@[k].stack)
        }
}

/// Each hidden workspace of `b` is that of `a` with the closure applied to its
/// stack; the closure may empty it.
pub open spec fn hidden_mapped_option<R, F: Fn(Stack<Window>) -> Option<Stack<Window>>>(
    f: F,
    a: WorkspacesModel<R>,
    b: Workspaces<R>,
) -> bool {
    &&& b.hidden@.len() == a.hidden.len()
    &&& forall|k: int|
        0 <= k < a.hidden.len() ==> {
            &&& #[trigger] b.hidden@[k].id == a.hidden[k].id
            &&& b.hidden@[k].tag@ == a.hidden[k].tag
            &&& crate::workspace::maps_stack_option(f, a.hidden[k].stack, b.hidden@[k].stack)
        }
}

/// `b.visible` is `a.visible` with each stack replaced through `f`.
pub open spec fn visible_mapped<R, F: Fn(Stack<Window>) -> Stack<Window>>(
    f: F,
    a: WorkspacesModel<R>,
    b: Workspaces<R>,
) -> bool {
    &&& b.visible@.len() == a.visible.len()
    &&& forall|k: int|
        0 <= k < a.visible.len() ==> {
            &&& #[trigger] b.visible@[k].screen_id == a.visible[k].screen_id
            &&& b.visible@[k].screen_detail == a.visible[k].screen_detail
            &&& b.visible@[k].workspace.id == a.visible[k].workspace.id
            &&& b.visible@[k].workspace.tag@ == a.visible[k].workspace.tag
            &&& crate::workspace::maps_stack(f, a.visible[k].workspace.stack, b.visible@[k].workspace.stack)
        }
}

/// Each visible screen of `b` is that of `a` with the closure applied to its
/// workspace's stack; the closure may empty it.
pub open spec fn visible_mapped_option<R, F: Fn(Stack<Window>) -> Option<Stack<Window>>>(
    f: F,
    a: WorkspacesModel<R>,
    b: Workspaces<R>,
) -> bool {
    &&& b.visible@.len() == a.visible.len()
    &&& forall|k: int|
        0 <= k < a.visible.len() ==> {
            &&& #[trigger] b.visible@[k].screen_id == a.visible[k].screen_id
            &&& b.visible@[k].screen_detail == a.visible[k].screen_detail
            &&& b.visible@[k].workspace.id == a.visible[k].workspace.id
            &&& b.visible@[k].workspace.tag@ == a.visible[k].workspace.tag
            &&& crate::workspace::maps_stack_option(
                f,
                a.visible[k].workspace.stack,
                b.visible@[k].workspace.stack,
            )
        }
}

/// The stack without the window; nothing when the window was its only one.
fn remove_from_stack(stack: Stack<Window>, window: Window) -> (r: Option<Stack<Window>>)
    ensures
        stack_model(r) == remove_window(Some(stack@), window),
{
    let keep = move |x: &Window| -> (b: bool)
        ensures
            b == (*x != window),
        { *x != window };
    let r = stack.filter(keep);
    proof {
        assert forall|x: Window| stack@.contains(x) implies crate::stack::keeps(keep, x) == (x != window) by {
            assert(keep.ensures((&x,), crate::stack::keeps(keep, x)));
        }
        crate::stack::lemma_filter_congruent(
            stack@,
            |x: Window| crate::stack::keeps(keep, x),
            other_than(window),
        );
    }
    r
}

impl<R: Clone> Workspaces<R> {
    /// The window floats, placed at `rect`.
    pub fn float(&self, window: Window, rect: R) -> (r: Workspaces<R>)
        ensures
            r.model() == self.model().floated(window, rect),
    {
        let mut w = self.clone();
        w.floating.insert(window, rect);
        w
    }

    /// The window floats no more.
    pub fn sink(&self, window: Window) -> (r: Workspaces<R>)
        ensures
            r.model() == self.model().sunk(window),
    {
        let mut w = self.clone();
        w.floating.remove(&window);
        w
    }

    /// The floating window is placed at `rect`.
    pub fn update_floating_rect(&self, window: Window, rect: R) -> (r: Workspaces<R>)
        ensures
            r.model() == self.model().floated(window, rect),
    {
        let mut map = self.floating.clone();
        map.insert(window, rect);
        Workspaces {
            current: self.current.clone(),
            visible: clone_screens(&self.visible),
            hidden: clone_workspaces(&self.hidden),
            floating: map,
        }
    }

    /// The focused window of the current workspace, if any.
    pub fn get_focus_window(&self) -> (r: Option<Window>)
        ensures
            r == self.model().peek(),
    {
        self.current.workspace.peek()
    }

    /// Retrieve the currently focused workspace's
    /// focus element. If there is none, return None.
    pub fn peek(&self) -> (r: Option<Window>)
        ensures
            r == self.model().peek(),
    {
        self.current.workspace.peek()
    }

    /// Apply the given function to the currently focused stack
    /// or return a default if the stack is empty
    pub fn with<T, F: Fn(&Stack<Window>) -> T>(&self, default: T, f: F) -> (r: T)
        requires
            forall|s: &Stack<Window>| #[trigger] f.requires((s,)),
        ensures
            self.current.workspace.stack is None ==> r == default,
            self.current.workspace.stack matches Some(z) ==> exists|s: Stack<Window>|
                s@ == z@ && #[trigger] f.ensures((&s,), r),
    {
        match &self.current.workspace.stack {
            Some(s) => {
                let c = s.clone();
                let r = f(&c);
                assert(f.ensures((&c,), r));
                r
            },
            None => default,
        }
    }

    /// Retrieve the currently focused workspace's id
    pub fn current_tag(&self) -> (r: u32)
        ensures
            r == self.model().current_tag(),
    {
        self.current.workspace.id
    }

    /// Get the number of managed workspaces.
    /// This is mostly used for out-of-bounds checking.
    pub fn number_workspaces(&self) -> (r: u32)
        requires
            1 + self.visible@.len() + self.hidden@.len() <= usize::MAX,
        ensures
            r == (1 + self.visible@.len() + self.hidden@.len()) as u32,
    {
        (1 + self.visible.len() + self.hidden.len()) as u32
    }

    /// Return a list of all screens and their workspaces.
    /// Mostly used by layout.
    pub fn screens(&self) -> (r: Vec<Screen>)
        ensures
            screens_model(r@) == self.model().screens(),
    {
        let mut r: Vec<Screen> = Vec::new();
        r.push(self.current.clone());
        let mut i: usize = 0;
        while i < self.visible.len()
            invariant
                i <= self.visible.len(),
                screens_model(r@) == seq![self.current@] + self.model().visible.subrange(0, i as int),
            decreases self.visible.len() - i,
        {
            r.push(self.visible[i].clone());
            i = i + 1;
            assert(seq![self.current@] + self.model().visible.subrange(0, i as int) =~= (seq![self.current@]
                + self.model().visible.subrange(0, i - 1)).push(self.visible@[i - 1]@));
        }
        assert(self.model().visible.subrange(0, self.visible@.len() as int) =~= self.model().visible);
        r
    }

    /// Flatten all workspaces into a list
    pub fn workspaces(&self) -> (r: Vec<Workspace>)
        ensures
            workspaces_model(r@) == self.model().workspaces(),
    {
        let mut r: Vec<Workspace> = Vec::new();
        r.push(self.current.workspace.clone());
        let mut i: usize = 0;
        while i < self.visible.len()
            invariant
                i <= self.visible.len(),
                workspaces_model(r@) == seq![self.current@.workspace] + screen_workspaces(
                    self.model().visible.subrange(0, i as int),
                ),
            decreases self.visible.len() - i,
        {
            r.push(self.visible[i].workspace.clone());
            i = i + 1;
            assert(seq![self.current@.workspace] + screen_workspaces(self.model().visible.subrange(0, i as int))
                =~= (seq![self.current@.workspace] + screen_workspaces(
                self.model().visible.subrange(0, i - 1),
            )).push(self.visible@[i - 1]@.workspace));
        }
        assert(self.model().visible.subrange(0, self.visible@.len() as int) =~= self.model().visible);
        let mut j: usize = 0;
        while j < self.hidden.len()
            invariant
                j <= self.hidden.len(),
                workspaces_model(r@) == seq![self.current@.workspace] + screen_workspaces(self.model().visible)
                    + self.model().hidden.subrange(0, j as int),
            decreases self.hidden.len() - j,
        {
            r.push(self.hidden[j].clone());
            j = j + 1;
            assert(seq![self.current@.workspace] + screen_workspaces(self.model().visible)
                + self.model().hidden.subrange(0, j as int) =~= (seq![self.current@.workspace]
                + screen_workspaces(self.model().visible) + self.model().hidden.subrange(0, j - 1)).push(
                self.hidden@[j - 1]@,
            ));
        }
        assert(self.model().hidden.subrange(0, self.hidden@.len() as int) =~= self.model().hidden);
        r
    }

    /// Checks if any of the workspaces contains the
    /// given window
    pub fn contains(&self, window: Window) -> (r: bool)
        ensures
            r == self.model().contains(window),
    {
        if self.current.contains(window) {
            return true;
        }
        let mut i: usize = 0;
        while i < self.visible.len()
            invariant
                i <= self.visible.len(),
                forall|k: int| 0 <= k < i ==> !(#[trigger] self.model().visible[k]).workspace.contains(window),
            decreases self.visible.len() - i,
        {
            if self.visible[i].contains(window) {
                assert(self.model().visible[i as int].workspace.contains(window));
                return true;
            }
            i = i + 1;
        }
        let mut j: usize = 0;
        while j < self.hidden.len()
            invariant
                j <= self.hidden.len(),
                forall|k: int| 0 <= k < j ==> !(#[trigger] self.model().hidden[k]).contains(window),
            decreases self.hidden.len() - j,
        {
            if self.hidden[j].contains(window) {
                assert(self.model().hidden[j as int].contains(window));
                return true;
            }
            j = j + 1;
        }
        self.floating.contains_key(&window)
    }

    /// The current stack, if there is one, with `f` applied.
    pub fn modify_stack<F: Fn(Stack<Window>) -> Stack<Window>>(&self, f: F) -> (r: Workspaces<R>)
        requires
            crate::workspace::stack_fn_total(f),
        ensures
            same_but_current_stack(self.model(), r.model()),
            crate::workspace::maps_stack(f, self.model().current.workspace.stack, r.current.workspace.stack),
    {
        let c = self.current.map(f);
        let r = self.from_current(c);
        assert(r.model().current =~= self.model().current.with_workspace(
            self.model().current.workspace.with_stack(r.model().current.workspace.stack),
        ));
        r
    }

    /// The current stack, if there is one, with `f` applied; `f` may empty it.
    pub fn modify_stack_option<F: Fn(Stack<Window>) -> Option<Stack<Window>>>(&self, f: F) -> (r:
        Workspaces<R>)
        requires
            crate::workspace::stack_option_fn_total(f),
        ensures
            same_but_current_stack(self.model(), r.model()),
            crate::workspace::maps_stack_option(
                f,
                self.model().current.workspace.stack,
                r.current.workspace.stack,
            ),
    {
        let c = self.current.map_option(f);
        let r = self.from_current(c);
        assert(r.model().current =~= self.model().current.with_workspace(
            self.model().current.workspace.with_stack(r.model().current.workspace.stack),
        ));
        r
    }

    /// Every hidden stack with `f` applied.
    pub fn modify_hidden<F: Fn(Stack<Window>) -> Stack<Window>>(&self, f: F) -> (r: Workspaces<R>)
        requires
            crate::workspace::stack_fn_total(f),
        ensures
            r.model().with_hidden(self.model().hidden) == self.model(),
            hidden_mapped(f, self.model(), r),
    {
        let mut hidden: Vec<Workspace> = Vec::new();
        let mut i: usize = 0;
        while i < self.hidden.len()
            invariant
                i <= self.hidden.len(),
                crate::workspace::stack_fn_total(f),
                hidden@.len() == i,
                forall|k: int|
                    0 <= k < i ==> {
                        &&& #[trigger] hidden@[k].id == self.hidden@[k].id
                        &&& hidden@[k].tag@ == self.hidden@[k].tag@
                        &&& crate::workspace::maps_stack(f, self.hidden@[k]@.stack, hidden@[k].stack)
                    },
            decreases self.hidden.len() - i,
        {
            hidden.push(self.hidden[i].map(&f));
            i = i + 1;
        }
        self.from_hidden(hidden)
    }

    /// Every hidden stack with `f` applied; `f` may empty them.
    pub fn modify_hidden_option<F: Fn(Stack<Window>) -> Option<Stack<Window>>>(&self, f: F) -> (r:
        Workspaces<R>)
        requires
            crate::workspace::stack_option_fn_total(f),
        ensures
            r.model().with_hidden(self.model().hidden) == self.model(),
            hidden_mapped_option(f, self.model(), r),
    {
        let mut hidden: Vec<Workspace> = Vec::new();
        let mut i: usize = 0;
        while i < self.hidden.len()
            invariant
                i <= self.hidden.len(),
                crate::workspace::stack_option_fn_total(f),
                hidden@.len() == i,
                forall|k: int|
                    0 <= k < i ==> {
                        &&& #[trigger] hidden@[k].id == self.hidden@[k].id
                        &&& hidden@[k].tag@ == self.hidden@[k].tag@
                        &&& crate::workspace::maps_stack_option(f, self.hidden@[k]@.stack, hidden@[k].stack)
                    },
            decreases self.hidden.len() - i,
        {
            hidden.push(self.hidden[i].map_option(&f));
            i = i + 1;
        }
        self.from_hidden(hidden)
    }

    /// The stack of every other visible screen with `f` applied.
    pub fn modify_visible<F: Fn(Stack<Window>) -> Stack<Window>>(&self, f: F) -> (r: Workspaces<R>)
        requires
            crate::workspace::stack_fn_total(f),
        ensures
            r.model().with_visible(self.model().visible) == self.model(),
            visible_mapped(f, self.model(), r),
    {
        let mut visible: Vec<Screen> = Vec::new();
        let mut i: usize = 0;
        while i < self.visible.len()
            invariant
                i <= self.visible.len(),
                crate::workspace::stack_fn_total(f),
                visible@.len() == i,
                forall|k: int|
                    0 <= k < i ==> {
                        &&& #[trigger] visible@[k].screen_id == self.visible@[k].screen_id
                        &&& visible@[k].screen_detail == self.visible@[k].screen_detail
                        &&& visible@[k].workspace.id == self.visible@[k].workspace.id
                        &&& visible@[k].workspace.tag@ == self.visible@[k].workspace.tag@
                        &&& crate::workspace::maps_stack(
                            f,
                            self.visible@[k]@.workspace.stack,
                            visible@[k].workspace.stack,
                        )
                    },
            decreases self.visible.len() - i,
        {
            visible.push(self.visible[i].map(&f));
            i = i + 1;
        }
        self.from_visible(visible)
    }

    /// The stack of every other visible screen with `f` applied; `f` may empty
    /// them.
    pub fn modify_visible_option<F: Fn(Stack<Window>) -> Option<Stack<Window>>>(&self, f: F) -> (r:
        Workspaces<R>)
        requires
            crate::workspace::stack_option_fn_total(f),
        ensures
            r.model().with_visible(self.model().visible) == self.model(),
            visible_mapped_option(f, self.model(), r),
    {
        let mut visible: Vec<Screen> = Vec::new();
        let mut i: usize = 0;
        while i < self.visible.len()
            invariant
                i <= self.visible.len(),
                crate::workspace::stack_option_fn_total(f),
                visible@.len() == i,
                forall|k: int|
                    0 <= k < i ==> {
                        &&& #[trigger] visible@[k].screen_id == self.visible@[k].screen_id
                        &&& visible@[k].screen_detail == self.visible@[k].screen_detail
                        &&& visible@[k].workspace.id == self.visible@[k].workspace.id
                        &&& visible@[k].workspace.tag@ == self.visible@[k].workspace.tag@
                        &&& crate::workspace::maps_stack_option(
                            f,
                            self.visible@[k]@.workspace.stack,
                            visible@[k].workspace.stack,
                        )
                    },
            decreases self.visible.len() - i,
        {
            visible.push(self.visible[i].map_option(&f));
            i = i + 1;
        }
        self.from_visible(visible)
    }
}


/// What `modify_stack` gives, for a closure that maps each stack to `g` of
/// its model.
proof fn lemma_modified_current<R, F: Fn(Stack<Window>) -> Stack<Window>>(
    a: WorkspacesModel<R>,
    b: Workspaces<R>,
    f: F,
    g: spec_fn(Zipper<Window>) -> Zipper<Window>,
)
    requires
        same_but_current_stack(a, b.model()),
        crate::workspace::maps_stack(f, a.current.workspace.stack, b.current.workspace.stack),
        forall|s: Stack<Window>, t: Stack<Window>| #[trigger] f.ensures((s,), t) ==> t@ == g(s@),
    ensures
        b.model() == a.map_current_stack(g),
{
    if let Some(z) = a.current.workspace.stack {
        let (s, t) = choose|s: Stack<Window>, t: Stack<Window>|
            b.current.workspace.stack == Some(t) && s@ == z && #[trigger] f.ensures((s,), t);
        assert(t@ == g(z));
    }
}

/// A stack with `window` on top of the focus, focused.
fn insert_up_into(s: Stack<Window>, window: Window) -> (r: Stack<Window>)
    ensures
        r@ == insert_up_stack(Some(s@), window),
{
    let mut one: Vec<Window> = Vec::new();
    one.push(s.focus);
    let down = crate::stack::concat_vec(&one, &s.down);
    assert(one@ =~= seq![s.focus]);
    Stack::new(window, s.up, down)
}

impl<R: Clone> Workspaces<R> {
    /// Move the focus of the currently focused workspace down
    pub fn focus_down(&self) -> (r: Workspaces<R>)
        ensures
            r.model() == self.model().focused_down(),
    {
        let f = |x: Stack<Window>| -> (y: Stack<Window>)
            ensures
                y@ == x@.focus_down(),
            { x.focus_down() };
        let r = self.modify_stack(f);
        proof {
            lemma_modified_current(self.model(), r, f, |z: Zipper<Window>| z.focus_down());
        }
        r
    }

    /// The focus moves up the current stack.
    pub fn focus_up(&self) -> (r: Workspaces<R>)
        ensures
            r.model() == self.model().focused_up(),
    {
        let f = |x: Stack<Window>| -> (y: Stack<Window>)
            ensures
                y@ == x@.focus_up(),
            { x.focus_up() };
        let r = self.modify_stack(f);
        proof {
            lemma_modified_current(self.model(), r, f, |z: Zipper<Window>| z.focus_up());
        }
        r
    }

    /// The focused window moves down the current stack.
    pub fn swap_down(&self) -> (r: Workspaces<R>)
        ensures
            r.model() == self.model().swapped_down(),
    {
        let f = |x: Stack<Window>| -> (y: Stack<Window>)
            ensures
                y@ == x@.swap_down(),
            { x.swap_down() };
        let r = self.modify_stack(f);
        proof {
            lemma_modified_current(self.model(), r, f, |z: Zipper<Window>| z.swap_down());
        }
        r
    }

    /// The focused window moves up the current stack.
    pub fn swap_up(&self) -> (r: Workspaces<R>)
        ensures
            r.model() == self.model().swapped_up(),
    {
        let f = |x: Stack<Window>| -> (y: Stack<Window>)
            ensures
                y@ == x@.swap_up(),
            { x.swap_up() };
        let r = self.modify_stack(f);
        proof {
            lemma_modified_current(self.model(), r, f, |z: Zipper<Window>| z.swap_up());
        }
        r
    }

    /// The focused window trades places with the top one of the current stack.
    pub fn swap_master(&self) -> (r: Workspaces<R>)
        ensures
            r.model() == self.model().swapped_master(),
    {
        let f = |x: Stack<Window>| -> (y: Stack<Window>)
            ensures
                y@ == x@.swap_master(),
            { x.swap_master() };
        let r = self.modify_stack(f);
        proof {
            lemma_modified_current(self.model(), r, f, |z: Zipper<Window>| z.swap_master());
        }
        r
    }

    /// Move the focused window to the top of the current stack, keeping
    /// the order of the others.
    pub fn shift_master(&self) -> (r: Workspaces<R>)
        ensures
            r.model() == self.model().shifted_master(),
    {
        let f = |s: Stack<Window>| -> (y: Stack<Window>)
            ensures
                y@ == shift_master_stack(s@),
            {
                if s.up.len() == 0 {
                    s.clone()
                } else {
                    let rev = crate::stack::reversed_vec(&s.up);
                    let down = crate::stack::concat_vec(&rev, &s.down);
                    Stack::new(s.focus, Vec::new(), down)
                }
            };
        let r = self.modify_stack(f);
        proof {
            lemma_modified_current(self.model(), r, f, |z: Zipper<Window>| shift_master_stack(z));
        }
        r
    }

    /// Remove the window from every stack; floating windows stay.
    pub fn delete_p(&self, window: Window) -> (r: Workspaces<R>)
        ensures
            r.model() == self.model().deleted_p(window),
    {
        let f = move |s: Stack<Window>| -> (y: Option<Stack<Window>>)
            ensures
                stack_model(y) == remove_window(Some(s@), window),
            { remove_from_stack(s, window) };
        let a = self.modify_stack_option(f);
        let b = a.modify_hidden_option(f);
        let c = b.modify_visible_option(f);
        proof {
            let m = self.model();
            if let Some(z) = m.current.workspace.stack {
                let (s, t) = choose|s: Stack<Window>, t: Option<Stack<Window>>|
                    s@ == z && #[trigger] f.ensures((s,), t) && t == a.current.workspace.stack;
                assert(stack_model(a.current.workspace.stack) == remove_window(Some(z), window));
            }
            assert(a.model().current == m.current.with_workspace(remove_from_workspace(m.current.workspace, window)));
            assert forall|k: int| 0 <= k < m.hidden.len() implies #[trigger] c.model().hidden[k]
                == remove_from_workspace(m.hidden[k], window) by {
                assert(b.hidden@[k].id == a.model().hidden[k].id);
                if let Some(z) = m.hidden[k].stack {
                    let (s, t) = choose|s: Stack<Window>, t: Option<Stack<Window>>|
                        s@ == z && #[trigger] f.ensures((s,), t) && t == b.hidden@[k].stack;
                }
            }
            assert forall|k: int| 0 <= k < m.visible.len() implies #[trigger] c.model().visible[k]
                == m.visible[k].with_workspace(remove_from_workspace(m.visible[k].workspace, window)) by {
                assert(c.visible@[k].screen_id == b.model().visible[k].screen_id);
                if let Some(z) = m.visible[k].workspace.stack {
                    let (s, t) = choose|s: Stack<Window>, t: Option<Stack<Window>>|
                        s@ == z && #[trigger] f.ensures((s,), t) && t == c.visible@[k].workspace.stack;
                }
            }
            assert(c.model().hidden =~= m.deleted_p(window).hidden);
            assert(c.model().visible =~= m.deleted_p(window).visible);
        }
        c
    }

    /// Remove the window from every stack and from the floating windows.
    pub fn delete(&self, window: Window) -> (r: Workspaces<R>)
        ensures
            r.model() == self.model().deleted(window),
    {
        self.delete_p(window).sink(window)
    }

    /// Put a window that is not yet managed on top of the focus of the
    /// current workspace and focus it.
    pub fn insert_up(&self, window: Window) -> (r: Workspaces<R>)
        ensures
            r.model() == self.model().inserted_up(window),
    {
        if self.contains(window) {
            return self.clone();
        }
        let f = move |s: Stack<Window>| -> (y: Stack<Window>)
            ensures
                y@ == insert_up_stack(Some(s@), window),
            { insert_up_into(s, window) };
        let c = self.current.map_or(Stack::from_element(window), f);
        proof {
            if let Some(z) = self.model().current.workspace.stack {
                let (s, t) = choose|s: Stack<Window>, t: Stack<Window>|
                    c.workspace.stack == Some(t) && s@ == z && #[trigger] f.ensures((s,), t);
            }
        }
        let r = self.from_current(c);
        assert(r.model().current =~= self.model().current.with_workspace(
            self.model().current.workspace.with_stack(Some(insert_up_stack(self.model().current.workspace.stack, window))),
        ));
        r
    }
}


/// With unique workspace ids, viewing the workspace that `find_tag` names
/// makes current the workspace that holds the window.
pub proof fn lemma_viewed_find_tag<R>(m: WorkspacesModel<R>, w: Window)
    requires
        m.wf(),
        m.find_tag(w) is Some,
    ensures
        m.viewed(m.find_tag(w).unwrap()).current.workspace.contains(w),
{
    let ws = m.workspaces();
    let flags = ws.map_values(|x: WorkspaceModel| x.contains(w));
    flags.index_of_first_ensures(true);
    let k = flags.index_of_first(true).unwrap();
    let t = ws[k].id;
    let ids = workspace_ids(ws);
    assert(ids[k] == t);
    let nv = m.visible.len();
    if k == 0 {
        assert(ws[0] == m.current.workspace);
    } else {
        assert(ids[0] == m.current.workspace.id);
        assert(ids[0] != ids[k]);
        let vids = screen_ids(m.visible);
        let hids = workspace_ids(m.hidden);
        if k <= nv {
            assert(ws[k] == m.visible[k - 1].workspace);
            assert(vids[k - 1] == t);
            vids.index_of_first_ensures(t);
            let j = vids.index_of_first(t).unwrap();
            assert(ids[1 + j] == vids[j]);
            assert(1 + j == k);
        } else {
            assert(ws[k] == m.hidden[k - 1 - nv]);
            assert(hids[k - 1 - nv] == t);
            vids.index_of_first_ensures(t);
            if vids.index_of_first(t) is Some {
                let j = vids.index_of_first(t).unwrap();
                assert(ids[1 + j] == vids[j]);
            }
            hids.index_of_first_ensures(t);
            let j = hids.index_of_first(t).unwrap();
            assert(ids[1 + nv + j] == hids[j]);
            assert(1 + nv + j == k);
        }
    }
}

/// Each move of the focus towards a window in the stack brings it one
/// step closer.
proof fn lemma_focus_up_closer(z: Zipper<Window>, w: Window, p: int)
    requires
        0 <= p < z.len(),
        z.integrate()[p] == w,
        z.focus != w,
    ensures
        distance_up_pos(z, p) > 0,
        distance_up_pos(z.focus_up(), p) == distance_up_pos(z, p) - 1,
        z.focus_up().integrate() == z.integrate(),
        z.focus_up().len() == z.len(),
{
    crate::stack::lemma_focus_position(z);
    crate::stack::lemma_focus_up_position(z);
    crate::stack::lemma_focus_up_integrate(z);
}

/// How many moves up the focus needs to reach position `p`.
pub open spec fn distance_up_pos(z: Zipper<Window>, p: int) -> nat {
    crate::stack::distance_up(z, p)
}

impl<R: Clone> Workspaces<R> {
    /// Retrieve the tag of the workspace the given window
    /// is contained in. If it is not contained anywhere,
    /// return None.
    pub fn find_tag(&self, window: Window) -> (r: Option<u32>)
        ensures
            r == self.model().find_tag(window),
    {
        let ws = self.workspaces();
        let ghost flags = self.model().workspaces().map_values(|x: WorkspaceModel| x.contains(window));
        let mut i: usize = 0;
        while i < ws.len()
            invariant
                i <= ws.len(),
                workspaces_model(ws@) == self.model().workspaces(),
                flags == self.model().workspaces().map_values(|x: WorkspaceModel| x.contains(window)),
                forall|j: int| 0 <= j < i ==> flags[j] != true,
            decreases ws.len() - i,
        {
            if ws[i].contains(window) {
                proof {
                    lemma_index_of_first_is(flags, true, i as int);
                }
                return Some(ws[i].id);
            }
            i = i + 1;
        }
        proof {
            lemma_index_of_first_none(flags, true);
        }
        None
    }

    /// The screen that shows the window: the current one first.
    pub fn find_screen(&self, window: Window) -> (r: Option<Screen>)
        ensures
            match r {
                Some(s) => self.model().find_screen(window) == Some(s@),
                None => self.model().find_screen(window) is None,
            },
    {
        if self.current.contains(window) {
            return Some(self.current.clone());
        }
        let ghost flags = self.model().visible.map_values(|x: ScreenModel| x.workspace.contains(window));
        let mut i: usize = 0;
        while i < self.visible.len()
            invariant
                i <= self.visible.len(),
                flags == self.model().visible.map_values(|x: ScreenModel| x.workspace.contains(window)),
                forall|j: int| 0 <= j < i ==> flags[j] != true,
                !self.model().current.workspace.contains(window),
            decreases self.visible.len() - i,
        {
            if self.visible[i].contains(window) {
                proof {
                    lemma_index_of_first_is(flags, true, i as int);
                }
                return Some(self.visible[i].clone());
            }
            i = i + 1;
        }
        proof {
            lemma_index_of_first_none(flags, true);
        }
        None
    }

    /// Make the workspace of the window current and focus the window.
    pub fn focus_window(&self, window: Window) -> (r: Workspaces<R>)
        requires
            self.model().wf(),
        ensures
            r.model() == self.model().focus_window(window),
    {
        if let Some(p) = self.peek() {
            if p == window {
                return self.clone();
            }
        }
        match self.find_tag(window) {
            Some(tag) => {
                let mut s = self.view(tag);
                proof {
                    lemma_viewed_find_tag(self.model(), window);
                }
                let ghost v = self.model().viewed(tag);
                let ghost z0 = v.current.workspace.stack.unwrap();
                let ghost target = crate::stack::focus_up_until(z0, window, z0.len());
                proof {
                    crate::stack::lemma_integrate_len_contains(z0, window);
                }
                let ghost p = choose|p: int| 0 <= p < z0.integrate().len() && z0.integrate()[p] == window;
                let ghost mut fuel: nat = z0.len();
                let ghost mut cur = z0;
                assert(v.with_current_stack(Some(z0)) == v);
                loop
                    invariant_except_break
                        s.model() == v.with_current_stack(Some(cur)),
                        cur.integrate() == z0.integrate(),
                        cur.len() == z0.len(),
                        0 <= p < z0.len(),
                        z0.integrate()[p] == window,
                        fuel >= distance_up_pos(cur, p),
                        crate::stack::focus_up_until(cur, window, fuel) == target,
                    ensures
                        s.model() == v.with_current_stack(Some(target)),
                    decreases distance_up_pos(cur, p),
                {
                    let pk = s.peek();
                    if let Some(x) = pk {
                        if x == window {
                            break;
                        }
                    }
                    proof {
                        lemma_focus_up_closer(cur, window, p);
                        cur = cur.focus_up();
                        fuel = (fuel - 1) as nat;
                    }
                    s = s.focus_up();
                }
                s
            },
            None => self.clone(),
        }
    }
}


/// The list of sequences with one more sequence at the end flattens to
/// the old flattening followed by that sequence.
proof fn lemma_flatten_push<T>(s: Seq<Seq<T>>, x: Seq<T>)
    ensures
        s.push(x).flatten() == s.flatten() + x,
{
    s.lemma_flatten_push(x);
}

/// Appends a copy of `b` to `a`.
fn append_windows<T: Copy>(a: &mut Vec<T>, b: &Vec<T>)
    ensures
        final(a)@ == old(a)@ + b@,
{
    let mut i: usize = 0;
    while i < b.len()
        invariant
            i <= b.len(),
            a@ == old(a)@ + b@.subrange(0, i as int),
        decreases b.len() - i,
    {
        a.push(b[i]);
        i = i + 1;
        assert(old(a)@ + b@.subrange(0, i as int) =~= (old(a)@ + b@.subrange(0, i - 1)).push(b@[i - 1]));
    }
    assert(b@.subrange(0, b@.len() as int) =~= b@);
}

impl<R: Clone> Workspaces<R> {
    /// Shift the given window to the given workspace
    pub fn shift_window(&self, index: u32, window: Window) -> (r: Workspaces<R>)
        ensures
            r.model() == self.model().shifted_window(index, window),
    {
        match self.find_tag(window) {
            Some(from) => {
                let current_tag = self.current_tag();
                let a = self.view(from).delete(window).view(current_tag);
                let a_tag = a.current_tag();
                a.view(index).insert_up(window).view(a_tag)
            },
            None => self.clone(),
        }
    }

    /// Shift the currently focused window to the given workspace
    pub fn shift(&self, index: u32) -> (r: Workspaces<R>)
        ensures
            r.model() == self.model().shifted(index),
    {
        match self.peek() {
            Some(w) => self.shift_window(index, w),
            None => self.clone(),
        }
    }

    /// Apply the given function to the given workspace: the workspace is
    /// made current, the function applied, and the workspace that was
    /// current is made current again.
    pub fn on_workspace<F: Fn(Workspaces<R>) -> Workspaces<R>>(&self, index: u32, f: F) -> (r: Workspaces<R>)
        requires
            forall|x: Workspaces<R>| #[trigger] f.requires((x,)),
        ensures
            exists|x: Workspaces<R>, y: Workspaces<R>|
                x.model() == self.model().viewed(index) && #[trigger] f.ensures((x,), y) && r.model()
                    == y.model().viewed(self.model().current_tag()),
    {
        let current_tag = self.current_tag();
        let x = self.view(index);
        let ghost gx = x;
        let y = f(x);
        assert(f.ensures((gx,), y));
        y.view(current_tag)
    }

    /// Call the function on the focused window, if there is one.
    pub fn with_focused<F: Fn(Window)>(&self, f: F) -> (r: Workspaces<R>)
        requires
            forall|w: Window| #[trigger] f.requires((w,)),
        ensures
            r.model() == self.model(),
            self.model().peek() matches Some(w) ==> f.ensures((w,), ()),
    {
        if let Some(window) = self.peek() {
            f(window);
        }
        self.clone()
    }

    /// Return a list of all visible windows.
    /// This is just a convenience function.
    pub fn visible_windows(&self) -> (r: Vec<Window>)
        ensures
            r@ == self.model().visible_windows(),
    {
        let scr = self.screens();
        let ghost parts = self.model().screens().map_values(|x: ScreenModel| x.workspace.windows());
        let mut r: Vec<Window> = Vec::new();
        let mut i: usize = 0;
        while i < scr.len()
            invariant
                i <= scr.len(),
                screens_model(scr@) == self.model().screens(),
                parts == self.model().screens().map_values(|x: ScreenModel| x.workspace.windows()),
                r@ == parts.subrange(0, i as int).flatten(),
            decreases scr.len() - i,
        {
            let ws = scr[i].windows();
            append_windows(&mut r, &ws);
            proof {
                assert(parts.subrange(0, i + 1) =~= parts.subrange(0, i as int).push(parts[i as int]));
                lemma_flatten_push(parts.subrange(0, i as int), parts[i as int]);
            }
            i = i + 1;
        }
        assert(parts.subrange(0, scr@.len() as int) =~= parts);
        r
    }

    /// Return a list of all windows, hidden, visible and floating.
    pub fn all_windows(&self) -> (r: Vec<Window>)
        ensures
            r@ == self.model().all_windows(),
    {
        let mut r = self.visible_windows();
        let ghost vis = r@;
        let ghost parts = self.model().hidden.map_values(|x: WorkspaceModel| x.windows());
        let mut i: usize = 0;
        while i < self.hidden.len()
            invariant
                i <= self.hidden.len(),
                parts == self.model().hidden.map_values(|x: WorkspaceModel| x.windows()),
                r@ == vis + parts.subrange(0, i as int).flatten(),
            decreases self.hidden.len() - i,
        {
            let ws = self.hidden[i].windows();
            append_windows(&mut r, &ws);
            proof {
                assert(parts.subrange(0, i + 1) =~= parts.subrange(0, i as int).push(parts[i as int]));
                lemma_flatten_push(parts.subrange(0, i as int), parts[i as int]);
                assert(vis + parts.subrange(0, i + 1).flatten() =~= vis + parts.subrange(0, i as int).flatten()
                    + parts[i as int]);
            }
            i = i + 1;
        }
        assert(parts.subrange(0, self.hidden@.len() as int) =~= parts);
        r
    }

    /// Returns a list of all windows as tuples together with their
    /// respective workspace IDs
    pub fn all_windows_with_workspaces(&self) -> (r: Vec<(Window, u32)>)
        ensures
            r@ == self.model().all_windows_with_workspaces(),
    {
        let wss = self.workspaces();
        let ghost parts = self.model().workspaces().map_values(|x: WorkspaceModel| tagged_windows(x));
        let mut r: Vec<(Window, u32)> = Vec::new();
        let mut i: usize = 0;
        while i < wss.len()
            invariant
                i <= wss.len(),
                workspaces_model(wss@) == self.model().workspaces(),
                parts == self.model().workspaces().map_values(|x: WorkspaceModel| tagged_windows(x)),
                r@ == parts.subrange(0, i as int).flatten(),
            decreases wss.len() - i,
        {
            let ws = crate::stack::reversed_vec(&wss[i].windows());
            let id = wss[i].id;
            let mut tagged: Vec<(Window, u32)> = Vec::new();
            let mut j: usize = 0;
            while j < ws.len()
                invariant
                    j <= ws.len(),
                    tagged@.len() == j,
                    forall|k: int| 0 <= k < j ==> #[trigger] tagged@[k] == (ws@[k], id),
                decreases ws.len() - j,
            {
                tagged.push((ws[j], id));
                j = j + 1;
            }
            assert(tagged@ =~= tagged_windows(wss@[i as int]@));
            append_windows(&mut r, &tagged);
            proof {
                assert(parts.subrange(0, i + 1) =~= parts.subrange(0, i as int).push(parts[i as int]));
                lemma_flatten_push(parts.subrange(0, i as int), parts[i as int]);
            }
            i = i + 1;
        }
        assert(parts.subrange(0, wss@.len() as int) =~= parts);
        r
    }

    /// Return the number of windows
    /// contained in all workspaces, including floating windows
    pub fn len(&self) -> (r: usize)
        requires
            self.model().len() <= usize::MAX,
        ensures
            r == self.model().len(),
    {
        let w = self.all_windows();
        let ghost dom = self.floating@.dom();
        let mut extra: BTreeSet<Window> = BTreeSet::new();
        let mut i: usize = 0;
        while i < w.len()
            invariant
                i <= w.len(),
                dom == self.floating@.dom(),
                extra@ == w@.subrange(0, i as int).to_set().difference(dom),
            decreases w.len() - i,
        {
            let x = w[i];
            if !self.floating.contains_key(&x) {
                extra.insert(x);
            }
            proof {
                let s0 = w@.subrange(0, i as int);
                let s1 = w@.subrange(0, i + 1);
                assert(s1 =~= s0.push(x));
                assert(s1.to_set() =~= s0.to_set().insert(x)) by {
                    assert forall|y: Window| #[trigger] s1.contains(y) == (s0.contains(y) || y == x) by {
                        if s1.contains(y) {
                            let k = choose|k: int| 0 <= k < s1.len() && s1[k] == y;
                            if k < i {
                                assert(s0[k] == y);
                            }
                        }
                        if s0.contains(y) {
                            let k = choose|k: int| 0 <= k < s0.len() && s0[k] == y;
                            assert(s1[k] == y);
                        }
                        assert(s1[i as int] == x);
                    }
                }
                assert(extra@ =~= s1.to_set().difference(dom));
            }
            i = i + 1;
        }
        proof {
            assert(w@.subrange(0, w@.len() as int) =~= w@);
            let all = w@.to_set();
            assert(all.union(dom) =~= dom + extra@);
            assert(dom.disjoint(extra@));
            vstd::set_lib::lemma_set_disjoint_lens(dom, extra@);
        }
        self.floating.len() + extra.len()
    }
}


/// Workspace `i` of a fresh set: its id is its position, its name the
/// tag at that position, and it has no windows.
pub open spec fn initial_workspace(tags: Seq<Seq<char>>, i: int) -> WorkspaceModel {
    WorkspaceModel { id: i as u32, tag: tags[i], stack: None }
}

/// Screen `i` of a fresh set shows workspace `i`.
pub open spec fn initial_screen(tags: Seq<Seq<char>>, screens: Seq<ScreenDetail>, i: int) -> ScreenModel {
    ScreenModel { workspace: initial_workspace(tags, i), screen_id: i as u32, screen_detail: screens[i] }
}

/// A fresh set of workspaces: the first workspaces go on the screens in
/// order, the first one current; the rest are hidden; nothing floats.
pub open spec fn initial_model<R>(tags: Seq<Seq<char>>, screens: Seq<ScreenDetail>) -> WorkspacesModel<R> {
    let n = if tags.len() <= screens.len() {
        tags.len()
    } else {
        screens.len()
    };
    WorkspacesModel {
        current: initial_screen(tags, screens, 0),
        visible: Seq::new((n - 1) as nat, |i: int| initial_screen(tags, screens, i + 1)),
        hidden: if tags.len() > screens.len() {
            Seq::new((tags.len() - screens.len()) as nat, |i: int| initial_workspace(tags, screens.len() + i))
        } else {
            Seq::empty()
        },
        floating: Map::empty(),
    }
}

/// The names of the workspaces as sequences of characters.
pub open spec fn tags_model(tags: Seq<String>) -> Seq<Seq<char>> {
    tags.map_values(|t: String| t@)
}

impl<R: Clone> Workspaces<R> {
    /// Create a new stackset, of empty stacks, with given tags,
    /// with physical screens whose descriptions are given by 'm'. The
    /// number of physical screens (@length 'm'@) should be less than or
    /// equal to the number of workspace tags.  The first workspace in the
    /// list will be current.
    ///
    /// Xinerama: Virtual workspaces are assigned to physical screens, starting at 0.
    pub fn new(tags: Vec<String>, screens: Vec<ScreenDetail>) -> (r: Workspaces<R>)
        requires
            tags@.len() >= 1,
            screens@.len() >= 1,
        ensures
            r.model() == initial_model::<R>(tags_model(tags@), screens@),
    {
        let ghost t = tags_model(tags@);
        let n = if tags.len() <= screens.len() {
            tags.len()
        } else {
            screens.len()
        };
        let current = Screen {
            workspace: Workspace { id: 0, tag: tags[0].clone(), stack: None },
            screen_id: 0,
            screen_detail: screens[0],
        };
        let mut visible: Vec<Screen> = Vec::new();
        let mut i: usize = 1;
        while i < n
            invariant
                1 <= i <= n,
                n <= tags@.len(),
                n <= screens@.len(),
                t == tags_model(tags@),
                screens_model(visible@) == Seq::new((i - 1) as nat, |k: int| initial_screen(t, screens@, k + 1)),
            decreases n - i,
        {
            let s = Screen {
                workspace: Workspace { id: i as u32, tag: tags[i].clone(), stack: None },
                screen_id: i as u32,
                screen_detail: screens[i],
            };
            assert(t[i as int] == tags@[i as int]@);
            assert(s@ == initial_screen(t, screens@, i as int));
            visible.push(s);
            assert(Seq::new(i as nat, |k: int| initial_screen(t, screens@, k + 1)) =~= Seq::new(
                (i - 1) as nat,
                |k: int| initial_screen(t, screens@, k + 1),
            ).push(initial_screen(t, screens@, i as int)));
            i = i + 1;
        }
        let mut hidden: Vec<Workspace> = Vec::new();
        let mut j: usize = screens.len();
        while j < tags.len()
            invariant
                screens@.len() <= j <= tags@.len() || (j == screens@.len() && j > tags@.len()),
                t == tags_model(tags@),
                workspaces_model(hidden@) == Seq::new(
                    (j - screens@.len()) as nat,
                    |k: int| initial_workspace(t, screens@.len() + k),
                ),
            decreases tags.len() - j,
        {
            let w = Workspace { id: j as u32, tag: tags[j].clone(), stack: None };
            assert(t[j as int] == tags@[j as int]@);
            assert(w@ == initial_workspace(t, j as int));
            hidden.push(w);
            assert(Seq::new((j + 1 - screens@.len()) as nat, |k: int| initial_workspace(t, screens@.len() + k))
                =~= Seq::new((j - screens@.len()) as nat, |k: int| initial_workspace(t, screens@.len() + k)).push(
                initial_workspace(t, j as int),
            ));
            j = j + 1;
        }
        let r = Workspaces { current, visible, hidden, floating: BTreeMap::new() };
        proof {
            let m = initial_model::<R>(t, screens@);
            assert(r.model().current == m.current);
            assert(r.model().visible =~= m.visible);
            assert(r.model().hidden =~= m.hidden);
        }
        r
    }
}

/// Whether no value occurs twice.
fn no_duplicate_values(v: &Vec<u32>) -> (r: bool)
    ensures
        r == v@.no_duplicates(),
{
    let mut i: usize = 0;
    while i < v.len()
        invariant
            i <= v.len(),
            forall|a: int, b: int| 0 <= a < i && 0 <= b < v@.len() && a != b ==> v@[a] != v@[b],
        decreases v.len() - i,
    {
        let mut j: usize = 0;
        while j < v.len()
            invariant
                i < v.len(),
                j <= v.len(),
                forall|a: int, b: int| 0 <= a < i && 0 <= b < v@.len() && a != b ==> v@[a] != v@[b],
                forall|b: int| 0 <= b < j && b != i ==> v@[i as int] != v@[b],
            decreases v.len() - j,
        {
            if j != i && v[i] == v[j] {
                return false;
            }
            j = j + 1;
        }
        i = i + 1;
    }
    true
}

impl<R: Clone> Workspaces<R> {
    /// Whether workspace ids are unique, and screen ids too, as the
    /// operations that find a workspace by its id need.
    pub fn is_well_formed(&self) -> (r: bool)
        ensures
            r == self.model().wf(),
    {
        let ws = self.workspaces();
        let mut ids: Vec<u32> = Vec::new();
        let mut i: usize = 0;
        while i < ws.len()
            invariant
                i <= ws.len(),
                workspaces_model(ws@) == self.model().workspaces(),
                ids@ == workspace_ids(self.model().workspaces()).subrange(0, i as int),
            decreases ws.len() - i,
        {
            ids.push(ws[i].id);
            i = i + 1;
            assert(workspace_ids(self.model().workspaces()).subrange(0, i as int) =~= workspace_ids(
                self.model().workspaces(),
            ).subrange(0, i - 1).push(ws@[i - 1]@.id));
        }
        assert(workspace_ids(self.model().workspaces()).subrange(0, ws@.len() as int) =~= workspace_ids(
            self.model().workspaces(),
        ));
        let scr = self.screens();
        let mut nums: Vec<u32> = Vec::new();
        let mut j: usize = 0;
        while j < scr.len()
            invariant
                j <= scr.len(),
                screens_model(scr@) == self.model().screens(),
                nums@ == self.model().screen_numbers().subrange(0, j as int),
            decreases scr.len() - j,
        {
            nums.push(scr[j].screen_id);
            j = j + 1;
            assert(self.model().screen_numbers().subrange(0, j as int) =~= self.model().screen_numbers().subrange(
                0,
                j - 1,
            ).push(scr@[j - 1]@.screen_id));
        }
        assert(self.model().screen_numbers().subrange(0, scr@.len() as int) =~= self.model().screen_numbers());
        no_duplicate_values(&ids) && no_duplicate_values(&nums)
    }
}

} // verus!
