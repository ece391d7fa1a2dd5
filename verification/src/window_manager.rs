use vstd::prelude::*;
use std::collections::BTreeMap;
use crate::screen::{Screen, ScreenDetail, ScreenModel};
use crate::workspace::Workspace;
use crate::window_system::{SizeHint, Window};
use crate::workspaces::{Workspaces, WorkspacesModel, screens_model, tags_model, initial_model};

verus! {

broadcast use {
    vstd::laws_eq::group_laws_eq,
    vstd::laws_cmp::group_laws_cmp,
    vstd::std_specs::btree::group_btree_axioms,
};

/// After the screens change, the workspaces, in their order (those that
/// were on screens, then the hidden ones), are spread anew: the first ones
/// go on the new screens in order, the first of them current, and the
/// others are hidden.
pub open spec fn rescreened<R>(m: WorkspacesModel<R>, screens: Seq<ScreenDetail>) -> WorkspacesModel<R> {
    let ws = m.workspaces();
    let n = if ws.len() <= screens.len() {
        ws.len()
    } else {
        screens.len()
    };
    let sc = Seq::new(
        n,
        |a: int| ScreenModel { workspace: ws[a], screen_id: a as u32, screen_detail: screens[a] },
    );
    m.with_current(sc[0]).with_visible(sc.drop_first()).with_hidden(ws.skip(n as int))
}

/// The map of windows waiting to be unmapped, after one of the unmaps of
/// the window has come: the count goes down, and at one the window leaves
/// the map.
pub open spec fn unmap_updated(m: Map<Window, Window>, w: Window) -> Map<Window, Window> {
    if m.dom().contains(w) {
        if m[w] < 2 {
            m.remove(w)
        } else {
            m.insert(w, (m[w] - 1) as Window)
        }
    } else {
        m
    }
}

/// The map of windows waiting to be unmapped, after one more unmap of the
/// window is expected.
pub open spec fn unmap_inserted(m: Map<Window, Window>, w: Window) -> Map<Window, Window> {
    if m.dom().contains(w) {
        m.insert(w, (m[w] + 1) as Window)
    } else {
        m.insert(w, 1)
    }
}

/// The state of the window manager that its decisions depend on; the
/// floating windows are placed by `R`.
pub struct WindowManager<R> {
    pub running: bool,
    pub workspaces: Workspaces<R>,
    /// For each window that the manager unmapped itself, how many of its
    /// unmap notifications are still to come.
    pub waiting_unmap: BTreeMap<Window, Window>,
}

impl<R: Clone> WindowManager<R> {
    /// Create a new window manager for the given workspace tags and screens
    pub fn new(tags: Vec<String>, screens: Vec<ScreenDetail>) -> (r: WindowManager<R>)
        requires
            tags@.len() >= 1,
            screens@.len() >= 1,
        ensures
            r.running,
            r.workspaces.model() == initial_model::<R>(tags_model(tags@), screens@),
            r.waiting_unmap@ == Map::<Window, Window>::empty(),
    {
        WindowManager { running: true, workspaces: Workspaces::new(tags, screens), waiting_unmap: BTreeMap::new() }
    }

    /// Checks if the given window is already managed by the WindowManager
    pub fn is_window_managed(&self, window: Window) -> (r: bool)
        ensures
            r == self.workspaces.model().contains(window),
    {
        self.workspaces.contains(window)
    }

    /// The workspaces after switching to workspace `index`, or nothing when
    /// there is no such workspace.
    pub fn view(&self, index: u32) -> (r: Option<Workspaces<R>>)
        requires
            1 + self.workspaces.visible@.len() + self.workspaces.hidden@.len() <= usize::MAX,
        ensures
            index < (1 + self.workspaces.visible@.len() + self.workspaces.hidden@.len()) as u32 ==> (r matches Some(
                w,
            ) && w.model() == self.workspaces.model().viewed(index)),
            index >= (1 + self.workspaces.visible@.len() + self.workspaces.hidden@.len()) as u32 ==> r is None,
    {
        if index < self.workspaces.number_workspaces() {
            Some(self.workspaces.view(index))
        } else {
            None
        }
    }

    /// The workspaces after moving the focused window to workspace `index`.
    pub fn move_window_to_workspace(&self, index: u32) -> (r: Workspaces<R>)
        ensures
            r.model() == self.workspaces.model().shifted(index),
    {
        self.workspaces.shift(index)
    }

    /// Rearrange the workspaces across the given screens.
    /// Needs to be called when the screen arrangement changes.
    pub fn rescreen(&mut self, screens: Vec<ScreenDetail>)
        requires
            screens@.len() >= 1,
        ensures
            final(self).workspaces.model() == rescreened(old(self).workspaces.model(), screens@),
            final(self).running == old(self).running,
            final(self).waiting_unmap@ == old(self).waiting_unmap@,
    {
        let ws = self.workspaces.workspaces();
        let n = if ws.len() <= screens.len() {
            ws.len()
        } else {
            screens.len()
        };
        let ghost m = self.workspaces.model();
        let ghost sc = Seq::new(
            n as nat,
            |a: int| ScreenModel { workspace: m.workspaces()[a], screen_id: a as u32, screen_detail: screens@[a] },
        );
        let mut all: Vec<Screen> = Vec::new();
        let mut a: usize = 0;
        while a < n
            invariant
                a <= n,
                n <= ws@.len(),
                n <= screens@.len(),
                crate::workspaces::workspaces_model(ws@) == m.workspaces(),
                sc == Seq::new(
                    n as nat,
                    |a: int| ScreenModel { workspace: m.workspaces()[a], screen_id: a as u32, screen_detail: screens@[a] },
                ),
                screens_model(all@) == sc.subrange(0, a as int),
            decreases n - a,
        {
            let s = Screen { workspace: ws[a].clone(), screen_id: a as u32, screen_detail: screens[a] };
            all.push(s);
            a = a + 1;
            assert(sc.subrange(0, a as int) =~= sc.subrange(0, a - 1).push(sc[a - 1]));
        }
        assert(sc.subrange(0, n as int) =~= sc);
        let current = all[0].clone();
        let mut visible: Vec<Screen> = Vec::new();
        let mut b: usize = 1;
        while b < all.len()
            invariant
                1 <= b <= all@.len(),
                screens_model(all@) == sc,
                screens_model(visible@) == sc.subrange(1, b as int),
            decreases all.len() - b,
        {
            visible.push(all[b].clone());
            b = b + 1;
            assert(sc.subrange(1, b as int) =~= sc.subrange(1, b - 1).push(sc[b - 1]));
        }
        assert(sc.subrange(1, sc.len() as int) =~= sc.drop_first());
        let mut hidden: Vec<Workspace> = Vec::new();
        let mut c: usize = n;
        while c < ws.len()
            invariant
                n <= c <= ws@.len(),
                crate::workspaces::workspaces_model(ws@) == m.workspaces(),
                crate::workspaces::workspaces_model(hidden@) == m.workspaces().subrange(n as int, c as int),
            decreases ws.len() - c,
        {
            hidden.push(ws[c].clone());
            c = c + 1;
            assert(m.workspaces().subrange(n as int, c as int) =~= m.workspaces().subrange(n as int, c - 1).push(
                m.workspaces()[c - 1],
            ));
            assert(crate::workspaces::workspaces_model(hidden@) =~= crate::workspaces::workspaces_model(hidden@).subrange(
                0,
                hidden@.len() - 1,
            ).push(hidden@[hidden@.len() - 1]@));
        }
        assert(m.workspaces().subrange(n as int, ws@.len() as int) =~= m.workspaces().skip(n as int));
        let mut r = self.workspaces.clone();
        r.current = current;
        r.visible = visible;
        r.hidden = hidden;
        self.workspaces = r;
    }

    /// The workspaces after a new window is managed: it goes on top of the
    /// focus of the current workspace; a window that cannot be resized also
    /// floats, placed at `rect`.
    pub fn manage(&self, window: Window, size_hint: SizeHint, rect: R) -> (r: Workspaces<R>)
        ensures
            size_hint.min_size is Some && size_hint.min_size == size_hint.max_size ==> r.model()
                == self.workspaces.model().inserted_up(window).floated(window, rect),
            !(size_hint.min_size is Some && size_hint.min_size == size_hint.max_size) ==> r.model()
                == self.workspaces.model().inserted_up(window),
    {
        if size_hint.is_fixed_size() {
            self.workspaces.insert_up(window).float(window, rect)
        } else {
            self.workspaces.insert_up(window)
        }
    }

    /// The workspaces after a window is closed, or nothing when the window
    /// is not managed.
    pub fn unmanage(&self, window: Window) -> (r: Option<Workspaces<R>>)
        ensures
            self.workspaces.model().contains(window) ==> (r matches Some(w) && w.model()
                == self.workspaces.model().deleted(window)),
            !self.workspaces.model().contains(window) ==> r is None,
    {
        if self.workspaces.contains(window) {
            Some(self.workspaces.delete(window))
        } else {
            None
        }
    }

    /// The workspaces after the window is to be focused, or nothing when
    /// nothing changes: a window on the current screen that is not focused
    /// gets the focus; the root window of a screen makes that screen's
    /// workspace current.
    pub fn focus(&self, window: Window, root: Window) -> (r: Option<Workspaces<R>>)
        requires
            self.workspaces.model().wf(),
        ensures
            match self.workspaces.model().find_screen(window) {
                Some(s) => if s.screen_id == self.workspaces.model().current.screen_id
                    && s.workspace.peek() != Some(window) {
                    r matches Some(w) && w.model() == self.workspaces.model().focus_window(window)
                } else if window == root {
                    r matches Some(w) && w.model() == self.workspaces.model().viewed(s.workspace.id)
                } else {
                    r is None
                },
                None => r is None,
            },
    {
        if let Some(screen) = self.workspaces.find_screen(window) {
            let focused = screen.workspace.peek();
            let is_focused = match focused {
                Some(f) => f == window,
                None => false,
            };
            if screen.screen_id == self.workspaces.current.screen_id && !is_focused {
                return Some(self.workspaces.focus_window(window));
            } else if window == root {
                return Some(self.workspaces.view(screen.workspace.id));
            }
        }
        None
    }

    /// Moves the focus down the current stack.
    pub fn focus_down(&mut self)
        ensures
            final(self).workspaces.model() == old(self).workspaces.model().focused_down(),
            final(self).running == old(self).running,
            final(self).waiting_unmap@ == old(self).waiting_unmap@,
    {
        self.workspaces = self.workspaces.focus_down();
    }

    /// Moves the focus up the current stack.
    pub fn focus_up(&mut self)
        ensures
            final(self).workspaces.model() == old(self).workspaces.model().focused_up(),
            final(self).running == old(self).running,
            final(self).waiting_unmap@ == old(self).waiting_unmap@,
    {
        self.workspaces = self.workspaces.focus_up();
    }

    /// Replaces the workspaces by what `f` makes of them.
    pub fn modify_workspaces<F: Fn(&Workspaces<R>) -> Workspaces<R>>(&mut self, f: F)
        requires
            forall|w: &Workspaces<R>| #[trigger] f.requires((w,)),
        ensures
            f.ensures((&old(self).workspaces,), final(self).workspaces),
            final(self).running == old(self).running,
            final(self).waiting_unmap@ == old(self).waiting_unmap@,
    {
        self.workspaces = f(&self.workspaces);
    }

    /// The workspaces with the window floating at `rect`.
    pub fn float(&self, window: Window, rect: R) -> (r: Workspaces<R>)
        ensures
            r.model() == self.workspaces.model().floated(window, rect),
    {
        self.workspaces.float(window, rect)
    }

    /// Whether unmaps of the window are still expected.
    pub fn is_waiting_unmap(&self, window: Window) -> (r: bool)
        ensures
            r == self.waiting_unmap@.dom().contains(window),
    {
        self.waiting_unmap.contains_key(&window)
    }

    /// One of the expected unmaps of the window has come.
    pub fn update_unmap(&mut self, window: Window)
        ensures
            final(self).waiting_unmap@ == unmap_updated(old(self).waiting_unmap@, window),
            final(self).running == old(self).running,
            final(self).workspaces == old(self).workspaces,
    {
        match self.waiting_unmap.get(&window) {
            Some(val) => {
                let v = *val;
                if v < 2 {
                    self.waiting_unmap.remove(&window);
                } else {
                    self.waiting_unmap.insert(window, v - 1);
                }
            },
            None => {},
        }
    }

    /// One more unmap of the window is expected.
    pub fn insert_or_update_unmap(&mut self, window: Window)
        requires
            old(self).waiting_unmap@.dom().contains(window) ==> old(self).waiting_unmap@[window] < u64::MAX,
        ensures
            final(self).waiting_unmap@ == unmap_inserted(old(self).waiting_unmap@, window),
            final(self).running == old(self).running,
            final(self).workspaces == old(self).workspaces,
    {
        match self.waiting_unmap.get(&window) {
            Some(val) => {
                let v = *val;
                self.waiting_unmap.insert(window, v + 1);
            },
            None => {
                self.waiting_unmap.insert(window, 1);
            },
        }
    }

    /// No more unmaps of the window are expected.
    pub fn remove_from_unmap(&mut self, window: Window)
        ensures
            final(self).waiting_unmap@ == old(self).waiting_unmap@.remove(window),
            final(self).running == old(self).running,
            final(self).workspaces == old(self).workspaces,
    {
        self.waiting_unmap.remove(&window);
    }

    /// Stop the window manager
    pub fn exit(self) -> (r: WindowManager<R>)
        ensures
            !r.running,
            r.workspaces == self.workspaces,
            r.waiting_unmap == self.waiting_unmap,
    {
        WindowManager { running: false, workspaces: self.workspaces, waiting_unmap: self.waiting_unmap }
    }
}

/// The size a tiled window is resized to: its tile, less its border on
/// each side.
pub fn tile_window_size(rect: crate::window_system::Rectangle, border_width: u32) -> (r: (u32, u32))
    requires
        2 * border_width <= rect.2,
        2 * border_width <= rect.3,
    ensures
        r == ((rect.2 - 2 * border_width) as u32, (rect.3 - 2 * border_width) as u32),
{
    (rect.2 - 2 * border_width, rect.3 - 2 * border_width)
}

/// Expecting one more unmap of a window and then receiving it leaves the
/// map as it was.
pub proof fn lemma_unmap_insert_update(m: Map<Window, Window>, w: Window)
    requires
        m.dom().contains(w) ==> m[w] < u64::MAX,
        m.dom().contains(w) ==> m[w] >= 1,
    ensures
        unmap_updated(unmap_inserted(m, w), w) == m,
{
    if m.dom().contains(w) {
        assert(unmap_updated(unmap_inserted(m, w), w) =~= m);
    } else {
        assert(unmap_updated(unmap_inserted(m, w), w) =~= m);
    }
}

/// Expecting one more unmap of a window counts it up by one, from one when
/// none was expected; receiving one counts it down by one, and the window
/// is no longer waited for once its last one came. The counts of the other
/// windows stay.
pub proof fn lemma_unmap_counts(m: Map<Window, Window>, w: Window, v: Window)
    ensures
        unmap_inserted(m, w).dom().contains(w),
        !m.dom().contains(w) ==> unmap_inserted(m, w)[w] == 1,
        m.dom().contains(w) && m[w] < u64::MAX ==> unmap_inserted(m, w)[w] == m[w] + 1,
        m.dom().contains(w) && m[w] >= 2 ==> unmap_updated(m, w).dom().contains(w) && unmap_updated(m, w)[w]
            == m[w] - 1,
        m.dom().contains(w) && m[w] < 2 ==> !unmap_updated(m, w).dom().contains(w),
        !m.dom().contains(w) ==> unmap_updated(m, w) == m,
        v != w ==> unmap_inserted(m, w).dom().contains(v) == m.dom().contains(v) && unmap_updated(
            m,
            w,
        ).dom().contains(v) == m.dom().contains(v),
        v != w && m.dom().contains(v) ==> unmap_inserted(m, w)[v] == m[v] && unmap_updated(m, w)[v] == m[v],
{
}

} // verus!
