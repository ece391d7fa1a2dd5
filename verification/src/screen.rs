use vstd::prelude::*;
use crate::stack::Stack;
use crate::window_system::{Rectangle, Window};
use crate::workspace::{
    Workspace,
    WorkspaceModel,
    maps_stack,
    maps_stack_option,
    stack_fn_total,
    stack_option_fn_total,
};

verus! {

/// The screen area that a screen shows its workspace on.
pub type ScreenDetail = Rectangle;

/// The model of a screen: the workspace it shows, its id and its area.
pub struct ScreenModel {
    pub workspace: WorkspaceModel,
    pub screen_id: u32,
    pub screen_detail: ScreenDetail,
}

impl ScreenModel {
    /// The same screen showing another workspace.
    pub open spec fn with_workspace(self, w: WorkspaceModel) -> ScreenModel {
        ScreenModel { workspace: w, screen_id: self.screen_id, screen_detail: self.screen_detail }
    }
}

/// A screen and the workspace it shows.
pub struct Screen {
    pub workspace: Workspace,
    pub screen_id: u32,
    pub screen_detail: ScreenDetail,
}

impl View for Screen {
    type V = ScreenModel;

    open spec fn view(&self) -> ScreenModel {
        ScreenModel { workspace: self.workspace@, screen_id: self.screen_id, screen_detail: self.screen_detail }
    }
}

impl Clone for Screen {
    fn clone(&self) -> (r: Self)
        ensures
            r@ == self@,
    {
        Screen {
            workspace: self.workspace.clone(),
            screen_id: self.screen_id,
            screen_detail: self.screen_detail,
        }
    }
}

impl Screen {
    /// Create a new screen for the given workspace
    /// and the given dimensions
    pub fn new(workspace: Workspace, screen_id: u32, screen_detail: ScreenDetail) -> (r: Screen)
        ensures
            r@ == (ScreenModel { workspace: workspace@, screen_id, screen_detail }),
    {
        Screen { workspace, screen_id, screen_detail }
    }

    /// Checks if the screen's workspace contains
    /// the given window
    pub fn contains(&self, window: Window) -> (r: bool)
        ensures
            r == self@.workspace.contains(window),
    {
        self.workspace.contains(window)
    }

    /// Returns the number of windows in the
    /// screen's workspace
    pub fn len(&self) -> (r: usize)
        requires
            self@.workspace.len() <= usize::MAX,
        ensures
            r == self@.workspace.len(),
    {
        self.workspace.len()
    }

    /// The windows of the screen's workspace, in display order.
    pub fn windows(&self) -> (r: Vec<Window>)
        ensures
            r@ == self@.workspace.windows(),
    {
        self.workspace.windows()
    }

    /// The screen with `f` applied to its workspace.
    pub fn map_workspace<F: Fn(Workspace) -> Workspace>(&self, f: F) -> (r: Screen)
        requires
            forall|w: Workspace| #[trigger] f.requires((w,)),
        ensures
            r.screen_id == self.screen_id,
            r.screen_detail == self.screen_detail,
            exists|w: Workspace| w@ == self@.workspace && #[trigger] f.ensures((w,), r.workspace),
    {
        let w = self.workspace.clone();
        let nw = f(w);
        assert(f.ensures((w,), nw));
        Screen { workspace: nw, screen_id: self.screen_id, screen_detail: self.screen_detail }
    }

    /// The screen with `f` applied to its workspace's stack, if there is one.
    pub fn map<F: Fn(Stack<Window>) -> Stack<Window>>(&self, f: F) -> (r: Screen)
        requires
            stack_fn_total(f),
        ensures
            r.screen_id == self.screen_id,
            r.screen_detail == self.screen_detail,
            r@.workspace.id == self@.workspace.id,
            r@.workspace.tag == self@.workspace.tag,
            maps_stack(f, self@.workspace.stack, r.workspace.stack),
    {
        Screen { workspace: self.workspace.map(f), screen_id: self.screen_id, screen_detail: self.screen_detail }
    }

    /// The screen with `f` applied to its workspace's stack, if there is one;
    /// `f` may empty the workspace.
    pub fn map_option<F: Fn(Stack<Window>) -> Option<Stack<Window>>>(&self, f: F) -> (r: Screen)
        requires
            stack_option_fn_total(f),
        ensures
            r.screen_id == self.screen_id,
            r.screen_detail == self.screen_detail,
            r@.workspace.id == self@.workspace.id,
            r@.workspace.tag == self@.workspace.tag,
            maps_stack_option(f, self@.workspace.stack, r.workspace.stack),
    {
        Screen {
            workspace: self.workspace.map_option(f),
            screen_id: self.screen_id,
            screen_detail: self.screen_detail,
        }
    }

    /// The screen with `f` applied to its workspace's stack, or with `default`
    /// when the workspace is empty.
    pub fn map_or<F: Fn(Stack<Window>) -> Stack<Window>>(&self, default: Stack<Window>, f: F) -> (r: Screen)
        requires
            stack_fn_total(f),
        ensures
            r.screen_id == self.screen_id,
            r.screen_detail == self.screen_detail,
            r@.workspace.id == self@.workspace.id,
            r@.workspace.tag == self@.workspace.tag,
            r.workspace.stack is Some,
            self.workspace.stack is None ==> r@.workspace.stack == Some(default@),
            self.workspace.stack is Some ==> maps_stack(f, self@.workspace.stack, r.workspace.stack),
    {
        Screen {
            workspace: self.workspace.map_or(default, f),
            screen_id: self.screen_id,
            screen_detail: self.screen_detail,
        }
    }
}

} // verus!
