use vstd::prelude::*;
use crate::stack::{Stack, Zipper};
use crate::window_system::Window;

verus! {

broadcast use vstd::laws_eq::group_laws_eq;

/// The model of an optional stack.
pub open spec fn stack_model(s: Option<Stack<Window>>) -> Option<Zipper<Window>> {
    match s {
        Some(x) => Some(x@),
        None => None,
    }
}

/// The model of a workspace: its id, its name and its windows.
pub struct WorkspaceModel {
    pub id: u32,
    pub tag: Seq<char>,
    pub stack: Option<Zipper<Window>>,
}

impl WorkspaceModel {
    /// The same workspace with another stack.
    pub open spec fn with_stack(self, stack: Option<Zipper<Window>>) -> WorkspaceModel {
        WorkspaceModel { id: self.id, tag: self.tag, stack: stack }
    }

    /// The number of windows.
    pub open spec fn len(self) -> nat {
        match self.stack {
            Some(z) => z.len(),
            None => 0,
        }
    }

    /// The stack holds the window.
    pub open spec fn contains(self, w: Window) -> bool {
        match self.stack {
            Some(z) => z.contains(w),
            None => false,
        }
    }

    /// The windows in display order; none for an empty workspace.
    pub open spec fn windows(self) -> Seq<Window> {
        match self.stack {
            Some(z) => z.integrate(),
            None => Seq::empty(),
        }
    }

    /// The focused window, if any.
    pub open spec fn peek(self) -> Option<Window> {
        match self.stack {
            Some(z) => Some(z.focus),
            None => None,
        }
    }

    /// The window is added on top of the focus and focused; an empty
    /// workspace gets a stack of just that window.
    pub open spec fn add(self, w: Window) -> WorkspaceModel {
        self.with_stack(
            Some(
                match self.stack {
                    Some(z) => z.add(w),
                    None => Zipper { focus: w, up: Seq::empty(), down: Seq::empty() },
                },
            ),
        )
    }
}

/// The closure maps the stack `before` to the stack `after`: both are
/// absent, or `after` is one of the closure's answers for a stack equal
/// to `before`.
pub open spec fn maps_stack<F: Fn(Stack<Window>) -> Stack<Window>>(
    f: F,
    before: Option<Zipper<Window>>,
    after: Option<Stack<Window>>,
) -> bool {
    match before {
        None => after is None,
        Some(z) => exists|s: Stack<Window>, t: Stack<Window>|
            after == Some(t) && s@ == z && #[trigger] f.ensures((s,), t),
    }
}

/// As `maps_stack`, for a closure that may also remove the stack.
pub open spec fn maps_stack_option<F: Fn(Stack<Window>) -> Option<Stack<Window>>>(
    f: F,
    before: Option<Zipper<Window>>,
    after: Option<Stack<Window>>,
) -> bool {
    match before {
        None => after is None,
        Some(z) => exists|s: Stack<Window>| s@ == z && #[trigger] f.ensures((s,), after),
    }
}

/// A closure that can be called on every stack.
pub open spec fn stack_fn_total<F: Fn(Stack<Window>) -> Stack<Window>>(f: F) -> bool {
    forall|s: Stack<Window>| #[trigger] f.requires((s,))
}

/// The closure can be called on every stack.
pub open spec fn stack_option_fn_total<F: Fn(Stack<Window>) -> Option<Stack<Window>>>(f: F) -> bool {
    forall|s: Stack<Window>| #[trigger] f.requires((s,))
}

/// A copy of the optional stack.
pub fn clone_stack(s: &Option<Stack<Window>>) -> (r: Option<Stack<Window>>)
    ensures
        stack_model(r) == stack_model(*s),
{
    match s {
        Some(x) => Some(x.clone()),
        None => None,
    }
}

/// Represents a single workspace with a `tag` (name),
/// `id` and a `stack` for all windows. The workspace's layout is kept by
/// the window manager under the workspace's id.
pub struct Workspace {
    pub id: u32,
    pub tag: String,
    pub stack: Option<Stack<Window>>,
}

impl View for Workspace {
    type V = WorkspaceModel;

    open spec fn view(&self) -> WorkspaceModel {
        WorkspaceModel { id: self.id, tag: self.tag@, stack: stack_model(self.stack) }
    }
}

impl Clone for Workspace {
    fn clone(&self) -> (r: Self)
        ensures
            r@ == self@,
    {
        Workspace { id: self.id, tag: self.tag.clone(), stack: clone_stack(&self.stack) }
    }
}

impl Workspace {
    /// Create a new workspace
    pub fn new(id: u32, tag: String, stack: Option<Stack<Window>>) -> (r: Workspace)
        ensures
            r.id == id,
            r.tag@ == tag@,
            r@.stack == stack_model(stack),
    {
        Workspace { id, tag, stack }
    }

    /// Add a new window to the workspace by adding it to the stack.
    /// If the stack doesn't exist yet, create one.
    pub fn add(&self, window: Window) -> (r: Workspace)
        ensures
            r@ == self@.add(window),
    {
        let stack = match &self.stack {
            Some(s) => s.add(window),
            None => Stack::from_element(window),
        };
        Workspace { id: self.id, tag: self.tag.clone(), stack: Some(stack) }
    }

    /// Returns the number of windows contained in this workspace
    pub fn len(&self) -> (r: usize)
        requires
            self@.len() <= usize::MAX,
        ensures
            r == self@.len(),
    {
        match &self.stack {
            Some(s) => s.len(),
            None => 0,
        }
    }

    /// Whether the workspace holds no window.
    pub fn is_empty(&self) -> (r: bool)
        requires
            self@.len() <= usize::MAX,
        ensures
            r == (self@.len() == 0),
    {
        self.len() == 0
    }

    /// Checks if the workspace contains the given window
    pub fn contains(&self, window: Window) -> (r: bool)
        ensures
            r == self@.contains(window),
    {
        match &self.stack {
            Some(s) => s.contains(window),
            None => false,
        }
    }

    /// The windows in display order; none for an empty workspace.
    pub fn windows(&self) -> (r: Vec<Window>)
        ensures
            r@ == self@.windows(),
    {
        match &self.stack {
            Some(s) => s.integrate(),
            None => Vec::new(),
        }
    }

    /// The focused window, if any.
    pub fn peek(&self) -> (r: Option<Window>)
        ensures
            r == self@.peek(),
    {
        match &self.stack {
            Some(s) => Some(s.focus),
            None => None,
        }
    }

    /// The workspace with `f` applied to its stack, if there is one.
    pub fn map<F: Fn(Stack<Window>) -> Stack<Window>>(&self, f: F) -> (r: Workspace)
        requires
            stack_fn_total(f),
        ensures
            r.id == self.id,
            r.tag@ == self.tag@,
            maps_stack(f, self@.stack, r.stack),
    {
        let stack = match &self.stack {
            Some(s) => {
                let c = s.clone();
                let t = f(c);
                assert(f.ensures((c,), t));
                Some(t)
            },
            None => None,
        };
        Workspace { id: self.id, tag: self.tag.clone(), stack }
    }

    /// The workspace with `f` applied to its stack, if there is one; `f` may
    /// empty it.
    pub fn map_option<F: Fn(Stack<Window>) -> Option<Stack<Window>>>(&self, f: F) -> (r: Workspace)
        requires
            stack_option_fn_total(f),
        ensures
            r.id == self.id,
            r.tag@ == self.tag@,
            maps_stack_option(f, self@.stack, r.stack),
    {
        let stack = match &self.stack {
            Some(s) => {
                let c = s.clone();
                f(c)
            },
            None => None,
        };
        Workspace { id: self.id, tag: self.tag.clone(), stack }
    }

    /// The workspace with `f` applied to its stack, or with `default` when it
    /// is empty.
    pub fn map_or<F: Fn(Stack<Window>) -> Stack<Window>>(&self, default: Stack<Window>, f: F) -> (r:
        Workspace)
        requires
            stack_fn_total(f),
        ensures
            r.id == self.id,
            r.tag@ == self.tag@,
            r.stack is Some,
            self.stack is None ==> r@.stack == Some(default@),
            self.stack is Some ==> maps_stack(f, self@.stack, r.stack),
    {
        let stack = match &self.stack {
            Some(s) => {
                let c = s.clone();
                f(c)
            },
            None => default,
        };
        Workspace { id: self.id, tag: self.tag.clone(), stack: Some(stack) }
    }
}

} // verus!
