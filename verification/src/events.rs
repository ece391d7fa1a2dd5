//! How the window manager answers the events of the window system: the
//! decision of the event loop, taken on the managed windows and on a few
//! facts that the window system and the configuration give about the
//! event.
use vstd::prelude::*;
use crate::window_system::{KeyCommand, MouseCommand, Window, WindowChanges, WindowSystemEvent};
use crate::window_manager::WindowManager;
use crate::workspaces::WorkspacesModel;

verus! {

/// What the window manager does about an event.
#[derive(Clone, Copy, Debug)]
pub enum Reaction {
    /// Nothing.
    Ignore,
    /// The screens changed: spread the workspaces over them again.
    Rescreen,
    /// Give the window the geometry it asked for, as a floating window when
    /// the flag is set, then show the workspaces again.
    Configure(Window, WindowChanges, u64, bool),
    /// Manage the new window, then apply the manage hook to it.
    Manage(Window),
    /// The window left the screen: stop managing it.
    Unmanage(Window),
    /// The window is destroyed: stop managing it and expect no more unmaps
    /// of it.
    Forget(Window),
    /// Focus the window.
    Focus(Window),
    /// Run the handler bound to the button on the window under the pointer.
    MouseHandler(MouseCommand, Window),
    /// The drag is over: release the pointer.
    EndDrag,
    /// Run the handler bound to the key.
    KeyHandler(KeyCommand),
    /// Continue the drag at the pointer position.
    Drag(u32, u32),
}

/// What the window system and the configuration tell about an event.
#[derive(Clone, Copy, Debug)]
pub struct EventFacts {
    /// The root window.
    pub root: Window,
    /// The window of a creation event asks not to be managed.
    pub overrides_redirect: bool,
    /// The focus follows the mouse pointer.
    pub focus_follows_mouse: bool,
    /// A handler is bound to the pressed mouse button.
    pub has_mouse_handler: bool,
    /// A handler is bound to the pressed key.
    pub has_key_handler: bool,
    /// A window is being dragged.
    pub dragging: bool,
}

/// The reaction to an event when `m` are the workspaces:
/// - a change of the root window's configuration means new screens;
/// - a configuration request is granted, as for a floating window when the
///   window floats or is not managed;
/// - a new window is managed unless it already is or asks not to be;
/// - a managed window is unmanaged when a synthetic unmap or its
///   destruction is reported;
/// - entering a managed window focuses it when the focus follows the mouse;
/// - a press of a bound button runs its handler when it happened on the
///   root window over another window; a press of an unbound button on
///   another window focuses that window;
/// - a release or a motion matters during a drag only;
/// - a bound key runs its handler.
pub open spec fn reaction<R>(m: WorkspacesModel<R>, e: WindowSystemEvent, f: EventFacts) -> Reaction {
    match e {
        WindowSystemEvent::ConfigurationNotification(w) => if w == f.root {
            Reaction::Rescreen
        } else {
            Reaction::Ignore
        },
        WindowSystemEvent::ConfigurationRequest(w, changes, mask) => Reaction::Configure(
            w,
            changes,
            mask,
            m.floating.dom().contains(w) || !m.contains(w),
        ),
        WindowSystemEvent::WindowCreated(w) => if m.contains(w) || f.overrides_redirect {
            Reaction::Ignore
        } else {
            Reaction::Manage(w)
        },
        WindowSystemEvent::WindowUnmapped(w, synthetic) => if synthetic && m.contains(w) {
            Reaction::Unmanage(w)
        } else {
            Reaction::Ignore
        },
        WindowSystemEvent::WindowDestroyed(w) => if m.contains(w) {
            Reaction::Forget(w)
        } else {
            Reaction::Ignore
        },
        WindowSystemEvent::Enter(w) => if f.focus_follows_mouse && m.contains(w) {
            Reaction::Focus(w)
        } else {
            Reaction::Ignore
        },
        WindowSystemEvent::ButtonPressed(w, sub, button, _, _) => if f.has_mouse_handler {
            if w == f.root && !(sub == f.root || sub == 0) {
                Reaction::MouseHandler(button, sub)
            } else {
                Reaction::Ignore
            }
        } else if w != f.root {
            Reaction::Focus(w)
        } else {
            Reaction::Ignore
        },
        WindowSystemEvent::ButtonReleased => if f.dragging {
            Reaction::EndDrag
        } else {
            Reaction::Ignore
        },
        WindowSystemEvent::KeyPressed(_, key) => if f.has_key_handler {
            Reaction::KeyHandler(key)
        } else {
            Reaction::Ignore
        },
        WindowSystemEvent::MouseMotion(x, y) => if f.dragging {
            Reaction::Drag(x, y)
        } else {
            Reaction::Ignore
        },
        _ => Reaction::Ignore,
    }
}

/// What the window manager does about each event: it takes on a new window
/// exactly when the window is not managed yet and does not ask to be left
/// alone; it lets go of a managed window on a synthetic unmap or on its
/// destruction, and of no other; the pointer entering a managed window
/// focuses it exactly when the focus follows the mouse; a drag follows the
/// pointer to the position reported, x first; a bound key runs its handler
/// with that key; a configuration request is granted to the window that
/// asked, with what it asked for, as floating exactly when it floats or is
/// not managed; only a change of the root window's configuration means new
/// screens.
pub proof fn lemma_reaction_events<R>(m: WorkspacesModel<R>, f: EventFacts, w: Window, x: u32, y: u32)
    ensures
        reaction(m, WindowSystemEvent::WindowCreated(w), f) == (if !m.contains(w) && !f.overrides_redirect {
            Reaction::Manage(w)
        } else {
            Reaction::Ignore
        }),
        reaction(m, WindowSystemEvent::WindowUnmapped(w, true), f) == (if m.contains(w) {
            Reaction::Unmanage(w)
        } else {
            Reaction::Ignore
        }),
        reaction(m, WindowSystemEvent::WindowUnmapped(w, false), f) == Reaction::Ignore,
        reaction(m, WindowSystemEvent::WindowDestroyed(w), f) == (if m.contains(w) {
            Reaction::Forget(w)
        } else {
            Reaction::Ignore
        }),
        reaction(m, WindowSystemEvent::Enter(w), f) == (if f.focus_follows_mouse && m.contains(w) {
            Reaction::Focus(w)
        } else {
            Reaction::Ignore
        }),
        reaction(m, WindowSystemEvent::Leave(w), f) == Reaction::Ignore,
        reaction(m, WindowSystemEvent::MouseMotion(x, y), f) == (if f.dragging {
            Reaction::Drag(x, y)
        } else {
            Reaction::Ignore
        }),
        reaction(m, WindowSystemEvent::ButtonReleased, f) == (if f.dragging {
            Reaction::EndDrag
        } else {
            Reaction::Ignore
        }),
        reaction(m, WindowSystemEvent::ConfigurationNotification(w), f) == (if w == f.root {
            Reaction::Rescreen
        } else {
            Reaction::Ignore
        }),
        forall|k: KeyCommand|
            #[trigger] reaction(m, WindowSystemEvent::KeyPressed(w, k), f) == (if f.has_key_handler {
                Reaction::KeyHandler(k)
            } else {
                Reaction::Ignore
            }),
        forall|c: WindowChanges, mask: u64|
            #[trigger] reaction(m, WindowSystemEvent::ConfigurationRequest(w, c, mask), f) == Reaction::Configure(
                w,
                c,
                mask,
                m.floating.dom().contains(w) || !m.contains(w),
            ),
{
}

/// A press of a bound button runs its handler on the window under the
/// pointer only when it happened on the root window over another window;
/// a press of an unbound button focuses the window it happened on, unless
/// that is the root window.
pub proof fn lemma_reaction_buttons<R>(
    m: WorkspacesModel<R>,
    f: EventFacts,
    w: Window,
    sub: Window,
    b: MouseCommand,
    x: u32,
    y: u32,
)
    ensures
        f.has_mouse_handler ==> reaction(m, WindowSystemEvent::ButtonPressed(w, sub, b, x, y), f) == (if w
            == f.root && sub != f.root && sub != 0 {
            Reaction::MouseHandler(b, sub)
        } else {
            Reaction::Ignore
        }),
        !f.has_mouse_handler ==> reaction(m, WindowSystemEvent::ButtonPressed(w, sub, b, x, y), f) == (if w
            != f.root {
            Reaction::Focus(w)
        } else {
            Reaction::Ignore
        }),
{
}

impl<R: Clone> WindowManager<R> {
    /// The reaction to the event; see `reaction`.
    pub fn react(&self, event: WindowSystemEvent, facts: EventFacts) -> (r: Reaction)
        ensures
            r == reaction(self.workspaces.model(), event, facts),
    {
        match event {
            WindowSystemEvent::ConfigurationNotification(w) => {
                if w == facts.root {
                    Reaction::Rescreen
                } else {
                    Reaction::Ignore
                }
            },
            WindowSystemEvent::ConfigurationRequest(w, changes, mask) => {
                let floating = self.workspaces.floating.contains_key(&w) || !self.workspaces.contains(w);
                Reaction::Configure(w, changes, mask, floating)
            },
            WindowSystemEvent::WindowCreated(w) => {
                if self.is_window_managed(w) || facts.overrides_redirect {
                    Reaction::Ignore
                } else {
                    Reaction::Manage(w)
                }
            },
            WindowSystemEvent::WindowUnmapped(w, synthetic) => {
                if synthetic && self.is_window_managed(w) {
                    Reaction::Unmanage(w)
                } else {
                    Reaction::Ignore
                }
            },
            WindowSystemEvent::WindowDestroyed(w) => {
                if self.is_window_managed(w) {
                    Reaction::Forget(w)
                } else {
                    Reaction::Ignore
                }
            },
            WindowSystemEvent::Enter(w) => {
                if facts.focus_follows_mouse && self.is_window_managed(w) {
                    Reaction::Focus(w)
                } else {
                    Reaction::Ignore
                }
            },
            WindowSystemEvent::ButtonPressed(w, sub, button, _, _) => {
                let is_root = w == facts.root;
                let is_sub_root = sub == facts.root || sub == 0;
                if facts.has_mouse_handler {
                    if is_root && !is_sub_root {
                        Reaction::MouseHandler(button, sub)
                    } else {
                        Reaction::Ignore
                    }
                } else if !is_root {
                    Reaction::Focus(w)
                } else {
                    Reaction::Ignore
                }
            },
            WindowSystemEvent::ButtonReleased => {
                if facts.dragging {
                    Reaction::EndDrag
                } else {
                    Reaction::Ignore
                }
            },
            WindowSystemEvent::KeyPressed(_, key) => {
                if facts.has_key_handler {
                    Reaction::KeyHandler(key)
                } else {
                    Reaction::Ignore
                }
            },
            WindowSystemEvent::MouseMotion(x, y) => {
                if facts.dragging {
                    Reaction::Drag(x, y)
                } else {
                    Reaction::Ignore
                }
            },
            _ => Reaction::Ignore,
        }
    }
}

} // verus!
