//! Reading what the X server reports into the library's types: events,
//! the screens of a Xinerama setup, and the size hints of a window. The
//! fields are copied out of the server's structures by the caller; the
//! decisions on them are taken here.
use vstd::prelude::*;
use crate::window_system::{
    KeyCommand,
    KeyModifiers,
    MouseCommand,
    Rectangle,
    SizeHint,
    Window,
    WindowChanges,
    WindowSystemEvent,
    ALLMASKS,
};

verus! {

/// X event type codes.
pub const KEY_PRESS: i32 = 2;
pub const BUTTON_PRESS: i32 = 4;
pub const BUTTON_RELEASE: i32 = 5;
pub const MOTION_NOTIFY: i32 = 6;
pub const ENTER_NOTIFY: i32 = 7;
pub const LEAVE_NOTIFY: i32 = 8;
pub const DESTROY_NOTIFY: i32 = 17;
pub const UNMAP_NOTIFY: i32 = 18;
pub const MAP_REQUEST: i32 = 20;
pub const CONFIGURE_NOTIFY: i32 = 22;
pub const CONFIGURE_REQUEST: i32 = 23;
pub const CLIENT_MESSAGE: i32 = 33;

/// The detail of a crossing event into or out of a window's own child.
pub const NOTIFY_INFERIOR: i32 = 2;

/// The modifier bits of a key press that count: all but the num lock.
pub const KEY_STATE_MASK: u32 = 0xef;

/// The flags of the size hints that say the minimum and the maximum size
/// are given.
pub const P_MIN_SIZE: i64 = 16;
pub const P_MAX_SIZE: i64 = 32;

/// The fields of an X event that the window manager reads. Which of them
/// mean something depends on `kind`.
#[derive(Clone, Copy, Debug)]
pub struct RawEvent {
    pub kind: i32,
    /// The window the event is about.
    pub window: Window,
    /// The child window under the pointer, for button events.
    pub subwindow: Window,
    /// The event was sent by a client rather than by the server.
    pub send_event: bool,
    pub detail: i32,
    /// The modifier and button state.
    pub state: u32,
    pub button: u32,
    /// The key symbol of the pressed key.
    pub keysym: u64,
    pub x_root: i32,
    pub y_root: i32,
    pub x: i32,
    pub y: i32,
    pub width: i32,
    pub height: i32,
    pub border_width: i32,
    /// The sibling window of a configure request.
    pub above: Window,
    pub value_mask: u64,
    pub message_type: u64,
    pub format: i32,
    pub data: [i32; 5],
}

/// The geometry a configure request asks for; the coordinates are read as
/// `u32` the way an `as` cast reads them.
pub open spec fn requested_changes(e: RawEvent) -> WindowChanges {
    WindowChanges {
        x: e.x as u32,
        y: e.y as u32,
        width: e.width as u32,
        height: e.height as u32,
        border_width: e.border_width as u32,
        sibling: e.above,
        stack_mode: e.detail as u32,
    }
}

/// The event of the library that an X event stands for: a client message,
/// a configure request or notification, a window that asks to be mapped,
/// was unmapped (synthetic when a client sent it) or destroyed, the pointer
/// entering or leaving a window other than by moving to one of its
/// children, a button pressed or released, the pointer moved, or a key
/// pressed with the modifiers other than num lock. Anything else is
/// unknown.
pub open spec fn decoded(e: RawEvent) -> WindowSystemEvent {
    if e.kind == CLIENT_MESSAGE {
        WindowSystemEvent::ClientMessageEvent(e.window, e.message_type, e.format, e.data)
    } else if e.kind == CONFIGURE_REQUEST {
        WindowSystemEvent::ConfigurationRequest(e.window, requested_changes(e), e.value_mask)
    } else if e.kind == CONFIGURE_NOTIFY {
        WindowSystemEvent::ConfigurationNotification(e.window)
    } else if e.kind == MAP_REQUEST {
        WindowSystemEvent::WindowCreated(e.window)
    } else if e.kind == UNMAP_NOTIFY {
        WindowSystemEvent::WindowUnmapped(e.window, e.send_event)
    } else if e.kind == DESTROY_NOTIFY {
        WindowSystemEvent::WindowDestroyed(e.window)
    } else if e.kind == ENTER_NOTIFY {
        if e.detail != NOTIFY_INFERIOR {
            WindowSystemEvent::Enter(e.window)
        } else {
            WindowSystemEvent::UnknownEvent
        }
    } else if e.kind == LEAVE_NOTIFY {
        if e.detail != NOTIFY_INFERIOR {
            WindowSystemEvent::Leave(e.window)
        } else {
            WindowSystemEvent::UnknownEvent
        }
    } else if e.kind == BUTTON_PRESS {
        WindowSystemEvent::ButtonPressed(
            e.window,
            e.subwindow,
            MouseCommand { mask: KeyModifiers { bits: e.state & KEY_STATE_MASK & ALLMASKS }, button: e.button },
            e.x_root as u32,
            e.y_root as u32,
        )
    } else if e.kind == BUTTON_RELEASE {
        WindowSystemEvent::ButtonReleased
    } else if e.kind == MOTION_NOTIFY {
        WindowSystemEvent::MouseMotion(e.x_root as u32, e.y_root as u32)
    } else if e.kind == KEY_PRESS {
        WindowSystemEvent::KeyPressed(
            e.window,
            KeyCommand { mask: KeyModifiers { bits: e.state & KEY_STATE_MASK & ALLMASKS }, key: e.keysym },
        )
    } else {
        WindowSystemEvent::UnknownEvent
    }
}

/// What each kind of X event is read as. A motion event gives the pointer's
/// root position, x first; a button press gives the window, the child under
/// the pointer, the button with the modifiers other than num lock, and the
/// pointer's root position, x first; a key press gives the window and the
/// key with those modifiers; an unmap notification is synthetic exactly
/// when a client sent it; crossing into or out of a window's own child is
/// no event; a configure request asks for the event's geometry, sibling and
/// stacking mode under its value mask.
pub proof fn lemma_decoded_kinds(e: RawEvent)
    ensures
        e.kind == MOTION_NOTIFY ==> decoded(e) == WindowSystemEvent::MouseMotion(e.x_root as u32, e.y_root as u32),
        e.kind == BUTTON_PRESS ==> decoded(e) == WindowSystemEvent::ButtonPressed(
            e.window,
            e.subwindow,
            MouseCommand { mask: KeyModifiers { bits: e.state & KEY_STATE_MASK & ALLMASKS }, button: e.button },
            e.x_root as u32,
            e.y_root as u32,
        ),
        e.kind == BUTTON_RELEASE ==> decoded(e) == WindowSystemEvent::ButtonReleased,
        e.kind == KEY_PRESS ==> decoded(e) == WindowSystemEvent::KeyPressed(
            e.window,
            KeyCommand { mask: KeyModifiers { bits: e.state & KEY_STATE_MASK & ALLMASKS }, key: e.keysym },
        ),
        e.kind == ENTER_NOTIFY ==> decoded(e) == if e.detail == NOTIFY_INFERIOR {
            WindowSystemEvent::UnknownEvent
        } else {
            WindowSystemEvent::Enter(e.window)
        },
        e.kind == LEAVE_NOTIFY ==> decoded(e) == if e.detail == NOTIFY_INFERIOR {
            WindowSystemEvent::UnknownEvent
        } else {
            WindowSystemEvent::Leave(e.window)
        },
        e.kind == DESTROY_NOTIFY ==> decoded(e) == WindowSystemEvent::WindowDestroyed(e.window),
        e.kind == UNMAP_NOTIFY ==> decoded(e) == WindowSystemEvent::WindowUnmapped(e.window, e.send_event),
        e.kind == MAP_REQUEST ==> decoded(e) == WindowSystemEvent::WindowCreated(e.window),
        e.kind == CONFIGURE_NOTIFY ==> decoded(e) == WindowSystemEvent::ConfigurationNotification(e.window),
        e.kind == CONFIGURE_REQUEST ==> decoded(e) == WindowSystemEvent::ConfigurationRequest(
            e.window,
            WindowChanges {
                x: e.x as u32,
                y: e.y as u32,
                width: e.width as u32,
                height: e.height as u32,
                border_width: e.border_width as u32,
                sibling: e.above,
                stack_mode: e.detail as u32,
            },
            e.value_mask,
        ),
        e.kind == CLIENT_MESSAGE ==> decoded(e) == WindowSystemEvent::ClientMessageEvent(
            e.window,
            e.message_type,
            e.format,
            e.data,
        ),
        e.kind != MOTION_NOTIFY && e.kind != BUTTON_PRESS && e.kind != BUTTON_RELEASE && e.kind != KEY_PRESS
            && e.kind != ENTER_NOTIFY && e.kind != LEAVE_NOTIFY && e.kind != DESTROY_NOTIFY && e.kind
            != UNMAP_NOTIFY && e.kind != MAP_REQUEST && e.kind != CONFIGURE_NOTIFY && e.kind
            != CONFIGURE_REQUEST && e.kind != CLIENT_MESSAGE ==> decoded(e) == WindowSystemEvent::UnknownEvent,
{
}

/// A pointer position read off an event is its root position, x first.
pub proof fn lemma_decoded_pointer(e: RawEvent)
    ensures
        decoded(e) matches WindowSystemEvent::MouseMotion(x, y) ==> x == e.x_root as u32 && y == e.y_root as u32,
        decoded(e) matches WindowSystemEvent::ButtonPressed(_, _, _, x, y) ==> x == e.x_root as u32 && y
            == e.y_root as u32,
{
}

/// The event of the library that the X event stands for; see `decoded`.
pub fn decode_event(e: &RawEvent) -> (r: WindowSystemEvent)
    ensures
        r == decoded(*e),
{
    if e.kind == CLIENT_MESSAGE {
        WindowSystemEvent::ClientMessageEvent(e.window, e.message_type, e.format, e.data)
    } else if e.kind == CONFIGURE_REQUEST {
        let changes = WindowChanges {
            x: e.x as u32,
            y: e.y as u32,
            width: e.width as u32,
            height: e.height as u32,
            border_width: e.border_width as u32,
            sibling: e.above,
            stack_mode: e.detail as u32,
        };
        WindowSystemEvent::ConfigurationRequest(e.window, changes, e.value_mask)
    } else if e.kind == CONFIGURE_NOTIFY {
        WindowSystemEvent::ConfigurationNotification(e.window)
    } else if e.kind == MAP_REQUEST {
        WindowSystemEvent::WindowCreated(e.window)
    } else if e.kind == UNMAP_NOTIFY {
        WindowSystemEvent::WindowUnmapped(e.window, e.send_event)
    } else if e.kind == DESTROY_NOTIFY {
        WindowSystemEvent::WindowDestroyed(e.window)
    } else if e.kind == ENTER_NOTIFY {
        if e.detail != NOTIFY_INFERIOR {
            WindowSystemEvent::Enter(e.window)
        } else {
            WindowSystemEvent::UnknownEvent
        }
    } else if e.kind == LEAVE_NOTIFY {
        if e.detail != NOTIFY_INFERIOR {
            WindowSystemEvent::Leave(e.window)
        } else {
            WindowSystemEvent::UnknownEvent
        }
    } else if e.kind == BUTTON_PRESS {
        let mask = KeyModifiers::from_bits_truncate(e.state & KEY_STATE_MASK);
        WindowSystemEvent::ButtonPressed(
            e.window,
            e.subwindow,
            MouseCommand::new(e.button, mask),
            e.x_root as u32,
            e.y_root as u32,
        )
    } else if e.kind == BUTTON_RELEASE {
        WindowSystemEvent::ButtonReleased
    } else if e.kind == MOTION_NOTIFY {
        WindowSystemEvent::MouseMotion(e.x_root as u32, e.y_root as u32)
    } else if e.kind == KEY_PRESS {
        let mask = KeyModifiers::from_bits_truncate(e.state & KEY_STATE_MASK);
        WindowSystemEvent::KeyPressed(e.window, KeyCommand::new(e.keysym, mask))
    } else {
        WindowSystemEvent::UnknownEvent
    }
}

/// The screen of a Xinerama setup: its corner and its size.
#[derive(Clone, Copy, Debug)]
pub struct ScreenInfo {
    pub x_org: i16,
    pub y_org: i16,
    pub width: i16,
    pub height: i16,
}

/// The rectangle of a Xinerama screen; the size is read as `u32` the way
/// an `as` cast reads an `i16`.
pub open spec fn screen_rectangle(s: ScreenInfo) -> Rectangle {
    Rectangle(s.x_org as i32, s.y_org as i32, s.width as u32, s.height as u32)
}

/// The screens to lay windows out on: those Xinerama reports, or, when it
/// reports none, the whole display.
pub fn screen_rectangles(infos: &Vec<ScreenInfo>, display_width: u32, display_height: u32) -> (r: Vec<
    Rectangle,
>)
    ensures
        infos@.len() == 0 ==> r@ == seq![Rectangle(0, 0, display_width, display_height)],
        infos@.len() > 0 ==> r@ == infos@.map_values(|s: ScreenInfo| screen_rectangle(s)),
{
    if infos.len() == 0 {
        return vec![Rectangle(0, 0, display_width, display_height)];
    }
    let mut r: Vec<Rectangle> = Vec::new();
    let mut i: usize = 0;
    while i < infos.len()
        invariant
            i <= infos.len(),
            r@ == infos@.subrange(0, i as int).map_values(|s: ScreenInfo| screen_rectangle(s)),
        decreases infos.len() - i,
    {
        let s = infos[i];
        r.push(Rectangle(s.x_org as i32, s.y_org as i32, s.width as u32, s.height as u32));
        i = i + 1;
        assert(infos@.subrange(0, i as int).map_values(|s: ScreenInfo| screen_rectangle(s)) =~= infos@.subrange(
            0,
            i - 1,
        ).map_values(|s: ScreenInfo| screen_rectangle(s)).push(screen_rectangle(s)));
    }
    assert(infos@.subrange(0, infos@.len() as int) =~= infos@);
    r
}

/// The minimum and maximum size of a window's size hints: each is given
/// when its flag is set; the numbers are read as `u32` the way an `as` cast
/// reads them.
pub fn size_hint_from(flags: i64, min_width: i32, min_height: i32, max_width: i32, max_height: i32) -> (r:
    SizeHint)
    ensures
        r.min_size == if flags & P_MIN_SIZE != 0 {
            Some((min_width as u32, min_height as u32))
        } else {
            None
        },
        r.max_size == if flags & P_MAX_SIZE != 0 {
            Some((max_width as u32, max_height as u32))
        } else {
            None
        },
{
    let min_size = if flags & P_MIN_SIZE != 0 {
        Some((min_width as u32, min_height as u32))
    } else {
        None
    };
    let max_size = if flags & P_MAX_SIZE != 0 {
        Some((max_width as u32, max_height as u32))
    } else {
        None
    };
    SizeHint { min_size, max_size }
}

} // verus!
