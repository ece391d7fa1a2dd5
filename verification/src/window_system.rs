use vstd::prelude::*;

verus! {

/// An X11 window id.
pub type Window = u64;

/// A rectangle given by its top left corner, its width and its height.
#[derive(Debug, Clone, Copy, PartialEq, Eq, Structural)]
pub struct Rectangle(pub i32, pub i32, pub u32, pub u32);

/// `a + b`, where `b` is a width or height read as an `i32` the way a Rust
/// `as` cast reads it.
pub open spec fn offset(a: i32, b: u32) -> int {
    a + (b as i32)
}

/// The sum stays within the range of an `i32`.
pub open spec fn fits_i32(v: int) -> bool {
    i32::MIN <= v <= i32::MAX
}

impl Rectangle {
    /// Both far edges of the rectangle can be computed without overflow.
    pub open spec fn edges_fit(self) -> bool {
        fits_i32(offset(self.0, self.2)) && fits_i32(offset(self.1, self.3))
    }

    /// The point lies in the rectangle, edges included.
    pub open spec fn spec_is_inside(self, x: i32, y: i32) -> bool {
        x >= self.0 && x <= offset(self.0, self.2) && y >= self.1 && y <= offset(self.1, self.3)
    }

    /// The two rectangles share an area of positive size.
    pub open spec fn spec_overlaps(self, b: Rectangle) -> bool {
        !(b.0 >= offset(self.0, self.2) || offset(b.0, b.2) <= self.0 || b.1 >= offset(self.1, self.3)
            || offset(b.1, b.3) <= self.1)
    }

    /// Whether the point lies in the rectangle, edges included.
    pub fn is_inside(&self, x: i32, y: i32) -> (r: bool)
        requires
            self.edges_fit(),
        ensures
            r == self.spec_is_inside(x, y),
    {
        let Rectangle(rx, ry, rw, rh) = *self;
        x >= rx && x <= rx + rw as i32 && y >= ry && y <= ry + rh as i32
    }

    /// Whether the two rectangles share an area of positive size.
    pub fn overlaps(&self, other: &Rectangle) -> (r: bool)
        requires
            self.edges_fit(),
            other.edges_fit(),
        ensures
            r == self.spec_overlaps(*other),
    {
        let Rectangle(ax, ay, aw, ah) = *self;
        let Rectangle(bx, by, bw, bh) = *other;
        !(bx >= ax + aw as i32 || bx + bw as i32 <= ax || by >= ay + ah as i32 || by + bh as i32 <= ay)
    }
}

/// The geometry and stacking that a window asks for.
#[derive(Clone, Copy, Debug)]
pub struct WindowChanges {
    pub x: u32,
    pub y: u32,
    pub width: u32,
    pub height: u32,
    pub border_width: u32,
    pub sibling: Window,
    pub stack_mode: u32,
}

/// The modifier keys held during a key or button press, as the bit mask
/// of the X11 protocol.
#[derive(Copy, Clone, PartialEq, Eq, PartialOrd, Ord, Debug)]
pub struct KeyModifiers {
    pub bits: u32,
}

pub const NONEMASK: u32 = 0;
pub const SHIFTMASK: u32 = 1;
pub const LOCKMASK: u32 = 2;
pub const CONTROLMASK: u32 = 4;
pub const MOD1MASK: u32 = 8;
pub const MOD2MASK: u32 = 16;
pub const MOD3MASK: u32 = 32;
pub const MOD4MASK: u32 = 64;
pub const MOD5MASK: u32 = 128;

/// All modifier bits that have a name.
pub const ALLMASKS: u32 = 255;

impl KeyModifiers {
    /// The modifiers of the given mask; bits without a name are dropped.
    pub fn from_bits_truncate(bits: u32) -> (r: KeyModifiers)
        ensures
            r.bits == bits & ALLMASKS,
    {
        KeyModifiers { bits: bits & ALLMASKS }
    }

    /// The modifiers held in either of the two sets.
    pub fn union(&self, other: KeyModifiers) -> (r: KeyModifiers)
        ensures
            r.bits == self.bits | other.bits,
    {
        KeyModifiers { bits: self.bits | other.bits }
    }

    /// Every modifier of `other` is held in `self`.
    pub fn contains(&self, other: KeyModifiers) -> (r: bool)
        ensures
            r == (self.bits & other.bits == other.bits),
    {
        self.bits & other.bits == other.bits
    }

    /// The bit mask of the modifiers.
    pub fn bits(&self) -> (r: u32)
        ensures
            r == self.bits,
    {
        self.bits
    }

    /// The bit mask of the modifiers.
    pub fn get_mask(&self) -> (r: u32)
        ensures
            r == self.bits,
    {
        self.bits
    }
}

/// Represents a keyboard input
/// with an abstracted modifier mask
/// and the key represented as its key code
#[derive(Copy, Clone, PartialEq, Eq, PartialOrd, Ord, Debug)]
pub struct KeyCommand {
    pub mask: KeyModifiers,
    pub key: u64,
}

impl KeyCommand {
    /// The key with the modifiers.
    pub fn new(key: u64, mask: KeyModifiers) -> (r: KeyCommand)
        ensures
            r.key == key,
            r.mask == mask,
    {
        KeyCommand { key, mask }
    }
}

pub type MouseButton = u32;

pub const BUTTON1: MouseButton = 1;
pub const BUTTON2: MouseButton = 2;
pub const BUTTON3: MouseButton = 3;
pub const BUTTON4: MouseButton = 4;
pub const BUTTON5: MouseButton = 5;

/// A mouse button pressed with the modifiers held.
#[derive(Copy, Clone, PartialEq, Eq, PartialOrd, Ord, Debug)]
pub struct MouseCommand {
    pub mask: KeyModifiers,
    pub button: MouseButton,
}

impl MouseCommand {
    /// The button with the modifiers.
    pub fn new(button: MouseButton, mask: KeyModifiers) -> (r: MouseCommand)
        ensures
            r.button == button,
            r.mask == mask,
    {
        MouseCommand { button, mask }
    }
}

/// The minimum and maximum size a window asks for.
#[derive(Clone, Copy, PartialEq, Eq)]
pub struct SizeHint {
    pub min_size: Option<(u32, u32)>,
    pub max_size: Option<(u32, u32)>,
}

impl SizeHint {
    /// A window whose minimum and maximum sizes are both given and equal
    /// cannot be resized, so it is floated rather than tiled.
    pub fn is_fixed_size(&self) -> (r: bool)
        ensures
            r == (self.min_size is Some && self.min_size == self.max_size),
    {
        match (self.min_size, self.max_size) {
            (Some((a, b)), Some((c, d))) => a == c && b == d,
            _ => false,
        }
    }
}

/// What the window system reports.
#[derive(Clone, Copy, Debug)]
pub enum WindowSystemEvent {
    ConfigurationNotification(Window),
    ConfigurationRequest(Window, WindowChanges, u64),
    /// A window has been created and needs to be managed.
    WindowCreated(Window),
    /// A window has been destroyed and needs to be unmanaged.
    WindowDestroyed(Window),
    WindowUnmapped(Window, bool),
    /// The pointer has entered a window's area. Mostly used
    /// for mousefollow focus.
    Enter(Window),
    /// The pointer has left a window's area. Mostly used
    /// for mousefollow focus.
    Leave(Window),
    ButtonPressed(Window, Window, MouseCommand, u32, u32),
    ButtonReleased,
    MouseMotion(u32, u32),
    KeyPressed(Window, KeyCommand),
    ClientMessageEvent(Window, u64, i32, [i32; 5]),
    PropertyMessageEvent(bool, Window, u64),
    /// The underlying event by xlib or wayland is unknown
    /// and can be ignored.
    UnknownEvent,
}

} // verus!
