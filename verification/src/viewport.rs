//! What the platform layer remembers of each window between events.
use vstd::prelude::*;

verus! {

/// The position that Windows reports for a minimized window, on both axes.
pub const MINIMIZED_POS: i32 = -32000;

/// The state of one window: whether it is minimized or focused, and its
/// last known size and position in pixels.
#[derive(Debug, Clone, Copy, PartialEq, Eq)]
pub struct Cache {
    pub minimized: bool,
    pub focus: bool,
    pub size: Option<(u32, u32)>,
    pub pos: Option<(i32, i32)>,
}

impl Cache {
    /// A focused window, neither minimized nor of known size or position.
    pub fn new() -> (r: Self)
        ensures
            !r.minimized,
            r.focus,
            r.size is None,
            r.pos is None,
    {
        Cache { minimized: false, focus: true, size: None, pos: None }
    }

    /// Remembers the window's size.
    pub fn set_size(&mut self, width: u32, height: u32)
        ensures
            *final(self) == (Cache { size: Some((width, height)), ..*old(self) }),
    {
        self.size = Some((width, height));
    }

    /// Remembers the window's position.
    pub fn set_pos(&mut self, x: i32, y: i32)
        ensures
            *final(self) == (Cache { pos: Some((x, y)), ..*old(self) }),
    {
        self.pos = Some((x, y));
    }

    /// A resize event: a window resized to nothing is minimized; any other
    /// size is remembered. Returns whether the viewport must be told of the
    /// new size.
    pub fn resized(&mut self, width: u32, height: u32) -> (r: bool)
        ensures
            r == !(width == 0 && height == 0),
            final(self).minimized == !r,
            final(self).size == (if r {
                Some((width, height))
            } else {
                old(self).size
            }),
            final(self).focus == old(self).focus,
            final(self).pos == old(self).pos,
    {
        if width == 0 && height == 0 {
            self.minimized = true;
            false
        } else {
            self.minimized = false;
            self.set_size(width, height);
            true
        }
    }

    /// A move event. On Windows (`windows`) a window moved to the minimized
    /// spot is minimized, and any other position means it is not; elsewhere
    /// the event says nothing of it. The position is remembered unless the
    /// window is minimized.
    pub fn moved(&mut self, x: i32, y: i32, windows: bool)
        ensures
            final(self).minimized == (if windows {
                x == MINIMIZED_POS && y == MINIMIZED_POS
            } else {
                old(self).minimized
            }),
            final(self).pos == (if final(self).minimized {
                old(self).pos
            } else {
                Some((x, y))
            }),
            final(self).focus == old(self).focus,
            final(self).size == old(self).size,
    {
        if windows {
            self.minimized = x == MINIMIZED_POS && y == MINIMIZED_POS;
        }
        if !self.minimized {
            self.set_pos(x, y);
        }
    }

    /// A focus event.
    pub fn focused(&mut self, focus: bool)
        ensures
            *final(self) == (Cache { focus, ..*old(self) }),
    {
        self.focus = focus;
    }
}

} // verus!
