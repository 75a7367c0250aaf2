use vstd::prelude::*;

verus! {

/// Linux input code of the primary (left) pointer button.
pub const BUTTON_PRIMARY: u32 = 0x110;

#[derive(Debug, Clone, Copy, PartialEq, Eq, Structural)]
pub enum ButtonState {
    Pressed,
    Released,
}

/// Pointer state gathered from input events. Positions are whole pixels
/// (rounded up); `None` while the pointer is not over the window.
/// `btn_prev` is the button state as of the last frame that was acted on.
#[derive(Debug, Clone, Copy)]
pub struct Pointer {
    pub pos: Option<(usize, usize)>,
    pub btn: Option<ButtonState>,
    pub btn_prev: Option<ButtonState>,
    pub frame: bool,
}

/// Equality of two optional button states.
pub fn same_state(a: Option<ButtonState>, b: Option<ButtonState>) -> (r: bool)
    ensures
        r == (a == b),
{
    match (a, b) {
        (None, None) => true,
        (Some(ButtonState::Pressed), Some(ButtonState::Pressed)) => true,
        (Some(ButtonState::Released), Some(ButtonState::Released)) => true,
        _ => false,
    }
}

impl Pointer {
    /// No position, no button seen, no frame pending.
    pub fn new() -> (r: Pointer)
        ensures
            r.pos is None,
            r.btn is None,
            r.btn_prev is None,
            !r.frame,
    {
        Pointer { pos: None, btn: None, btn_prev: None, frame: false }
    }

    /// A frame has ended in which the button changed since the last frame acted on.
    pub open spec fn edge_pending(&self) -> bool {
        self.frame && self.btn != self.btn_prev
    }

    /// The pointer entered the window, or moved in it.
    pub fn on_position(&mut self, x: usize, y: usize)
        ensures
            *final(self) == (Pointer { pos: Some((x, y)), ..*old(self) }),
    {
        self.pos = Some((x, y));
    }

    /// The pointer left the window.
    pub fn on_leave(&mut self)
        ensures
            *final(self) == (Pointer { pos: None, ..*old(self) }),
    {
        self.pos = None;
    }

    /// A button changed state; only the primary button is tracked.
    pub fn on_button(&mut self, button: u32, state: ButtonState)
        ensures
            button == BUTTON_PRIMARY ==> *final(self) == (Pointer { btn: Some(state), ..*old(self) }),
            button != BUTTON_PRIMARY ==> *final(self) == *old(self),
    {
        if button == BUTTON_PRIMARY {
            self.btn = Some(state);
        }
    }

    /// The events of one input frame are complete.
    pub fn on_frame(&mut self)
        ensures
            *final(self) == (Pointer { frame: true, ..*old(self) }),
    {
        self.frame = true;
    }

    /// When a frame changed the button, consumes that frame: clears the frame
    /// flag, records the button state as acted on, and returns it.
    pub fn take_edge(&mut self) -> (r: Option<Option<ButtonState>>)
        ensures
            old(self).edge_pending() ==> r == Some(old(self).btn) && *final(self) == (Pointer {
                frame: false,
                btn_prev: old(self).btn,
                ..*old(self)
            }),
            !old(self).edge_pending() ==> r is None && *final(self) == *old(self),
    {
        if self.frame && !same_state(self.btn, self.btn_prev) {
            self.frame = false;
            self.btn_prev = self.btn;
            Some(self.btn)
        } else {
            None
        }
    }
}

} // verus!
