use crate::input::{ButtonState, Pointer, BUTTON_PRIMARY};
use crate::layout::Config;
use crate::pixels::PixelBuffer;
use crate::render::{frame_pixel, render, reports_clips, GlyphClip, GlyphMask};
use crate::surface::{Handshake, Phase};
use vstd::prelude::*;

verus! {

/// What the display connection delivered, reduced to plain values.
/// Pointer positions are whole pixels, rounded up.
#[derive(Debug, Clone, Copy, PartialEq, Eq)]
pub enum Event {
    SeatCapabilities { caps: u32 },
    ShmFormat { format: u32 },
    PointerEnter { x: usize, y: usize },
    PointerMotion { x: usize, y: usize },
    PointerLeave,
    PointerButton { button: u32, state: ButtonState },
    PointerFrame,
    Configure { serial: u32 },
    Close,
    BufferRelease,
}

/// What one pass of the loop decided; the caller carries it out in this
/// order: damage the whole window if `redrawn`, print the label of
/// `selected`, attach and commit the buffer if `present`.
pub struct Step {
    pub redrawn: bool,
    pub selected: Option<usize>,
    pub present: bool,
    pub clips: Vec<GlyphClip>,
}

/// Everything the menu knows while it runs, owned in one place.
pub struct Session {
    pub cfg: Config,
    pub masks: Vec<GlyphMask>,
    pub ptr: Pointer,
    pub surface: Handshake,
    pub buffer: PixelBuffer,
    pub seat_caps: u32,
    pub shm_formats: Vec<u32>,
    pub should_close: bool,
}

/// The pointer after one event.
pub open spec fn pointer_after(p: Pointer, ev: Event) -> Pointer {
    match ev {
        Event::PointerEnter { x, y } => Pointer { pos: Some((x, y)), ..p },
        Event::PointerMotion { x, y } => Pointer { pos: Some((x, y)), ..p },
        Event::PointerLeave => Pointer { pos: None, ..p },
        Event::PointerButton { button, state } => if button == BUTTON_PRIMARY {
            Pointer { btn: Some(state), ..p }
        } else {
            p
        },
        Event::PointerFrame => Pointer { frame: true, ..p },
        _ => p,
    }
}

/// The handshake after one event.
pub open spec fn handshake_after(h: Handshake, ev: Event) -> Handshake {
    match ev {
        Event::Configure { .. } => if h.phase == Phase::Created {
            Handshake { phase: Phase::Configured, ..h }
        } else {
            h
        },
        _ => h,
    }
}

impl Session {
    pub open spec fn wf(&self) -> bool {
        &&& self.cfg.wf()
        &&& self.masks@.len() == self.cfg.count()
        &&& self.buffer.wf()
        &&& self.buffer.width_spec() == self.cfg.window_width()
        &&& self.buffer.height_spec() == self.cfg.window_height()
    }

    /// The compositor holds the buffer only while the buffer's contents are
    /// the ones presented, and nothing has been presented before a
    /// configure was acknowledged.
    pub open spec fn presentation_ok(&self) -> bool {
        &&& self.buffer.is_locked_spec() ==> self.surface.buffer_committed
        &&& self.surface.buffer_committed ==> self.surface.configured()
    }

    /// The button under the pointer, if any.
    pub open spec fn hover(&self) -> Option<usize> {
        match self.ptr.pos {
            Some(p) => self.cfg.button_at(p.0 as int, p.1 as int),
            None => None,
        }
    }

    pub open spec fn pressed(&self) -> bool {
        self.ptr.btn == Some(ButtonState::Pressed)
    }

    /// The buffer holds the frame drawn for this focus and button state.
    pub open spec fn shows(&self, focus: Option<usize>, pressed: bool) -> bool {
        forall|x: int, y: int|
            self.buffer.in_bounds(x, y) ==> #[trigger] self.buffer.pixel(x, y) == frame_pixel(
                &self.cfg,
                focus,
                pressed,
                self.masks@,
                x,
                y,
            )
    }

    /// Starts the menu: no pointer seen, handshake not begun, and the first
    /// frame drawn into an unlocked buffer of the window's size.
    pub fn new(cfg: Config, masks: Vec<GlyphMask>) -> (r: (Session, Vec<GlyphClip>))
        requires
            cfg.wf(),
            masks@.len() == cfg.count(),
            cfg.window_width() * cfg.window_height() <= usize::MAX,
        ensures
            r.0.wf(),
            r.0.presentation_ok(),
            r.0.cfg == cfg,
            r.0.masks == masks,
            r.0.ptr == (Pointer { pos: None, btn: None, btn_prev: None, frame: false }),
            r.0.surface == (Handshake { phase: Phase::Created, buffer_committed: false }),
            !r.0.buffer.is_locked_spec(),
            r.0.shows(None, false),
            reports_clips(&cfg, masks@, r.1@),
            r.0.shm_formats@.len() == 0,
            r.0.seat_caps == 0,
            !r.0.should_close,
    {
        let (w, h) = cfg.buttons_bounds();
        let mut buffer = PixelBuffer::new(w, h);
        let clips = render(&cfg, None, false, &masks, &mut buffer);
        let s = Session {
            cfg,
            masks,
            ptr: Pointer::new(),
            surface: Handshake::new(),
            buffer,
            seat_caps: 0,
            shm_formats: Vec::new(),
            should_close: false,
        };
        (s, clips)
    }

    /// Takes one event into the state. Returns the serial to acknowledge
    /// when the event is a configure.
    pub fn handle_event(&mut self, ev: Event) -> (ack: Option<u32>)
        requires
            old(self).wf(),
        ensures
            final(self).wf(),
            old(self).presentation_ok() ==> final(self).presentation_ok(),
            final(self).cfg == old(self).cfg,
            final(self).masks == old(self).masks,
            final(self).ptr == pointer_after(old(self).ptr, ev),
            final(self).surface == handshake_after(old(self).surface, ev),
            final(self).buffer.cells() == old(self).buffer.cells(),
            final(self).buffer.is_locked_spec() == (old(self).buffer.is_locked_spec() && !(ev
                is BufferRelease)),
            final(self).should_close == (old(self).should_close || ev is Close),
            final(self).seat_caps == match ev {
                Event::SeatCapabilities { caps } => caps,
                _ => old(self).seat_caps,
            },
            final(self).shm_formats@ == match ev {
                Event::ShmFormat { format } => old(self).shm_formats@.push(format),
                _ => old(self).shm_formats@,
            },
            ack == match ev {
                Event::Configure { serial } => Some(serial),
                _ => None::<u32>,
            },
    {
        match ev {
            Event::SeatCapabilities { caps } => {
                self.seat_caps = caps;
                None
            },
            Event::ShmFormat { format } => {
                self.shm_formats.push(format);
                None
            },
            Event::PointerEnter { x, y } => {
                self.ptr.on_position(x, y);
                None
            },
            Event::PointerMotion { x, y } => {
                self.ptr.on_position(x, y);
                None
            },
            Event::PointerLeave => {
                self.ptr.on_leave();
                None
            },
            Event::PointerButton { button, state } => {
                self.ptr.on_button(button, state);
                None
            },
            Event::PointerFrame => {
                self.ptr.on_frame();
                None
            },
            Event::Configure { serial } => Some(self.surface.on_configure(serial)),
            Event::Close => {
                self.should_close = true;
                None
            },
            Event::BufferRelease => {
                self.buffer.unlock();
                None
            },
        }
    }

    /// One pass of the loop after the events were taken in. When a frame
    /// changed the button: redraw (unless the compositor holds the buffer)
    /// and, on a release over a button, select it and ask to close. Then
    /// attach and commit the buffer if the handshake allows it.
    pub fn step(&mut self) -> (r: Step)
        requires
            old(self).wf(),
        ensures
            final(self).wf(),
            old(self).presentation_ok() ==> final(self).presentation_ok(),
            final(self).cfg == old(self).cfg,
            final(self).masks == old(self).masks,
            final(self).seat_caps == old(self).seat_caps,
            final(self).shm_formats == old(self).shm_formats,
            old(self).ptr.edge_pending() ==> final(self).ptr == (Pointer {
                frame: false,
                btn_prev: old(self).ptr.btn,
                ..old(self).ptr
            }),
            !old(self).ptr.edge_pending() ==> final(self).ptr == old(self).ptr,
            r.redrawn == (old(self).ptr.edge_pending() && !old(self).buffer.is_locked_spec()),
            r.redrawn ==> final(self).shows(old(self).hover(), old(self).pressed()),
            r.redrawn ==> reports_clips(&old(self).cfg, old(self).masks@, r.clips@),
            !r.redrawn ==> final(self).buffer.cells() == old(self).buffer.cells(),
            !r.redrawn ==> r.clips@.len() == 0,
            r.selected == if old(self).ptr.edge_pending() && old(self).ptr.btn == Some(
                ButtonState::Released,
            ) {
                old(self).hover()
            } else {
                None
            },
            final(self).should_close == (old(self).should_close || r.selected is Some),
            r.present == (if r.redrawn {
                Handshake { buffer_committed: false, ..old(self).surface }
            } else {
                old(self).surface
            }).may_attach(old(self).buffer.is_locked_spec()),
            r.present ==> old(self).surface.configured() && !old(self).buffer.is_locked_spec() && (
            !old(self).surface.buffer_committed || r.redrawn),
            r.present ==> final(self).surface == (Handshake {
                phase: Phase::Committed,
                buffer_committed: true,
            }) && final(self).buffer.is_locked_spec(),
            !r.present ==> final(self).surface == (if r.redrawn {
                Handshake { buffer_committed: false, ..old(self).surface }
            } else {
                old(self).surface
            }) && final(self).buffer.is_locked_spec() == old(self).buffer.is_locked_spec(),
    {
        let edge = self.ptr.take_edge();
        let mut redrawn = false;
        let mut selected: Option<usize> = None;
        let mut clips: Vec<GlyphClip> = Vec::new();
        match edge {
            Some(btn) => {
                let pos = self.ptr.pos;
                let hover = match pos {
                    Some((x, y)) => self.cfg.in_button(x, y),
                    None => None,
                };
                if !self.buffer.is_locked() {
                    let pressed = match btn {
                        Some(ButtonState::Pressed) => true,
                        _ => false,
                    };
                    clips = render(&self.cfg, hover, pressed, &self.masks, &mut self.buffer);
                    self.surface.mark_dirty();
                    redrawn = true;
                }
                match btn {
                    Some(ButtonState::Released) => {
                        selected = hover;
                        if selected.is_some() {
                            self.should_close = true;
                        }
                    },
                    _ => {},
                }
            },
            None => {},
        }
        let ghost drawn = self.buffer;
        let present = self.surface.ready(self.buffer.is_locked());
        if present {
            self.surface.attach();
            self.buffer.lock();
            proof {
                assert forall|x: int, y: int| self.buffer.in_bounds(x, y) implies #[trigger] self.buffer.pixel(x, y)
                    == drawn.pixel(x, y) by {}
            }
        }
        Step { redrawn, selected, present, clips }
    }
}

} // verus!
