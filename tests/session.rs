use wl_menu::input::BUTTON_PRIMARY;
use wl_menu::{ButtonState, Config, Event, GlyphMask, Phase, Session};

const NB: u32 = 0xdd22_2222;
const SB: u32 = 0xffff_9900;

fn session() -> Session {
    let cfg = Config {
        options: vec!["shutdown".to_string(), "restart".to_string()],
        nf: 0xffdd_dddd,
        nb: NB,
        sf: 0xffdd_dddd,
        sb: SB,
        button_dim: (10, 10),
        border: 1,
    };
    let masks = (0..2).map(|_| GlyphMask { width: 0, height: 0, samples: vec![] }).collect();
    let (s, clips) = Session::new(cfg, masks);
    assert_eq!(clips.len(), 2);
    s
}

fn feed(s: &mut Session, events: &[Event]) {
    for ev in events {
        s.handle_event(*ev);
    }
}

fn press(x: usize, y: usize) -> [Event; 3] {
    [
        Event::PointerMotion { x, y },
        Event::PointerButton { button: BUTTON_PRIMARY, state: ButtonState::Pressed },
        Event::PointerFrame,
    ]
}

fn release() -> [Event; 2] {
    [Event::PointerButton { button: BUTTON_PRIMARY, state: ButtonState::Released }, Event::PointerFrame]
}

/// Configures the window, presents the first frame and takes the buffer back.
fn presented() -> Session {
    let mut s = session();
    assert_eq!(s.handle_event(Event::Configure { serial: 7 }), Some(7));
    assert!(s.step().present);
    s.handle_event(Event::BufferRelease);
    s
}

#[test]
fn first_frame_is_drawn_at_start() {
    let s = session();
    assert_eq!(s.buffer.get(1, 1), Some(NB));
    assert_eq!(s.buffer.get(0, 0), Some(0x2222_2222));
    assert_eq!(s.surface.phase, Phase::Created);
    assert!(!s.should_close);
}

#[test]
fn nothing_is_attached_before_configure() {
    let mut s = session();
    let step = s.step();
    assert!(!step.present);
    feed(&mut s, &press(5, 5));
    let step = s.step();
    assert!(step.redrawn);
    assert!(!step.present);
    assert!(!s.buffer.is_locked());
}

#[test]
fn configure_is_acknowledged_with_its_serial() {
    let mut s = session();
    assert_eq!(s.handle_event(Event::Configure { serial: 42 }), Some(42));
    assert_eq!(s.surface.phase, Phase::Configured);
    assert_eq!(s.handle_event(Event::PointerFrame), None);
}

#[test]
fn one_attach_until_the_buffer_is_released() {
    let mut s = session();
    s.handle_event(Event::Configure { serial: 1 });
    let first = s.step();
    assert!(first.present);
    assert!(s.buffer.is_locked());
    assert!(s.surface.buffer_committed);
    assert_eq!(s.surface.phase, Phase::Committed);
    assert!(!s.step().present);
    // A press while the compositor holds the buffer cannot redraw.
    feed(&mut s, &press(5, 5));
    let held = s.step();
    assert!(!held.redrawn);
    assert!(!held.present);
    s.handle_event(Event::BufferRelease);
    // The frame was already acted on, and nothing is dirty.
    assert!(!s.step().present);
}

#[test]
fn press_then_release_on_a_button_selects_it() {
    let mut s = presented();
    feed(&mut s, &press(15, 5));
    let step = s.step();
    assert!(step.redrawn);
    assert_eq!(step.selected, None);
    assert!(step.present);
    assert_eq!(s.buffer.get(15, 5), Some(SB));
    assert_eq!(s.buffer.get(5, 5), Some(NB));
    s.handle_event(Event::BufferRelease);
    feed(&mut s, &release());
    let step = s.step();
    assert!(step.redrawn);
    assert_eq!(step.selected, Some(1));
    assert_eq!(s.cfg.options[step.selected.unwrap()], "restart");
    assert!(s.should_close);
    assert_eq!(s.buffer.get(15, 5), Some(NB));
}

#[test]
fn release_outside_every_button_selects_nothing() {
    let mut s = presented();
    feed(&mut s, &press(5, 5));
    assert!(s.step().redrawn);
    s.handle_event(Event::BufferRelease);
    s.handle_event(Event::PointerMotion { x: 11, y: 5 });
    feed(&mut s, &release());
    let step = s.step();
    assert!(step.redrawn);
    assert_eq!(step.selected, None);
    assert!(!s.should_close);
}

#[test]
fn release_after_leaving_selects_nothing() {
    let mut s = presented();
    feed(&mut s, &press(5, 5));
    s.step();
    s.handle_event(Event::PointerLeave);
    feed(&mut s, &release());
    assert_eq!(s.step().selected, None);
    assert!(!s.should_close);
}

#[test]
fn only_the_primary_button_counts() {
    let mut s = presented();
    feed(
        &mut s,
        &[
            Event::PointerEnter { x: 5, y: 5 },
            Event::PointerButton { button: 0x111, state: ButtonState::Pressed },
            Event::PointerFrame,
        ],
    );
    let step = s.step();
    assert!(!step.redrawn);
    assert_eq!(s.ptr.btn, None);
}

#[test]
fn button_change_waits_for_the_frame() {
    let mut s = presented();
    s.handle_event(Event::PointerMotion { x: 5, y: 5 });
    s.handle_event(Event::PointerButton { button: BUTTON_PRIMARY, state: ButtonState::Pressed });
    assert!(!s.step().redrawn);
    s.handle_event(Event::PointerFrame);
    assert!(s.step().redrawn);
    assert!(!s.ptr.frame);
    s.handle_event(Event::PointerFrame);
    assert!(!s.step().redrawn);
}

#[test]
fn close_request_ends_the_session() {
    let mut s = session();
    s.handle_event(Event::Close);
    assert!(s.should_close);
}

#[test]
fn advertisements_are_recorded() {
    let mut s = session();
    s.handle_event(Event::ShmFormat { format: 0 });
    s.handle_event(Event::ShmFormat { format: 1 });
    s.handle_event(Event::SeatCapabilities { caps: 3 });
    assert_eq!(s.shm_formats, vec![0, 1]);
    assert_eq!(s.seat_caps, 3);
}
