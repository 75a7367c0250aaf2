use wl_menu::{Capability, RegistryBuilder};

#[test]
fn complete_builder_gives_registry() {
    let mut b: RegistryBuilder<u8, u16, u32, u64> = RegistryBuilder::new();
    assert!(!b.is_complete());
    b.compositor = Some(1);
    b.seat = Some(2);
    b.shm = Some(3);
    b.wm_base = Some(4);
    assert!(b.is_complete());
    let r = b.finish().unwrap();
    assert_eq!((r.compositor, r.seat, r.shm, r.wm_base), (1, 2, 3, 4));
}

#[test]
fn incomplete_builder_lists_what_is_missing() {
    let mut b: RegistryBuilder<u8, u8, u8, u8> = RegistryBuilder::new();
    b.seat = Some(0);
    assert_eq!(b.missing(), vec![Capability::Compositor, Capability::Shm, Capability::WmBase]);
    let e = b.finish().err().unwrap();
    assert_eq!(e.missing, vec![Capability::Compositor, Capability::Shm, Capability::WmBase]);
}

#[test]
fn bound_versions() {
    assert_eq!(Capability::Compositor.version(), 4);
    assert_eq!(Capability::Seat.version(), 5);
    assert_eq!(Capability::Shm.version(), 1);
    assert_eq!(Capability::WmBase.version(), 2);
}
