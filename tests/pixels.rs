use wl_menu::pixels::blend_max;
use wl_menu::{shm_layout, PixelBuffer, PixelError, ShmLayout};

#[test]
fn new_grid_is_transparent_and_unlocked() {
    let b = PixelBuffer::new(3, 2);
    assert_eq!((b.width(), b.height()), (3, 2));
    assert!(!b.is_locked());
    assert_eq!(b.pixels().len(), 6);
    assert!(b.pixels().iter().all(|p| *p == 0));
}

#[test]
fn get_and_set_refuse_out_of_bounds() {
    let mut b = PixelBuffer::new(3, 2);
    for (x, y) in [(3, 0), (0, 2), (3, 2), (usize::MAX, 0), (0, usize::MAX)] {
        assert_eq!(b.get(x, y), None);
        assert_eq!(b.set(x, y, 7), Err(PixelError::OutOfBounds));
    }
    assert!(b.pixels().iter().all(|p| *p == 0));
}

#[test]
fn set_writes_one_cell_row_major() {
    let mut b = PixelBuffer::new(3, 2);
    assert_eq!(b.set(2, 1, 0xabcd), Ok(()));
    assert_eq!(b.get(2, 1), Some(0xabcd));
    assert_eq!(b.get(1, 2 - 1), Some(0));
    assert_eq!(b.pixels()[5], 0xabcd);
}

#[test]
fn set_is_refused_while_locked() {
    let mut b = PixelBuffer::new(2, 2);
    b.lock();
    assert!(b.is_locked());
    assert_eq!(b.set(0, 0, 1), Err(PixelError::Locked));
    assert_eq!(b.set(5, 0, 1), Err(PixelError::OutOfBounds));
    assert_eq!(b.get(0, 0), Some(0));
    b.unlock();
    assert_eq!(b.set(0, 0, 1), Ok(()));
    assert_eq!(b.get(0, 0), Some(1));
}

#[test]
fn blend_raises_colour_bytes_and_keeps_alpha() {
    assert_eq!(blend_max(0x8010_2030, 0x25), 0x8025_2530);
    assert_eq!(blend_max(0x0000_0000, 0xff), 0x00ff_ffff);
    assert_eq!(blend_max(0x12ff_ffff, 0x00), 0x12ff_ffff);
    assert_eq!(blend_max(0xdd22_2222, 0x10), 0xdd22_2222);
}

#[test]
fn shm_layout_counts_four_bytes_a_pixel() {
    assert_eq!(shm_layout(23, 12), Some(ShmLayout { stride: 92, size: 1104 }));
    assert_eq!(shm_layout(0, 5), Some(ShmLayout { stride: 0, size: 0 }));
}

#[test]
fn shm_layout_refuses_what_i32_cannot_hold() {
    assert_eq!(shm_layout(0x2000_0000, 1), None);
    assert_eq!(shm_layout(0x1000_0000, 2), None);
    assert_eq!(shm_layout(usize::MAX, 0), None);
    assert_eq!(shm_layout(0x1fff_ffff, 1), Some(ShmLayout { stride: 0x7fff_fffc, size: 0x7fff_fffc }));
}
