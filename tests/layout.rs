use wl_menu::Config;

fn config(labels: &[&str], border: usize, dim: (usize, usize)) -> Config {
    Config {
        options: labels.iter().map(|s| s.to_string()).collect(),
        nf: 0xffdd_dddd,
        nb: 0xdd22_2222,
        sf: 0xffdd_dddd,
        sb: 0xffff_9900,
        button_dim: dim,
        border,
    }
}

#[test]
fn two_buttons_window_and_rectangles() {
    let cfg = config(&["shutdown", "restart"], 1, (10, 10));
    assert!(cfg.is_valid());
    assert_eq!(cfg.buttons_bounds(), (23, 12));
    assert_eq!(cfg.button_bounds(0), (1, 11, 1, 11));
    assert_eq!(cfg.button_bounds(1), (12, 22, 1, 11));
}

#[test]
fn corner_of_each_button_hits_it() {
    let cfg = config(&["a", "b", "c", "d"], 3, (7, 5));
    for i in 0..4 {
        let (left, right, top, bottom) = cfg.button_bounds(i);
        assert_eq!(cfg.in_button(left, top), Some(i));
        assert_eq!(cfg.in_button(right - 1, bottom - 1), Some(i));
    }
}

#[test]
fn gaps_inside_window_hit_nothing() {
    let cfg = config(&["shutdown", "restart"], 1, (10, 10));
    let (w, h) = cfg.buttons_bounds();
    for y in 0..h {
        for x in 0..w {
            let inside = (0..2).any(|i| {
                let (l, r, t, b) = cfg.button_bounds(i);
                l <= x && x < r && t <= y && y < b
            });
            let hit = cfg.in_button(x, y);
            assert_eq!(hit.is_some(), inside, "({}, {})", x, y);
        }
    }
    assert_eq!(cfg.in_button(11, 5), None);
    assert_eq!(cfg.in_button(0, 0), None);
    assert_eq!(cfg.in_button(5, 11), None);
}

#[test]
fn points_past_the_last_button_hit_nothing() {
    let cfg = config(&["only"], 0, (4, 4));
    assert_eq!(cfg.in_button(3, 3), Some(0));
    assert_eq!(cfg.in_button(4, 0), None);
    assert_eq!(cfg.in_button(100, 2), None);
}

#[test]
fn empty_buttons_are_never_hit() {
    let cfg = config(&["a", "b"], 0, (0, 0));
    assert!(cfg.is_valid());
    assert_eq!(cfg.buttons_bounds(), (0, 0));
    assert_eq!(cfg.in_button(0, 0), None);
}

#[test]
fn oversized_geometry_is_not_valid() {
    assert!(!config(&["a", "b"], usize::MAX / 2, (usize::MAX / 2, 1)).is_valid());
    assert!(!config(&["a"], 1, (1, usize::MAX)).is_valid());
    assert!(!config(&[], usize::MAX, (0, 0)).is_valid());
}
