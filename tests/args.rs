use wl_menu::args::{collect_labels, parse_usize};
use wl_menu::{parse_config, ConfigError, Setup};

fn strings(v: &[&str]) -> Vec<String> {
    v.iter().map(|s| s.to_string()).collect()
}

fn parse(args: &[&str], lines: &[&str]) -> Result<Setup, ConfigError> {
    parse_config(&strings(args), &strings(lines))
}

#[test]
fn defaults_without_flags() {
    let s = parse(&[], &["a", "b"]).unwrap();
    let c = &s.config;
    assert_eq!(c.border, 1);
    assert_eq!(c.button_dim, (300, 300));
    assert_eq!((c.nf, c.nb, c.sf, c.sb), (0xffdd_dddd, 0xdd22_2222, 0xffdd_dddd, 0xffff_9900));
    assert_eq!(c.options, strings(&["a", "b"]));
    assert!(s.font_paths.is_empty());
}

#[test]
fn flags_set_sizes_and_colours() {
    let s = parse(
        &["-b", "2", "-w", "+40", "-h", "20", "-nf", "#fff", "-nb", "#0f0f", "-sf", "#102030", "-sb", "#80ffffff"],
        &["x"],
    )
    .unwrap();
    let c = &s.config;
    assert_eq!(c.border, 2);
    assert_eq!(c.button_dim, (40, 20));
    assert_eq!((c.nf, c.nb, c.sf, c.sb), (0xffff_ffff, 0x00ff_00ff, 0xff10_2030, 0x80ff_ffff));
}

#[test]
fn zero_height_means_square_buttons() {
    let c = parse(&["-w", "50", "-h", "0"], &["x"]).unwrap().config;
    assert_eq!(c.button_dim, (50, 50));
}

#[test]
fn later_flags_win_and_fonts_are_kept_in_order() {
    let s = parse(&["-b", "3", "-f", "one.otf", "-b", "4", "-f", "two.ttf"], &["x"]).unwrap();
    assert_eq!(s.config.border, 4);
    assert_eq!(s.font_paths, strings(&["one.otf", "two.ttf"]));
}

#[test]
fn blank_lines_are_skipped() {
    let c = parse(&[], &["", "shutdown", "", "", " ", "restart", ""]).unwrap().config;
    assert_eq!(c.options, strings(&["shutdown", " ", "restart"]));
    assert_eq!(collect_labels(&strings(&["", ""])), Vec::<String>::new());
}

#[test]
fn no_labels_is_not_an_error() {
    let c = parse(&["-b", "0"], &[]).unwrap().config;
    assert!(c.options.is_empty());
}

#[test]
fn unknown_flag_is_reported() {
    assert_eq!(parse(&["-x", "1"], &[]).err(), Some(ConfigError::Unrecognized("-x".to_string())));
}

#[test]
fn flag_without_value_is_reported() {
    assert_eq!(parse(&["-b", "1", "-w"], &[]).err(), Some(ConfigError::Unrecognized("-w".to_string())));
}

#[test]
fn bad_number_is_reported() {
    assert_eq!(
        parse(&["-w", "12px"], &[]).err(),
        Some(ConfigError::BadNumber { flag: "-w".to_string(), value: "12px".to_string() })
    );
    assert!(matches!(parse(&["-b", "-1"], &[]), Err(ConfigError::BadNumber { .. })));
}

#[test]
fn bad_colour_is_reported() {
    assert_eq!(
        parse(&["-sb", "#12345"], &[]).err(),
        Some(ConfigError::BadColor { flag: "-sb".to_string(), value: "#12345".to_string() })
    );
}

#[test]
fn first_bad_flag_wins() {
    assert_eq!(
        parse(&["-b", "x", "-q", "1"], &[]).err(),
        Some(ConfigError::BadNumber { flag: "-b".to_string(), value: "x".to_string() })
    );
}

#[test]
fn huge_window_is_refused() {
    let max = usize::MAX.to_string();
    assert_eq!(parse(&["-w", &max], &["a", "b"]).err(), Some(ConfigError::TooLarge));
}

#[test]
fn decimal_numbers() {
    assert_eq!(parse_usize("0"), Some(0));
    assert_eq!(parse_usize("+17"), Some(17));
    assert_eq!(parse_usize("007"), Some(7));
    assert_eq!(parse_usize(&usize::MAX.to_string()), Some(usize::MAX));
    assert_eq!(parse_usize(""), None);
    assert_eq!(parse_usize("+"), None);
    assert_eq!(parse_usize("-3"), None);
    assert_eq!(parse_usize("1 "), None);
    assert_eq!(parse_usize("18446744073709551616"), None);
    assert_eq!(parse_usize("99999999999999999999x"), None);
}
