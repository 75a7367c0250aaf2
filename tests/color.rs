use wl_menu::{Argb, ArgbError};

fn parse(s: &str) -> Result<u32, ArgbError> {
    Argb::parse(s).map(|a| a.0)
}

#[test]
fn three_digits_are_opaque() {
    assert_eq!(parse("#fff"), Ok(0xffff_ffff));
    assert_eq!(parse("#123"), Ok(0xff11_2233));
}

#[test]
fn four_digits_carry_alpha_first() {
    assert_eq!(parse("#0f0f"), Ok(0x00ff_00ff));
    assert_eq!(parse("#8abc"), Ok(0x88aa_bbcc));
}

#[test]
fn six_digits_are_opaque() {
    assert_eq!(parse("#ffffff"), Ok(0xffff_ffff));
    assert_eq!(parse("#102030"), Ok(0xff10_2030));
}

#[test]
fn eight_digits_are_taken_whole() {
    assert_eq!(parse("#80ffffff"), Ok(0x80ff_ffff));
    assert_eq!(parse("#00000000"), Ok(0));
}

#[test]
fn upper_case_digits_are_accepted() {
    assert_eq!(parse("#ABC"), Ok(0xffaa_bbcc));
    assert_eq!(parse("#DeadBeef"), Ok(0xdead_beef));
}

#[test]
fn other_lengths_are_rejected() {
    for s in ["#", "#1", "#12", "#12345", "#1234567", "#123456789", ""] {
        assert_eq!(parse(s), Err(ArgbError), "{}", s);
    }
}

#[test]
fn non_hex_text_is_rejected() {
    for s in ["fff", "ffffff", "#ggg", "#12g4", "# fff", "#ff ", "##fff", "#fffé"] {
        assert_eq!(parse(s), Err(ArgbError), "{}", s);
    }
}

#[test]
fn from_str_agrees_with_parse() {
    assert_eq!("#fff".parse::<Argb>(), Ok(Argb(0xffff_ffff)));
    assert_eq!("#0f0f".parse::<Argb>(), Ok(Argb(0x00ff_00ff)));
    assert_eq!("#ffffff".parse::<Argb>(), Ok(Argb(0xffff_ffff)));
    assert_eq!("#80ffffff".parse::<Argb>(), Ok(Argb(0x80ff_ffff)));
    assert_eq!("#ggg".parse::<Argb>(), Err(ArgbError));
    assert!("red".parse::<Argb>().is_err());
}

#[test]
fn error_has_a_message() {
    assert_eq!(
        ArgbError.message(),
        "Argb must be specified by a '#' followed by exactly 3, 4, 6, or 8 hex digits"
    );
}
