use crate::color::{argb_of, digits_value, hex_value, Argb};
use crate::layout::{geometry_fits, Config};
use vstd::prelude::*;

verus! {

/// The options that the command line can set.
#[derive(Debug, Clone, Copy, PartialEq, Eq, Structural)]
pub enum Flag {
    Border,
    Width,
    Height,
    Font,
    NormalFg,
    NormalBg,
    SelectedFg,
    SelectedBg,
}

/// Why the command line or the label list was refused.
#[derive(Debug, PartialEq, Eq)]
pub enum ConfigError {
    /// An unknown flag, or a flag without a value.
    Unrecognized(String),
    /// A size flag whose value is not a decimal `usize`.
    BadNumber { flag: String, value: String },
    /// A colour flag whose value is not a colour.
    BadColor { flag: String, value: String },
    /// The window would not fit in machine integers.
    TooLarge,
}

/// What the command line and the label list give: the menu's
/// configuration, and the font files named, in order.
pub struct Setup {
    pub config: Config,
    pub font_paths: Vec<String>,
}

pub const DEFAULT_BORDER: usize = 1;

pub const DEFAULT_BUTTON_WIDTH: usize = 300;

pub const DEFAULT_NORMAL_FG: u32 = 0xffdd_dddd;

pub const DEFAULT_NORMAL_BG: u32 = 0xdd22_2222;

pub const DEFAULT_SELECTED_FG: u32 = 0xffdd_dddd;

pub const DEFAULT_SELECTED_BG: u32 = 0xffff_9900;

pub open spec fn views(v: Seq<String>) -> Seq<Seq<char>> {
    v.map_values(|s: String| s@)
}

pub open spec fn flag_of(f: Seq<char>) -> Option<Flag> {
    if f == "-b"@ {
        Some(Flag::Border)
    } else if f == "-w"@ {
        Some(Flag::Width)
    } else if f == "-h"@ {
        Some(Flag::Height)
    } else if f == "-f"@ {
        Some(Flag::Font)
    } else if f == "-nf"@ {
        Some(Flag::NormalFg)
    } else if f == "-nb"@ {
        Some(Flag::NormalBg)
    } else if f == "-sf"@ {
        Some(Flag::SelectedFg)
    } else if f == "-sb"@ {
        Some(Flag::SelectedBg)
    } else {
        None
    }
}

pub open spec fn is_size_flag(f: Flag) -> bool {
    f == Flag::Border || f == Flag::Width || f == Flag::Height
}

pub open spec fn is_color_flag(f: Flag) -> bool {
    f == Flag::NormalFg || f == Flag::NormalBg || f == Flag::SelectedFg || f == Flag::SelectedBg
}

pub open spec fn is_decimal_digit(c: char) -> bool {
    '0' <= c <= '9'
}

/// The text without its leading `+`, if it has one.
pub open spec fn unsigned_part(s: Seq<char>) -> Seq<char> {
    if s.len() > 0 && s[0] == '+' {
        s.skip(1)
    } else {
        s
    }
}

pub open spec fn all_decimal(d: Seq<char>) -> bool {
    forall|i: int| 0 <= i < d.len() ==> is_decimal_digit(#[trigger] d[i])
}

/// A decimal number with an optional leading `+`, if it fits in a `usize`.
pub open spec fn usize_of(s: Seq<char>) -> Option<usize> {
    let d = unsigned_part(s);
    if d.len() > 0 && all_decimal(d) && digits_value(d, 10, 1) <= usize::MAX {
        Some(digits_value(d, 10, 1) as usize)
    } else {
        None
    }
}

/// The flag and its value are both understood.
pub open spec fn pair_ok(flag: Seq<char>, value: Seq<char>) -> bool {
    match flag_of(flag) {
        None => false,
        Some(f) => if is_size_flag(f) {
            usize_of(value) is Some
        } else if is_color_flag(f) {
            argb_of(value) is Some
        } else {
            true
        },
    }
}

/// Index of the first flag, from `k` on in steps of two, that has no
/// value or is not understood with its value.
pub open spec fn first_bad(args: Seq<Seq<char>>, k: int) -> Option<int>
    decreases args.len() - k,
{
    if k < 0 || k >= args.len() {
        None
    } else if k + 1 >= args.len() || !pair_ok(args[k], args[k + 1]) {
        Some(k)
    } else {
        first_bad(args, k + 2)
    }
}

/// The error for the bad flag at index `k`.
pub open spec fn error_matches(e: ConfigError, args: Seq<Seq<char>>, k: int) -> bool {
    if k + 1 >= args.len() || flag_of(args[k]) is None {
        e matches ConfigError::Unrecognized(s) && s@ == args[k]
    } else if is_size_flag(flag_of(args[k])->0) {
        e matches ConfigError::BadNumber { flag, value } && flag@ == args[k] && value@ == args[k + 1]
    } else {
        e matches ConfigError::BadColor { flag, value } && flag@ == args[k] && value@ == args[k + 1]
    }
}

/// Value given to `f` by the last of the first `k / 2` flag pairs that names it.
pub open spec fn last_value(args: Seq<Seq<char>>, f: Flag, k: int) -> Option<Seq<char>>
    decreases k,
{
    if k < 2 {
        None
    } else if flag_of(args[k - 2]) == Some(f) {
        Some(args[k - 1])
    } else {
        last_value(args, f, k - 2)
    }
}

/// Values given to `-f` by the first `k / 2` flag pairs, in order.
pub open spec fn font_values(args: Seq<Seq<char>>, k: int) -> Seq<Seq<char>>
    decreases k,
{
    if k < 2 {
        Seq::empty()
    } else if flag_of(args[k - 2]) == Some(Flag::Font) {
        font_values(args, k - 2).push(args[k - 1])
    } else {
        font_values(args, k - 2)
    }
}

pub open spec fn size_or(args: Seq<Seq<char>>, f: Flag, k: int, default: usize) -> usize {
    match last_value(args, f, k) {
        Some(v) => usize_of(v)->0,
        None => default,
    }
}

pub open spec fn color_or(args: Seq<Seq<char>>, f: Flag, k: int, default: u32) -> u32 {
    match last_value(args, f, k) {
        Some(v) => argb_of(v)->0,
        None => default,
    }
}

/// Button height as given; a height of zero means square buttons.
pub open spec fn height_of(args: Seq<Seq<char>>) -> usize {
    let h = size_or(args, Flag::Height, args.len() as int, 0);
    if h != 0 {
        h
    } else {
        size_or(args, Flag::Width, args.len() as int, DEFAULT_BUTTON_WIDTH)
    }
}

/// The lines that are not empty, in order.
pub open spec fn nonblank(lines: Seq<Seq<char>>) -> Seq<Seq<char>>
    decreases lines.len(),
{
    if lines.len() == 0 {
        Seq::empty()
    } else if lines.last().len() == 0 {
        nonblank(lines.drop_last())
    } else {
        nonblank(lines.drop_last()).push(lines.last())
    }
}

/// The two texts are equal.
pub fn same_text(a: &str, b: &str) -> (r: bool)
    ensures
        r == (a@ == b@),
{
    let n = a.unicode_len();
    if n != b.unicode_len() {
        return false;
    }
    let mut i: usize = 0;
    while i < n
        invariant
            n == a@.len(),
            n == b@.len(),
            i <= n,
            forall|j: int| 0 <= j < i ==> a@[j] == b@[j],
        decreases n - i,
    {
        if a.get_char(i) != b.get_char(i) {
            return false;
        }
        i = i + 1;
    }
    proof {
        assert(a@ =~= b@);
    }
    true
}

/// The flag a command-line word names, if any.
pub fn flag_named(f: &str) -> (r: Option<Flag>)
    ensures
        r == flag_of(f@),
{
    if same_text(f, "-b") {
        Some(Flag::Border)
    } else if same_text(f, "-w") {
        Some(Flag::Width)
    } else if same_text(f, "-h") {
        Some(Flag::Height)
    } else if same_text(f, "-f") {
        Some(Flag::Font)
    } else if same_text(f, "-nf") {
        Some(Flag::NormalFg)
    } else if same_text(f, "-nb") {
        Some(Flag::NormalBg)
    } else if same_text(f, "-sf") {
        Some(Flag::SelectedFg)
    } else if same_text(f, "-sb") {
        Some(Flag::SelectedBg)
    } else {
        None
    }
}

proof fn lemma_digits_nonneg(d: Seq<char>)
    requires
        all_decimal(d),
    ensures
        digits_value(d, 10, 1) >= 0,
    decreases d.len(),
{
    if d.len() > 0 {
        lemma_digits_nonneg(d.drop_last());
    }
}

/// A number's digits read so far never exceed the whole number.
proof fn lemma_digits_prefix(d: Seq<char>, k: int)
    requires
        0 <= k <= d.len(),
        all_decimal(d),
    ensures
        digits_value(d.take(k), 10, 1) <= digits_value(d, 10, 1),
    decreases d.len(),
{
    if k < d.len() {
        lemma_digits_nonneg(d.drop_last());
        assert(d.drop_last().take(k) == d.take(k));
        lemma_digits_prefix(d.drop_last(), k);
    } else {
        assert(d.take(k) == d);
    }
}

/// Reads a decimal `usize`, with an optional leading `+`.
pub fn parse_usize(s: &str) -> (r: Option<usize>)
    ensures
        r == usize_of(s@),
{
    let n = s.unicode_len();
    let start: usize = if n > 0 && s.get_char(0) == '+' {
        1
    } else {
        0
    };
    let ghost d = unsigned_part(s@);
    proof {
        assert(d =~= s@.skip(start as int));
    }
    if start >= n {
        return None;
    }
    let mut acc: usize = 0;
    let mut i: usize = start;
    while i < n
        invariant
            n == s@.len(),
            start <= i <= n,
            start < n,
            d == s@.skip(start as int),
            d == unsigned_part(s@),
            forall|j: int| 0 <= j < i - start ==> is_decimal_digit(#[trigger] d[j]),
            acc == digits_value(d.take(i - start), 10, 1),
        decreases n - i,
    {
        let c = s.get_char(i);
        if c < '0' || c > '9' {
            proof {
                assert(d[i - start] == s@[i as int]);
                assert(!is_decimal_digit(d[i - start]));
            }
            return None;
        }
        let v = ((c as u32) - ('0' as u32)) as usize;
        proof {
            assert(d.take(i - start + 1).drop_last() == d.take(i - start));
            assert(d.take(i - start + 1).last() == c);
            assert(hex_value(c) == v);
        }
        let next = match acc.checked_mul(10) {
            Some(m) => m.checked_add(v),
            None => None,
        };
        match next {
            Some(a) => {
                acc = a;
            },
            None => {
                proof {
                    assert(digits_value(d.take(i - start + 1), 10, 1) == acc * 10 + v);
                    if all_decimal(d) {
                        lemma_digits_prefix(d, i - start + 1);
                    }
                }
                return None;
            },
        }
        i = i + 1;
    }
    proof {
        assert(d.take(n - start) == d);
    }
    Some(acc)
}

/// The lines that are not empty, in order.
pub fn collect_labels(lines: &Vec<String>) -> (r: Vec<String>)
    ensures
        views(r@) == nonblank(views(lines@)),
{
    let mut out: Vec<String> = Vec::new();
    let mut i: usize = 0;
    while i < lines.len()
        invariant
            i <= lines@.len(),
            views(out@) == nonblank(views(lines@.take(i as int))),
        decreases lines@.len() - i,
    {
        let line = &lines[i];
        proof {
            assert(views(lines@.take(i + 1)).drop_last() == views(lines@.take(i as int)));
            assert(views(lines@.take(i + 1)).last() == line@);
        }
        if line.as_str().unicode_len() != 0 {
            out.push(line.clone());
            proof {
                assert(views(out@) == views(out@).drop_last().push(line@));
            }
        }
        i = i + 1;
    }
    proof {
        assert(lines@.take(i as int) == lines@);
    }
    out
}

/// Reads the command line (program name excluded) as flag/value pairs,
/// and takes the non-empty lines as labels. The first flag that is not
/// understood, or lacks its value, is reported.
pub fn parse_config(args: &Vec<String>, lines: &Vec<String>) -> (r: Result<Setup, ConfigError>)
    ensures
        first_bad(views(args@), 0) matches Some(k) ==> r matches Err(e) && error_matches(
            e,
            views(args@),
            k,
        ),
        first_bad(views(args@), 0) is None ==> ({
            let v = views(args@);
            let border = size_or(v, Flag::Border, v.len() as int, DEFAULT_BORDER);
            let bw = size_or(v, Flag::Width, v.len() as int, DEFAULT_BUTTON_WIDTH);
            let bh = height_of(v);
            let n = nonblank(views(lines@)).len() as int;
            if geometry_fits(border as int, bw as int, bh as int, n) {
                r matches Ok(s) && views(s.config.options@) == nonblank(views(lines@))
                    && s.config.border == border && s.config.button_dim == (bw, bh)
                    && s.config.nf == color_or(v, Flag::NormalFg, v.len() as int, DEFAULT_NORMAL_FG)
                    && s.config.nb == color_or(v, Flag::NormalBg, v.len() as int, DEFAULT_NORMAL_BG)
                    && s.config.sf == color_or(
                    v,
                    Flag::SelectedFg,
                    v.len() as int,
                    DEFAULT_SELECTED_FG,
                ) && s.config.sb == color_or(
                    v,
                    Flag::SelectedBg,
                    v.len() as int,
                    DEFAULT_SELECTED_BG,
                ) && views(s.font_paths@) == font_values(v, v.len() as int) && s.config.wf()
            } else {
                r matches Err(e) && e is TooLarge
            }
        }),
{
    let ghost v = views(args@);
    let n = args.len();
    let mut border = DEFAULT_BORDER;
    let mut bw = DEFAULT_BUTTON_WIDTH;
    let mut bh: usize = 0;
    let mut nf = DEFAULT_NORMAL_FG;
    let mut nb = DEFAULT_NORMAL_BG;
    let mut sf = DEFAULT_SELECTED_FG;
    let mut sb = DEFAULT_SELECTED_BG;
    let mut fonts: Vec<String> = Vec::new();
    let mut i: usize = 0;
    while i < n
        invariant
            n == args@.len(),
            v == views(args@),
            i <= n,
            i % 2 == 0,
            first_bad(v, 0) == first_bad(v, i as int),
            border == size_or(v, Flag::Border, i as int, DEFAULT_BORDER),
            bw == size_or(v, Flag::Width, i as int, DEFAULT_BUTTON_WIDTH),
            bh == size_or(v, Flag::Height, i as int, 0),
            nf == color_or(v, Flag::NormalFg, i as int, DEFAULT_NORMAL_FG),
            nb == color_or(v, Flag::NormalBg, i as int, DEFAULT_NORMAL_BG),
            sf == color_or(v, Flag::SelectedFg, i as int, DEFAULT_SELECTED_FG),
            sb == color_or(v, Flag::SelectedBg, i as int, DEFAULT_SELECTED_BG),
            views(fonts@) == font_values(v, i as int),
        decreases n - i,
    {
        let flag = &args[i];
        if i + 1 >= n {
            return Err(ConfigError::Unrecognized(flag.clone()));
        }
        let value = &args[i + 1];
        assert(v[i as int] == flag@ && v[i + 1] == value@);
        match flag_named(flag.as_str()) {
            None => {
                return Err(ConfigError::Unrecognized(flag.clone()));
            },
            Some(f) => {
                match f {
                    Flag::Border | Flag::Width | Flag::Height => {
                        match parse_usize(value.as_str()) {
                            None => {
                                return Err(
                                    ConfigError::BadNumber { flag: flag.clone(), value: value.clone() },
                                );
                            },
                            Some(x) => match f {
                                Flag::Border => {
                                    border = x;
                                },
                                Flag::Width => {
                                    bw = x;
                                },
                                _ => {
                                    bh = x;
                                },
                            },
                        }
                    },
                    Flag::Font => {
                        fonts.push(value.clone());
                        proof {
                            assert(views(fonts@) == views(fonts@).drop_last().push(value@));
                        }
                    },
                    _ => {
                        match Argb::parse(value.as_str()) {
                            Err(_) => {
                                return Err(
                                    ConfigError::BadColor { flag: flag.clone(), value: value.clone() },
                                );
                            },
                            Ok(c) => match f {
                                Flag::NormalFg => {
                                    nf = c.0;
                                },
                                Flag::NormalBg => {
                                    nb = c.0;
                                },
                                Flag::SelectedFg => {
                                    sf = c.0;
                                },
                                _ => {
                                    sb = c.0;
                                },
                            },
                        }
                    },
                }
            },
        }
        i = i + 2;
    }
    let options = collect_labels(lines);
    let height = if bh != 0 {
        bh
    } else {
        bw
    };
    let config = Config { options, nf, nb, sf, sb, button_dim: (bw, height), border };
    proof {
        assert(views(config.options@).len() == config.options@.len());
    }
    if !config.is_valid() {
        return Err(ConfigError::TooLarge);
    }
    Ok(Setup { config, font_paths: fonts })
}

} // verus!
