use vstd::arithmetic::mul::lemma_mul_inequality;
use vstd::prelude::*;

verus! {

/// A colour as one 32-bit word: alpha in the high byte, then red, green, blue.
#[derive(Debug, Clone, Copy, PartialEq, Eq)]
pub struct Argb(pub u32);

/// The text is not `#` followed by exactly 3, 4, 6 or 8 hexadecimal digits.
#[derive(Debug, Clone, Copy, PartialEq, Eq)]
pub struct ArgbError;

impl ArgbError {
    pub fn message(&self) -> (r: String)
        ensures
            r@ == "Argb must be specified by a '#' followed by exactly 3, 4, 6, or 8 hex digits"@,
    {
        String::from_str("Argb must be specified by a '#' followed by exactly 3, 4, 6, or 8 hex digits")
    }
}

pub open spec fn is_hex_digit(c: char) -> bool {
    ||| '0' <= c <= '9'
    ||| 'a' <= c <= 'f'
    ||| 'A' <= c <= 'F'
}

pub open spec fn hex_value(c: char) -> int {
    if '0' <= c <= '9' {
        c as int - '0' as int
    } else if 'a' <= c <= 'f' {
        c as int - 'a' as int + 10
    } else {
        c as int - 'A' as int + 10
    }
}

/// Reads the digits most significant first, each digit worth `weight` times
/// its value, in positional notation with the given base.
pub open spec fn digits_value(d: Seq<char>, base: int, weight: int) -> int
    decreases d.len(),
{
    if d.len() == 0 {
        0
    } else {
        digits_value(d.drop_last(), base, weight) * base + weight * hex_value(d.last())
    }
}

/// The colour that a text names, if it is in one of the accepted forms:
/// `#AARRGGBB`, `#RRGGBB` (opaque), `#ARGB` and `#RGB` (opaque), where a
/// single digit `h` stands for the byte `0xhh`.
pub open spec fn argb_of(s: Seq<char>) -> Option<u32> {
    if s.len() >= 1 && s[0] == '#' && (forall|i: int| 1 <= i < s.len() ==> is_hex_digit(#[trigger] s[i])) {
        let d = s.skip(1);
        if d.len() == 8 {
            Some(digits_value(d, 16, 1) as u32)
        } else if d.len() == 6 {
            Some((0xff00_0000 + digits_value(d, 16, 1)) as u32)
        } else if d.len() == 4 {
            Some(digits_value(d, 256, 17) as u32)
        } else if d.len() == 3 {
            Some((0xff00_0000 + digits_value(d, 256, 17)) as u32)
        } else {
            None
        }
    } else {
        None
    }
}

/// `base` to the power `k`.
pub open spec fn cap(base: int, k: nat) -> int
    decreases k,
{
    if k == 0 {
        1
    } else {
        base * cap(base, (k - 1) as nat)
    }
}

proof fn lemma_cap_monotone(base: int, i: nat, k: nat)
    requires
        base >= 1,
        i <= k,
    ensures
        1 <= cap(base, i) <= cap(base, k),
    decreases k,
{
    if k > i {
        lemma_cap_monotone(base, i, (k - 1) as nat);
        lemma_mul_inequality(1, base, cap(base, (k - 1) as nat));
    } else if k > 0 {
        lemma_cap_monotone(base, (k - 1) as nat, (k - 1) as nat);
        lemma_mul_inequality(1, base, cap(base, (k - 1) as nat));
    }
}

/// The value of one hexadecimal digit, if it is one.
pub fn hex_digit(c: char) -> (r: Option<u8>)
    ensures
        r is Some <==> is_hex_digit(c),
        r matches Some(v) ==> v == hex_value(c),
{
    if '0' <= c && c <= '9' {
        Some(((c as u32) - ('0' as u32)) as u8)
    } else if 'a' <= c && c <= 'f' {
        Some(((c as u32) - ('a' as u32) + 10) as u8)
    } else if 'A' <= c && c <= 'F' {
        Some(((c as u32) - ('A' as u32) + 10) as u8)
    } else {
        None
    }
}

impl Argb {
    /// Reads a colour written as `#RGB`, `#ARGB`, `#RRGGBB` or `#AARRGGBB`.
    pub fn parse(s: &str) -> (r: Result<Argb, ArgbError>)
        ensures
            r matches Ok(a) ==> argb_of(s@) == Some(a.0),
            r is Err <==> argb_of(s@) is None,
    {
        let n = s.unicode_len();
        if n == 0 || s.get_char(0) != '#' {
            return Err(ArgbError);
        }
        let k = n - 1;
        if k != 3 && k != 4 && k != 6 && k != 8 {
            return Err(ArgbError);
        }
        let short = k <= 4;
        let base: u64 = if short { 256 } else { 16 };
        let weight: u64 = if short { 17 } else { 1 };
        let ghost d = s@.skip(1);
        proof {
            lemma_cap_monotone(base as int, k as nat, k as nat);
            reveal_with_fuel(cap, 9);
            assert(cap(base as int, k as nat) <= 0x1_0000_0000);
        }
        let mut acc: u64 = 0;
        let mut i: usize = 1;
        while i < n
            invariant
                n == s@.len(),
                d == s@.skip(1),
                k == n - 1,
                k == 3 || k == 4 || k == 6 || k == 8,
                base == (if k <= 4 { 256int } else { 16int }),
                weight == (if k <= 4 { 17int } else { 1int }),
                cap(base as int, k as nat) <= 0x1_0000_0000,
                1 <= i <= n,
                forall|j: int| 1 <= j < i ==> is_hex_digit(#[trigger] s@[j]),
                acc == digits_value(d.take(i - 1), base as int, weight as int),
                acc < cap(base as int, (i - 1) as nat),
            decreases n - i,
        {
            let c = s.get_char(i);
            let v = match hex_digit(c) {
                Some(v) => v,
                None => return Err(ArgbError),
            };
            proof {
                lemma_cap_monotone(base as int, i as nat, k as nat);
                lemma_mul_inequality(acc + 1, cap(base as int, (i - 1) as nat), base as int);
                assert(d.take(i as int).drop_last() == d.take(i - 1));
                assert(d.take(i as int).last() == c);
            }
            acc = acc * base + weight * (v as u64);
            i = i + 1;
        }
        proof {
            assert(d.take(k as int) == d);
        }
        if k == 8 || k == 4 {
            Ok(Argb(acc as u32))
        } else {
            proof {
                reveal_with_fuel(cap, 7);
                assert(cap(base as int, k as nat) == 0x100_0000);
            }
            Ok(Argb(0xff00_0000 + acc as u32))
        }
    }
}

impl std::str::FromStr for Argb {
    type Err = ArgbError;

    fn from_str(s: &str) -> (r: Result<Argb, ArgbError>)
        ensures
            r matches Ok(a) ==> argb_of(s@) == Some(a.0),
            r is Err <==> argb_of(s@) is None,
    {
        Argb::parse(s)
    }
}

} // verus!
