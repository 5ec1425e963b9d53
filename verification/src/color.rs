//! Hex colours (`#RGB`, `#RRGGBB`, `#RRGGBBAA`) as used by text styles.

use vstd::prelude::*;
use vstd::string::*;

verus! {

/// A colour; each channel value is `byte / 255`.
#[derive(Debug, Clone, Copy, PartialEq, Eq, Structural)]
pub struct Rgba {
    pub r: u8,
    pub g: u8,
    pub b: u8,
    pub a: u8,
}

/// Value of a hexadecimal digit (`0-9`, `a-f`, `A-F`).
pub open spec fn hex_digit(c: char) -> Option<nat> {
    if '0' <= c <= '9' {
        Some((c as nat - '0' as nat) as nat)
    } else if 'a' <= c <= 'f' {
        Some((c as nat - 'a' as nat + 10) as nat)
    } else if 'A' <= c <= 'F' {
        Some((c as nat - 'A' as nat + 10) as nat)
    } else {
        None
    }
}

/// The byte that two hexadecimal digits denote; `None` unless both are hex
/// digits.
pub open spec fn hex_pair(c1: char, c2: char) -> Option<u8> {
    match (hex_digit(c1), hex_digit(c2)) {
        (Some(h), Some(l)) => Some((h * 16 + l) as u8),
        _ => None,
    }
}

/// `s` without its leading `#` characters.
pub open spec fn strip_hashes(s: Seq<char>) -> Seq<char>
    decreases s.len(),
{
    if s.len() > 0 && s[0] == '#' {
        strip_hashes(s.drop_first())
    } else {
        s
    }
}

/// What `#RGB` / `#RRGGBB` / `#RRGGBBAA` denotes; `None` for anything else.
/// A one-digit channel `X` reads as the two-digit `XX`.
pub open spec fn spec_parse_hex(hex: Seq<char>) -> Option<Rgba> {
    let s = strip_hashes(hex);
    if s.len() == 3 {
        match (hex_pair(s[0], s[0]), hex_pair(s[1], s[1]), hex_pair(s[2], s[2])) {
            (Some(r), Some(g), Some(b)) => Some(Rgba { r, g, b, a: 255 }),
            _ => None,
        }
    } else if s.len() == 6 {
        match (hex_pair(s[0], s[1]), hex_pair(s[2], s[3]), hex_pair(s[4], s[5])) {
            (Some(r), Some(g), Some(b)) => Some(Rgba { r, g, b, a: 255 }),
            _ => None,
        }
    } else if s.len() == 8 {
        match (hex_pair(s[0], s[1]), hex_pair(s[2], s[3]), hex_pair(s[4], s[5]), hex_pair(s[6], s[7])) {
            (Some(r), Some(g), Some(b), Some(a)) => Some(Rgba { r, g, b, a }),
            _ => None,
        }
    } else {
        None
    }
}

fn digit_value(c: char) -> (r: Option<u8>)
    ensures
        r matches Some(v) ==> hex_digit(c) == Some(v as nat),
        r is None ==> hex_digit(c) is None,
{
    if '0' <= c && c <= '9' {
        Some((c as u32 - '0' as u32) as u8)
    } else if 'a' <= c && c <= 'f' {
        Some((c as u32 - 'a' as u32 + 10) as u8)
    } else if 'A' <= c && c <= 'F' {
        Some((c as u32 - 'A' as u32 + 10) as u8)
    } else {
        None
    }
}

fn pair_value(c1: char, c2: char) -> (r: Option<u8>)
    ensures
        r == hex_pair(c1, c2),
{
    match (digit_value(c1), digit_value(c2)) {
        (Some(h), Some(l)) => Some(h * 16 + l),
        _ => None,
    }
}

proof fn lemma_strip_hashes_skip(s: Seq<char>, k: int)
    requires
        0 <= k <= s.len(),
        forall|j: int| 0 <= j < k ==> s[j] == '#',
    ensures
        strip_hashes(s) == strip_hashes(s.subrange(k, s.len() as int)),
    decreases k,
{
    if k > 0 {
        assert(s.drop_first().subrange(k - 1, s.len() - 1) =~= s.subrange(k, s.len() as int));
        lemma_strip_hashes_skip(s.drop_first(), k - 1);
    } else {
        assert(s.subrange(0, s.len() as int) =~= s);
    }
}

impl crate::model::TextStyle {
    /// Parses `#RRGGBB` or `#RRGGBBAA` (or `#RGB`), after dropping every
    /// leading `#`.
    pub fn parse_hex(hex: &str) -> (r: Option<Rgba>)
        ensures
            r == spec_parse_hex(hex@),
    {
        let n = hex.unicode_len();
        let mut k: usize = 0;
        while k < n && hex.get_char(k) == '#'
            invariant
                n == hex@.len(),
                0 <= k <= n,
                forall|j: int| 0 <= j < k ==> hex@[j] == '#',
            decreases n - k,
        {
            k = k + 1;
        }
        let ghost s = hex@.subrange(k as int, n as int);
        proof {
            lemma_strip_hashes_skip(hex@, k as int);
            if k < n {
                assert(hex@[k as int] != '#');
                assert(s[0] == hex@[k as int]);
            }
            assert(strip_hashes(s) == s);
        }
        let len = n - k;
        if len == 3 {
            let c0 = hex.get_char(k);
            let c1 = hex.get_char(k + 1);
            let c2 = hex.get_char(k + 2);
            assert(s[0] == c0 && s[1] == c1 && s[2] == c2);
            match (pair_value(c0, c0), pair_value(c1, c1), pair_value(c2, c2)) {
                (Some(r), Some(g), Some(b)) => Some(Rgba { r, g, b, a: 255 }),
                _ => None,
            }
        } else if len == 6 {
            let c0 = hex.get_char(k);
            let c1 = hex.get_char(k + 1);
            let c2 = hex.get_char(k + 2);
            let c3 = hex.get_char(k + 3);
            let c4 = hex.get_char(k + 4);
            let c5 = hex.get_char(k + 5);
            assert(s[0] == c0 && s[1] == c1 && s[2] == c2 && s[3] == c3 && s[4] == c4 && s[5] == c5);
            match (pair_value(c0, c1), pair_value(c2, c3), pair_value(c4, c5)) {
                (Some(r), Some(g), Some(b)) => Some(Rgba { r, g, b, a: 255 }),
                _ => None,
            }
        } else if len == 8 {
            let c0 = hex.get_char(k);
            let c1 = hex.get_char(k + 1);
            let c2 = hex.get_char(k + 2);
            let c3 = hex.get_char(k + 3);
            let c4 = hex.get_char(k + 4);
            let c5 = hex.get_char(k + 5);
            let c6 = hex.get_char(k + 6);
            let c7 = hex.get_char(k + 7);
            assert(s[0] == c0 && s[1] == c1 && s[2] == c2 && s[3] == c3 && s[4] == c4 && s[5] == c5
                && s[6] == c6 && s[7] == c7);
            match (pair_value(c0, c1), pair_value(c2, c3), pair_value(c4, c5), pair_value(c6, c7)) {
                (Some(r), Some(g), Some(b), Some(a)) => Some(Rgba { r, g, b, a }),
                _ => None,
            }
        } else {
            None
        }
    }
}

} // verus!
