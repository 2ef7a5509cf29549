//! Colours written as `#rrggbb`.
use vstd::prelude::*;
use crate::normalize::chars_of;

verus! {

/// The value of a hexadecimal digit of either case.
pub open spec fn hex_digit(c: char) -> Option<u8> {
    if '0' <= c && c <= '9' {
        Some((c as u32 - '0' as u32) as u8)
    } else if 'a' <= c && c <= 'f' {
        Some((c as u32 - 'a' as u32 + 10) as u8)
    } else if 'A' <= c && c <= 'F' {
        Some((c as u32 - 'A' as u32 + 10) as u8)
    } else {
        None
    }
}

/// `s` without all of its leading `#` characters.
pub open spec fn strip_hashes(s: Seq<char>) -> Seq<char>
    decreases s.len(),
{
    if s.len() > 0 && s[0] == '#' {
        strip_hashes(s.subrange(1, s.len() as int))
    } else {
        s
    }
}

/// The channel spelled by the two digits at `i` and `i + 1`.
pub open spec fn channel(h: Seq<char>, i: int) -> u8 {
    (16 * hex_digit(h[i])->0 + hex_digit(h[i + 1])->0) as u8
}

/// The colour that `s` spells: leading `#` characters, then exactly six
/// hexadecimal digits, two for each of red, green and blue.
pub open spec fn hex_color(s: Seq<char>) -> Result<(u8, u8, u8), ()> {
    let h = strip_hashes(s);
    if h.len() == 6 && forall|i: int| 0 <= i < 6 ==> (#[trigger] hex_digit(h[i])) is Some {
        Ok((channel(h, 0), channel(h, 2), channel(h, 4)))
    } else {
        Err(())
    }
}

fn digit_value(c: char) -> (r: Option<u8>)
    ensures
        r == hex_digit(c),
{
    if '0' <= c && c <= '9' {
        Some((c as u32 - '0' as u32) as u8)
    } else if 'a' <= c && c <= 'f' {
        Some((c as u32 - 'a' as u32 + 10) as u8)
    } else if 'A' <= c && c <= 'F' {
        Some((c as u32 - 'A' as u32 + 10) as u8)
    } else {
        None
    }
}

/// Parses a `#rrggbb` colour into its red, green and blue channels.
pub fn parse_hex_color(hex: &str) -> (r: Result<(u8, u8, u8), ()>)
    ensures
        r == hex_color(hex@),
{
    let s = chars_of(hex);
    let n = s.len();
    let mut i: usize = 0;
    assert(s@.subrange(0, n as int) =~= s@);
    while i < n && s[i] == '#'
        invariant
            i <= n == s@.len(),
            strip_hashes(s@) == strip_hashes(s@.subrange(i as int, n as int)),
        decreases n - i,
    {
        let ghost rest = s@.subrange(i as int, n as int);
        assert(rest.subrange(1, rest.len() as int) =~= s@.subrange(i + 1, n as int));
        i += 1;
    }
    let ghost h = s@.subrange(i as int, n as int);
    assert(strip_hashes(h) == h);
    if n - i != 6 {
        return Err(());
    }
    let mut d: Vec<u8> = Vec::new();
    let mut k: usize = 0;
    while k < 6
        invariant
            i + 6 == n == s@.len(),
            h == s@.subrange(i as int, n as int),
            s@ == hex@,
            strip_hashes(s@) == h,
            k <= 6,
            d@.len() == k,
            forall|j: int| 0 <= j < k ==> hex_digit(h[j]) == Some(#[trigger] d@[j]) && d@[j] < 16,
        decreases 6 - k,
    {
        match digit_value(s[i + k]) {
            Some(v) => d.push(v),
            None => {
                assert(h[k as int] == s@[i + k]);
                assert(hex_digit(h[k as int]) is None);
                assert(strip_hashes(hex@) == h);
                return Err(());
            },
        }
        k += 1;
    }
    assert forall|j: int| 0 <= j < 6 implies (#[trigger] hex_digit(h[j])) is Some by {
        assert(hex_digit(h[j]) == Some(d@[j]));
    }
    assert(h[0] == s@[i as int] && h[1] == s@[i + 1]);
    assert(hex_color(hex@) == Ok::<(u8, u8, u8), ()>((channel(h, 0), channel(h, 2), channel(h, 4))));
    Ok((16 * d[0] + d[1], 16 * d[2] + d[3], 16 * d[4] + d[5]))
}

} // verus!
