//! The border colour: a `#RRGGBB` hexadecimal string read into its red, green
//! and blue components.

use vstd::prelude::*;

verus! {

/// `b` without its leading `#` bytes, as `str::trim_start_matches('#')`
/// leaves it.
pub open spec fn strip_hashes(b: Seq<u8>) -> Seq<u8>
    decreases b.len(),
{
    if b.len() > 0 && b[0] == 0x23 {
        strip_hashes(b.drop_first())
    } else {
        b
    }
}

/// The value of one hexadecimal digit, either case.
pub open spec fn hex_digit(b: u8) -> Option<u8> {
    if 0x30 <= b <= 0x39 {
        Some((b - 0x30) as u8)
    } else if 0x61 <= b <= 0x66 {
        Some((b - 0x61 + 10) as u8)
    } else if 0x41 <= b <= 0x46 {
        Some((b - 0x41 + 10) as u8)
    } else {
        None
    }
}

/// What `u8::from_str_radix(s, 16)` gives on a two-byte string: an optional
/// `+` and one digit, or two digits.
pub open spec fn hex_pair(b0: u8, b1: u8) -> Option<u8> {
    if b0 == 0x2b {
        hex_digit(b1)
    } else {
        match (hex_digit(b0), hex_digit(b1)) {
            (Some(hi), Some(lo)) => Some((16 * hi + lo) as u8),
            _ => None,
        }
    }
}

/// The component that a pair of bytes gives, or `fallback` where they are
/// not a hexadecimal number.
pub open spec fn component_or(p: Option<u8>, fallback: u8) -> u8 {
    match p {
        Some(v) => v,
        None => fallback,
    }
}

/// The colour that the bytes `b` of a colour string stand for: after the
/// leading `#`s, six bytes read as three hexadecimal pairs, red defaulting to
/// 255 and green and blue to 0 where a pair does not parse; any other length
/// gives pure red.
pub open spec fn hex_color(b: Seq<u8>) -> (u8, u8, u8) {
    let t = strip_hashes(b);
    if t.len() == 6 {
        (
            component_or(hex_pair(t[0], t[1]), 255),
            component_or(hex_pair(t[2], t[3]), 0),
            component_or(hex_pair(t[4], t[5]), 0),
        )
    } else {
        (255, 0, 0)
    }
}

/// Whether reading the colour string with bytes `b` would cut a character in
/// two: six bytes after the `#`s, with a pair boundary inside a character.
pub open spec fn cuts_a_character(b: Seq<u8>) -> bool {
    let t = strip_hashes(b);
    t.len() == 6 && (vstd::utf8::is_continuation_byte(t[2]) || vstd::utf8::is_continuation_byte(
        t[4],
    ))
}

proof fn lemma_strip_hashes_skip(b: Seq<u8>, i: int)
    requires
        0 <= i <= b.len(),
        forall|k: int| 0 <= k < i ==> #[trigger] b[k] == 0x23,
    ensures
        strip_hashes(b) == strip_hashes(b.skip(i)),
    decreases i,
{
    if i > 0 {
        lemma_strip_hashes_skip(b.drop_first(), i - 1);
        assert(b.drop_first().skip(i - 1) =~= b.skip(i));
    } else {
        assert(b.skip(0) =~= b);
    }
}

fn hex_digit_of(b: u8) -> (r: Option<u8>)
    ensures
        r == hex_digit(b),
{
    if 0x30 <= b && b <= 0x39 {
        Some(b - 0x30)
    } else if 0x61 <= b && b <= 0x66 {
        Some(b - 0x61 + 10)
    } else if 0x41 <= b && b <= 0x46 {
        Some(b - 0x41 + 10)
    } else {
        None
    }
}

fn hex_pair_of(b0: u8, b1: u8) -> (r: Option<u8>)
    ensures
        r == hex_pair(b0, b1),
{
    if b0 == 0x2b {
        hex_digit_of(b1)
    } else {
        match (hex_digit_of(b0), hex_digit_of(b1)) {
            (Some(hi), Some(lo)) => Some(16 * hi + lo),
            _ => None,
        }
    }
}

/// The red, green and blue components of a `#RRGGBB` colour string; the
/// border is drawn with each component divided by 255.
pub fn parse_hex_color(hex: &str) -> (r: (u8, u8, u8))
    requires
        !cuts_a_character(vstd::utf8::encode_utf8(hex@)),
    ensures
        r == hex_color(vstd::utf8::encode_utf8(hex@)),
{
    let b = hex.as_bytes();
    let mut i: usize = 0;
    while i < b.len() && b[i] == 0x23
        invariant
            0 <= i <= b@.len(),
            forall|k: int| 0 <= k < i ==> #[trigger] b@[k] == 0x23,
        decreases b.len() - i,
    {
        i = i + 1;
    }
    proof {
        lemma_strip_hashes_skip(b@, i as int);
        assert(strip_hashes(b@.skip(i as int)) == b@.skip(i as int));
    }
    if b.len() - i == 6 {
        let red = match hex_pair_of(b[i], b[i + 1]) {
            Some(v) => v,
            None => 255,
        };
        let green = match hex_pair_of(b[i + 2], b[i + 3]) {
            Some(v) => v,
            None => 0,
        };
        let blue = match hex_pair_of(b[i + 4], b[i + 5]) {
            Some(v) => v,
            None => 0,
        };
        (red, green, blue)
    } else {
        (255, 0, 0)
    }
}

/// The upper-case hexadecimal digit of a value below 16.
pub open spec fn hex_char_of(v: u8) -> u8 {
    if v < 10 {
        (0x30 + v) as u8
    } else {
        (0x41 + v - 10) as u8
    }
}

/// `#RRGGBB` for the components `(r, g, b)`, in upper-case hexadecimal.
pub open spec fn hex_string_of(c: (u8, u8, u8)) -> Seq<u8> {
    seq![
        0x23u8,
        hex_char_of(c.0 / 16),
        hex_char_of(c.0 % 16),
        hex_char_of(c.1 / 16),
        hex_char_of(c.1 % 16),
        hex_char_of(c.2 / 16),
        hex_char_of(c.2 % 16),
    ]
}

/// Writing a colour as `#RRGGBB` and reading it back gives the colour.
pub proof fn lemma_hex_color_round_trip(c: (u8, u8, u8))
    ensures
        hex_color(hex_string_of(c)) == c,
        !cuts_a_character(hex_string_of(c)),
{
    let s = hex_string_of(c);
    assert(s.drop_first() =~= s.skip(1));
    let t = s.drop_first();
    assert(strip_hashes(t) == t);
    assert(strip_hashes(s) == t);
    assert(hex_pair(t[0], t[1]) == Some(c.0));
    assert(hex_pair(t[2], t[3]) == Some(c.1));
    assert(hex_pair(t[4], t[5]) == Some(c.2));
}

} // verus!
