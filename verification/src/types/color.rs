//! ASS colours: `&HAABBGGRR&`, where the alpha byte is *transparency*
//! (`00` opaque, `FF` fully transparent).
use crate::text::{parse_u32, spec_parse_u32, sub_chars};
use vstd::prelude::*;

verus! {

/// A colour in ASS byte order. `alpha` is transparency, not opacity.
#[derive(Debug, Clone, Copy, PartialEq, Eq, Structural)]
pub struct Color {
    pub alpha: u8,
    pub blue: u8,
    pub green: u8,
    pub red: u8,
}

impl Default for Color {
    /// Opaque black (`&H00000000`).
    fn default() -> (c: Color)
        ensures
            c == (Color { alpha: 0, blue: 0, green: 0, red: 0 }),
    {
        Color { alpha: 0, blue: 0, green: 0, red: 0 }
    }
}

pub open spec fn is_hex(c: char) -> bool {
    ('0' <= c && c <= '9') || ('a' <= c && c <= 'f') || ('A' <= c && c <= 'F')
}

pub open spec fn hex_val(c: char) -> int {
    if '0' <= c && c <= '9' {
        (c as int) - 48
    } else if 'a' <= c && c <= 'f' {
        (c as int) - 87
    } else {
        (c as int) - 55
    }
}

pub open spec fn all_hex(s: Seq<char>) -> bool {
    forall|k: int| 0 <= k < s.len() ==> is_hex(#[trigger] s[k])
}

/// Hexadecimal value of a digit string (most significant first).
pub open spec fn hex_value(s: Seq<char>) -> int
    decreases s.len(),
{
    if s.len() == 0 {
        0
    } else {
        hex_value(s.drop_last()) * 16 + hex_val(s.last())
    }
}

/// The colour text without one leading and one trailing `&`.
pub open spec fn color_body(s: Seq<char>) -> Seq<char> {
    let a = if s.len() > 0 && s[0] == '&' {
        s.drop_first()
    } else {
        s
    };
    if a.len() > 0 && a.last() == '&' {
        a.drop_last()
    } else {
        a
    }
}

/// The packed `0xAABBGGRR` value of a colour field: `&H` / `H` followed by
/// one to eight hex digits (an optional trailing `&`), or a plain decimal
/// `u32` (SSA style).
pub open spec fn spec_color_value(s: Seq<char>) -> Option<u32> {
    let b = color_body(s);
    if b.len() > 0 && (b[0] == 'H' || b[0] == 'h') {
        let h = b.drop_first();
        if 1 <= h.len() <= 8 && all_hex(h) {
            Some(hex_value(h) as u32)
        } else {
            None
        }
    } else {
        spec_parse_u32(b)
    }
}

pub open spec fn color_of(v: u32) -> Color {
    Color {
        alpha: (v / 0x100_0000) as u8,
        blue: ((v / 0x1_0000) % 256) as u8,
        green: ((v / 0x100) % 256) as u8,
        red: (v % 256) as u8,
    }
}

/// Parsed colour of a field, or `None` when the text is malformed.
pub open spec fn spec_parse_color(s: Seq<char>) -> Option<Color> {
    match spec_color_value(s) {
        Some(v) => Some(color_of(v)),
        None => None,
    }
}

fn hex_digit_value(c: char) -> (r: u64)
    requires
        is_hex(c),
    ensures
        r as int == hex_val(c),
        r < 16,
{
    if '0' <= c && c <= '9' {
        (c as u32 - 48) as u64
    } else if 'a' <= c && c <= 'f' {
        (c as u32 - 87) as u64
    } else {
        (c as u32 - 55) as u64
    }
}

impl Color {
    pub fn from_value(v: u32) -> (c: Color)
        ensures
            c == color_of(v),
    {
        Color {
            alpha: (v / 0x100_0000) as u8,
            blue: ((v / 0x1_0000) % 256) as u8,
            green: ((v / 0x100) % 256) as u8,
            red: (v % 256) as u8,
        }
    }

    /// Parse an ASS colour field (`&HAABBGGRR&`, `&HBBGGRR`, or decimal).
    pub fn parse_chars(s: &[char]) -> (r: Option<Color>)
        ensures
            r == spec_parse_color(s@),
    {
        let mut lo: usize = 0;
        let mut hi: usize = s.len();
        if hi > 0 && s[0] == '&' {
            lo = 1;
        }
        if hi > lo && s[hi - 1] == '&' {
            hi = hi - 1;
        }
        let b = sub_chars(s, lo, hi);
        proof {
            let a = if s@.len() > 0 && s@[0] == '&' {
                s@.drop_first()
            } else {
                s@
            };
            assert(a =~= s@.subrange(lo as int, s@.len() as int));
            assert(color_body(s@) =~= b@);
        }
        if b.len() > 0 && (b[0] == 'H' || b[0] == 'h') {
            let n = b.len() - 1;
            if n < 1 || n > 8 {
                return None;
            }
            let ghost h = b@.drop_first();
            let mut acc: u64 = 0;
            let mut k: usize = 0;
            let ghost mut bound: int = 1;
            while k < n
                invariant
                    0 <= k <= n,
                    n <= 8,
                    n + 1 == b@.len(),
                    h == b@.drop_first(),
                    color_body(s@) == b@,
                    b@.len() > 0 && (b@[0] == 'H' || b@[0] == 'h'),
                    all_hex(h.take(k as int)),
                    acc as int == hex_value(h.take(k as int)),
                    0 <= acc < bound,
                    bound == if k == 0 { 1int } else if k == 1 { 16int } else if k == 2 {
                        0x100int
                    } else if k == 3 { 0x1000int } else if k == 4 { 0x1_0000int } else if k
                        == 5 { 0x10_0000int } else if k == 6 { 0x100_0000int } else if k == 7 {
                        0x1000_0000int
                    } else { 0x1_0000_0000int },
                decreases n - k,
            {
                let c = b[k + 1];
                if !(('0' <= c && c <= '9') || ('a' <= c && c <= 'f') || ('A' <= c && c <= 'F')) {
                    assert(h[k as int] == c);
                    assert(!is_hex(h[k as int]));
                    assert(!all_hex(h));
                    return None;
                }
                let d = hex_digit_value(c);
                proof {
                    let t = h.take(k as int + 1);
                    assert(t.drop_last() =~= h.take(k as int));
                    assert(t.last() == c);
                    assert(all_hex(t)) by {
                        assert forall|j: int| 0 <= j < t.len() implies is_hex(#[trigger] t[j]) by {
                            if j < k {
                                assert(t[j] == h.take(k as int)[j]);
                            }
                        }
                    }
                    bound = bound * 16;
                }
                acc = acc * 16 + d;
                k += 1;
            }
            assert(h.take(n as int) =~= h);
            Some(Color::from_value(acc as u32))
        } else {
            match parse_u32(b.as_slice()) {
                Some(v) => Some(Color::from_value(v)),
                None => None,
            }
        }
    }
}

} // verus!
