//! ASS vector drawings (`\p1` text): the tokenizer's separators and
//! number tokens.
use crate::renderer::clean_text::digit_run_end;
use vstd::prelude::*;

verus! {

/// Parser of ASS drawing commands (`m n l b s p c`).
pub struct DrawingParser;

/// Separators between drawing tokens: space, comma, tab, CR and LF.
pub open spec fn drawing_separator(c: char) -> bool {
    c == ' ' || c == ',' || c == '\n' || c == '\r' || c == '\t'
}

/// The first index at or after `i` that is not a separator.
pub open spec fn skip_from(cs: Seq<char>, i: int) -> int
    decreases cs.len() - i,
{
    if 0 <= i < cs.len() && drawing_separator(cs[i]) {
        skip_from(cs, i + 1)
    } else {
        i
    }
}

impl DrawingParser {
    /// Skip separators from `pos`; returns the next token position.
    pub fn skip_whitespace(chars: &[char], pos: usize) -> (r: usize)
        ensures
            r == skip_from(chars@, pos as int),
    {
        if pos >= chars.len() {
            return pos;
        }
        let mut i = pos;
        while i < chars.len() && (chars[i] == ' ' || chars[i] == ',' || chars[i] == '\n' || chars[i]
            == '\r' || chars[i] == '\t')
            invariant
                pos <= i <= chars@.len(),
                skip_from(chars@, i as int) == skip_from(chars@, pos as int),
            decreases chars@.len() - i,
        {
            i += 1;
        }
        i
    }
}

/// A number token of drawing text: its sign and the index ranges of the
/// digits before and after the decimal point (an empty range when there
/// are none).
#[derive(Debug, Clone, Copy, PartialEq, Eq, Structural)]
pub struct NumberToken {
    pub negative: bool,
    pub int_lo: usize,
    pub int_hi: usize,
    pub frac_lo: usize,
    pub frac_hi: usize,
}

proof fn lemma_skip_bounds(cs: Seq<char>, i: int)
    requires
        0 <= i <= cs.len(),
    ensures
        i <= skip_from(cs, i) <= cs.len(),
    decreases cs.len() - i,
{
    if i < cs.len() && drawing_separator(cs[i]) {
        lemma_skip_bounds(cs, i + 1);
    }
}

/// Reading a number from `pos`: past the separators an optional `-` or
/// `+` (taken even when no digit follows), ASCII digits, then a `.` and
/// more digits. The position after what was read, and the token when
/// there is at least one digit before the point.
pub open spec fn spec_scan_number(t: Seq<char>, pos: int) -> (int, Option<NumberToken>) {
    let s = skip_from(t, pos);
    let signed = s < t.len() && (t[s] == '-' || t[s] == '+');
    let p1 = if signed {
        s + 1
    } else {
        s
    };
    let ie = digit_run_end(t, p1);
    let has_point = ie < t.len() && t[ie] == '.';
    let fl = if has_point {
        ie + 1
    } else {
        ie
    };
    let fe = if has_point {
        digit_run_end(t, ie + 1)
    } else {
        ie
    };
    (
        fe,
        if ie > p1 {
            Some(
                NumberToken {
                    negative: s < t.len() && t[s] == '-',
                    int_lo: p1 as usize,
                    int_hi: ie as usize,
                    frac_lo: fl as usize,
                    frac_hi: fe as usize,
                },
            )
        } else {
            None
        },
    )
}

fn digits_end(chars: &[char], i: usize) -> (r: usize)
    requires
        i <= chars@.len(),
    ensures
        r == digit_run_end(chars@, i as int),
        i <= r <= chars@.len(),
{
    let mut k = i;
    while k < chars.len() && '0' <= chars[k] && chars[k] <= '9'
        invariant
            i <= k <= chars@.len(),
            digit_run_end(chars@, k as int) == digit_run_end(chars@, i as int),
        decreases chars@.len() - k,
    {
        k += 1;
    }
    k
}

impl DrawingParser {
    /// Read a number token from `pos` (see `spec_scan_number`).
    pub fn scan_number(chars: &[char], pos: usize) -> (r: (usize, Option<NumberToken>))
        requires
            pos <= chars@.len(),
        ensures
            r.0 == spec_scan_number(chars@, pos as int).0,
            r.1 == spec_scan_number(chars@, pos as int).1,
            pos <= r.0 <= chars@.len(),
    {
        let s = DrawingParser::skip_whitespace(chars, pos);
        proof {
            lemma_skip_bounds(chars@, pos as int);
        }
        let signed = s < chars.len() && (chars[s] == '-' || chars[s] == '+');
        let negative = s < chars.len() && chars[s] == '-';
        let p1 = if signed {
            s + 1
        } else {
            s
        };
        let ie = digits_end(chars, p1);
        let has_point = ie < chars.len() && chars[ie] == '.';
        let (fl, fe) = if has_point {
            (ie + 1, digits_end(chars, ie + 1))
        } else {
            (ie, ie)
        };
        let tok = if ie > p1 {
            Some(NumberToken { negative, int_lo: p1, int_hi: ie, frac_lo: fl, frac_hi: fe })
        } else {
            None
        };
        (fe, tok)
    }
}

} // verus!
