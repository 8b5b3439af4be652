//! Whole-script input: byte-order marks, raw byte lines, and scripts that
//! are not valid UTF-8.
use crate::charset::{decode_metadata_bytes, spec_decode_metadata, utf8_text, MAX_DECODE_BYTES};
use crate::parser::errors::{ParseError, ParseErrorView};
use crate::parser::{spec_parse_doc, spec_parse_lines, AssDocument, DocView};
use crate::text::{str_chars, views_of};
use vstd::prelude::*;
use vstd::utf8::{decode_utf8, pop_first_scalar, valid_utf8};

verus! {

/// `s` without a leading UTF-8 byte-order mark.
pub open spec fn spec_strip_bom(s: Seq<u8>) -> Seq<u8> {
    if s.len() >= 3 && s[0] == 0xEF && s[1] == 0xBB && s[2] == 0xBF {
        s.subrange(3, s.len() as int)
    } else {
        s
    }
}

/// Bounds of `input` without a leading UTF-8 byte-order mark.
pub fn strip_utf8_bom(input: &[u8]) -> (lo: usize)
    ensures
        lo <= input@.len(),
        input@.subrange(lo as int, input@.len() as int) == spec_strip_bom(input@),
{
    if input.len() >= 3 && input[0] == 0xEF && input[1] == 0xBB && input[2] == 0xBF {
        3
    } else {
        assert(input@.subrange(0, input@.len() as int) =~= input@);
        0
    }
}

/// Index of the first `b'\n'` at or after `i`, or `s.len()`.
pub open spec fn next_lf(s: Seq<u8>, i: int) -> int
    decreases s.len() - i,
{
    if i < 0 || i >= s.len() {
        s.len() as int
    } else if s[i] == 0x0A {
        i
    } else {
        next_lf(s, i + 1)
    }
}

proof fn lemma_next_lf_bounds(s: Seq<u8>, i: int)
    requires
        0 <= i <= s.len(),
    ensures
        i <= next_lf(s, i) <= s.len(),
    decreases s.len() - i,
{
    if i < s.len() && s[i] != 0x0A {
        lemma_next_lf_bounds(s, i + 1);
    }
}

/// A piece of the input without one trailing `b'\r'`.
pub open spec fn strip_cr(p: Seq<u8>) -> Seq<u8> {
    if p.len() > 0 && p.last() == 0x0D {
        p.drop_last()
    } else {
        p
    }
}

/// The pieces of `s` from `i` on, split at every `b'\n'` (a final
/// `b'\n'` leaves an empty last piece), each without a trailing `b'\r'`.
pub open spec fn byte_lines_from(s: Seq<u8>, i: int) -> Seq<Seq<u8>>
    decreases s.len() - i, 1int,
{
    if i < 0 || i > s.len() {
        Seq::empty()
    } else {
        let e = next_lf(s, i);
        if i <= e < s.len() {
            seq![strip_cr(s.subrange(i, e))] + byte_lines_from(s, e + 1)
        } else {
            seq![strip_cr(s.subrange(i, s.len() as int))]
        }
    }
}

pub open spec fn spec_byte_lines(s: Seq<u8>) -> Seq<Seq<u8>> {
    byte_lines_from(s, 0)
}

proof fn lemma_byte_lines_len(s: Seq<u8>, i: int)
    requires
        0 <= i <= s.len(),
    ensures
        byte_lines_from(s, i).len() <= s.len() - i + 1,
        forall|k: int| 0 <= k < byte_lines_from(s, i).len() ==> (#[trigger] byte_lines_from(s, i)[k]).len() <= s.len(),
    decreases s.len() - i,
{
    lemma_next_lf_bounds(s, i);
    let e = next_lf(s, i);
    if e < s.len() {
        lemma_byte_lines_len(s, e + 1);
        let rest = byte_lines_from(s, e + 1);
        let p = strip_cr(s.subrange(i, e));
        assert forall|k: int| 0 <= k < byte_lines_from(s, i).len() implies (
        #[trigger] byte_lines_from(s, i)[k]).len() <= s.len() by {
            if k > 0 {
                assert(byte_lines_from(s, i)[k] == rest[k - 1]);
            }
        }
    }
}

/// The input split at `b'\n'`, each line without a trailing `b'\r'`.
pub fn split_byte_lines(s: &[u8]) -> (r: Vec<Vec<u8>>)
    ensures
        r@.len() == spec_byte_lines(s@).len(),
        forall|k: int| 0 <= k < r@.len() ==> (#[trigger] r@[k])@ == spec_byte_lines(s@)[k],
{
    let n = s.len();
    let mut r: Vec<Vec<u8>> = Vec::new();
    let mut i: usize = 0;
    let ghost done: Seq<Seq<u8>> = Seq::empty();
    loop
        invariant
            0 <= i <= n,
            n == s@.len(),
            r@.len() == done.len(),
            forall|k: int| 0 <= k < r@.len() ==> (#[trigger] r@[k])@ == done[k],
            done + byte_lines_from(s@, i as int) == spec_byte_lines(s@),
        decreases n - i,
    {
        let mut e = i;
        while e < n && s[e] != 0x0A
            invariant
                i <= e <= n,
                n == s@.len(),
                next_lf(s@, e as int) == next_lf(s@, i as int),
            decreases n - e,
        {
            e += 1;
        }
        let mut hi = e;
        if hi > i && s[hi - 1] == 0x0D {
            hi = hi - 1;
        }
        let piece = crate::text::sub_bytes(s, i, hi);
        proof {
            lemma_next_lf_bounds(s@, i as int);
            assert(piece@ == strip_cr(s@.subrange(i as int, e as int)));
        }
        if e < n {
            proof {
                assert(byte_lines_from(s@, i as int) == seq![piece@] + byte_lines_from(s@, e + 1));
                assert(done.push(piece@) + byte_lines_from(s@, e + 1) =~= done + byte_lines_from(
                    s@,
                    i as int,
                ));
                done = done.push(piece@);
            }
            r.push(piece);
            i = e + 1;
        } else {
            proof {
                assert(byte_lines_from(s@, i as int) == seq![piece@]);
                assert(done.push(piece@) =~= done + byte_lines_from(s@, i as int));
                done = done.push(piece@);
            }
            r.push(piece);
            return r;
        }
    }
}

/// Decoded text is no longer than its bytes.
proof fn lemma_decode_utf8_len(b: Seq<u8>)
    requires
        valid_utf8(b),
    ensures
        decode_utf8(b).len() <= b.len(),
    decreases b.len(),
{
    if b.len() > 0 {
        let rest = pop_first_scalar(b);
        assert(rest.len() < b.len());
        lemma_decode_utf8_len(rest);
    }
}

/// `s` without a leading `U+FEFF`.
pub open spec fn spec_strip_bom_char(s: Seq<char>) -> Seq<char> {
    if s.len() > 0 && s[0] == '\u{feff}' {
        s.drop_first()
    } else {
        s
    }
}

/// A script given as text: a leading byte-order mark is skipped.
pub open spec fn spec_parse_text(input: Seq<char>) -> Result<DocView, ParseErrorView> {
    spec_parse_doc(spec_strip_bom_char(input))
}

/// A script given as bytes: a leading UTF-8 byte-order mark is skipped;
/// valid UTF-8 is parsed as text, anything else line by line, each line
/// decoded as metadata in the Windows-1252 code page (`Encoding` 1)
/// where it is not UTF-8.
pub open spec fn spec_parse_bytes(input: Seq<u8>) -> Result<DocView, ParseErrorView> {
    let b = spec_strip_bom(input);
    if valid_utf8(b) {
        spec_parse_text(decode_utf8(b))
    } else {
        spec_parse_lines(spec_byte_lines(b).map_values(|l: Seq<u8>| spec_decode_metadata(l, 1)))
    }
}

/// Parse a script given as text, skipping a leading byte-order mark.
pub fn parse_text(input: &str) -> (r: Result<AssDocument, ParseError>)
    requires
        input@.len() < usize::MAX,
    ensures
        match r {
            Ok(d) => spec_parse_text(input@) == Ok::<DocView, ParseErrorView>(d@),
            Err(e) => spec_parse_text(input@) == Err::<DocView, ParseErrorView>(e@),
        },
{
    let chars = str_chars(input);
    let lo: usize = if chars.len() > 0 && chars[0] == '\u{feff}' {
        1
    } else {
        0
    };
    let body = crate::text::sub_chars(chars.as_slice(), lo, chars.len());
    let lines = crate::text::split_lines(body.as_slice());
    proof {
        assert(body@ =~= spec_strip_bom_char(input@));
        crate::text::lemma_lines_from_len(body@, 0);
        assert(views_of(lines@) =~= crate::text::spec_lines(body@));
    }
    AssDocument::parse_lines(&lines)
}

/// Parse a script given as bytes (see `spec_parse_bytes`).
pub fn parse_bytes(input: &[u8]) -> (r: Result<AssDocument, ParseError>)
    requires
        input@.len() <= MAX_DECODE_BYTES,
    ensures
        match r {
            Ok(d) => spec_parse_bytes(input@) == Ok::<DocView, ParseErrorView>(d@),
            Err(e) => spec_parse_bytes(input@) == Err::<DocView, ParseErrorView>(e@),
        },
{
    let lo = strip_utf8_bom(input);
    let body = crate::text::sub_bytes(input, lo, input.len());
    match utf8_text(body.as_slice()) {
        Some(text) => {
            proof {
                lemma_decode_utf8_len(body@);
            }
            parse_text(text)
        },
        None => {
            let raw = split_byte_lines(body.as_slice());
            let ghost bl = spec_byte_lines(body@);
            proof {
                lemma_byte_lines_len(body@, 0);
            }
            let mut lines: Vec<Vec<char>> = Vec::new();
            let mut k: usize = 0;
            while k < raw.len()
                invariant
                    0 <= k <= raw@.len(),
                    raw@.len() == bl.len(),
                    forall|j: int| 0 <= j < raw@.len() ==> (#[trigger] raw@[j])@ == bl[j],
                    forall|j: int| 0 <= j < bl.len() ==> (#[trigger] bl[j]).len() <= MAX_DECODE_BYTES,
                    lines@.len() == k,
                    forall|j: int| 0 <= j < k ==> (#[trigger] lines@[j])@ == spec_decode_metadata(bl[j], 1),
                decreases raw@.len() - k,
            {
                assert(raw@[k as int]@ == bl[k as int]);
                let text = decode_metadata_bytes(raw[k].as_slice(), 1);
                lines.push(str_chars(text.as_str()));
                k += 1;
            }
            assert(views_of(lines@) =~= bl.map_values(|l: Seq<u8>| spec_decode_metadata(l, 1)));
            AssDocument::parse_lines(&lines)
        },
    }
}

} // verus!
