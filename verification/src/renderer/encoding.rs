//! Event text under the ASS `Encoding` / `\fe` charset: Symbol-font
//! remapping, legacy code pages for Latin-1-range text, and raw event
//! bytes decoded run by run with override blocks kept verbatim.
use crate::charset::{
    codec_text, decode_codec, decode_metadata_bytes, lossy_utf8, spec_ass_encoding,
    spec_decode_metadata, utf8_lossy, LegacyCodec, MAX_DECODE_BYTES, ass_encoding,
};
use crate::text::{
    next_of, lemma_next_of_bounds, spec_parse_i32, split_all, starts_with, string_push, trim,
    push_str, str_chars, sub_chars, sub_bytes, find_char, split_all_chars, has_prefix, trim_chars,
    parse_i32,
};
use vstd::prelude::*;

verus! {

/// Windows Symbol fonts expose their byte slots at U+F000..U+F0FF.
pub open spec fn symbol_char(b: u8) -> char {
    (0xF000 + b) as char
}

pub open spec fn spec_symbol(bytes: Seq<u8>) -> Seq<char> {
    Seq::new(bytes.len(), |k: int| symbol_char(bytes[k]))
}

fn symbol_char_exec(b: u8) -> (c: char)
    ensures
        c == symbol_char(b),
{
    match core::char::from_u32(0xF000 + b as u32) {
        Some(c) => c,
        None => '\u{FFFD}',
    }
}

/// Map bytes to the Symbol-font private-use slots.
pub fn decode_symbol_bytes(bytes: &[u8]) -> (r: String)
    ensures
        r@ == spec_symbol(bytes@),
{
    let mut out = String::new();
    let mut k: usize = 0;
    while k < bytes.len()
        invariant
            k <= bytes@.len(),
            out@ == spec_symbol(bytes@.subrange(0, k as int)),
        decreases bytes@.len() - k,
    {
        let c = symbol_char_exec(bytes[k]);
        string_push(&mut out, c);
        assert(out@ =~= spec_symbol(bytes@.subrange(0, k + 1)));
        k += 1;
    }
    assert(bytes@.subrange(0, bytes@.len() as int) =~= bytes@);
    out
}

/// `\N`, `\n` and `\h` escape letters.
pub open spec fn escape_letter(c: char) -> bool {
    c == 'N' || c == 'n' || c == 'h'
}

/// Symbol-charset text from char `i` on: escapes stay, chars up to
/// U+00FF map to their Symbol slot, others stay.
pub open spec fn symbol_run_from(cs: Seq<char>, i: int) -> Seq<char>
    decreases cs.len() - i,
{
    if i < 0 || i >= cs.len() {
        Seq::empty()
    } else if cs[i] == '\\' && i + 1 < cs.len() && escape_letter(cs[i + 1]) {
        seq![cs[i], cs[i + 1]] + symbol_run_from(cs, i + 2)
    } else if (cs[i] as u32) <= 0xFF {
        seq![symbol_char((cs[i] as u32) as u8)] + symbol_run_from(cs, i + 1)
    } else {
        seq![cs[i]] + symbol_run_from(cs, i + 1)
    }
}

/// Legacy-charset text from char `i` on: runs of chars up to U+00FF are
/// read as bytes of code page `c`, other chars stay; `pending` is the
/// run collected so far.
pub open spec fn legacy_run_from(cs: Seq<char>, i: int, pending: Seq<u8>, c: LegacyCodec) -> Seq<char>
    decreases cs.len() - i,
{
    if i < 0 || i >= cs.len() {
        codec_text(c, pending)
    } else if (cs[i] as u32) <= 0xFF {
        legacy_run_from(cs, i + 1, pending.push((cs[i] as u32) as u8), c)
    } else {
        codec_text(c, pending) + seq![cs[i]] + legacy_run_from(cs, i + 1, Seq::empty(), c)
    }
}

/// A text run under charset `encoding`: Symbol (2), a code page, or
/// unchanged for unknown values.
pub open spec fn spec_text_run(cs: Seq<char>, encoding: i32) -> Seq<char> {
    if encoding == 2 {
        symbol_run_from(cs, 0)
    } else {
        match spec_ass_encoding(encoding) {
            Some(c) => legacy_run_from(cs, 0, Seq::empty(), c),
            None => cs,
        }
    }
}

/// Decode one run of event text (no override blocks) under `encoding`.
pub fn decode_text_run(text: &[char], encoding: i32) -> (r: String)
    requires
        text@.len() <= MAX_DECODE_BYTES,
    ensures
        r@ == spec_text_run(text@, encoding),
{
    let n = text.len();
    let mut out = String::new();
    if encoding == 2 {
        let mut i: usize = 0;
        while i < n
            invariant
                i <= n,
                n == text@.len(),
                out@ + symbol_run_from(text@, i as int) == symbol_run_from(text@, 0),
            decreases n - i,
        {
            let ch = text[i];
            let ghost before = out@;
            if ch == '\\' && i + 1 < n && (text[i + 1] == 'N' || text[i + 1] == 'n' || text[i + 1]
                == 'h') {
                string_push(&mut out, ch);
                string_push(&mut out, text[i + 1]);
                assert(before + (seq![ch, text@[i + 1]] + symbol_run_from(text@, i + 2)) =~= out@
                    + symbol_run_from(text@, i + 2));
                i += 2;
            } else if (ch as u32) <= 0xFF {
                let c = symbol_char_exec((ch as u32) as u8);
                string_push(&mut out, c);
                assert(before + (seq![c] + symbol_run_from(text@, i + 1)) =~= out@ + symbol_run_from(
                    text@,
                    i + 1,
                ));
                i += 1;
            } else {
                string_push(&mut out, ch);
                assert(before + (seq![ch] + symbol_run_from(text@, i + 1)) =~= out@ + symbol_run_from(
                    text@,
                    i + 1,
                ));
                i += 1;
            }
        }
        assert(out@ + symbol_run_from(text@, n as int) =~= out@);
        return out;
    }
    let codec = match ass_encoding(encoding) {
        Some(c) => c,
        None => {
            return crate::text::string_of(text);
        },
    };
    let mut bytes: Vec<u8> = Vec::new();
    let mut i: usize = 0;
    while i < n
        invariant
            i <= n,
            n == text@.len(),
            n <= MAX_DECODE_BYTES,
            bytes@.len() <= i,
            out@ + legacy_run_from(text@, i as int, bytes@, codec) == legacy_run_from(
                text@,
                0,
                Seq::empty(),
                codec,
            ),
        decreases n - i,
    {
        let ch = text[i];
        if (ch as u32) <= 0xFF {
            bytes.push((ch as u32) as u8);
        } else {
            let ghost before = out@;
            let ghost pend = bytes@;
            let run = decode_codec(codec, bytes.as_slice());
            push_str(&mut out, run.as_str());
            string_push(&mut out, ch);
            bytes = Vec::new();
            assert(bytes@ =~= Seq::<u8>::empty());
            assert(before + (codec_text(codec, pend) + seq![ch] + legacy_run_from(
                text@,
                i + 1,
                Seq::empty(),
                codec,
            )) =~= out@ + legacy_run_from(text@, i + 1, bytes@, codec));
        }
        i += 1;
    }
    let run = decode_codec(codec, bytes.as_slice());
    push_str(&mut out, run.as_str());
    out
}

/// Decode event bytes that are not inside override blocks: Symbol
/// charset (2) maps every byte to its Symbol slot; anything else keeps
/// valid UTF-8 scalars and decodes the other runs as metadata.
pub open spec fn spec_mixed_bytes(bytes: Seq<u8>, encoding: i32) -> Seq<char> {
    if encoding == 2 {
        spec_symbol(bytes)
    } else {
        spec_decode_metadata(bytes, encoding)
    }
}

pub fn decode_mixed_bytes(bytes: &[u8], encoding: i32) -> (r: String)
    requires
        bytes@.len() <= MAX_DECODE_BYTES,
    ensures
        r@ == spec_mixed_bytes(bytes@, encoding),
{
    if encoding == 2 {
        return decode_symbol_bytes(bytes);
    }
    decode_metadata_bytes(bytes, encoding)
}

// ---------------------------------------------------------------------
// `\fe` in override blocks
// ---------------------------------------------------------------------
/// The value of a `\fe<n>` tag piece (the text after a backslash).
pub open spec fn fe_piece(p: Seq<char>) -> Option<i32> {
    if starts_with(p, "fe"@) {
        spec_parse_i32(trim(p.subrange(2, p.len() as int)))
    } else {
        None
    }
}

/// The last `\fe` value among tag pieces `k..` (`acc` so far).
pub open spec fn fe_fold(pieces: Seq<Seq<char>>, k: int, acc: Option<i32>) -> Option<i32>
    decreases pieces.len() - k,
{
    if k < 0 || k >= pieces.len() {
        acc
    } else {
        fe_fold(
            pieces,
            k + 1,
            match fe_piece(pieces[k]) {
                Some(v) => Some(v),
                None => acc,
            },
        )
    }
}

/// The charset an override block `{...}` sets: its last `\fe<n>` tag.
pub open spec fn block_fe(block: Seq<char>) -> Option<i32> {
    let inner = if block.len() >= 2 {
        block.subrange(1, block.len() - 1)
    } else {
        Seq::empty()
    };
    fe_fold(split_all(inner, '\\'), 1, None)
}

/// The charset set by an override block's last `\fe<n>` tag.
pub fn block_font_encoding(block: &[char]) -> (r: Option<i32>)
    ensures
        r == block_fe(block@),
{
    let inner = if block.len() >= 2 {
        sub_chars(block, 1, block.len() - 1)
    } else {
        Vec::new()
    };
    assert(block@.len() < 2 ==> inner@ =~= Seq::<char>::empty());
    let pieces = split_all_chars(inner.as_slice(), '\\');
    let ghost ps = split_all(inner@, '\\');
    let fe = str_chars("fe");
    let mut acc: Option<i32> = None;
    let mut k: usize = 1;
    while k < pieces.len()
        invariant
            1 <= k <= pieces@.len() || pieces@.len() < 1,
            pieces@.len() == ps.len(),
            forall|j: int| 0 <= j < pieces@.len() ==> (#[trigger] pieces@[j])@ == ps[j],
            fe@ == "fe"@,
            fe_fold(ps, 1, None) == fe_fold(ps, k as int, acc),
        decreases pieces@.len() - k,
    {
        let p = pieces[k].as_slice();
        assert(p@ == ps[k as int]);
        if has_prefix(p, fe.as_slice()) {
            proof {
                reveal_strlit("fe");
            }
            let rest = sub_chars(p, 2, p.len());
            let t = trim_chars(rest.as_slice());
            match parse_i32(t.as_slice()) {
                Some(v) => {
                    acc = Some(v);
                },
                None => {},
            }
        }
        k += 1;
    }
    if pieces.len() < 1 {
        return None;
    }
    acc
}

// ---------------------------------------------------------------------
// Whole events
// ---------------------------------------------------------------------
/// Every `{` of `cs` is closed by a later `}`.
pub open spec fn braces_closed(cs: Seq<char>) -> bool {
    forall|i: int| 0 <= i < cs.len() && cs[i] == '{' ==> next_of(cs, '}', i) < cs.len()
}

/// Event text from char `i` on: override blocks are kept verbatim (and
/// a block's `\fe` changes the charset from there on); the runs between
/// them are decoded under the current charset.
pub open spec fn ass_text_from(cs: Seq<char>, i: int, encoding: i32) -> Seq<char>
    decreases cs.len() - i,
{
    if i < 0 || i >= cs.len() {
        Seq::empty()
    } else if cs[i] == '{' {
        let e = next_of(cs, '}', i) + 1;
        if e <= cs.len() {
            proof {
                lemma_next_of_bounds(cs, '}', i);
            }
            let block = cs.subrange(i, e);
            let next_enc = match block_fe(block) {
                Some(v) => v,
                None => encoding,
            };
            block + ass_text_from(cs, e, next_enc)
        } else {
            Seq::empty()
        }
    } else {
        let end = next_of(cs, '{', i + 1);
        proof {
            lemma_next_of_bounds(cs, '{', i + 1);
        }
        spec_text_run(cs.subrange(i, end), encoding) + ass_text_from(cs, end, encoding)
    }
}

/// Decode event text, keeping override blocks and honouring `\fe`.
pub fn decode_ass_text(text: &str, default_encoding: i32) -> (r: String)
    requires
        text@.len() <= MAX_DECODE_BYTES,
        braces_closed(text@),
    ensures
        r@ == ass_text_from(text@, 0, default_encoding),
{
    let cs = str_chars(text);
    let n = cs.len();
    let mut out = String::new();
    let mut enc = default_encoding;
    let mut i: usize = 0;
    while i < n
        invariant
            i <= n,
            n == cs@.len(),
            cs@ == text@,
            n <= MAX_DECODE_BYTES,
            braces_closed(cs@),
            out@ + ass_text_from(cs@, i as int, enc) == ass_text_from(cs@, 0, default_encoding),
        decreases n - i,
    {
        let ghost before = out@;
        let ghost enc0 = enc;
        if cs[i] == '{' {
            let close = find_char(cs.as_slice(), '}', i);
            assert(close < n);
            let e = close + 1;
            let block = sub_chars(cs.as_slice(), i, e);
            let blk = crate::text::string_of(block.as_slice());
            push_str(&mut out, blk.as_str());
            match block_font_encoding(block.as_slice()) {
                Some(v) => {
                    enc = v;
                },
                None => {},
            }
            assert(before + (block@ + ass_text_from(cs@, e as int, enc)) =~= out@ + ass_text_from(
                cs@,
                e as int,
                enc,
            ));
            i = e;
        } else {
            let end = find_char(cs.as_slice(), '{', i + 1);
            let run = sub_chars(cs.as_slice(), i, end);
            let d = decode_text_run(run.as_slice(), enc);
            push_str(&mut out, d.as_str());
            assert(before + (d@ + ass_text_from(cs@, end as int, enc)) =~= out@ + ass_text_from(
                cs@,
                end as int,
                enc,
            ));
            i = end;
        }
    }
    assert(out@ + ass_text_from(cs@, n as int, enc) =~= out@);
    out
}

/// Index of the first byte `c` at or after `i`, or `b.len()`.
pub open spec fn next_byte(b: Seq<u8>, c: u8, i: int) -> int
    decreases b.len() - i,
{
    if i < 0 || i >= b.len() {
        b.len() as int
    } else if b[i] == c {
        i
    } else {
        next_byte(b, c, i + 1)
    }
}

pub proof fn lemma_next_byte_bounds(b: Seq<u8>, c: u8, i: int)
    requires
        0 <= i <= b.len(),
    ensures
        i <= next_byte(b, c, i) <= b.len(),
        next_byte(b, c, i) < b.len() ==> b[next_byte(b, c, i)] == c,
    decreases b.len() - i,
{
    if i < b.len() && b[i] != c {
        lemma_next_byte_bounds(b, c, i + 1);
    }
}

/// Every `{` byte is closed by a later `}` byte.
pub open spec fn braces_closed_bytes(b: Seq<u8>) -> bool {
    forall|i: int| 0 <= i < b.len() && b[i] == 0x7B ==> next_byte(b, 0x7D, i) < b.len()
}

pub open spec fn escape_byte(c: u8) -> bool {
    c == 0x4E || c == 0x6E || c == 0x68
}

/// Raw event bytes from byte `i` on (see `decode_ass_bytes`).
pub open spec fn ass_bytes_from(b: Seq<u8>, i: int, encoding: i32) -> Seq<char>
    decreases b.len() - i, 2int,
{
    if i < 0 || i >= b.len() {
        Seq::empty()
    } else if b[i] == 0x7B {
        tag_bytes_at(b, i, encoding)
    } else {
        bytes_run(b, i, i, encoding)
    }
}

/// The override block at byte `i`, kept as (lossy) text, then the rest
/// under the charset its `\fe` leaves.
pub open spec fn tag_bytes_at(b: Seq<u8>, i: int, encoding: i32) -> Seq<char>
    decreases b.len() - i, 0int,
{
    if 0 <= i < b.len() && next_byte(b, 0x7D, i) < b.len() {
        let e = next_byte(b, 0x7D, i) + 1;
        proof {
            lemma_next_byte_bounds(b, 0x7D, i);
        }
        let t = utf8_lossy(b.subrange(i, e));
        let next_enc = match block_fe(t) {
            Some(v) => v,
            None => encoding,
        };
        t + ass_bytes_from(b, e, next_enc)
    } else {
        Seq::empty()
    }
}

/// A text run of raw bytes that started at `start`, scanned up to `i`:
/// `\N`, `\n` and `\h` escapes are kept as text, the bytes between them
/// decoded under the charset; the run ends at `{` or the end.
pub open spec fn bytes_run(b: Seq<u8>, start: int, i: int, encoding: i32) -> Seq<char>
    decreases b.len() - i, 1int,
{
    if i < 0 || start < 0 || start > i || i > b.len() {
        Seq::empty()
    } else if i >= b.len() || b[i] == 0x7B {
        spec_mixed_bytes(b.subrange(start, i), encoding) + if i < b.len() {
            tag_bytes_at(b, i, encoding)
        } else {
            Seq::empty()
        }
    } else if b[i] == 0x5C && i + 1 < b.len() && escape_byte(b[i + 1]) {
        (if start < i {
            spec_mixed_bytes(b.subrange(start, i), encoding)
        } else {
            Seq::empty()
        }) + seq!['\\', b[i + 1] as char] + bytes_run(b, i + 2, i + 2, encoding)
    } else {
        bytes_run(b, start, i + 1, encoding)
    }
}

fn byte_char(b: u8) -> (c: char)
    ensures
        c == b as char,
{
    b as char
}

/// Decode raw event bytes: override blocks are kept (as lossy UTF-8) and
/// their `\fe` tags change the charset; the runs between them keep their
/// `\N` / `\n` / `\h` escapes and are decoded under the current charset.
pub fn decode_ass_bytes(bytes: &[u8], default_encoding: i32) -> (r: String)
    requires
        bytes@.len() <= MAX_DECODE_BYTES,
        braces_closed_bytes(bytes@),
    ensures
        r@ == ass_bytes_from(bytes@, 0, default_encoding),
{
    let n = bytes.len();
    let ghost b = bytes@;
    let mut out = String::new();
    let mut enc = default_encoding;
    let mut offset: usize = 0;
    while offset < n
        invariant
            offset <= n,
            n == b.len(),
            b == bytes@,
            n <= MAX_DECODE_BYTES,
            braces_closed_bytes(b),
            out@ + ass_bytes_from(b, offset as int, enc) == ass_bytes_from(b, 0, default_encoding),
        decreases n - offset,
    {
        if bytes[offset] == 0x7B {
            let ghost before = out@;
            let mut close = offset;
            while close < n && bytes[close] != 0x7D
                invariant
                    offset <= close <= n,
                    n == b.len(),
                    b == bytes@,
                    next_byte(b, 0x7D, close as int) == next_byte(b, 0x7D, offset as int),
                decreases n - close,
            {
                close += 1;
            }
            assert(close < n);
            let e = close + 1;
            let block = sub_bytes(bytes, offset, e);
            let t = lossy_utf8(block.as_slice());
            push_str(&mut out, t.as_str());
            let tc = str_chars(t.as_str());
            match block_font_encoding(tc.as_slice()) {
                Some(v) => {
                    enc = v;
                },
                None => {},
            }
            assert(before + (t@ + ass_bytes_from(b, e as int, enc)) =~= out@ + ass_bytes_from(
                b,
                e as int,
                enc,
            ));
            offset = e;
        } else {
            let mut start = offset;
            let ghost off0 = offset as int;
            while offset < n && bytes[offset] != 0x7B
                invariant
                    start <= offset <= n,
                    off0 <= offset,
                    off0 < n,
                    b[off0] != 0x7B,
                    n == b.len(),
                    b == bytes@,
                    n <= MAX_DECODE_BYTES,
                    out@ + bytes_run(b, start as int, offset as int, enc) == ass_bytes_from(
                        b,
                        0,
                        default_encoding,
                    ),
                decreases n - offset,
            {
                let ghost before = out@;
                if bytes[offset] == 0x5C && offset + 1 < n && (bytes[offset + 1] == 0x4E || bytes[offset
                    + 1] == 0x6E || bytes[offset + 1] == 0x68) {
                    let ghost pre = if start < offset {
                        spec_mixed_bytes(b.subrange(start as int, offset as int), enc)
                    } else {
                        Seq::empty()
                    };
                    if start < offset {
                        let piece = sub_bytes(bytes, start, offset);
                        let d = decode_mixed_bytes(piece.as_slice(), enc);
                        push_str(&mut out, d.as_str());
                    }
                    assert(out@ == before + pre);
                    string_push(&mut out, '\\');
                    string_push(&mut out, byte_char(bytes[offset + 1]));
                    assert(before + (pre + seq!['\\', b[offset + 1] as char] + bytes_run(
                        b,
                        offset + 2,
                        offset + 2,
                        enc,
                    )) =~= out@ + bytes_run(b, offset + 2, offset + 2, enc));
                    offset += 2;
                    start = offset;
                } else {
                    offset += 1;
                }
            }
            let ghost before = out@;
            let piece = sub_bytes(bytes, start, offset);
            let d = decode_mixed_bytes(piece.as_slice(), enc);
            push_str(&mut out, d.as_str());
            assert(before + (d@ + if offset < n {
                tag_bytes_at(b, offset as int, enc)
            } else {
                Seq::empty()
            }) =~= out@ + ass_bytes_from(b, offset as int, enc));
        }
    }
    assert(out@ + ass_bytes_from(b, n as int, enc) =~= out@);
    out
}

} // verus!
