//! `[Fonts]` / `[Graphics]` sections: headers, payload validation and the
//! SSA uuencode variant used for embedded files.
use crate::parser::errors::{ParseError, ParseErrorView};
use crate::text::{utf8_lead, char_utf8_lead, debug_quoted, views_of, lines_of, str_views,
    dec_str, eq_ci, has_prefix_ci, push_decimal, push_hex2, push_str, str_chars,
    string_from, string_push, trim, trim_bounds, hex2,
};
use crate::types::attachment::{Attachment, AttachmentKind, AttachmentView};
use vstd::prelude::*;
use vstd::utf8::{encode_utf8, is_ascii_chars, is_ascii_chars_encode_utf8};

verus! {

/// Defensive caps for untrusted subtitle input.
pub const MAX_ATTACHMENTS: usize = 256;

/// Maximum decoded bytes per attachment (64 MiB).
pub const MAX_ATTACHMENT_BYTES: usize = 67_108_864;

/// Maximum decoded attachment bytes per document (128 MiB).
pub const MAX_TOTAL_ATTACHMENT_BYTES: usize = 134_217_728;

/// Longest encoded payload accepted for one attachment.
pub const MAX_ENCODED_BYTES: usize = 89_478_493;

// ---------------------------------------------------------------------
// Payload codec
// ---------------------------------------------------------------------
/// The payload alphabet: `'!'` (33) through `` '`' `` (96).
pub open spec fn is_payload(c: u8) -> bool {
    33 <= c <= 96
}

pub open spec fn all_payload(e: Seq<u8>) -> bool {
    forall|k: int| 0 <= k < e.len() ==> is_payload(#[trigger] e[k])
}

/// The six bits a payload byte carries.
pub open spec fn sextet(c: u8) -> int {
    c as int - 33
}

/// Bytes of one group of two to four payload characters.
pub open spec fn group_bytes(g: Seq<u8>) -> Seq<u8> {
    let s0 = sextet(g[0]);
    let s1 = sextet(g[1]);
    let s2 = if g.len() >= 3 {
        sextet(g[2])
    } else {
        0
    };
    let s3 = if g.len() >= 4 {
        sextet(g[3])
    } else {
        0
    };
    let b0 = (s0 * 4 + s1 / 16) as u8;
    let b1 = ((s1 % 16) * 16 + s2 / 4) as u8;
    let b2 = ((s2 % 4) * 64 + s3) as u8;
    if g.len() == 2 {
        seq![b0]
    } else if g.len() == 3 {
        seq![b0, b1]
    } else {
        seq![b0, b1, b2]
    }
}

/// Decoding group by group: 4 characters give 3 bytes, a final group of
/// 3 gives 2 and a final group of 2 gives 1.
pub open spec fn decode_groups(e: Seq<u8>) -> Seq<u8>
    decreases e.len(),
{
    if e.len() == 0 {
        Seq::empty()
    } else if e.len() <= 4 {
        group_bytes(e)
    } else {
        group_bytes(e.take(4)) + decode_groups(e.skip(4))
    }
}

/// `decode_attachment_data`: `None` for a lone trailing character or a
/// byte outside the payload alphabet.
pub open spec fn spec_decode(e: Seq<u8>) -> Option<Seq<u8>> {
    if e.len() % 4 == 1 || !all_payload(e) {
        None
    } else {
        Some(decode_groups(e))
    }
}

/// Payload characters for one chunk of one to three bytes.
pub open spec fn group_chars(c: Seq<u8>) -> Seq<u8> {
    let b0 = c[0] as int;
    let b1 = if c.len() >= 2 {
        c[1] as int
    } else {
        0
    };
    let b2 = if c.len() >= 3 {
        c[2] as int
    } else {
        0
    };
    let s0 = (b0 / 4 + 33) as u8;
    let s1 = ((b0 % 4) * 16 + b1 / 16 + 33) as u8;
    let s2 = ((b1 % 16) * 4 + b2 / 64 + 33) as u8;
    let s3 = (b2 % 64 + 33) as u8;
    if c.len() == 1 {
        seq![s0, s1]
    } else if c.len() == 2 {
        seq![s0, s1, s2]
    } else {
        seq![s0, s1, s2, s3]
    }
}

/// Encoding chunk by chunk (three bytes to four characters).
pub open spec fn spec_encode(d: Seq<u8>) -> Seq<u8>
    decreases d.len(),
{
    if d.len() == 0 {
        Seq::empty()
    } else if d.len() <= 3 {
        group_chars(d)
    } else {
        group_chars(d.take(3)) + spec_encode(d.skip(3))
    }
}

/// Byte values of an ASCII char sequence.
pub open spec fn chars_as_bytes(s: Seq<char>) -> Seq<u8> {
    s.map_values(|c: char| c as u8)
}

/// Payload bytes as the text characters of the same code.
pub open spec fn payload_text(e: Seq<u8>) -> Seq<char> {
    e.map_values(|b: u8| b as char)
}

#[verifier::spinoff_prover]
#[verifier::rlimit(30)]
pub fn decode_attachment_data(encoded: &[u8]) -> (r: Option<Vec<u8>>)
    ensures
        r matches Some(v) ==> spec_decode(encoded@) == Some(v@),
        r is None ==> spec_decode(encoded@) is None,
{
    let n = encoded.len();
    if n % 4 == 1 {
        return None;
    }
    let mut k: usize = 0;
    while k < n
        invariant
            0 <= k <= n,
            n == encoded@.len(),
            forall|j: int| 0 <= j < k ==> is_payload(#[trigger] encoded@[j]),
        decreases n - k,
    {
        let c = encoded[k];
        if !(33 <= c && c <= 96) {
            assert(!is_payload(encoded@[k as int]));
            return None;
        }
        k += 1;
    }
    let mut out: Vec<u8> = Vec::new();
    let mut i: usize = 0;
    assert(encoded@.skip(0) =~= encoded@);
    while i < n
        invariant
            0 <= i <= n,
            n == encoded@.len(),
            n % 4 != 1,
            i % 4 == 0 || i == n,
            all_payload(encoded@),
            out@ + decode_groups(encoded@.skip(i as int)) == decode_groups(encoded@),
        decreases n - i,
    {
        let len = if n - i >= 4 {
            4
        } else {
            n - i
        };
        let ghost before = out@;
        push_group(&mut out, encoded, i, len);
        proof {
            let g = encoded@.subrange(i as int, i + len);
            let rest = encoded@.skip(i as int);
            assert(g =~= rest.take(len as int));
            if rest.len() <= 4 {
                assert(rest =~= g);
                assert(encoded@.skip(i + len) =~= Seq::<u8>::empty());
                assert(decode_groups(encoded@.skip(i + len)) =~= Seq::<u8>::empty());
            } else {
                assert(rest.skip(4) =~= encoded@.skip(i + 4));
            }
            assert(before + group_bytes(g) + decode_groups(encoded@.skip(i + len)) == before
                + decode_groups(rest));
        }
        i = i + len;
    }
    assert(encoded@.skip(n as int) =~= Seq::<u8>::empty());
    assert(out@ + Seq::<u8>::empty() =~= out@);
    Some(out)
}

fn push_group(out: &mut Vec<u8>, e: &[u8], i: usize, len: usize)
    requires
        2 <= len <= 4,
        i + len <= e@.len(),
        all_payload(e@),
    ensures
        final(out)@ == old(out)@ + group_bytes(e@.subrange(i as int, i + len)),
{
    let ghost g = e@.subrange(i as int, i + len);
    assert(is_payload(e@[i as int]) && is_payload(e@[i + 1]));
    let s0 = (e[i] - 33) as u32;
    let s1 = (e[i + 1] - 33) as u32;
    let s2 = if len >= 3 {
        assert(is_payload(e@[i + 2]));
        (e[i + 2] - 33) as u32
    } else {
        0
    };
    let s3 = if len >= 4 {
        assert(is_payload(e@[i + 3]));
        (e[i + 3] - 33) as u32
    } else {
        0
    };
    let b0 = (s0 * 4 + s1 / 16) as u8;
    let b1 = ((s1 % 16) * 16 + s2 / 4) as u8;
    let b2 = ((s2 % 4) * 64 + s3) as u8;
    out.push(b0);
    if len >= 3 {
        out.push(b1);
    }
    if len >= 4 {
        out.push(b2);
    }
    assert(g[0] == e@[i as int] && g[1] == e@[i + 1]);
    assert(len >= 3 ==> g[2] == e@[i + 2]);
    assert(len >= 4 ==> g[3] == e@[i + 3]);
    assert(out@ =~= old(out)@ + group_bytes(g));
}

/// Encode bytes into embedded-attachment payload text (the inverse of
/// [`decode_attachment_data`]): one ASCII character per payload byte.
pub fn encode_attachment_data(data: &[u8]) -> (r: String)
    ensures
        r@ == payload_text(spec_encode(data@)),
        is_ascii_chars(r@),
        encode_utf8(r@) == spec_encode(data@),
        spec_decode(encode_utf8(r@)) == Some(data@),
{
    let n = data.len();
    let mut out = String::new();
    let mut i: usize = 0;
    assert(data@.skip(0) =~= data@);
    assert(out@ =~= payload_text(Seq::<u8>::empty()));
    while i < n
        invariant
            0 <= i <= n,
            n == data@.len(),
            i % 3 == 0 || i == n,
            out@ + payload_text(spec_encode(data@.skip(i as int))) == payload_text(spec_encode(data@)),
        decreases n - i,
    {
        let len = if n - i >= 3 {
            3
        } else {
            n - i
        };
        let ghost before = out@;
        push_chunk(&mut out, data, i, len);
        proof {
            let g = data@.subrange(i as int, i + len);
            let rest = data@.skip(i as int);
            assert(g =~= rest.take(len as int));
            if rest.len() <= 3 {
                assert(rest =~= g);
                assert(data@.skip(i + len) =~= Seq::<u8>::empty());
                assert(spec_encode(data@.skip(i + len)) =~= Seq::<u8>::empty());
                assert(payload_text(spec_encode(rest)) =~= payload_text(group_chars(g)) + payload_text(
                    spec_encode(data@.skip(i + len)),
                ));
            } else {
                assert(rest.skip(3) =~= data@.skip(i + 3));
                assert(spec_encode(rest) == group_chars(g) + spec_encode(data@.skip(i + len)));
                assert(payload_text(spec_encode(rest)) =~= payload_text(group_chars(g)) + payload_text(
                    spec_encode(data@.skip(i + len)),
                ));
            }
            assert(out@ + payload_text(spec_encode(data@.skip(i + len))) =~= before + payload_text(
                spec_encode(rest),
            ));
        }
        i = i + len;
    }
    assert(data@.skip(n as int) =~= Seq::<u8>::empty());
    assert(out@ + payload_text(Seq::<u8>::empty()) =~= out@);
    proof {
        lemma_encoded_text_decodes(data@);
    }
    out
}

fn push_chunk(out: &mut String, d: &[u8], i: usize, len: usize)
    requires
        1 <= len <= 3,
        i + len <= d@.len(),
    ensures
        final(out)@ == old(out)@ + payload_text(group_chars(d@.subrange(i as int, i + len))),
{
    let ghost g = d@.subrange(i as int, i + len);
    let b0 = d[i] as u32;
    let b1 = if len >= 2 {
        d[i + 1] as u32
    } else {
        0
    };
    let b2 = if len >= 3 {
        d[i + 2] as u32
    } else {
        0
    };
    let c0 = (b0 / 4 + 33) as u8;
    let c1 = ((b0 % 4) * 16 + b1 / 16 + 33) as u8;
    let c2 = ((b1 % 16) * 4 + b2 / 64 + 33) as u8;
    let c3 = (b2 % 64 + 33) as u8;
    string_push(out, c0 as char);
    string_push(out, c1 as char);
    if len >= 2 {
        string_push(out, c2 as char);
    }
    if len >= 3 {
        string_push(out, c3 as char);
    }
    assert(g[0] == d@[i as int]);
    assert(len >= 2 ==> g[1] == d@[i + 1]);
    assert(len >= 3 ==> g[2] == d@[i + 2]);
    assert(out@ =~= old(out)@ + payload_text(group_chars(g)));
}

proof fn lemma_group_roundtrip(c: Seq<u8>)
    requires
        1 <= c.len() <= 3,
    ensures
        all_payload(group_chars(c)),
        group_chars(c).len() == c.len() + 1,
        group_bytes(group_chars(c)) == c,
{
    let b0 = c[0];
    let b1: u8 = if c.len() >= 2 {
        c[1]
    } else {
        0
    };
    let b2: u8 = if c.len() >= 3 {
        c[2]
    } else {
        0
    };
    let g = group_chars(c);
    assert(g[0] as int == b0 / 4 + 33);
    assert(g[1] as int == (b0 % 4) * 16 + b1 / 16 + 33);
    if c.len() >= 2 {
        assert(g[2] as int == (b1 % 16) * 4 + b2 / 64 + 33);
    }
    if c.len() >= 3 {
        assert(g[3] as int == b2 % 64 + 33);
    }
    let d = group_bytes(g);
    assert(d =~= c);
}

/// Decoding the encoding of any byte string gives the byte string back.
pub proof fn lemma_encode_decode_roundtrip(d: Seq<u8>)
    ensures
        spec_decode(spec_encode(d)) == Some(d),
        spec_encode(d).len() % 4 != 1,
        all_payload(spec_encode(d)),
    decreases d.len(),
{
    if d.len() == 0 {
        assert(decode_groups(Seq::<u8>::empty()) =~= Seq::<u8>::empty());
    } else if d.len() <= 3 {
        lemma_group_roundtrip(d);
    } else {
        let head = d.take(3);
        let tail = d.skip(3);
        lemma_group_roundtrip(head);
        lemma_encode_decode_roundtrip(tail);
        let e = spec_encode(d);
        let gh = group_chars(head);
        let et = spec_encode(tail);
        assert(e == gh + et);
        assert(e.take(4) =~= gh);
        assert(e.skip(4) =~= et);
        assert(e.len() > 4) by {
            assert(et.len() % 4 != 1);
            assert(et.len() > 0) by {
                lemma_encode_len(tail);
            }
        }
        assert(all_payload(e)) by {
            assert forall|k: int| 0 <= k < e.len() implies is_payload(#[trigger] e[k]) by {
                if k < 4 {
                    assert(e[k] == gh[k]);
                } else {
                    assert(e[k] == et[k - 4]);
                }
            }
        }
        assert(decode_groups(e) =~= head + tail);
        assert(head + tail =~= d);
    }
}

/// The UTF-8 bytes of the encoded text (what `as_bytes` gives) are the
/// payload bytes, and decoding them gives the data back: for any data,
/// `decode_attachment_data(encode_attachment_data(data).as_bytes())` is
/// `Some(data)`.
pub proof fn lemma_encoded_text_decodes(d: Seq<u8>)
    ensures
        is_ascii_chars(payload_text(spec_encode(d))),
        encode_utf8(payload_text(spec_encode(d))) == spec_encode(d),
        spec_decode(encode_utf8(payload_text(spec_encode(d)))) == Some(d),
{
    lemma_encode_decode_roundtrip(d);
    let e = spec_encode(d);
    let t = payload_text(e);
    assert forall|k: int| 0 <= k < t.len() implies '\0' <= #[trigger] t[k] <= '\u{7f}' && t[k] as u8
        == e[k] by {
        assert(is_payload(e[k]));
        let b = e[k];
        assert((b as char) as u32 == b as u32);
    }
    assert(is_ascii_chars(t));
    is_ascii_chars_encode_utf8(t);
    assert(encode_utf8(t) =~= e);
}

proof fn lemma_encode_len(d: Seq<u8>)
    ensures
        d.len() > 0 ==> spec_encode(d).len() > 0,
        spec_encode(d).len() % 4 != 1,
    decreases d.len(),
{
    if d.len() > 3 {
        lemma_encode_len(d.skip(3));
    }
}

// ---------------------------------------------------------------------
// Section parsing
// ---------------------------------------------------------------------
/// `str::trim_end_matches(['\r', '\n'])`.
pub open spec fn strip_crlf_end(s: Seq<char>) -> Seq<char>
    decreases s.len(),
{
    if s.len() > 0 && (s.last() == '\r' || s.last() == '\n') {
        strip_crlf_end(s.drop_last())
    } else {
        s
    }
}

/// A `fontname:` / `filename:` header (any ASCII case): the prefix as
/// written and the rest of the line.
pub open spec fn spec_header(line: Seq<char>) -> Option<(Seq<char>, Seq<char>)> {
    if crate::text::starts_with_ci(line, "fontname:"@) || crate::text::starts_with_ci(
        line,
        "filename:"@,
    ) {
        Some((line.subrange(0, 9), line.subrange(9, line.len() as int)))
    } else {
        None
    }
}

pub open spec fn expected_header(kind: AttachmentKind) -> Seq<char> {
    match kind {
        AttachmentKind::Font => "fontname:"@,
        AttachmentKind::Graphic => "filename:"@,
    }
}

/// The header that belongs to the other section.
pub open spec fn other_header(kind: AttachmentKind) -> Seq<char> {
    match kind {
        AttachmentKind::Font => "filename:"@,
        AttachmentKind::Graphic => "fontname:"@,
    }
}

pub open spec fn line_err(line: int, message: Seq<char>) -> ParseErrorView {
    ParseErrorView::LineError { line: line as usize, message }
}

/// Parser state between lines: the attachments so far (the last one's
/// data still pending), its encoded payload, and its header's index.
pub struct AttState {
    pub atts: Seq<AttachmentView>,
    pub encoded: Seq<u8>,
    pub header: int,
}

pub open spec fn wrong_section_message(kind: AttachmentKind) -> Seq<char> {
    "Attachment header \""@ + other_header(kind) + "\" in the wrong section (expected \""@
        + expected_header(kind) + "\")"@
}

pub open spec fn bad_byte_message(b: u8, filename: Seq<char>) -> Seq<char> {
    "Invalid encoded byte 0x"@ + hex2(b) + " in attachment "@ + crate::text::debug_str(filename)
        + " (expected '!'..='`')"@
}

pub open spec fn too_many_message() -> Seq<char> {
    "Too many attachments (limit "@ + dec_str(MAX_ATTACHMENTS as nat) + ")"@
}

/// Decode the pending payload into the last attachment.
pub open spec fn spec_flush(st: AttState, start: int) -> Result<Seq<AttachmentView>, ParseErrorView> {
    let last = st.atts.last();
    match spec_decode(st.encoded) {
        None => Err(
            line_err(
                start + st.header,
                "Invalid uuencoded payload for attachment "@ + crate::text::debug_str(
                    last.filename,
                ),
            ),
        ),
        Some(d) => if d.len() > MAX_ATTACHMENT_BYTES {
            Err(
                line_err(
                    start + st.header,
                    "Attachment "@ + crate::text::debug_str(last.filename)
                        + " exceeds the size limit"@,
                ),
            )
        } else {
            Ok(
                st.atts.update(
                    st.atts.len() - 1,
                    AttachmentView { kind: last.kind, filename: last.filename, data: d },
                ),
            )
        },
    }
}

/// Index of the first char of `s` outside the payload alphabet, or `s.len()`.
pub open spec fn first_bad(s: Seq<char>, i: int) -> int
    decreases s.len() - i,
{
    if i < 0 || i >= s.len() {
        s.len() as int
    } else if !('!' <= s[i] && s[i] <= '`') {
        i
    } else {
        first_bad(s, i + 1)
    }
}

/// One line of a `[Fonts]` / `[Graphics]` section.
pub open spec fn att_step(
    kind: AttachmentKind,
    start: int,
    i: int,
    raw: Seq<char>,
    st: AttState,
) -> Result<AttState, ParseErrorView> {
    let line = strip_crlf_end(raw);
    match spec_header(line) {
        Some((prefix, name)) => {
            if !crate::text::eq_ci(prefix, expected_header(kind)) {
                Err(line_err(start + i, wrong_section_message(kind)))
            } else if st.atts.len() >= MAX_ATTACHMENTS {
                Err(line_err(start + i, too_many_message()))
            } else {
                let flushed = if st.atts.len() > 0 {
                    spec_flush(st, start)
                } else {
                    Ok(st.atts)
                };
                match flushed {
                    Err(e) => Err(e),
                    Ok(atts) => {
                        let filename = trim(name);
                        if filename.len() == 0 {
                            Err(line_err(start + i, "Attachment header with empty filename"@))
                        } else {
                            Ok(
                                AttState {
                                    atts: atts.push(
                                        AttachmentView { kind, filename, data: Seq::empty() },
                                    ),
                                    encoded: Seq::empty(),
                                    header: i,
                                },
                            )
                        }
                    },
                }
            }
        },
        None => {
            if st.atts.len() == 0 {
                Ok(st)
            } else {
                let bad = first_bad(line, 0);
                if bad < line.len() {
                    Err(
                        line_err(
                            start + i,
                            bad_byte_message(utf8_lead(line[bad]), st.atts.last().filename),
                        ),
                    )
                } else {
                    let enc = st.encoded + chars_as_bytes(line);
                    if enc.len() > MAX_ENCODED_BYTES {
                        Err(
                            line_err(
                                start + i,
                                "Attachment payload exceeds the "@ + dec_str(64) + " MiB limit"@,
                            ),
                        )
                    } else {
                        Ok(AttState { atts: st.atts, encoded: enc, header: st.header })
                    }
                }
            }
        },
    }
}

pub open spec fn att_fold(
    kind: AttachmentKind,
    start: int,
    lines: Seq<Seq<char>>,
    i: int,
    st: AttState,
) -> Result<AttState, ParseErrorView>
    decreases lines.len() - i,
{
    if i < 0 || i >= lines.len() {
        Ok(st)
    } else {
        match att_step(kind, start, i, lines[i], st) {
            Ok(next) => att_fold(kind, start, lines, i + 1, next),
            Err(e) => Err(e),
        }
    }
}

/// `parse_attachments` on the lines of a section.
pub open spec fn spec_parse_attachments(
    lines: Seq<Seq<char>>,
    kind: AttachmentKind,
    start: int,
) -> Result<Seq<AttachmentView>, ParseErrorView> {
    match att_fold(kind, start, lines, 0, AttState { atts: Seq::empty(), encoded: Seq::empty(), header: 0 }) {
        Err(e) => Err(e),
        Ok(st) => if st.atts.len() == 0 {
            Ok(st.atts)
        } else {
            spec_flush(st, start)
        },
    }
}

pub open spec fn att_views(v: Seq<Attachment>) -> Seq<AttachmentView> {
    v.map_values(|a: Attachment| a@)
}

fn strip_crlf_bound(s: &[char]) -> (hi: usize)
    ensures
        hi <= s@.len(),
        s@.subrange(0, hi as int) == strip_crlf_end(s@),
{
    let mut hi = s.len();
    assert(s@.subrange(0, hi as int) =~= s@);
    while hi > 0 && (s[hi - 1] == '\r' || s[hi - 1] == '\n')
        invariant
            hi <= s@.len(),
            strip_crlf_end(s@.subrange(0, hi as int)) == strip_crlf_end(s@),
        decreases hi,
    {
        assert(s@.subrange(0, hi as int).drop_last() =~= s@.subrange(0, hi - 1));
        hi -= 1;
    }
    hi
}

fn header_message_prefix(kind: AttachmentKind) -> (r: String)
    ensures
        r@ == wrong_section_message(kind),
{
    let mut out = String::new();
    push_str(&mut out, "Attachment header \"");
    match kind {
        AttachmentKind::Font => push_str(&mut out, "filename:"),
        AttachmentKind::Graphic => push_str(&mut out, "fontname:"),
    }
    push_str(&mut out, "\" in the wrong section (expected \"");
    match kind {
        AttachmentKind::Font => push_str(&mut out, "fontname:"),
        AttachmentKind::Graphic => push_str(&mut out, "filename:"),
    }
    push_str(&mut out, "\")");
    out
}

fn too_many() -> (r: String)
    ensures
        r@ == too_many_message(),
{
    let mut out = String::new();
    push_str(&mut out, "Too many attachments (limit ");
    push_decimal(&mut out, MAX_ATTACHMENTS as u64);
    push_str(&mut out, ")");
    out
}

fn quoted_message(before: &str, name: &String, after: &str) -> (r: String)
    ensures
        r@ == before@ + crate::text::debug_str(name@) + after@,
{
    let mut out = String::new();
    push_str(&mut out, before);
    let q = debug_quoted(name.as_str());
    push_str(&mut out, q.as_str());
    push_str(&mut out, after);
    out
}

/// Decode the pending payload into the last attachment.
fn flush(atts: &mut Vec<Attachment>, encoded: &Vec<u8>, header: usize, start: usize) -> (r: Result<(), ParseError>)
    requires
        old(atts)@.len() > 0,
        start + header <= usize::MAX,
    ensures
        match r {
            Ok(()) => spec_flush(
                AttState { atts: att_views(old(atts)@), encoded: encoded@, header: header as int },
                start as int,
            ) == Ok::<Seq<AttachmentView>, ParseErrorView>(att_views(final(atts)@)),
            Err(e) => spec_flush(
                AttState { atts: att_views(old(atts)@), encoded: encoded@, header: header as int },
                start as int,
            ) == Err::<Seq<AttachmentView>, ParseErrorView>(e@),
        },
{
    let last = atts.len() - 1;
    let ghost st = AttState { atts: att_views(atts@), encoded: encoded@, header: header as int };
    assert(st.atts.last() == atts@[last as int]@);
    match decode_attachment_data(encoded.as_slice()) {
        None => {
            let msg = quoted_message(
                "Invalid uuencoded payload for attachment ",
                &atts[last].filename,
                "",
            );
            proof {
                reveal_strlit("");
            }
            assert(msg@ =~= "Invalid uuencoded payload for attachment "@ + crate::text::debug_str(
                st.atts.last().filename,
            ));
            Err(ParseError::line_error(start + header, msg))
        },
        Some(data) => {
            if data.len() > MAX_ATTACHMENT_BYTES {
                let msg = quoted_message("Attachment ", &atts[last].filename, " exceeds the size limit");
                Err(ParseError::line_error(start + header, msg))
            } else {
                let ghost d = data@;
                let kind = atts[last].kind;
                let filename = atts[last].filename.clone();
                let ghost before = atts@;
                atts.set(last, Attachment { kind, filename, data });
                assert(att_views(atts@) =~= st.atts.update(
                    st.atts.len() - 1,
                    AttachmentView { kind: st.atts.last().kind, filename: st.atts.last().filename, data: d },
                ));
                Ok(())
            }
        },
    }
}

pub open spec fn state_of(atts: Seq<Attachment>, encoded: Seq<u8>, header: usize) -> AttState {
    AttState { atts: att_views(atts), encoded, header: header as int }
}

fn first_bad_index(s: &[char], hi: usize) -> (r: usize)
    requires
        hi <= s@.len(),
    ensures
        r == first_bad(s@.subrange(0, hi as int), 0),
        r <= hi,
{
    let ghost t = s@.subrange(0, hi as int);
    let mut k: usize = 0;
    while k < hi && ('!' <= s[k] && s[k] <= '`')
        invariant
            0 <= k <= hi,
            hi <= s@.len(),
            t == s@.subrange(0, hi as int),
            first_bad(t, k as int) == first_bad(t, 0),
        decreases hi - k,
    {
        assert(t[k as int] == s@[k as int]);
        k += 1;
    }
    if k < hi {
        assert(t[k as int] == s@[k as int]);
    }
    k
}

fn att_step_exec(
    kind: AttachmentKind,
    start: usize,
    i: usize,
    raw: &Vec<char>,
    atts: &mut Vec<Attachment>,
    encoded: &mut Vec<u8>,
    header: &mut usize,
) -> (r: Result<(), ParseError>)
    requires
        start + i <= usize::MAX,
        *old(header) <= i,
    ensures
        *final(header) <= i,
        match r {
            Ok(()) => att_step(kind, start as int, i as int, raw@, state_of(old(atts)@, old(encoded)@, *old(header)))
                == Ok::<AttState, ParseErrorView>(state_of(final(atts)@, final(encoded)@, *final(header))),
            Err(e) => att_step(kind, start as int, i as int, raw@, state_of(old(atts)@, old(encoded)@, *old(header)))
                == Err::<AttState, ParseErrorView>(e@),
        },
{
    let ghost st = state_of(atts@, encoded@, *header);
    let hi = strip_crlf_bound(raw.as_slice());
    let line = crate::text::sub_chars(raw.as_slice(), 0, hi);
    let ghost lv = strip_crlf_end(raw@);
    assert(line@ == lv);
    let fontname = str_chars("fontname:");
    let filename_h = str_chars("filename:");
    let is_header = has_prefix_ci(line.as_slice(), fontname.as_slice()) || has_prefix_ci(
        line.as_slice(),
        filename_h.as_slice(),
    );
    if is_header {
        proof {
            reveal_strlit("fontname:");
            reveal_strlit("filename:");
        }
        let expected = match kind {
            AttachmentKind::Font => str_chars("fontname:"),
            AttachmentKind::Graphic => str_chars("filename:"),
        };
        let prefix = crate::text::sub_chars(line.as_slice(), 0, 9);
        let matches = has_prefix_ci(prefix.as_slice(), expected.as_slice());
        assert(prefix@.subrange(0, 9) =~= prefix@);
        if !matches {
            return Err(ParseError::line_error(start + i, header_message_prefix(kind)));
        }
        if atts.len() >= MAX_ATTACHMENTS {
            return Err(ParseError::line_error(start + i, too_many()));
        }
        if atts.len() > 0 {
            match flush(atts, encoded, *header, start) {
                Ok(()) => {},
                Err(e) => return Err(e),
            }
        }
        let name = crate::text::sub_chars(line.as_slice(), 9, line.len());
        let (lo, hi2) = trim_bounds(name.as_slice());
        if lo == hi2 {
            let mut msg = String::new();
            push_str(&mut msg, "Attachment header with empty filename");
            return Err(ParseError::line_error(start + i, msg));
        }
        let filename = string_from(name.as_slice(), lo, hi2);
        let ghost mid = att_views(atts@);
        atts.push(Attachment { kind, filename, data: Vec::new() });
        assert(att_views(atts@) =~= mid.push(
            AttachmentView { kind, filename: trim(name@), data: Seq::empty() },
        ));
        *encoded = Vec::new();
        *header = i;
        Ok(())
    } else {
        if atts.len() == 0 {
            return Ok(());
        }
        let bad = first_bad_index(line.as_slice(), line.len());
        assert(line@.subrange(0, line@.len() as int) =~= line@);
        if bad < line.len() {
            let b = char_utf8_lead(line[bad]);
            let last = atts.len() - 1;
            let mut msg = String::new();
            push_str(&mut msg, "Invalid encoded byte 0x");
            push_hex2(&mut msg, b);
            push_str(&mut msg, " in attachment ");
            let q = debug_quoted(atts[last].filename.as_str());
            push_str(&mut msg, q.as_str());
            push_str(&mut msg, " (expected '!'..='`')");
            assert(st.atts.last() == atts@[last as int]@);
            return Err(ParseError::line_error(start + i, msg));
        }
        let ghost before = encoded@;
        let mut k: usize = 0;
        while k < line.len()
            invariant
                0 <= k <= line@.len(),
                encoded@ == before + chars_as_bytes(line@.subrange(0, k as int)),
            decreases line@.len() - k,
        {
            encoded.push(line[k] as u8);
            k += 1;
            assert(chars_as_bytes(line@.subrange(0, k as int)) =~= chars_as_bytes(
                line@.subrange(0, k - 1),
            ).push(line@[k - 1] as u8));
        }
        assert(line@.subrange(0, line@.len() as int) =~= line@);
        if encoded.len() > MAX_ENCODED_BYTES {
            let mut msg = String::new();
            push_str(&mut msg, "Attachment payload exceeds the ");
            push_decimal(&mut msg, 64);
            push_str(&mut msg, " MiB limit");
            return Err(ParseError::line_error(start + i, msg));
        }
        Ok(())
    }
}

/// Parse the lines of a `[Fonts]` or `[Graphics]` section.
pub fn parse_attachment_lines(
    lines: &Vec<Vec<char>>,
    kind: AttachmentKind,
    start_line: usize,
) -> (r: Result<Vec<Attachment>, ParseError>)
    requires
        start_line + lines@.len() <= usize::MAX,
    ensures
        match r {
            Ok(v) => spec_parse_attachments(views_of(lines@), kind, start_line as int) == Ok::<
                Seq<AttachmentView>,
                ParseErrorView,
            >(att_views(v@)),
            Err(e) => spec_parse_attachments(views_of(lines@), kind, start_line as int) == Err::<
                Seq<AttachmentView>,
                ParseErrorView,
            >(e@),
        },
{
    let ghost ls = views_of(lines@);
    let mut atts: Vec<Attachment> = Vec::new();
    let mut encoded: Vec<u8> = Vec::new();
    let mut header: usize = 0;
    let mut i: usize = 0;
    let ghost init = AttState { atts: Seq::empty(), encoded: Seq::empty(), header: 0 };
    assert(state_of(atts@, encoded@, header) == init) by {
        assert(att_views(atts@) =~= Seq::<AttachmentView>::empty());
    }
    while i < lines.len()
        invariant
            0 <= i <= lines@.len(),
            ls == views_of(lines@),
            init == (AttState { atts: Seq::empty(), encoded: Seq::empty(), header: 0 }),
            start_line + lines@.len() <= usize::MAX,
            header <= i,
            att_fold(kind, start_line as int, ls, 0, init) == att_fold(
                kind,
                start_line as int,
                ls,
                i as int,
                state_of(atts@, encoded@, header),
            ),
        decreases lines@.len() - i,
    {
        let ghost pre = state_of(atts@, encoded@, header);
        assert(ls[i as int] == lines@[i as int]@);
        match att_step_exec(kind, start_line, i, &lines[i], &mut atts, &mut encoded, &mut header) {
            Ok(()) => {},
            Err(e) => {
                assert(att_fold(kind, start_line as int, ls, i as int, pre) == Err::<
                    AttState,
                    ParseErrorView,
                >(e@));
                assert(att_fold(kind, start_line as int, ls, 0, init) == Err::<
                    AttState,
                    ParseErrorView,
                >(e@));
                assert(spec_parse_attachments(ls, kind, start_line as int) == Err::<
                    Seq<AttachmentView>,
                    ParseErrorView,
                >(e@));
                return Err(e);
            },
        }
        i += 1;
    }
    if atts.len() == 0 {
        return Ok(atts);
    }
    match flush(&mut atts, &encoded, header, start_line) {
        Ok(()) => Ok(atts),
        Err(e) => Err(e),
    }
}

/// Parse the lines of a `[Fonts]` or `[Graphics]` section into
/// attachments: a header (`fontname:` in `[Fonts]`, `filename:` in
/// `[Graphics]`, any ASCII case) starts an attachment, every following
/// non-empty line must consist of payload characters and is appended to
/// its encoded data, which is decoded at the next header or the end.
pub fn parse_attachments(
    lines: &[&str],
    kind: AttachmentKind,
    start_line: usize,
) -> (r: Result<Vec<Attachment>, ParseError>)
    requires
        start_line + lines@.len() <= usize::MAX,
    ensures
        match r {
            Ok(v) => spec_parse_attachments(str_views(lines@), kind, start_line as int) == Ok::<
                Seq<AttachmentView>,
                ParseErrorView,
            >(att_views(v@)),
            Err(e) => spec_parse_attachments(str_views(lines@), kind, start_line as int) == Err::<
                Seq<AttachmentView>,
                ParseErrorView,
            >(e@),
        },
{
    let ls = lines_of(lines);
    parse_attachment_lines(&ls, kind, start_line)
}

} // verus!
