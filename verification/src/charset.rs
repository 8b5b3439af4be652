//! Legacy code pages of ASS/SSA metadata: the style `Encoding` value, and
//! decoding of byte runs that are not valid UTF-8.
use encoding_rs::Encoding;
use vstd::prelude::*;
use vstd::utf8::{decode_utf8, valid_utf8};

verus! {

/// The Windows code pages an ASS `Encoding` value can name.
#[derive(Debug, Clone, Copy, PartialEq, Eq, Structural)]
pub enum LegacyCodec {
    Windows1252,
    ShiftJis,
    EucKr,
    Gbk,
    Big5,
    Windows1253,
    Windows1254,
    Windows1258,
    Windows1255,
    Windows1256,
    Windows1257,
    Windows1251,
    Windows874,
    Windows1250,
}

/// The code page of an ASS/SSA `Encoding` value. Johab (130) and unknown
/// values have none.
pub open spec fn spec_ass_encoding(value: i32) -> Option<LegacyCodec> {
    if value == 0 || value == 1 || value == 77 {
        Some(LegacyCodec::Windows1252)
    } else if value == 128 {
        Some(LegacyCodec::ShiftJis)
    } else if value == 129 {
        Some(LegacyCodec::EucKr)
    } else if value == 134 {
        Some(LegacyCodec::Gbk)
    } else if value == 136 {
        Some(LegacyCodec::Big5)
    } else if value == 161 {
        Some(LegacyCodec::Windows1253)
    } else if value == 162 {
        Some(LegacyCodec::Windows1254)
    } else if value == 163 {
        Some(LegacyCodec::Windows1258)
    } else if value == 177 {
        Some(LegacyCodec::Windows1255)
    } else if value == 178 {
        Some(LegacyCodec::Windows1256)
    } else if value == 186 {
        Some(LegacyCodec::Windows1257)
    } else if value == 204 {
        Some(LegacyCodec::Windows1251)
    } else if value == 222 {
        Some(LegacyCodec::Windows874)
    } else if value == 238 {
        Some(LegacyCodec::Windows1250)
    } else {
        None
    }
}

/// Map an ASS/SSA `Encoding` value to its Windows code page.
pub fn ass_encoding(value: i32) -> (r: Option<LegacyCodec>)
    ensures
        r == spec_ass_encoding(value),
{
    match value {
        0 | 1 | 77 => Some(LegacyCodec::Windows1252),
        128 => Some(LegacyCodec::ShiftJis),
        129 => Some(LegacyCodec::EucKr),
        134 => Some(LegacyCodec::Gbk),
        136 => Some(LegacyCodec::Big5),
        161 => Some(LegacyCodec::Windows1253),
        162 => Some(LegacyCodec::Windows1254),
        163 => Some(LegacyCodec::Windows1258),
        177 => Some(LegacyCodec::Windows1255),
        178 => Some(LegacyCodec::Windows1256),
        186 => Some(LegacyCodec::Windows1257),
        204 => Some(LegacyCodec::Windows1251),
        222 => Some(LegacyCodec::Windows874),
        238 => Some(LegacyCodec::Windows1250),
        _ => None,
    }
}

/// The Windows charset ids of the `Encoding` field and their code pages:
/// ANSI (0), DEFAULT (1) and MAC (77) to windows-1252, SHIFTJIS (128) to
/// Shift_JIS, HANGUL (129) to EUC-KR, GB2312 (134) to GBK, CHINESEBIG5
/// (136) to Big5, GREEK (161) to windows-1253, TURKISH (162) to
/// windows-1254, VIETNAMESE (163) to windows-1258, HEBREW (177) to
/// windows-1255, ARABIC (178) to windows-1256, BALTIC (186) to
/// windows-1257, RUSSIAN (204) to windows-1251, THAI (222) to
/// windows-874, EASTEUROPE (238) to windows-1250; every other value
/// (Johab 130, SYMBOL 2, OEM 255, ...) has none.
pub proof fn lemma_encoding_table(v: i32)
    ensures
        spec_ass_encoding(0) == Some(LegacyCodec::Windows1252),
        spec_ass_encoding(1) == Some(LegacyCodec::Windows1252),
        spec_ass_encoding(77) == Some(LegacyCodec::Windows1252),
        spec_ass_encoding(128) == Some(LegacyCodec::ShiftJis),
        spec_ass_encoding(129) == Some(LegacyCodec::EucKr),
        spec_ass_encoding(134) == Some(LegacyCodec::Gbk),
        spec_ass_encoding(136) == Some(LegacyCodec::Big5),
        spec_ass_encoding(161) == Some(LegacyCodec::Windows1253),
        spec_ass_encoding(162) == Some(LegacyCodec::Windows1254),
        spec_ass_encoding(163) == Some(LegacyCodec::Windows1258),
        spec_ass_encoding(177) == Some(LegacyCodec::Windows1255),
        spec_ass_encoding(178) == Some(LegacyCodec::Windows1256),
        spec_ass_encoding(186) == Some(LegacyCodec::Windows1257),
        spec_ass_encoding(204) == Some(LegacyCodec::Windows1251),
        spec_ass_encoding(222) == Some(LegacyCodec::Windows874),
        spec_ass_encoding(238) == Some(LegacyCodec::Windows1250),
        codec_label(LegacyCodec::Windows1252) == "windows-1252"@,
        codec_label(LegacyCodec::ShiftJis) == "shift_jis"@,
        codec_label(LegacyCodec::EucKr) == "euc-kr"@,
        codec_label(LegacyCodec::Gbk) == "gbk"@,
        codec_label(LegacyCodec::Big5) == "big5"@,
        codec_label(LegacyCodec::Windows1253) == "windows-1253"@,
        codec_label(LegacyCodec::Windows1254) == "windows-1254"@,
        codec_label(LegacyCodec::Windows1258) == "windows-1258"@,
        codec_label(LegacyCodec::Windows1255) == "windows-1255"@,
        codec_label(LegacyCodec::Windows1256) == "windows-1256"@,
        codec_label(LegacyCodec::Windows1257) == "windows-1257"@,
        codec_label(LegacyCodec::Windows1251) == "windows-1251"@,
        codec_label(LegacyCodec::Windows874) == "windows-874"@,
        codec_label(LegacyCodec::Windows1250) == "windows-1250"@,
        !(v == 0 || v == 1 || v == 77 || v == 128 || v == 129 || v == 134 || v == 136 || v == 161 || v == 162 || v == 163 || v == 177 || v == 178 || v == 186 || v == 204 || v == 222 || v == 238) ==> spec_ass_encoding(v) is None,
{
}

/// The WHATWG label of a code page.
pub open spec fn codec_label(c: LegacyCodec) -> Seq<char> {
    match c {
        LegacyCodec::Windows1252 => "windows-1252"@,
        LegacyCodec::ShiftJis => "shift_jis"@,
        LegacyCodec::EucKr => "euc-kr"@,
        LegacyCodec::Gbk => "gbk"@,
        LegacyCodec::Big5 => "big5"@,
        LegacyCodec::Windows1253 => "windows-1253"@,
        LegacyCodec::Windows1254 => "windows-1254"@,
        LegacyCodec::Windows1258 => "windows-1258"@,
        LegacyCodec::Windows1255 => "windows-1255"@,
        LegacyCodec::Windows1256 => "windows-1256"@,
        LegacyCodec::Windows1257 => "windows-1257"@,
        LegacyCodec::Windows1251 => "windows-1251"@,
        LegacyCodec::Windows874 => "windows-874"@,
        LegacyCodec::Windows1250 => "windows-1250"@,
    }
}

fn codec_label_exec(c: LegacyCodec) -> (s: &'static str)
    ensures
        s@ == codec_label(c),
{
    match c {
        LegacyCodec::Windows1252 => "windows-1252",
        LegacyCodec::ShiftJis => "shift_jis",
        LegacyCodec::EucKr => "euc-kr",
        LegacyCodec::Gbk => "gbk",
        LegacyCodec::Big5 => "big5",
        LegacyCodec::Windows1253 => "windows-1253",
        LegacyCodec::Windows1254 => "windows-1254",
        LegacyCodec::Windows1258 => "windows-1258",
        LegacyCodec::Windows1255 => "windows-1255",
        LegacyCodec::Windows1256 => "windows-1256",
        LegacyCodec::Windows1257 => "windows-1257",
        LegacyCodec::Windows1251 => "windows-1251",
        LegacyCodec::Windows874 => "windows-874",
        LegacyCodec::Windows1250 => "windows-1250",
    }
}

/// What `Encoding::decode_without_bom_handling` gives for `bytes` under
/// the encoding that `Encoding::for_label` finds for `label`, or `None`
/// where it finds none.
pub uninterp spec fn legacy_decode(label: Seq<char>, bytes: Seq<u8>) -> Option<Seq<char>>;

/// What `String::from_utf8_lossy` gives for `bytes`.
pub uninterp spec fn utf8_lossy(bytes: Seq<u8>) -> Seq<char>;

/// Largest input handed to the decoder. Its output buffer is sized at up
/// to four bytes per input byte, rounded up to a power of two; that size
/// must fit in `usize`, or the decoder panics.
pub const MAX_DECODE_BYTES: usize = usize::MAX / 16;

pub open spec fn opt_chars(o: Option<String>) -> Option<Seq<char>> {
    match o {
        Some(s) => Some(s@),
        None => None,
    }
}

/// Decodes `bytes` with `encoding_rs`: `Encoding::for_label` looks up
/// `label`, then `Encoding::decode_without_bom_handling` decodes (no BOM
/// sniffing, malformed sequences become U+FFFD). The contract names the
/// result by `legacy_decode` and states that `for_label` knows every
/// label that `codec_label` produces (they are in its label table); the
/// decoding tables themselves are not restated.
#[verifier::external_body]
fn decode_with_label(label: &str, bytes: &[u8]) -> (r: Option<String>)
    requires
        bytes@.len() <= MAX_DECODE_BYTES,
    ensures
        opt_chars(r) == legacy_decode(label@, bytes@),
        (exists|c: LegacyCodec| codec_label(c) == label@) ==> r is Some,
{
    match Encoding::for_label(label.as_bytes()) {
        Some(encoding) => Some(encoding.decode_without_bom_handling(bytes).0.into_owned()),
        None => None,
    }
}

/// Text of `bytes` in code page `c`.
pub open spec fn codec_text(c: LegacyCodec, bytes: Seq<u8>) -> Seq<char> {
    match legacy_decode(codec_label(c), bytes) {
        Some(s) => s,
        None => Seq::empty(),
    }
}

/// Decode `bytes` in code page `c` (the decoder knows every label of a
/// code page, so this always decodes).
pub(crate) fn decode_codec(c: LegacyCodec, bytes: &[u8]) -> (r: String)
    requires
        bytes@.len() <= MAX_DECODE_BYTES,
    ensures
        r@ == codec_text(c, bytes@),
        legacy_decode(codec_label(c), bytes@) is Some,
{
    let label = codec_label_exec(c);
    match decode_with_label(label, bytes) {
        Some(s) => s,
        None => {
            assert(codec_label(c) == label@);
            String::new()
        },
    }
}

/// Calls `String::from_utf8_lossy`; the contract names its result by
/// `utf8_lossy` (malformed sequences become U+FFFD per std's rules, which
/// are not restated).
#[verifier::external_body]
pub(crate) fn lossy_utf8(bytes: &[u8]) -> (r: String)
    ensures
        r@ == utf8_lossy(bytes@),
{
    String::from_utf8_lossy(bytes).into_owned()
}

/// Calls `std::str::from_utf8`: it succeeds exactly on valid UTF-8, and
/// the text is the decoded scalars.
#[verifier::external_body]
pub(crate) fn utf8_text(bytes: &[u8]) -> (r: Option<&str>)
    ensures
        r is Some <==> valid_utf8(bytes@),
        r matches Some(s) ==> s@ == decode_utf8(bytes@),
{
    std::str::from_utf8(bytes).ok()
}

/// Width of the UTF-8 sequence a byte leads (1 for anything that cannot
/// lead a multi-byte scalar).
pub open spec fn scalar_width(first: u8) -> int {
    if 0xC2 <= first <= 0xDF {
        2
    } else if 0xE0 <= first <= 0xEF {
        3
    } else if 0xF0 <= first <= 0xF4 {
        4
    } else {
        1
    }
}

pub fn utf8_scalar_width(first: u8) -> (w: usize)
    ensures
        w == scalar_width(first),
{
    if 0xC2 <= first && first <= 0xDF {
        2
    } else if 0xE0 <= first && first <= 0xEF {
        3
    } else if 0xF0 <= first && first <= 0xF4 {
        4
    } else {
        1
    }
}

/// Text of a run of bytes that are not valid UTF-8: the code page of
/// `encoding` when it names one (lossy UTF-8 where the decoder knows no
/// such label), else lossy UTF-8.
pub open spec fn legacy_text(legacy: Seq<u8>, encoding: i32) -> Seq<char> {
    if legacy.len() == 0 {
        Seq::empty()
    } else {
        match spec_ass_encoding(encoding) {
            Some(c) => match legacy_decode(codec_label(c), legacy) {
                Some(s) => s,
                None => utf8_lossy(legacy),
            },
            None => utf8_lossy(legacy),
        }
    }
}

/// The multi-byte UTF-8 scalar at `i`, if one starts there.
pub open spec fn scalar_at(bytes: Seq<u8>, i: int) -> bool {
    let w = scalar_width(bytes[i]);
    w > 1 && i + w <= bytes.len() && valid_utf8(bytes.subrange(i, i + w))
}

/// Metadata text from byte `i` on, with `legacy` the pending run of bytes
/// that were not part of a multi-byte UTF-8 scalar.
pub open spec fn metadata_from(bytes: Seq<u8>, encoding: i32, i: int, legacy: Seq<u8>) -> Seq<char>
    decreases bytes.len() - i,
{
    if i < 0 || i >= bytes.len() {
        legacy_text(legacy, encoding)
    } else if scalar_at(bytes, i) {
        let w = scalar_width(bytes[i]);
        legacy_text(legacy, encoding) + decode_utf8(bytes.subrange(i, i + w)) + metadata_from(
            bytes,
            encoding,
            i + w,
            Seq::empty(),
        )
    } else {
        metadata_from(bytes, encoding, i + 1, legacy.push(bytes[i]))
    }
}

/// Decoded text of a metadata field: multi-byte UTF-8 scalars pass
/// through, every other run of bytes goes through the legacy code page.
pub open spec fn spec_decode_metadata(bytes: Seq<u8>, encoding: i32) -> Seq<char> {
    metadata_from(bytes, encoding, 0, Seq::empty())
}

fn push_text(out: &mut String, s: &str)
    ensures
        final(out)@ == old(out)@ + s@,
{
    crate::text::push_str(out, s)
}

fn flush_legacy(out: &mut String, legacy: &mut Vec<u8>, encoding: i32)
    requires
        old(legacy)@.len() <= MAX_DECODE_BYTES,
    ensures
        final(out)@ == old(out)@ + legacy_text(old(legacy)@, encoding),
        final(legacy)@.len() == 0,
{
    if legacy.len() == 0 {
        return;
    }
    let text = match ass_encoding(encoding) {
        Some(c) => {
            let label = codec_label_exec(c);
            match decode_with_label(label, legacy.as_slice()) {
                Some(s) => s,
                None => lossy_utf8(legacy.as_slice()),
            }
        },
        None => lossy_utf8(legacy.as_slice()),
    };
    push_text(out, text.as_str());
    legacy.clear();
}

/// Decode a metadata field without discarding valid Unicode runs: valid
/// multi-byte UTF-8 scalars pass through unchanged, every other run of
/// bytes is decoded with the code page of the style `encoding`.
pub fn decode_metadata_bytes(bytes: &[u8], encoding: i32) -> (r: String)
    requires
        bytes@.len() <= MAX_DECODE_BYTES,
    ensures
        r@ == spec_decode_metadata(bytes@, encoding),
{
    let mut output = String::new();
    let mut legacy: Vec<u8> = Vec::new();
    let mut offset: usize = 0;
    while offset < bytes.len()
        invariant
            0 <= offset <= bytes@.len(),
            bytes@.len() <= MAX_DECODE_BYTES,
            legacy@.len() <= offset,
            output@ + metadata_from(bytes@, encoding, offset as int, legacy@) == spec_decode_metadata(
                bytes@,
                encoding,
            ),
        decreases bytes@.len() - offset,
    {
        let width = utf8_scalar_width(bytes[offset]);
        if width > 1 && width <= bytes.len() - offset {
            let piece = crate::text::sub_bytes(bytes, offset, offset + width);
            match utf8_text(piece.as_slice()) {
                Some(text) => {
                    let ghost before = output@;
                    let ghost leg = legacy@;
                    let ghost rest = metadata_from(bytes@, encoding, offset + width, Seq::empty());
                    assert(piece@ =~= bytes@.subrange(offset as int, offset + width));
                    assert(scalar_at(bytes@, offset as int));
                    flush_legacy(&mut output, &mut legacy, encoding);
                    push_text(&mut output, text);
                    assert(metadata_from(bytes@, encoding, offset as int, leg) == legacy_text(
                        leg,
                        encoding,
                    ) + decode_utf8(piece@) + rest);
                    assert(output@ + rest =~= before + metadata_from(
                        bytes@,
                        encoding,
                        offset as int,
                        leg,
                    ));
                    assert(legacy@ =~= Seq::<u8>::empty());
                    offset += width;
                    continue;
                },
                None => {},
            }
        }
        legacy.push(bytes[offset]);
        offset += 1;
    }
    flush_legacy(&mut output, &mut legacy, encoding);
    output
}

} // verus!
