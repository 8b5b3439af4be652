//! SFNT font metadata: bounded big-endian readers, the table directory
//! of a single font or of one face of a collection, the `name` table's
//! family names, and the `OS/2`, `post` and `head` fields the renderer
//! reads.
pub mod manager;

pub use manager::{FontManager, FontMatch};
use crate::text::{chars_eq, string_of, trim, trim_chars};
use vstd::prelude::*;

verus! {

// ---------------------------------------------------------------------
// Readers
// ---------------------------------------------------------------------
/// Big-endian 16-bit value at `o`.
pub open spec fn be16(d: Seq<u8>, o: int) -> int {
    d[o] * 256 + d[o + 1]
}

/// Big-endian 32-bit value at `o`.
pub open spec fn be32(d: Seq<u8>, o: int) -> int {
    d[o] * 0x100_0000 + d[o + 1] * 0x1_0000 + d[o + 2] * 0x100 + d[o + 3]
}

pub open spec fn spec_read_u16(d: Seq<u8>, o: int) -> Option<u16> {
    if 0 <= o && o + 2 <= d.len() {
        Some(be16(d, o) as u16)
    } else {
        None
    }
}

/// Two's-complement reading of a 16-bit value.
pub open spec fn as_i16(v: u16) -> i16 {
    if v >= 0x8000 {
        (v - 0x1_0000) as i16
    } else {
        v as i16
    }
}

pub open spec fn spec_read_i16(d: Seq<u8>, o: int) -> Option<i16> {
    match spec_read_u16(d, o) {
        Some(v) => Some(as_i16(v)),
        None => None,
    }
}

pub open spec fn spec_read_u32(d: Seq<u8>, o: int) -> Option<u32> {
    if 0 <= o && o + 4 <= d.len() {
        Some(be32(d, o) as u32)
    } else {
        None
    }
}

/// The big-endian `u16` at `offset`, if the data holds it.
pub fn read_u16(data: &[u8], offset: usize) -> (r: Option<u16>)
    ensures
        r == spec_read_u16(data@, offset as int),
{
    if offset > data.len() || data.len() - offset < 2 {
        return None;
    }
    Some((data[offset] as u16) * 256 + data[offset + 1] as u16)
}

/// The big-endian `i16` at `offset`, if the data holds it.
pub fn read_i16(data: &[u8], offset: usize) -> (r: Option<i16>)
    ensures
        r == spec_read_i16(data@, offset as int),
{
    match read_u16(data, offset) {
        Some(v) => {
            if v >= 0x8000 {
                Some((v as i32 - 0x1_0000) as i16)
            } else {
                Some(v as i16)
            }
        },
        None => None,
    }
}

/// The big-endian `u32` at `offset`, if the data holds it.
pub fn read_u32(data: &[u8], offset: usize) -> (r: Option<u32>)
    ensures
        r == spec_read_u32(data@, offset as int),
{
    if offset > data.len() || data.len() - offset < 4 {
        return None;
    }
    Some(
        (data[offset] as u32) * 0x100_0000 + (data[offset + 1] as u32) * 0x1_0000 + (data[offset
            + 2] as u32) * 0x100 + data[offset + 3] as u32,
    )
}

// ---------------------------------------------------------------------
// Collections and table directories
// ---------------------------------------------------------------------
/// `'ttcf'`, the tag of a TrueType/OpenType collection header.
pub const TAG_TTCF: u32 = 0x7474_6366;

/// Most faces accepted in a collection, and most tables in a directory.
pub const MAX_FACES: u32 = 64;

/// The data starts with the collection tag.
pub open spec fn is_collection(d: Seq<u8>) -> bool {
    d.len() >= 4 && be32(d, 0) == TAG_TTCF
}

/// Faces in a collection (bounded, with its offset table present), or
/// one for anything else.
pub open spec fn spec_face_count(d: Seq<u8>) -> Option<int> {
    if is_collection(d) {
        match spec_read_u32(d, 8) {
            None => None,
            Some(count) => if count == 0 || count > MAX_FACES || d.len() < count * 4 + 12 {
                None
            } else {
                Some(count as int)
            },
        }
    } else {
        Some(1)
    }
}

fn starts_ttcf(data: &[u8]) -> (b: bool)
    ensures
        b == is_collection(data@),
{
    match read_u32(data, 0) {
        Some(t) => t == TAG_TTCF,
        None => false,
    }
}

/// Number of faces in a validated collection, or one for a single font.
pub fn collection_face_count(data: &[u8]) -> (r: Option<usize>)
    ensures
        match r {
            Some(n) => spec_face_count(data@) == Some(n as int),
            None => spec_face_count(data@) is None,
        },
{
    if starts_ttcf(data) {
        let count = match read_u32(data, 8) {
            Some(c) => c,
            None => return None,
        };
        if count == 0 || count > MAX_FACES {
            return None;
        }
        let offsets_len = (count as usize) * 4 + 12;
        if data.len() < offsets_len {
            return None;
        }
        Some(count as usize)
    } else {
        Some(1)
    }
}

/// Where the table directory of face `face` starts.
pub open spec fn spec_face_offset(d: Seq<u8>, face: u32) -> Option<int> {
    if is_collection(d) {
        match spec_read_u32(d, 8) {
            None => None,
            Some(count) => if face >= count || count > MAX_FACES {
                None
            } else {
                match spec_read_u32(d, 12 + face * 4) {
                    Some(o) => Some(o as int),
                    None => None,
                }
            },
        }
    } else if face == 0 {
        Some(0)
    } else {
        None
    }
}

/// The four tags of a single-face sfnt: TrueType `00 01 00 00`, `OTTO`,
/// `true` and `typ1`.
pub open spec fn sfnt_magic(m: int) -> bool {
    m == 0x0001_0000 || m == 0x4F54_544F || m == 0x7472_7565 || m == 0x7479_7031
}

/// One directory record: tag, offset and length.
pub open spec fn dir_record(d: Seq<u8>, base: int) -> (u32, usize, usize) {
    (be32(d, base) as u32, be32(d, base + 8) as usize, be32(d, base + 12) as usize)
}

/// The table directory of face `face` as `(tag, offset, length)`
/// records: the face must start with an sfnt tag and list at most 64
/// tables, all inside the data.
pub open spec fn spec_directory(d: Seq<u8>, face: u32) -> Option<Seq<(u32, usize, usize)>> {
    match spec_face_offset(d, face) {
        None => None,
        Some(fo) => if d.len() < fo + 12 || !sfnt_magic(be32(d, fo)) {
            None
        } else {
            let n = be16(d, fo + 4);
            if n > MAX_FACES || d.len() < fo + 12 + n * 16 {
                None
            } else {
                Some(Seq::new(n as nat, |i: int| dir_record(d, fo + 12 + i * 16)))
            }
        },
    }
}

/// Read the table directory of one face.
pub fn read_sfnt_table_directory_at(data: &[u8], face_index: u32) -> (r: Option<
    Vec<(u32, usize, usize)>,
>)
    ensures
        match r {
            Some(v) => spec_directory(data@, face_index) == Some(v@),
            None => spec_directory(data@, face_index) is None,
        },
{
    let face_offset: usize = if starts_ttcf(data) {
        let count = match read_u32(data, 8) {
            Some(c) => c,
            None => return None,
        };
        if face_index >= count || count > MAX_FACES {
            return None;
        }
        match read_u32(data, 12 + (face_index as usize) * 4) {
            Some(o) => o as usize,
            None => return None,
        }
    } else if face_index == 0 {
        0
    } else {
        return None;
    };
    if face_offset > data.len() || data.len() - face_offset < 12 {
        return None;
    }
    let magic = match read_u32(data, face_offset) {
        Some(m) => m,
        None => return None,
    };
    if magic != 0x0001_0000 && magic != 0x4F54_544F && magic != 0x7472_7565 && magic != 0x7479_7031 {
        return None;
    }
    let num_tables = match read_u16(data, face_offset + 4) {
        Some(n) => n as usize,
        None => return None,
    };
    if num_tables > MAX_FACES as usize || data.len() - face_offset < 12 + num_tables * 16 {
        return None;
    }
    let ghost fo = face_offset as int;
    let ghost want = Seq::new(num_tables as nat, |i: int| dir_record(data@, fo + 12 + i * 16));
    let mut tables: Vec<(u32, usize, usize)> = Vec::new();
    let mut i: usize = 0;
    assert(data@.len() == data.len());
    while i < num_tables
        invariant
            i <= num_tables,
            data@.len() <= usize::MAX,
            num_tables <= MAX_FACES,
            fo == face_offset,
            fo + 12 + num_tables * 16 <= data@.len(),
            want == Seq::new(num_tables as nat, |i: int| dir_record(data@, fo + 12 + i * 16)),
            tables@ == want.take(i as int),
        decreases num_tables - i,
    {
        let base = face_offset + 12 + i * 16;
        let tag = match read_u32(data, base) {
            Some(t) => t,
            None => return None,
        };
        let offset = match read_u32(data, base + 8) {
            Some(o) => o as usize,
            None => return None,
        };
        let len = match read_u32(data, base + 12) {
            Some(l) => l as usize,
            None => return None,
        };
        tables.push((tag, offset, len));
        assert(want.take(i + 1) =~= want.take(i as int).push(want[i as int]));
        i += 1;
    }
    assert(want.take(num_tables as int) =~= want);
    Some(tables)
}

// ---------------------------------------------------------------------
// Names
// ---------------------------------------------------------------------
/// `char::from_u32` gives the char of a Unicode scalar value and `None`
/// for surrogates and values above U+10FFFF, as its documentation states.
pub assume_specification[ core::char::from_u32 ](i: u32) -> (r: Option<char>)
    ensures
        r == (if i <= 0xD7FF || (0xE000 <= i && i <= 0x10FFFF) {
            Some(i as char)
        } else {
            None
        }),
;

/// UTF-16 (big-endian byte pairs) decoding of `b` from byte `i` on:
/// `None` at an unpaired surrogate.
pub open spec fn utf16_from(b: Seq<u8>, i: int) -> Option<Seq<char>>
    decreases b.len() - i,
{
    if i < 0 || i + 2 > b.len() {
        Some(Seq::empty())
    } else {
        let u = be16(b, i);
        if u < 0xD800 || u > 0xDFFF {
            match utf16_from(b, i + 2) {
                Some(r) => Some(seq![u as char] + r),
                None => None,
            }
        } else if u <= 0xDBFF && i + 4 <= b.len() && 0xDC00 <= be16(b, i + 2) <= 0xDFFF {
            let c = 0x1_0000 + (u - 0xD800) * 0x400 + (be16(b, i + 2) - 0xDC00);
            match utf16_from(b, i + 4) {
                Some(r) => Some(seq![c as char] + r),
                None => None,
            }
        } else {
            None
        }
    }
}

/// Text of a big-endian UTF-16 name string of at most 4096 bytes.
pub open spec fn spec_utf16_be(b: Seq<u8>) -> Option<Seq<char>> {
    if b.len() % 2 != 0 || b.len() > 4096 {
        None
    } else {
        utf16_from(b, 0)
    }
}

/// Decode a big-endian UTF-16 name string.
pub fn decode_utf16_be(bytes: &[u8]) -> (r: Option<String>)
    ensures
        match r {
            Some(s) => spec_utf16_be(bytes@) == Some(s@),
            None => spec_utf16_be(bytes@) is None,
        },
{
    if bytes.len() % 2 != 0 || bytes.len() > 4096 {
        return None;
    }
    let n = bytes.len();
    let mut out = String::new();
    let mut i: usize = 0;
    while i < n
        invariant
            i <= n,
            n == bytes@.len(),
            n % 2 == 0,
            i % 2 == 0,
            n <= 4096,
            spec_utf16_be(bytes@) == match utf16_from(bytes@, i as int) {
                Some(r) => Some(out@ + r),
                None => None::<Seq<char>>,
            },
        decreases n - i,
    {
        let u: u32 = (bytes[i] as u32) * 256 + bytes[i + 1] as u32;
        if u < 0xD800 || u > 0xDFFF {
            let c = match core::char::from_u32(u) {
                Some(c) => c,
                None => return None,
            };
            let ghost before = out@;
            crate::text::string_push(&mut out, c);
            proof {
                match utf16_from(bytes@, i + 2) {
                    Some(r) => {
                        assert(before + (seq![c] + r) =~= out@ + r);
                    },
                    None => {},
                }
            }
            i += 2;
        } else if u <= 0xDBFF && i + 4 <= n {
            let lo: u32 = (bytes[i + 2] as u32) * 256 + bytes[i + 3] as u32;
            if lo < 0xDC00 || lo > 0xDFFF {
                return None;
            }
            let v: u32 = 0x1_0000 + (u - 0xD800) * 0x400 + (lo - 0xDC00);
            let c = match core::char::from_u32(v) {
                Some(c) => c,
                None => return None,
            };
            let ghost before = out@;
            crate::text::string_push(&mut out, c);
            proof {
                match utf16_from(bytes@, i + 4) {
                    Some(r) => {
                        assert(before + (seq![c] + r) =~= out@ + r);
                    },
                    None => {},
                }
            }
            i += 4;
        } else {
            return None;
        }
    }
    assert(out@ + Seq::<char>::empty() =~= out@);
    Some(out)
}

/// Latin-1 reading of bytes (Mac Roman names, as read here).
pub open spec fn latin1(b: Seq<u8>) -> Seq<char> {
    Seq::new(b.len(), |k: int| b[k] as char)
}

/// Text of name record `i`: family (1), full name (4) and typographic
/// family (16) in Unicode, Windows Unicode (3/1, 3/10) or Mac Roman
/// English (1/0/0); `None` for other records, out-of-range strings and
/// malformed UTF-16.
pub open spec fn record_text(t: Seq<u8>, so: int, i: int) -> Option<Seq<char>> {
    let base = 6 + i * 12;
    if base + 12 > t.len() {
        None
    } else {
        let platform = be16(t, base);
        let encoding = be16(t, base + 2);
        let language = be16(t, base + 4);
        let name_id = be16(t, base + 6);
        let length = be16(t, base + 8);
        let start = so + be16(t, base + 10);
        if name_id != 1 && name_id != 4 && name_id != 16 {
            None
        } else if start + length > t.len() {
            None
        } else if platform == 0 || (platform == 3 && (encoding == 1 || encoding == 10)) {
            spec_utf16_be(t.subrange(start, start + length))
        } else if platform == 1 && encoding == 0 && language == 0 {
            Some(latin1(t.subrange(start, start + length)))
        } else {
            None
        }
    }
}

/// Add a record's text (trimmed) unless it is empty or already listed.
pub open spec fn add_name(fams: Seq<Seq<char>>, text: Option<Seq<char>>) -> Seq<Seq<char>> {
    match text {
        Some(x) => if trim(x).len() > 0 && !fams.contains(trim(x)) {
            fams.push(trim(x))
        } else {
            fams
        },
        None => fams,
    }
}

/// Names of records `0..k`.
pub open spec fn names_upto(t: Seq<u8>, so: int, k: int) -> Seq<Seq<char>>
    decreases k,
{
    if k <= 0 {
        Seq::empty()
    } else {
        add_name(names_upto(t, so, k - 1), record_text(t, so, k - 1))
    }
}

/// The distinct family and full names of a `name` table, in record
/// order; a table claiming more than 512 records gives none.
pub open spec fn spec_name_table(t: Seq<u8>) -> Seq<Seq<char>> {
    let count = match spec_read_u16(t, 2) {
        Some(c) => c as int,
        None => 0,
    };
    let so = match spec_read_u16(t, 4) {
        Some(o) => o as int,
        None => 0,
    };
    if count > 512 {
        Seq::empty()
    } else {
        names_upto(t, so, count)
    }
}

pub open spec fn string_views(v: Seq<String>) -> Seq<Seq<char>> {
    v.map_values(|s: String| s@)
}

fn latin1_string(b: &[u8]) -> (r: String)
    ensures
        r@ == latin1(b@),
{
    let mut out = String::new();
    let mut k: usize = 0;
    while k < b.len()
        invariant
            k <= b@.len(),
            out@ == latin1(b@.subrange(0, k as int)),
        decreases b@.len() - k,
    {
        let ghost before = out@;
        crate::text::string_push(&mut out, b[k] as char);
        assert(out@ =~= latin1(b@.subrange(0, k + 1)));
        k += 1;
    }
    assert(b@.subrange(0, b@.len() as int) =~= b@);
    out
}

fn name_record_text(table: &[u8], so: usize, i: usize) -> (r: Option<String>)
    requires
        i <= 512,
        so <= 0xFFFF,
    ensures
        match r {
            Some(s) => record_text(table@, so as int, i as int) == Some(s@),
            None => record_text(table@, so as int, i as int) is None,
        },
{
    let base = 6 + i * 12;
    let platform = match read_u16(table, base) {
        Some(v) => v,
        None => return None,
    };
    let encoding = match read_u16(table, base + 2) {
        Some(v) => v,
        None => return None,
    };
    let language = match read_u16(table, base + 4) {
        Some(v) => v,
        None => return None,
    };
    let name_id = match read_u16(table, base + 6) {
        Some(v) => v,
        None => return None,
    };
    let length = match read_u16(table, base + 8) {
        Some(v) => v as usize,
        None => return None,
    };
    let offset = match read_u16(table, base + 10) {
        Some(v) => v as usize,
        None => return None,
    };
    if name_id != 1 && name_id != 4 && name_id != 16 {
        return None;
    }
    let start = so + offset;
    if start + length > table.len() {
        return None;
    }
    if platform == 0 || (platform == 3 && (encoding == 1 || encoding == 10)) {
        let bytes = crate::text::sub_bytes(table, start, start + length);
        decode_utf16_be(bytes.as_slice())
    } else if platform == 1 && encoding == 0 && language == 0 {
        let bytes = crate::text::sub_bytes(table, start, start + length);
        Some(latin1_string(bytes.as_slice()))
    } else {
        None
    }
}

fn contains_name(fams: &Vec<String>, t: &[char]) -> (b: bool)
    ensures
        b == string_views(fams@).contains(t@),
{
    let mut k: usize = 0;
    while k < fams.len()
        invariant
            k <= fams@.len(),
            forall|j: int| 0 <= j < k ==> fams@[j]@ != t@,
        decreases fams@.len() - k,
    {
        let f = crate::text::str_chars(fams[k].as_str());
        if chars_eq(f.as_slice(), t) {
            assert(string_views(fams@)[k as int] == t@);
            return true;
        }
        k += 1;
    }
    assert forall|j: int| 0 <= j < string_views(fams@).len() implies string_views(fams@)[j] != t@ by {
        assert(string_views(fams@)[j] == fams@[j]@);
    }
    false
}

/// The distinct family and full names of a `name` table.
pub fn parse_name_table(table: &[u8]) -> (r: Vec<String>)
    ensures
        string_views(r@) == spec_name_table(table@),
{
    let mut families: Vec<String> = Vec::new();
    let count = match read_u16(table, 2) {
        Some(c) => c as usize,
        None => 0,
    };
    let so = match read_u16(table, 4) {
        Some(o) => o as usize,
        None => 0,
    };
    if count > 512 {
        assert(string_views(families@) =~= Seq::<Seq<char>>::empty());
        return families;
    }
    let mut i: usize = 0;
    assert(string_views(families@) =~= Seq::<Seq<char>>::empty());
    while i < count
        invariant
            i <= count,
            count <= 512,
            so <= 0xFFFF,
            string_views(families@) == names_upto(table@, so as int, i as int),
        decreases count - i,
    {
        match name_record_text(table, so, i) {
            Some(text) => {
                let tc = crate::text::str_chars(text.as_str());
                let tt = trim_chars(tc.as_slice());
                if tt.len() > 0 && !contains_name(&families, tt.as_slice()) {
                    let ghost before = string_views(families@);
                    families.push(string_of(tt.as_slice()));
                    assert(string_views(families@) =~= before.push(tt@));
                }
            },
            None => {},
        }
        i += 1;
    }
    families
}

// ---------------------------------------------------------------------
// Metadata
// ---------------------------------------------------------------------
/// Font metadata declared in the sfnt tables.
#[derive(Debug, Clone)]
pub struct FontMetadata {
    /// Family (name 1), full (4) and typographic family (16) names.
    pub families: Vec<String>,
    /// `OS/2.usWeightClass` when it is in 1..=1000.
    pub weight: Option<u16>,
    pub is_bold: Option<bool>,
    pub is_italic: Option<bool>,
    /// `post` underline `(position, thickness)` when position <= 0 and
    /// thickness > 0.
    pub underline: Option<(i16, i16)>,
    /// `OS/2` strikeout `(position, size)` when position >= 0 and
    /// size > 0.
    pub strikeout: Option<(i16, i16)>,
    pub win_ascent: Option<u16>,
    pub win_descent: Option<u16>,
    /// `OS/2.ulCodePageRange1/2`, zero when absent.
    pub code_page_ranges: [u32; 2],
    /// `head.unitsPerEm` when non-zero.
    pub units_per_em: Option<u16>,
}

pub struct FontMetaView {
    pub families: Seq<Seq<char>>,
    pub weight: Option<u16>,
    pub is_bold: Option<bool>,
    pub is_italic: Option<bool>,
    pub underline: Option<(i16, i16)>,
    pub strikeout: Option<(i16, i16)>,
    pub win_ascent: Option<u16>,
    pub win_descent: Option<u16>,
    pub code_page_ranges: Seq<u32>,
    pub units_per_em: Option<u16>,
}

impl View for FontMetadata {
    type V = FontMetaView;

    open spec fn view(&self) -> FontMetaView {
        FontMetaView {
            families: string_views(self.families@),
            weight: self.weight,
            is_bold: self.is_bold,
            is_italic: self.is_italic,
            underline: self.underline,
            strikeout: self.strikeout,
            win_ascent: self.win_ascent,
            win_descent: self.win_descent,
            code_page_ranges: self.code_page_ranges@,
            units_per_em: self.units_per_em,
        }
    }
}

/// `'name'`, `'OS/2'`, `'post'` and `'head'`.
pub const TAG_NAME: u32 = 0x6E61_6D65;

pub const TAG_OS2: u32 = 0x4F53_2F32;

pub const TAG_POST: u32 = 0x706F_7374;

pub const TAG_HEAD: u32 = 0x6865_6164;

/// Index of the first record tagged `tag`, or the record count.
pub open spec fn first_tag(tables: Seq<(u32, usize, usize)>, tag: u32, k: int) -> int
    decreases tables.len() - k,
{
    if k < 0 || k >= tables.len() {
        tables.len() as int
    } else if tables[k].0 == tag {
        k
    } else {
        first_tag(tables, tag, k + 1)
    }
}

/// The bytes of the first table tagged `tag`, when it lies inside the
/// data.
pub open spec fn table_bytes(d: Seq<u8>, tables: Seq<(u32, usize, usize)>, tag: u32) -> Option<
    Seq<u8>,
> {
    let k = first_tag(tables, tag, 0);
    if k >= tables.len() {
        None
    } else {
        let (_, off, len) = tables[k];
        if off + len <= d.len() {
            Some(d.subrange(off as int, off + len))
        } else {
            None
        }
    }
}

/// Two values read together, or `None` if either is missing.
pub open spec fn both<A, B>(a: Option<A>, b: Option<B>) -> Option<(A, B)> {
    match (a, b) {
        (Some(x), Some(y)) => Some((x, y)),
        _ => None,
    }
}

/// `OS/2` weight class at 4 when in 1..=1000.
pub open spec fn os2_weight(os2: Option<Seq<u8>>) -> Option<u16> {
    match os2 {
        Some(t) => match spec_read_u16(t, 4) {
            Some(w) => if 1 <= w <= 1000 {
                Some(w)
            } else {
                None
            },
            None => None,
        },
        None => None,
    }
}

/// `OS/2.fsSelection` at 62.
pub open spec fn fs_selection(os2: Option<Seq<u8>>) -> Option<u16> {
    match os2 {
        Some(t) => spec_read_u16(t, 62),
        None => None,
    }
}

/// `OS/2` strikeout (size at 26, position at 28), kept as
/// `(position, size)` when position >= 0 and size > 0.
pub open spec fn os2_strikeout(os2: Option<Seq<u8>>) -> Option<(i16, i16)> {
    match os2 {
        Some(t) => match both(spec_read_i16(t, 26), spec_read_i16(t, 28)) {
            Some((size, pos)) => if pos >= 0 && size > 0 {
                Some((pos, size))
            } else {
                None
            },
            None => None,
        },
        None => None,
    }
}

/// `OS/2` Windows ascent and descent (74, 76), both or neither.
pub open spec fn os2_win(os2: Option<Seq<u8>>) -> Option<(u16, u16)> {
    match os2 {
        Some(t) => both(spec_read_u16(t, 74), spec_read_u16(t, 76)),
        None => None,
    }
}

/// A `u32` of `OS/2` at `o`, zero when absent.
pub open spec fn os2_u32(os2: Option<Seq<u8>>, o: int) -> u32 {
    match os2 {
        Some(t) => match spec_read_u32(t, o) {
            Some(v) => v,
            None => 0,
        },
        None => 0,
    }
}

/// `post` underline (position at 8, thickness at 10) when position <= 0
/// and thickness > 0.
pub open spec fn post_underline(post: Option<Seq<u8>>) -> Option<(i16, i16)> {
    match post {
        Some(t) => match both(spec_read_i16(t, 8), spec_read_i16(t, 10)) {
            Some((pos, thick)) => if pos <= 0 && thick > 0 {
                Some((pos, thick))
            } else {
                None
            },
            None => None,
        },
        None => None,
    }
}

/// `head.unitsPerEm` at 18 when non-zero.
pub open spec fn head_upem(head: Option<Seq<u8>>) -> Option<u16> {
    match head {
        Some(t) => match spec_read_u16(t, 18) {
            Some(u) => if u != 0 {
                Some(u)
            } else {
                None
            },
            None => None,
        },
        None => None,
    }
}

/// `head.macStyle` at 44.
pub open spec fn mac_style(head: Option<Seq<u8>>) -> Option<u16> {
    match head {
        Some(t) => spec_read_u16(t, 44),
        None => None,
    }
}

pub open spec fn bit(v: u16, k: nat) -> bool {
    (v as int / pow2(k)) % 2 == 1
}

pub open spec fn pow2(k: nat) -> int
    decreases k,
{
    if k == 0 {
        1
    } else {
        2 * pow2((k - 1) as nat)
    }
}

/// Bold: `fsSelection` bit 5, else `macStyle` bit 0.
pub open spec fn spec_is_bold(os2: Option<Seq<u8>>, head: Option<Seq<u8>>) -> Option<bool> {
    match fs_selection(os2) {
        Some(fs) => Some(bit(fs, 5)),
        None => match mac_style(head) {
            Some(ms) => Some(bit(ms, 0)),
            None => None,
        },
    }
}

/// Italic: `fsSelection` bit 0, else `macStyle` bit 1.
pub open spec fn spec_is_italic(os2: Option<Seq<u8>>, head: Option<Seq<u8>>) -> Option<bool> {
    match fs_selection(os2) {
        Some(fs) => Some(bit(fs, 0)),
        None => match mac_style(head) {
            Some(ms) => Some(bit(ms, 1)),
            None => None,
        },
    }
}

/// Metadata of a face's tables.
pub open spec fn meta_of(d: Seq<u8>, tables: Seq<(u32, usize, usize)>) -> FontMetaView {
    let name = table_bytes(d, tables, TAG_NAME);
    let os2 = table_bytes(d, tables, TAG_OS2);
    let post = table_bytes(d, tables, TAG_POST);
    let head = table_bytes(d, tables, TAG_HEAD);
    let win = os2_win(os2);
    FontMetaView {
        families: match name {
            Some(t) => spec_name_table(t),
            None => Seq::empty(),
        },
        weight: os2_weight(os2),
        is_bold: spec_is_bold(os2, head),
        is_italic: spec_is_italic(os2, head),
        underline: post_underline(post),
        strikeout: os2_strikeout(os2),
        win_ascent: match win {
            Some((a, _)) => Some(a),
            None => None,
        },
        win_descent: match win {
            Some((_, b)) => Some(b),
            None => None,
        },
        code_page_ranges: seq![os2_u32(os2, 78), os2_u32(os2, 82)],
        units_per_em: head_upem(head),
    }
}

/// The metadata of face `face`: `None` for data that is not an sfnt (or
/// has no such face), and for a face that declares none of families,
/// style, weight, underline or strikeout.
pub open spec fn spec_inspect(d: Seq<u8>, face: u32) -> Option<FontMetaView> {
    match spec_directory(d, face) {
        None => None,
        Some(tables) => {
            let m = meta_of(d, tables);
            if m.families.len() == 0 && m.is_bold is None && m.is_italic is None && m.weight is None
                && m.underline is None && m.strikeout is None {
                None
            } else {
                Some(m)
            }
        },
    }
}

fn find_table(data: &[u8], tables: &Vec<(u32, usize, usize)>, tag: u32) -> (r: Option<Vec<u8>>)
    ensures
        match r {
            Some(t) => table_bytes(data@, tables@, tag) == Some(t@),
            None => table_bytes(data@, tables@, tag) is None,
        },
{
    let mut k: usize = 0;
    while k < tables.len()
        invariant
            k <= tables@.len(),
            first_tag(tables@, tag, k as int) == first_tag(tables@, tag, 0),
        decreases tables@.len() - k,
    {
        let (t, off, len) = tables[k];
        if t == tag {
            if off > data.len() || data.len() - off < len {
                return None;
            }
            return Some(crate::text::sub_bytes(data, off, off + len));
        }
        k += 1;
    }
    None
}

fn bit_exec(v: u16, k: u32) -> (b: bool)
    requires
        k <= 5,
    ensures
        b == bit(v, k as nat),
{
    let p: u16 = if k == 0 {
        1
    } else if k == 1 {
        2
    } else if k == 2 {
        4
    } else if k == 3 {
        8
    } else if k == 4 {
        16
    } else {
        32
    };
    proof {
        reveal_with_fuel(pow2, 6);
    }
    (v / p) % 2 == 1
}

fn opt_read_u16(t: &Option<Vec<u8>>, o: usize) -> (r: Option<u16>)
    ensures
        r == match *t {
            Some(b) => spec_read_u16(b@, o as int),
            None => None,
        },
{
    match t {
        Some(b) => read_u16(b.as_slice(), o),
        None => None,
    }
}

fn opt_read_i16(t: &Option<Vec<u8>>, o: usize) -> (r: Option<i16>)
    ensures
        r == match *t {
            Some(b) => spec_read_i16(b@, o as int),
            None => None,
        },
{
    match t {
        Some(b) => read_i16(b.as_slice(), o),
        None => None,
    }
}

fn opt_read_u32(t: &Option<Vec<u8>>, o: usize) -> (r: u32)
    ensures
        r == os2_u32(
            match *t {
                Some(b) => Some(b@),
                None => None,
            },
            o as int,
        ),
{
    match t {
        Some(b) => match read_u32(b.as_slice(), o) {
            Some(v) => v,
            None => 0,
        },
        None => 0,
    }
}

pub open spec fn opt_bytes(t: Option<Vec<u8>>) -> Option<Seq<u8>> {
    match t {
        Some(b) => Some(b@),
        None => None,
    }
}

fn weight_exec(os2: &Option<Vec<u8>>) -> (r: Option<u16>)
    ensures
        r == os2_weight(opt_bytes(*os2)),
{
    match opt_read_u16(os2, 4) {
        Some(w) => if 1 <= w && w <= 1000 {
            Some(w)
        } else {
            None
        },
        None => None,
    }
}

fn style_exec(os2: &Option<Vec<u8>>, head: &Option<Vec<u8>>) -> (r: (Option<bool>, Option<bool>))
    ensures
        r.0 == spec_is_bold(opt_bytes(*os2), opt_bytes(*head)),
        r.1 == spec_is_italic(opt_bytes(*os2), opt_bytes(*head)),
{
    let fs = opt_read_u16(os2, 62);
    let ms = opt_read_u16(head, 44);
    let is_bold = match fs {
        Some(v) => Some(bit_exec(v, 5)),
        None => match ms {
            Some(v) => Some(bit_exec(v, 0)),
            None => None,
        },
    };
    let is_italic = match fs {
        Some(v) => Some(bit_exec(v, 0)),
        None => match ms {
            Some(v) => Some(bit_exec(v, 1)),
            None => None,
        },
    };
    (is_bold, is_italic)
}

fn strikeout_exec(os2: &Option<Vec<u8>>) -> (r: Option<(i16, i16)>)
    ensures
        r == os2_strikeout(opt_bytes(*os2)),
{
    match (opt_read_i16(os2, 26), opt_read_i16(os2, 28)) {
        (Some(size), Some(pos)) => if pos >= 0 && size > 0 {
            Some((pos, size))
        } else {
            None
        },
        _ => None,
    }
}

fn win_exec(os2: &Option<Vec<u8>>) -> (r: Option<(u16, u16)>)
    ensures
        r == os2_win(opt_bytes(*os2)),
{
    match (opt_read_u16(os2, 74), opt_read_u16(os2, 76)) {
        (Some(a), Some(b)) => Some((a, b)),
        _ => None,
    }
}

fn underline_exec(post: &Option<Vec<u8>>) -> (r: Option<(i16, i16)>)
    ensures
        r == post_underline(opt_bytes(*post)),
{
    match (opt_read_i16(post, 8), opt_read_i16(post, 10)) {
        (Some(pos), Some(thick)) => if pos <= 0 && thick > 0 {
            Some((pos, thick))
        } else {
            None
        },
        _ => None,
    }
}

fn upem_exec(head: &Option<Vec<u8>>) -> (r: Option<u16>)
    ensures
        r == head_upem(opt_bytes(*head)),
{
    match opt_read_u16(head, 18) {
        Some(u) => if u != 0 {
            Some(u)
        } else {
            None
        },
        None => None,
    }
}

fn names_exec(name: &Option<Vec<u8>>) -> (r: Vec<String>)
    ensures
        string_views(r@) == match opt_bytes(*name) {
            Some(t) => spec_name_table(t),
            None => Seq::empty(),
        },
{
    match name {
        Some(t) => parse_name_table(t.as_slice()),
        None => {
            let v: Vec<String> = Vec::new();
            assert(string_views(v@) =~= Seq::<Seq<char>>::empty());
            v
        },
    }
}

/// The metadata of a face's tables.
fn meta_from_tables(data: &[u8], tables: &Vec<(u32, usize, usize)>) -> (m: FontMetadata)
    ensures
        m@ == meta_of(data@, tables@),
{
    let name = find_table(data, tables, TAG_NAME);
    let os2 = find_table(data, tables, TAG_OS2);
    let post = find_table(data, tables, TAG_POST);
    let head = find_table(data, tables, TAG_HEAD);
    let families = names_exec(&name);
    let weight = weight_exec(&os2);
    let (is_bold, is_italic) = style_exec(&os2, &head);
    let strikeout = strikeout_exec(&os2);
    let (win_ascent, win_descent) = match win_exec(&os2) {
        Some((a, b)) => (Some(a), Some(b)),
        None => (None, None),
    };
    let r1 = opt_read_u32(&os2, 78);
    let r2 = opt_read_u32(&os2, 82);
    let underline = underline_exec(&post);
    let units_per_em = upem_exec(&head);
    let meta = FontMetadata {
        families,
        weight,
        is_bold,
        is_italic,
        underline,
        strikeout,
        win_ascent,
        win_descent,
        code_page_ranges: [r1, r2],
        units_per_em,
    };
    assert(meta@.code_page_ranges =~= seq![r1, r2]);
    meta
}

/// Inspect one face of a single font or of a collection.
pub fn inspect_font_metadata_at(data: &[u8], face_index: u32) -> (r: Option<FontMetadata>)
    ensures
        match r {
            Some(m) => spec_inspect(data@, face_index) == Some(m@),
            None => spec_inspect(data@, face_index) is None,
        },
{
    let tables = match read_sfnt_table_directory_at(data, face_index) {
        Some(t) => t,
        None => return None,
    };
    let meta = meta_from_tables(data, &tables);
    if meta.families.len() == 0 && meta.is_bold.is_none() && meta.is_italic.is_none()
        && meta.weight.is_none() && meta.underline.is_none() && meta.strikeout.is_none() {
        return None;
    }
    Some(meta)
}

/// Inspect a single font (face 0).
pub fn inspect_font_metadata(data: &[u8]) -> (r: Option<FontMetadata>)
    ensures
        match r {
            Some(m) => spec_inspect(data@, 0) == Some(m@),
            None => spec_inspect(data@, 0) is None,
        },
{
    inspect_font_metadata_at(data, 0)
}

// ---------------------------------------------------------------------
// Face selection helpers
// ---------------------------------------------------------------------
/// Distance between a face's weight class and the requested one.
pub fn weight_dist(face: u16, requested: u16) -> (d: u16)
    ensures
        d == (if face >= requested {
            face - requested
        } else {
            requested - face
        }),
{
    if face >= requested {
        face - requested
    } else {
        requested - face
    }
}

/// `p` occurs in `s` at `i`.
pub open spec fn occurs_at(s: Seq<char>, p: Seq<char>, i: int) -> bool {
    0 <= i && i + p.len() <= s.len() && s.subrange(i, i + p.len()) == p
}

/// `p` occurs somewhere in `s`.
pub open spec fn occurs(s: Seq<char>, p: Seq<char>) -> bool {
    exists|i: int| occurs_at(s, p, i)
}

fn occurs_exec(s: &[char], p: &str) -> (b: bool)
    ensures
        b == occurs(s@, p@),
{
    let pc = crate::text::str_chars(p);
    occurs_chars(s, pc.as_slice())
}

/// Whether `p` occurs in `s`.
pub(crate) fn occurs_chars(s: &[char], p: &[char]) -> (b: bool)
    ensures
        b == occurs(s@, p@),
{
    let n = s.len();
    let m = p.len();
    if m > n {
        assert forall|i: int| !occurs_at(s@, p@, i) by {}
        return false;
    }
    if m == 0 {
        assert(s@.subrange(0, 0) =~= p@);
        assert(occurs_at(s@, p@, 0));
        return true;
    }
    let mut i: usize = 0;
    while i <= n - m
        invariant
            0 < m <= n,
            i <= n - m + 1,
            n == s@.len(),
            m == p@.len(),
            forall|j: int| 0 <= j < i ==> !occurs_at(s@, p@, j),
        decreases n - i,
    {
        let piece = crate::text::sub_chars(s, i, i + m);
        if chars_eq(piece.as_slice(), p) {
            assert(occurs_at(s@, p@, i as int));
            return true;
        }
        i += 1;
    }
    assert forall|j: int| !occurs_at(s@, p@, j) by {
        if 0 <= j && j < i {
        }
    }
    false
}

/// A style guess from a file name (lowercased): bold when it names
/// `bold`, italic when it names `italic` or `oblique`; `None` otherwise.
pub open spec fn spec_style_from_filename(name: Seq<char>) -> (Option<bool>, Option<bool>) {
    let lower = crate::text::unicode_lowercase(name);
    (
        if occurs(lower, "bold"@) {
            Some(true)
        } else {
            None
        },
        if occurs(lower, "italic"@) || occurs(lower, "oblique"@) {
            Some(true)
        } else {
            None
        },
    )
}

/// Filename-based style guess, used only when font metadata is absent.
pub fn style_from_filename(name: &str) -> (r: (Option<bool>, Option<bool>))
    ensures
        r == spec_style_from_filename(name@),
{
    let lower = crate::text::lowercase_str(name);
    let lc = crate::text::str_chars(lower.as_str());
    let bold = if occurs_exec(lc.as_slice(), "bold") {
        Some(true)
    } else {
        None
    };
    let italic = if occurs_exec(lc.as_slice(), "italic") || occurs_exec(lc.as_slice(), "oblique") {
        Some(true)
    } else {
        None
    };
    (bold, italic)
}

/// `s` with every non-overlapping occurrence of `p` (non-empty) removed,
/// scanning from the left.
pub open spec fn remove_all(s: Seq<char>, p: Seq<char>) -> Seq<char>
    decreases s.len(),
{
    if p.len() == 0 || s.len() == 0 {
        s
    } else if s.len() >= p.len() && s.subrange(0, p.len() as int) == p {
        remove_all(s.subrange(p.len() as int, s.len() as int), p)
    } else {
        seq![s[0]] + remove_all(s.drop_first(), p)
    }
}

fn remove_all_exec(s: &[char], p: &str) -> (r: Vec<char>)
    requires
        p@.len() > 0,
    ensures
        r@ == remove_all(s@, p@),
{
    let pc = crate::text::str_chars(p);
    let n = s.len();
    let m = pc.len();
    let mut out: Vec<char> = Vec::new();
    let mut i: usize = 0;
    assert(s@.subrange(0, n as int) =~= s@);
    assert(out@ + s@ =~= s@);
    while i < n
        invariant
            i <= n,
            n == s@.len(),
            m == p@.len(),
            m > 0,
            pc@ == p@,
            remove_all(s@, p@) == out@ + remove_all(s@.subrange(i as int, n as int), p@),
        decreases n - i,
    {
        let ghost rest = s@.subrange(i as int, n as int);
        if m <= n - i {
            let piece = crate::text::sub_chars(s, i, i + m);
            if chars_eq(piece.as_slice(), pc.as_slice()) {
                assert(rest.subrange(0, m as int) =~= piece@);
                assert(rest.subrange(m as int, rest.len() as int) =~= s@.subrange(i + m, n as int));
                i += m;
                continue;
            }
            assert(rest.subrange(0, m as int) =~= piece@);
        }
        assert(rest.drop_first() =~= s@.subrange(i + 1, n as int));
        let ghost before = out@;
        out.push(s[i]);
        assert(before + (seq![s@[i as int]] + remove_all(rest.drop_first(), p@)) =~= out@
            + remove_all(rest.drop_first(), p@));
        i += 1;
    }
    assert(out@ + remove_all(s@.subrange(n as int, n as int), p@) =~= out@);
    out
}

/// A filename stem (lowercased) without the style words ` bold`,
/// ` italic`, ` oblique`, `-bold`, `-italic`, `-oblique`, `_bold`,
/// `_italic`, `_oblique` (removed in that order), trimmed.
pub open spec fn spec_strip_style_words(name: Seq<char>) -> Seq<char> {
    let s0 = crate::text::unicode_lowercase(name);
    let s1 = remove_all(s0, " bold"@);
    let s2 = remove_all(s1, " italic"@);
    let s3 = remove_all(s2, " oblique"@);
    let s4 = remove_all(s3, "-bold"@);
    let s5 = remove_all(s4, "-italic"@);
    let s6 = remove_all(s5, "-oblique"@);
    let s7 = remove_all(s6, "_bold"@);
    let s8 = remove_all(s7, "_italic"@);
    let s9 = remove_all(s8, "_oblique"@);
    trim(s9)
}

/// Strip style indicators from a filename stem for lookup.
pub fn strip_style_words(name: &str) -> (r: String)
    ensures
        r@ == spec_strip_style_words(name@),
{
    let lower = crate::text::lowercase_str(name);
    let s0 = crate::text::str_chars(lower.as_str());
    proof {
        reveal_strlit(" bold");
        reveal_strlit(" italic");
        reveal_strlit(" oblique");
        reveal_strlit("-bold");
        reveal_strlit("-italic");
        reveal_strlit("-oblique");
        reveal_strlit("_bold");
        reveal_strlit("_italic");
        reveal_strlit("_oblique");
    }
    let s1 = remove_all_exec(s0.as_slice(), " bold");
    let s2 = remove_all_exec(s1.as_slice(), " italic");
    let s3 = remove_all_exec(s2.as_slice(), " oblique");
    let s4 = remove_all_exec(s3.as_slice(), "-bold");
    let s5 = remove_all_exec(s4.as_slice(), "-italic");
    let s6 = remove_all_exec(s5.as_slice(), "-oblique");
    let s7 = remove_all_exec(s6.as_slice(), "_bold");
    let s8 = remove_all_exec(s7.as_slice(), "_italic");
    let s9 = remove_all_exec(s8.as_slice(), "_oblique");
    let t = trim_chars(s9.as_slice());
    string_of(t.as_slice())
}

/// The built-in fallback font, DejaVu Sans: `dejavu::sans::regular`,
/// the TrueType file that crate embeds. No clause is stated of the bytes
/// (the font file is data, not a computation).
#[verifier::external_body]
pub fn get_fallback_font() -> &'static [u8] {
    dejavu::sans::regular()
}

} // verus!
