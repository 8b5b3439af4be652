//! Loaded faces and the font matcher: deterministic family, weight and
//! style selection, the per-glyph fallback order and faux-style needs.
use crate::renderer::font::{
    collection_face_count, inspect_font_metadata_at, occurs, occurs_chars, spec_face_count, spec_inspect,
    spec_strip_style_words, spec_style_from_filename, string_views, strip_style_words, style_from_filename,
    weight_dist, FontMetaView, FontMetadata,
};
use crate::text::{
    chars_eq, dec_str, lowercase_str, push_decimal, push_str, str_chars, string_of, sub_bytes, trim,
    trim_chars, unicode_lowercase,
};
use ab_glyph::{Font, FontArc};
use vstd::prelude::*;

verus! {

/// `ab_glyph::FontArc`, a parsed face; opaque here.
#[verifier::external_type_specification]
#[verifier::external_body]
pub struct ExFontArc(ab_glyph::FontArc);

/// Whether `ab_glyph` parses face `face_index` of `data`.
pub uninterp spec fn ab_glyph_parses(data: Seq<u8>, face_index: u32) -> bool;

/// Parses face `face_index` of `data` with
/// `ab_glyph::FontVec::try_from_vec_and_index` and wraps it in a
/// `FontArc`. Whether it parses is named `ab_glyph_parses` (a function of
/// the bytes and the index); the error is ab_glyph's `InvalidFont`, whose
/// text is `InvalidFont`.
#[verifier::external_body]
fn parse_face(data: &[u8], face_index: u32) -> (r: Result<FontArc, String>)
    ensures
        r is Ok <==> ab_glyph_parses(data@, face_index),
        r matches Err(e) ==> e@ == "InvalidFont"@,
{
    match ab_glyph::FontVec::try_from_vec_and_index(data.to_vec(), face_index) {
        Ok(face) => Ok(FontArc::new(face)),
        Err(e) => Err(e.to_string()),
    }
}

/// The glyph index `ab_glyph` gives for `ch` in face `face_index` of
/// `data` (0 is `.notdef`), or `None` where that face does not parse.
pub uninterp spec fn ab_glyph_glyph_id(data: Seq<u8>, face_index: u32, ch: char) -> Option<u16>;

/// Parses face `face_index` of `data` in place with
/// `ab_glyph::FontRef::try_from_slice_and_index` (the same `ttf-parser`
/// face parse as `FontVec`) and gives `Font::glyph_id` of `ch`, or `None`
/// where the face does not parse. The result is named
/// `ab_glyph_glyph_id`, a function of the bytes, the index and the char;
/// the character-map lookup is not restated.
#[verifier::external_body]
fn face_glyph_id(data: &[u8], face_index: u32, ch: char) -> (g: Option<u16>)
    ensures
        g == ab_glyph_glyph_id(data@, face_index, ch),
{
    match ab_glyph::FontRef::try_from_slice_and_index(data, face_index) {
        Ok(face) => Some(face.glyph_id(ch).0),
        Err(_) => None,
    }
}

/// One loaded face.
struct LoadedFont {
    /// Family name, lowercased.
    name: String,
    font: FontArc,
    /// ASS weight (400 normal, 700 bold), clamped to 1..=1000.
    weight: u16,
    is_italic: bool,
    /// The bytes the face was parsed from, kept for OpenType shaping.
    data: Vec<u8>,
    /// The face's index in its collection.
    face_index: u32,
}

/// What the matcher knows of a face.
#[verifier::ext_equal]
pub struct FaceView {
    pub name: Seq<char>,
    pub weight: u16,
    pub is_italic: bool,
    pub data: Seq<u8>,
    pub face_index: u32,
}

/// The loaded faces in load order (a face's id is its position) and the
/// extra family names that resolve to a face, in registration order.
#[verifier::ext_equal]
pub struct FontsView {
    pub faces: Seq<FaceView>,
    pub aliases: Seq<(Seq<char>, usize)>,
}

/// Loads faces and finds the face for a requested family and style. The
/// first loaded face is the fallback.
pub struct FontManager {
    fonts: Vec<LoadedFont>,
    /// Extra family names with their face ids, in registration order. A
    /// name resolves through its first entry, as a map that keeps the
    /// first insert of a key would; a list keeps that lookup provable
    /// with string keys.
    aliases: Vec<(String, usize)>,
}

/// A resolved face with its stable id and faux-style needs.
#[derive(Debug, Clone, Copy)]
pub struct FontMatch<'a> {
    /// The face's id (its position in load order).
    pub id: usize,
    pub font: &'a FontArc,
    /// A bold-class weight (>= 700) was requested and the face is not
    /// bold-class: the renderer synthesizes bold.
    pub faux_bold: bool,
    /// Italic was requested and the face is not italic.
    pub faux_italic: bool,
}

impl View for FontManager {
    type V = FontsView;

    closed spec fn view(&self) -> FontsView {
        FontsView {
            faces: self.fonts@.map_values(
                |f: LoadedFont|
                    FaceView {
                        name: f.name@,
                        weight: f.weight,
                        is_italic: f.is_italic,
                        data: f.data@,
                        face_index: f.face_index,
                    },
            ),
            aliases: self.aliases@.map_values(|a: (String, usize)| (a.0@, a.1)),
        }
    }
}

/// `weight` limited to 1..=1000.
pub open spec fn clamp_weight(weight: u16) -> u16 {
    if weight < 1 {
        1
    } else if weight > 1000 {
        1000
    } else {
        weight
    }
}

/// The face loaded as `name` from face `face_index` of `data`.
pub open spec fn face_of(name: Seq<char>, data: Seq<u8>, weight: u16, is_italic: bool, face_index: u32) -> FaceView {
    FaceView {
        name: unicode_lowercase(name),
        weight: clamp_weight(weight),
        is_italic,
        data,
        face_index,
    }
}

/// The error of a face that does not parse.
pub open spec fn parse_failure(name: Seq<char>, face_index: u32) -> Seq<char> {
    "Failed to parse font '"@ + name + "' face "@ + dec_str(face_index as nat) + ": InvalidFont"@
}

/// The error of data that is neither a single font nor a valid collection.
pub open spec fn header_failure(name: Seq<char>) -> Seq<char> {
    "Invalid font collection header for '"@ + name + "'"@
}

/// Face `g` of `data` parses.
pub open spec fn parses_at(data: Seq<u8>, g: int) -> bool {
    ab_glyph_parses(data, g as u32)
}

/// The first face from `f` on (below `n`) that does not parse, else `n`.
pub open spec fn first_failure(data: Seq<u8>, f: int, n: int) -> int
    decreases n - f,
{
    if f >= n {
        n
    } else if !ab_glyph_parses(data, f as u32) {
        f
    } else {
        first_failure(data, f + 1, n)
    }
}

pub proof fn lemma_first_failure_bounds(data: Seq<u8>, f: int, n: int)
    requires
        f <= n,
    ensures
        f <= first_failure(data, f, n) <= n,
        forall|g: int| f <= g < first_failure(data, f, n) ==> #[trigger] parses_at(data, g),
        first_failure(data, f, n) < n ==> !ab_glyph_parses(data, first_failure(data, f, n) as u32),
    decreases n - f,
{
    if f < n && ab_glyph_parses(data, f as u32) {
        lemma_first_failure_bounds(data, f + 1, n);
    }
}

/// Faces `0..k` of `data`, each loaded as `name` with the same style.
pub open spec fn faces_loaded(name: Seq<char>, data: Seq<u8>, weight: u16, is_italic: bool, k: int) -> Seq<FaceView> {
    Seq::new(k as nat, |f: int| face_of(name, data, weight, is_italic, f as u32))
}

impl FontManager {
    /// The parsed face of id `i`.
    pub closed spec fn font_at(&self, i: int) -> FontArc {
        self.fonts@[i].font
    }

    /// No face loaded.
    pub fn new() -> (m: FontManager)
        ensures
            m@.faces.len() == 0,
            m@.aliases.len() == 0,
    {
        let m = FontManager { fonts: Vec::new(), aliases: Vec::new() };
        assert(m@.faces =~= Seq::<FaceView>::empty());
        assert(m@.aliases =~= Seq::<(Seq<char>, usize)>::empty());
        m
    }

    /// Number of loaded faces.
    pub fn font_count(&self) -> (n: usize)
        ensures
            n == self@.faces.len(),
    {
        self.fonts.len()
    }

    /// Whether any face is loaded.
    pub fn has_fonts(&self) -> (b: bool)
        ensures
            b == (self@.faces.len() > 0),
    {
        self.fonts.len() > 0
    }

    /// The ASS weight of face `index`.
    pub fn font_weight(&self, index: usize) -> (r: Option<u16>)
        ensures
            r == if index < self@.faces.len() {
                Some(self@.faces[index as int].weight)
            } else {
                None::<u16>
            },
    {
        if index < self.fonts.len() {
            Some(self.fonts[index].weight)
        } else {
            None
        }
    }

    /// The parsed face of id `index`.
    pub fn get_font(&self, index: usize) -> (r: Option<&FontArc>)
        ensures
            r is Some <==> index < self@.faces.len(),
            r matches Some(f) ==> *f == self.font_at(index as int),
    {
        if index < self.fonts.len() {
            Some(&self.fonts[index].font)
        } else {
            None
        }
    }

    /// The bytes and collection index of face `index`, for OpenType shaping.
    pub fn shaping_data(&self, index: usize) -> (r: Option<(&[u8], u32)>)
        ensures
            r is Some <==> index < self@.faces.len(),
            r matches Some((d, f)) ==> d@ == self@.faces[index as int].data && f
                == self@.faces[index as int].face_index,
    {
        if index < self.fonts.len() {
            Some((self.fonts[index].data.as_slice(), self.fonts[index].face_index))
        } else {
            None
        }
    }

    /// The family names of the loaded faces, in load order.
    pub fn font_names(&self) -> (r: Vec<&str>)
        ensures
            r@.len() == self@.faces.len(),
            forall|i: int| 0 <= i < r@.len() ==> (#[trigger] r@[i])@ == self@.faces[i].name,
    {
        let mut r: Vec<&str> = Vec::new();
        let mut i: usize = 0;
        while i < self.fonts.len()
            invariant
                i <= self.fonts@.len(),
                r@.len() == i,
                forall|j: int| 0 <= j < i ==> (#[trigger] r@[j])@ == self@.faces[j].name,
            decreases self.fonts@.len() - i,
        {
            r.push(self.fonts[i].name.as_str());
            i += 1;
        }
        r
    }

    /// Load face `face_index` of `data` as family `name` (lowercased).
    fn load_one_face(&mut self, name: &str, data: &[u8], weight: u16, is_italic: bool, face_index: u32) -> (r:
        Result<usize, String>)
        ensures
            ab_glyph_parses(data@, face_index) ==> (r matches Ok(i) && i == old(self)@.faces.len())
                && final(self)@.faces == old(self)@.faces.push(
                face_of(name@, data@, weight, is_italic, face_index),
            ) && final(self)@.aliases == old(self)@.aliases,
            !ab_glyph_parses(data@, face_index) ==> final(self)@ == old(self)@ && (r matches Err(e)
                && e@ == parse_failure(name@, face_index)),
    {
        let font = match parse_face(data, face_index) {
            Ok(f) => f,
            Err(e) => {
                let mut m = String::new();
                push_str(&mut m, "Failed to parse font '");
                push_str(&mut m, name);
                push_str(&mut m, "' face ");
                push_decimal(&mut m, face_index as u64);
                push_str(&mut m, ": ");
                push_str(&mut m, e.as_str());
                proof {
                    reveal_strlit("Failed to parse font '");
                    reveal_strlit("' face ");
                    reveal_strlit(": ");
                    reveal_strlit(": InvalidFont");
                    reveal_strlit("InvalidFont");
                    assert(m@ =~= parse_failure(name@, face_index));
                }
                return Err(m);
            },
        };
        let w: u16 = if weight < 1 {
            1
        } else if weight > 1000 {
            1000
        } else {
            weight
        };
        let idx = self.fonts.len();
        let loaded = LoadedFont {
            name: lowercase_str(name),
            font,
            weight: w,
            is_italic,
            data: sub_bytes(data, 0, data.len()),
            face_index,
        };
        let ghost before = self.fonts@;
        assert(data@.subrange(0, data@.len() as int) =~= data@);
        self.fonts.push(loaded);
        proof {
            assert(self@.faces =~= old(self)@.faces.push(face_of(name@, data@, weight, is_italic, face_index)))
                by {
                assert(self.fonts@ == before.push(loaded));
            }
            assert(self@.aliases =~= old(self)@.aliases);
        }
        Ok(idx)
    }

    /// Load every face of a font or collection as family `name` with an
    /// explicit ASS weight and italic flag; the id of the first face.
    /// Faces before one that fails to parse stay loaded.
    pub fn load_font_with_weight(&mut self, name: &str, data: &[u8], weight: u16, is_italic: bool) -> (r:
        Result<usize, String>)
        ensures
            final(self)@.aliases == old(self)@.aliases,
            match spec_face_count(data@) {
                None => final(self)@ == old(self)@ && (r matches Err(e) && e@ == header_failure(name@)),
                Some(n) => {
                    let k = first_failure(data@, 0, n);
                    &&& final(self)@.faces == old(self)@.faces + faces_loaded(
                        name@,
                        data@,
                        weight,
                        is_italic,
                        k,
                    )
                    &&& k < n ==> (r matches Err(e) && e@ == parse_failure(name@, k as u32))
                    &&& k == n ==> (r matches Ok(i) && i == old(self)@.faces.len())
                },
            },
    {
        let count = match collection_face_count(data) {
            Some(c) => c,
            None => {
                let mut m = String::new();
                push_str(&mut m, "Invalid font collection header for '");
                push_str(&mut m, name);
                push_str(&mut m, "'");
                proof {
                    reveal_strlit("Invalid font collection header for '");
                    reveal_strlit("'");
                    assert(m@ =~= header_failure(name@));
                }
                return Err(m);
            },
        };
        let ghost n = count as int;
        let first = self.fonts.len();
        proof {
            lemma_first_failure_bounds(data@, 0, n);
            assert(self@.faces =~= old(self)@.faces + faces_loaded(name@, data@, weight, is_italic, 0));
        }
        let mut f: usize = 0;
        while f < count
            invariant
                f <= count,
                n == count,
                spec_face_count(data@) == Some(n),
                first == old(self)@.faces.len(),
                forall|g: int| 0 <= g < f ==> #[trigger] parses_at(data@, g),
                self@.faces == old(self)@.faces + faces_loaded(name@, data@, weight, is_italic, f as int),
                self@.aliases == old(self)@.aliases,
            decreases count - f,
        {
            match self.load_one_face(name, data, weight, is_italic, f as u32) {
                Ok(_) => {
                    proof {
                        assert(self@.faces =~= old(self)@.faces + faces_loaded(
                            name@,
                            data@,
                            weight,
                            is_italic,
                            f + 1,
                        ));
                    }
                },
                Err(e) => {
                    proof {
                        lemma_first_failure_prefix(data@, 0, f as int, n);
                    }
                    return Err(e);
                },
            }
            f += 1;
        }
        proof {
            lemma_first_failure_all(data@, 0, n);
        }
        Ok(first)
    }

    /// Load a font as family `name`, bold (weight 700) or regular (400).
    pub fn load_font(&mut self, name: &str, data: &[u8], is_bold: bool, is_italic: bool) -> (r: Result<
        usize,
        String,
    >)
        ensures
            final(self)@.aliases == old(self)@.aliases,
            ({
                let weight: u16 = if is_bold {
                    700
                } else {
                    400
                };
                match spec_face_count(data@) {
                    None => final(self)@ == old(self)@ && (r matches Err(e) && e@ == header_failure(name@)),
                    Some(n) => {
                        let k = first_failure(data@, 0, n);
                        &&& final(self)@.faces == old(self)@.faces + faces_loaded(
                            name@,
                            data@,
                            weight,
                            is_italic,
                            k,
                        )
                        &&& k < n ==> (r matches Err(e) && e@ == parse_failure(name@, k as u32))
                        &&& k == n ==> (r matches Ok(i) && i == old(self)@.faces.len())
                    },
                }
            }),
    {
        self.load_font_with_weight(
            name,
            data,
            if is_bold {
                700
            } else {
                400
            },
            is_italic,
        )
    }
}

// ---------------------------------------------------------------------
// Matching
// ---------------------------------------------------------------------
/// The face that the first alias entry from `k` on for `key` names.
pub open spec fn alias_from(aliases: Seq<(Seq<char>, usize)>, key: Seq<char>, k: int) -> Option<usize>
    decreases aliases.len() - k,
{
    if k < 0 || k >= aliases.len() {
        None
    } else if aliases[k].0 == key {
        Some(aliases[k].1)
    } else {
        alias_from(aliases, key, k + 1)
    }
}

/// The face an alias `key` names, if one was registered.
pub open spec fn alias_of(aliases: Seq<(Seq<char>, usize)>, key: Seq<char>) -> Option<usize> {
    alias_from(aliases, key, 0)
}

/// Face `i` is of family `lower`: by its own name or by an alias.
pub open spec fn is_exact(v: FontsView, lower: Seq<char>, i: int) -> bool {
    v.faces[i].name == lower || alias_of(v.aliases, lower) == Some(i as usize)
}

/// Face `i` has a name that contains, or is contained in, `lower`.
pub open spec fn is_similar(v: FontsView, lower: Seq<char>, i: int) -> bool {
    v.faces[i].name.len() > 0 && (occurs(lower, v.faces[i].name) || occurs(v.faces[i].name, lower))
}

/// The candidate sets of the matcher, in order of precedence.
#[derive(Debug, Clone, Copy, PartialEq, Eq, Structural)]
pub enum Pool {
    /// The family, with the requested italic flag.
    ExactStyle,
    /// The family, any italic flag.
    Exact,
    /// Names that contain the request or are contained in it.
    Similar,
    /// The first loaded face.
    Fallback,
}

/// Face `i` belongs to `pool` for a request of family `lower`.
pub open spec fn in_pool(v: FontsView, lower: Seq<char>, italic: bool, pool: Pool, i: int) -> bool {
    0 <= i < v.faces.len() && match pool {
        Pool::ExactStyle => is_exact(v, lower, i) && v.faces[i].is_italic == italic,
        Pool::Exact => is_exact(v, lower, i),
        Pool::Similar => is_similar(v, lower, i),
        Pool::Fallback => i == 0,
    }
}

pub open spec fn pool_nonempty(v: FontsView, lower: Seq<char>, italic: bool, pool: Pool) -> bool {
    exists|i: int| #[trigger] in_pool(v, lower, italic, pool, i)
}

/// The first non-empty pool: exact family with the requested style,
/// exact family, similar names, the fallback face.
pub open spec fn pool_for(v: FontsView, lower: Seq<char>, italic: bool) -> Pool {
    if pool_nonempty(v, lower, italic, Pool::ExactStyle) {
        Pool::ExactStyle
    } else if pool_nonempty(v, lower, italic, Pool::Exact) {
        Pool::Exact
    } else if pool_nonempty(v, lower, italic, Pool::Similar) {
        Pool::Similar
    } else {
        Pool::Fallback
    }
}

/// Distance between the weight of face `i` and `weight`.
pub open spec fn dist(v: FontsView, i: int, weight: u16) -> int {
    let w = v.faces[i].weight;
    if w >= weight {
        w - weight
    } else {
        weight - w
    }
}

/// `id` is the face of `pool` nearest to `weight`, the first loaded one
/// among equally near faces.
pub open spec fn first_nearest(v: FontsView, lower: Seq<char>, italic: bool, pool: Pool, weight: u16, id: int) -> bool {
    &&& in_pool(v, lower, italic, pool, id)
    &&& forall|j: int| #[trigger] in_pool(v, lower, italic, pool, j) ==> dist(v, id, weight) <= dist(v, j, weight)
    &&& forall|j: int| 0 <= j < id && #[trigger] in_pool(v, lower, italic, pool, j) ==> dist(v, j, weight) > dist(
        v,
        id,
        weight,
    )
}

/// The face the matcher picks for family `lower` at `weight` (already
/// clamped) and `italic`.
pub open spec fn selects(v: FontsView, lower: Seq<char>, weight: u16, italic: bool, id: int) -> bool {
    first_nearest(v, lower, italic, pool_for(v, lower, italic), weight, id)
}

/// Face `f` maps `ch` to a glyph other than `.notdef`.
pub open spec fn spec_has_glyph(f: FaceView, ch: char) -> bool {
    match ab_glyph_glyph_id(f.data, f.face_index, ch) {
        Some(g) => g != 0,
        None => false,
    }
}

/// Whether family `name` resolves to a loaded face other than by falling
/// back: by name, by alias, or by a similar name.
pub open spec fn spec_has_family(v: FontsView, name: Seq<char>) -> bool {
    let lower = unicode_lowercase(name);
    &&& lower.len() > 0
    &&& {
        ||| alias_of(v.aliases, lower) is Some
        ||| exists|i: int| 0 <= i < v.faces.len() && #[trigger] v.faces[i].name == lower
        ||| exists|i: int| 0 <= i < v.faces.len() && #[trigger] is_similar(v, lower, i)
    }
}

/// The ids after `i` (below `n`) other than `primary`, in order.
pub open spec fn others_from(n: int, primary: int, i: int) -> Seq<usize>
    decreases n - i,
{
    if i >= n {
        Seq::empty()
    } else if i == primary {
        others_from(n, primary, i + 1)
    } else {
        seq![i as usize] + others_from(n, primary, i + 1)
    }
}

/// The per-glyph fallback order for `primary` among `n` faces: the
/// primary face first, then every other face in load order.
pub open spec fn spec_fallback_chain(n: int, primary: int) -> Seq<usize> {
    (if 0 <= primary < n {
        seq![primary as usize]
    } else {
        Seq::empty()
    }) + others_from(n, primary, 0)
}

impl FontManager {
    fn alias_lookup(&self, key: &[char]) -> (r: Option<usize>)
        ensures
            r == alias_of(self@.aliases, key@),
    {
        let mut k: usize = 0;
        while k < self.aliases.len()
            invariant
                k <= self.aliases@.len(),
                alias_of(self@.aliases, key@) == alias_from(self@.aliases, key@, k as int),
            decreases self.aliases@.len() - k,
        {
            let kc = str_chars(self.aliases[k].0.as_str());
            if chars_eq(kc.as_slice(), key) {
                return Some(self.aliases[k].1);
            }
            k += 1;
        }
        None
    }

    fn name_chars(&self, i: usize) -> (r: Vec<char>)
        requires
            i < self@.faces.len(),
        ensures
            r@ == self@.faces[i as int].name,
    {
        str_chars(self.fonts[i].name.as_str())
    }

    fn in_pool_exec(&self, lower: &[char], alias: Option<usize>, italic: bool, pool: Pool, i: usize) -> (b:
        bool)
        requires
            i < self@.faces.len(),
            alias == alias_of(self@.aliases, lower@),
        ensures
            b == in_pool(self@, lower@, italic, pool, i as int),
    {
        match pool {
            Pool::Fallback => i == 0,
            Pool::Similar => {
                let nc = self.name_chars(i);
                nc.len() > 0 && (occurs_chars(lower, nc.as_slice()) || occurs_chars(nc.as_slice(), lower))
            },
            _ => {
                let nc = self.name_chars(i);
                let exact = chars_eq(nc.as_slice(), lower) || alias == Some(i);
                match pool {
                    Pool::ExactStyle => exact && self.fonts[i].is_italic == italic,
                    _ => exact,
                }
            },
        }
    }

    /// The first face of `pool` nearest to `weight`, if the pool has any.
    fn nearest_in(&self, lower: &[char], alias: Option<usize>, italic: bool, pool: Pool, weight: u16) -> (r:
        Option<usize>)
        requires
            alias == alias_of(self@.aliases, lower@),
        ensures
            r matches Some(id) ==> first_nearest(self@, lower@, italic, pool, weight, id as int),
            r is None ==> !pool_nonempty(self@, lower@, italic, pool),
    {
        let ghost v = self@;
        let n = self.fonts.len();
        let mut best: Option<usize> = None;
        let mut i: usize = 0;
        while i < n
            invariant
                i <= n,
                n == v.faces.len(),
                v == self@,
                alias == alias_of(v.aliases, lower@),
                best is None ==> forall|j: int| 0 <= j < i ==> !#[trigger] in_pool(v, lower@, italic, pool, j),
                best matches Some(b) ==> {
                    &&& b < i
                    &&& in_pool(v, lower@, italic, pool, b as int)
                    &&& forall|j: int| 0 <= j < i && #[trigger] in_pool(v, lower@, italic, pool, j) ==> dist(
                        v,
                        b as int,
                        weight,
                    ) <= dist(v, j, weight)
                    &&& forall|j: int| 0 <= j < b && #[trigger] in_pool(v, lower@, italic, pool, j) ==> dist(
                        v,
                        j,
                        weight,
                    ) > dist(v, b as int, weight)
                },
            decreases n - i,
        {
            if self.in_pool_exec(lower, alias, italic, pool, i) {
                let di = weight_dist(self.fonts[i].weight, weight);
                match best {
                    None => {
                        best = Some(i);
                    },
                    Some(b) => {
                        let db = weight_dist(self.fonts[b].weight, weight);
                        if di < db {
                            best = Some(i);
                        }
                    },
                }
            }
            i += 1;
        }
        proof {
            if best is None {
                assert forall|j: int| !#[trigger] in_pool(v, lower@, italic, pool, j) by {
                    if 0 <= j < n {
                    }
                }
            }
        }
        best
    }

    /// The face for family `name` at ASS `weight` (clamped to 1..=1000)
    /// and `italic`: among faces of that family (by name or alias) with
    /// the requested italic flag, else of that family, else with a name
    /// containing or contained in it (case-insensitively), else the
    /// fallback face, the one nearest in weight, load order breaking ties.
    pub fn find_font_with_weight(&self, name: &str, weight: u16, italic: bool) -> (r: FontMatch<'_>)
        requires
            self@.faces.len() > 0,
        ensures
            r.id < self@.faces.len(),
            selects(self@, unicode_lowercase(name@), clamp_weight(weight), italic, r.id as int),
            r.faux_bold == (clamp_weight(weight) >= 700 && self@.faces[r.id as int].weight < 700),
            r.faux_italic == (italic && !self@.faces[r.id as int].is_italic),
            *r.font == self.font_at(r.id as int),
    {
        let lower = lowercase_str(name);
        let lc = str_chars(lower.as_str());
        let w: u16 = if weight < 1 {
            1
        } else if weight > 1000 {
            1000
        } else {
            weight
        };
        let alias = self.alias_lookup(lc.as_slice());
        let ghost v = self@;
        let ghost lo = lc@;
        let id = match self.nearest_in(lc.as_slice(), alias, italic, Pool::ExactStyle, w) {
            Some(id) => id,
            None => match self.nearest_in(lc.as_slice(), alias, italic, Pool::Exact, w) {
                Some(id) => id,
                None => match self.nearest_in(lc.as_slice(), alias, italic, Pool::Similar, w) {
                    Some(id) => id,
                    None => {
                        assert(in_pool(v, lo, italic, Pool::Fallback, 0));
                        assert(first_nearest(v, lo, italic, Pool::Fallback, w, 0));
                        0
                    },
                },
            },
        };
        FontMatch {
            id,
            font: &self.fonts[id].font,
            faux_bold: w >= 700 && self.fonts[id].weight < 700,
            faux_italic: italic && !self.fonts[id].is_italic,
        }
    }

    /// `find_font_with_weight` with weight 700 for `bold`, else 400.
    pub fn find_font_with_match(&self, name: &str, bold: bool, italic: bool) -> (r: FontMatch<'_>)
        requires
            self@.faces.len() > 0,
        ensures
            r.id < self@.faces.len(),
            selects(
                self@,
                unicode_lowercase(name@),
                if bold {
                    700
                } else {
                    400
                },
                italic,
                r.id as int,
            ),
            r.faux_bold == (bold && self@.faces[r.id as int].weight < 700),
            r.faux_italic == (italic && !self@.faces[r.id as int].is_italic),
            *r.font == self.font_at(r.id as int),
    {
        self.find_font_with_weight(
            name,
            if bold {
                700
            } else {
                400
            },
            italic,
        )
    }

    /// The face `find_font_with_match` picks.
    pub fn find_font(&self, name: &str, bold: bool, italic: bool) -> (r: &FontArc)
        requires
            self@.faces.len() > 0,
        ensures
            exists|id: int|
                0 <= id < self@.faces.len() && selects(
                    self@,
                    unicode_lowercase(name@),
                    if bold {
                        700
                    } else {
                        400
                    },
                    italic,
                    id,
                ) && *r == #[trigger] self.font_at(id),
    {
        let m = self.find_font_with_match(name, bold, italic);
        m.font
    }

    /// Whether face `index` has a real glyph (not `.notdef`) for `ch` in
    /// the character map of the bytes it was loaded from; unknown ids
    /// have none.
    pub fn has_glyph(&self, index: usize, ch: char) -> (b: bool)
        ensures
            b == (index < self@.faces.len() && spec_has_glyph(self@.faces[index as int], ch)),
    {
        if index >= self.fonts.len() {
            return false;
        }
        match face_glyph_id(self.fonts[index].data.as_slice(), self.fonts[index].face_index, ch) {
            Some(g) => g != 0,
            None => false,
        }
    }

    /// The per-glyph fallback order for `primary`: it first (when it is a
    /// loaded id), then every other face in load order.
    pub fn fallback_chain(&self, primary: usize) -> (r: Vec<usize>)
        ensures
            r@ == spec_fallback_chain(self@.faces.len() as int, primary as int),
    {
        let n = self.fonts.len();
        let mut chain: Vec<usize> = Vec::new();
        if primary < n {
            chain.push(primary);
        }
        let ghost head = chain@;
        assert(head == (if 0 <= primary < n {
            seq![primary as usize]
        } else {
            Seq::<usize>::empty()
        }));
        let mut i: usize = 0;
        assert(chain@ + others_from(n as int, primary as int, 0) =~= head + others_from(
            n as int,
            primary as int,
            0,
        ));
        while i < n
            invariant
                i <= n,
                n == self@.faces.len(),
                chain@ + others_from(n as int, primary as int, i as int) == head + others_from(
                    n as int,
                    primary as int,
                    0,
                ),
            decreases n - i,
        {
            if i != primary {
                let ghost before = chain@;
                chain.push(i);
                assert(before + others_from(n as int, primary as int, i as int) =~= chain@ + others_from(
                    n as int,
                    primary as int,
                    i + 1,
                ));
            }
            i += 1;
        }
        assert(chain@ =~= chain@ + others_from(n as int, primary as int, n as int));
        chain
    }

    /// Faux-style needs `(bold, italic)` for face `index` under a request
    /// of `weight` and `italic`; an unknown id needs both as requested.
    pub fn faux_for(&self, index: usize, weight: u16, italic: bool) -> (r: (bool, bool))
        ensures
            r == if index < self@.faces.len() {
                (weight >= 700 && self@.faces[index as int].weight < 700, italic
                    && !self@.faces[index as int].is_italic)
            } else {
                (weight >= 700, italic)
            },
    {
        if index < self.fonts.len() {
            (weight >= 700 && self.fonts[index].weight < 700, italic && !self.fonts[index].is_italic)
        } else {
            (weight >= 700, italic)
        }
    }

    /// Whether family `name` resolves to a loaded face (by name, alias or
    /// similar name) rather than to the fallback.
    pub fn has_family(&self, name: &str) -> (b: bool)
        ensures
            b == spec_has_family(self@, name@),
    {
        let lower = lowercase_str(name);
        let lc = str_chars(lower.as_str());
        assert(lc@ == unicode_lowercase(name@));
        if lc.len() == 0 {
            return false;
        }
        if self.alias_lookup(lc.as_slice()).is_some() {
            return true;
        }
        let ghost v = self@;
        let n = self.fonts.len();
        let mut i: usize = 0;
        while i < n
            invariant
                i <= n,
                n == v.faces.len(),
                v == self@,
                lc@ == unicode_lowercase(name@),
                lc@.len() > 0,
                forall|j: int| 0 <= j < i ==> #[trigger] v.faces[j].name != lc@,
            decreases n - i,
        {
            let nc = self.name_chars(i);
            if chars_eq(nc.as_slice(), lc.as_slice()) {
                assert(v.faces[i as int].name == lc@);
                return true;
            }
            i += 1;
        }
        let mut i: usize = 0;
        while i < n
            invariant
                i <= n,
                n == v.faces.len(),
                v == self@,
                lc@ == unicode_lowercase(name@),
                lc@.len() > 0,
                forall|j: int| 0 <= j < i ==> !#[trigger] is_similar(v, lc@, j),
            decreases n - i,
        {
            let nc = self.name_chars(i);
            if nc.len() > 0 && (occurs_chars(lc.as_slice(), nc.as_slice()) || occurs_chars(
                nc.as_slice(),
                lc.as_slice(),
            )) {
                assert(is_similar(v, lc@, i as int));
                return true;
            }
            i += 1;
        }
        false
    }
}

// ---------------------------------------------------------------------
// Loading with metadata
// ---------------------------------------------------------------------
pub open spec fn or_else(a: Option<bool>, b: Option<bool>) -> Option<bool> {
    match a {
        Some(x) => Some(x),
        None => b,
    }
}

pub open spec fn flag(b: Option<bool>) -> bool {
    match b {
        Some(x) => x,
        None => false,
    }
}

/// Bold, italic and ASS weight of a face loaded with `load_font_auto`:
/// the declared flags, else the file-name guess, else regular; the
/// declared weight class when it is in 1..=1000, else 700 for bold and
/// 400 otherwise.
pub open spec fn auto_style(meta: Option<FontMetaView>, guess: (Option<bool>, Option<bool>)) -> (bool, bool, u16) {
    let (b, it) = match meta {
        Some(m) => (or_else(m.is_bold, guess.0), or_else(m.is_italic, guess.1)),
        None => guess,
    };
    let bold = flag(b);
    let dflt: u16 = if bold {
        700
    } else {
        400
    };
    let weight = match meta {
        Some(m) => match m.weight {
            Some(w) => if 1 <= w <= 1000 {
                w
            } else {
                dflt
            },
            None => dflt,
        },
        None => dflt,
    };
    (bold, flag(it), weight)
}

/// The alias one declared family name gives face `idx`: its trimmed
/// lowercase form, unless that is empty, the face's own name `base`, or
/// already registered.
pub open spec fn add_alias(aliases: Seq<(Seq<char>, usize)>, family: Seq<char>, base: Seq<char>, idx: usize) -> Seq<
    (Seq<char>, usize),
> {
    let fam = unicode_lowercase(trim(family));
    if fam.len() == 0 || fam == base || alias_of(aliases, fam) is Some {
        aliases
    } else {
        aliases.push((fam, idx))
    }
}

/// The aliases after registering `families` for face `idx`, in order.
pub open spec fn add_aliases(aliases: Seq<(Seq<char>, usize)>, families: Seq<Seq<char>>, base: Seq<char>, idx: usize) -> Seq<
    (Seq<char>, usize),
>
    decreases families.len(),
{
    if families.len() == 0 {
        aliases
    } else {
        add_alias(add_aliases(aliases, families.drop_last(), base, idx), families.last(), base, idx)
    }
}

/// `load_font_auto` from face `f` on (of `n`): the faces and aliases it
/// leaves, and the first face that fails to parse.
#[verifier::opaque]
pub open spec fn auto_from(v: FontsView, name: Seq<char>, data: Seq<u8>, f: int, n: int) -> (FontsView, Option<int>)
    decreases n - f,
{
    if f >= n {
        (v, None)
    } else if !ab_glyph_parses(data, f as u32) {
        (v, Some(f))
    } else {
        let base = spec_strip_style_words(name);
        let meta = spec_inspect(data, f as u32);
        let st = auto_style(meta, spec_style_from_filename(name));
        let idx = v.faces.len() as usize;
        let faces = v.faces.push(face_of(base, data, st.2, st.1, f as u32));
        let aliases = match meta {
            Some(m) => add_aliases(v.aliases, m.families, base, idx),
            None => v.aliases,
        };
        auto_from(FontsView { faces, aliases }, name, data, f + 1, n)
    }
}

/// Loading a font only adds faces after the ones there before.
pub proof fn lemma_auto_keeps_faces(v: FontsView, name: Seq<char>, data: Seq<u8>, f: int, n: int)
    ensures
        v.faces.len() <= auto_from(v, name, data, f, n).0.faces.len(),
        forall|i: int| 0 <= i < v.faces.len() ==> #[trigger] auto_from(v, name, data, f, n).0.faces[i] == v.faces[i],
    decreases n - f,
{
    reveal(auto_from);
    if f < n && ab_glyph_parses(data, f as u32) {
        let base = spec_strip_style_words(name);
        let meta = spec_inspect(data, f as u32);
        let st = auto_style(meta, spec_style_from_filename(name));
        let idx = v.faces.len() as usize;
        let faces = v.faces.push(face_of(base, data, st.2, st.1, f as u32));
        let aliases = match meta {
            Some(m) => add_aliases(v.aliases, m.families, base, idx),
            None => v.aliases,
        };
        let w = FontsView { faces, aliases };
        lemma_auto_keeps_faces(w, name, data, f + 1, n);
        assert forall|i: int| 0 <= i < v.faces.len() implies #[trigger] auto_from(v, name, data, f, n).0.faces[i]
            == v.faces[i] by {
            assert(auto_from(w, name, data, f + 1, n).0.faces[i] == w.faces[i]);
        }
    }
}


impl FontManager {
    fn register_aliases(&mut self, families: &Vec<String>, base: &[char], idx: usize)
        ensures
            final(self)@.faces == old(self)@.faces,
            final(self)@.aliases == add_aliases(old(self)@.aliases, string_views(families@), base@, idx),
    {
        let ghost fams = string_views(families@);
        let mut k: usize = 0;
        assert(fams.take(0) =~= Seq::<Seq<char>>::empty());
        while k < families.len()
            invariant
                k <= families@.len(),
                fams == string_views(families@),
                self@.faces == old(self)@.faces,
                self@.aliases == add_aliases(old(self)@.aliases, fams.take(k as int), base@, idx),
            decreases families@.len() - k,
        {
            let ghost before = self@.aliases;
            let fc = str_chars(families[k].as_str());
            let tc = trim_chars(fc.as_slice());
            let ts = string_of(tc.as_slice());
            let lower = lowercase_str(ts.as_str());
            let lc = str_chars(lower.as_str());
            proof {
                assert(fams.take(k + 1).drop_last() =~= fams.take(k as int));
                assert(fams.take(k + 1).last() == fams[k as int]);
                assert(lc@ == unicode_lowercase(trim(fams[k as int])));
            }
            if lc.len() > 0 && !chars_eq(lc.as_slice(), base) && self.alias_lookup(lc.as_slice()).is_none() {
                self.aliases.push((lower, idx));
                proof {
                    assert(self@.aliases =~= before.push((lc@, idx)));
                }
            }
            proof {
                assert(self@.faces =~= old(self)@.faces);
            }
            k += 1;
        }
        assert(fams.take(families@.len() as int) =~= fams);
    }

    /// Load every face of a font or collection, taking each face's style
    /// from its metadata (else from the file name) and its family from
    /// the file name without style words; every declared family name
    /// becomes an alias of the face. The id of the first face.
    pub fn load_font_auto(&mut self, name: &str, data: &[u8]) -> (r: Result<usize, String>)
        ensures
            match spec_face_count(data@) {
                None => final(self)@ == old(self)@ && (r matches Err(e) && e@ == header_failure(name@)),
                Some(n) => {
                    let (v, fail) = auto_from(old(self)@, name@, data@, 0, n);
                    &&& final(self)@ == v
                    &&& match fail {
                        Some(k) => r matches Err(e) && e@ == parse_failure(
                            spec_strip_style_words(name@),
                            k as u32,
                        ),
                        None => r matches Ok(i) && i == old(self)@.faces.len(),
                    }
                },
            },
    {
        let base = strip_style_words(name);
        let bc = str_chars(base.as_str());
        let count = match collection_face_count(data) {
            Some(c) => c,
            None => {
                let mut m = String::new();
                push_str(&mut m, "Invalid font collection header for '");
                push_str(&mut m, name);
                push_str(&mut m, "'");
                proof {
                    reveal_strlit("Invalid font collection header for '");
                    reveal_strlit("'");
                    assert(m@ =~= header_failure(name@));
                }
                return Err(m);
            },
        };
        let ghost n = count as int;
        assert(count <= 64);
        let guess = style_from_filename(name);
        let first = self.fonts.len();
        let mut f: usize = 0;
        while f < count
            invariant
                f <= count <= 64,
                n == count,
                spec_face_count(data@) == Some(n),
                first == old(self)@.faces.len(),
                bc@ == spec_strip_style_words(name@),
                base@ == bc@,
                guess == spec_style_from_filename(name@),
                auto_from(old(self)@, name@, data@, 0, n) == auto_from(self@, name@, data@, f as int, n),
            decreases count - f,
        {
            let ghost pre = self@;
            let meta = inspect_font_metadata_at(data, f as u32);
            let ghost mv = spec_inspect(data@, f as u32);
            let (_bold, italic, weight) = auto_style_exec(&meta, guess);
            match self.load_one_face(base.as_str(), data, weight, italic, f as u32) {
                Ok(idx) => {
                    match &meta {
                        Some(m) => {
                            self.register_aliases(&m.families, bc.as_slice(), idx);
                        },
                        None => {},
                    }
                    proof {
                        lemma_auto_step(pre, self@, name@, data@, f as int, n, idx);
                    }
                },
                Err(e) => {
                    proof {
                        lemma_auto_fail(pre, name@, data@, f as int, n);
                    }
                    return Err(e);
                },
            }
            f += 1;
        }
        proof {
            lemma_auto_done(self@, name@, data@, n);
        }
        Ok(first)
    }
}

fn auto_style_exec(meta: &Option<FontMetadata>, guess: (Option<bool>, Option<bool>)) -> (r: (bool, bool, u16))
    ensures
        r == auto_style(
            match meta {
                Some(m) => Some(m@),
                None => None,
            },
            guess,
        ),
{
    let (b, it) = match meta {
        Some(m) => (
            match m.is_bold {
                Some(x) => Some(x),
                None => guess.0,
            },
            match m.is_italic {
                Some(x) => Some(x),
                None => guess.1,
            },
        ),
        None => guess,
    };
    let bold = match b {
        Some(x) => x,
        None => false,
    };
    let italic = match it {
        Some(x) => x,
        None => false,
    };
    let dflt: u16 = if bold {
        700
    } else {
        400
    };
    let weight: u16 = match meta {
        Some(m) => match m.weight {
            Some(w) => if 1 <= w && w <= 1000 {
                w
            } else {
                dflt
            },
            None => dflt,
        },
        None => dflt,
    };
    (bold, italic, weight)
}

proof fn lemma_auto_step(pre: FontsView, post: FontsView, name: Seq<char>, data: Seq<u8>, f: int, n: int, idx: usize)
    requires
        0 <= f < n,
        ab_glyph_parses(data, f as u32),
        idx == pre.faces.len(),
        ({
            let base = spec_strip_style_words(name);
            let meta = spec_inspect(data, f as u32);
            let st = auto_style(meta, spec_style_from_filename(name));
            &&& post.faces == pre.faces.push(face_of(base, data, st.2, st.1, f as u32))
            &&& post.aliases == match meta {
                Some(m) => add_aliases(pre.aliases, m.families, base, idx),
                None => pre.aliases,
            }
        }),
    ensures
        auto_from(pre, name, data, f, n) == auto_from(post, name, data, f + 1, n),
{
    let base = spec_strip_style_words(name);
    let meta = spec_inspect(data, f as u32);
    let st = auto_style(meta, spec_style_from_filename(name));
    let next = FontsView {
        faces: pre.faces.push(face_of(base, data, st.2, st.1, f as u32)),
        aliases: match meta {
            Some(m) => add_aliases(pre.aliases, m.families, base, idx),
            None => pre.aliases,
        },
    };
    assert(post =~= next);
    reveal_with_fuel(auto_from, 1);
}

proof fn lemma_auto_fail(v: FontsView, name: Seq<char>, data: Seq<u8>, f: int, n: int)
    requires
        0 <= f < n,
        !ab_glyph_parses(data, f as u32),
    ensures
        auto_from(v, name, data, f, n) == (v, Some(f)),
{
    reveal_with_fuel(auto_from, 1);
}

proof fn lemma_auto_done(v: FontsView, name: Seq<char>, data: Seq<u8>, n: int)
    ensures
        auto_from(v, name, data, n, n) == (v, None::<int>),
{
    reveal_with_fuel(auto_from, 1);
}

// ---------------------------------------------------------------------
// Laws of the matcher
// ---------------------------------------------------------------------
/// A face of the requested family (by name or alias) always wins over a
/// face with a merely similar name, whatever the load order.
pub proof fn lemma_exact_family_wins(v: FontsView, lower: Seq<char>, weight: u16, italic: bool, id: int, member: int)
    requires
        selects(v, lower, weight, italic, id),
        0 <= member < v.faces.len(),
        is_exact(v, lower, member),
    ensures
        is_exact(v, lower, id),
{
    assert(in_pool(v, lower, italic, Pool::Exact, member));
}

/// Among faces of the requested family and style, the one nearest in
/// weight wins, and of equally near faces the first loaded.
pub proof fn lemma_nearest_weight_wins(v: FontsView, lower: Seq<char>, weight: u16, italic: bool, id: int, other: int)
    requires
        selects(v, lower, weight, italic, id),
        0 <= other < v.faces.len(),
        is_exact(v, lower, other),
        v.faces[other].is_italic == italic,
    ensures
        is_exact(v, lower, id),
        v.faces[id].is_italic == italic,
        dist(v, id, weight) <= dist(v, other, weight),
        other < id ==> dist(v, other, weight) > dist(v, id, weight),
{
    assert(in_pool(v, lower, italic, Pool::ExactStyle, other));
}

/// Id `i` occurs in `s`.
pub open spec fn lists(s: Seq<usize>, i: int) -> bool {
    s.contains(i as usize)
}

proof fn lemma_others_from(n: int, p: int, i: int)
    requires
        0 <= i <= n,
        n <= usize::MAX + 1,
    ensures
        others_from(n, p, i).len() == (n - i) - (if i <= p < n {
            1int
        } else {
            0int
        }),
        forall|k: int|
            0 <= k < others_from(n, p, i).len() ==> i <= #[trigger] others_from(n, p, i)[k] < n
                && others_from(n, p, i)[k] != p,
        forall|a: int, b: int|
            0 <= a < b < others_from(n, p, i).len() ==> #[trigger] others_from(n, p, i)[a]
                < #[trigger] others_from(n, p, i)[b],
        forall|j: int| i <= j < n && j != p ==> #[trigger] lists(others_from(n, p, i), j),
    decreases n - i,
{
    if i < n {
        lemma_others_from(n, p, i + 1);
        let rest = others_from(n, p, i + 1);
        if i != p {
            let s = others_from(n, p, i);
            assert(s == seq![i as usize] + rest);
            assert forall|j: int| i <= j < n && j != p implies #[trigger] lists(s, j) by {
                if j == i {
                    assert(s[0] == j as usize);
                } else {
                    assert(lists(rest, j));
                    let k = choose|k: int| 0 <= k < rest.len() && rest[k] == j as usize;
                    assert(s[k + 1] == j as usize);
                }
            }
        }
    }
}

/// For a loaded primary face, the fallback chain lists every face exactly
/// once: the primary first, then the others in load order.
pub proof fn lemma_fallback_chain_lists_every_face(n: int, primary: int)
    requires
        0 <= primary < n,
        n <= usize::MAX,
    ensures
        spec_fallback_chain(n, primary).len() == n,
        spec_fallback_chain(n, primary)[0] == primary,
        forall|i: int| 0 <= i < n ==> #[trigger] lists(spec_fallback_chain(n, primary), i),
        forall|a: int, b: int|
            0 <= a < b < n ==> spec_fallback_chain(n, primary)[a] != spec_fallback_chain(n, primary)[b],
        forall|a: int, b: int|
            1 <= a < b < n ==> spec_fallback_chain(n, primary)[a] < spec_fallback_chain(n, primary)[b],
{
    lemma_others_from(n, primary, 0);
    let rest = others_from(n, primary, 0);
    let c = spec_fallback_chain(n, primary);
    assert(c == seq![primary as usize] + rest);
    assert forall|i: int| 0 <= i < n implies #[trigger] lists(c, i) by {
        if i == primary {
            assert(c[0] == i as usize);
        } else {
            assert(lists(rest, i));
            let k = choose|k: int| 0 <= k < rest.len() && rest[k] == i as usize;
            assert(c[k + 1] == i as usize);
        }
    }
    assert forall|a: int, b: int| 0 <= a < b < n implies c[a] != c[b] by {
        if a == 0 {
            assert(rest[b - 1] != primary);
        } else {
            assert(rest[a - 1] < rest[b - 1]);
        }
    }
    assert forall|a: int, b: int| 1 <= a < b < n implies c[a] < c[b] by {
        assert(rest[a - 1] < rest[b - 1]);
    }
}

/// Every face below `k` parses and face `k` does not: the first failure
/// is `k`.
pub proof fn lemma_first_failure_prefix(data: Seq<u8>, f: int, k: int, n: int)
    requires
        f <= k < n,
        forall|g: int| f <= g < k ==> #[trigger] parses_at(data, g),
        !ab_glyph_parses(data, k as u32),
    ensures
        first_failure(data, f, n) == k,
    decreases k - f,
{
    if f < k {
        assert(parses_at(data, f));
        lemma_first_failure_prefix(data, f + 1, k, n);
    }
}

/// Every face from `f` to `n` parses: there is no failure.
pub proof fn lemma_first_failure_all(data: Seq<u8>, f: int, n: int)
    requires
        f <= n,
        forall|g: int| f <= g < n ==> #[trigger] parses_at(data, g),
    ensures
        first_failure(data, f, n) == n,
    decreases n - f,
{
    if f < n {
        assert(parses_at(data, f));
        lemma_first_failure_all(data, f + 1, n);
    }
}

} // verus!
