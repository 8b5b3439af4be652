//! The renderer's state: the parsed document, the loaded faces (the
//! built-in fallback first, then the fonts embedded in the document),
//! the frame buffer at the script's play resolution, and the non-fatal
//! warnings gathered while building it.
use crate::parser::errors::error_message;
use crate::parser::attachment::att_views;
use crate::parser::{spec_parse_doc, AssDocument, DocView};
use crate::renderer::buffer::{all_zero, render_error_message, spec_buffer_len, RenderBuffer};
use crate::renderer::font::{
    get_fallback_font, spec_face_count, spec_strip_style_words, string_views,
};
use crate::renderer::font::manager::{
    auto_from, faces_loaded, lemma_auto_keeps_faces, first_failure, header_failure, lemma_first_failure_bounds, parse_failure, FontManager, FontsView,
};
use crate::text::{chars_eq, push_chars, push_str, str_chars, sub_chars, string_of};
use crate::types::attachment::{Attachment, AttachmentKind, AttachmentView};
use vstd::prelude::*;

verus! {

/// Most warnings kept: each distinct message once, up to this many.
pub const MAX_WARNINGS: usize = 64;

/// A warning added to the list: dropped when the list is full or
/// already holds it.
pub open spec fn spec_push_warning(ws: Seq<Seq<char>>, m: Seq<char>) -> Seq<Seq<char>> {
    if ws.len() >= MAX_WARNINGS || ws.contains(m) {
        ws
    } else {
        ws.push(m)
    }
}

/// Add a warning unless the list is full or already holds it.
pub fn push_warning(warnings: &mut Vec<String>, msg: String)
    ensures
        string_views(final(warnings)@) == spec_push_warning(string_views(old(warnings)@), msg@),
{
    let ghost ws = string_views(warnings@);
    if warnings.len() >= MAX_WARNINGS {
        return;
    }
    let m = str_chars(msg.as_str());
    let mut k: usize = 0;
    while k < warnings.len()
        invariant
            k <= warnings@.len(),
            warnings@ == old(warnings)@,
            ws == string_views(warnings@),
            m@ == msg@,
            forall|j: int| 0 <= j < k ==> ws[j] != msg@,
        decreases warnings@.len() - k,
    {
        let w = str_chars(warnings[k].as_str());
        if chars_eq(w.as_slice(), m.as_slice()) {
            assert(ws[k as int] == msg@);
            assert(ws.contains(msg@));
            return;
        }
        k += 1;
    }
    assert(!ws.contains(msg@));
    warnings.push(msg);
    assert(string_views(warnings@) =~= ws.push(msg@));
}

/// The position of the last `.` among the first `k` characters, or -1.
pub open spec fn last_dot(n: Seq<char>, k: int) -> int
    decreases k,
{
    if k <= 0 {
        -1
    } else if n[k - 1] == '.' {
        k - 1
    } else {
        last_dot(n, k - 1)
    }
}

/// A file name without its extension: the part before the last `.`,
/// or the whole name when it has none.
pub open spec fn spec_file_stem(n: Seq<char>) -> Seq<char> {
    let d = last_dot(n, n.len() as int);
    if d < 0 {
        n
    } else {
        n.subrange(0, d)
    }
}

proof fn lemma_last_dot_bounds(n: Seq<char>, k: int)
    requires
        0 <= k <= n.len(),
    ensures
        -1 <= last_dot(n, k) < k,
    decreases k,
{
    if k > 0 && n[k - 1] != '.' {
        lemma_last_dot_bounds(n, k - 1);
    }
}

/// The file stem of `name`.
pub fn file_stem(name: &str) -> (r: String)
    ensures
        r@ == spec_file_stem(name@),
{
    let c = str_chars(name);
    let mut k = c.len();
    while k > 0
        invariant
            k <= c@.len(),
            c@ == name@,
            last_dot(c@, c@.len() as int) == last_dot(c@, k as int),
        decreases k,
    {
        if c[k - 1] == '.' {
            let s = sub_chars(c.as_slice(), 0, k - 1);
            return string_of(s.as_slice());
        }
        k -= 1;
    }
    string_of(c.as_slice())
}

/// What `FontManager::load_font_auto` does to the faces, and its error.
pub open spec fn spec_load_auto(v: FontsView, name: Seq<char>, data: Seq<u8>) -> (FontsView, Option<Seq<char>>) {
    match spec_face_count(data) {
        None => (v, Some(header_failure(name))),
        Some(n) => {
            let (w, fail) = auto_from(v, name, data, 0, n);
            (
                w,
                match fail {
                    Some(k) => Some(parse_failure(spec_strip_style_words(name), k as u32)),
                    None => None,
                },
            )
        },
    }
}

/// The warning for an embedded font that failed to load.
pub open spec fn embedded_font_warning(filename: Seq<char>, error: Seq<char>) -> Seq<char> {
    "Failed to load embedded font "@ + filename + ": "@ + error
}

/// One attachment: a font is loaded under its file stem; a failure
/// adds a warning. Graphics change nothing.
pub open spec fn embed_one(st: (FontsView, Seq<Seq<char>>), a: AttachmentView) -> (FontsView, Seq<Seq<char>>) {
    if a.kind != AttachmentKind::Font {
        st
    } else {
        let (v, err) = spec_load_auto(st.0, spec_file_stem(a.filename), a.data);
        match err {
            None => (v, st.1),
            Some(e) => (v, spec_push_warning(st.1, embedded_font_warning(a.filename, e))),
        }
    }
}

/// The attachments taken in order.
pub open spec fn spec_embed(st: (FontsView, Seq<Seq<char>>), atts: Seq<AttachmentView>) -> (FontsView, Seq<Seq<char>>)
    decreases atts.len(),
{
    if atts.len() == 0 {
        st
    } else {
        embed_one(spec_embed(st, atts.drop_last()), atts.last())
    }
}

fn embedded_warning(filename: &String, error: &String) -> (r: String)
    ensures
        r@ == embedded_font_warning(filename@, error@),
{
    let mut out = String::new();
    push_str(&mut out, "Failed to load embedded font ");
    let f = str_chars(filename.as_str());
    push_chars(&mut out, f.as_slice());
    push_str(&mut out, ": ");
    let e = str_chars(error.as_str());
    push_chars(&mut out, e.as_slice());
    out
}

fn load_auto(fonts: &mut FontManager, name: &str, data: &[u8]) -> (r: Result<usize, String>)
    ensures
        final(fonts)@ == spec_load_auto(old(fonts)@, name@, data@).0,
        match spec_load_auto(old(fonts)@, name@, data@).1 {
            None => r is Ok,
            Some(e) => r matches Err(x) && x@ == e,
        },
{
    fonts.load_font_auto(name, data)
}

/// Load the fonts embedded in a document, each under its file stem, in
/// order; every one that fails adds a warning.
pub fn load_embedded_fonts(fonts: &mut FontManager, attachments: &Vec<Attachment>, warnings: &mut Vec<String>)
    ensures
        final(fonts)@ == spec_embed((old(fonts)@, string_views(old(warnings)@)), att_views(attachments@)).0,
        string_views(final(warnings)@) == spec_embed(
            (old(fonts)@, string_views(old(warnings)@)),
            att_views(attachments@),
        ).1,
{
    let ghost start = (fonts@, string_views(warnings@));
    let ghost atts = att_views(attachments@);
    let mut k: usize = 0;
    while k < attachments.len()
        invariant
            k <= attachments@.len(),
            atts == att_views(attachments@),
            spec_embed(start, atts.take(k as int)).0 == fonts@,
            spec_embed(start, atts.take(k as int)).1 == string_views(warnings@),
        decreases attachments@.len() - k,
    {
        let a = &attachments[k];
        assert(atts.take(k + 1).drop_last() =~= atts.take(k as int));
        assert(atts.take(k + 1).last() == a@);
        match a.kind {
            AttachmentKind::Font => {
                let stem = file_stem(a.filename.as_str());
                match load_auto(fonts, stem.as_str(), a.data.as_slice()) {
                    Ok(_) => {},
                    Err(e) => {
                        let msg = embedded_warning(&a.filename, &e);
                        push_warning(warnings, msg);
                    },
                }
            },
            AttachmentKind::Graphic => {},
        }
        k += 1;
    }
    assert(atts.take(k as int) =~= atts);
}

/// Loading embedded fonts only adds faces: the faces loaded before, the
/// fallback first among them, keep their ids.
pub proof fn lemma_embed_keeps_faces(st: (FontsView, Seq<Seq<char>>), atts: Seq<AttachmentView>)
    ensures
        st.0.faces.len() <= spec_embed(st, atts).0.faces.len(),
        forall|i: int| 0 <= i < st.0.faces.len() ==> #[trigger] spec_embed(st, atts).0.faces[i] == st.0.faces[i],
    decreases atts.len(),
{
    if atts.len() > 0 {
        let pre = spec_embed(st, atts.drop_last());
        lemma_embed_keeps_faces(st, atts.drop_last());
        let a = atts.last();
        if a.kind == AttachmentKind::Font {
            let name = spec_file_stem(a.filename);
            match spec_face_count(a.data) {
                Some(n) => {
                    lemma_auto_keeps_faces(pre.0, name, a.data, 0, n);
                    assert forall|i: int| 0 <= i < st.0.faces.len() implies #[trigger] spec_embed(st, atts).0.faces[i]
                        == st.0.faces[i] by {
                        assert(auto_from(pre.0, name, a.data, 0, n).0.faces[i] == pre.0.faces[i]);
                    }
                },
                None => {},
            }
        }
    }
}

/// No warning appears twice, and there are at most `MAX_WARNINGS`.
pub open spec fn warnings_ok(ws: Seq<Seq<char>>) -> bool {
    &&& ws.len() <= MAX_WARNINGS
    &&& forall|i: int, j: int| 0 <= i < j < ws.len() ==> ws[i] != ws[j]
}

/// Adding a warning keeps the list distinct and within the cap.
pub proof fn lemma_push_warning_ok(ws: Seq<Seq<char>>, m: Seq<char>)
    requires
        warnings_ok(ws),
    ensures
        warnings_ok(spec_push_warning(ws, m)),
{
    if !(ws.len() >= MAX_WARNINGS || ws.contains(m)) {
        let r = ws.push(m);
        assert forall|i: int, j: int| 0 <= i < j < r.len() implies r[i] != r[j] by {
            if j == ws.len() {
                if r[i] == r[j] {
                    assert(ws.contains(m)) by {
                        assert(ws[i] == m);
                    }
                }
            }
        }
    }
}

/// The warnings gathered while loading embedded fonts stay distinct and
/// within the cap.
pub proof fn lemma_embed_warnings_ok(st: (FontsView, Seq<Seq<char>>), atts: Seq<AttachmentView>)
    requires
        warnings_ok(st.1),
    ensures
        warnings_ok(spec_embed(st, atts).1),
    decreases atts.len(),
{
    if atts.len() > 0 {
        lemma_embed_warnings_ok(st, atts.drop_last());
        let pre = spec_embed(st, atts.drop_last());
        let a = atts.last();
        if a.kind == AttachmentKind::Font {
            let (v, err) = spec_load_auto(pre.0, spec_file_stem(a.filename), a.data);
            match err {
                Some(e) => lemma_push_warning_ok(pre.1, embedded_font_warning(a.filename, e)),
                None => {},
            }
        }
    }
}

/// The renderer's state, as values.
pub struct RendererView {
    pub doc: DocView,
    pub fonts: FontsView,
    pub width: u32,
    pub height: u32,
    pub pixels: Seq<u8>,
    pub video_width: u32,
    pub video_height: u32,
    pub warnings: Seq<Seq<char>>,
}

/// The renderer's state.
pub struct SubtitleRenderer {
    doc: AssDocument,
    font_manager: FontManager,
    buffer: RenderBuffer,
    video_width: u32,
    video_height: u32,
    warnings: Vec<String>,
}

impl View for SubtitleRenderer {
    type V = RendererView;

    closed spec fn view(&self) -> RendererView {
        RendererView {
            doc: self.doc@,
            fonts: self.font_manager@,
            width: self.buffer.width,
            height: self.buffer.height,
            pixels: self.buffer.pixels@,
            video_width: self.video_width,
            video_height: self.video_height,
            warnings: string_views(self.warnings@),
        }
    }
}

/// The name the built-in fallback face is loaded under.
pub open spec fn fallback_name() -> Seq<char> {
    "DejaVu Sans"@
}

/// The faces after loading the fallback font `d` into an empty manager,
/// or the error.
pub open spec fn spec_fallback_fonts(d: Seq<u8>) -> Result<FontsView, Seq<char>> {
    match spec_face_count(d) {
        None => Err(header_failure(fallback_name())),
        Some(n) => {
            let k = first_failure(d, 0, n);
            if k < n {
                Err(parse_failure(fallback_name(), k as u32))
            } else {
                Ok(FontsView { faces: faces_loaded(fallback_name(), d, 400, false, n), aliases: Seq::empty() })
            }
        },
    }
}

/// A renderer built from `ass` with the fallback font `d`: the document
/// parsed (else "Failed to parse ASS: ..."), the fallback face loaded
/// (else "Failed to load fallback font: ..."), the embedded fonts loaded
/// with a warning for each failure, and a transparent buffer at the
/// play resolution (else "Invalid play resolution: ...").
pub open spec fn renderer_built(ass: Seq<char>, d: Seq<u8>, r: Result<SubtitleRenderer, String>) -> bool {
    match spec_parse_doc(ass) {
        Err(e) => r matches Err(m) && m@ == "Failed to parse ASS: "@ + error_message(e),
        Ok(doc) => match spec_fallback_fonts(d) {
            Err(e) => r matches Err(m) && m@ == "Failed to load fallback font: "@ + e,
            Ok(v) => {
                let (fonts, warnings) = spec_embed((v, Seq::empty()), doc.attachments);
                let (w, h) = (doc.script_info.play_res_x, doc.script_info.play_res_y);
                match spec_buffer_len(w, h) {
                    Err(e) => r matches Err(m) && m@ == "Invalid play resolution: "@ + render_error_message(e),
                    Ok(_) => r matches Ok(s) && {
                        &&& s.wf()
                        &&& s@.doc == doc
                        &&& s@.fonts == fonts
                        &&& s@.width == w && s@.height == h
                        &&& all_zero(s@.pixels)
                        &&& s@.video_width == w && s@.video_height == h
                        &&& s@.warnings == warnings
                    },
                }
            },
        },
    }
}

fn prefixed(prefix: &str, s: &String) -> (r: String)
    ensures
        r@ == prefix@ + s@,
{
    let mut out = String::new();
    push_str(&mut out, prefix);
    let v = str_chars(s.as_str());
    push_chars(&mut out, v.as_slice());
    out
}

impl SubtitleRenderer {
    /// The buffer is a valid frame and the video size is its size.
    pub closed spec fn wf(&self) -> bool {
        &&& self.buffer.wf()
        &&& self.video_width == self.buffer.width
        &&& self.video_height == self.buffer.height
    }

    /// Build a renderer from ASS text, with `fallback_font` as the face
    /// every lookup falls back to.
    pub fn with_fallback_font(ass_content: &str, fallback_font: &[u8]) -> (r: Result<SubtitleRenderer, String>)
        requires
            ass_content@.len() < usize::MAX,
        ensures
            renderer_built(ass_content@, fallback_font@, r),
    {
        let doc = match AssDocument::parse(ass_content) {
            Ok(d) => d,
            Err(e) => {
                let m = e.message();
                return Err(prefixed("Failed to parse ASS: ", &m));
            },
        };
        let mut font_manager = FontManager::new();
        let ghost empty = font_manager@;
        assert(empty == FontsView { faces: Seq::empty(), aliases: Seq::empty() });
        match font_manager.load_font("DejaVu Sans", fallback_font, false, false) {
            Ok(_) => {},
            Err(e) => {
                proof {
                    reveal_strlit("DejaVu Sans");
                    match spec_face_count(fallback_font@) {
                        Some(n) => {
                            lemma_first_failure_bounds(fallback_font@, 0, n);
                        },
                        None => {},
                    }
                }
                return Err(prefixed("Failed to load fallback font: ", &e));
            },
        }
        proof {
            reveal_strlit("DejaVu Sans");
            match spec_face_count(fallback_font@) {
                Some(n) => {
                    lemma_first_failure_bounds(fallback_font@, 0, n);
                    assert(font_manager@.faces =~= faces_loaded(fallback_name(), fallback_font@, 400, false, n));
                },
                None => {},
            }
        }
        let mut warnings: Vec<String> = Vec::new();
        assert(string_views(warnings@) =~= Seq::<Seq<char>>::empty());
        load_embedded_fonts(&mut font_manager, &doc.attachments, &mut warnings);
        let w = doc.script_info.play_res_x;
        let h = doc.script_info.play_res_y;
        let buffer = match RenderBuffer::new(w, h) {
            Ok(b) => b,
            Err(e) => {
                let m = e.message();
                return Err(prefixed("Invalid play resolution: ", &m));
            },
        };
        Ok(SubtitleRenderer { doc, font_manager, buffer, video_width: w, video_height: h, warnings })
    }

    /// Build a renderer from ASS text with the built-in fallback font
    /// (DejaVu Sans). Fonts embedded in `[Fonts]` are loaded best-effort;
    /// the ones that fail are listed by [`Self::warnings`]. Nothing is
    /// stated of the built-in font's bytes, so the outcome is that of
    /// [`Self::with_fallback_font`] for some font data.
    pub fn new(ass_content: &str) -> (r: Result<SubtitleRenderer, String>)
        requires
            ass_content@.len() < usize::MAX,
        ensures
            exists|d: Seq<u8>| renderer_built(ass_content@, d, r),
    {
        let d = get_fallback_font();
        let r = SubtitleRenderer::with_fallback_font(ass_content, d);
        assert(renderer_built(ass_content@, d@, r));
        r
    }

    /// Non-fatal diagnostics: embedded fonts that failed to load, each
    /// message once, at most `MAX_WARNINGS`.
    pub fn warnings(&self) -> (r: &[String])
        ensures
            string_views(r@) == self@.warnings,
    {
        self.warnings.as_slice()
    }

    /// Number of loaded faces (the fallback, embedded and added ones).
    pub fn font_count(&self) -> (n: usize)
        ensures
            n == self@.fonts.faces.len(),
    {
        self.font_manager.font_count()
    }

    /// Load a font from bytes, as `FontManager::load_font_auto` does.
    pub fn load_font(&mut self, name: &str, data: &[u8]) -> (r: Result<usize, String>)
        ensures
            final(self)@.fonts == spec_load_auto(old(self)@.fonts, name@, data@).0,
            match spec_load_auto(old(self)@.fonts, name@, data@).1 {
                None => r matches Ok(i) && i == old(self)@.fonts.faces.len(),
                Some(e) => r matches Err(x) && x@ == e,
            },
            final(self)@.doc == old(self)@.doc,
            final(self)@.width == old(self)@.width && final(self)@.height == old(self)@.height,
            final(self)@.pixels == old(self)@.pixels,
            final(self)@.video_width == old(self)@.video_width,
            final(self)@.video_height == old(self)@.video_height,
            final(self)@.warnings == old(self)@.warnings,
            old(self).wf() ==> final(self).wf(),
    {
        self.font_manager.load_font_auto(name, data)
    }

    /// Set the video size: the frame buffer, cleared, takes the new
    /// size; invalid dimensions ("Invalid video size: ...") leave
    /// everything as it was.
    pub fn set_video_size(&mut self, width: u32, height: u32) -> (r: Result<(), String>)
        requires
            old(self).wf(),
        ensures
            final(self).wf(),
            final(self)@.doc == old(self)@.doc,
            final(self)@.fonts == old(self)@.fonts,
            final(self)@.warnings == old(self)@.warnings,
            match spec_buffer_len(width, height) {
                Ok(_) => r is Ok && final(self)@.width == width && final(self)@.height == height
                    && all_zero(final(self)@.pixels),
                Err(e) => (r matches Err(m) && m@ == "Invalid video size: "@ + render_error_message(e))
                    && final(self)@.width == old(self)@.width && final(self)@.height == old(self)@.height
                    && final(self)@.pixels == old(self)@.pixels,
            },
    {
        match self.buffer.resize(width, height) {
            Ok(()) => {},
            Err(e) => {
                let m = e.message();
                return Err(prefixed("Invalid video size: ", &m));
            },
        }
        self.video_width = self.buffer.width;
        self.video_height = self.buffer.height;
        Ok(())
    }

    /// The same as [`Self::set_video_size`].
    pub fn resize(&mut self, width: u32, height: u32) -> (r: Result<(), String>)
        requires
            old(self).wf(),
        ensures
            final(self).wf(),
            final(self)@.doc == old(self)@.doc,
            final(self)@.fonts == old(self)@.fonts,
            final(self)@.warnings == old(self)@.warnings,
            match spec_buffer_len(width, height) {
                Ok(_) => r is Ok && final(self)@.width == width && final(self)@.height == height
                    && all_zero(final(self)@.pixels),
                Err(e) => (r matches Err(m) && m@ == "Invalid video size: "@ + render_error_message(e))
                    && final(self)@.width == old(self)@.width && final(self)@.height == old(self)@.height
                    && final(self)@.pixels == old(self)@.pixels,
            },
    {
        self.set_video_size(width, height)
    }

    /// The frame's RGBA bytes.
    pub fn frame_data(&self) -> (r: &[u8])
        ensures
            r@ == self@.pixels,
    {
        self.buffer.pixels.as_slice()
    }

    /// The frame's size.
    pub fn frame_size(&self) -> (r: (u32, u32))
        ensures
            r == (self@.width, self@.height),
    {
        (self.buffer.width, self.buffer.height)
    }

    /// The script's play resolution.
    pub fn get_play_resolution(&self) -> (r: (u32, u32))
        ensures
            r == (self@.doc.script_info.play_res_x, self@.doc.script_info.play_res_y),
    {
        (self.doc.script_info.play_res_x, self.doc.script_info.play_res_y)
    }

    /// The parsed document.
    pub fn document(&self) -> (r: &AssDocument)
        ensures
            r@ == self@.doc,
    {
        &self.doc
    }
}

} // verus!
