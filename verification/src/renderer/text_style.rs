//! The integer part of a segment's resolved style: font family and
//! encoding, weight, italic, underline, strike-out, the five colours
//! with their alphas, drawing mode and wrap style, and how override
//! tags change it.
use crate::text::str_chars;
use crate::types::color::Color;
use crate::types::style::{Style, StyleView};
use vstd::prelude::*;

verus! {

/// Style state a segment's text is drawn with.
pub struct TextStyle {
    pub font_name: String,
    pub font_encoding: i32,
    /// Primary (fill) colour.
    pub color: Color,
    pub secondary_color: Color,
    pub outline_color: Color,
    pub shadow_color: Color,
    /// Opaque-box colour (BorderStyle 3); `\4c` sets it with the shadow.
    pub back_color: Color,
    /// 400 normal, 700 bold, or an explicit `\b` weight.
    pub font_weight: u16,
    pub italic: bool,
    pub underline: bool,
    pub strike_out: bool,
    pub drawing_mode: i32,
    pub wrap_style: Option<i32>,
}

#[verifier::ext_equal]
pub struct TextStyleView {
    pub font_name: Seq<char>,
    pub font_encoding: i32,
    pub color: Color,
    pub secondary_color: Color,
    pub outline_color: Color,
    pub shadow_color: Color,
    pub back_color: Color,
    pub font_weight: u16,
    pub italic: bool,
    pub underline: bool,
    pub strike_out: bool,
    pub drawing_mode: i32,
    pub wrap_style: Option<i32>,
}

impl View for TextStyle {
    type V = TextStyleView;

    open spec fn view(&self) -> TextStyleView {
        TextStyleView {
            font_name: self.font_name@,
            font_encoding: self.font_encoding,
            color: self.color,
            secondary_color: self.secondary_color,
            outline_color: self.outline_color,
            shadow_color: self.shadow_color,
            back_color: self.back_color,
            font_weight: self.font_weight,
            italic: self.italic,
            underline: self.underline,
            strike_out: self.strike_out,
            drawing_mode: self.drawing_mode,
            wrap_style: self.wrap_style,
        }
    }
}

/// A property a value-less tag puts back to the style's value.
#[derive(Debug, Clone, Copy, PartialEq, Eq, Structural)]
pub enum ResetProperty {
    /// `\b`
    Bold,
    /// `\i`
    Italic,
    /// `\u`
    Underline,
    /// `\s`
    StrikeOut,
    /// `\fn`
    FontName,
    /// `\fe`
    FontEncoding,
    /// A property outside this state (sizes, angles, borders, blur).
    Other,
}

/// An override tag that changes the integer style state.
#[derive(Debug, Clone)]
pub enum StyleTag {
    /// A tag without a value: back to the style's value.
    Reset(ResetProperty),
    Bold(u16),
    Italic(bool),
    Underline(bool),
    StrikeOut(bool),
    FontName(String),
    FontEncoding(i32),
    /// `\c` / `\1c`
    PrimaryColor(Color),
    /// `\2c`
    SecondaryColor(Color),
    /// `\3c`
    OutlineColor(Color),
    /// `\4c`: shadow and opaque box.
    ShadowColor(Color),
    /// `\alpha`: all colours.
    Alpha(u8),
    /// `\1a`
    PrimaryAlpha(u8),
    /// `\2a`
    SecondaryAlpha(u8),
    /// `\3a`
    OutlineAlpha(u8),
    /// `\4a`: shadow and opaque box.
    ShadowAlpha(u8),
    /// `\p`
    Drawing(i32),
    /// `\q`
    WrapStyle(i32),
}

/// The value-less tag a name denotes.
pub open spec fn spec_reset_property(name: Seq<char>) -> ResetProperty {
    if name == seq!['b'] {
        ResetProperty::Bold
    } else if name == seq!['i'] {
        ResetProperty::Italic
    } else if name == seq!['u'] {
        ResetProperty::Underline
    } else if name == seq!['s'] {
        ResetProperty::StrikeOut
    } else if name == seq!['f', 'n'] {
        ResetProperty::FontName
    } else if name == seq!['f', 'e'] {
        ResetProperty::FontEncoding
    } else {
        ResetProperty::Other
    }
}

/// The property a value-less tag's name (`"b"`, `"fn"`, ...) resets.
pub fn reset_property(name: &str) -> (r: ResetProperty)
    ensures
        r == spec_reset_property(name@),
{
    let c = str_chars(name);
    if c.len() == 1 {
        let x = c[0];
        if x == 'b' {
            assert(name@ =~= seq!['b']);
            ResetProperty::Bold
        } else if x == 'i' {
            assert(name@ =~= seq!['i']);
            ResetProperty::Italic
        } else if x == 'u' {
            assert(name@ =~= seq!['u']);
            ResetProperty::Underline
        } else if x == 's' {
            assert(name@ =~= seq!['s']);
            ResetProperty::StrikeOut
        } else {
            assert(name@ != seq!['b'] && name@ != seq!['i'] && name@ != seq!['u'] && name@ != seq!['s']) by {
                assert(seq!['b'][0] == 'b' && seq!['i'][0] == 'i' && seq!['u'][0] == 'u' && seq!['s'][0] == 's');
            }
            ResetProperty::Other
        }
    } else if c.len() == 2 && c[0] == 'f' && c[1] == 'n' {
        assert(name@ =~= seq!['f', 'n']);
        ResetProperty::FontName
    } else if c.len() == 2 && c[0] == 'f' && c[1] == 'e' {
        assert(name@ =~= seq!['f', 'e']);
        ResetProperty::FontEncoding
    } else {
        assert(name@ != seq!['f', 'n'] && name@ != seq!['f', 'e']) by {
            if name@.len() == 2 {
                assert(seq!['f', 'n'][0] == 'f' && seq!['f', 'n'][1] == 'n');
                assert(seq!['f', 'e'][0] == 'f' && seq!['f', 'e'][1] == 'e');
            }
        }
        ResetProperty::Other
    }
}

/// `c` with alpha `a`.
pub open spec fn with_alpha(c: Color, a: u8) -> Color {
    Color { alpha: a, ..c }
}

fn color_with_alpha(c: Color, a: u8) -> (r: Color)
    ensures
        r == with_alpha(c, a),
{
    Color { alpha: a, blue: c.blue, green: c.green, red: c.red }
}

/// A style's text state: its font, encoding, colours (the back colour
/// for both shadow and box), weight 700 when bold else 400, its flags,
/// drawing mode 0 and no wrap-style override.
pub open spec fn spec_base_text_style(s: StyleView) -> TextStyleView {
    TextStyleView {
        font_name: s.font_name,
        font_encoding: s.encoding,
        color: s.primary_color,
        secondary_color: s.secondary_color,
        outline_color: s.outline_color,
        shadow_color: s.back_color,
        back_color: s.back_color,
        font_weight: if s.bold {
            700
        } else {
            400
        },
        italic: s.italic,
        underline: s.underline,
        strike_out: s.strike_out,
        drawing_mode: 0,
        wrap_style: None,
    }
}

/// One tag applied to the state, with `s` the segment's style.
pub open spec fn spec_apply_style_tag(st: TextStyleView, s: StyleView, tag: StyleTag) -> TextStyleView {
    match tag {
        StyleTag::Reset(p) => match p {
            ResetProperty::Bold => TextStyleView {
                font_weight: if s.bold {
                    700
                } else {
                    400
                },
                ..st
            },
            ResetProperty::Italic => TextStyleView { italic: s.italic, ..st },
            ResetProperty::Underline => TextStyleView { underline: s.underline, ..st },
            ResetProperty::StrikeOut => TextStyleView { strike_out: s.strike_out, ..st },
            ResetProperty::FontName => TextStyleView { font_name: s.font_name, ..st },
            ResetProperty::FontEncoding => TextStyleView { font_encoding: s.encoding, ..st },
            ResetProperty::Other => st,
        },
        StyleTag::Bold(w) => TextStyleView { font_weight: w, ..st },
        StyleTag::Italic(v) => TextStyleView { italic: v, ..st },
        StyleTag::Underline(v) => TextStyleView { underline: v, ..st },
        StyleTag::StrikeOut(v) => TextStyleView { strike_out: v, ..st },
        StyleTag::FontName(n) => TextStyleView { font_name: n@, ..st },
        StyleTag::FontEncoding(e) => TextStyleView { font_encoding: e, ..st },
        StyleTag::PrimaryColor(c) => TextStyleView { color: c, ..st },
        StyleTag::SecondaryColor(c) => TextStyleView { secondary_color: c, ..st },
        StyleTag::OutlineColor(c) => TextStyleView { outline_color: c, ..st },
        StyleTag::ShadowColor(c) => TextStyleView { shadow_color: c, back_color: c, ..st },
        StyleTag::Alpha(a) => TextStyleView {
            color: with_alpha(st.color, a),
            secondary_color: with_alpha(st.secondary_color, a),
            outline_color: with_alpha(st.outline_color, a),
            shadow_color: with_alpha(st.shadow_color, a),
            back_color: with_alpha(st.back_color, a),
            ..st
        },
        StyleTag::PrimaryAlpha(a) => TextStyleView { color: with_alpha(st.color, a), ..st },
        StyleTag::SecondaryAlpha(a) => TextStyleView {
            secondary_color: with_alpha(st.secondary_color, a),
            ..st
        },
        StyleTag::OutlineAlpha(a) => TextStyleView { outline_color: with_alpha(st.outline_color, a), ..st },
        StyleTag::ShadowAlpha(a) => TextStyleView {
            shadow_color: with_alpha(st.shadow_color, a),
            back_color: with_alpha(st.back_color, a),
            ..st
        },
        StyleTag::Drawing(m) => TextStyleView { drawing_mode: m, ..st },
        StyleTag::WrapStyle(q) => TextStyleView { wrap_style: Some(q), ..st },
    }
}

/// Tags applied in order.
pub open spec fn spec_apply_style_tags(st: TextStyleView, s: StyleView, tags: Seq<StyleTag>) -> TextStyleView
    decreases tags.len(),
{
    if tags.len() == 0 {
        st
    } else {
        spec_apply_style_tag(spec_apply_style_tags(st, s, tags.drop_last()), s, tags.last())
    }
}

/// `\r`: the text state of style `s`, keeping the wrap style, which is
/// line-global.
pub open spec fn spec_reset_text_style(st: TextStyleView, s: StyleView) -> TextStyleView {
    TextStyleView { wrap_style: st.wrap_style, ..spec_base_text_style(s) }
}

fn clone_string(s: &String) -> (r: String)
    ensures
        r@ == s@,
{
    s.clone()
}

/// The text state a segment starts from before its tags.
pub fn base_text_style(s: &Style) -> (r: TextStyle)
    ensures
        r@ == spec_base_text_style(s@),
{
    TextStyle {
        font_name: clone_string(&s.font_name),
        font_encoding: s.encoding,
        color: s.primary_color,
        secondary_color: s.secondary_color,
        outline_color: s.outline_color,
        shadow_color: s.back_color,
        back_color: s.back_color,
        font_weight: if s.bold {
            700
        } else {
            400
        },
        italic: s.italic,
        underline: s.underline,
        strike_out: s.strike_out,
        drawing_mode: 0,
        wrap_style: None,
    }
}

/// Apply one override tag; `s` is the segment's style.
pub fn apply_style_tag(st: &mut TextStyle, s: &Style, tag: &StyleTag)
    ensures
        final(st)@ == spec_apply_style_tag(old(st)@, s@, *tag),
{
    match tag {
        StyleTag::Reset(p) => match p {
            ResetProperty::Bold => {
                st.font_weight = if s.bold {
                    700
                } else {
                    400
                };
            },
            ResetProperty::Italic => {
                st.italic = s.italic;
            },
            ResetProperty::Underline => {
                st.underline = s.underline;
            },
            ResetProperty::StrikeOut => {
                st.strike_out = s.strike_out;
            },
            ResetProperty::FontName => {
                st.font_name = clone_string(&s.font_name);
            },
            ResetProperty::FontEncoding => {
                st.font_encoding = s.encoding;
            },
            ResetProperty::Other => {},
        },
        StyleTag::Bold(w) => {
            st.font_weight = *w;
        },
        StyleTag::Italic(v) => {
            st.italic = *v;
        },
        StyleTag::Underline(v) => {
            st.underline = *v;
        },
        StyleTag::StrikeOut(v) => {
            st.strike_out = *v;
        },
        StyleTag::FontName(n) => {
            st.font_name = clone_string(n);
        },
        StyleTag::FontEncoding(e) => {
            st.font_encoding = *e;
        },
        StyleTag::PrimaryColor(c) => {
            st.color = *c;
        },
        StyleTag::SecondaryColor(c) => {
            st.secondary_color = *c;
        },
        StyleTag::OutlineColor(c) => {
            st.outline_color = *c;
        },
        StyleTag::ShadowColor(c) => {
            st.shadow_color = *c;
            st.back_color = *c;
        },
        StyleTag::Alpha(a) => {
            st.color = color_with_alpha(st.color, *a);
            st.secondary_color = color_with_alpha(st.secondary_color, *a);
            st.outline_color = color_with_alpha(st.outline_color, *a);
            st.shadow_color = color_with_alpha(st.shadow_color, *a);
            st.back_color = color_with_alpha(st.back_color, *a);
        },
        StyleTag::PrimaryAlpha(a) => {
            st.color = color_with_alpha(st.color, *a);
        },
        StyleTag::SecondaryAlpha(a) => {
            st.secondary_color = color_with_alpha(st.secondary_color, *a);
        },
        StyleTag::OutlineAlpha(a) => {
            st.outline_color = color_with_alpha(st.outline_color, *a);
        },
        StyleTag::ShadowAlpha(a) => {
            st.shadow_color = color_with_alpha(st.shadow_color, *a);
            st.back_color = color_with_alpha(st.back_color, *a);
        },
        StyleTag::Drawing(m) => {
            st.drawing_mode = *m;
        },
        StyleTag::WrapStyle(q) => {
            st.wrap_style = Some(*q);
        },
    }
}

/// Apply a segment's tags in order.
pub fn apply_style_tags(st: &mut TextStyle, s: &Style, tags: &[StyleTag])
    ensures
        final(st)@ == spec_apply_style_tags(old(st)@, s@, tags@),
{
    let ghost start = st@;
    let mut k: usize = 0;
    while k < tags.len()
        invariant
            k <= tags@.len(),
            st@ == spec_apply_style_tags(start, s@, tags@.take(k as int)),
        decreases tags@.len() - k,
    {
        assert(tags@.take(k + 1).drop_last() =~= tags@.take(k as int));
        apply_style_tag(st, s, &tags[k]);
        k += 1;
    }
    assert(tags@.take(k as int) =~= tags@);
}

/// `\r` (or `\rStyle`): start over from style `s`, keeping the wrap
/// style.
pub fn reset_text_style(st: &mut TextStyle, s: &Style)
    ensures
        final(st)@ == spec_reset_text_style(old(st)@, s@),
{
    let wrap = st.wrap_style;
    *st = base_text_style(s);
    st.wrap_style = wrap;
}

/// A value-less tag after a value sets a property back to the style's.
pub proof fn lemma_reset_undoes_set(st: TextStyleView, s: StyleView, w: u16, v: bool)
    ensures
        spec_apply_style_tag(spec_apply_style_tag(st, s, StyleTag::Bold(w)), s, StyleTag::Reset(ResetProperty::Bold)).font_weight
            == spec_base_text_style(s).font_weight,
        spec_apply_style_tag(spec_apply_style_tag(st, s, StyleTag::Italic(v)), s, StyleTag::Reset(ResetProperty::Italic)).italic
            == s.italic,
        spec_apply_style_tag(
            spec_apply_style_tag(st, s, StyleTag::Underline(v)),
            s,
            StyleTag::Reset(ResetProperty::Underline),
        ).underline == s.underline,
        spec_apply_style_tag(
            spec_apply_style_tag(st, s, StyleTag::StrikeOut(v)),
            s,
            StyleTag::Reset(ResetProperty::StrikeOut),
        ).strike_out == s.strike_out,
{
}

/// `\alpha` sets the alpha of every colour and leaves their channels.
pub proof fn lemma_alpha_sets_all(st: TextStyleView, s: StyleView, a: u8)
    ensures
        ({
            let r = spec_apply_style_tag(st, s, StyleTag::Alpha(a));
            &&& r.color.alpha == a && r.secondary_color.alpha == a && r.outline_color.alpha == a
            &&& r.shadow_color.alpha == a && r.back_color.alpha == a
            &&& r.color.red == st.color.red && r.color.green == st.color.green && r.color.blue
                == st.color.blue
        }),
{
}

/// `\1c` sets the fill colour and changes nothing else.
pub proof fn lemma_primary_colour_tag(st: TextStyleView, s: StyleView, c: Color)
    ensures
        ({
            let r = spec_apply_style_tag(st, s, StyleTag::PrimaryColor(c));
            &&& r.color == c
            &&& r == (TextStyleView { color: r.color, ..st })
        }),
{
}

/// `\2c` sets the karaoke secondary colour and changes nothing else.
pub proof fn lemma_secondary_colour_tag(st: TextStyleView, s: StyleView, c: Color)
    ensures
        ({
            let r = spec_apply_style_tag(st, s, StyleTag::SecondaryColor(c));
            &&& r.secondary_color == c
            &&& r == (TextStyleView { secondary_color: r.secondary_color, ..st })
        }),
{
}

/// `\3c` sets the outline colour and changes nothing else (the secondary
/// colour included).
pub proof fn lemma_outline_colour_tag(st: TextStyleView, s: StyleView, c: Color)
    ensures
        ({
            let r = spec_apply_style_tag(st, s, StyleTag::OutlineColor(c));
            &&& r.outline_color == c
            &&& r == (TextStyleView { outline_color: r.outline_color, ..st })
        }),
{
}

/// `\4c` sets the shadow colour and the opaque-box colour, and nothing
/// else.
pub proof fn lemma_shadow_colour_tag(st: TextStyleView, s: StyleView, c: Color)
    ensures
        ({
            let r = spec_apply_style_tag(st, s, StyleTag::ShadowColor(c));
            &&& r.shadow_color == c
            &&& r.back_color == c
            &&& r == (TextStyleView { shadow_color: r.shadow_color, back_color: r.back_color, ..st })
        }),
{
}

/// `\1a` sets the fill colour's alpha, keeps its channels, and changes
/// nothing else.
pub proof fn lemma_primary_alpha_tag(st: TextStyleView, s: StyleView, a: u8)
    ensures
        ({
            let r = spec_apply_style_tag(st, s, StyleTag::PrimaryAlpha(a));
            &&& r.color == (Color { alpha: a, ..st.color })
            &&& r == (TextStyleView { color: r.color, ..st })
        }),
{
}

/// `\2a` sets the secondary colour's alpha and changes nothing else.
pub proof fn lemma_secondary_alpha_tag(st: TextStyleView, s: StyleView, a: u8)
    ensures
        ({
            let r = spec_apply_style_tag(st, s, StyleTag::SecondaryAlpha(a));
            &&& r.secondary_color == (Color { alpha: a, ..st.secondary_color })
            &&& r == (TextStyleView { secondary_color: r.secondary_color, ..st })
        }),
{
}

/// `\3a` sets the outline colour's alpha and changes nothing else.
pub proof fn lemma_outline_alpha_tag(st: TextStyleView, s: StyleView, a: u8)
    ensures
        ({
            let r = spec_apply_style_tag(st, s, StyleTag::OutlineAlpha(a));
            &&& r.outline_color == (Color { alpha: a, ..st.outline_color })
            &&& r == (TextStyleView { outline_color: r.outline_color, ..st })
        }),
{
}

/// `\4a` sets the alpha of the shadow and box colours and changes nothing
/// else.
pub proof fn lemma_shadow_alpha_tag(st: TextStyleView, s: StyleView, a: u8)
    ensures
        ({
            let r = spec_apply_style_tag(st, s, StyleTag::ShadowAlpha(a));
            &&& r.shadow_color == (Color { alpha: a, ..st.shadow_color })
            &&& r.back_color == (Color { alpha: a, ..st.back_color })
            &&& r == (TextStyleView { shadow_color: r.shadow_color, back_color: r.back_color, ..st })
        }),
{
}

/// `\alpha` sets the alpha of all five colours, keeps their channels, and
/// changes nothing else.
pub proof fn lemma_alpha_tag(st: TextStyleView, s: StyleView, a: u8)
    ensures
        ({
            let r = spec_apply_style_tag(st, s, StyleTag::Alpha(a));
            &&& r.color == (Color { alpha: a, ..st.color })
            &&& r.secondary_color == (Color { alpha: a, ..st.secondary_color })
            &&& r.outline_color == (Color { alpha: a, ..st.outline_color })
            &&& r.shadow_color == (Color { alpha: a, ..st.shadow_color })
            &&& r.back_color == (Color { alpha: a, ..st.back_color })
            &&& r == (TextStyleView { color: r.color, secondary_color: r.secondary_color, outline_color: r.outline_color, shadow_color: r.shadow_color, back_color: r.back_color, ..st })
        }),
{
}

/// `\b` with a weight sets the weight and changes nothing else.
pub proof fn lemma_bold_tag(st: TextStyleView, s: StyleView, w: u16)
    ensures
        ({
            let r = spec_apply_style_tag(st, s, StyleTag::Bold(w));
            &&& r.font_weight == w
            &&& r == (TextStyleView { font_weight: r.font_weight, ..st })
        }),
{
}

/// `\i` sets italic and changes nothing else.
pub proof fn lemma_italic_tag(st: TextStyleView, s: StyleView, b: bool)
    ensures
        ({
            let r = spec_apply_style_tag(st, s, StyleTag::Italic(b));
            &&& r.italic == b
            &&& r == (TextStyleView { italic: r.italic, ..st })
        }),
{
}

/// `\u` sets underline and changes nothing else.
pub proof fn lemma_underline_tag(st: TextStyleView, s: StyleView, b: bool)
    ensures
        ({
            let r = spec_apply_style_tag(st, s, StyleTag::Underline(b));
            &&& r.underline == b
            &&& r == (TextStyleView { underline: r.underline, ..st })
        }),
{
}

/// `\s` sets strike-out and changes nothing else.
pub proof fn lemma_strikeout_tag(st: TextStyleView, s: StyleView, b: bool)
    ensures
        ({
            let r = spec_apply_style_tag(st, s, StyleTag::StrikeOut(b));
            &&& r.strike_out == b
            &&& r == (TextStyleView { strike_out: r.strike_out, ..st })
        }),
{
}

/// `\fe` sets the font encoding and changes nothing else.
pub proof fn lemma_encoding_tag(st: TextStyleView, s: StyleView, e: i32)
    ensures
        ({
            let r = spec_apply_style_tag(st, s, StyleTag::FontEncoding(e));
            &&& r.font_encoding == e
            &&& r == (TextStyleView { font_encoding: r.font_encoding, ..st })
        }),
{
}

/// `\p` sets the drawing mode and changes nothing else.
pub proof fn lemma_drawing_tag(st: TextStyleView, s: StyleView, m: i32)
    ensures
        ({
            let r = spec_apply_style_tag(st, s, StyleTag::Drawing(m));
            &&& r.drawing_mode == m
            &&& r == (TextStyleView { drawing_mode: r.drawing_mode, ..st })
        }),
{
}

/// `\q` sets the wrap style and changes nothing else.
pub proof fn lemma_wrap_style_tag(st: TextStyleView, s: StyleView, q: i32)
    ensures
        ({
            let r = spec_apply_style_tag(st, s, StyleTag::WrapStyle(q));
            &&& r.wrap_style == Some(q)
            &&& r == (TextStyleView { wrap_style: r.wrap_style, ..st })
        }),
{
}

/// `\fn` sets the font name and changes nothing else.
pub proof fn lemma_fontname_tag(st: TextStyleView, s: StyleView, n: String)
    ensures
        ({
            let r = spec_apply_style_tag(st, s, StyleTag::FontName(n));
            &&& r.font_name == n@
            &&& r == (TextStyleView { font_name: r.font_name, ..st })
        }),
{
}

/// A value-less `\b` restores the style's weight (700 when bold, else 400)
/// and changes nothing else.
pub proof fn lemma_bold_reset_tag(st: TextStyleView, s: StyleView)
    ensures
        ({
            let r = spec_apply_style_tag(st, s, StyleTag::Reset(ResetProperty::Bold));
            &&& r.font_weight == (if s.bold { 700u16 } else { 400u16 })
            &&& r == (TextStyleView { font_weight: r.font_weight, ..st })
        }),
{
}

/// A value-less `\i` restores the style's italic and changes nothing else.
pub proof fn lemma_italic_reset_tag(st: TextStyleView, s: StyleView)
    ensures
        ({
            let r = spec_apply_style_tag(st, s, StyleTag::Reset(ResetProperty::Italic));
            &&& r.italic == s.italic
            &&& r == (TextStyleView { italic: r.italic, ..st })
        }),
{
}

/// A value-less `\u` restores the style's underline and changes nothing else.
pub proof fn lemma_underline_reset_tag(st: TextStyleView, s: StyleView)
    ensures
        ({
            let r = spec_apply_style_tag(st, s, StyleTag::Reset(ResetProperty::Underline));
            &&& r.underline == s.underline
            &&& r == (TextStyleView { underline: r.underline, ..st })
        }),
{
}

/// A value-less `\s` restores the style's strike-out and changes nothing
/// else.
pub proof fn lemma_strikeout_reset_tag(st: TextStyleView, s: StyleView)
    ensures
        ({
            let r = spec_apply_style_tag(st, s, StyleTag::Reset(ResetProperty::StrikeOut));
            &&& r.strike_out == s.strike_out
            &&& r == (TextStyleView { strike_out: r.strike_out, ..st })
        }),
{
}

/// A value-less `\fn` restores the style's font and changes nothing else.
pub proof fn lemma_fontname_reset_tag(st: TextStyleView, s: StyleView)
    ensures
        ({
            let r = spec_apply_style_tag(st, s, StyleTag::Reset(ResetProperty::FontName));
            &&& r.font_name == s.font_name
            &&& r == (TextStyleView { font_name: r.font_name, ..st })
        }),
{
}

/// A value-less `\fe` restores the style's encoding and changes nothing
/// else.
pub proof fn lemma_encoding_reset_tag(st: TextStyleView, s: StyleView)
    ensures
        ({
            let r = spec_apply_style_tag(st, s, StyleTag::Reset(ResetProperty::FontEncoding));
            &&& r.font_encoding == s.encoding
            &&& r == (TextStyleView { font_encoding: r.font_encoding, ..st })
        }),
{
}

/// Other value-less tags leave the state as it is.
pub proof fn lemma_other_reset_tag(st: TextStyleView, s: StyleView)
    ensures
        spec_apply_style_tag(st, s, StyleTag::Reset(ResetProperty::Other)) == st,
{
}

/// A style's text state: its font and encoding, its colours (the back
/// colour for both shadow and box), weight 700 when bold else 400, its
/// flags, drawing mode 0 and no wrap style of its own.
pub proof fn lemma_base_text_style(s: StyleView)
    ensures
        ({
            let t = spec_base_text_style(s);
            &&& t.font_name == s.font_name && t.font_encoding == s.encoding
            &&& t.color == s.primary_color && t.secondary_color == s.secondary_color
            &&& t.outline_color == s.outline_color
            &&& t.shadow_color == s.back_color && t.back_color == s.back_color
            &&& t.font_weight == (if s.bold { 700u16 } else { 400u16 })
            &&& t.italic == s.italic && t.underline == s.underline && t.strike_out == s.strike_out
            &&& t.drawing_mode == 0 && t.wrap_style is None
        }),
{
}

/// The names of value-less tags: `b`, `i`, `u`, `s`, `fn`, `fe`.
pub proof fn lemma_reset_property_names()
    ensures
        spec_reset_property(seq!['b']) == ResetProperty::Bold,
        spec_reset_property(seq!['i']) == ResetProperty::Italic,
        spec_reset_property(seq!['u']) == ResetProperty::Underline,
        spec_reset_property(seq!['s']) == ResetProperty::StrikeOut,
        spec_reset_property(seq!['f', 'n']) == ResetProperty::FontName,
        spec_reset_property(seq!['f', 'e']) == ResetProperty::FontEncoding,
{
    assert(seq!['i'][0] != seq!['b'][0]);
    assert(seq!['u'][0] != seq!['b'][0] && seq!['u'][0] != seq!['i'][0]);
    assert(seq!['s'][0] != seq!['b'][0] && seq!['s'][0] != seq!['i'][0] && seq!['s'][0] != seq!['u'][0]);
    assert(seq!['f', 'n'].len() != seq!['b'].len());
    assert(seq!['f', 'e'].len() != seq!['b'].len());
    assert(seq!['f', 'e'][1] != seq!['f', 'n'][1]);
}

/// `\r` starts over from the style: every field takes the style's text
/// state, except the wrap style, which is line-global and kept.
pub proof fn lemma_full_reset(st: TextStyleView, s: StyleView)
    ensures
        ({
            let r = spec_reset_text_style(st, s);
            &&& r.font_name == s.font_name && r.font_encoding == s.encoding
            &&& r.color == s.primary_color && r.secondary_color == s.secondary_color
            &&& r.outline_color == s.outline_color
            &&& r.shadow_color == s.back_color && r.back_color == s.back_color
            &&& r.font_weight == (if s.bold { 700u16 } else { 400u16 })
            &&& r.italic == s.italic && r.underline == s.underline && r.strike_out == s.strike_out
            &&& r.drawing_mode == 0 && r.wrap_style == st.wrap_style
        }),
{
}

/// A segment's tags apply in order: the state after `tags` then `t` is
/// that of `t` applied after all of `tags`, so a later tag overrides an
/// earlier one on the same field.
pub proof fn lemma_style_tags_in_order(st: TextStyleView, s: StyleView, tags: Seq<StyleTag>, t: StyleTag)
    ensures
        spec_apply_style_tags(st, s, tags.push(t)) == spec_apply_style_tag(spec_apply_style_tags(st, s, tags), s, t),
        spec_apply_style_tags(st, s, Seq::empty()) == st,
{
    assert(tags.push(t).drop_last() =~= tags);
}

} // verus!
