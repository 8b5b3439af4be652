//! `[V4+ Styles]` and `[V4 Styles]` sections.
use crate::parser::attachment::line_err;
use crate::parser::errors::{ParseError, ParseErrorView};
use crate::parser::event::{parse_format_columns, spec_format_columns};
use crate::text::{
    chars_eq, has_prefix, lemma_trim_idempotent, lines_of, parse_i32, push_chars, push_str,
    spec_parse_i32, split_all, split_all_chars, starts_with, str_chars, str_views, string_of,
    sub_chars, trim, trim_chars, views_of,
};
use crate::types::color::{spec_parse_color, Color};
use crate::types::style::{default_style, Style, StyleView};
use vstd::prelude::*;

verus! {

/// Defensive cap on styles per document.
pub const MAX_STYLES: usize = 10_000;

/// The SSA v4.00 style columns, used when a `[V4 Styles]` section has no
/// `Format:` line of its own.
pub open spec fn ssa_default_columns() -> Seq<Seq<char>> {
    seq![
        "name"@,
        "fontname"@,
        "fontsize"@,
        "primarycolour"@,
        "secondarycolour"@,
        "tertiarycolour"@,
        "backcolour"@,
        "bold"@,
        "italic"@,
        "borderstyle"@,
        "outline"@,
        "shadow"@,
        "alignment"@,
        "marginl"@,
        "marginr"@,
        "marginv"@,
        "alphalevel"@,
        "encoding"@,
    ]
}

/// The fixed V4+ style columns, used when a `[V4+ Styles]` section has no
/// `Format:` line.
pub open spec fn v4plus_columns() -> Seq<Seq<char>> {
    seq![
        "name"@,
        "fontname"@,
        "fontsize"@,
        "primarycolour"@,
        "secondarycolour"@,
        "outlinecolour"@,
        "backcolour"@,
        "bold"@,
        "italic"@,
        "underline"@,
        "strikeout"@,
        "scalex"@,
        "scaley"@,
        "spacing"@,
        "angle"@,
        "borderstyle"@,
        "outline"@,
        "shadow"@,
        "alignment"@,
        "marginl"@,
        "marginr"@,
        "marginv"@,
        "encoding"@,
    ]
}

/// A boolean field: a non-zero integer; unreadable text is `false`.
pub open spec fn field_bool(v: Seq<char>) -> bool {
    match spec_parse_i32(v) {
        Some(x) => x != 0,
        None => false,
    }
}

/// An integer field; unreadable text is `0`.
pub open spec fn field_i32(v: Seq<char>) -> i32 {
    match spec_parse_i32(v) {
        Some(x) => x,
        None => 0,
    }
}

/// A colour field; unreadable text is opaque black.
pub open spec fn field_color(v: Seq<char>) -> Color {
    match spec_parse_color(v) {
        Some(c) => c,
        None => Color { alpha: 0, blue: 0, green: 0, red: 0 },
    }
}

pub open spec fn clamp_alpha(x: i32) -> u8 {
    if x < 0 {
        0
    } else if x > 255 {
        255
    } else {
        x as u8
    }
}

pub open spec fn with_alpha(c: Color, a: u8) -> Color {
    Color { alpha: a, ..c }
}

/// Store one style field (the value is trimmed first). SSA's
/// `TertiaryColour` fills the outline colour; `AlphaLevel` sets the alpha
/// of all four colours. Unknown columns are ignored.
pub open spec fn apply_style_field(st: StyleView, col: Seq<char>, value: Seq<char>) -> StyleView {
    let v = trim(value);
    if col == "name"@ {
        StyleView { name: v, ..st }
    } else if col == "fontname"@ {
        StyleView { font_name: v, ..st }
    } else if col == "fontsize"@ {
        StyleView { font_size: v, ..st }
    } else if col == "primarycolour"@ {
        StyleView { primary_color: field_color(v), ..st }
    } else if col == "secondarycolour"@ {
        StyleView { secondary_color: field_color(v), ..st }
    } else if col == "outlinecolour"@ || col == "tertiarycolour"@ {
        StyleView { outline_color: field_color(v), ..st }
    } else if col == "backcolour"@ {
        StyleView { back_color: field_color(v), ..st }
    } else if col == "bold"@ {
        StyleView { bold: field_bool(v), ..st }
    } else if col == "italic"@ {
        StyleView { italic: field_bool(v), ..st }
    } else if col == "underline"@ {
        StyleView { underline: field_bool(v), ..st }
    } else if col == "strikeout"@ {
        StyleView { strike_out: field_bool(v), ..st }
    } else if col == "scalex"@ {
        StyleView { scale_x: v, ..st }
    } else if col == "scaley"@ {
        StyleView { scale_y: v, ..st }
    } else if col == "spacing"@ {
        StyleView { spacing: v, ..st }
    } else if col == "angle"@ {
        StyleView { angle: v, ..st }
    } else if col == "borderstyle"@ {
        StyleView { border_style: field_i32(v), ..st }
    } else if col == "outline"@ {
        StyleView { outline: v, ..st }
    } else if col == "shadow"@ {
        StyleView { shadow: v, ..st }
    } else if col == "alignment"@ {
        StyleView { alignment: field_i32(v), ..st }
    } else if col == "marginl"@ {
        StyleView { margin_l: field_i32(v), ..st }
    } else if col == "marginr"@ {
        StyleView { margin_r: field_i32(v), ..st }
    } else if col == "marginv"@ {
        StyleView { margin_v: field_i32(v), ..st }
    } else if col == "alphalevel"@ {
        let a = clamp_alpha(field_i32(v));
        StyleView {
            primary_color: with_alpha(st.primary_color, a),
            secondary_color: with_alpha(st.secondary_color, a),
            outline_color: with_alpha(st.outline_color, a),
            back_color: with_alpha(st.back_color, a),
            ..st
        }
    } else if col == "encoding"@ {
        StyleView { encoding: field_i32(v), ..st }
    } else {
        st
    }
}

/// Fields `k..` of a style line stored under the column of the same
/// index; stops at the shorter of the two lists.
pub open spec fn style_fields(
    st: StyleView,
    cols: Seq<Seq<char>>,
    fields: Seq<Seq<char>>,
    k: int,
) -> StyleView
    decreases cols.len() - k,
{
    if k < 0 || k >= cols.len() || k >= fields.len() {
        st
    } else {
        style_fields(apply_style_field(st, cols[k], fields[k]), cols, fields, k + 1)
    }
}

/// Some column `name` at index `k..` has a non-empty value.
pub open spec fn names_given(cols: Seq<Seq<char>>, fields: Seq<Seq<char>>, k: int) -> bool
    decreases cols.len() - k,
{
    if k < 0 || k >= cols.len() || k >= fields.len() {
        false
    } else {
        (cols[k] == "name"@ && trim(fields[k]).len() > 0) || names_given(cols, fields, k + 1)
    }
}

/// A style line's data (after `Style:`) read by column name.
pub open spec fn spec_style_by_columns(data: Seq<char>, cols: Seq<Seq<char>>) -> Result<
    StyleView,
    Seq<char>,
> {
    let fields = split_all(data, ',');
    if names_given(cols, fields, 0) {
        Ok(style_fields(default_style(Seq::empty()), cols, fields, 0))
    } else {
        Err("Style line is missing a Name value: "@ + data)
    }
}

/// SSA alignment (1-3 bottom, 5-7 top, 9-11 middle) to ASS numpad
/// alignment (1-3 bottom, 7-9 top, 4-6 middle); anything else is `2`.
pub open spec fn spec_ssa_alignment(a: i32) -> i32 {
    if 1 <= a <= 3 {
        a
    } else if 5 <= a <= 7 {
        (a + 2) as i32
    } else if 9 <= a <= 11 {
        (a - 5) as i32
    } else {
        2
    }
}

/// The columns a style line is read with.
pub open spec fn style_columns(format: Option<Seq<Seq<char>>>, is_ssa: bool) -> Seq<Seq<char>> {
    match format {
        Some(c) if c.len() > 0 => c,
        _ => if is_ssa {
            ssa_default_columns()
        } else {
            v4plus_columns()
        },
    }
}

/// A style line (the text after `Style:`), with SSA alignment converted
/// in an SSA script.
pub open spec fn spec_style_line(
    data: Seq<char>,
    format: Option<Seq<Seq<char>>>,
    is_ssa: bool,
) -> Result<StyleView, Seq<char>> {
    match spec_style_by_columns(data, style_columns(format, is_ssa)) {
        Ok(st) => if is_ssa {
            Ok(StyleView { alignment: spec_ssa_alignment(st.alignment), ..st })
        } else {
            Ok(st)
        },
        Err(m) => Err(m),
    }
}

/// Convert a legacy SSA alignment value to ASS numpad alignment.
pub fn ssa_alignment_to_ass(alignment: i32) -> (r: i32)
    ensures
        r == spec_ssa_alignment(alignment),
{
    if 1 <= alignment && alignment <= 3 {
        alignment
    } else if 5 <= alignment && alignment <= 7 {
        alignment + 2
    } else if 9 <= alignment && alignment <= 11 {
        alignment - 5
    } else {
        2
    }
}

fn is_col(c: &[char], name: &str) -> (b: bool)
    ensures
        b == (c@ == name@),
{
    let n = str_chars(name);
    chars_eq(c, n.as_slice())
}

fn field_i32_exec(v: &[char]) -> (r: i32)
    ensures
        r == field_i32(v@),
{
    match parse_i32(v) {
        Some(x) => x,
        None => 0,
    }
}

fn field_color_exec(v: &[char]) -> (r: Color)
    ensures
        r == field_color(v@),
{
    match Color::parse_chars(v) {
        Some(c) => c,
        None => Color { alpha: 0, blue: 0, green: 0, red: 0 },
    }
}

fn clamp_alpha_exec(x: i32) -> (r: u8)
    ensures
        r == clamp_alpha(x),
{
    if x < 0 {
        0
    } else if x > 255 {
        255
    } else {
        x as u8
    }
}

/// Store one field of a style line under its column name.
pub fn apply_style_field_exec(style: &mut Style, column: &[char], value: &[char])
    ensures
        final(style)@ == apply_style_field(old(style)@, column@, value@),
{
    let v = trim_chars(value);
    let vs = v.as_slice();
    if is_col(column, "name") {
        style.name = string_of(vs);
    } else if is_col(column, "fontname") {
        style.font_name = string_of(vs);
    } else if is_col(column, "fontsize") {
        style.font_size = string_of(vs);
    } else if is_col(column, "primarycolour") {
        style.primary_color = field_color_exec(vs);
    } else if is_col(column, "secondarycolour") {
        style.secondary_color = field_color_exec(vs);
    } else if is_col(column, "outlinecolour") || is_col(column, "tertiarycolour") {
        style.outline_color = field_color_exec(vs);
    } else if is_col(column, "backcolour") {
        style.back_color = field_color_exec(vs);
    } else if is_col(column, "bold") {
        style.bold = field_i32_exec(vs) != 0;
    } else if is_col(column, "italic") {
        style.italic = field_i32_exec(vs) != 0;
    } else if is_col(column, "underline") {
        style.underline = field_i32_exec(vs) != 0;
    } else if is_col(column, "strikeout") {
        style.strike_out = field_i32_exec(vs) != 0;
    } else if is_col(column, "scalex") {
        style.scale_x = string_of(vs);
    } else if is_col(column, "scaley") {
        style.scale_y = string_of(vs);
    } else if is_col(column, "spacing") {
        style.spacing = string_of(vs);
    } else if is_col(column, "angle") {
        style.angle = string_of(vs);
    } else if is_col(column, "borderstyle") {
        style.border_style = field_i32_exec(vs);
    } else if is_col(column, "outline") {
        style.outline = string_of(vs);
    } else if is_col(column, "shadow") {
        style.shadow = string_of(vs);
    } else if is_col(column, "alignment") {
        style.alignment = field_i32_exec(vs);
    } else if is_col(column, "marginl") {
        style.margin_l = field_i32_exec(vs);
    } else if is_col(column, "marginr") {
        style.margin_r = field_i32_exec(vs);
    } else if is_col(column, "marginv") {
        style.margin_v = field_i32_exec(vs);
    } else if is_col(column, "alphalevel") {
        let a = clamp_alpha_exec(field_i32_exec(vs));
        style.primary_color.alpha = a;
        style.secondary_color.alpha = a;
        style.outline_color.alpha = a;
        style.back_color.alpha = a;
    } else if is_col(column, "encoding") {
        style.encoding = field_i32_exec(vs);
    }
}


fn msg_missing_name(data: &[char]) -> (r: String)
    ensures
        r@ == "Style line is missing a Name value: "@ + data@,
{
    let mut m = String::new();
    push_str(&mut m, "Style line is missing a Name value: ");
    push_chars(&mut m, data);
    m
}

/// Read a style line's data (after `Style:`) by column name: unknown
/// columns are ignored, missing ones keep their defaults; a non-empty
/// `Name` is required.
pub fn parse_style_by_columns(data: &[char], columns: &Vec<Vec<char>>) -> (r: Result<Style, String>)
    ensures
        match r {
            Ok(st) => spec_style_by_columns(data@, views_of(columns@)) == Ok::<
                StyleView,
                Seq<char>,
            >(st@),
            Err(m) => spec_style_by_columns(data@, views_of(columns@)) == Err::<
                StyleView,
                Seq<char>,
            >(m@),
        },
{
    let fields = split_all_chars(data, ',');
    let ghost fs = split_all(data@, ',');
    let ghost cs = views_of(columns@);
    let mut style = Style::new("");
    proof {
        reveal_strlit("");
        assert(""@ =~= Seq::<char>::empty());
    }
    let mut has_name = false;
    let mut k: usize = 0;
    while k < columns.len()
        invariant
            0 <= k <= columns@.len(),
            cs == views_of(columns@),
            fs.len() == fields@.len(),
            forall|j: int| 0 <= j < fields@.len() ==> (#[trigger] fields@[j])@ == fs[j],
            style_fields(default_style(Seq::empty()), cs, fs, 0) == style_fields(
                style@,
                cs,
                fs,
                k as int,
            ),
            names_given(cs, fs, 0) == (has_name || names_given(cs, fs, k as int)),
        ensures
            k >= columns@.len() || k >= fields@.len(),
        decreases columns@.len() - k,
    {
        if k >= fields.len() {
            break;
        }
        let value = trim_chars(fields[k].as_slice());
        assert(cs[k as int] == columns@[k as int]@);
        if is_col(columns[k].as_slice(), "name") && value.len() > 0 {
            has_name = true;
        }
        proof {
            lemma_trim_idempotent(fs[k as int]);
        }
        apply_style_field_exec(&mut style, columns[k].as_slice(), value.as_slice());
        k += 1;
    }
    if !has_name {
        return Err(msg_missing_name(data));
    }
    Ok(style)
}

fn ssa_default_columns_exec() -> (r: Vec<Vec<char>>)
    ensures
        views_of(r@) == ssa_default_columns(),
{
    let names = [
        "name",
        "fontname",
        "fontsize",
        "primarycolour",
        "secondarycolour",
        "tertiarycolour",
        "backcolour",
        "bold",
        "italic",
        "borderstyle",
        "outline",
        "shadow",
        "alignment",
        "marginl",
        "marginr",
        "marginv",
        "alphalevel",
        "encoding",
    ];
    let r = lines_of(&names);
    assert(views_of(r@) =~= ssa_default_columns());
    r
}

fn v4plus_columns_exec() -> (r: Vec<Vec<char>>)
    ensures
        views_of(r@) == v4plus_columns(),
{
    let names = [
        "name",
        "fontname",
        "fontsize",
        "primarycolour",
        "secondarycolour",
        "outlinecolour",
        "backcolour",
        "bold",
        "italic",
        "underline",
        "strikeout",
        "scalex",
        "scaley",
        "spacing",
        "angle",
        "borderstyle",
        "outline",
        "shadow",
        "alignment",
        "marginl",
        "marginr",
        "marginv",
        "encoding",
    ];
    let r = lines_of(&names);
    assert(views_of(r@) =~= v4plus_columns());
    r
}

impl Style {
    /// A style line (the text after `Style:`) in the fixed V4+ column order.
    pub fn parse_from_line(data: &[char]) -> (r: Result<Style, String>)
        ensures
            match r {
                Ok(st) => spec_style_by_columns(data@, v4plus_columns()) == Ok::<
                    StyleView,
                    Seq<char>,
                >(st@),
                Err(m) => spec_style_by_columns(data@, v4plus_columns()) == Err::<
                    StyleView,
                    Seq<char>,
                >(m@),
            },
    {
        let cols = v4plus_columns_exec();
        parse_style_by_columns(data, &cols)
    }
}

pub open spec fn format_view(f: Option<Vec<Vec<char>>>) -> Option<Seq<Seq<char>>> {
    match f {
        Some(c) => Some(views_of(c@)),
        None => None,
    }
}

/// A style line under the section's columns (`format`), reporting an
/// error at `line_num`.
pub fn parse_style_line(
    data: &[char],
    format: &Option<Vec<Vec<char>>>,
    is_ssa: bool,
    line_num: usize,
) -> (r: Result<Style, ParseError>)
    ensures
        match r {
            Ok(st) => spec_style_line(data@, format_view(*format), is_ssa) == Ok::<
                StyleView,
                Seq<char>,
            >(st@),
            Err(e) => match spec_style_line(data@, format_view(*format), is_ssa) {
                Ok(_) => false,
                Err(m) => e@ == line_err(line_num as int, m),
            },
        },
{
    let ghost cols_used = style_columns(format_view(*format), is_ssa);
    let parsed = match format {
        Some(cols) if cols.len() > 0 => {
            assert(views_of(cols@) == cols_used);
            parse_style_by_columns(data, cols)
        },
        _ => if is_ssa {
            let cols = ssa_default_columns_exec();
            parse_style_by_columns(data, &cols)
        } else {
            Style::parse_from_line(data)
        },
    };
    match parsed {
        Ok(mut style) => {
            assert(spec_style_by_columns(data@, cols_used) == Ok::<StyleView, Seq<char>>(style@));
            let ghost before = style@;
            if is_ssa {
                style.alignment = ssa_alignment_to_ass(style.alignment);
                assert(style@ == StyleView { alignment: spec_ssa_alignment(before.alignment), ..before });
            } else {
                assert(style@ == before);
            }
            Ok(style)
        },
        Err(m) => Err(ParseError::line_error(line_num, m)),
    }
}

// ---------------------------------------------------------------------
// Section
// ---------------------------------------------------------------------
/// Parser state between lines of a styles section.
pub struct StyState {
    pub styles: Seq<StyleView>,
    pub format: Option<Seq<Seq<char>>>,
}

/// One line of a styles section: blank lines and `;` comments are
/// skipped, `Format:` sets the columns, `Style:` adds a style, anything
/// else is ignored. Both keywords are case-sensitive.
pub open spec fn sty_step(start: int, i: int, raw: Seq<char>, st: StyState, is_ssa: bool) -> Result<
    StyState,
    ParseErrorView,
> {
    let line = trim(raw);
    if line.len() == 0 || line[0] == ';' {
        Ok(st)
    } else if starts_with(line, "Format:"@) {
        Ok(
            StyState {
                styles: st.styles,
                format: Some(spec_format_columns(line.subrange(7, line.len() as int))),
            },
        )
    } else if starts_with(line, "Style:"@) {
        match spec_style_line(line.subrange(6, line.len() as int), st.format, is_ssa) {
            Ok(s) => Ok(StyState { styles: st.styles.push(s), format: st.format }),
            Err(m) => Err(line_err(start + i, m)),
        }
    } else {
        Ok(st)
    }
}

pub open spec fn sty_fold(
    start: int,
    lines: Seq<Seq<char>>,
    i: int,
    st: StyState,
    is_ssa: bool,
) -> Result<StyState, ParseErrorView>
    decreases lines.len() - i,
{
    if i < 0 || i >= lines.len() {
        Ok(st)
    } else {
        match sty_step(start, i, lines[i], st, is_ssa) {
            Ok(next) => sty_fold(start, lines, i + 1, next, is_ssa),
            Err(e) => Err(e),
        }
    }
}

/// The styles of a section's lines.
pub open spec fn spec_parse_styles(lines: Seq<Seq<char>>, start: int, is_ssa: bool) -> Result<
    Seq<StyleView>,
    ParseErrorView,
> {
    match sty_fold(start, lines, 0, StyState { styles: Seq::empty(), format: None }, is_ssa) {
        Ok(st) => Ok(st.styles),
        Err(e) => Err(e),
    }
}

pub open spec fn style_views(v: Seq<Style>) -> Seq<StyleView> {
    v.map_values(|s: Style| s@)
}

fn sty_step_exec(
    start: usize,
    i: usize,
    raw: &Vec<char>,
    styles: &mut Vec<Style>,
    format: &mut Option<Vec<Vec<char>>>,
    is_ssa: bool,
) -> (r: Result<(), ParseError>)
    requires
        start + i <= usize::MAX,
    ensures
        match r {
            Ok(()) => sty_step(
                start as int,
                i as int,
                raw@,
                StyState { styles: style_views(old(styles)@), format: format_view(*old(format)) },
                is_ssa,
            ) == Ok::<StyState, ParseErrorView>(
                StyState {
                    styles: style_views(final(styles)@),
                    format: format_view(*final(format)),
                },
            ),
            Err(e) => sty_step(
                start as int,
                i as int,
                raw@,
                StyState { styles: style_views(old(styles)@), format: format_view(*old(format)) },
                is_ssa,
            ) == Err::<StyState, ParseErrorView>(e@),
        },
{
    let line = trim_chars(raw.as_slice());
    if line.len() == 0 || line[0] == ';' {
        return Ok(());
    }
    let fmt = str_chars("Format:");
    if has_prefix(line.as_slice(), fmt.as_slice()) {
        proof {
            reveal_strlit("Format:");
        }
        let rest = sub_chars(line.as_slice(), 7, line.len());
        let cols = parse_format_columns(rest.as_slice());
        *format = Some(cols);
        return Ok(());
    }
    let sty = str_chars("Style:");
    if has_prefix(line.as_slice(), sty.as_slice()) {
        proof {
            reveal_strlit("Style:");
        }
        let data = sub_chars(line.as_slice(), 6, line.len());
        match parse_style_line(data.as_slice(), format, is_ssa, start + i) {
            Ok(s) => {
                let ghost before = style_views(styles@);
                styles.push(s);
                assert(style_views(styles@) =~= before.push(s@));
                Ok(())
            },
            Err(e) => Err(e),
        }
    } else {
        Ok(())
    }
}

/// Parse the lines of a styles section (`is_ssa` for `[V4 Styles]`).
pub fn parse_style_lines(lines: &Vec<Vec<char>>, start_line: usize, is_ssa: bool) -> (r: Result<
    Vec<Style>,
    ParseError,
>)
    requires
        start_line + lines@.len() <= usize::MAX,
    ensures
        match r {
            Ok(v) => spec_parse_styles(views_of(lines@), start_line as int, is_ssa) == Ok::<
                Seq<StyleView>,
                ParseErrorView,
            >(style_views(v@)),
            Err(e) => spec_parse_styles(views_of(lines@), start_line as int, is_ssa) == Err::<
                Seq<StyleView>,
                ParseErrorView,
            >(e@),
        },
{
    let ghost ls = views_of(lines@);
    let mut styles: Vec<Style> = Vec::new();
    let mut format: Option<Vec<Vec<char>>> = None;
    let ghost init = StyState { styles: Seq::empty(), format: None };
    assert(style_views(styles@) =~= Seq::<StyleView>::empty());
    let mut i: usize = 0;
    while i < lines.len()
        invariant
            0 <= i <= lines@.len(),
            ls == views_of(lines@),
            init == (StyState { styles: Seq::empty(), format: None }),
            start_line + lines@.len() <= usize::MAX,
            sty_fold(start_line as int, ls, 0, init, is_ssa) == sty_fold(
                start_line as int,
                ls,
                i as int,
                StyState { styles: style_views(styles@), format: format_view(format) },
                is_ssa,
            ),
        decreases lines@.len() - i,
    {
        let ghost pre = StyState { styles: style_views(styles@), format: format_view(format) };
        assert(ls[i as int] == lines@[i as int]@);
        match sty_step_exec(start_line, i, &lines[i], &mut styles, &mut format, is_ssa) {
            Ok(()) => {},
            Err(e) => {
                assert(sty_fold(start_line as int, ls, i as int, pre, is_ssa) == Err::<
                    StyState,
                    ParseErrorView,
                >(e@));
                return Err(e);
            },
        }
        i += 1;
    }
    Ok(styles)
}

/// Parse the lines of a styles section (`is_ssa` for `[V4 Styles]`).
pub fn parse_styles(lines: &[&str], start_line: usize, is_ssa: bool) -> (r: Result<
    Vec<Style>,
    ParseError,
>)
    requires
        start_line + lines@.len() <= usize::MAX,
    ensures
        match r {
            Ok(v) => spec_parse_styles(str_views(lines@), start_line as int, is_ssa) == Ok::<
                Seq<StyleView>,
                ParseErrorView,
            >(style_views(v@)),
            Err(e) => spec_parse_styles(str_views(lines@), start_line as int, is_ssa) == Err::<
                Seq<StyleView>,
                ParseErrorView,
            >(e@),
        },
{
    let ls = lines_of(lines);
    parse_style_lines(&ls, start_line, is_ssa)
}

// ---------------------------------------------------------------------
// What each style column sets
// ---------------------------------------------------------------------
/// A style flag as written: an integer that is not zero; anything that
/// does not read as an `i32` is false.
pub open spec fn written_flag(v: Seq<char>) -> bool {
    match spec_parse_i32(trim(v)) {
        Some(x) => x != 0,
        None => false,
    }
}

/// A style integer as written; anything that does not read as an `i32`
/// is 0.
pub open spec fn written_int(v: Seq<char>) -> i32 {
    match spec_parse_i32(trim(v)) {
        Some(x) => x,
        None => 0,
    }
}

/// A style colour as written (`&HAABBGGRR`); anything unreadable is
/// transparent-free black (all channels 0).
pub open spec fn written_color(v: Seq<char>) -> Color {
    match spec_parse_color(trim(v)) {
        Some(c) => c,
        None => Color { alpha: 0, blue: 0, green: 0, red: 0 },
    }
}

/// The `Underline` column sets the underline flag (a non-zero integer) and
/// nothing else; in particular it never touches strike-out.
pub proof fn lemma_underline_column(st: StyleView, v: Seq<char>)
    ensures
        apply_style_field(st, "underline"@, v).underline == written_flag(v),
        apply_style_field(st, "underline"@, v) == (StyleView { underline: apply_style_field(st, "underline"@, v).underline, ..st }),
{
    reveal_strlit("name");
    reveal_strlit("fontname");
    reveal_strlit("fontsize");
    reveal_strlit("primarycolour");
    reveal_strlit("secondarycolour");
    reveal_strlit("outlinecolour");
    reveal_strlit("tertiarycolour");
    reveal_strlit("backcolour");
    reveal_strlit("bold");
    reveal_strlit("italic");
    reveal_strlit("underline");
    reveal_strlit("strikeout");
    reveal_strlit("scalex");
    reveal_strlit("scaley");
    reveal_strlit("spacing");
    reveal_strlit("angle");
    reveal_strlit("borderstyle");
    reveal_strlit("outline");
    reveal_strlit("shadow");
    reveal_strlit("alignment");
    reveal_strlit("marginl");
    reveal_strlit("marginr");
    reveal_strlit("marginv");
    reveal_strlit("alphalevel");
    reveal_strlit("encoding");
    assert("underline"@.len() == 9 && "name"@.len() == 4);
    assert("underline"@.len() == 9 && "fontname"@.len() == 8);
    assert("underline"@.len() == 9 && "fontsize"@.len() == 8);
    assert("underline"@.len() == 9 && "primarycolour"@.len() == 13);
    assert("underline"@.len() == 9 && "secondarycolour"@.len() == 15);
    assert("underline"@.len() == 9 && "outlinecolour"@.len() == 13);
    assert("underline"@.len() == 9 && "tertiarycolour"@.len() == 14);
    assert("underline"@.len() == 9 && "backcolour"@.len() == 10);
    assert("underline"@.len() == 9 && "bold"@.len() == 4);
    assert("underline"@.len() == 9 && "italic"@.len() == 6);
}

/// The `StrikeOut` column sets the strike-out flag and nothing else.
pub proof fn lemma_strikeout_column(st: StyleView, v: Seq<char>)
    ensures
        apply_style_field(st, "strikeout"@, v).strike_out == written_flag(v),
        apply_style_field(st, "strikeout"@, v) == (StyleView { strike_out: apply_style_field(st, "strikeout"@, v).strike_out, ..st }),
{
    reveal_strlit("name");
    reveal_strlit("fontname");
    reveal_strlit("fontsize");
    reveal_strlit("primarycolour");
    reveal_strlit("secondarycolour");
    reveal_strlit("outlinecolour");
    reveal_strlit("tertiarycolour");
    reveal_strlit("backcolour");
    reveal_strlit("bold");
    reveal_strlit("italic");
    reveal_strlit("underline");
    reveal_strlit("strikeout");
    reveal_strlit("scalex");
    reveal_strlit("scaley");
    reveal_strlit("spacing");
    reveal_strlit("angle");
    reveal_strlit("borderstyle");
    reveal_strlit("outline");
    reveal_strlit("shadow");
    reveal_strlit("alignment");
    reveal_strlit("marginl");
    reveal_strlit("marginr");
    reveal_strlit("marginv");
    reveal_strlit("alphalevel");
    reveal_strlit("encoding");
    assert("strikeout"@.len() == 9 && "name"@.len() == 4);
    assert("strikeout"@.len() == 9 && "fontname"@.len() == 8);
    assert("strikeout"@.len() == 9 && "fontsize"@.len() == 8);
    assert("strikeout"@.len() == 9 && "primarycolour"@.len() == 13);
    assert("strikeout"@.len() == 9 && "secondarycolour"@.len() == 15);
    assert("strikeout"@.len() == 9 && "outlinecolour"@.len() == 13);
    assert("strikeout"@.len() == 9 && "tertiarycolour"@.len() == 14);
    assert("strikeout"@.len() == 9 && "backcolour"@.len() == 10);
    assert("strikeout"@.len() == 9 && "bold"@.len() == 4);
    assert("strikeout"@.len() == 9 && "italic"@.len() == 6);
    assert("strikeout"@[0] == 's' && "underline"@[0] == 'u');
}

/// The `Bold` column sets the bold flag and nothing else.
pub proof fn lemma_bold_column(st: StyleView, v: Seq<char>)
    ensures
        apply_style_field(st, "bold"@, v).bold == written_flag(v),
        apply_style_field(st, "bold"@, v) == (StyleView { bold: apply_style_field(st, "bold"@, v).bold, ..st }),
{
    reveal_strlit("name");
    reveal_strlit("fontname");
    reveal_strlit("fontsize");
    reveal_strlit("primarycolour");
    reveal_strlit("secondarycolour");
    reveal_strlit("outlinecolour");
    reveal_strlit("tertiarycolour");
    reveal_strlit("backcolour");
    reveal_strlit("bold");
    reveal_strlit("italic");
    reveal_strlit("underline");
    reveal_strlit("strikeout");
    reveal_strlit("scalex");
    reveal_strlit("scaley");
    reveal_strlit("spacing");
    reveal_strlit("angle");
    reveal_strlit("borderstyle");
    reveal_strlit("outline");
    reveal_strlit("shadow");
    reveal_strlit("alignment");
    reveal_strlit("marginl");
    reveal_strlit("marginr");
    reveal_strlit("marginv");
    reveal_strlit("alphalevel");
    reveal_strlit("encoding");
    assert("bold"@[0] == 'b' && "name"@[0] == 'n');
    assert("bold"@.len() == 4 && "fontname"@.len() == 8);
    assert("bold"@.len() == 4 && "fontsize"@.len() == 8);
    assert("bold"@.len() == 4 && "primarycolour"@.len() == 13);
    assert("bold"@.len() == 4 && "secondarycolour"@.len() == 15);
    assert("bold"@.len() == 4 && "outlinecolour"@.len() == 13);
    assert("bold"@.len() == 4 && "tertiarycolour"@.len() == 14);
    assert("bold"@.len() == 4 && "backcolour"@.len() == 10);
}

/// The `Italic` column sets the italic flag and nothing else.
pub proof fn lemma_italic_column(st: StyleView, v: Seq<char>)
    ensures
        apply_style_field(st, "italic"@, v).italic == written_flag(v),
        apply_style_field(st, "italic"@, v) == (StyleView { italic: apply_style_field(st, "italic"@, v).italic, ..st }),
{
    reveal_strlit("name");
    reveal_strlit("fontname");
    reveal_strlit("fontsize");
    reveal_strlit("primarycolour");
    reveal_strlit("secondarycolour");
    reveal_strlit("outlinecolour");
    reveal_strlit("tertiarycolour");
    reveal_strlit("backcolour");
    reveal_strlit("bold");
    reveal_strlit("italic");
    reveal_strlit("underline");
    reveal_strlit("strikeout");
    reveal_strlit("scalex");
    reveal_strlit("scaley");
    reveal_strlit("spacing");
    reveal_strlit("angle");
    reveal_strlit("borderstyle");
    reveal_strlit("outline");
    reveal_strlit("shadow");
    reveal_strlit("alignment");
    reveal_strlit("marginl");
    reveal_strlit("marginr");
    reveal_strlit("marginv");
    reveal_strlit("alphalevel");
    reveal_strlit("encoding");
    assert("italic"@.len() == 6 && "name"@.len() == 4);
    assert("italic"@.len() == 6 && "fontname"@.len() == 8);
    assert("italic"@.len() == 6 && "fontsize"@.len() == 8);
    assert("italic"@.len() == 6 && "primarycolour"@.len() == 13);
    assert("italic"@.len() == 6 && "secondarycolour"@.len() == 15);
    assert("italic"@.len() == 6 && "outlinecolour"@.len() == 13);
    assert("italic"@.len() == 6 && "tertiarycolour"@.len() == 14);
    assert("italic"@.len() == 6 && "backcolour"@.len() == 10);
    assert("italic"@.len() == 6 && "bold"@.len() == 4);
}

/// The `PrimaryColour` column sets the primary colour and nothing else.
pub proof fn lemma_primary_colour_column(st: StyleView, v: Seq<char>)
    ensures
        apply_style_field(st, "primarycolour"@, v).primary_color == written_color(v),
        apply_style_field(st, "primarycolour"@, v) == (StyleView { primary_color: apply_style_field(st, "primarycolour"@, v).primary_color, ..st }),
{
    reveal_strlit("name");
    reveal_strlit("fontname");
    reveal_strlit("fontsize");
    reveal_strlit("primarycolour");
    reveal_strlit("secondarycolour");
    reveal_strlit("outlinecolour");
    reveal_strlit("tertiarycolour");
    reveal_strlit("backcolour");
    reveal_strlit("bold");
    reveal_strlit("italic");
    reveal_strlit("underline");
    reveal_strlit("strikeout");
    reveal_strlit("scalex");
    reveal_strlit("scaley");
    reveal_strlit("spacing");
    reveal_strlit("angle");
    reveal_strlit("borderstyle");
    reveal_strlit("outline");
    reveal_strlit("shadow");
    reveal_strlit("alignment");
    reveal_strlit("marginl");
    reveal_strlit("marginr");
    reveal_strlit("marginv");
    reveal_strlit("alphalevel");
    reveal_strlit("encoding");
    assert("primarycolour"@.len() == 13 && "name"@.len() == 4);
    assert("primarycolour"@.len() == 13 && "fontname"@.len() == 8);
    assert("primarycolour"@.len() == 13 && "fontsize"@.len() == 8);
}

/// The `SecondaryColour` column sets the secondary colour and nothing else.
pub proof fn lemma_secondary_colour_column(st: StyleView, v: Seq<char>)
    ensures
        apply_style_field(st, "secondarycolour"@, v).secondary_color == written_color(v),
        apply_style_field(st, "secondarycolour"@, v) == (StyleView { secondary_color: apply_style_field(st, "secondarycolour"@, v).secondary_color, ..st }),
{
    reveal_strlit("name");
    reveal_strlit("fontname");
    reveal_strlit("fontsize");
    reveal_strlit("primarycolour");
    reveal_strlit("secondarycolour");
    reveal_strlit("outlinecolour");
    reveal_strlit("tertiarycolour");
    reveal_strlit("backcolour");
    reveal_strlit("bold");
    reveal_strlit("italic");
    reveal_strlit("underline");
    reveal_strlit("strikeout");
    reveal_strlit("scalex");
    reveal_strlit("scaley");
    reveal_strlit("spacing");
    reveal_strlit("angle");
    reveal_strlit("borderstyle");
    reveal_strlit("outline");
    reveal_strlit("shadow");
    reveal_strlit("alignment");
    reveal_strlit("marginl");
    reveal_strlit("marginr");
    reveal_strlit("marginv");
    reveal_strlit("alphalevel");
    reveal_strlit("encoding");
    assert("secondarycolour"@.len() == 15 && "name"@.len() == 4);
    assert("secondarycolour"@.len() == 15 && "fontname"@.len() == 8);
    assert("secondarycolour"@.len() == 15 && "fontsize"@.len() == 8);
    assert("secondarycolour"@.len() == 15 && "primarycolour"@.len() == 13);
}

/// The `OutlineColour` column sets the outline colour and nothing else.
pub proof fn lemma_outline_colour_column(st: StyleView, v: Seq<char>)
    ensures
        apply_style_field(st, "outlinecolour"@, v).outline_color == written_color(v),
        apply_style_field(st, "outlinecolour"@, v) == (StyleView { outline_color: apply_style_field(st, "outlinecolour"@, v).outline_color, ..st }),
{
    reveal_strlit("name");
    reveal_strlit("fontname");
    reveal_strlit("fontsize");
    reveal_strlit("primarycolour");
    reveal_strlit("secondarycolour");
    reveal_strlit("outlinecolour");
    reveal_strlit("tertiarycolour");
    reveal_strlit("backcolour");
    reveal_strlit("bold");
    reveal_strlit("italic");
    reveal_strlit("underline");
    reveal_strlit("strikeout");
    reveal_strlit("scalex");
    reveal_strlit("scaley");
    reveal_strlit("spacing");
    reveal_strlit("angle");
    reveal_strlit("borderstyle");
    reveal_strlit("outline");
    reveal_strlit("shadow");
    reveal_strlit("alignment");
    reveal_strlit("marginl");
    reveal_strlit("marginr");
    reveal_strlit("marginv");
    reveal_strlit("alphalevel");
    reveal_strlit("encoding");
    assert("outlinecolour"@.len() == 13 && "name"@.len() == 4);
    assert("outlinecolour"@.len() == 13 && "fontname"@.len() == 8);
    assert("outlinecolour"@.len() == 13 && "fontsize"@.len() == 8);
    assert("outlinecolour"@[0] == 'o' && "primarycolour"@[0] == 'p');
    assert("outlinecolour"@.len() == 13 && "secondarycolour"@.len() == 15);
}

/// SSA's `TertiaryColour` column fills the outline colour and nothing else.
pub proof fn lemma_tertiary_colour_column(st: StyleView, v: Seq<char>)
    ensures
        apply_style_field(st, "tertiarycolour"@, v).outline_color == written_color(v),
        apply_style_field(st, "tertiarycolour"@, v) == (StyleView { outline_color: apply_style_field(st, "tertiarycolour"@, v).outline_color, ..st }),
{
    reveal_strlit("name");
    reveal_strlit("fontname");
    reveal_strlit("fontsize");
    reveal_strlit("primarycolour");
    reveal_strlit("secondarycolour");
    reveal_strlit("outlinecolour");
    reveal_strlit("tertiarycolour");
    reveal_strlit("backcolour");
    reveal_strlit("bold");
    reveal_strlit("italic");
    reveal_strlit("underline");
    reveal_strlit("strikeout");
    reveal_strlit("scalex");
    reveal_strlit("scaley");
    reveal_strlit("spacing");
    reveal_strlit("angle");
    reveal_strlit("borderstyle");
    reveal_strlit("outline");
    reveal_strlit("shadow");
    reveal_strlit("alignment");
    reveal_strlit("marginl");
    reveal_strlit("marginr");
    reveal_strlit("marginv");
    reveal_strlit("alphalevel");
    reveal_strlit("encoding");
    assert("tertiarycolour"@.len() == 14 && "name"@.len() == 4);
    assert("tertiarycolour"@.len() == 14 && "fontname"@.len() == 8);
    assert("tertiarycolour"@.len() == 14 && "fontsize"@.len() == 8);
    assert("tertiarycolour"@.len() == 14 && "primarycolour"@.len() == 13);
    assert("tertiarycolour"@.len() == 14 && "secondarycolour"@.len() == 15);
    assert("tertiarycolour"@.len() == 14 && "outlinecolour"@.len() == 13);
}

/// The `BackColour` column sets the back colour and nothing else.
pub proof fn lemma_back_colour_column(st: StyleView, v: Seq<char>)
    ensures
        apply_style_field(st, "backcolour"@, v).back_color == written_color(v),
        apply_style_field(st, "backcolour"@, v) == (StyleView { back_color: apply_style_field(st, "backcolour"@, v).back_color, ..st }),
{
    reveal_strlit("name");
    reveal_strlit("fontname");
    reveal_strlit("fontsize");
    reveal_strlit("primarycolour");
    reveal_strlit("secondarycolour");
    reveal_strlit("outlinecolour");
    reveal_strlit("tertiarycolour");
    reveal_strlit("backcolour");
    reveal_strlit("bold");
    reveal_strlit("italic");
    reveal_strlit("underline");
    reveal_strlit("strikeout");
    reveal_strlit("scalex");
    reveal_strlit("scaley");
    reveal_strlit("spacing");
    reveal_strlit("angle");
    reveal_strlit("borderstyle");
    reveal_strlit("outline");
    reveal_strlit("shadow");
    reveal_strlit("alignment");
    reveal_strlit("marginl");
    reveal_strlit("marginr");
    reveal_strlit("marginv");
    reveal_strlit("alphalevel");
    reveal_strlit("encoding");
    assert("backcolour"@.len() == 10 && "name"@.len() == 4);
    assert("backcolour"@.len() == 10 && "fontname"@.len() == 8);
    assert("backcolour"@.len() == 10 && "fontsize"@.len() == 8);
    assert("backcolour"@.len() == 10 && "primarycolour"@.len() == 13);
    assert("backcolour"@.len() == 10 && "secondarycolour"@.len() == 15);
    assert("backcolour"@.len() == 10 && "outlinecolour"@.len() == 13);
    assert("backcolour"@.len() == 10 && "tertiarycolour"@.len() == 14);
}

/// The `BorderStyle` column sets the border style and nothing else.
pub proof fn lemma_border_style_column(st: StyleView, v: Seq<char>)
    ensures
        apply_style_field(st, "borderstyle"@, v).border_style == written_int(v),
        apply_style_field(st, "borderstyle"@, v) == (StyleView { border_style: apply_style_field(st, "borderstyle"@, v).border_style, ..st }),
{
    reveal_strlit("name");
    reveal_strlit("fontname");
    reveal_strlit("fontsize");
    reveal_strlit("primarycolour");
    reveal_strlit("secondarycolour");
    reveal_strlit("outlinecolour");
    reveal_strlit("tertiarycolour");
    reveal_strlit("backcolour");
    reveal_strlit("bold");
    reveal_strlit("italic");
    reveal_strlit("underline");
    reveal_strlit("strikeout");
    reveal_strlit("scalex");
    reveal_strlit("scaley");
    reveal_strlit("spacing");
    reveal_strlit("angle");
    reveal_strlit("borderstyle");
    reveal_strlit("outline");
    reveal_strlit("shadow");
    reveal_strlit("alignment");
    reveal_strlit("marginl");
    reveal_strlit("marginr");
    reveal_strlit("marginv");
    reveal_strlit("alphalevel");
    reveal_strlit("encoding");
    assert("borderstyle"@.len() == 11 && "name"@.len() == 4);
    assert("borderstyle"@.len() == 11 && "fontname"@.len() == 8);
    assert("borderstyle"@.len() == 11 && "fontsize"@.len() == 8);
    assert("borderstyle"@.len() == 11 && "primarycolour"@.len() == 13);
    assert("borderstyle"@.len() == 11 && "secondarycolour"@.len() == 15);
    assert("borderstyle"@.len() == 11 && "outlinecolour"@.len() == 13);
    assert("borderstyle"@.len() == 11 && "tertiarycolour"@.len() == 14);
    assert("borderstyle"@.len() == 11 && "backcolour"@.len() == 10);
    assert("borderstyle"@.len() == 11 && "bold"@.len() == 4);
    assert("borderstyle"@.len() == 11 && "italic"@.len() == 6);
    assert("borderstyle"@.len() == 11 && "underline"@.len() == 9);
    assert("borderstyle"@.len() == 11 && "strikeout"@.len() == 9);
    assert("borderstyle"@.len() == 11 && "scalex"@.len() == 6);
    assert("borderstyle"@.len() == 11 && "scaley"@.len() == 6);
    assert("borderstyle"@.len() == 11 && "spacing"@.len() == 7);
    assert("borderstyle"@.len() == 11 && "angle"@.len() == 5);
}

/// The `Alignment` column sets the alignment as written and nothing else.
pub proof fn lemma_alignment_column(st: StyleView, v: Seq<char>)
    ensures
        apply_style_field(st, "alignment"@, v).alignment == written_int(v),
        apply_style_field(st, "alignment"@, v) == (StyleView { alignment: apply_style_field(st, "alignment"@, v).alignment, ..st }),
{
    reveal_strlit("name");
    reveal_strlit("fontname");
    reveal_strlit("fontsize");
    reveal_strlit("primarycolour");
    reveal_strlit("secondarycolour");
    reveal_strlit("outlinecolour");
    reveal_strlit("tertiarycolour");
    reveal_strlit("backcolour");
    reveal_strlit("bold");
    reveal_strlit("italic");
    reveal_strlit("underline");
    reveal_strlit("strikeout");
    reveal_strlit("scalex");
    reveal_strlit("scaley");
    reveal_strlit("spacing");
    reveal_strlit("angle");
    reveal_strlit("borderstyle");
    reveal_strlit("outline");
    reveal_strlit("shadow");
    reveal_strlit("alignment");
    reveal_strlit("marginl");
    reveal_strlit("marginr");
    reveal_strlit("marginv");
    reveal_strlit("alphalevel");
    reveal_strlit("encoding");
    assert("alignment"@.len() == 9 && "name"@.len() == 4);
    assert("alignment"@.len() == 9 && "fontname"@.len() == 8);
    assert("alignment"@.len() == 9 && "fontsize"@.len() == 8);
    assert("alignment"@.len() == 9 && "primarycolour"@.len() == 13);
    assert("alignment"@.len() == 9 && "secondarycolour"@.len() == 15);
    assert("alignment"@.len() == 9 && "outlinecolour"@.len() == 13);
    assert("alignment"@.len() == 9 && "tertiarycolour"@.len() == 14);
    assert("alignment"@.len() == 9 && "backcolour"@.len() == 10);
    assert("alignment"@.len() == 9 && "bold"@.len() == 4);
    assert("alignment"@.len() == 9 && "italic"@.len() == 6);
    assert("alignment"@[0] == 'a' && "underline"@[0] == 'u');
    assert("alignment"@[0] == 'a' && "strikeout"@[0] == 's');
    assert("alignment"@.len() == 9 && "scalex"@.len() == 6);
    assert("alignment"@.len() == 9 && "scaley"@.len() == 6);
    assert("alignment"@.len() == 9 && "spacing"@.len() == 7);
    assert("alignment"@.len() == 9 && "angle"@.len() == 5);
    assert("alignment"@.len() == 9 && "borderstyle"@.len() == 11);
    assert("alignment"@.len() == 9 && "outline"@.len() == 7);
    assert("alignment"@.len() == 9 && "shadow"@.len() == 6);
}

/// The `MarginL` column sets the left margin and nothing else.
pub proof fn lemma_margin_l_column(st: StyleView, v: Seq<char>)
    ensures
        apply_style_field(st, "marginl"@, v).margin_l == written_int(v),
        apply_style_field(st, "marginl"@, v) == (StyleView { margin_l: apply_style_field(st, "marginl"@, v).margin_l, ..st }),
{
    reveal_strlit("name");
    reveal_strlit("fontname");
    reveal_strlit("fontsize");
    reveal_strlit("primarycolour");
    reveal_strlit("secondarycolour");
    reveal_strlit("outlinecolour");
    reveal_strlit("tertiarycolour");
    reveal_strlit("backcolour");
    reveal_strlit("bold");
    reveal_strlit("italic");
    reveal_strlit("underline");
    reveal_strlit("strikeout");
    reveal_strlit("scalex");
    reveal_strlit("scaley");
    reveal_strlit("spacing");
    reveal_strlit("angle");
    reveal_strlit("borderstyle");
    reveal_strlit("outline");
    reveal_strlit("shadow");
    reveal_strlit("alignment");
    reveal_strlit("marginl");
    reveal_strlit("marginr");
    reveal_strlit("marginv");
    reveal_strlit("alphalevel");
    reveal_strlit("encoding");
    assert("marginl"@.len() == 7 && "name"@.len() == 4);
    assert("marginl"@.len() == 7 && "fontname"@.len() == 8);
    assert("marginl"@.len() == 7 && "fontsize"@.len() == 8);
    assert("marginl"@.len() == 7 && "primarycolour"@.len() == 13);
    assert("marginl"@.len() == 7 && "secondarycolour"@.len() == 15);
    assert("marginl"@.len() == 7 && "outlinecolour"@.len() == 13);
    assert("marginl"@.len() == 7 && "tertiarycolour"@.len() == 14);
    assert("marginl"@.len() == 7 && "backcolour"@.len() == 10);
    assert("marginl"@.len() == 7 && "bold"@.len() == 4);
    assert("marginl"@.len() == 7 && "italic"@.len() == 6);
    assert("marginl"@.len() == 7 && "underline"@.len() == 9);
    assert("marginl"@.len() == 7 && "strikeout"@.len() == 9);
    assert("marginl"@.len() == 7 && "scalex"@.len() == 6);
    assert("marginl"@.len() == 7 && "scaley"@.len() == 6);
    assert("marginl"@[0] == 'm' && "spacing"@[0] == 's');
    assert("marginl"@.len() == 7 && "angle"@.len() == 5);
    assert("marginl"@.len() == 7 && "borderstyle"@.len() == 11);
    assert("marginl"@[0] == 'm' && "outline"@[0] == 'o');
    assert("marginl"@.len() == 7 && "shadow"@.len() == 6);
    assert("marginl"@.len() == 7 && "alignment"@.len() == 9);
}

/// The `MarginR` column sets the right margin and nothing else.
pub proof fn lemma_margin_r_column(st: StyleView, v: Seq<char>)
    ensures
        apply_style_field(st, "marginr"@, v).margin_r == written_int(v),
        apply_style_field(st, "marginr"@, v) == (StyleView { margin_r: apply_style_field(st, "marginr"@, v).margin_r, ..st }),
{
    reveal_strlit("name");
    reveal_strlit("fontname");
    reveal_strlit("fontsize");
    reveal_strlit("primarycolour");
    reveal_strlit("secondarycolour");
    reveal_strlit("outlinecolour");
    reveal_strlit("tertiarycolour");
    reveal_strlit("backcolour");
    reveal_strlit("bold");
    reveal_strlit("italic");
    reveal_strlit("underline");
    reveal_strlit("strikeout");
    reveal_strlit("scalex");
    reveal_strlit("scaley");
    reveal_strlit("spacing");
    reveal_strlit("angle");
    reveal_strlit("borderstyle");
    reveal_strlit("outline");
    reveal_strlit("shadow");
    reveal_strlit("alignment");
    reveal_strlit("marginl");
    reveal_strlit("marginr");
    reveal_strlit("marginv");
    reveal_strlit("alphalevel");
    reveal_strlit("encoding");
    assert("marginr"@.len() == 7 && "name"@.len() == 4);
    assert("marginr"@.len() == 7 && "fontname"@.len() == 8);
    assert("marginr"@.len() == 7 && "fontsize"@.len() == 8);
    assert("marginr"@.len() == 7 && "primarycolour"@.len() == 13);
    assert("marginr"@.len() == 7 && "secondarycolour"@.len() == 15);
    assert("marginr"@.len() == 7 && "outlinecolour"@.len() == 13);
    assert("marginr"@.len() == 7 && "tertiarycolour"@.len() == 14);
    assert("marginr"@.len() == 7 && "backcolour"@.len() == 10);
    assert("marginr"@.len() == 7 && "bold"@.len() == 4);
    assert("marginr"@.len() == 7 && "italic"@.len() == 6);
    assert("marginr"@.len() == 7 && "underline"@.len() == 9);
    assert("marginr"@.len() == 7 && "strikeout"@.len() == 9);
    assert("marginr"@.len() == 7 && "scalex"@.len() == 6);
    assert("marginr"@.len() == 7 && "scaley"@.len() == 6);
    assert("marginr"@[0] == 'm' && "spacing"@[0] == 's');
    assert("marginr"@.len() == 7 && "angle"@.len() == 5);
    assert("marginr"@.len() == 7 && "borderstyle"@.len() == 11);
    assert("marginr"@[0] == 'm' && "outline"@[0] == 'o');
    assert("marginr"@.len() == 7 && "shadow"@.len() == 6);
    assert("marginr"@.len() == 7 && "alignment"@.len() == 9);
    assert("marginr"@[6] == 'r' && "marginl"@[6] == 'l');
}

/// The `MarginV` column sets the vertical margin and nothing else.
pub proof fn lemma_margin_v_column(st: StyleView, v: Seq<char>)
    ensures
        apply_style_field(st, "marginv"@, v).margin_v == written_int(v),
        apply_style_field(st, "marginv"@, v) == (StyleView { margin_v: apply_style_field(st, "marginv"@, v).margin_v, ..st }),
{
    reveal_strlit("name");
    reveal_strlit("fontname");
    reveal_strlit("fontsize");
    reveal_strlit("primarycolour");
    reveal_strlit("secondarycolour");
    reveal_strlit("outlinecolour");
    reveal_strlit("tertiarycolour");
    reveal_strlit("backcolour");
    reveal_strlit("bold");
    reveal_strlit("italic");
    reveal_strlit("underline");
    reveal_strlit("strikeout");
    reveal_strlit("scalex");
    reveal_strlit("scaley");
    reveal_strlit("spacing");
    reveal_strlit("angle");
    reveal_strlit("borderstyle");
    reveal_strlit("outline");
    reveal_strlit("shadow");
    reveal_strlit("alignment");
    reveal_strlit("marginl");
    reveal_strlit("marginr");
    reveal_strlit("marginv");
    reveal_strlit("alphalevel");
    reveal_strlit("encoding");
    assert("marginv"@.len() == 7 && "name"@.len() == 4);
    assert("marginv"@.len() == 7 && "fontname"@.len() == 8);
    assert("marginv"@.len() == 7 && "fontsize"@.len() == 8);
    assert("marginv"@.len() == 7 && "primarycolour"@.len() == 13);
    assert("marginv"@.len() == 7 && "secondarycolour"@.len() == 15);
    assert("marginv"@.len() == 7 && "outlinecolour"@.len() == 13);
    assert("marginv"@.len() == 7 && "tertiarycolour"@.len() == 14);
    assert("marginv"@.len() == 7 && "backcolour"@.len() == 10);
    assert("marginv"@.len() == 7 && "bold"@.len() == 4);
    assert("marginv"@.len() == 7 && "italic"@.len() == 6);
    assert("marginv"@.len() == 7 && "underline"@.len() == 9);
    assert("marginv"@.len() == 7 && "strikeout"@.len() == 9);
    assert("marginv"@.len() == 7 && "scalex"@.len() == 6);
    assert("marginv"@.len() == 7 && "scaley"@.len() == 6);
    assert("marginv"@[0] == 'm' && "spacing"@[0] == 's');
    assert("marginv"@.len() == 7 && "angle"@.len() == 5);
    assert("marginv"@.len() == 7 && "borderstyle"@.len() == 11);
    assert("marginv"@[0] == 'm' && "outline"@[0] == 'o');
    assert("marginv"@.len() == 7 && "shadow"@.len() == 6);
    assert("marginv"@.len() == 7 && "alignment"@.len() == 9);
    assert("marginv"@[6] == 'v' && "marginl"@[6] == 'l');
    assert("marginv"@[6] == 'v' && "marginr"@[6] == 'r');
}

/// The `Encoding` column sets the encoding and nothing else.
pub proof fn lemma_encoding_column(st: StyleView, v: Seq<char>)
    ensures
        apply_style_field(st, "encoding"@, v).encoding == written_int(v),
        apply_style_field(st, "encoding"@, v) == (StyleView { encoding: apply_style_field(st, "encoding"@, v).encoding, ..st }),
{
    reveal_strlit("name");
    reveal_strlit("fontname");
    reveal_strlit("fontsize");
    reveal_strlit("primarycolour");
    reveal_strlit("secondarycolour");
    reveal_strlit("outlinecolour");
    reveal_strlit("tertiarycolour");
    reveal_strlit("backcolour");
    reveal_strlit("bold");
    reveal_strlit("italic");
    reveal_strlit("underline");
    reveal_strlit("strikeout");
    reveal_strlit("scalex");
    reveal_strlit("scaley");
    reveal_strlit("spacing");
    reveal_strlit("angle");
    reveal_strlit("borderstyle");
    reveal_strlit("outline");
    reveal_strlit("shadow");
    reveal_strlit("alignment");
    reveal_strlit("marginl");
    reveal_strlit("marginr");
    reveal_strlit("marginv");
    reveal_strlit("alphalevel");
    reveal_strlit("encoding");
    assert("encoding"@.len() == 8 && "name"@.len() == 4);
    assert("encoding"@[0] == 'e' && "fontname"@[0] == 'f');
    assert("encoding"@[0] == 'e' && "fontsize"@[0] == 'f');
    assert("encoding"@.len() == 8 && "primarycolour"@.len() == 13);
    assert("encoding"@.len() == 8 && "secondarycolour"@.len() == 15);
    assert("encoding"@.len() == 8 && "outlinecolour"@.len() == 13);
    assert("encoding"@.len() == 8 && "tertiarycolour"@.len() == 14);
    assert("encoding"@.len() == 8 && "backcolour"@.len() == 10);
    assert("encoding"@.len() == 8 && "bold"@.len() == 4);
    assert("encoding"@.len() == 8 && "italic"@.len() == 6);
    assert("encoding"@.len() == 8 && "underline"@.len() == 9);
    assert("encoding"@.len() == 8 && "strikeout"@.len() == 9);
    assert("encoding"@.len() == 8 && "scalex"@.len() == 6);
    assert("encoding"@.len() == 8 && "scaley"@.len() == 6);
    assert("encoding"@.len() == 8 && "spacing"@.len() == 7);
    assert("encoding"@.len() == 8 && "angle"@.len() == 5);
    assert("encoding"@.len() == 8 && "borderstyle"@.len() == 11);
    assert("encoding"@.len() == 8 && "outline"@.len() == 7);
    assert("encoding"@.len() == 8 && "shadow"@.len() == 6);
    assert("encoding"@.len() == 8 && "alignment"@.len() == 9);
    assert("encoding"@.len() == 8 && "marginl"@.len() == 7);
    assert("encoding"@.len() == 8 && "marginr"@.len() == 7);
    assert("encoding"@.len() == 8 && "marginv"@.len() == 7);
    assert("encoding"@.len() == 8 && "alphalevel"@.len() == 10);
}

/// The `Name` column sets the name (trimmed) and nothing else.
pub proof fn lemma_name_column(st: StyleView, v: Seq<char>)
    ensures
        apply_style_field(st, "name"@, v).name == trim(v),
        apply_style_field(st, "name"@, v) == (StyleView { name: apply_style_field(st, "name"@, v).name, ..st }),
{
    reveal_strlit("name");
    reveal_strlit("fontname");
    reveal_strlit("fontsize");
    reveal_strlit("primarycolour");
    reveal_strlit("secondarycolour");
    reveal_strlit("outlinecolour");
    reveal_strlit("tertiarycolour");
    reveal_strlit("backcolour");
    reveal_strlit("bold");
    reveal_strlit("italic");
    reveal_strlit("underline");
    reveal_strlit("strikeout");
    reveal_strlit("scalex");
    reveal_strlit("scaley");
    reveal_strlit("spacing");
    reveal_strlit("angle");
    reveal_strlit("borderstyle");
    reveal_strlit("outline");
    reveal_strlit("shadow");
    reveal_strlit("alignment");
    reveal_strlit("marginl");
    reveal_strlit("marginr");
    reveal_strlit("marginv");
    reveal_strlit("alphalevel");
    reveal_strlit("encoding");
}

/// The `Fontname` column sets the font name (trimmed) and nothing else.
pub proof fn lemma_fontname_column(st: StyleView, v: Seq<char>)
    ensures
        apply_style_field(st, "fontname"@, v).font_name == trim(v),
        apply_style_field(st, "fontname"@, v) == (StyleView { font_name: apply_style_field(st, "fontname"@, v).font_name, ..st }),
{
    reveal_strlit("name");
    reveal_strlit("fontname");
    reveal_strlit("fontsize");
    reveal_strlit("primarycolour");
    reveal_strlit("secondarycolour");
    reveal_strlit("outlinecolour");
    reveal_strlit("tertiarycolour");
    reveal_strlit("backcolour");
    reveal_strlit("bold");
    reveal_strlit("italic");
    reveal_strlit("underline");
    reveal_strlit("strikeout");
    reveal_strlit("scalex");
    reveal_strlit("scaley");
    reveal_strlit("spacing");
    reveal_strlit("angle");
    reveal_strlit("borderstyle");
    reveal_strlit("outline");
    reveal_strlit("shadow");
    reveal_strlit("alignment");
    reveal_strlit("marginl");
    reveal_strlit("marginr");
    reveal_strlit("marginv");
    reveal_strlit("alphalevel");
    reveal_strlit("encoding");
    assert("fontname"@.len() == 8 && "name"@.len() == 4);
}

/// The fixed V4+ column order: `Name, Fontname, Fontsize, PrimaryColour,
/// SecondaryColour, OutlineColour, BackColour, Bold, Italic, Underline,
/// StrikeOut, ScaleX, ScaleY, Spacing, Angle, BorderStyle, Outline,
/// Shadow, Alignment, MarginL, MarginR, MarginV, Encoding`.
pub proof fn lemma_v4plus_column_order()
    ensures
        v4plus_columns().len() == 23,
        v4plus_columns()[0] == "name"@,
        v4plus_columns()[1] == "fontname"@,
        v4plus_columns()[2] == "fontsize"@,
        v4plus_columns()[3] == "primarycolour"@,
        v4plus_columns()[4] == "secondarycolour"@,
        v4plus_columns()[5] == "outlinecolour"@,
        v4plus_columns()[6] == "backcolour"@,
        v4plus_columns()[7] == "bold"@,
        v4plus_columns()[8] == "italic"@,
        v4plus_columns()[9] == "underline"@,
        v4plus_columns()[10] == "strikeout"@,
        v4plus_columns()[11] == "scalex"@,
        v4plus_columns()[12] == "scaley"@,
        v4plus_columns()[13] == "spacing"@,
        v4plus_columns()[14] == "angle"@,
        v4plus_columns()[15] == "borderstyle"@,
        v4plus_columns()[16] == "outline"@,
        v4plus_columns()[17] == "shadow"@,
        v4plus_columns()[18] == "alignment"@,
        v4plus_columns()[19] == "marginl"@,
        v4plus_columns()[20] == "marginr"@,
        v4plus_columns()[21] == "marginv"@,
        v4plus_columns()[22] == "encoding"@,
{
}

/// SSA's `AlphaLevel` column sets the alpha of all four colours to the
/// written value clamped to 0..=255, keeps their channels, and changes
/// nothing else.
pub proof fn lemma_alphalevel_column(st: StyleView, v: Seq<char>)
    ensures
        ({
            let r = apply_style_field(st, "alphalevel"@, v);
            let a: int = if written_int(v) < 0 {
                0
            } else if written_int(v) > 255 {
                255
            } else {
                written_int(v) as int
            };
            &&& r.primary_color.alpha == a && r.secondary_color.alpha == a
            &&& r.outline_color.alpha == a && r.back_color.alpha == a
            &&& r.primary_color == (Color { alpha: r.primary_color.alpha, ..st.primary_color })
            &&& r.secondary_color == (Color { alpha: r.secondary_color.alpha, ..st.secondary_color })
            &&& r.outline_color == (Color { alpha: r.outline_color.alpha, ..st.outline_color })
            &&& r.back_color == (Color { alpha: r.back_color.alpha, ..st.back_color })
            &&& r == (StyleView {
                primary_color: r.primary_color,
                secondary_color: r.secondary_color,
                outline_color: r.outline_color,
                back_color: r.back_color,
                ..st
            })
        }),
{
    reveal_strlit("name");
    reveal_strlit("fontname");
    reveal_strlit("fontsize");
    reveal_strlit("primarycolour");
    reveal_strlit("secondarycolour");
    reveal_strlit("outlinecolour");
    reveal_strlit("tertiarycolour");
    reveal_strlit("backcolour");
    reveal_strlit("bold");
    reveal_strlit("italic");
    reveal_strlit("underline");
    reveal_strlit("strikeout");
    reveal_strlit("scalex");
    reveal_strlit("scaley");
    reveal_strlit("spacing");
    reveal_strlit("angle");
    reveal_strlit("borderstyle");
    reveal_strlit("outline");
    reveal_strlit("shadow");
    reveal_strlit("alignment");
    reveal_strlit("marginl");
    reveal_strlit("marginr");
    reveal_strlit("marginv");
    reveal_strlit("alphalevel");
    reveal_strlit("encoding");
    assert("alphalevel"@.len() == 10 && "name"@.len() == 4);
    assert("alphalevel"@.len() == 10 && "fontname"@.len() == 8);
    assert("alphalevel"@.len() == 10 && "fontsize"@.len() == 8);
    assert("alphalevel"@.len() == 10 && "primarycolour"@.len() == 13);
    assert("alphalevel"@.len() == 10 && "secondarycolour"@.len() == 15);
    assert("alphalevel"@.len() == 10 && "outlinecolour"@.len() == 13);
    assert("alphalevel"@.len() == 10 && "tertiarycolour"@.len() == 14);
    assert("alphalevel"@[0] == 'a' && "backcolour"@[0] == 'b');
    assert("alphalevel"@.len() == 10 && "bold"@.len() == 4);
    assert("alphalevel"@.len() == 10 && "italic"@.len() == 6);
    assert("alphalevel"@.len() == 10 && "underline"@.len() == 9);
    assert("alphalevel"@.len() == 10 && "strikeout"@.len() == 9);
    assert("alphalevel"@.len() == 10 && "scalex"@.len() == 6);
    assert("alphalevel"@.len() == 10 && "scaley"@.len() == 6);
    assert("alphalevel"@.len() == 10 && "spacing"@.len() == 7);
    assert("alphalevel"@.len() == 10 && "angle"@.len() == 5);
    assert("alphalevel"@.len() == 10 && "borderstyle"@.len() == 11);
    assert("alphalevel"@.len() == 10 && "outline"@.len() == 7);
    assert("alphalevel"@.len() == 10 && "shadow"@.len() == 6);
    assert("alphalevel"@.len() == 10 && "alignment"@.len() == 9);
    assert("alphalevel"@.len() == 10 && "marginl"@.len() == 7);
    assert("alphalevel"@.len() == 10 && "marginr"@.len() == 7);
    assert("alphalevel"@.len() == 10 && "marginv"@.len() == 7);
}

/// SSA alignment to ASS numpad alignment: 1-3 (bottom) stay, 5-7 (top)
/// become 7-9, 9-11 (middle) become 4-6, anything else is 2; the result
/// is always a numpad position.
pub proof fn lemma_ssa_alignment(a: i32)
    ensures
        1 <= a <= 3 ==> spec_ssa_alignment(a) == a,
        5 <= a <= 7 ==> spec_ssa_alignment(a) == a + 2,
        9 <= a <= 11 ==> spec_ssa_alignment(a) == a - 5,
        !(1 <= a <= 3 || 5 <= a <= 7 || 9 <= a <= 11) ==> spec_ssa_alignment(a) == 2,
        1 <= spec_ssa_alignment(a) <= 9,
{
}

/// The `Fontsize` column keeps its text (trimmed) in its own field and changes
/// nothing else.
pub proof fn lemma_fontsize_column(st: StyleView, v: Seq<char>)
    ensures
        apply_style_field(st, "fontsize"@, v).font_size == trim(v),
        apply_style_field(st, "fontsize"@, v) == (StyleView { font_size: apply_style_field(st, "fontsize"@, v).font_size, ..st }),
{
    reveal_strlit("name");
    reveal_strlit("fontname");
    reveal_strlit("fontsize");
    reveal_strlit("primarycolour");
    reveal_strlit("secondarycolour");
    reveal_strlit("outlinecolour");
    reveal_strlit("tertiarycolour");
    reveal_strlit("backcolour");
    reveal_strlit("bold");
    reveal_strlit("italic");
    reveal_strlit("underline");
    reveal_strlit("strikeout");
    reveal_strlit("scalex");
    reveal_strlit("scaley");
    reveal_strlit("spacing");
    reveal_strlit("angle");
    reveal_strlit("borderstyle");
    reveal_strlit("outline");
    reveal_strlit("shadow");
    reveal_strlit("alignment");
    reveal_strlit("marginl");
    reveal_strlit("marginr");
    reveal_strlit("marginv");
    reveal_strlit("alphalevel");
    reveal_strlit("encoding");
    assert("fontsize"@.len() == 8 && "name"@.len() == 4);
    assert("fontsize"@[4] == 's' && "fontname"@[4] == 'n');
}

/// The `ScaleX` column keeps its text (trimmed) in its own field and changes
/// nothing else.
pub proof fn lemma_scalex_column(st: StyleView, v: Seq<char>)
    ensures
        apply_style_field(st, "scalex"@, v).scale_x == trim(v),
        apply_style_field(st, "scalex"@, v) == (StyleView { scale_x: apply_style_field(st, "scalex"@, v).scale_x, ..st }),
{
    reveal_strlit("name");
    reveal_strlit("fontname");
    reveal_strlit("fontsize");
    reveal_strlit("primarycolour");
    reveal_strlit("secondarycolour");
    reveal_strlit("outlinecolour");
    reveal_strlit("tertiarycolour");
    reveal_strlit("backcolour");
    reveal_strlit("bold");
    reveal_strlit("italic");
    reveal_strlit("underline");
    reveal_strlit("strikeout");
    reveal_strlit("scalex");
    reveal_strlit("scaley");
    reveal_strlit("spacing");
    reveal_strlit("angle");
    reveal_strlit("borderstyle");
    reveal_strlit("outline");
    reveal_strlit("shadow");
    reveal_strlit("alignment");
    reveal_strlit("marginl");
    reveal_strlit("marginr");
    reveal_strlit("marginv");
    reveal_strlit("alphalevel");
    reveal_strlit("encoding");
    assert("scalex"@.len() == 6 && "name"@.len() == 4);
    assert("scalex"@.len() == 6 && "fontname"@.len() == 8);
    assert("scalex"@.len() == 6 && "fontsize"@.len() == 8);
    assert("scalex"@.len() == 6 && "primarycolour"@.len() == 13);
    assert("scalex"@.len() == 6 && "secondarycolour"@.len() == 15);
    assert("scalex"@.len() == 6 && "outlinecolour"@.len() == 13);
    assert("scalex"@.len() == 6 && "tertiarycolour"@.len() == 14);
    assert("scalex"@.len() == 6 && "backcolour"@.len() == 10);
    assert("scalex"@.len() == 6 && "bold"@.len() == 4);
    assert("scalex"@[0] == 's' && "italic"@[0] == 'i');
    assert("scalex"@.len() == 6 && "underline"@.len() == 9);
    assert("scalex"@.len() == 6 && "strikeout"@.len() == 9);
}

/// The `ScaleY` column keeps its text (trimmed) in its own field and changes
/// nothing else.
pub proof fn lemma_scaley_column(st: StyleView, v: Seq<char>)
    ensures
        apply_style_field(st, "scaley"@, v).scale_y == trim(v),
        apply_style_field(st, "scaley"@, v) == (StyleView { scale_y: apply_style_field(st, "scaley"@, v).scale_y, ..st }),
{
    reveal_strlit("name");
    reveal_strlit("fontname");
    reveal_strlit("fontsize");
    reveal_strlit("primarycolour");
    reveal_strlit("secondarycolour");
    reveal_strlit("outlinecolour");
    reveal_strlit("tertiarycolour");
    reveal_strlit("backcolour");
    reveal_strlit("bold");
    reveal_strlit("italic");
    reveal_strlit("underline");
    reveal_strlit("strikeout");
    reveal_strlit("scalex");
    reveal_strlit("scaley");
    reveal_strlit("spacing");
    reveal_strlit("angle");
    reveal_strlit("borderstyle");
    reveal_strlit("outline");
    reveal_strlit("shadow");
    reveal_strlit("alignment");
    reveal_strlit("marginl");
    reveal_strlit("marginr");
    reveal_strlit("marginv");
    reveal_strlit("alphalevel");
    reveal_strlit("encoding");
    assert("scaley"@.len() == 6 && "name"@.len() == 4);
    assert("scaley"@.len() == 6 && "fontname"@.len() == 8);
    assert("scaley"@.len() == 6 && "fontsize"@.len() == 8);
    assert("scaley"@.len() == 6 && "primarycolour"@.len() == 13);
    assert("scaley"@.len() == 6 && "secondarycolour"@.len() == 15);
    assert("scaley"@.len() == 6 && "outlinecolour"@.len() == 13);
    assert("scaley"@.len() == 6 && "tertiarycolour"@.len() == 14);
    assert("scaley"@.len() == 6 && "backcolour"@.len() == 10);
    assert("scaley"@.len() == 6 && "bold"@.len() == 4);
    assert("scaley"@[0] == 's' && "italic"@[0] == 'i');
    assert("scaley"@.len() == 6 && "underline"@.len() == 9);
    assert("scaley"@.len() == 6 && "strikeout"@.len() == 9);
    assert("scaley"@[5] == 'y' && "scalex"@[5] == 'x');
}

/// The `Spacing` column keeps its text (trimmed) in its own field and changes
/// nothing else.
pub proof fn lemma_spacing_column(st: StyleView, v: Seq<char>)
    ensures
        apply_style_field(st, "spacing"@, v).spacing == trim(v),
        apply_style_field(st, "spacing"@, v) == (StyleView { spacing: apply_style_field(st, "spacing"@, v).spacing, ..st }),
{
    reveal_strlit("name");
    reveal_strlit("fontname");
    reveal_strlit("fontsize");
    reveal_strlit("primarycolour");
    reveal_strlit("secondarycolour");
    reveal_strlit("outlinecolour");
    reveal_strlit("tertiarycolour");
    reveal_strlit("backcolour");
    reveal_strlit("bold");
    reveal_strlit("italic");
    reveal_strlit("underline");
    reveal_strlit("strikeout");
    reveal_strlit("scalex");
    reveal_strlit("scaley");
    reveal_strlit("spacing");
    reveal_strlit("angle");
    reveal_strlit("borderstyle");
    reveal_strlit("outline");
    reveal_strlit("shadow");
    reveal_strlit("alignment");
    reveal_strlit("marginl");
    reveal_strlit("marginr");
    reveal_strlit("marginv");
    reveal_strlit("alphalevel");
    reveal_strlit("encoding");
    assert("spacing"@.len() == 7 && "name"@.len() == 4);
    assert("spacing"@.len() == 7 && "fontname"@.len() == 8);
    assert("spacing"@.len() == 7 && "fontsize"@.len() == 8);
    assert("spacing"@.len() == 7 && "primarycolour"@.len() == 13);
    assert("spacing"@.len() == 7 && "secondarycolour"@.len() == 15);
    assert("spacing"@.len() == 7 && "outlinecolour"@.len() == 13);
    assert("spacing"@.len() == 7 && "tertiarycolour"@.len() == 14);
    assert("spacing"@.len() == 7 && "backcolour"@.len() == 10);
    assert("spacing"@.len() == 7 && "bold"@.len() == 4);
    assert("spacing"@.len() == 7 && "italic"@.len() == 6);
    assert("spacing"@.len() == 7 && "underline"@.len() == 9);
    assert("spacing"@.len() == 7 && "strikeout"@.len() == 9);
    assert("spacing"@.len() == 7 && "scalex"@.len() == 6);
    assert("spacing"@.len() == 7 && "scaley"@.len() == 6);
}

/// The `Angle` column keeps its text (trimmed) in its own field and changes
/// nothing else.
pub proof fn lemma_angle_column(st: StyleView, v: Seq<char>)
    ensures
        apply_style_field(st, "angle"@, v).angle == trim(v),
        apply_style_field(st, "angle"@, v) == (StyleView { angle: apply_style_field(st, "angle"@, v).angle, ..st }),
{
    reveal_strlit("name");
    reveal_strlit("fontname");
    reveal_strlit("fontsize");
    reveal_strlit("primarycolour");
    reveal_strlit("secondarycolour");
    reveal_strlit("outlinecolour");
    reveal_strlit("tertiarycolour");
    reveal_strlit("backcolour");
    reveal_strlit("bold");
    reveal_strlit("italic");
    reveal_strlit("underline");
    reveal_strlit("strikeout");
    reveal_strlit("scalex");
    reveal_strlit("scaley");
    reveal_strlit("spacing");
    reveal_strlit("angle");
    reveal_strlit("borderstyle");
    reveal_strlit("outline");
    reveal_strlit("shadow");
    reveal_strlit("alignment");
    reveal_strlit("marginl");
    reveal_strlit("marginr");
    reveal_strlit("marginv");
    reveal_strlit("alphalevel");
    reveal_strlit("encoding");
    assert("angle"@.len() == 5 && "name"@.len() == 4);
    assert("angle"@.len() == 5 && "fontname"@.len() == 8);
    assert("angle"@.len() == 5 && "fontsize"@.len() == 8);
    assert("angle"@.len() == 5 && "primarycolour"@.len() == 13);
    assert("angle"@.len() == 5 && "secondarycolour"@.len() == 15);
    assert("angle"@.len() == 5 && "outlinecolour"@.len() == 13);
    assert("angle"@.len() == 5 && "tertiarycolour"@.len() == 14);
    assert("angle"@.len() == 5 && "backcolour"@.len() == 10);
    assert("angle"@.len() == 5 && "bold"@.len() == 4);
    assert("angle"@.len() == 5 && "italic"@.len() == 6);
    assert("angle"@.len() == 5 && "underline"@.len() == 9);
    assert("angle"@.len() == 5 && "strikeout"@.len() == 9);
    assert("angle"@.len() == 5 && "scalex"@.len() == 6);
    assert("angle"@.len() == 5 && "scaley"@.len() == 6);
    assert("angle"@.len() == 5 && "spacing"@.len() == 7);
}

/// The `Outline` column keeps its text (trimmed) in its own field and changes
/// nothing else.
pub proof fn lemma_outline_column(st: StyleView, v: Seq<char>)
    ensures
        apply_style_field(st, "outline"@, v).outline == trim(v),
        apply_style_field(st, "outline"@, v) == (StyleView { outline: apply_style_field(st, "outline"@, v).outline, ..st }),
{
    reveal_strlit("name");
    reveal_strlit("fontname");
    reveal_strlit("fontsize");
    reveal_strlit("primarycolour");
    reveal_strlit("secondarycolour");
    reveal_strlit("outlinecolour");
    reveal_strlit("tertiarycolour");
    reveal_strlit("backcolour");
    reveal_strlit("bold");
    reveal_strlit("italic");
    reveal_strlit("underline");
    reveal_strlit("strikeout");
    reveal_strlit("scalex");
    reveal_strlit("scaley");
    reveal_strlit("spacing");
    reveal_strlit("angle");
    reveal_strlit("borderstyle");
    reveal_strlit("outline");
    reveal_strlit("shadow");
    reveal_strlit("alignment");
    reveal_strlit("marginl");
    reveal_strlit("marginr");
    reveal_strlit("marginv");
    reveal_strlit("alphalevel");
    reveal_strlit("encoding");
    assert("outline"@.len() == 7 && "name"@.len() == 4);
    assert("outline"@.len() == 7 && "fontname"@.len() == 8);
    assert("outline"@.len() == 7 && "fontsize"@.len() == 8);
    assert("outline"@.len() == 7 && "primarycolour"@.len() == 13);
    assert("outline"@.len() == 7 && "secondarycolour"@.len() == 15);
    assert("outline"@.len() == 7 && "outlinecolour"@.len() == 13);
    assert("outline"@.len() == 7 && "tertiarycolour"@.len() == 14);
    assert("outline"@.len() == 7 && "backcolour"@.len() == 10);
    assert("outline"@.len() == 7 && "bold"@.len() == 4);
    assert("outline"@.len() == 7 && "italic"@.len() == 6);
    assert("outline"@.len() == 7 && "underline"@.len() == 9);
    assert("outline"@.len() == 7 && "strikeout"@.len() == 9);
    assert("outline"@.len() == 7 && "scalex"@.len() == 6);
    assert("outline"@.len() == 7 && "scaley"@.len() == 6);
    assert("outline"@[0] == 'o' && "spacing"@[0] == 's');
    assert("outline"@.len() == 7 && "angle"@.len() == 5);
    assert("outline"@.len() == 7 && "borderstyle"@.len() == 11);
}

/// The `Shadow` column keeps its text (trimmed) in its own field and changes
/// nothing else.
pub proof fn lemma_shadow_column(st: StyleView, v: Seq<char>)
    ensures
        apply_style_field(st, "shadow"@, v).shadow == trim(v),
        apply_style_field(st, "shadow"@, v) == (StyleView { shadow: apply_style_field(st, "shadow"@, v).shadow, ..st }),
{
    reveal_strlit("name");
    reveal_strlit("fontname");
    reveal_strlit("fontsize");
    reveal_strlit("primarycolour");
    reveal_strlit("secondarycolour");
    reveal_strlit("outlinecolour");
    reveal_strlit("tertiarycolour");
    reveal_strlit("backcolour");
    reveal_strlit("bold");
    reveal_strlit("italic");
    reveal_strlit("underline");
    reveal_strlit("strikeout");
    reveal_strlit("scalex");
    reveal_strlit("scaley");
    reveal_strlit("spacing");
    reveal_strlit("angle");
    reveal_strlit("borderstyle");
    reveal_strlit("outline");
    reveal_strlit("shadow");
    reveal_strlit("alignment");
    reveal_strlit("marginl");
    reveal_strlit("marginr");
    reveal_strlit("marginv");
    reveal_strlit("alphalevel");
    reveal_strlit("encoding");
    assert("shadow"@.len() == 6 && "name"@.len() == 4);
    assert("shadow"@.len() == 6 && "fontname"@.len() == 8);
    assert("shadow"@.len() == 6 && "fontsize"@.len() == 8);
    assert("shadow"@.len() == 6 && "primarycolour"@.len() == 13);
    assert("shadow"@.len() == 6 && "secondarycolour"@.len() == 15);
    assert("shadow"@.len() == 6 && "outlinecolour"@.len() == 13);
    assert("shadow"@.len() == 6 && "tertiarycolour"@.len() == 14);
    assert("shadow"@.len() == 6 && "backcolour"@.len() == 10);
    assert("shadow"@.len() == 6 && "bold"@.len() == 4);
    assert("shadow"@[0] == 's' && "italic"@[0] == 'i');
    assert("shadow"@.len() == 6 && "underline"@.len() == 9);
    assert("shadow"@.len() == 6 && "strikeout"@.len() == 9);
    assert("shadow"@[1] == 'h' && "scalex"@[1] == 'c');
    assert("shadow"@[1] == 'h' && "scaley"@[1] == 'c');
    assert("shadow"@.len() == 6 && "spacing"@.len() == 7);
    assert("shadow"@.len() == 6 && "angle"@.len() == 5);
    assert("shadow"@.len() == 6 && "borderstyle"@.len() == 11);
    assert("shadow"@.len() == 6 && "outline"@.len() == 7);
}

/// The SSA v4.00 column order: `Name, Fontname, Fontsize, PrimaryColour,
/// SecondaryColour, TertiaryColour, BackColour, Bold, Italic, BorderStyle,
/// Outline, Shadow, Alignment, MarginL, MarginR, MarginV, AlphaLevel,
/// Encoding`.
pub proof fn lemma_ssa_column_order()
    ensures
        ssa_default_columns().len() == 18,
        ssa_default_columns()[0] == "name"@,
        ssa_default_columns()[1] == "fontname"@,
        ssa_default_columns()[2] == "fontsize"@,
        ssa_default_columns()[3] == "primarycolour"@,
        ssa_default_columns()[4] == "secondarycolour"@,
        ssa_default_columns()[5] == "tertiarycolour"@,
        ssa_default_columns()[6] == "backcolour"@,
        ssa_default_columns()[7] == "bold"@,
        ssa_default_columns()[8] == "italic"@,
        ssa_default_columns()[9] == "borderstyle"@,
        ssa_default_columns()[10] == "outline"@,
        ssa_default_columns()[11] == "shadow"@,
        ssa_default_columns()[12] == "alignment"@,
        ssa_default_columns()[13] == "marginl"@,
        ssa_default_columns()[14] == "marginr"@,
        ssa_default_columns()[15] == "marginv"@,
        ssa_default_columns()[16] == "alphalevel"@,
        ssa_default_columns()[17] == "encoding"@,
{
}

proof fn lemma_other_column_keeps_underline(st: StyleView, col: Seq<char>, v: Seq<char>)
    requires
        col != "underline"@,
    ensures
        apply_style_field(st, col, v).underline == st.underline,
{
}

proof fn lemma_fields_keep_underline(st: StyleView, cols: Seq<Seq<char>>, fields: Seq<Seq<char>>, j: int)
    requires
        0 <= j,
        forall|i: int| j <= i < cols.len() ==> cols[i] != "underline"@,
    ensures
        style_fields(st, cols, fields, j).underline == st.underline,
    decreases cols.len() - j,
{
    if j < cols.len() && j < fields.len() {
        lemma_other_column_keeps_underline(st, cols[j], fields[j]);
        lemma_fields_keep_underline(apply_style_field(st, cols[j], fields[j]), cols, fields, j + 1);
    }
}

/// Read under any column list in which `underline` stands once, at `k`,
/// a style's underline flag is the flag written in field `k`, whatever the
/// other columns hold.
pub proof fn lemma_underline_from_its_column(
    st: StyleView,
    cols: Seq<Seq<char>>,
    fields: Seq<Seq<char>>,
    j: int,
    k: int,
)
    requires
        0 <= j <= k < cols.len(),
        k < fields.len(),
        cols[k] == "underline"@,
        forall|i: int| j <= i < cols.len() && i != k ==> cols[i] != "underline"@,
    ensures
        style_fields(st, cols, fields, j).underline == written_flag(fields[k]),
    decreases k - j,
{
    let next = apply_style_field(st, cols[j], fields[j]);
    if j == k {
        lemma_underline_column(st, fields[k]);
        lemma_fields_keep_underline(next, cols, fields, j + 1);
    } else {
        lemma_other_column_keeps_underline(st, cols[j], fields[j]);
        lemma_underline_from_its_column(next, cols, fields, j + 1, k);
    }
}

proof fn lemma_other_column_keeps_strikeout(st: StyleView, col: Seq<char>, v: Seq<char>)
    requires
        col != "strikeout"@,
    ensures
        apply_style_field(st, col, v).strike_out == st.strike_out,
{
}

proof fn lemma_fields_keep_strikeout(st: StyleView, cols: Seq<Seq<char>>, fields: Seq<Seq<char>>, j: int)
    requires
        0 <= j,
        forall|i: int| j <= i < cols.len() ==> cols[i] != "strikeout"@,
    ensures
        style_fields(st, cols, fields, j).strike_out == st.strike_out,
    decreases cols.len() - j,
{
    if j < cols.len() && j < fields.len() {
        lemma_other_column_keeps_strikeout(st, cols[j], fields[j]);
        lemma_fields_keep_strikeout(apply_style_field(st, cols[j], fields[j]), cols, fields, j + 1);
    }
}

/// Read under any column list in which `strikeout` stands once, at `k`,
/// a style's strike_out flag is the flag written in field `k`, whatever the
/// other columns hold.
pub proof fn lemma_strikeout_from_its_column(
    st: StyleView,
    cols: Seq<Seq<char>>,
    fields: Seq<Seq<char>>,
    j: int,
    k: int,
)
    requires
        0 <= j <= k < cols.len(),
        k < fields.len(),
        cols[k] == "strikeout"@,
        forall|i: int| j <= i < cols.len() && i != k ==> cols[i] != "strikeout"@,
    ensures
        style_fields(st, cols, fields, j).strike_out == written_flag(fields[k]),
    decreases k - j,
{
    let next = apply_style_field(st, cols[j], fields[j]);
    if j == k {
        lemma_strikeout_column(st, fields[k]);
        lemma_fields_keep_strikeout(next, cols, fields, j + 1);
    } else {
        lemma_other_column_keeps_strikeout(st, cols[j], fields[j]);
        lemma_strikeout_from_its_column(next, cols, fields, j + 1, k);
    }
}

/// A style line read under the V4+ columns (no `Format:` line): its
/// underline flag is what the tenth field (`Underline`) says and its
/// strike-out flag what the eleventh (`StrikeOut`) says.
pub proof fn lemma_v4plus_line_flags(data: Seq<char>)
    requires
        spec_style_line(data, None, false) is Ok,
        split_all(data, ',').len() > 10,
    ensures
        spec_style_line(data, None, false)->Ok_0.underline == written_flag(split_all(data, ',')[9]),
        spec_style_line(data, None, false)->Ok_0.strike_out == written_flag(split_all(data, ',')[10]),
{
    let cols = v4plus_columns();
    let fields = split_all(data, ',');
    lemma_v4plus_column_order();
    assert forall|i: int| 0 <= i < cols.len() && i != 9 implies cols[i] != "underline"@ by {
        reveal_strlit("name");
        reveal_strlit("fontname");
        reveal_strlit("fontsize");
        reveal_strlit("primarycolour");
        reveal_strlit("secondarycolour");
        reveal_strlit("outlinecolour");
        reveal_strlit("backcolour");
        reveal_strlit("bold");
        reveal_strlit("italic");
        reveal_strlit("underline");
        reveal_strlit("strikeout");
        reveal_strlit("scalex");
        reveal_strlit("scaley");
        reveal_strlit("spacing");
        reveal_strlit("angle");
        reveal_strlit("borderstyle");
        reveal_strlit("outline");
        reveal_strlit("shadow");
        reveal_strlit("alignment");
        reveal_strlit("marginl");
        reveal_strlit("marginr");
        reveal_strlit("marginv");
        reveal_strlit("encoding");
        assert("underline"@.len() == 9 && "name"@.len() == 4);
        assert("underline"@.len() == 9 && "fontname"@.len() == 8);
        assert("underline"@.len() == 9 && "fontsize"@.len() == 8);
        assert("underline"@.len() == 9 && "primarycolour"@.len() == 13);
        assert("underline"@.len() == 9 && "secondarycolour"@.len() == 15);
        assert("underline"@.len() == 9 && "outlinecolour"@.len() == 13);
        assert("underline"@.len() == 9 && "backcolour"@.len() == 10);
        assert("underline"@.len() == 9 && "bold"@.len() == 4);
        assert("underline"@.len() == 9 && "italic"@.len() == 6);
        assert("underline"@[0] == 'u' && "strikeout"@[0] == 's');
        assert("underline"@.len() == 9 && "scalex"@.len() == 6);
        assert("underline"@.len() == 9 && "scaley"@.len() == 6);
        assert("underline"@.len() == 9 && "spacing"@.len() == 7);
        assert("underline"@.len() == 9 && "angle"@.len() == 5);
        assert("underline"@.len() == 9 && "borderstyle"@.len() == 11);
        assert("underline"@.len() == 9 && "outline"@.len() == 7);
        assert("underline"@.len() == 9 && "shadow"@.len() == 6);
        assert("underline"@[0] == 'u' && "alignment"@[0] == 'a');
        assert("underline"@.len() == 9 && "marginl"@.len() == 7);
        assert("underline"@.len() == 9 && "marginr"@.len() == 7);
        assert("underline"@.len() == 9 && "marginv"@.len() == 7);
        assert("underline"@.len() == 9 && "encoding"@.len() == 8);
    }
    assert forall|i: int| 0 <= i < cols.len() && i != 10 implies cols[i] != "strikeout"@ by {
        reveal_strlit("name");
        reveal_strlit("fontname");
        reveal_strlit("fontsize");
        reveal_strlit("primarycolour");
        reveal_strlit("secondarycolour");
        reveal_strlit("outlinecolour");
        reveal_strlit("backcolour");
        reveal_strlit("bold");
        reveal_strlit("italic");
        reveal_strlit("underline");
        reveal_strlit("strikeout");
        reveal_strlit("scalex");
        reveal_strlit("scaley");
        reveal_strlit("spacing");
        reveal_strlit("angle");
        reveal_strlit("borderstyle");
        reveal_strlit("outline");
        reveal_strlit("shadow");
        reveal_strlit("alignment");
        reveal_strlit("marginl");
        reveal_strlit("marginr");
        reveal_strlit("marginv");
        reveal_strlit("encoding");
        assert("strikeout"@.len() == 9 && "name"@.len() == 4);
        assert("strikeout"@.len() == 9 && "fontname"@.len() == 8);
        assert("strikeout"@.len() == 9 && "fontsize"@.len() == 8);
        assert("strikeout"@.len() == 9 && "primarycolour"@.len() == 13);
        assert("strikeout"@.len() == 9 && "secondarycolour"@.len() == 15);
        assert("strikeout"@.len() == 9 && "outlinecolour"@.len() == 13);
        assert("strikeout"@.len() == 9 && "backcolour"@.len() == 10);
        assert("strikeout"@.len() == 9 && "bold"@.len() == 4);
        assert("strikeout"@.len() == 9 && "italic"@.len() == 6);
        assert("strikeout"@[0] == 's' && "underline"@[0] == 'u');
        assert("strikeout"@.len() == 9 && "scalex"@.len() == 6);
        assert("strikeout"@.len() == 9 && "scaley"@.len() == 6);
        assert("strikeout"@.len() == 9 && "spacing"@.len() == 7);
        assert("strikeout"@.len() == 9 && "angle"@.len() == 5);
        assert("strikeout"@.len() == 9 && "borderstyle"@.len() == 11);
        assert("strikeout"@.len() == 9 && "outline"@.len() == 7);
        assert("strikeout"@.len() == 9 && "shadow"@.len() == 6);
        assert("strikeout"@[0] == 's' && "alignment"@[0] == 'a');
        assert("strikeout"@.len() == 9 && "marginl"@.len() == 7);
        assert("strikeout"@.len() == 9 && "marginr"@.len() == 7);
        assert("strikeout"@.len() == 9 && "marginv"@.len() == 7);
        assert("strikeout"@.len() == 9 && "encoding"@.len() == 8);
    }
    lemma_underline_from_its_column(default_style(Seq::empty()), cols, fields, 0, 9);
    lemma_strikeout_from_its_column(default_style(Seq::empty()), cols, fields, 0, 10);
}

} // verus!
