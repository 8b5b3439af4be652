//! Named styles of the `[V4+ Styles]` / `[V4 Styles]` sections.
//!
//! Fractional fields (font size, scales, spacing, angle, outline and
//! shadow widths) keep the field's trimmed source text; the renderer reads
//! them as numbers, an unreadable text counting as zero.
use crate::text::string_of_str;
use crate::types::color::Color;
use vstd::prelude::*;

verus! {

/// One `Style:` line.
#[derive(Debug, Clone)]
pub struct Style {
    pub name: String,
    pub font_name: String,
    pub font_size: String,
    pub primary_color: Color,
    pub secondary_color: Color,
    pub outline_color: Color,
    pub back_color: Color,
    pub bold: bool,
    pub italic: bool,
    pub underline: bool,
    pub strike_out: bool,
    pub scale_x: String,
    pub scale_y: String,
    pub spacing: String,
    pub angle: String,
    pub border_style: i32,
    pub outline: String,
    pub shadow: String,
    pub alignment: i32,
    pub margin_l: i32,
    pub margin_r: i32,
    pub margin_v: i32,
    pub encoding: i32,
}

pub struct StyleView {
    pub name: Seq<char>,
    pub font_name: Seq<char>,
    pub font_size: Seq<char>,
    pub primary_color: Color,
    pub secondary_color: Color,
    pub outline_color: Color,
    pub back_color: Color,
    pub bold: bool,
    pub italic: bool,
    pub underline: bool,
    pub strike_out: bool,
    pub scale_x: Seq<char>,
    pub scale_y: Seq<char>,
    pub spacing: Seq<char>,
    pub angle: Seq<char>,
    pub border_style: i32,
    pub outline: Seq<char>,
    pub shadow: Seq<char>,
    pub alignment: i32,
    pub margin_l: i32,
    pub margin_r: i32,
    pub margin_v: i32,
    pub encoding: i32,
}

impl View for Style {
    type V = StyleView;

    open spec fn view(&self) -> StyleView {
        StyleView {
            name: self.name@,
            font_name: self.font_name@,
            font_size: self.font_size@,
            primary_color: self.primary_color,
            secondary_color: self.secondary_color,
            outline_color: self.outline_color,
            back_color: self.back_color,
            bold: self.bold,
            italic: self.italic,
            underline: self.underline,
            strike_out: self.strike_out,
            scale_x: self.scale_x@,
            scale_y: self.scale_y@,
            spacing: self.spacing@,
            angle: self.angle@,
            border_style: self.border_style,
            outline: self.outline@,
            shadow: self.shadow@,
            alignment: self.alignment,
            margin_l: self.margin_l,
            margin_r: self.margin_r,
            margin_v: self.margin_v,
            encoding: self.encoding,
        }
    }
}

/// The style a line starts from before its fields are read: Arial 18,
/// white text, red secondary, black outline and shadow, 100% scale,
/// outline and shadow 2, bottom-centre alignment, margins 20.
pub open spec fn default_style(name: Seq<char>) -> StyleView {
    StyleView {
        name,
        font_name: "Arial"@,
        font_size: "18"@,
        primary_color: Color { alpha: 0, blue: 0xFF, green: 0xFF, red: 0xFF },
        secondary_color: Color { alpha: 0, blue: 0, green: 0, red: 0xFF },
        outline_color: Color { alpha: 0, blue: 0, green: 0, red: 0 },
        back_color: Color { alpha: 0, blue: 0, green: 0, red: 0 },
        bold: false,
        italic: false,
        underline: false,
        strike_out: false,
        scale_x: "100"@,
        scale_y: "100"@,
        spacing: "0"@,
        angle: "0"@,
        border_style: 1,
        outline: "2"@,
        shadow: "2"@,
        alignment: 2,
        margin_l: 20,
        margin_r: 20,
        margin_v: 20,
        encoding: 1,
    }
}

impl Style {
    /// A style named `name` with the default field values.
    pub fn new(name: &str) -> (s: Style)
        ensures
            s@ == default_style(name@),
    {
        Style {
            name: string_of_str(name),
            font_name: string_of_str("Arial"),
            font_size: string_of_str("18"),
            primary_color: Color { alpha: 0, blue: 0xFF, green: 0xFF, red: 0xFF },
            secondary_color: Color { alpha: 0, blue: 0, green: 0, red: 0xFF },
            outline_color: Color { alpha: 0, blue: 0, green: 0, red: 0 },
            back_color: Color { alpha: 0, blue: 0, green: 0, red: 0 },
            bold: false,
            italic: false,
            underline: false,
            strike_out: false,
            scale_x: string_of_str("100"),
            scale_y: string_of_str("100"),
            spacing: string_of_str("0"),
            angle: string_of_str("0"),
            border_style: 1,
            outline: string_of_str("2"),
            shadow: string_of_str("2"),
            alignment: 2,
            margin_l: 20,
            margin_r: 20,
            margin_v: 20,
            encoding: 1,
        }
    }
}

} // verus!
