use subrass::renderer::clean_text::extract_clean_text;
use subrass::renderer::text_style::{
    apply_style_tag, apply_style_tags, base_text_style, reset_property, reset_text_style, ResetProperty,
    StyleTag,
};
use subrass::types::color::Color;
use subrass::types::style::Style;

fn col(alpha: u8, blue: u8, green: u8, red: u8) -> Color {
    Color { alpha, blue, green, red }
}

fn style() -> Style {
    Style {
        name: "Default".to_string(),
        font_name: "Arial".to_string(),
        font_size: "20".to_string(),
        primary_color: col(0, 255, 255, 255),
        secondary_color: col(0, 0, 0, 255),
        outline_color: col(0, 0, 0, 0),
        back_color: col(0x80, 0, 0, 0),
        bold: true,
        italic: false,
        underline: false,
        strike_out: false,
        scale_x: "100".to_string(),
        scale_y: "100".to_string(),
        spacing: "0".to_string(),
        angle: "0".to_string(),
        border_style: 1,
        outline: "2".to_string(),
        shadow: "2".to_string(),
        alignment: 2,
        margin_l: 10,
        margin_r: 10,
        margin_v: 10,
        encoding: 1,
    }
}

#[test]
fn text_style_starts_from_the_style() {
    let s = style();
    let t = base_text_style(&s);
    assert_eq!(t.font_name, "Arial");
    assert_eq!(t.font_weight, 700);
    assert_eq!(t.shadow_color, col(0x80, 0, 0, 0));
    assert_eq!(t.back_color, col(0x80, 0, 0, 0));
    assert_eq!(t.font_encoding, 1);
    assert_eq!(t.drawing_mode, 0);
    assert_eq!(t.wrap_style, None);
}

#[test]
fn text_style_tags_apply_in_order() {
    let s = style();
    let mut t = base_text_style(&s);
    apply_style_tags(
        &mut t,
        &s,
        &[
            StyleTag::Bold(300),
            StyleTag::Italic(true),
            StyleTag::FontName("Noto Sans".to_string()),
            StyleTag::ShadowColor(col(0, 1, 2, 3)),
            StyleTag::Alpha(0x40),
            StyleTag::PrimaryAlpha(0x10),
            StyleTag::WrapStyle(2),
        ],
    );
    assert_eq!(t.font_weight, 300);
    assert!(t.italic);
    assert_eq!(t.font_name, "Noto Sans");
    assert_eq!(t.color, col(0x10, 255, 255, 255));
    assert_eq!(t.secondary_color, col(0x40, 0, 0, 255));
    assert_eq!(t.shadow_color, col(0x40, 1, 2, 3));
    assert_eq!(t.back_color, col(0x40, 1, 2, 3));
    assert_eq!(t.wrap_style, Some(2));
}

#[test]
fn text_style_value_less_tags_restore_the_style() {
    let s = style();
    let mut t = base_text_style(&s);
    apply_style_tag(&mut t, &s, &StyleTag::Bold(0));
    apply_style_tag(&mut t, &s, &StyleTag::FontEncoding(128));
    apply_style_tag(&mut t, &s, &StyleTag::Reset(reset_property("b")));
    apply_style_tag(&mut t, &s, &StyleTag::Reset(reset_property("fe")));
    assert_eq!(t.font_weight, 700);
    assert_eq!(t.font_encoding, 1);
    assert_eq!(reset_property("fn"), ResetProperty::FontName);
    assert_eq!(reset_property("bord"), ResetProperty::Other);
    assert_eq!(reset_property(""), ResetProperty::Other);
}

#[test]
fn text_style_full_reset_keeps_wrap_style() {
    let s = style();
    let mut t = base_text_style(&s);
    apply_style_tags(&mut t, &s, &[StyleTag::Underline(true), StyleTag::WrapStyle(1), StyleTag::Drawing(1)]);
    reset_text_style(&mut t, &s);
    assert!(!t.underline);
    assert_eq!(t.wrap_style, Some(1));
    assert_eq!(t.drawing_mode, 0);
}

#[test]
fn clean_text_drops_blocks_and_maps_escapes() {
    assert_eq!(extract_clean_text("{\\b1}Hello\\Nworld", 0), ("Hello\nworld".to_string(), false));
    assert_eq!(extract_clean_text("a\\nb", 0), ("a b".to_string(), false));
    assert_eq!(extract_clean_text("a\\nb", 2), ("a\nb".to_string(), false));
    assert_eq!(extract_clean_text("a\\hb", 0), ("a\u{a0}b".to_string(), false));
}

#[test]
fn clean_text_drawing_mode_keeps_commands() {
    assert_eq!(extract_clean_text("{\\p1}m 0 0 l 10 0", 0), ("m 0 0 l 10 0".to_string(), true));
    assert_eq!(extract_clean_text("{\\p1}m 0 0{\\p0}x", 0), ("m 0 0x".to_string(), false));
    assert_eq!(extract_clean_text("{\\p1\\r}x", 0), ("x".to_string(), false));
}

#[test]
fn clean_text_stray_backslashes() {
    assert_eq!(extract_clean_text("a\\qb", 0), ("a\\qb".to_string(), false));
    assert_eq!(extract_clean_text("a\\", 0), ("a".to_string(), false));
}

#[test]
fn clean_text_plain_text_is_unchanged() {
    assert_eq!(extract_clean_text("Plain words, 123 — ünïcode", 0), ("Plain words, 123 — ünïcode".to_string(), false));
}
