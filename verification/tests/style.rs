use subrass::parser::style::{parse_styles, ssa_alignment_to_ass};
use subrass::types::style::Style;

const V4PLUS_FORMAT: &str = "Format: Name, Fontname, Fontsize, PrimaryColour, SecondaryColour, OutlineColour, BackColour, Bold, Italic, Underline, StrikeOut, ScaleX, ScaleY, Spacing, Angle, BorderStyle, Outline, Shadow, Alignment, MarginL, MarginR, MarginV, Encoding";
const SSA_FORMAT: &str = "Format: Name, Fontname, Fontsize, PrimaryColour, SecondaryColour, TertiaryColour, BackColour, Bold, Italic, BorderStyle, Outline, Shadow, Alignment, MarginL, MarginR, MarginV, AlphaLevel, Encoding";

fn number(text: &str) -> f64 {
    text.parse::<f64>().unwrap()
}

#[test]
fn test_parse_styles_basic() {
    let lines = vec![
        V4PLUS_FORMAT,
        "Style: Default,Arial,48,&H00FFFFFF,&H000000FF,&H00000000,&H80000000,-1,0,0,0,100,100,0,0,1,2,1,2,10,10,40,1",
    ];

    let styles = parse_styles(&lines, 0, false).unwrap();
    assert_eq!(styles.len(), 1);
    assert_eq!(styles[0].name, "Default");
    assert_eq!(styles[0].font_name, "Arial");
}

#[test]
fn test_parse_multiple_styles() {
    let lines = vec![
        V4PLUS_FORMAT,
        "Style: Default,Arial,48,&H00FFFFFF,&H000000FF,&H00000000,&H80000000,-1,0,0,0,100,100,0,0,1,2,1,2,10,10,40,1",
        "Style: Signs,Impact,64,&H0000FFFF,&H000000FF,&H00000000,&H80000000,-1,0,0,0,100,100,0,0,1,3,2,8,20,20,20,1",
    ];

    let styles = parse_styles(&lines, 0, false).unwrap();
    assert_eq!(styles.len(), 2);
    assert_eq!(styles[0].name, "Default");
    assert_eq!(styles[1].name, "Signs");
}

#[test]
fn test_parse_styles_skips_comments() {
    let lines = vec![
        "; This is a comment",
        V4PLUS_FORMAT,
        "Style: Default,Arial,48,&H00FFFFFF,&H000000FF,&H00000000,&H80000000,-1,0,0,0,100,100,0,0,1,2,1,2,10,10,40,1",
        "; Another comment",
    ];

    let styles = parse_styles(&lines, 0, false).unwrap();
    assert_eq!(styles.len(), 1);
}

#[test]
fn test_parse_styles_empty() {
    let lines: Vec<&str> = vec![];
    let styles = parse_styles(&lines, 0, false).unwrap();
    assert!(styles.is_empty());
}

#[test]
fn test_parse_ssa_v4_styles() {
    let lines = vec![
        SSA_FORMAT,
        "Style: Default,Arial,48,&HFFFF00,&H0000FF,&H000000,&H800000,-1,0,1,2,1,6,10,10,40,0,1",
    ];

    let styles = parse_styles(&lines, 0, true).unwrap();
    assert_eq!(styles.len(), 1);
    let style = &styles[0];
    assert_eq!(style.name, "Default");
    assert_eq!(style.font_name, "Arial");
    assert_eq!(number(&style.font_size), 48.0);
    assert_eq!(style.outline_color.blue, 0x00);
    assert!(style.bold);
    assert!(!style.italic);
    assert!(!style.underline);
    assert_eq!(number(&style.scale_x), 100.0);
    assert_eq!(style.alignment, 8);
}

#[test]
fn test_parse_ssa_styles_without_format_line() {
    let lines = vec![
        "Style: Default,Arial,48,&HFFFF00,&H0000FF,&H000000,&H800000,-1,0,1,2,1,10,10,10,40,0,1",
    ];

    let styles = parse_styles(&lines, 0, true).unwrap();
    assert_eq!(styles.len(), 1);
    assert_eq!(styles[0].name, "Default");
    assert_eq!(styles[0].alignment, 5);
}

#[test]
fn test_ssa_alpha_level_applies_to_colors() {
    let lines = vec![
        SSA_FORMAT,
        "Style: Default,Arial,48,&HFFFFFF,&H0000FF,&H000000,&H000000,0,0,1,2,1,2,10,10,40,32,1",
    ];

    let styles = parse_styles(&lines, 0, true).unwrap();
    assert_eq!(styles[0].primary_color.alpha, 32);
    assert_eq!(styles[0].outline_color.alpha, 32);
}

#[test]
fn test_reordered_v4plus_columns() {
    let lines = vec![
        "Format: Name, Fontsize, Fontname, Alignment, PrimaryColour",
        "Style: Minimal,36,Verdana,8,&H00FF00&",
    ];

    let styles = parse_styles(&lines, 0, false).unwrap();
    assert_eq!(styles.len(), 1);
    let style = &styles[0];
    assert_eq!(style.name, "Minimal");
    assert_eq!(number(&style.font_size), 36.0);
    assert_eq!(style.font_name, "Verdana");
    assert_eq!(style.alignment, 8);
    assert_eq!(style.primary_color.green, 0xFF);
    assert_eq!(number(&style.outline), 2.0);
}

#[test]
fn test_ssa_alignment_conversion() {
    assert_eq!(ssa_alignment_to_ass(2), 2);
    assert_eq!(ssa_alignment_to_ass(6), 8);
    assert_eq!(ssa_alignment_to_ass(10), 5);
    assert_eq!(ssa_alignment_to_ass(99), 2);
}

#[test]
fn ssa_alignment_covers_every_band() {
    for a in 1..=3 {
        assert_eq!(ssa_alignment_to_ass(a), a);
    }
    assert_eq!(ssa_alignment_to_ass(5), 7);
    assert_eq!(ssa_alignment_to_ass(7), 9);
    assert_eq!(ssa_alignment_to_ass(9), 4);
    assert_eq!(ssa_alignment_to_ass(11), 6);
    assert_eq!(ssa_alignment_to_ass(0), 2);
    assert_eq!(ssa_alignment_to_ass(4), 2);
    assert_eq!(ssa_alignment_to_ass(8), 2);
    assert_eq!(ssa_alignment_to_ass(-3), 2);
}

#[test]
fn new_style_has_the_documented_defaults() {
    let s = Style::new("Main");
    assert_eq!(s.name, "Main");
    assert_eq!(s.font_name, "Arial");
    assert_eq!(number(&s.font_size), 18.0);
    assert_eq!(s.primary_color.red, 0xFF);
    assert_eq!(s.primary_color.green, 0xFF);
    assert_eq!(s.primary_color.blue, 0xFF);
    assert_eq!(s.secondary_color.red, 0xFF);
    assert_eq!(s.secondary_color.blue, 0x00);
    assert_eq!(s.border_style, 1);
    assert_eq!(number(&s.outline), 2.0);
    assert_eq!(s.alignment, 2);
    assert_eq!(s.margin_l, 20);
    assert_eq!(s.encoding, 1);
}

#[test]
fn style_line_before_any_format_uses_default_columns() {
    let lines = vec![
        "Style: Bare,Tahoma,20,&H00112233,&H000000FF,&H00000000,&H80000000,0,-1,0,0,100,100,0,0,1,2,1,3,1,2,3,0",
    ];
    let styles = parse_styles(&lines, 0, false).unwrap();
    assert_eq!(styles.len(), 1);
    let s = &styles[0];
    assert_eq!(s.font_name, "Tahoma");
    assert!(!s.bold);
    assert!(s.italic);
    assert_eq!(s.primary_color.red, 0x33);
    assert_eq!(s.primary_color.green, 0x22);
    assert_eq!(s.primary_color.blue, 0x11);
    assert_eq!(s.alignment, 3);
    assert_eq!((s.margin_l, s.margin_r, s.margin_v), (1, 2, 3));
}
