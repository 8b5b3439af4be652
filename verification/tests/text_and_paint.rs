use subrass::renderer::buffer::RenderBuffer;
use subrass::renderer::drawing::DrawingParser;
use subrass::renderer::encoding::{
    block_font_encoding, decode_ass_bytes, decode_ass_text, decode_mixed_bytes, decode_symbol_bytes,
    decode_text_run,
};
use subrass::renderer::paint::{
    karaoke_outline_suppressed, paint_glyph_fill, paint_opaque_boxes, segment_drawing_mode,
    GlyphGeom,
};
use subrass::renderer::shaper::{
    cjk_break_between, cluster_font_picks, is_cjk_breakable, is_cjk_nobreak_before, is_cjk_open,
    is_combining_mark, is_right_to_left,
};
use subrass::types::color::Color;
use subrass::types::time::Time;

fn chars(s: &str) -> Vec<char> {
    s.chars().collect()
}

#[test]
fn time_parses_and_formats() {
    let t = Time::parse_chars(&chars("1:02:03.45")).unwrap();
    assert_eq!(t.to_millis(), 3_723_450);
    assert_eq!(t.format(), "1:02:03.45");
    assert_eq!(Time::parse_chars(&chars("0:00:01.5")).unwrap().millis, 1500);
    assert_eq!(Time::parse_chars(&chars("0:00:01.005")).unwrap().millis, 1005);
    assert_eq!(Time::parse_chars(&chars("0:00:07")).unwrap().millis, 7000);
    assert!(Time::parse_chars(&chars("0:60:00.00")).is_none());
    assert!(Time::parse_chars(&chars("0:00:60.00")).is_none());
    assert!(Time::parse_chars(&chars("00:01.00")).is_none());
    assert!(Time::parse_chars(&chars("0:00:01.0000")).is_none());
    assert!(Time::parse_chars(&chars("a:00:01.00")).is_none());
    assert_eq!(Time::from_millis(59_999).format(), "0:00:59.99");
    assert_eq!(Time::from_millis(0).format(), "0:00:00.00");
}

#[test]
fn formatted_time_parses_back_to_the_centisecond() {
    for ms in [0u64, 9, 10, 59_999, 3_723_456, 360_000_000_007] {
        let text: Vec<char> = Time::from_millis(ms).format().chars().collect();
        assert_eq!(Time::parse_chars(&text).unwrap().millis, ms - ms % 10);
    }
}

#[test]
fn colors_parse_in_ass_byte_order() {
    let c = Color::parse_chars(&chars("&H80FF8000&")).unwrap();
    assert_eq!((c.alpha, c.blue, c.green, c.red), (0x80, 0xFF, 0x80, 0x00));
    let c = Color::parse_chars(&chars("&H00FF00")).unwrap();
    assert_eq!((c.alpha, c.blue, c.green, c.red), (0, 0, 0xFF, 0));
    let c = Color::parse_chars(&chars("255")).unwrap();
    assert_eq!(c.red, 255);
    assert!(Color::parse_chars(&chars("&HXYZ")).is_none());
    assert!(Color::parse_chars(&chars("&H123456789")).is_none());
    assert_eq!(Color::from_value(0x11223344), Color { alpha: 0x11, blue: 0x22, green: 0x33, red: 0x44 });
    assert_eq!(Color::default(), Color { alpha: 0, blue: 0, green: 0, red: 0 });
}

#[test]
fn break_classes() {
    assert!(is_combining_mark('\u{0301}'));
    assert!(!is_combining_mark('a'));
    assert!(is_cjk_breakable('漢'));
    assert!(!is_cjk_breakable('a'));
    assert!(is_cjk_open('「'));
    assert!(is_cjk_nobreak_before('。'));
    assert!(is_right_to_left('א'));
    assert!(is_right_to_left('\u{0627}'));
    assert!(is_right_to_left('\u{202E}'));
    assert!(!is_right_to_left('a'));
    assert!(!is_right_to_left('漢'));
}

#[test]
fn cjk_break_opportunities() {
    assert!(cjk_break_between('漢', '字'));
    assert!(!cjk_break_between('a', 'b'));
    assert!(cjk_break_between('a', '漢'));
    assert!(!cjk_break_between('漢', '。'));
    assert!(!cjk_break_between('「', '漢'));
    assert!(!cjk_break_between('漢', '\u{0301}'));
    assert!(cjk_break_between('a', '\u{200B}'));
    assert!(!cjk_break_between('漢', '\u{00A0}'));
    assert!(!cjk_break_between('$', '5'));
}

#[test]
fn clusters_share_a_face_that_has_them_all() {
    // "e" + combining acute, then "x".
    let text = "e\u{0301}x";
    // Face 0 lacks the accent, face 1 has the whole cluster, only face 0 has x.
    let has = vec![vec![true, false, true], vec![true, true, false]];
    assert_eq!(cluster_font_picks(text, 2, &has), vec![1, 1, 0]);
    // No face covers the cluster: each char falls back on its own.
    let has = vec![vec![true, false, true], vec![false, true, false]];
    assert_eq!(cluster_font_picks(text, 2, &has), vec![0, 1, 0]);
    // Line breaks always take face 0; no face at all gives face 0.
    let has = vec![vec![false, false], vec![true, true]];
    assert_eq!(cluster_font_picks("a\n", 2, &has), vec![1, 0]);
    let none: Vec<Vec<bool>> = Vec::new();
    assert_eq!(cluster_font_picks("ab", 0, &none), vec![0, 0]);
}

#[test]
fn symbol_charset_maps_to_private_use() {
    assert_eq!(decode_symbol_bytes(&[0x41, 0xFF]), "\u{F041}\u{F0FF}");
    assert_eq!(decode_text_run(&chars("A\\Nb"), 2), "\u{F041}\\N\u{F062}");
    assert_eq!(decode_text_run(&chars("abc"), 1), "abc");
}

#[test]
fn legacy_code_page_runs_decode_latin1_range_chars() {
    // U+00CF U+00F0 read as Windows-1251 bytes: "Пр".
    assert_eq!(decode_text_run(&chars("\u{CF}\u{F0}"), 204), "Пр");
    assert_eq!(decode_text_run(&chars("\u{CF}漢"), 204), "П漢");
}

#[test]
fn override_blocks_set_the_charset() {
    assert_eq!(block_font_encoding(&chars("{\\b1\\fe204}")), Some(204));
    assert_eq!(block_font_encoding(&chars("{\\fe2\\fe 128}")), Some(128));
    assert_eq!(block_font_encoding(&chars("{\\b1}")), None);
    assert_eq!(
        decode_ass_text("\u{CF}{\\fe204}\u{CF}{\\fe1}\u{CF}", 1),
        "\u{CF}{\\fe204}П{\\fe1}\u{CF}"
    );
    assert_eq!(decode_ass_text("A{\\i1}B", 2), "\u{F041}{\\i1}\u{F042}");
}

#[test]
fn event_bytes_keep_blocks_and_decode_runs() {
    assert_eq!(decode_mixed_bytes(b"\xCF\xF0", 204), "Пр");
    assert_eq!(decode_mixed_bytes(&[0x41], 2), "\u{F041}");
    assert_eq!(decode_ass_bytes(b"\xCF{\\fe1}\xF0", 204), "П{\\fe1}\u{F0}");
}

#[test]
fn karaoke_outline_and_drawing_mode() {
    assert!(karaoke_outline_suppressed(99, 100));
    assert!(!karaoke_outline_suppressed(100, 100));
    assert_eq!(segment_drawing_mode(&[Some(1), None, Some(3), None], 0), 3);
    assert_eq!(segment_drawing_mode(&[None, None], 2), 2);
    assert_eq!(segment_drawing_mode(&[], 4), 4);
}

#[test]
fn glyph_fill_blends_covered_pixels_only() {
    let mut buf = RenderBuffer::new(4, 4).unwrap();
    let bitmap = [255u8, 0, 0, 255];
    let geom = GlyphGeom { w: 2, h: 2, gx: 1, gy: 1 };
    let pick = [([10u8, 20, 30, 0], 255u8), ([40u8, 50, 60, 0], 255u8)];
    paint_glyph_fill(&mut buf, &bitmap, geom, 255, &pick);
    assert_eq!(buf.get_pixel(1, 1), [10, 20, 30, 255]);
    assert_eq!(buf.get_pixel(2, 2), [40, 50, 60, 255]);
    assert_eq!(buf.get_pixel(2, 1), [0, 0, 0, 0]);
    assert_eq!(buf.get_pixel(0, 0), [0, 0, 0, 0]);
    // Half fade halves the alpha (floored).
    let mut buf = RenderBuffer::new(2, 2).unwrap();
    let geom = GlyphGeom { w: 1, h: 1, gx: 0, gy: 0 };
    paint_glyph_fill(&mut buf, &[255], geom, 128, &pick);
    assert_eq!(buf.get_pixel(0, 0)[3], 128);
    // A glyph placed off the buffer paints nothing.
    let mut buf = RenderBuffer::new(2, 2).unwrap();
    let geom = GlyphGeom { w: 1, h: 1, gx: -5, gy: 9 };
    paint_glyph_fill(&mut buf, &[255], geom, 255, &pick);
    assert!(buf.pixels.iter().all(|&p| p == 0));
}

#[test]
fn opaque_boxes_paint_shadows_first() {
    let mut buf = RenderBuffer::new(8, 8).unwrap();
    paint_opaque_boxes(
        &mut buf,
        &[(2, 2, 2, 2)],
        Some((1, 1)),
        0,
        0,
        [0, 0, 255, 255],
        [255, 0, 0, 255],
    );
    assert_eq!(buf.get_pixel(2, 2), [255, 0, 0, 255]);
    assert_eq!(buf.get_pixel(3, 3), [255, 0, 0, 255]);
    assert_eq!(buf.get_pixel(4, 4), [0, 0, 255, 255]);
    assert_eq!(buf.get_pixel(1, 1), [0, 0, 0, 0]);
    let mut buf = RenderBuffer::new(8, 8).unwrap();
    paint_opaque_boxes(&mut buf, &[(2, 2, 2, 2)], None, 1, 1, [0, 0, 255, 255], [255, 0, 0, 255]);
    assert_eq!(buf.get_pixel(1, 1), [255, 0, 0, 255]);
    assert_eq!(buf.get_pixel(4, 4), [255, 0, 0, 255]);
    assert_eq!(buf.get_pixel(5, 5), [0, 0, 0, 0]);
}

#[test]
fn drawing_whitespace_is_skipped() {
    let cs = chars("  \t m 0 0");
    assert_eq!(DrawingParser::skip_whitespace(&cs, 0), 4);
    assert_eq!(DrawingParser::skip_whitespace(&cs, 4), 4);
    assert_eq!(DrawingParser::skip_whitespace(&cs, 100), 100);
}
