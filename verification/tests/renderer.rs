use subrass::parser::attachment::encode_attachment_data;
use subrass::renderer::font::get_fallback_font;
use subrass::renderer::subtitle_renderer::{file_stem, push_warning, SubtitleRenderer, MAX_WARNINGS};

#[test]
fn test_embedded_garbage_font_does_not_break_renderer() {
    let ass = "[Script Info]\nScriptType: v4.00+\nPlayResX: 640\nPlayResY: 480\n\n[Fonts]\nfontname: Bad.ttf\n15*$\n";
    let renderer = SubtitleRenderer::new(ass).unwrap();
    let baseline = SubtitleRenderer::new("[Script Info]\nScriptType: v4.00+\nPlayResX: 640\nPlayResY: 480\n").unwrap();
    assert_eq!(renderer.font_count(), baseline.font_count());
    assert_eq!(renderer.warnings().len(), 1);
    assert!(renderer.warnings()[0].contains("Bad.ttf"));
}

#[test]
fn test_valid_embedded_font_loads_automatically() {
    let encoded = encode_attachment_data(get_fallback_font());
    let mut ass = String::from(
        "[Script Info]\nScriptType: v4.00+\nPlayResX: 640\nPlayResY: 480\n\n[Fonts]\nfontname: Embedded.ttf\n",
    );
    for line in encoded.as_bytes().chunks(80) {
        ass.push_str(std::str::from_utf8(line).unwrap());
        ass.push('\n');
    }
    let renderer = SubtitleRenderer::new(&ass).unwrap();
    assert!(renderer.warnings().is_empty());
    let baseline = SubtitleRenderer::new("[Script Info]\nScriptType: v4.00+\nPlayResX: 640\nPlayResY: 480\n").unwrap();
    assert_eq!(renderer.font_count(), baseline.font_count() + 1);
}

#[test]
fn test_resize_keeps_state_consistent() {
    let ass = "[Script Info]\nScriptType: v4.00+\nPlayResX: 640\nPlayResY: 480\n\n[Events]\nFormat: Layer, Start, End, Style, Name, MarginL, MarginR, MarginV, Effect, Text\nDialogue: 0,0:00:01.00,0:00:04.00,Default,,0,0,0,,Hi";
    let mut renderer = SubtitleRenderer::new(ass).unwrap();
    renderer.resize(640, 360).unwrap();
    assert_eq!(renderer.frame_size(), (640, 360));
    assert_eq!(renderer.frame_data().len(), 640 * 360 * 4);
    assert!(renderer.resize(0, 100).is_err());
    assert!(renderer.set_video_size(u32::MAX, u32::MAX).is_err());
    assert_eq!(renderer.frame_size(), (640, 360));
}

#[test]
fn renderer_starts_with_the_fallback_face_and_play_resolution() {
    let r = SubtitleRenderer::new("[Script Info]\nScriptType: v4.00+\nPlayResX: 320\nPlayResY: 240\n").unwrap();
    assert_eq!(r.font_count(), 1);
    assert_eq!(r.frame_size(), (320, 240));
    assert_eq!(r.get_play_resolution(), (320, 240));
    assert!(r.frame_data().iter().all(|b| *b == 0));
    assert!(r.warnings().is_empty());
    assert_eq!(r.document().events.len(), 0);
}

#[test]
fn renderer_reports_parse_errors_and_bad_play_resolution() {
    let e = SubtitleRenderer::new(
        "[Script Info]\nScriptType: v4.00+\nPlayResX: 640\nPlayResY: 480\n\n[Fonts]\nfontname: bad.ttf\n15*$!\n",
    )
    .err()
    .unwrap();
    assert!(e.starts_with("Failed to parse ASS: "), "{e}");
    let e = SubtitleRenderer::new("[Script Info]\nScriptType: v4.00+\nPlayResX: 100000\nPlayResY: 10\n")
        .err()
        .unwrap();
    assert!(e.starts_with("Invalid play resolution: "), "{e}");
}

#[test]
fn renderer_warns_once_per_distinct_failure() {
    let ass = "[Script Info]\nScriptType: v4.00+\nPlayResX: 640\nPlayResY: 480\n\n[Fonts]\nfontname: Bad.ttf\n15*$\nfontname: Bad.ttf\n15*$\nfontname: Other.otf\n15*$\n";
    let r = SubtitleRenderer::new(ass).unwrap();
    assert_eq!(r.warnings().len(), 2);
    assert!(r.warnings()[0].starts_with("Failed to load embedded font Bad.ttf: "));
    assert!(r.warnings()[1].starts_with("Failed to load embedded font Other.otf: "));
}

#[test]
fn renderer_load_font_adds_a_face() {
    let mut r = SubtitleRenderer::new("[Script Info]\nScriptType: v4.00+\nPlayResX: 640\nPlayResY: 480\n").unwrap();
    assert_eq!(r.load_font("Extra", get_fallback_font()), Ok(1));
    assert_eq!(r.font_count(), 2);
    assert!(r.load_font("Broken", b"not a font").is_err());
    assert_eq!(r.font_count(), 2);
}

#[test]
fn push_warning_dedups_and_caps() {
    let mut ws: Vec<String> = Vec::new();
    push_warning(&mut ws, "a".to_string());
    push_warning(&mut ws, "a".to_string());
    assert_eq!(ws, vec!["a".to_string()]);
    for i in 0..200 {
        push_warning(&mut ws, format!("w{i}"));
    }
    assert_eq!(ws.len(), MAX_WARNINGS);
    assert_eq!(ws[1], "w0");
}

#[test]
fn file_stem_drops_the_last_extension() {
    assert_eq!(file_stem("Font.Bold.ttf"), "Font.Bold");
    assert_eq!(file_stem("NoExt"), "NoExt");
    assert_eq!(file_stem(".hidden"), "");
}
