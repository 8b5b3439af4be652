use subrass::parser::attachment::MAX_ATTACHMENTS;
use subrass::parser::input::{parse_bytes, parse_text, split_byte_lines, strip_utf8_bom};
use subrass::parser::{check_global_attachments, check_global_count, AssDocument};
use subrass::types::attachment::{Attachment, AttachmentKind};
use subrass::types::event::EventType;

const TEST_ASS: &str = r#"[Script Info]
; Test script
Title: Test
ScriptType: v4.00+
PlayResX: 1920
PlayResY: 1080

[V4+ Styles]
Format: Name, Fontname, Fontsize, PrimaryColour, SecondaryColour, OutlineColour, BackColour, Bold, Italic, Underline, StrikeOut, ScaleX, ScaleY, Spacing, Angle, BorderStyle, Outline, Shadow, Alignment, MarginL, MarginR, MarginV, Encoding
Style: Default,Arial,48,&H00FFFFFF,&H000000FF,&H00000000,&H80000000,-1,0,0,0,100,100,0,0,1,2,1,2,10,10,40,1

[Events]
Format: Layer, Start, End, Style, Name, MarginL, MarginR, MarginV, Effect, Text
Dialogue: 0,0:00:01.00,0:00:04.00,Default,John,0,0,0,,Hello World!
Comment: 0,0:00:00.00,0:00:30.00,Default,,0,0,0,,This is a comment
"#;

#[test]
fn test_parse_complete_document() {
    let doc = AssDocument::parse(TEST_ASS).unwrap();

    assert_eq!(doc.script_info.title.as_deref(), Some("Test"));
    assert_eq!(doc.script_info.play_res_x, 1920);
    assert_eq!(doc.styles.len(), 1);
    assert_eq!(doc.styles[0].name, "Default");
    assert_eq!(doc.events.len(), 2);
}

#[test]
fn test_parse_empty_document() {
    let doc = AssDocument::parse("").unwrap();
    assert!(doc.styles.is_empty());
    assert!(doc.events.is_empty());
}

#[test]
fn test_parse_ssa_v4_document() {
    let ssa = r#"[Script Info]
Title: SSA Test
ScriptType: v4.00
PlayResX: 640
PlayResY: 480

[V4 Styles]
Format: Name, Fontname, Fontsize, PrimaryColour, SecondaryColour, TertiaryColour, BackColour, Bold, Italic, BorderStyle, Outline, Shadow, Alignment, MarginL, MarginR, MarginV, AlphaLevel, Encoding
Style: Default,Arial,32,&HFFFF00,&H0000FF,&H000000,&H800000,-1,0,1,2,1,6,10,10,20,0,1

[Events]
Format: Marked, Start, End, Style, Name, MarginL, MarginR, MarginV, Effect, Text
Dialogue: Marked=0,0:00:01.00,0:00:04.00,Default,,0,0,0,,Hello SSA
"#;
    let doc = AssDocument::parse(ssa).unwrap();
    assert_eq!(doc.styles.len(), 1);
    assert_eq!(doc.styles[0].alignment, 8);
    assert_eq!(doc.styles[0].font_size.parse::<f64>().unwrap(), 32.0);
    assert_eq!(doc.events.len(), 1);
}

#[test]
fn test_parse_embedded_fonts_and_graphics() {
    let ass = "[Script Info]\nScriptType: v4.00+\n\n[Fonts]\nfontname: Test.ttf\n15*$\n\n[Graphics]\nfilename: logo.bmp\n15*$\n";
    let doc = AssDocument::parse(ass).unwrap();

    assert_eq!(doc.attachments.len(), 2);
    assert_eq!(doc.attachments[0].filename, "Test.ttf");
    assert_eq!(doc.attachments[0].kind, AttachmentKind::Font);
    assert_eq!(doc.attachments[0].data, b"ABC");
    assert_eq!(doc.attachments[1].filename, "logo.bmp");
    assert_eq!(doc.attachments[1].kind, AttachmentKind::Graphic);
    assert_eq!(doc.attachments[1].data, b"ABC");
}

#[test]
fn test_parse_invalid_content() {
    assert!(AssDocument::parse("This is not valid ASS content").is_err());
}

#[test]
fn test_parse_unknown_section_only() {
    assert!(AssDocument::parse("[Bogus Section]\nfoo: bar").is_err());
}

#[test]
fn test_parse_comments_only() {
    assert!(AssDocument::parse("; just a comment\n; another").is_err());
}

#[test]
fn test_get_event_count() {
    let doc = AssDocument::parse(TEST_ASS).unwrap();
    assert_eq!(doc.get_event_count(), 2);
}

#[test]
fn test_get_style_count() {
    let doc = AssDocument::parse(TEST_ASS).unwrap();
    assert_eq!(doc.get_style_count(), 1);
}

#[test]
fn test_find_style() {
    let doc = AssDocument::parse(TEST_ASS).unwrap();
    let style = doc.find_style("Default");
    assert!(style.is_some());
    assert_eq!(style.unwrap().font_name, "Arial");

    let style = doc.find_style("NonExistent");
    assert!(style.is_none());
}

#[test]
fn mod_test_get_events_at_time() {
    let doc = AssDocument::parse(TEST_ASS).unwrap();

    let active = doc.get_events_at_time(2000);
    assert_eq!(active.len(), 2);

    let active = doc.get_events_at_time(5000);
    assert_eq!(active.len(), 1);
    assert_eq!(active[0].event_type, EventType::Comment);

    let active = doc.get_events_at_time(31000);
    assert!(active.is_empty());
}

#[test]
fn mod_test_get_dialogue_events() {
    let doc = AssDocument::parse(TEST_ASS).unwrap();
    let dialogues = doc.get_dialogue_events();
    assert_eq!(dialogues.len(), 1);
}

#[test]
fn test_get_comment_events() {
    let doc = AssDocument::parse(TEST_ASS).unwrap();
    let comments = doc.get_comment_events();
    assert_eq!(comments.len(), 1);
}

#[test]
fn test_error_line_numbers_are_exact() {
    let ass = "[Script Info]\nTitle: x\n\n[Events]\nFormat: Layer, Start, End, Style, Name, MarginL, MarginR, MarginV, Effect, Text\nDialogue: 0,0:00:01.00,0:00:04.00,Default,,0,0,0,,ok\nDialogue: BROKEN LINE\n";
    let err = AssDocument::parse(ass).unwrap_err();
    assert!(err.message().contains("line 7"), "{}", err.message());
}

#[test]
fn test_duplicate_sections_append() {
    let ass = "[Events]\nFormat: Layer, Start, End, Style, Name, MarginL, MarginR, MarginV, Effect, Text\nDialogue: 0,0:00:01.00,0:00:02.00,Default,,0,0,0,,one\n\n[Events]\nFormat: Layer, Start, End, Style, Name, MarginL, MarginR, MarginV, Effect, Text\nDialogue: 0,0:00:03.00,0:00:04.00,Default,,0,0,0,,two\n";
    let doc = AssDocument::parse(ass).unwrap();
    assert_eq!(doc.events.len(), 2);
    assert_eq!(doc.events[1].text, "two");
}

#[test]
fn test_unknown_section_does_not_leak() {
    let ass = "[Events]\nFormat: Layer, Start, End, Style, Name, MarginL, MarginR, MarginV, Effect, Text\nDialogue: 0,0:00:01.00,0:00:02.00,Default,,0,0,0,,one\n\n[Bogus]\nDialogue: 0,0:00:01.00,0:00:02.00,Default,,0,0,0,,ghost\n\n[Events]\nFormat: Layer, Start, End, Style, Name, MarginL, MarginR, MarginV, Effect, Text\nDialogue: 0,0:00:03.00,0:00:04.00,Default,,0,0,0,,two\n";
    let doc = AssDocument::parse(ass).unwrap();
    assert_eq!(doc.events.len(), 2);
    assert!(!doc.events.iter().any(|e| e.text == "ghost"));
}

#[test]
fn test_script_info_only_document() {
    let doc = AssDocument::parse("[Script Info]\nTitle: empty\n").unwrap();
    assert!(doc.styles.is_empty() && doc.events.is_empty());
}

#[test]
fn test_global_count_boundaries() {
    assert_eq!(check_global_count(99, 1, 100, "things", 0).unwrap(), 100);
    assert!(check_global_count(100, 1, 100, "things", 0).is_err());
    assert!(check_global_count(usize::MAX, 1, 100, "things", 0).is_err());
    assert!(check_global_count(usize::MAX, usize::MAX, 100, "things", 0).is_err());
    assert_eq!(check_global_count(0, 0, 100, "things", 0).unwrap(), 0);
}

#[test]
fn test_global_attachments_wiring() {
    let mut doc = AssDocument::new();
    let one = Attachment {
        kind: AttachmentKind::Font,
        filename: "a.ttf".to_string(),
        data: vec![0u8; 3],
    };
    let two = Attachment {
        kind: AttachmentKind::Graphic,
        filename: "b.bmp".to_string(),
        data: vec![0u8; 5],
    };
    check_global_attachments(&doc, std::slice::from_ref(&one), 0).unwrap();
    doc.attachments.push(one);
    check_global_attachments(&doc, std::slice::from_ref(&two), 0).unwrap();
    doc.attachments.push(two);
    assert_eq!(doc.total_attachment_bytes(), 8);
    let empty = Attachment {
        kind: AttachmentKind::Font,
        filename: "e.ttf".to_string(),
        data: Vec::new(),
    };
    let many = vec![empty; MAX_ATTACHMENTS + 1];
    let err = check_global_attachments(&AssDocument::new(), &many, 7)
        .unwrap_err()
        .message();
    assert!(err.contains("line 7"), "{err}");
    assert!(err.contains("Too many attachments"), "{err}");
}

#[test]
fn global_count_message_names_the_limit() {
    let err = check_global_count(5, 6, 10, "styles", 3).unwrap_err();
    assert_eq!(err.message(), "Parse error at line 3: Too many styles (limit 10 per document)");
}

#[test]
fn default_style_is_found_by_name() {
    let doc = AssDocument::parse(TEST_ASS).unwrap();
    assert_eq!(doc.get_default_style().unwrap().name, "Default");
    let empty = AssDocument::new();
    assert!(empty.get_default_style().is_none());
    assert_eq!(empty.total_attachment_bytes(), 0);
}

#[test]
fn first_of_two_equal_names_wins() {
    let ass = "[V4+ Styles]\nFormat: Name, Fontname\nStyle: Twin,First\nStyle: Twin,Second\n";
    let doc = AssDocument::parse(ass).unwrap();
    assert_eq!(doc.find_style("Twin").unwrap().font_name, "First");
}

#[test]
fn document_sorts_keep_ties_in_order() {
    let ass = "[Events]\nFormat: Layer, Start, End, Style, Name, MarginL, MarginR, MarginV, Effect, Text\nDialogue: 2,0:00:05.00,0:00:06.00,Default,,0,0,0,,a\nDialogue: 1,0:00:03.00,0:00:04.00,Default,,0,0,0,,b\nDialogue: 2,0:00:03.00,0:00:04.00,Default,,0,0,0,,c\nDialogue: 1,0:00:01.00,0:00:02.00,Default,,0,0,0,,d\n";
    let mut doc = AssDocument::parse(ass).unwrap();
    doc.sort_events_by_time();
    let texts: Vec<&str> = doc.events.iter().map(|e| e.text.as_str()).collect();
    assert_eq!(texts, vec!["d", "b", "c", "a"]);
    doc.sort_events_by_layer();
    let texts: Vec<&str> = doc.events.iter().map(|e| e.text.as_str()).collect();
    assert_eq!(texts, vec!["d", "b", "c", "a"]);
    let layers: Vec<i32> = doc.events.iter().map(|e| e.layer).collect();
    assert_eq!(layers, vec![1, 1, 2, 2]);
}

#[test]
fn script_info_fields_are_read() {
    let ass = "[Script Info]\nTitle: Demo\nScriptType: v4.00+\nPlayResX: 640\nPlayResY: 360\nLayoutResX: 1280\nLayoutResY: 720\nWrapStyle: 2\nScaledBorderAndShadow: no\nKerning: yes\nYCbCr Matrix: TV.709\n";
    let doc = AssDocument::parse(ass).unwrap();
    let info = &doc.script_info;
    assert_eq!(info.title.as_deref(), Some("Demo"));
    assert_eq!(info.script_type, "v4.00+");
    assert_eq!((info.play_res_x, info.play_res_y), (640, 360));
    assert_eq!(info.layout_res_x, Some(1280));
    assert_eq!(info.layout_res_y, Some(720));
    assert_eq!(info.wrap_style, 2);
    assert!(!info.scaled_border_and_shadow);
    assert!(info.kerning);
    assert_eq!(info.ycbcr_matrix.as_deref(), Some("TV.709"));
}

#[test]
fn new_document_has_default_script_info() {
    let doc = AssDocument::new();
    assert_eq!(doc.script_info.play_res_x, 384);
    assert_eq!(doc.script_info.play_res_y, 288);
    assert_eq!(doc.script_info.script_type, "v4.00+");
    assert!(doc.script_info.title.is_none());
    assert!(doc.script_info.scaled_border_and_shadow);
    assert!(doc.styles.is_empty() && doc.events.is_empty() && doc.attachments.is_empty());
}

#[test]
fn text_with_a_byte_order_mark_parses_like_without() {
    let with_bom = format!("\u{feff}{}", TEST_ASS);
    let doc = parse_text(&with_bom).unwrap();
    assert_eq!(doc.get_event_count(), 2);
    assert_eq!(doc.script_info.title.as_deref(), Some("Test"));
}

#[test]
fn bytes_strip_the_utf8_bom() {
    assert_eq!(strip_utf8_bom(&[0xEF, 0xBB, 0xBF, b'a']), 3);
    assert_eq!(strip_utf8_bom(&[0xEF, 0xBB, b'a']), 0);
    assert_eq!(strip_utf8_bom(&[]), 0);
    let mut bytes = vec![0xEF, 0xBB, 0xBF];
    bytes.extend_from_slice(TEST_ASS.as_bytes());
    let doc = parse_bytes(&bytes).unwrap();
    assert_eq!(doc.get_style_count(), 1);
    assert_eq!(doc.get_event_count(), 2);
    let same = AssDocument::parse_bytes(&bytes).unwrap();
    assert_eq!(same.get_event_count(), 2);
    assert!(AssDocument::parse_bytes(b"\xFFnot a script").is_err());
}

#[test]
fn bytes_split_at_every_newline() {
    let lines = split_byte_lines(b"a\r\nb\n\nc");
    assert_eq!(lines, vec![b"a".to_vec(), b"b".to_vec(), b"".to_vec(), b"c".to_vec()]);
    let lines = split_byte_lines(b"x\n");
    assert_eq!(lines, vec![b"x".to_vec(), b"".to_vec()]);
    assert_eq!(split_byte_lines(b""), vec![Vec::<u8>::new()]);
}

#[test]
fn invalid_utf8_bytes_still_parse_sections() {
    let mut bytes = b"[Script Info]\nTitle: caf".to_vec();
    bytes.push(0xE9);
    bytes.extend_from_slice(b"\n");
    let doc = parse_bytes(&bytes).unwrap();
    assert_eq!(doc.script_info.title.as_deref(), Some("caf\u{e9}"));
}

#[test]
fn repeated_sections_cannot_pass_the_document_caps() {
    let mut ass = String::from("[Fonts]\n");
    for k in 0..200 {
        ass.push_str(&format!("fontname: f{k}.ttf\n15*$\n"));
    }
    ass.push_str("[Graphics]\n");
    for k in 0..56 {
        ass.push_str(&format!("filename: g{k}.bmp\n15*$\n"));
    }
    let doc = AssDocument::parse(&ass).unwrap();
    assert_eq!(doc.attachments.len(), MAX_ATTACHMENTS);
    assert_eq!(doc.total_attachment_bytes(), 3 * MAX_ATTACHMENTS);
    ass.push_str("[Fonts]\nfontname: extra.ttf\n15*$\n");
    let err = AssDocument::parse(&ass).unwrap_err().message();
    assert!(err.contains("Too many attachments"), "{err}");
}
