use subrass::parser::attachment::{decode_attachment_data, encode_attachment_data, parse_attachments};
use subrass::types::attachment::AttachmentKind;

#[test]
fn test_decode_known_vector() {
    // "ABC" packs to 0x414243 -> 6-bit groups 16,20,9,3 -> '1','5','*','$'
    assert_eq!(decode_attachment_data(b"15*$").unwrap(), b"ABC");
}

#[test]
fn test_decode_roundtrip() {
    let payload: Vec<u8> = (0u16..=255).map(|v| v as u8).collect();
    let encoded = encode_attachment_data(&payload);
    assert_eq!(decode_attachment_data(encoded.as_bytes()).unwrap(), payload);
}

#[test]
fn test_decode_rejects_lone_trailing_char() {
    assert!(decode_attachment_data(b"15*$!").is_none());
}

#[test]
fn test_parse_fonts_section() {
    let data = encode_attachment_data(b"fake-ttf-bytes");
    let lines: Vec<String> = data
        .as_bytes()
        .chunks(8)
        .map(|c| String::from_utf8(c.to_vec()).unwrap())
        .collect();
    let mut section: Vec<String> = vec!["fontname: MyFont.ttf".to_string()];
    section.extend(lines);

    let refs: Vec<&str> = section.iter().map(|s| s.as_str()).collect();
    let attachments = parse_attachments(&refs, AttachmentKind::Font, 0).unwrap();

    assert_eq!(attachments.len(), 1);
    assert_eq!(attachments[0].filename, "MyFont.ttf");
    assert_eq!(attachments[0].kind, AttachmentKind::Font);
    assert_eq!(attachments[0].data, b"fake-ttf-bytes");
}

#[test]
fn test_parse_graphics_filename_header() {
    let data = encode_attachment_data(b"img");
    let section = ["filename: logo.bmp".to_string(), data];
    let refs: Vec<&str> = section.iter().map(|s| s.as_str()).collect();
    let attachments = parse_attachments(&refs, AttachmentKind::Graphic, 0).unwrap();
    assert_eq!(attachments.len(), 1);
    assert_eq!(attachments[0].filename, "logo.bmp");
    assert_eq!(attachments[0].data, b"img");
}

#[test]
fn test_parse_header_case_insensitive() {
    let data = encode_attachment_data(b"img");
    let section = ["FontName: Caps.ttf".to_string(), data];
    let refs: Vec<&str> = section.iter().map(|s| s.as_str()).collect();
    let attachments = parse_attachments(&refs, AttachmentKind::Font, 0).unwrap();
    assert_eq!(attachments[0].filename, "Caps.ttf");
}

#[test]
fn test_malformed_payload_is_error() {
    let section = ["fontname: bad.ttf", "15*$!"];
    let attachments = parse_attachments(&section, AttachmentKind::Font, 0);
    assert!(attachments.is_err());
}

#[test]
fn test_parse_multiple_attachments() {
    let d1 = encode_attachment_data(b"one");
    let d2 = encode_attachment_data(b"two");
    let section = [
        "filename: a.bmp".to_string(),
        d1,
        "filename: b.png".to_string(),
        d2,
    ];
    let refs: Vec<&str> = section.iter().map(|s| s.as_str()).collect();
    let attachments = parse_attachments(&refs, AttachmentKind::Graphic, 0).unwrap();

    assert_eq!(attachments.len(), 2);
    assert_eq!(attachments[0].filename, "a.bmp");
    assert_eq!(attachments[0].data, b"one");
    assert_eq!(attachments[1].filename, "b.png");
    assert_eq!(attachments[1].data, b"two");
    assert!(attachments.iter().all(|a| a.kind == AttachmentKind::Graphic));
}

#[test]
fn test_parse_ignores_data_before_fontname() {
    let section = ["garbage-before-any-name".to_string()];
    let refs: Vec<&str> = section.iter().map(|s| s.as_str()).collect();
    assert!(parse_attachments(&refs, AttachmentKind::Font, 0)
        .unwrap()
        .is_empty());
}

#[test]
fn test_decode_rejects_out_of_alphabet_bytes() {
    for bad in [
        &b"!!! "[..],
        &b"\x0015*$"[..],
        &b"15*\x7f"[..],
        &b"15*\xc3"[..],
        &b"15*{"[..],
        &b"15*~"[..],
        &b"15*\n"[..],
    ] {
        assert!(decode_attachment_data(bad).is_none(), "must reject {bad:?}");
    }
    assert!(decode_attachment_data(b"!!!!").is_some());
    assert!(decode_attachment_data(b"````").is_some());
}

#[test]
fn test_parse_rejects_bad_payload_line_with_line_number() {
    let section = ["fontname: bad.ttf", "15*$", "!!!! !!!!"];
    let err = parse_attachments(&section, AttachmentKind::Font, 10)
        .unwrap_err()
        .message();
    assert!(err.contains("12"), "line number must appear: {err}");
    assert!(err.contains("0x20"), "byte must appear: {err}");
    assert!(err.contains("bad.ttf"), "filename must appear: {err}");
}

#[test]
fn test_headers_are_section_aware() {
    let section = ["fontname: a.ttf", "15*$"];
    assert!(parse_attachments(&section, AttachmentKind::Graphic, 0).is_err());
    let section = ["filename: a.bmp", "15*$"];
    assert!(parse_attachments(&section, AttachmentKind::Font, 0).is_err());
    let section = ["filename: a.bmp", "15*$"];
    assert_eq!(
        parse_attachments(&section, AttachmentKind::Graphic, 0)
            .unwrap()
            .len(),
        1
    );
}

#[test]
fn encode_then_decode_gives_back_the_bytes() {
    for len in 0..10usize {
        let payload: Vec<u8> = (0..len).map(|i| (i * 37 + 11) as u8).collect();
        let encoded = encode_attachment_data(&payload);
        assert_eq!(decode_attachment_data(encoded.as_bytes()).unwrap(), payload);
    }
}

#[test]
fn encode_known_vector() {
    assert_eq!(encode_attachment_data(b"ABC"), "15*$");
    assert_eq!(encode_attachment_data(b""), "");
}

#[test]
fn encoded_text_is_ascii_payload_and_bytes_decode_back() {
    let data: Vec<u8> = vec![255, 0, 128, 64, 7];
    let text = encode_attachment_data(&data);
    assert!(text.is_ascii());
    assert!(text.bytes().all(|b| (33..=96).contains(&b)));
    assert_eq!(text.len(), 7);
    assert_eq!(decode_attachment_data(text.as_bytes()), Some(data));
}
