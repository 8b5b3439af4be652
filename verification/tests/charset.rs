use subrass::charset::{ass_encoding, decode_metadata_bytes, utf8_scalar_width, LegacyCodec};

#[test]
fn legacy_metadata_preserves_utf8_and_decodes_invalid_runs() {
    let mut bytes = "Café ".as_bytes().to_vec();
    bytes.push(0xE9);
    assert_eq!(decode_metadata_bytes(&bytes, 1), "Café é");
}

#[test]
fn legacy_multibyte_metadata_decodes_with_style_encoding() {
    assert_eq!(decode_metadata_bytes(b"\x82\xA0", 128), "あ");
}

#[test]
fn ass_encoding_maps_known_values() {
    assert_eq!(ass_encoding(0), Some(LegacyCodec::Windows1252));
    assert_eq!(ass_encoding(77), Some(LegacyCodec::Windows1252));
    assert_eq!(ass_encoding(128), Some(LegacyCodec::ShiftJis));
    assert_eq!(ass_encoding(204), Some(LegacyCodec::Windows1251));
    assert_eq!(ass_encoding(130), None);
    assert_eq!(ass_encoding(-1), None);
}

#[test]
fn unknown_encoding_falls_back_to_lossy_utf8() {
    assert_eq!(decode_metadata_bytes(b"a\xFFb", 130), "a\u{FFFD}b");
}

#[test]
fn cyrillic_code_page_decodes() {
    // 0xCF 0xF0 in Windows-1251 is "Пр".
    assert_eq!(decode_metadata_bytes(b"\xCF\xF0", 204), "Пр");
}

#[test]
fn scalar_width_classes() {
    assert_eq!(utf8_scalar_width(b'a'), 1);
    assert_eq!(utf8_scalar_width(0xC3), 2);
    assert_eq!(utf8_scalar_width(0xE3), 3);
    assert_eq!(utf8_scalar_width(0xF0), 4);
    assert_eq!(utf8_scalar_width(0xF5), 1);
    assert_eq!(utf8_scalar_width(0xC1), 1);
}
