use subrass::renderer::font::{
    collection_face_count, FontManager, decode_utf16_be, get_fallback_font, inspect_font_metadata,
    inspect_font_metadata_at, parse_name_table, read_i16, read_u16, read_u32,
    read_sfnt_table_directory_at, strip_style_words, style_from_filename, weight_dist, TAG_HEAD,
    TAG_NAME,
};

#[test]
fn test_metadata_detects_dejavu_family() {
    let meta = inspect_font_metadata(get_fallback_font()).expect("metadata");
    assert!(
        meta.families.iter().any(|f| f == "DejaVu Sans"),
        "{:?}",
        meta.families
    );
    assert_eq!(meta.is_bold, Some(false));
    assert_eq!(meta.is_italic, Some(false));
}

#[test]
fn test_metadata_rejects_garbage() {
    assert!(inspect_font_metadata(b"not a font").is_none());
    assert!(inspect_font_metadata(&[]).is_none());
    assert!(inspect_font_metadata(&[0u8; 100]).is_none());
}

#[test]
fn test_metadata_never_panics_on_hostile_input() {
    let valid = get_fallback_font();
    let mut lens: Vec<usize> = (0..64).collect();
    lens.extend((0..=valid.len()).step_by(4096));
    for len in lens {
        let _ = inspect_font_metadata(&valid[..len.min(valid.len())]);
    }
    let mut corrupt = valid.to_vec();
    let poke = |buf: &mut [u8], off: usize, bytes: &[u8]| {
        if off + bytes.len() <= buf.len() {
            buf[off..off + bytes.len()].copy_from_slice(bytes);
        }
    };
    for tables in [0u16, 1, 63, 64, 65, 100, 0xFFFF] {
        let mut buf = valid.to_vec();
        poke(&mut buf, 4, &tables.to_be_bytes());
        let _ = inspect_font_metadata(&buf);
    }
    for patch in [
        (12usize, vec![0xFF, 0xFF, 0xFF, 0xFF]),
        (20, vec![0xFF, 0xFF, 0xFF, 0xFF]),
        (24, vec![0xFF, 0xFF, 0xFF, 0xFF]),
        (20, vec![0x00, 0x00, 0x00, 0x00]),
        (24, vec![0x00, 0x00, 0x00, 0x00]),
    ] {
        let mut buf = valid.to_vec();
        poke(&mut buf, patch.0, &patch.1);
        let _ = inspect_font_metadata(&buf);
    }
    for magic in [&b"ttcf"[..], b"wOFF", b"\0\0\0\0", b"AAAA"] {
        let mut buf = valid.to_vec();
        poke(&mut buf, 0, magic);
        let _ = inspect_font_metadata(&buf);
    }
    for zeros in [16usize, 64, 256, 1024, 8192] {
        corrupt.fill(0);
        let keep = zeros.min(corrupt.len());
        corrupt[..keep].copy_from_slice(&valid[..keep]);
        let _ = inspect_font_metadata(&corrupt);
    }
    assert!(decode_utf16_be(&[0x00]).is_none());
    assert!(decode_utf16_be(&vec![0u8; 4098]).is_none());
    assert!(decode_utf16_be(&[0xD8, 0x00]).is_none());
    assert_eq!(decode_utf16_be(&[0x00, 0x41]).as_deref(), Some("A"));
    assert!(parse_name_table(&[0, 1, 0xFF, 0xFF, 0xFF, 0xFF]).is_empty());
    assert!(parse_name_table(&[0, 1, 0, 1, 0, 6, 0, 0]).is_empty());
    assert!(read_u16(&[0x01], 0).is_none());
    assert!(read_u16(&[0x01, 0x02], 1).is_none());
    assert!(read_u32(&[0x01, 0x02, 0x03], 0).is_none());
}

fn make_test_collection(face: &[u8]) -> Vec<u8> {
    let mut collection = vec![0u8; 20];
    let mut offsets = Vec::new();
    for _ in 0..2 {
        while collection.len() % 4 != 0 {
            collection.push(0);
        }
        let base = collection.len();
        let mut copy = face.to_vec();
        let table_count = read_u16(&copy, 4).unwrap_or(0) as usize;
        for table in 0..table_count {
            let record = 12 + table * 16;
            let Some(offset) = read_u32(&copy, record + 8) else {
                continue;
            };
            let absolute = offset.saturating_add(base as u32).to_be_bytes();
            if record + 12 <= copy.len() {
                copy[record + 8..record + 12].copy_from_slice(&absolute);
            }
        }
        offsets.push(base as u32);
        collection.extend(copy);
    }
    collection[0..4].copy_from_slice(b"ttcf");
    collection[4..8].copy_from_slice(&0x0001_0000u32.to_be_bytes());
    collection[8..12].copy_from_slice(&2u32.to_be_bytes());
    for (index, offset) in offsets.into_iter().enumerate() {
        let start = 12 + index * 4;
        collection[start..start + 4].copy_from_slice(&offset.to_be_bytes());
    }
    collection
}

#[test]
fn collections_expose_every_face() {
    let ttc = make_test_collection(get_fallback_font());
    assert_eq!(collection_face_count(&ttc), Some(2));
    assert!(inspect_font_metadata_at(&ttc, 0).is_some());
    assert!(inspect_font_metadata_at(&ttc, 1).is_some());
    assert!(inspect_font_metadata_at(&ttc, 2).is_none());
    assert_eq!(collection_face_count(get_fallback_font()), Some(1));
}

#[test]
fn fallback_face_declares_regular_weight_and_em() {
    let meta = inspect_font_metadata(get_fallback_font()).unwrap();
    assert_eq!(meta.weight, Some(400));
    assert_eq!(meta.units_per_em, Some(2048));
    let tables = read_sfnt_table_directory_at(get_fallback_font(), 0).unwrap();
    assert!(tables.iter().any(|t| t.0 == TAG_NAME));
    assert!(tables.iter().any(|t| t.0 == TAG_HEAD));
}

#[test]
fn big_endian_readers() {
    assert_eq!(read_u16(&[0x12, 0x34, 0x56], 1), Some(0x3456));
    assert_eq!(read_i16(&[0xFF, 0x7E], 0), Some(-130));
    assert_eq!(read_u32(&[0, 1, 2, 3, 4], 1), Some(0x0102_0304));
    assert_eq!(read_u32(&[0, 1, 2, 3], usize::MAX), None);
}

#[test]
fn utf16_names_decode_surrogate_pairs() {
    assert_eq!(
        decode_utf16_be(&[0xD8, 0x3D, 0xDE, 0x00]).as_deref(),
        Some("\u{1F600}")
    );
    assert_eq!(decode_utf16_be(&[]).as_deref(), Some(""));
    assert!(decode_utf16_be(&[0xDC, 0x00, 0x00, 0x41]).is_none());
}

#[test]
fn weights_compare_by_distance() {
    assert_eq!(weight_dist(700, 400), 300);
    assert_eq!(weight_dist(400, 700), 300);
    assert_eq!(weight_dist(0, u16::MAX), u16::MAX);
}

#[test]
fn filename_style_guesses() {
    assert_eq!(style_from_filename("Arial-BoldItalic.ttf"), (Some(true), Some(true)));
    assert_eq!(style_from_filename("Foo Oblique.otf"), (None, Some(true)));
    assert_eq!(style_from_filename("Plain.ttf"), (None, None));
}

#[test]
fn style_words_are_stripped() {
    assert_eq!(strip_style_words("DejaVu Sans Bold"), "dejavu sans");
    assert_eq!(strip_style_words("  Foo-Italic_bold "), "foo");
    assert_eq!(strip_style_words("Boldface"), "boldface");
}

#[test]
fn test_font_manager_new() {
    let fm = FontManager::new();
    assert!(!fm.has_fonts());
    assert_eq!(fm.font_count(), 0);
}

#[test]
fn test_auto_load_registers_family_alias() {
    let mut fm = FontManager::new();
    fm.load_font_auto("weird-filename-xyz", get_fallback_font())
        .unwrap();
    let m = fm.find_font_with_match("DejaVu Sans", false, false);
    assert_eq!(m.id, 0);
    assert!(!m.faux_bold && !m.faux_italic);
}

#[test]
fn test_faux_flags_only_when_face_lacks_style() {
    let mut fm = FontManager::new();
    fm.load_font("DejaVu Sans", get_fallback_font(), false, false)
        .unwrap();
    fm.load_font("DejaVu Sans Bold", get_fallback_font(), true, false)
        .unwrap();
    let m = fm.find_font_with_match("DejaVu Sans Bold", true, false);
    assert_eq!(m.id, 1);
    assert!(!m.faux_bold);
    let m = fm.find_font_with_match("DejaVu Sans", true, false);
    assert_eq!(m.id, 0);
    assert!(m.faux_bold);
}

#[test]
fn test_selection_is_deterministic() {
    let mut fm = FontManager::new();
    fm.load_font("aaa font", get_fallback_font(), false, false)
        .unwrap();
    fm.load_font("aaa font extended", get_fallback_font(), false, false)
        .unwrap();
    for _ in 0..10 {
        let m = fm.find_font_with_match("aaa font", false, false);
        assert_eq!(m.id, 0);
    }
}

#[test]
fn test_exact_family_beats_substring_regardless_of_order() {
    let mut fm = FontManager::new();
    fm.load_font("aaa font extended", get_fallback_font(), false, false)
        .unwrap();
    fm.load_font("aaa font", get_fallback_font(), false, false)
        .unwrap();
    assert_eq!(fm.find_font_with_match("aaa font", false, false).id, 1);
    assert_eq!(
        fm.find_font_with_match("aaa font extended", false, false)
            .id,
        0
    );
    assert_eq!(fm.find_font_with_match("AAA FONT", false, false).id, 1);
    assert_eq!(fm.find_font_with_match("aaa", false, false).id, 0);
}

#[test]
fn test_weight_selection_picks_nearest() {
    let mut fm = FontManager::new();
    fm.load_font_with_weight("Fam", get_fallback_font(), 400, false)
        .unwrap();
    fm.load_font_with_weight("Fam", get_fallback_font(), 700, false)
        .unwrap();
    fm.load_font_with_weight("Fam", get_fallback_font(), 900, false)
        .unwrap();
    assert_eq!(fm.find_font_with_weight("Fam", 800, false).id, 1);
    assert_eq!(fm.find_font_with_weight("Fam", 500, false).id, 0);
    assert_eq!(fm.find_font_with_weight("Fam", 950, false).id, 2);
    assert_eq!(fm.find_font_with_weight("Fam", 100, false).id, 0);
    assert_eq!(fm.find_font_with_weight("Fam", 550, false).id, 0);
}

#[test]
fn test_faux_bold_only_without_bold_face() {
    let mut fm = FontManager::new();
    fm.load_font_with_weight("Fam", get_fallback_font(), 400, false)
        .unwrap();
    assert!(fm.find_font_with_weight("Fam", 700, false).faux_bold);
    assert!(!fm.find_font_with_weight("Fam", 400, false).faux_bold);
    fm.load_font_with_weight("FamBold", get_fallback_font(), 700, false)
        .unwrap();
    assert!(!fm.find_font_with_weight("FamBold", 700, false).faux_bold);
    assert!(!fm.find_font_with_weight("FamBold", 900, false).faux_bold);
}

#[test]
fn test_has_glyph_chain_and_faux_for() {
    let mut fm = FontManager::new();
    fm.load_font("A", get_fallback_font(), false, false)
        .unwrap();
    fm.load_font("B", get_fallback_font(), true, false).unwrap();
    fm.load_font("C", get_fallback_font(), false, true).unwrap();
    assert!(fm.has_glyph(0, 'A'));
    assert!(!fm.has_glyph(0, '\u{10FFFF}'));
    assert!(!fm.has_glyph(99, 'A'));
    assert_eq!(fm.fallback_chain(1), vec![1, 0, 2]);
    assert_eq!(fm.fallback_chain(0), vec![0, 1, 2]);
    assert_eq!(fm.faux_for(0, 700, true), (true, true));
    assert_eq!(fm.faux_for(1, 700, true), (false, true));
    assert_eq!(fm.faux_for(2, 700, true), (true, false));
    assert_eq!(fm.faux_for(2, 400, false), (false, false));
    assert_eq!(fm.faux_for(99, 700, true), (true, true));
}

#[test]
fn test_metadata_reports_us_weight_class() {
    let meta = inspect_font_metadata(get_fallback_font()).unwrap();
    assert_eq!(meta.weight, Some(400));
    let mut fm = FontManager::new();
    let idx = fm
        .load_font_auto("DejaVuSans.ttf", get_fallback_font())
        .unwrap();
    assert_eq!(fm.font_weight(idx), Some(400));
}

#[test]
fn test_style_matrix_selection_and_faux() {
    let mut fm = FontManager::new();
    let bytes = get_fallback_font();
    for (w, italic) in [
        (400, false),
        (500, false),
        (600, false),
        (700, false),
        (900, false),
        (400, true),
        (700, true),
    ] {
        fm.load_font_with_weight("Fam", bytes, w, italic).unwrap();
    }
    for (w, id) in [(400, 0), (500, 1), (600, 2), (700, 3), (900, 4)] {
        let m = fm.find_font_with_weight("Fam", w, false);
        assert_eq!(m.id, id, "weight {w}");
        assert!(!m.faux_bold && !m.faux_italic, "weight {w}");
    }
    let m = fm.find_font_with_weight("Fam", 400, true);
    assert_eq!(m.id, 5);
    assert!(!m.faux_bold && !m.faux_italic);
    let m = fm.find_font_with_weight("Fam", 700, true);
    assert_eq!(m.id, 6);
    assert!(!m.faux_bold && !m.faux_italic);
    assert_eq!(fm.find_font_with_weight("Fam", 550, false).id, 1);
    assert_eq!(fm.find_font_with_weight("Fam", 650, false).id, 2);
    assert_eq!(fm.find_font_with_weight("Fam", 800, false).id, 3);
    assert_eq!(fm.find_font_with_weight("Fam", 0, false).id, 0);
    assert_eq!(fm.find_font_with_weight("Fam", 2000, false).id, 4);
}

#[test]
fn test_faux_only_without_suitable_face() {
    let mut fm = FontManager::new();
    fm.load_font_with_weight("Fam", get_fallback_font(), 400, false)
        .unwrap();
    let m = fm.find_font_with_weight("Fam", 700, true);
    assert_eq!(m.id, 0);
    assert!(m.faux_bold && m.faux_italic);
    let m = fm.find_font_with_weight("Fam", 600, false);
    assert_eq!(m.id, 0);
    assert!(!m.faux_bold && !m.faux_italic);
    fm.load_font_with_weight("Fam", get_fallback_font(), 400, true)
        .unwrap();
    let m = fm.find_font_with_weight("Fam", 400, true);
    assert_eq!(m.id, 1);
    assert!(!m.faux_italic);
}

#[test]
fn test_font_collections_load_every_face() {
    let ttc = make_test_collection(get_fallback_font());
    assert!(inspect_font_metadata_at(&ttc, 0).is_some());
    assert!(inspect_font_metadata_at(&ttc, 1).is_some());
    let mut fm = FontManager::new();
    let first = fm
        .load_font_with_weight("Collection", &ttc, 400, false)
        .unwrap();
    assert_eq!(first, 0);
    assert!(fm.get_font(0).is_some());
    assert!(fm.get_font(1).is_some());
    assert_eq!(fm.shaping_data(0).unwrap().1, 0);
    assert_eq!(fm.shaping_data(1).unwrap().1, 1);
}

#[test]
fn test_invalid_font_collections_rejected() {
    let mut ttc = vec![0u8; 64];
    ttc[0..4].copy_from_slice(b"ttcf");
    ttc[4..8].copy_from_slice(&0x00010000u32.to_be_bytes());
    ttc[8..12].copy_from_slice(&1u32.to_be_bytes());
    let mut fm = FontManager::new();
    let err = fm
        .load_font_with_weight("Fam", &ttc, 400, false)
        .unwrap_err();
    assert!(
        err.contains("Failed to parse") || err.contains("InvalidFont"),
        "{err}"
    );
    assert!(inspect_font_metadata(&ttc).is_none());
    let mut stamped = get_fallback_font().to_vec();
    stamped[0..4].copy_from_slice(b"ttcf");
    assert!(fm
        .load_font_with_weight("Fam", &stamped, 400, false)
        .is_err());
    assert!(inspect_font_metadata(&stamped).is_none());
    assert!(inspect_font_metadata(b"wOF2garbage-payload........").is_none());
}

#[test]
fn family_lookup_by_name_alias_and_similar_name() {
    let mut fm = FontManager::new();
    assert!(!fm.has_family("DejaVu Sans"));
    fm.load_font_auto("weird-filename-xyz", get_fallback_font()).unwrap();
    assert!(fm.has_family("DejaVu Sans"));
    assert!(fm.has_family("WEIRD-FILENAME-XYZ"));
    assert!(fm.has_family("weird"));
    assert!(!fm.has_family("Arial"));
    assert!(!fm.has_family(""));
    assert_eq!(fm.font_names(), vec!["weird-filename-xyz"]);
}

#[test]
fn unknown_family_falls_back_to_the_first_face() {
    let mut fm = FontManager::new();
    fm.load_font("First", get_fallback_font(), false, false).unwrap();
    fm.load_font("Second", get_fallback_font(), true, true).unwrap();
    let m = fm.find_font_with_match("Nothing Like It", true, true);
    assert_eq!(m.id, 0);
    assert!(m.faux_bold && m.faux_italic);
}

#[test]
fn failed_faces_report_the_face_and_leave_earlier_ones() {
    let mut fm = FontManager::new();
    let err = fm.load_font("Junk", &[0u8; 16], false, false).unwrap_err();
    assert_eq!(err, "Failed to parse font 'Junk' face 0: InvalidFont");
    assert_eq!(fm.font_count(), 0);
    let mut ttc = vec![0u8; 16];
    ttc[0..4].copy_from_slice(b"ttcf");
    ttc[8..12].copy_from_slice(&0u32.to_be_bytes());
    assert_eq!(
        fm.load_font("Empty", &ttc, false, false).unwrap_err(),
        "Invalid font collection header for 'Empty'"
    );
}

#[test]
fn style_words_leave_the_family_on_auto_load() {
    let mut fm = FontManager::new();
    fm.load_font_auto("Foo-Bold.ttf", get_fallback_font()).unwrap();
    assert_eq!(fm.font_names(), vec!["foo.ttf"]);
    assert_eq!(fm.font_weight(0), Some(400));
}
