use edge_ascii::charset::{char_at, CHAR_COUNT};
use edge_ascii::font_renderer::{build_atlas, render_fonts_to_atlas, FontError, Glyph, SizeMetrics};

/// A bitmap font in the BDF format whose characters are the same bitmap of four by two pixels.
fn font(bits: u32, bitmap: &str) -> Vec<u8> {
    let mut text = format!(
        "STARTFONT 2.1\nFONT test\nSIZE 4 72 72 {bits}\nFONTBOUNDINGBOX 4 4 0 -1\n\
         STARTPROPERTIES 5\nPIXEL_SIZE 4\nFONT_ASCENT 3\nFONT_DESCENT 1\n\
         CHARSET_REGISTRY \"ISO10646\"\nCHARSET_ENCODING \"1\"\nENDPROPERTIES\n\
         CHARS {CHAR_COUNT}\n"
    );
    for i in 0..CHAR_COUNT {
        text.push_str(&format!(
            "STARTCHAR c{i}\nENCODING {}\nSWIDTH 500 0\nDWIDTH 4 0\nBBX 4 2 0 0\n\
             BITMAP\n{bitmap}\nENDCHAR\n",
            char_at(i) as u32
        ));
    }
    text.push_str("ENDFONT\n");
    text.into_bytes()
}

#[test]
fn renders_each_character_into_its_cell() {
    let (atlas, cell_w, cell_h) = render_fonts_to_atlas(&font(8, "00FF8000\n00400100"), 4).unwrap();
    assert_eq!((cell_w, cell_h), (4, 4));
    let mut expected = [0; 16];
    expected[5] = 0xff;
    expected[6] = 0x80;
    expected[9] = 0x40;
    expected[10] = 0x01;
    for row in 0..CHAR_COUNT {
        for column in 0..16 {
            assert_eq!(atlas.at(row, column), expected[column], "{row} {column}");
        }
    }
}

#[test]
fn what_is_no_font_is_refused() {
    for bytes in [Vec::new(), b"no font".to_vec()] {
        match render_fonts_to_atlas(&bytes, 16) {
            Err(FontError::Freetype(message)) => assert!(!message.is_empty()),
            _ => panic!("not refused"),
        }
    }
}

#[test]
fn a_size_that_the_font_lacks_is_refused() {
    assert!(matches!(
        render_fonts_to_atlas(&font(8, "00FF8000\n00400100"), 50),
        Err(FontError::Freetype(_))
    ));
}

#[test]
fn a_packed_bitmap_is_too_short() {
    assert!(matches!(
        render_fonts_to_atlas(&font(1, "60\n40"), 4),
        Err(FontError::BitmapTooShort(0))
    ));
}

fn metrics(cell_w: i64, cell_h: i64, ascent: i64) -> SizeMetrics {
    SizeMetrics { ascender: ascent * 64, height: cell_h * 64, max_advance: cell_w * 64 }
}

fn glyph(left: i32, top: i32, advance: i64) -> Glyph {
    Glyph { buffer: vec![1, 2, 3, 4, 5, 6], rows: 3, width: 2, left, top, advance: advance * 64 }
}

fn drawn(m: SizeMetrics, left: i32, top: i32, advance: i64) -> Vec<u8> {
    let glyphs = (0..CHAR_COUNT).map(|_| glyph(left, top, advance)).collect();
    let (atlas, cell_w, cell_h) = build_atlas(&m, &glyphs).unwrap();
    (0..(cell_w * cell_h) as usize).map(|column| atlas.at(CHAR_COUNT - 1, column)).collect()
}

#[test]
fn glyphs_hang_from_the_baseline_and_are_centred() {
    assert_eq!(
        drawn(metrics(4, 4, 3), 0, 2, 2),
        [0, 0, 0, 0, 0, 1, 2, 0, 0, 3, 4, 0, 0, 5, 6, 0]
    );
    assert_eq!(
        drawn(metrics(4, 4, 3), 1, 3, 4),
        [0, 1, 2, 0, 0, 3, 4, 0, 0, 5, 6, 0, 0, 0, 0, 0]
    );
}

#[test]
fn a_glyph_above_the_cell_starts_at_its_top() {
    assert_eq!(
        drawn(metrics(3, 3, 2), 0, 9, 3),
        [1, 2, 0, 3, 4, 0, 5, 6, 0]
    );
}

#[test]
fn what_leaves_the_cell_is_cut_off() {
    assert_eq!(drawn(metrics(2, 2, 1), -1, 0, 2), [0, 0, 2, 0]);
    assert_eq!(drawn(metrics(2, 2, 2), 1, 2, 2), [0, 1, 0, 3]);
}

#[test]
fn half_of_a_negative_slack_is_rounded_toward_zero() {
    assert_eq!(drawn(metrics(2, 3, 3), 0, 3, 5), [2, 0, 4, 0, 6, 0]);
    assert_eq!(drawn(metrics(2, 3, 3), 0, 3, 3), [1, 2, 3, 4, 5, 6]);
}

#[test]
fn lengths_are_rounded_down_to_whole_pixels() {
    let m = SizeMetrics { ascender: 3 * 64 + 63, height: 3 * 64 + 1, max_advance: 2 * 64 + 63 };
    assert_eq!(drawn(m, 0, 3, 2), [1, 2, 3, 4, 5, 6]);
}

#[test]
fn sizes_out_of_range_are_refused() {
    for m in [metrics(4, -1, 3), metrics(-1, 4, 3), metrics(70000, 70000, 3)] {
        let glyphs = (0..CHAR_COUNT).map(|_| glyph(0, 3, 2)).collect();
        assert!(matches!(build_atlas(&m, &glyphs), Err(FontError::UnusableMetrics)));
    }
}

#[test]
fn the_first_bitmap_that_is_too_short_is_reported() {
    let mut glyphs: Vec<Glyph> = (0..CHAR_COUNT).map(|_| glyph(0, 3, 2)).collect();
    glyphs[7].buffer.pop();
    glyphs[9].buffer.clear();
    assert!(matches!(
        build_atlas(&metrics(4, 4, 3), &glyphs),
        Err(FontError::BitmapTooShort(7))
    ));
    assert!(build_atlas(&metrics(4, 0, 3), &glyphs).is_ok());
}
