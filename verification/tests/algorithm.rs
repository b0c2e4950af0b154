use edge_ascii::algorithm::{
    char_indices_to_string, choose_index, measure_frame, process_frame, try_special, CellReading,
    StrokeTests,
};
use edge_ascii::charset::CHAR_COUNT;
use edge_ascii::font_renderer::{build_atlas, CharAtlas, Glyph, SizeMetrics};
use edge_ascii::frame::{gradients, read_planes, Layout, Planes, Samples, SourceImage};
use edge_ascii::structure_tensor::StructureTensor;

fn no_strokes() -> StrokeTests {
    StrokeTests {
        left_backslash: false,
        left_slash: false,
        right_backslash: false,
        right_slash: false,
        top_backslash: false,
        top_slash: false,
        bottom_backslash: false,
        bottom_slash: false,
        bottom_vertical: false,
        top_joins_horizontal: false,
        left_joins_vertical: false,
        top_right_quiet: false,
        bottom_right_horizontal: false,
        top_left_backslash: false,
        top_right_slash: false,
        bottom_left_slash: false,
        bottom_right_backslash: false,
    }
}

fn reading(level: usize) -> CellReading {
    CellReading {
        incoherent: false,
        coherent: false,
        energetic: false,
        strokes: no_strokes(),
        angle_bin: 0,
        level,
    }
}

#[test]
fn edges_of_several_strokes() {
    assert_eq!(try_special(&no_strokes()), None);
    let mut t = no_strokes();
    t.left_backslash = true;
    assert_eq!(try_special(&t), None);
    t.right_slash = true;
    assert_eq!(try_special(&t), Some(5));
    let mut t = no_strokes();
    t.left_slash = true;
    t.right_backslash = true;
    assert_eq!(try_special(&t), Some(4));
    let mut t = no_strokes();
    t.top_backslash = true;
    t.bottom_slash = true;
    assert_eq!(try_special(&t), Some(7));
    let mut t = no_strokes();
    t.top_slash = true;
    t.bottom_backslash = true;
    assert_eq!(try_special(&t), Some(6));
    let mut t = no_strokes();
    t.top_joins_horizontal = true;
    t.bottom_vertical = true;
    assert_eq!(try_special(&t), Some(8));
    let mut t = no_strokes();
    t.top_right_quiet = true;
    t.left_joins_vertical = true;
    assert_eq!(try_special(&t), None);
    t.bottom_right_horizontal = true;
    assert_eq!(try_special(&t), Some(9));
    let mut t = no_strokes();
    t.top_left_backslash = true;
    t.top_right_slash = true;
    t.bottom_left_slash = true;
    assert_eq!(try_special(&t), None);
    t.bottom_right_backslash = true;
    assert_eq!(try_special(&t), Some(10));
}

#[test]
fn the_first_edge_of_several_is_taken() {
    let mut t = no_strokes();
    t.top_joins_horizontal = true;
    t.bottom_vertical = true;
    t.top_slash = true;
    t.bottom_backslash = true;
    assert_eq!(try_special(&t), Some(6));
    t.left_slash = true;
    t.right_backslash = true;
    assert_eq!(try_special(&t), Some(4));
}

#[test]
fn a_cell_shows_an_edge_or_its_brightness() {
    assert_eq!(choose_index(&reading(7)), 7);
    let mut r = reading(7);
    r.angle_bin = 3;
    r.coherent = true;
    assert_eq!(choose_index(&r), 7);
    r.energetic = true;
    assert_eq!(choose_index(&r), 13);
    r.angle_bin = 4;
    assert_eq!(choose_index(&r), 10);
    r.strokes.left_backslash = true;
    r.strokes.right_slash = true;
    assert_eq!(choose_index(&r), 10);
    r.incoherent = true;
    assert_eq!(choose_index(&r), 15);
}

#[test]
fn every_reading_stands_for_a_character() {
    for level in 0..10 {
        for angle_bin in 0..5 {
            for bits in 0..8 {
                let mut r = reading(level);
                r.angle_bin = angle_bin;
                r.incoherent = bits & 1 != 0;
                r.coherent = bits & 2 != 0;
                r.energetic = bits & 4 != 0;
                assert!(choose_index(&r) < CHAR_COUNT);
            }
        }
    }
}

/// An atlas of cells of two by two pixels, the coverage of a character being twelve times
/// its index, more by one from pixel to pixel.
fn atlas() -> CharAtlas {
    let m = SizeMetrics { ascender: 128, height: 128, max_advance: 128 };
    let glyphs = (0..CHAR_COUNT as u8)
        .map(|i| Glyph {
            buffer: (0..4).map(|p| 12 * i + p).collect(),
            rows: 2,
            width: 2,
            left: 0,
            top: 2,
            advance: 128,
        })
        .collect();
    build_atlas(&m, &glyphs).unwrap().0
}

fn planes(width: u32, height: u32) -> Planes {
    let n = width * height;
    Planes {
        width,
        height,
        luma: (0..n).map(|i| (i * i % 251) as u8).collect(),
        rgb: (0..3 * n).map(|i| (7 * i % 256) as u8).collect(),
    }
}

#[test]
fn characters_are_drawn_over_the_colours() {
    let (w, h) = (5, 4);
    let planes = planes(w, h);
    let readings = vec![reading(0), reading(3), reading(9), reading(5)];
    let (indices, frame, debug) = process_frame(&atlas(), &planes, 2, 2, &readings, false);
    assert!(debug.is_none());
    assert_eq!(indices, [0, 3, 9, 5]);
    assert_eq!((frame.width, frame.height), (4, 4));
    for y in 0..4 {
        for x in 0..4 {
            let index = indices[y / 2 * 2 + x / 2];
            let coverage = 12 * index + y % 2 * 2 + x % 2;
            for c in 0..3 {
                let at = (y * 4 + x) * 3 + c;
                let value = coverage as f32 / 255.0 * planes.rgb[at] as f32;
                assert_eq!(frame.data[at], value.round() as u8);
            }
        }
    }
}

#[test]
fn shading_rounds_like_floating_point() {
    let m = SizeMetrics { ascender: 128, height: 128, max_advance: 128 };
    let all: Vec<u8> = (0..=255).collect();
    for coverage in 0..=255_u8 {
        let glyphs = (0..CHAR_COUNT)
            .map(|_| Glyph {
                buffer: vec![coverage; 4],
                rows: 2,
                width: 2,
                left: 0,
                top: 2,
                advance: 128,
            })
            .collect();
        let atlas = build_atlas(&m, &glyphs).unwrap().0;
        let mut rgb = vec![0; 176 * 3];
        rgb[..256].copy_from_slice(&all);
        let planes = Planes { width: 88, height: 2, luma: vec![0; 176], rgb };
        let readings = (0..44).map(|_| reading(0)).collect();
        let (_, frame, _) = process_frame(&atlas, &planes, 2, 2, &readings, false);
        for value in 0..256 {
            let exact = (coverage as f32 / 255.0 * value as f32).round() as u8;
            assert_eq!(frame.data[value], exact, "{coverage} {value}");
        }
    }
}

#[test]
fn shading_never_brightens() {
    let planes = planes(4, 4);
    let readings = (0..4).map(|_| reading(9)).collect();
    let (_, frame, _) = process_frame(&atlas(), &planes, 2, 2, &readings, false);
    for (shaded, value) in frame.data.iter().zip(&planes.rgb) {
        assert!(shaded <= value);
    }
}

#[test]
fn an_image_smaller_than_a_cell_has_no_cells() {
    let planes = planes(1, 9);
    assert!(measure_frame(&planes, 2, 2).is_empty());
    let (indices, frame, _) = process_frame(&atlas(), &planes, 2, 2, &Vec::new(), false);
    assert!(indices.is_empty());
    assert_eq!((frame.width, frame.height), (0, 8));
    assert!(frame.data.is_empty());
}

#[test]
fn cells_are_measured_by_quadrants() {
    let (w, h) = (9, 6);
    let planes = planes(w, h);
    let luma = |x: i64, y: i64| {
        let (x, y) = (x.clamp(0, w as i64 - 1), y.clamp(0, h as i64 - 1));
        planes.luma[(y * w as i64 + x) as usize] as i64
    };
    let sobel = |x: i64, y: i64| {
        let side = |d: i64| luma(x + d, y - 1) + 2 * luma(x + d, y) + luma(x + d, y + 1);
        let edge = |d: i64| luma(x - 1, y + d) + 2 * luma(x, y + d) + luma(x + 1, y + d);
        (side(1) - side(-1), edge(1) - edge(-1))
    };
    let samples = measure_frame(&planes, 4, 2);
    assert_eq!(samples.len(), 6);
    for (k, sample) in samples.iter().enumerate() {
        let (x0, y0) = ((k % 2 * 4) as i64, (k / 2 * 2) as i64);
        let quadrant = |dx: i64, dy: i64| {
            let mut t = StructureTensor::new(2);
            for x in x0 + dx..x0 + dx + 2 {
                let (gx, gy) = sobel(x, y0 + dy);
                t.gx_squared += gx * gx;
                t.gxgy += gx * gy;
                t.gy_squared += gy * gy;
            }
            t
        };
        assert_eq!((sample.tensors.cell_w, sample.tensors.cell_h), (4, 2));
        assert_eq!(sample.tensors.tl, quadrant(0, 0));
        assert_eq!(sample.tensors.tr, quadrant(2, 0));
        assert_eq!(sample.tensors.bl, quadrant(0, 1));
        assert_eq!(sample.tensors.br, quadrant(2, 1));
        let expected: Vec<u8> = [(0, 0), (2, 0), (0, 1), (2, 1)]
            .iter()
            .flat_map(|&(dx, dy)| [(dx, dy), (dx + 1, dy)])
            .map(|(dx, dy)| luma(x0 + dx, y0 + dy) as u8)
            .collect();
        assert_eq!(sample.luma, expected);
    }
}

#[test]
fn text_has_a_line_for_each_row_of_cells() {
    assert_eq!(char_indices_to_string(2, 2, 7, 5, &[0, 1, 9, 10, 13, 20]), " .■\n|\\X\n");
    assert_eq!(char_indices_to_string(2, 3, 1, 7, &[]), "\n\n");
    assert_eq!(char_indices_to_string(2, 3, 4, 2, &[5]), "");
    assert_eq!(char_indices_to_string(1, 1, 1, 1, &[4, 99]), "o\n");
}

#[test]
fn text_tells_the_indices() {
    let indices: Vec<usize> = (0..CHAR_COUNT).collect();
    let text = char_indices_to_string(1, 1, 7, 3, &indices);
    let lines: Vec<&str> = text.lines().collect();
    assert_eq!(lines, [" .:*o?#", "%@■|/-\\", "^V<>TLX"]);
}

#[test]
fn there_is_no_text_where_there_is_no_row() {
    assert_eq!(char_indices_to_string(0, 3, 4, 2, &[]), "");
    assert_eq!(char_indices_to_string(2, 3, 4, 2, &[99]), "");
}

#[test]
fn gradients_for_debugging_change_nothing() {
    let planes = planes(6, 4);
    let readings = (0..6).map(reading).collect();
    let (indices_a, frame_a, none) = process_frame(&atlas(), &planes, 2, 2, &readings, false);
    let (indices_b, frame_b, some) = process_frame(&atlas(), &planes, 2, 2, &readings, true);
    assert_eq!(indices_a, indices_b);
    assert_eq!((frame_a.width, frame_a.height), (frame_b.width, frame_b.height));
    assert_eq!(frame_a.data, frame_b.data);
    assert!(none.is_none());
    let expected = gradients(6, 4, &planes.luma);
    let grad = some.unwrap();
    assert_eq!(grad.gx, expected.gx);
    assert_eq!(grad.gy, expected.gy);
}

#[test]
fn a_cell_depends_on_its_pixels_and_the_ring_round_them() {
    let (w, h) = (12, 12);
    let a = planes(w, h);
    let before = measure_frame(&a, 4, 4);
    for y in 0..h {
        for x in 0..w {
            let mut b = planes(w, h);
            b.luma[(y * w + x) as usize] ^= 0x55;
            let after = measure_frame(&b, 4, 4);
            for (k, (p, q)) in before.iter().zip(&after).enumerate() {
                let (x0, y0) = (k as u32 % 3 * 4, k as u32 / 3 * 4);
                let near = x + 1 >= x0 && x <= x0 + 4 && y + 1 >= y0 && y <= y0 + 4;
                if !near {
                    assert_eq!(p.tensors, q.tensors);
                    assert_eq!(p.luma, q.luma);
                }
            }
        }
    }
}

#[test]
fn mirrored_cells_show_mirrored_edges() {
    let halves = [(false, false), (true, false), (false, true)];
    for l in halves {
        for r in halves {
            for t in halves {
                for b in halves {
                    let tests = |l: (bool, bool), r: (bool, bool), t: (bool, bool), b: (bool, bool)| {
                        let mut s = no_strokes();
                        (s.left_slash, s.left_backslash) = l;
                        (s.right_slash, s.right_backslash) = r;
                        (s.top_slash, s.top_backslash) = t;
                        (s.bottom_slash, s.bottom_backslash) = b;
                        try_special(&s)
                    };
                    let plain = tests(l, r, t, b);
                    assert_eq!(plain == Some(5), tests(r, l, t, b) == Some(4));
                    assert_eq!(plain == Some(7), tests(l, r, b, t) == Some(6));
                    assert!(plain.map_or(true, |edge| (4..=10).contains(&edge)));
                }
            }
        }
    }
}

#[test]
fn a_cell_of_an_image_depends_on_its_pixels_and_the_ring_round_them() {
    let (w, h) = (10, 8);
    for (layout, channels) in [(Layout::LumaAlpha, 2), (Layout::Rgb, 3)] {
        let image = |changed: Option<usize>| {
            let mut samples: Vec<u8> = (0..w * h * channels).map(|i| (i * 37 % 251) as u8).collect();
            if let Some(p) = changed {
                for c in 0..channels as usize {
                    samples[p * channels as usize + c] ^= 0x3c;
                }
            }
            let image = SourceImage { width: w, height: h, layout, samples: Samples::Bits8(samples) };
            measure_frame(&read_planes(&image), 2, 4)
        };
        let before = image(None);
        for p in 0..(w * h) as usize {
            let (x, y) = (p as u32 % w, p as u32 / w);
            for (k, (a, b)) in before.iter().zip(&image(Some(p))).enumerate() {
                let (x0, y0) = (k as u32 % 5 * 2, k as u32 / 5 * 4);
                if x + 1 < x0 || x > x0 + 2 || y + 1 < y0 || y > y0 + 4 {
                    assert_eq!(a.tensors, b.tensors);
                    assert_eq!(a.luma, b.luma);
                }
            }
        }
    }
}
