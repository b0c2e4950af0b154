use edge_ascii::frame::{
    gradients, magnitude, read_planes, Gradients, Layout, RgbFrame, Samples, SourceImage,
};
use edge_ascii::pipeline::crop_render;
use edge_ascii::util::image_to_frame;

fn image8(width: u32, height: u32, layout: Layout, samples: Vec<u8>) -> SourceImage {
    SourceImage { width, height, layout, samples: Samples::Bits8(samples) }
}

fn image16(width: u32, height: u32, layout: Layout, samples: Vec<u16>) -> SourceImage {
    SourceImage { width, height, layout, samples: Samples::Bits16(samples) }
}

#[test]
fn luma_stands_for_all_colours() {
    let planes = read_planes(&image8(256, 1, Layout::Luma, (0..=255).collect()));
    for v in 0..256 {
        assert_eq!(planes.luma[v], v as u8);
        assert_eq!(planes.rgb[3 * v..3 * v + 3], [v as u8; 3]);
    }
}

#[test]
fn alpha_is_dropped() {
    let planes = read_planes(&image8(2, 1, Layout::LumaAlpha, vec![10, 0, 20, 255]));
    assert_eq!(planes.luma, [10, 20]);
    assert_eq!(planes.rgb, [10, 10, 10, 20, 20, 20]);
    let planes = read_planes(&image8(1, 2, Layout::Rgba, vec![255, 0, 0, 0, 0, 0, 255, 255]));
    assert_eq!(planes.rgb, [255, 0, 0, 0, 0, 255]);
    assert_eq!(planes.luma, [54, 18]);
}

#[test]
fn luma_of_colours() {
    let planes =
        read_planes(&image8(3, 1, Layout::Rgb, vec![255, 0, 0, 0, 255, 0, 0, 0, 255]));
    assert_eq!(planes.luma, [54, 182, 18]);
    assert_eq!(planes.rgb, [255, 0, 0, 0, 255, 0, 0, 0, 255]);
    assert_eq!((planes.width, planes.height), (3, 1));
}

#[test]
fn luma_is_close_to_the_weighted_sum() {
    let mut samples = Vec::new();
    for r in (0..=255).step_by(15) {
        for g in (0..=255).step_by(17) {
            for b in (0..=255).step_by(5) {
                samples.extend([r as u8, g as u8, b as u8]);
            }
        }
    }
    let n = samples.len() / 3;
    let planes = read_planes(&image8(n as u32, 1, Layout::Rgb, samples.clone()));
    for p in 0..n {
        let [r, g, b] = [0, 1, 2].map(|c| samples[3 * p + c] as i64);
        let weighted = 2126 * r + 7152 * g + 722 * b;
        assert!((10000 * planes.luma[p] as i64 - weighted).abs() <= 6000, "{r} {g} {b}");
    }
}

#[test]
fn grey_keeps_its_value() {
    let samples = (0..=255_u8).flat_map(|v| [v, v, v]).collect();
    let planes = read_planes(&image8(256, 1, Layout::Rgb, samples));
    assert_eq!(planes.luma, (0..=255).collect::<Vec<u8>>());
}

#[test]
fn sixteen_bits_are_narrowed_to_the_nearest_value() {
    let all: Vec<u16> = (0..=65535).collect();
    let planes = read_planes(&image16(256, 256, Layout::Luma, all.clone()));
    for v in all {
        let nearest = ((v as u32 + 128) / 257) as u8;
        assert_eq!(planes.luma[v as usize], nearest);
        let at = 3 * v as usize;
        assert_eq!(planes.rgb[at..at + 3], [nearest; 3]);
    }
}

#[test]
fn sixteen_bit_colours() {
    let samples = vec![65535, 0, 257, 1, 0, 65535, 128, 65535];
    let planes = read_planes(&image16(2, 1, Layout::Rgba, samples));
    assert_eq!(planes.rgb, [255, 0, 1, 0, 255, 0]);
    assert_eq!(planes.luma, [54, 182]);
    let planes = read_planes(&image16(1, 1, Layout::Rgb, vec![129, 128, 65535]));
    assert_eq!(planes.rgb, [1, 0, 255]);
    let planes = read_planes(&image16(1, 1, Layout::LumaAlpha, vec![771, 9]));
    assert_eq!(planes.rgb, [3, 3, 3]);
    assert_eq!(planes.luma, [3]);
}

#[test]
fn gradients_of_an_edge() {
    let luma = vec![0, 0, 255, 255, 0, 0, 255, 255, 0, 0, 255, 255];
    let g = gradients(4, 3, &luma);
    assert_eq!(g.gx, [0, 1020, 1020, 0, 0, 1020, 1020, 0, 0, 1020, 1020, 0]);
    assert_eq!(g.gy, [0; 12]);
    let luma = vec![255, 255, 255, 0, 0, 0];
    let g = gradients(3, 2, &luma);
    assert_eq!(g.gx, [0; 6]);
    assert_eq!(g.gy, [-1020; 6]);
}

#[test]
fn gradients_of_a_corner() {
    let luma = vec![0, 0, 0, 0, 0, 0, 0, 0, 100];
    let g = gradients(3, 3, &luma);
    assert_eq!(g.gx[4], 100);
    assert_eq!(g.gy[4], 100);
    assert_eq!(g.gx[8], 300);
    assert_eq!(g.gy[8], 300);
    assert_eq!(g.gx[0], 0);
}

#[test]
fn a_flat_image_has_no_gradients() {
    let g = gradients(5, 4, &vec![77; 20]);
    assert_eq!(g.gx, [0; 20]);
    assert_eq!(g.gy, [0; 20]);
    assert_eq!(g.magnitudes(), [0; 20]);
}

#[test]
fn an_empty_image_has_no_gradients() {
    let g = gradients(0, 3, &Vec::new());
    assert!(g.gx.is_empty());
    assert!(g.gy.is_empty());
}

#[test]
fn magnitudes_are_rounded() {
    assert_eq!(magnitude(3, 4), 5);
    assert_eq!(magnitude(1, 1), 1);
    assert_eq!(magnitude(-1, 2), 2);
    assert_eq!(magnitude(i16::MIN, i16::MIN), 255);
    for x in 0..=300_i16 {
        for y in 0..=300_i16 {
            let (a, b) = (x as f32, y as f32);
            let rounded = (a * a + b * b).sqrt().round().min(255.0) as u8;
            assert_eq!(magnitude(x, -y), rounded);
        }
    }
    let g = Gradients { gx: vec![3, 0], gy: vec![-4, 254] };
    assert_eq!(g.magnitudes(), [5, 254]);
}

fn numbered(width: u32, height: u32) -> RgbFrame {
    let data = (0..width * height * 3).map(|i| i as u8).collect();
    RgbFrame { width, height, data }
}

#[test]
fn frames_are_cropped_at_the_right_and_the_bottom() {
    let part = crop_render(numbered(3, 3), 2, 2);
    assert_eq!((part.width, part.height), (2, 2));
    assert_eq!(part.data, [0, 1, 2, 3, 4, 5, 9, 10, 11, 12, 13, 14]);
}

#[test]
fn a_crop_goes_no_further_than_the_frame() {
    let part = crop_render(numbered(2, 1), 5, 7);
    assert_eq!((part.width, part.height), (2, 1));
    assert_eq!(part.data, [0, 1, 2, 3, 4, 5]);
    let part = crop_render(numbered(2, 2), 0, 1);
    assert_eq!((part.width, part.height), (0, 1));
    assert!(part.data.is_empty());
}

#[test]
fn an_empty_image_becomes_an_empty_frame() {
    let _ = image_to_frame(numbered(0, 5));
    let _ = image_to_frame(numbered(5, 0));
}
