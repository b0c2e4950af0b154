use edge_ascii::ffmpeg_encoder::{
    Codec, CompressionLevel, EncodeJob, FfmpegEncoder, RateControl, Vendor,
};
use edge_ascii::frame::RgbFrame;
use edge_ascii::pipeline::{
    crop_render, decoded, end_messages, is_video, output_size, processing_threads, queue_full, reports_progress, too_small, MediaKind,
    ProcessedFrame, ReorderQueue, QUEUE_WAIT_MILLIS,
};
use edge_ascii::util::image_to_frame;

#[test]
fn kinds_of_input() {
    assert_eq!(is_video(MediaKind::Video), Some(true));
    assert_eq!(is_video(MediaKind::Image), Some(false));
    assert_eq!(is_video(MediaKind::Other), None);
}

#[test]
fn an_input_has_to_hold_four_cells_each_way() {
    assert!(!too_small(40, 80, 10, 20));
    assert!(too_small(39, 80, 10, 20));
    assert!(too_small(40, 79, 10, 20));
}

#[test]
fn the_output_is_even() {
    assert_eq!(output_size(1920, 1080, 8, 16), (1920, 1072));
    assert_eq!(output_size(100, 50, 7, 9), (98, 44));
    assert_eq!(output_size(21, 10, 7, 11), (20, 0));
    for side in 0..200 {
        for cell in 1..20 {
            let (w, h) = output_size(side, side, cell, cell);
            assert_eq!(w, h);
            assert_eq!(w % 2, 0);
            assert!(w <= side / cell * cell);
        }
    }
}

#[test]
fn threads_for_the_conversion() {
    assert_eq!(processing_threads(16, true, true), 4);
    assert_eq!(processing_threads(16, true, false), 12);
    assert_eq!(processing_threads(16, false, true), 12);
    assert_eq!(processing_threads(16, false, false), 15);
    assert_eq!(processing_threads(3, true, true), 1);
    assert_eq!(processing_threads(4, false, true), 1);
    assert_eq!(processing_threads(1, false, false), 1);
    assert_eq!(processing_threads(0, false, false), 1);
}

#[test]
fn the_decoder_waits_for_a_full_queue() {
    assert!(!queue_full(24));
    assert!(queue_full(25));
    assert_eq!(QUEUE_WAIT_MILLIS, 400);
}

#[test]
fn progress_is_reported_now_and_then() {
    assert!(reports_progress(30));
    assert!(reports_progress(60));
    assert!(!reports_progress(31));
}

fn processed(id: u32) -> ProcessedFrame {
    ProcessedFrame { id, frame: RgbFrame { width: 1, height: 1, data: vec![id as u8; 3] } }
}

fn run(ids: &[u32]) -> Vec<Vec<u8>> {
    let mut queue = ReorderQueue::new();
    ids.iter()
        .map(|&id| queue.push(processed(id)).iter().map(|frame| frame.data[0]).collect())
        .collect()
}

#[test]
fn frames_leave_in_order() {
    assert_eq!(run(&[0, 1, 2]), [vec![0], vec![1], vec![2]]);
    assert_eq!(run(&[2, 0, 1]), [vec![], vec![0], vec![1, 2]]);
    assert_eq!(run(&[3, 2, 1, 0]), [vec![], vec![], vec![], vec![0, 1, 2, 3]]);
}

#[test]
fn frames_behind_a_gap_wait() {
    assert_eq!(run(&[1, 2, 3]), [vec![0_u8; 0], vec![], vec![]]);
    assert_eq!(run(&[0, 2, 4, 1]), [vec![0], vec![], vec![], vec![1, 2]]);
}

#[test]
fn every_order_of_arrival_gives_the_same_video() {
    for a in 0..4 {
        for b in 0..4 {
            for c in 0..4 {
                let d = 6 - (a + b + c) as i64;
                let ids = [a, b, c, d as u32];
                let mut sorted = ids.to_vec();
                sorted.sort();
                if d < 0 || sorted != [0, 1, 2, 3] {
                    continue;
                }
                let out: Vec<u8> = run(&ids).concat();
                assert_eq!(out, [0, 1, 2, 3]);
            }
        }
    }
}

#[test]
fn cropped_frames_fit_the_encoder() {
    for (width, height, cell_w, cell_h) in [(50, 40, 7, 9), (64, 64, 8, 16), (33, 35, 3, 5)] {
        let (out_w, out_h) = output_size(width, height, cell_w, cell_h);
        let job = EncodeJob {
            width: out_w,
            height: out_h,
            fps: "25/1".to_string(),
            output: "out.mkv".to_string(),
            codec: Codec::H264,
            quality: CompressionLevel::Fast,
            rate: RateControl::Constant,
        };
        let run = FfmpegEncoder::new(&job, Vendor::Software, "libx264".to_string());
        let (w, h) = (width / cell_w * cell_w, height / cell_h * cell_h);
        let render = RgbFrame { width: w, height: h, data: vec![9; (w * h * 3) as usize] };
        let bytes = run.encode_frame(&image_to_frame(crop_render(render, out_w, out_h)));
        assert_eq!(bytes.unwrap().len(), (out_w * out_h * 3) as usize);
    }
}

#[test]
fn decoded_frames_are_numbered() {
    assert_eq!(decoded(0, true), (Some(0), 1));
    assert_eq!(decoded(7, true), (Some(7), 8));
    assert_eq!(decoded(7, false), (None, 7));
    assert_eq!(decoded(u32::MAX, false), (None, u32::MAX));
}

#[test]
fn every_thread_is_told_the_end() {
    for available in 1..40 {
        for (a, b) in [(false, false), (false, true), (true, false), (true, true)] {
            assert!(processing_threads(available, a, b) <= end_messages(available));
        }
    }
    assert_eq!(end_messages(16), 16);
}
