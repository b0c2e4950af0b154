use edge_ascii::ffmpeg_encoder::{
    create_rate_and_preset_args, encode_args, encoder_name, hw_setup_args, probe_args, probe_order,
    select_encoder, vendor_order, Codec, CompressionLevel, EncodeError, EncodeJob, FfmpegEncoder,
    RateControl, Vendor,
};
use edge_ascii::frame::RgbFrame;
use edge_ascii::platform::Platform;
use edge_ascii::util::image_to_frame;

const VENDORS: [Vendor; 6] = [
    Vendor::Nvenc,
    Vendor::Amf,
    Vendor::Vaapi,
    Vendor::Qsv,
    Vendor::VideoToolbox,
    Vendor::Software,
];

const CODECS: [Codec; 3] = [Codec::H264, Codec::H265, Codec::Av1];

fn rate_args(codec: Codec, vendor: Vendor, level: CompressionLevel, rate: RateControl) -> String {
    create_rate_and_preset_args(codec, vendor, level, &rate).join(" ")
}

fn bitrate(avg_kbps: u32, max_kbps: Option<u32>) -> RateControl {
    RateControl::Bitrate { avg_kbps, max_kbps }
}

#[test]
fn constant_quality() {
    let balanced = |codec, vendor| {
        rate_args(codec, vendor, CompressionLevel::Balanced, RateControl::Constant)
    };
    assert_eq!(balanced(Codec::H265, Vendor::Nvenc), "-preset p4 -rc constqp -qp 23");
    assert_eq!(
        balanced(Codec::H265, Vendor::Amf),
        "-quality balanced -rc cqp -qp_i 23 -qp_p 23 -qp_b 23"
    );
    assert_eq!(balanced(Codec::H265, Vendor::Qsv), "-preset medium -global_quality 23");
    assert_eq!(balanced(Codec::H265, Vendor::Vaapi), "-compression_level 4 -rc_mode CQP -qp 23");
    assert_eq!(balanced(Codec::H265, Vendor::VideoToolbox), "-q:v 50");
    assert_eq!(balanced(Codec::H264, Vendor::Software), "-preset medium -crf 23");
    assert_eq!(balanced(Codec::H265, Vendor::Software), "-preset medium -crf 23");
    assert_eq!(balanced(Codec::Av1, Vendor::Software), "-preset 6 -crf 30");
}

#[test]
fn compression_levels() {
    let at = |vendor, level| rate_args(Codec::Av1, vendor, level, RateControl::Constant);
    assert_eq!(at(Vendor::Nvenc, CompressionLevel::Fast), "-preset p1 -rc constqp -qp 23");
    assert_eq!(at(Vendor::Nvenc, CompressionLevel::High), "-preset p7 -rc constqp -qp 23");
    assert_eq!(at(Vendor::Software, CompressionLevel::Fast), "-preset 10 -crf 30");
    assert_eq!(at(Vendor::Software, CompressionLevel::High), "-preset 2 -crf 30");
    assert_eq!(
        at(Vendor::Vaapi, CompressionLevel::Fast),
        "-compression_level 7 -rc_mode CQP -qp 23"
    );
    assert_eq!(
        at(Vendor::Vaapi, CompressionLevel::High),
        "-compression_level 0 -rc_mode CQP -qp 23"
    );
    assert_eq!(at(Vendor::VideoToolbox, CompressionLevel::Fast), "-realtime 1 -q:v 50");
    assert_eq!(at(Vendor::VideoToolbox, CompressionLevel::High), "-q:v 50");
    assert_eq!(at(Vendor::Qsv, CompressionLevel::Fast), "-preset veryfast -global_quality 23");
    assert_eq!(at(Vendor::Qsv, CompressionLevel::High), "-preset veryslow -global_quality 23");
    assert_eq!(
        at(Vendor::Amf, CompressionLevel::High),
        "-quality quality -rc cqp -qp_i 23 -qp_p 23 -qp_b 23"
    );
}

#[test]
fn bitrate_with_a_cap() {
    let capped = |codec, vendor| {
        rate_args(codec, vendor, CompressionLevel::Balanced, bitrate(4000, Some(6000)))
    };
    assert_eq!(
        capped(Codec::H264, Vendor::Nvenc),
        "-preset p4 -rc vbr -b:v 4000k -maxrate 6000k -bufsize 12000k"
    );
    assert_eq!(
        capped(Codec::H264, Vendor::Amf),
        "-quality balanced -rc vbr_peak -b:v 4000k -maxrate 6000k"
    );
    assert_eq!(capped(Codec::H264, Vendor::Qsv), "-preset medium -b:v 4000k -maxrate 6000k");
    assert_eq!(
        capped(Codec::H264, Vendor::Vaapi),
        "-compression_level 4 -rc_mode VBR -b:v 4000k -maxrate 6000k"
    );
    assert_eq!(
        capped(Codec::H264, Vendor::VideoToolbox),
        "-b:v 4000k -maxrate 6000k -bufsize 12000k"
    );
    assert_eq!(
        capped(Codec::H264, Vendor::Software),
        "-preset medium -b:v 4000k -maxrate 6000k -bufsize 12000k"
    );
    assert_eq!(capped(Codec::Av1, Vendor::Software), "-preset 6 -b:v 4000k");
}

#[test]
fn bitrate_without_a_cap() {
    let free =
        |codec, vendor| rate_args(codec, vendor, CompressionLevel::Balanced, bitrate(0, None));
    assert_eq!(free(Codec::H264, Vendor::Nvenc), "-preset p4 -rc cbr -b:v 0k");
    assert_eq!(free(Codec::H264, Vendor::Amf), "-quality balanced -rc cbr -b:v 0k");
    assert_eq!(free(Codec::H264, Vendor::Qsv), "-preset medium -b:v 0k");
    assert_eq!(free(Codec::H264, Vendor::Vaapi), "-compression_level 4 -rc_mode CBR -b:v 0k");
    assert_eq!(free(Codec::H264, Vendor::VideoToolbox), "-b:v 0k");
    assert_eq!(free(Codec::H265, Vendor::Software), "-preset medium -b:v 0k");
    assert_eq!(free(Codec::Av1, Vendor::Software), "-preset 6 -b:v 0k");
}

#[test]
fn the_largest_rate() {
    assert_eq!(
        rate_args(
            Codec::H264,
            Vendor::Nvenc,
            CompressionLevel::Fast,
            bitrate(u32::MAX, Some(u32::MAX / 2))
        ),
        "-preset p1 -rc vbr -b:v 4294967295k -maxrate 2147483647k -bufsize 4294967294k"
    );
}

#[test]
fn level_names() {
    assert_eq!(CompressionLevel::Fast.name(), "fast");
    assert_eq!(CompressionLevel::Balanced.name(), "balanced");
    assert_eq!(CompressionLevel::High.name(), "high");
    assert_eq!(CompressionLevel::Fast.idx(), 0);
    assert_eq!(CompressionLevel::Balanced.idx(), 1);
    assert_eq!(CompressionLevel::High.idx(), 2);
}

#[test]
fn encoder_names() {
    assert_eq!(encoder_name(Codec::H264, Vendor::Software), "libx264");
    assert_eq!(encoder_name(Codec::H265, Vendor::Software), "libx265");
    assert_eq!(encoder_name(Codec::Av1, Vendor::Software), "libsvtav1");
    assert_eq!(encoder_name(Codec::H265, Vendor::Nvenc), "hevc_nvenc");
    assert_eq!(encoder_name(Codec::H264, Vendor::Amf), "h264_amf");
    assert_eq!(encoder_name(Codec::Av1, Vendor::Vaapi), "av1_vaapi");
    assert_eq!(encoder_name(Codec::Av1, Vendor::Qsv), "av1_qsv");
    assert_eq!(encoder_name(Codec::H264, Vendor::VideoToolbox), "h264_videotoolbox");
}

#[test]
fn no_two_encoders_have_the_same_name() {
    let mut names = Vec::new();
    for codec in CODECS {
        for vendor in VENDORS {
            names.push(encoder_name(codec, vendor));
        }
    }
    let count = names.len();
    names.sort();
    names.dedup();
    assert_eq!(names.len(), count);
}

#[test]
fn setup_of_hardware() {
    let setup = |vendor| {
        let (before, after) = hw_setup_args(vendor);
        (before.join(" "), after.join(" "))
    };
    let s = |a: &str, b: &str| (a.to_string(), b.to_string());
    assert_eq!(setup(Vendor::Nvenc), s("", "-pix_fmt p010le"));
    assert_eq!(setup(Vendor::Amf), s("", "-pix_fmt p010le"));
    assert_eq!(setup(Vendor::VideoToolbox), s("", "-pix_fmt p010le"));
    assert_eq!(setup(Vendor::Software), s("", "-pix_fmt yuv420p10le"));
    assert_eq!(
        setup(Vendor::Vaapi),
        s("-vaapi_device /dev/dri/renderD128", "-vf format=p010le,hwupload")
    );
    assert_eq!(
        setup(Vendor::Qsv),
        s(
            "-init_hw_device qsv=hw -filter_hw_device hw",
            "-vf format=p010le,hwupload=extra_hw_frames=64"
        )
    );
}

#[test]
fn arguments_of_a_test_run() {
    assert_eq!(
        probe_args(Codec::H265, Vendor::Vaapi).join(" "),
        "-hide_banner -v error -nostdin -vaapi_device /dev/dri/renderD128 \
         -f lavfi -i color=c=black:s=128x128:r=30:d=0.1 -vf format=p010le,hwupload \
         -c:v hevc_vaapi -frames:v 1 -f null -"
    );
}

fn job() -> EncodeJob {
    EncodeJob {
        width: 4,
        height: 2,
        fps: "30000/1001".to_string(),
        output: "./output/a b.mkv".to_string(),
        codec: Codec::H265,
        quality: CompressionLevel::Balanced,
        rate: RateControl::Constant,
    }
}

#[test]
fn arguments_of_an_encoding_run() {
    let args = encode_args(&job(), Vendor::Software, "libx265");
    assert_eq!(
        args.join(" "),
        "-hide_banner -v error -nostdin -f rawvideo -pix_fmt rgb24 -s 4x2 -r 30000/1001 \
         -i pipe:0 -pix_fmt yuv420p10le -c:v libx265 -preset medium -crf 23 -y ./output/a b.mkv"
    );
    assert_eq!(args.last().map(|s| s.as_str()), Some("./output/a b.mkv"));
}

#[test]
fn vendors_of_each_platform() {
    assert_eq!(vendor_order(Platform::MacOs), [Vendor::VideoToolbox, Vendor::Software]);
    assert_eq!(
        vendor_order(Platform::Windows),
        [Vendor::Nvenc, Vendor::Amf, Vendor::Qsv, Vendor::Software]
    );
    assert_eq!(
        vendor_order(Platform::Other),
        [Vendor::Nvenc, Vendor::Vaapi, Vendor::Amf, Vendor::Qsv, Vendor::Software]
    );
}

#[test]
fn a_preferred_vendor_comes_first() {
    assert_eq!(probe_order(Platform::MacOs, None), vendor_order(Platform::MacOs));
    assert_eq!(
        probe_order(Platform::Other, Some(Vendor::Qsv)),
        [Vendor::Qsv, Vendor::Nvenc, Vendor::Vaapi, Vendor::Amf, Vendor::Software]
    );
    assert_eq!(
        probe_order(Platform::MacOs, Some(Vendor::Nvenc)),
        [Vendor::Nvenc, Vendor::VideoToolbox, Vendor::Software]
    );
}

#[test]
fn the_first_encoder_that_works_is_selected() {
    let mut s = select_encoder(Platform::Other, Codec::Av1, Some(Vendor::Amf));
    let mut tried = Vec::new();
    while let Some(vendor) = s.next_probe() {
        tried.push(vendor);
        s.record(vendor == Vendor::Vaapi || vendor == Vendor::Software);
    }
    assert_eq!(tried, [Vendor::Amf, Vendor::Nvenc, Vendor::Vaapi]);
    assert_eq!(s.selected(), Some((Vendor::Vaapi, "av1_vaapi".to_string())));
}

#[test]
fn no_encoder_is_selected_where_none_works() {
    let mut s = select_encoder(Platform::MacOs, Codec::H264, None);
    while s.next_probe().is_some() {
        s.record(false);
    }
    assert_eq!(s.selected(), None);
}

fn frame(width: u32, height: u32) -> RgbFrame {
    let data = (0..width * height * 3).map(|i| i as u8).collect();
    RgbFrame { width, height, data }
}

#[test]
fn frames_of_the_right_size_are_encoded_row_by_row() {
    let run = FfmpegEncoder::new(&job(), Vendor::Nvenc, "hevc_nvenc".to_string());
    let bytes = run.encode_frame(&image_to_frame(frame(4, 2))).unwrap();
    assert_eq!(bytes, (0..24).collect::<Vec<u8>>());
    assert_eq!(run.selected_encoder(), "hevc_nvenc");
    assert_eq!(run.selected_vendor(), Vendor::Nvenc);
}

#[test]
fn frames_of_another_size_are_refused() {
    let run = FfmpegEncoder::new(&job(), Vendor::Software, "libx265".to_string());
    let e = run.encode_frame(&image_to_frame(frame(4, 3))).unwrap_err();
    assert!(matches!(
        e,
        EncodeError::FrameSize { got: 36, expected: 24, width: 4, height: 2 }
    ));
    assert_eq!(e.message(""), "frame size mismatch: got 36 bytes, expected 24 (4x2x3)");
}

#[test]
fn a_finished_run_takes_no_frames_and_is_waited_for_once() {
    let mut run = FfmpegEncoder::new(&job(), Vendor::Software, "libx265".to_string());
    assert!(run.finish());
    assert!(!run.finish());
    let e = run.encode_frame(&image_to_frame(frame(4, 2))).unwrap_err();
    assert!(matches!(e, EncodeError::Finished));
    assert_eq!(e.message(""), "encoder already finished");
    let e = run.encode_frame(&image_to_frame(frame(1, 1))).unwrap_err();
    assert!(matches!(e, EncodeError::FrameSize { .. }));
}

#[test]
fn a_failed_run_is_reported() {
    let run = FfmpegEncoder::new(&job(), Vendor::Software, "libx265".to_string());
    assert!(run.exited(true).is_ok());
    let e = run.exited(false).unwrap_err();
    assert!(matches!(e, EncodeError::Failed { .. }));
    assert_eq!(
        e.message("exit status: 1"),
        "ffmpeg exited with status exit status: 1 while writing ./output/a b.mkv"
    );
}

fn selected(platform: Platform, preferred: Option<Vendor>, working: &[Vendor]) -> Option<Vendor> {
    let mut s = select_encoder(platform, Codec::H264, preferred);
    while let Some(vendor) = s.next_probe() {
        s.record(working.contains(&vendor));
    }
    s.selected().map(|(vendor, _)| vendor)
}

#[test]
fn a_preference_counts_only_if_it_works() {
    let sets = [
        vec![],
        vec![Vendor::Software],
        vec![Vendor::Qsv, Vendor::Software],
        vec![Vendor::Vaapi, Vendor::Amf],
    ];
    for platform in [Platform::MacOs, Platform::Windows, Platform::Other] {
        for working in &sets {
            let usual = selected(platform, None, working);
            for preferred in VENDORS {
                let expected = if working.contains(&preferred) { Some(preferred) } else { usual };
                assert_eq!(selected(platform, Some(preferred), working), expected);
            }
        }
    }
}
