use edge_ascii::ffmpeg_decoder::{
    choose_frame_rate, create_decoder, decode_args, ffprobe_name, hwaccel_candidates,
    metadata_args, probe_hwaccel, probe_metadata, rational_parts, read_report, reports_fallback, test_decode,
    test_decode_args, DecodeEvent, DecodeStep, FfmpegVideoDecoder, ProbeError, StreamFields,
    DECODER_PROBE_SECS,
};
use edge_ascii::platform::Platform;
use edge_ascii::util::ChildState;

#[test]
fn names_of_the_probing_program() {
    assert_eq!(ffprobe_name(Platform::Windows), "ffprobe.exe");
    assert_eq!(ffprobe_name(Platform::MacOs), "ffprobe");
    assert_eq!(ffprobe_name(Platform::Other), "ffprobe");
}

#[test]
fn arguments_of_the_probing_run() {
    assert_eq!(
        metadata_args().join(" "),
        "-v error -select_streams v:0 -show_entries \
         stream=width,height,avg_frame_rate,r_frame_rate -of default=noprint_wrappers=1"
    );
}

#[test]
fn reads_a_report_in_any_order() {
    let text = "r_frame_rate=30/1\nheight=1080\navg_frame_rate=30000/1001\nwidth=1920\n";
    let fields = read_report(text).unwrap();
    assert_eq!((fields.width, fields.height), (1920, 1080));
    assert_eq!(fields.avg_frame_rate.as_deref(), Some("30000/1001"));
    assert_eq!(fields.r_frame_rate.as_deref(), Some("30/1"));
}

#[test]
fn reads_what_the_probing_program_wrote() {
    let fields = probe_metadata(true, &b"width=8\nheight=6\nr_frame_rate=25/1\n".to_vec()).unwrap();
    assert_eq!((fields.width, fields.height), (8, 6));
    assert_eq!(fields.r_frame_rate.as_deref(), Some("25/1"));
    let fields = probe_metadata(true, &b"\xff\xfe=1\nwidth=8\nheight=6\navg_frame_rate=\xe2\x96\xa0".to_vec()).unwrap();
    assert_eq!((fields.width, fields.height), (8, 6));
    assert_eq!(fields.avg_frame_rate.as_deref(), Some("\u{25a0}"));
    assert_eq!(probe_metadata(true, &b"width=\xff".to_vec()).err(), Some(ProbeError::Width));
    assert_eq!(probe_metadata(true, &Vec::new()).err(), Some(ProbeError::Width));
    let report = b"width=8\nheight=6\nr_frame_rate=25/1\n".to_vec();
    assert_eq!(probe_metadata(false, &report).err(), Some(ProbeError::Failed));
}

#[test]
fn every_order_of_a_report_reads_the_same() {
    let lines = ["width=320", "height=240", "avg_frame_rate=0/0", "r_frame_rate=24000/1001"];
    for turn in 0..4 {
        let mut text = String::new();
        for i in 0..4 {
            text.push_str(lines[(i + turn) % 4]);
            text.push('\n');
        }
        let fields = read_report(&text).unwrap();
        assert_eq!((fields.width, fields.height), (320, 240));
        assert_eq!(fields.avg_frame_rate.as_deref(), Some("0/0"));
        assert_eq!(fields.r_frame_rate.as_deref(), Some("24000/1001"));
    }
}

#[test]
fn reports_that_lack_something() {
    assert_eq!(read_report("").err(), Some(ProbeError::Width));
    assert_eq!(read_report("width=N/A\nheight=2").err(), Some(ProbeError::Width));
    assert_eq!(read_report("width=1").err(), Some(ProbeError::Height));
    assert_eq!(read_report("width=1\nheight=-2").err(), Some(ProbeError::Height));
    let fields = read_report("width=1\nheight=2").unwrap();
    assert_eq!(fields.avg_frame_rate, None);
    assert_eq!(fields.r_frame_rate, None);
}

#[test]
fn messages_for_reports_that_lack_something() {
    assert_eq!(ProbeError::Failed.message("a.mp4"), "ffprobe failed to read a.mp4");
    assert_eq!(ProbeError::Width.message("a.mp4"), "ffprobe reported no video width for a.mp4");
    assert_eq!(ProbeError::Height.message("a.mp4"), "ffprobe reported no video height for a.mp4");
    assert_eq!(
        ProbeError::FrameRate.message("a.mp4"),
        "ffprobe reported no usable frame rate for a.mp4"
    );
}

#[test]
fn sides_of_a_ratio() {
    assert_eq!(
        rational_parts("30000 / 1001"),
        Some(("30000".to_string(), "1001".to_string()))
    );
    assert_eq!(rational_parts("1/2/3"), Some(("1".to_string(), "2/3".to_string())));
    assert_eq!(rational_parts("25"), None);
}

fn fields(avg: Option<&str>, nominal: Option<&str>) -> StreamFields {
    StreamFields {
        width: 2,
        height: 1,
        avg_frame_rate: avg.map(|s| s.to_string()),
        r_frame_rate: nominal.map(|s| s.to_string()),
    }
}

#[test]
fn the_average_frame_rate_is_preferred() {
    let both = fields(Some("24/1"), Some("25/1"));
    assert_eq!(choose_frame_rate(&both, true, true).ok().as_deref(), Some("24/1"));
    assert_eq!(choose_frame_rate(&both, false, true).ok().as_deref(), Some("25/1"));
    assert_eq!(choose_frame_rate(&both, true, false).ok().as_deref(), Some("24/1"));
    assert_eq!(choose_frame_rate(&both, false, false), Err(ProbeError::FrameRate));
    let nominal = fields(None, Some("25/1"));
    assert_eq!(choose_frame_rate(&nominal, true, true).ok().as_deref(), Some("25/1"));
    assert_eq!(
        choose_frame_rate(&fields(None, None), true, true),
        Err(ProbeError::FrameRate)
    );
}

#[test]
fn decoders_of_each_platform() {
    assert_eq!(hwaccel_candidates(Platform::MacOs), ["videotoolbox"]);
    assert_eq!(
        hwaccel_candidates(Platform::Windows),
        ["cuda", "d3d12va", "qsv", "d3d11va", "dxva2"]
    );
    assert_eq!(hwaccel_candidates(Platform::Other), ["cuda", "vaapi", "vdpau", "qsv"]);
}

#[test]
fn arguments_of_a_decoding_test() {
    let (before, after) = test_decode_args("vaapi");
    assert_eq!(
        before.join(" "),
        "-hide_banner -v warning -nostdin -hwaccel vaapi -noautorotate -i"
    );
    assert_eq!(after.join(" "), "-map 0:v:0 -frames:v 1 -f null -");
    assert_eq!(DECODER_PROBE_SECS, 8);
}

#[test]
fn arguments_of_a_decoding_run() {
    let tail = "-map 0:v:0 -f rawvideo -pix_fmt rgb24 pipe:1";
    assert_eq!(
        decode_args("in.mp4", &None).join(" "),
        format!("-hide_banner -v error -nostdin -noautorotate -i in.mp4 {tail}")
    );
    assert_eq!(
        decode_args("in.mp4", &Some("cuda".to_string())).join(" "),
        format!("-hide_banner -v error -nostdin -hwaccel cuda -noautorotate -i in.mp4 {tail}")
    );
}

#[test]
fn fallback_messages() {
    assert!(reports_fallback("[h264] failed setup for format cuda: "));
    assert!(reports_fallback("hwaccel initialization returned error"));
    assert!(reports_fallback("device creation failed: -12"));
    assert!(reports_fallback("error creating a vdpau device"));
    assert!(!reports_fallback("Failed setup for format"));
    assert!(!reports_fallback(""));
}

#[test]
fn a_test_run_that_fell_back_does_not_count() {
    let run = |success, messages: &str| test_decode(&Some((success, messages.to_string())));
    assert!(run(true, ""));
    assert!(run(true, "deprecated pixel format used"));
    assert!(!run(true, "[h264 @ 0x1] Failed setup for format cuda: HWACCEL"));
    assert!(!run(true, "ÄÖ\nDEVICE CREATION FAILED: -1"));
    assert!(!run(true, "Error creating a CUDA device"));
    assert!(!run(false, ""));
    assert!(!test_decode(&None));
}

#[test]
fn the_first_decoder_that_works_is_chosen() {
    let mut s = probe_hwaccel(Platform::Other);
    let mut tried = Vec::new();
    while let Some(name) = s.next_probe() {
        let works = name == "vdpau" || name == "qsv";
        tried.push(name.to_string());
        s.record(works);
    }
    assert_eq!(tried, ["cuda", "vaapi", "vdpau"]);
    assert_eq!(s.chosen().as_deref(), Some("vdpau"));
}

#[test]
fn no_decoder_is_chosen_where_none_works() {
    let mut s = probe_hwaccel(Platform::MacOs);
    while s.next_probe().is_some() {
        s.record(false);
    }
    assert_eq!(s.chosen(), None);
}

fn decoder(hwaccel: Option<&str>) -> FfmpegVideoDecoder {
    let hwaccel = hwaccel.map(|s| s.to_string());
    create_decoder(&fields(Some("24/1"), None), "24/1".to_string(), &hwaccel)
}

#[test]
fn a_new_decoding_run() {
    let run = decoder(Some("cuda"));
    assert_eq!(run.size(), (2, 1));
    assert_eq!(run.frame_rate_rational(), "24/1");
    assert!(!run.is_software);
    assert!(decoder(None).is_software);
}

#[test]
fn frames_come_until_the_end() {
    let mut run = decoder(None);
    assert!(matches!(run.next_frame(DecodeEvent::Requested), DecodeStep::Read(6)));
    match run.next_frame(DecodeEvent::Read(vec![1, 2, 3, 4, 5, 6])) {
        DecodeStep::Deliver(frame) => {
            assert_eq!((frame.width, frame.height), (2, 1));
            assert_eq!(frame.data, [1, 2, 3, 4, 5, 6]);
        }
        _ => panic!("no frame"),
    }
    assert!(matches!(run.next_frame(DecodeEvent::Requested), DecodeStep::Read(6)));
    assert!(matches!(run.next_frame(DecodeEvent::EndOfStream), DecodeStep::AwaitExit));
    assert!(matches!(run.next_frame(DecodeEvent::Exited(true)), DecodeStep::End));
    assert!(matches!(run.next_frame(DecodeEvent::Requested), DecodeStep::End));
    assert!(matches!(run.next_frame(DecodeEvent::Requested), DecodeStep::End));
}

#[test]
fn a_decode_that_stops_early_is_reported() {
    let mut run = decoder(None);
    assert!(matches!(run.next_frame(DecodeEvent::EndOfStream), DecodeStep::AwaitExit));
    assert!(matches!(
        run.next_frame(DecodeEvent::Exited(false)),
        DecodeStep::FailAbnormalExit
    ));
    assert!(matches!(run.next_frame(DecodeEvent::Requested), DecodeStep::End));
    let mut run = decoder(None);
    assert!(matches!(run.next_frame(DecodeEvent::ReadFailed), DecodeStep::KillAndFail));
    assert!(matches!(run.next_frame(DecodeEvent::Requested), DecodeStep::End));
}

#[test]
fn a_run_that_is_given_up_is_killed_unless_it_has_exited() {
    assert!(FfmpegVideoDecoder::kill_on_drop(ChildState::Running));
    assert!(FfmpegVideoDecoder::kill_on_drop(ChildState::Unknown));
    assert!(!FfmpegVideoDecoder::kill_on_drop(ChildState::Exited(false)));
}
