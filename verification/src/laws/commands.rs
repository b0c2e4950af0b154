//! What the command lines of FFmpeg hold, and where.
use vstd::prelude::*;
use crate::ffmpeg_decoder::{
    decode_args, ffprobe_name, hwaccel_candidates, metadata_args, test_decode_args,
};
use crate::ffmpeg_encoder::{
    create_rate_and_preset_args, encode_args, encoder_name, hw_setup_args, probe_args, probe_order,
    vendor_order, Codec, CompressionLevel, EncodeJob, RateControl, Vendor,
};
use crate::platform::Platform;
use crate::text::{texts, to_decimal};

verus! {

/// How many options a vendor has before the input.
pub open spec fn setup_len(vendor: Vendor) -> int {
    match vendor {
        Vendor::Vaapi => 2,
        Vendor::Qsv => 4,
        _ => 0,
    }
}

/// What every encoding and every test run of an encoder starts with: FFmpeg reports errors
/// alone and does not read the terminal, and where frames have to be uploaded to a device,
/// the device is opened before the input.
pub open spec fn opens_device(args: Seq<Seq<char>>, vendor: Vendor) -> bool {
    &&& args.len() > 4 + setup_len(vendor)
    &&& args[0] == "-hide_banner"@
    &&& args[1] == "-v"@
    &&& args[2] == "error"@
    &&& args[3] == "-nostdin"@
    &&& vendor is Vaapi ==> args[4] == "-vaapi_device"@ && args[5] == "/dev/dri/renderD128"@
    &&& vendor is Qsv ==> args[4] == "-init_hw_device"@ && args[5] == "qsv=hw"@ && args[6]
        == "-filter_hw_device"@ && args[7] == "hw"@
}

/// In an encoding run the device is opened first. Then come the raw RGB frames of the given
/// size and rate from the standard input, and behind the input the conversion to the
/// vendor's form, the encoder, and at the end the output file, which is overwritten.
pub proof fn law_encode_args(
    job: EncodeJob,
    vendor: Vendor,
    encoder: &str,
    r: Vec<String>,
    width: String,
    height: String,
)
    requires
        encode_args.ensures((&job, vendor, encoder), r),
        to_decimal.ensures((job.width as u64,), width),
        to_decimal.ensures((job.height as u64,), height),
    ensures
        ({
            let a = texts(r@);
            let i = 4 + setup_len(vendor);
            &&& opens_device(a, vendor)
            &&& a.len() >= i + 16
            &&& a[i] == "-f"@ && a[i + 1] == "rawvideo"@
            &&& a[i + 2] == "-pix_fmt"@ && a[i + 3] == "rgb24"@
            &&& a[i + 4] == "-s"@ && a[i + 5] == width@ + "x"@ + height@
            &&& a[i + 6] == "-r"@ && a[i + 7] == job.fps@
            &&& a[i + 8] == "-i"@ && a[i + 9] == "pipe:0"@
            &&& a[i + 12] == "-c:v"@ && a[i + 13] == encoder@
            &&& a[a.len() - 2] == "-y"@ && a[a.len() - 1] == job.output@
        }),
{
}

/// Frames reach the encoder in the form it takes: uploaded to the device where one is
/// opened, else in its pixel format. The options for that stand right behind the input, in
/// an encoding run as in a test run.
pub proof fn law_frames_reach_encoder(
    job: EncodeJob,
    vendor: Vendor,
    encoder: &str,
    codec: Codec,
    run: Vec<String>,
    test: Vec<String>,
)
    requires
        encode_args.ensures((&job, vendor, encoder), run),
        probe_args.ensures((codec, vendor), test),
    ensures
        ({
            let (a, b) = (texts(run@), texts(test@));
            let i = 4 + setup_len(vendor);
            &&& a[i + 8] == "-i"@
            &&& b[i + 2] == "-i"@
            &&& a[i + 10] == b[i + 4]
            &&& a[i + 11] == b[i + 5]
            &&& vendor is Vaapi || vendor is Qsv <==> a[i + 10] == "-vf"@
            &&& !(vendor is Vaapi || vendor is Qsv) <==> a[i + 10] == "-pix_fmt"@
            &&& vendor is Vaapi ==> a[i + 11] == "format=p010le,hwupload"@
            &&& vendor is Qsv ==> a[i + 11] == "format=p010le,hwupload=extra_hw_frames=64"@
            &&& vendor is Software ==> a[i + 11] == "yuv420p10le"@
            &&& vendor is Nvenc || vendor is Amf || vendor is VideoToolbox ==> a[i + 11]
                == "p010le"@
        }),
{
    reveal_strlit("-vf");
    reveal_strlit("-pix_fmt");
    assert("-vf"@.len() != "-pix_fmt"@.len());
}

/// An encoding run and the test run of its encoder share all options before the input's
/// own; the test run encodes one black frame with the encoder and keeps nothing.
pub proof fn law_test_run_shares_setup(
    job: EncodeJob,
    vendor: Vendor,
    encoder: &str,
    codec: Codec,
    run: Vec<String>,
    test: Vec<String>,
    setup: (Vec<String>, Vec<String>),
    name: String,
)
    requires
        encode_args.ensures((&job, vendor, encoder), run),
        probe_args.ensures((codec, vendor), test),
        hw_setup_args.ensures((vendor,), setup),
        encoder_name.ensures((codec, vendor), name),
    ensures
        ({
            let (a, b) = (texts(run@), texts(test@));
            let n = setup_len(vendor);
            let i = 4 + n;
            &&& opens_device(b, vendor)
            &&& a.take(i) == b.take(i)
            &&& a.subrange(4, i) == texts(setup.0@)
            &&& a.subrange(i + 10, i + 12) == texts(setup.1@)
            &&& b.subrange(i + 4, i + 6) == texts(setup.1@)
            &&& b.len() == i + 13
            &&& b[i] == "-f"@ && b[i + 1] == "lavfi"@
            &&& b[i + 2] == "-i"@ && b[i + 3] == "color=c=black:s=128x128:r=30:d=0.1"@
            &&& b[i + 6] == "-c:v"@ && b[i + 7] == name@
            &&& b[i + 8] == "-frames:v"@ && b[i + 9] == "1"@
            &&& b[i + 10] == "-f"@ && b[i + 11] == "null"@ && b[i + 12] == "-"@
        }),
{
    let (a, b) = (texts(run@), texts(test@));
    let i = 4 + setup_len(vendor);
    assert(a.take(i) =~= b.take(i));
    assert(a.subrange(4, i) =~= texts(setup.0@));
    assert(a.subrange(i + 10, i + 12) =~= texts(setup.1@));
    assert(b.subrange(i + 4, i + 6) =~= texts(setup.1@));
}

/// Between the encoder and the output file an encoding run holds the options for its
/// codec, effort and rate, and nothing else.
pub proof fn law_encode_args_hold_rate(
    job: EncodeJob,
    vendor: Vendor,
    encoder: &str,
    run: Vec<String>,
    rate: Vec<String>,
)
    requires
        encode_args.ensures((&job, vendor, encoder), run),
        create_rate_and_preset_args.ensures((job.codec, vendor, job.quality, &job.rate), rate),
    ensures
        texts(run@).subrange(18 + setup_len(vendor), texts(run@).len() - 2) == texts(rate@),
{
    assert(texts(run@).subrange(18 + setup_len(vendor), texts(run@).len() - 2) =~= texts(rate@));
}

/// A hardware encoder is called by its codec and its vendor; in software each codec has an
/// encoder of its own.
pub proof fn law_encoder_name(codec: Codec, vendor: Vendor, r: String)
    requires
        encoder_name.ensures((codec, vendor), r),
    ensures
        vendor is Software && codec is H264 ==> r@ == "libx264"@,
        vendor is Software && codec is H265 ==> r@ == "libx265"@,
        vendor is Software && codec is Av1 ==> r@ == "libsvtav1"@,
        vendor is Nvenc && codec is H264 ==> r@ == "h264"@ + "_"@ + "nvenc"@,
        vendor is Nvenc && codec is H265 ==> r@ == "hevc"@ + "_"@ + "nvenc"@,
        vendor is Nvenc && codec is Av1 ==> r@ == "av1"@ + "_"@ + "nvenc"@,
        vendor is Amf && codec is H264 ==> r@ == "h264"@ + "_"@ + "amf"@,
        vendor is Amf && codec is H265 ==> r@ == "hevc"@ + "_"@ + "amf"@,
        vendor is Amf && codec is Av1 ==> r@ == "av1"@ + "_"@ + "amf"@,
        vendor is Vaapi && codec is H264 ==> r@ == "h264"@ + "_"@ + "vaapi"@,
        vendor is Vaapi && codec is H265 ==> r@ == "hevc"@ + "_"@ + "vaapi"@,
        vendor is Vaapi && codec is Av1 ==> r@ == "av1"@ + "_"@ + "vaapi"@,
        vendor is Qsv && codec is H264 ==> r@ == "h264"@ + "_"@ + "qsv"@,
        vendor is Qsv && codec is H265 ==> r@ == "hevc"@ + "_"@ + "qsv"@,
        vendor is Qsv && codec is Av1 ==> r@ == "av1"@ + "_"@ + "qsv"@,
        vendor is VideoToolbox && codec is H264 ==> r@ == "h264"@ + "_"@ + "videotoolbox"@,
        vendor is VideoToolbox && codec is H265 ==> r@ == "hevc"@ + "_"@ + "videotoolbox"@,
        vendor is VideoToolbox && codec is Av1 ==> r@ == "av1"@ + "_"@ + "videotoolbox"@,
{
}

/// How many options set the effort.
pub open spec fn effort_len(vendor: Vendor, level: CompressionLevel) -> int {
    if vendor is VideoToolbox && !(level is Fast) {
        0
    } else {
        2
    }
}

/// The compression level sets the encoder's effort and nothing else: behind the options for
/// it, runs at two levels are the same.
pub proof fn law_level_sets_effort_alone(
    codec: Codec,
    vendor: Vendor,
    rate: RateControl,
    a: CompressionLevel,
    b: CompressionLevel,
    ra: Vec<String>,
    rb: Vec<String>,
)
    requires
        create_rate_and_preset_args.ensures((codec, vendor, a, &rate), ra),
        create_rate_and_preset_args.ensures((codec, vendor, b, &rate), rb),
    ensures
        texts(ra@).skip(effort_len(vendor, a)) == texts(rb@).skip(effort_len(vendor, b)),
{
    assert(texts(ra@).skip(effort_len(vendor, a)) =~= texts(rb@).skip(effort_len(vendor, b)));
}

/// The encoder's effort at each level, as each vendor calls it.
pub proof fn law_effort(
    codec: Codec,
    vendor: Vendor,
    level: CompressionLevel,
    rate: RateControl,
    r: Vec<String>,
)
    requires
        create_rate_and_preset_args.ensures((codec, vendor, level, &rate), r),
    ensures
        ({
            let a = texts(r@);
            let svt = vendor is Software && codec is Av1;
            let x26 = vendor is Software && !(codec is Av1);
            &&& vendor is Nvenc || vendor is Qsv || vendor is Software ==> a[0] == "-preset"@
            &&& vendor is Amf ==> a[0] == "-quality"@
            &&& vendor is Vaapi ==> a[0] == "-compression_level"@
            &&& vendor is VideoToolbox && level is Fast ==> a[0] == "-realtime"@ && a[1] == "1"@
            &&& vendor is Nvenc && level is Fast ==> a[1] == "p1"@
            &&& vendor is Nvenc && level is Balanced ==> a[1] == "p4"@
            &&& vendor is Nvenc && level is High ==> a[1] == "p7"@
            &&& vendor is Amf && level is Fast ==> a[1] == "speed"@
            &&& vendor is Amf && level is Balanced ==> a[1] == "balanced"@
            &&& vendor is Amf && level is High ==> a[1] == "quality"@
            &&& vendor is Vaapi && level is Fast ==> a[1] == "7"@
            &&& vendor is Vaapi && level is Balanced ==> a[1] == "4"@
            &&& vendor is Vaapi && level is High ==> a[1] == "0"@
            &&& (vendor is Qsv || x26) && level is Fast ==> a[1] == "veryfast"@
            &&& (vendor is Qsv || x26) && level is Balanced ==> a[1] == "medium"@
            &&& (vendor is Qsv || x26) && level is High ==> a[1] == "veryslow"@
            &&& svt && level is Fast ==> a[1] == "10"@
            &&& svt && level is Balanced ==> a[1] == "6"@
            &&& svt && level is High ==> a[1] == "2"@
        }),
{
}

/// Constant quality is asked for by each vendor's own option, and no bitrate is.
pub proof fn law_constant_quality(
    codec: Codec,
    vendor: Vendor,
    level: CompressionLevel,
    r: Vec<String>,
)
    requires
        create_rate_and_preset_args.ensures((codec, vendor, level, &RateControl::Constant), r),
    ensures
        ({
            let q = texts(r@).skip(effort_len(vendor, level));
            &&& vendor is Nvenc ==> q =~= seq!["-rc"@, "constqp"@, "-qp"@, "23"@]
            &&& vendor is Amf ==> q =~= seq!["-rc"@, "cqp"@, "-qp_i"@, "23"@, "-qp_p"@, "23"@, "-qp_b"@, "23"@]
            &&& vendor is Qsv ==> q =~= seq!["-global_quality"@, "23"@]
            &&& vendor is Vaapi ==> q =~= seq!["-rc_mode"@, "CQP"@, "-qp"@, "23"@]
            &&& vendor is VideoToolbox ==> q =~= seq!["-q:v"@, "50"@]
            &&& vendor is Software && codec is Av1 ==> q =~= seq!["-crf"@, "30"@]
            &&& vendor is Software && !(codec is Av1) ==> q =~= seq!["-crf"@, "23"@]
        }),
{
}

/// A bitrate is asked for in kilobits. A cap is passed on by all encoders but that for AV1
/// in software; of those the ones of Nvenc, VideoToolbox and software get a buffer of
/// twice the cap. Nvenc, Amf and Vaapi are told whether the rate varies.
pub proof fn law_bitrate(
    codec: Codec,
    vendor: Vendor,
    level: CompressionLevel,
    avg_kbps: u32,
    max_kbps: Option<u32>,
    r: Vec<String>,
    avg: String,
    cap: String,
    buffer: String,
)
    requires
        create_rate_and_preset_args.ensures(
            (codec, vendor, level, &RateControl::Bitrate { avg_kbps, max_kbps }),
            r,
        ),
        to_decimal.ensures((avg_kbps as u64,), avg),
        max_kbps matches Some(m) ==> to_decimal.ensures((m as u64,), cap) && to_decimal.ensures(
            ((2 * m) as u64,),
            buffer,
        ),
    ensures
        ({
            let q = texts(r@).skip(effort_len(vendor, level));
            let told = vendor is Nvenc || vendor is Amf || vendor is Vaapi;
            let n = if told { 2int } else { 0 };
            let svt = vendor is Software && codec is Av1;
            let buffered = vendor is Nvenc || vendor is VideoToolbox || (vendor is Software
                && !svt);
            let capped = max_kbps is Some;
            &&& told ==> q[0] == (if vendor is Vaapi { "-rc_mode"@ } else { "-rc"@ })
            &&& vendor is Nvenc ==> q[1] == (if capped { "vbr"@ } else { "cbr"@ })
            &&& vendor is Amf ==> q[1] == (if capped { "vbr_peak"@ } else { "cbr"@ })
            &&& vendor is Vaapi ==> q[1] == (if capped { "VBR"@ } else { "CBR"@ })
            &&& q[n] == "-b:v"@ && q[n + 1] == avg@ + "k"@
            &&& capped && !svt ==> q[n + 2] == "-maxrate"@ && q[n + 3] == cap@ + "k"@
            &&& capped && buffered ==> q[n + 4] == "-bufsize"@ && q[n + 5] == buffer@ + "k"@
            &&& q.len() == n + 2 + (if capped && !svt { 2int } else { 0 }) + (if capped && buffered {
                2int
            } else { 0 })
        }),
{
}

/// In a decoding run the hardware decoder, if there is one, is chosen before the input;
/// behind it the first video stream goes to the standard output as raw RGB frames, without
/// being turned.
pub proof fn law_decode_args(file: &str, hwaccel: Option<String>, r: Vec<String>)
    requires
        decode_args.ensures((file, &hwaccel), r),
    ensures
        ({
            let a = texts(r@);
            let i = if hwaccel is Some { 6int } else { 4 };
            &&& a.len() == i + 10
            &&& a.take(4) =~= seq!["-hide_banner"@, "-v"@, "error"@, "-nostdin"@]
            &&& hwaccel matches Some(name) ==> a[4] == "-hwaccel"@ && a[5] == name@
            &&& a[i] == "-noautorotate"@
            &&& a[i + 1] == "-i"@ && a[i + 2] == file@
            &&& a[i + 3] == "-map"@ && a[i + 4] == "0:v:0"@
            &&& a[i + 5] == "-f"@ && a[i + 6] == "rawvideo"@
            &&& a[i + 7] == "-pix_fmt"@ && a[i + 8] == "rgb24"@
            &&& a[i + 9] == "pipe:1"@
        }),
{
}

/// A test run of a hardware decoder reports warnings, which tell of a fallback, chooses the
/// decoder before the input, and decodes one frame of the first video stream, which it
/// does not keep.
pub proof fn law_test_decode_args(hwaccel: &str, r: (Vec<String>, Vec<String>))
    requires
        test_decode_args.ensures((hwaccel,), r),
    ensures
        ({
            let (a, b) = (texts(r.0@), texts(r.1@));
            &&& a.len() == 8
            &&& a[0] == "-hide_banner"@ && a[1] == "-v"@ && a[2] == "warning"@ && a[3] == "-nostdin"@
            &&& a[4] == "-hwaccel"@ && a[5] == hwaccel@
            &&& a[6] == "-noautorotate"@ && a[7] == "-i"@
            &&& b.len() == 7
            &&& b[0] == "-map"@ && b[1] == "0:v:0"@
            &&& b[2] == "-frames:v"@ && b[3] == "1"@
            &&& b[4] == "-f"@ && b[5] == "null"@ && b[6] == "-"@
        }),
{
}

/// A preferred encoder is tried first, and the others of the platform keep their order.
pub proof fn law_order_of_encoders(
    platform: Platform,
    p: Vendor,
    usual: Vec<Vendor>,
    free: Vec<Vendor>,
    bound: Vec<Vendor>,
    m: int,
)
    requires
        vendor_order.ensures((platform,), usual),
        probe_order.ensures((platform, None), free),
        probe_order.ensures((platform, Some(p)), bound),
    ensures
        free@ == usual@,
        !usual@.contains(p) ==> bound@ == seq![p] + usual@,
        0 <= m < usual@.len() && usual@[m] == p ==> bound@ == seq![p] + usual@.take(m)
            + usual@.skip(m + 1),
{
    let keep = |v: Vendor| v != p;
    let s = usual@;
    if !s.contains(p) {
        assert forall|i: int| 0 <= i < s.len() implies keep(#[trigger] s[i]) by {
            assert(s.contains(s[i]));
        }
        lemma_keeps_all(s, keep);
    }
    if 0 <= m < s.len() && s[m] == p {
        lemma_keeps_others(s, keep, m);
        assert(seq![p] + (s.take(m) + s.skip(m + 1)) =~= seq![p] + s.take(m) + s.skip(m + 1));
    }
}

proof fn lemma_keeps_all(s: Seq<Vendor>, keep: spec_fn(Vendor) -> bool)
    requires
        forall|i: int| 0 <= i < s.len() ==> keep(#[trigger] s[i]),
    ensures
        s.filter(keep) == s,
    decreases s.len(),
{
    reveal(Seq::filter);
    if s.len() > 0 {
        let front = s.drop_last();
        assert forall|i: int| 0 <= i < front.len() implies keep(#[trigger] front[i]) by {
            assert(front[i] == s[i]);
        }
        lemma_keeps_all(front, keep);
        assert(keep(s[s.len() - 1]));
        assert(s.filter(keep) =~= s);
    }
}

proof fn lemma_keeps_others(s: Seq<Vendor>, keep: spec_fn(Vendor) -> bool, m: int)
    requires
        0 <= m < s.len(),
        forall|i: int| 0 <= i < s.len() ==> (keep(#[trigger] s[i]) <==> i != m),
    ensures
        s.filter(keep) == s.take(m) + s.skip(m + 1),
    decreases s.len(),
{
    reveal(Seq::filter);
    let front = s.drop_last();
    assert(s[s.len() - 1] == s.last());
    if m == s.len() - 1 {
        assert forall|i: int| 0 <= i < front.len() implies keep(#[trigger] front[i]) by {
            assert(front[i] == s[i]);
        }
        lemma_keeps_all(front, keep);
        assert(s.filter(keep) =~= s.take(m) + s.skip(m + 1));
    } else {
        assert forall|i: int| 0 <= i < front.len() implies (keep(#[trigger] front[i]) <==> i
            != m) by {
            assert(front[i] == s[i]);
        }
        lemma_keeps_others(front, keep, m);
        assert(s.filter(keep) =~= s.take(m) + s.skip(m + 1));
    }
}

/// The encoders of each platform, most preferred first; software comes last everywhere.
pub proof fn law_usual_order(platform: Platform, r: Vec<Vendor>)
    requires
        vendor_order.ensures((platform,), r),
    ensures
        r@.len() > 0 && r@.last() is Software,
        platform is MacOs ==> r@.len() == 2 && r@[0] is VideoToolbox,
        platform is Windows ==> r@.len() == 4 && r@[0] is Nvenc && r@[1] is Amf && r@[2] is Qsv,
        platform is Other ==> r@.len() == 5 && r@[0] is Nvenc && r@[1] is Vaapi && r@[2] is Amf
            && r@[3] is Qsv,
{
}

/// The hardware decoders of each platform, most preferred first.
pub proof fn law_decoder_candidates(platform: Platform, r: Vec<String>)
    requires
        hwaccel_candidates.ensures((platform,), r),
    ensures
        ({
            let a = texts(r@);
            &&& platform is MacOs ==> a.len() == 1 && a[0] == "videotoolbox"@
            &&& platform is Windows ==> a.len() == 5 && a[0] == "cuda"@ && a[1] == "d3d12va"@
                && a[2] == "qsv"@ && a[3] == "d3d11va"@ && a[4] == "dxva2"@
            &&& platform is Other ==> a.len() == 4 && a[0] == "cuda"@ && a[1] == "vaapi"@ && a[2]
                == "vdpau"@ && a[3] == "qsv"@
        }),
{
}

/// A video is asked for the size and the frame rates of its first video stream alone, one
/// key and value in a line. The program for that has the system's ending.
pub proof fn law_metadata_request(platform: Platform, name: &'static str, r: Vec<String>)
    requires
        ffprobe_name.ensures((platform,), name),
        metadata_args.ensures((), r),
    ensures
        platform is Windows ==> name@ == "ffprobe.exe"@,
        !(platform is Windows) ==> name@ == "ffprobe"@,
        ({
            let a = texts(r@);
            &&& a.len() == 8
            &&& a[0] == "-v"@ && a[1] == "error"@
            &&& a[2] == "-select_streams"@ && a[3] == "v:0"@
            &&& a[4] == "-show_entries"@ && a[5]
                == "stream=width,height,avg_frame_rate,r_frame_rate"@
            &&& a[6] == "-of"@ && a[7] == "default=noprint_wrappers=1"@
        }),
{
}

} // verus!
