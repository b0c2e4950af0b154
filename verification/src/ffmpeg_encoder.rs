//! Driving FFmpeg as a video encoder.
use vstd::prelude::*;
use vstd::string::StringExecFns;
use crate::platform::Platform;
use crate::search::{
    first_of, law_search_finds_first_item, law_useless_item_in_front, law_useless_items_left_out,
    law_working_item_in_front, outcomes, FirstWorking,
};
use crate::text::{add_arg, add_args, add_pair, decimal, joined, owned, texts, to_decimal};
use crate::util::{frame_bytes, spec_wait_step, standard_bytes, wait_step, ChildState, Frame, WaitStep};

verus! {

/// Whose encoder does the work.
#[derive(Clone, Copy, Debug, PartialEq, Eq, Structural)]
pub enum Vendor {
    Nvenc,
    Amf,
    Vaapi,
    Qsv,
    VideoToolbox,
    Software,
}

/// The format of the encoded video.
#[derive(Clone, Copy, Debug, PartialEq, Eq, Structural)]
pub enum Codec {
    H264,
    H265,
    Av1,
}

/// What the encoder holds constant.
#[derive(Clone, Copy, Debug, PartialEq, Eq, Structural)]
pub enum RateControl {
    /// CRF / CQP / ICQ
    Constant,
    Bitrate {
        avg_kbps: u32,
        max_kbps: Option<u32>,
    },
}

/// How much effort the encoder spends.
#[derive(Clone, Copy, Debug, PartialEq, Eq, Structural)]
pub enum CompressionLevel {
    Fast,
    Balanced,
    High,
}

impl CompressionLevel {
    /// The place of the level in a table of three.
    pub open spec fn spec_idx(self) -> int {
        match self {
            CompressionLevel::Fast => 0,
            CompressionLevel::Balanced => 1,
            CompressionLevel::High => 2,
        }
    }

    /// The place of the level in a table of three.
    pub fn idx(self) -> (r: usize)
        ensures
            r == self.spec_idx(),
    {
        match self {
            CompressionLevel::Fast => 0,
            CompressionLevel::Balanced => 1,
            CompressionLevel::High => 2,
        }
    }

    /// The level's name on the command line.
    pub open spec fn spec_name(self) -> Seq<char> {
        match self {
            CompressionLevel::Fast => "fast"@,
            CompressionLevel::Balanced => "balanced"@,
            CompressionLevel::High => "high"@,
        }
    }

    /// The level's name on the command line.
    pub fn name(self) -> (r: &'static str)
        ensures
            r@ == self.spec_name(),
    {
        match self {
            CompressionLevel::Fast => "fast",
            CompressionLevel::Balanced => "balanced",
            CompressionLevel::High => "high",
        }
    }
}

/// One of three texts, by compression level.
pub open spec fn by_level(
    level: CompressionLevel,
    fast: Seq<char>,
    balanced: Seq<char>,
    high: Seq<char>,
) -> Seq<char> {
    match level {
        CompressionLevel::Fast => fast,
        CompressionLevel::Balanced => balanced,
        CompressionLevel::High => high,
    }
}

/// The options that set the encoder's effort.
pub open spec fn preset_args(codec: Codec, vendor: Vendor, level: CompressionLevel) -> Seq<
    Seq<char>,
> {
    match vendor {
        Vendor::Nvenc => seq!["-preset"@, by_level(level, "p1"@, "p4"@, "p7"@)],
        Vendor::Amf => seq!["-quality"@, by_level(level, "speed"@, "balanced"@, "quality"@)],
        Vendor::Qsv => seq!["-preset"@, by_level(level, "veryfast"@, "medium"@, "veryslow"@)],
        // 0 is the best quality, 7 the fastest.
        Vendor::Vaapi => seq!["-compression_level"@, by_level(level, "7"@, "4"@, "0"@)],
        Vendor::VideoToolbox => if level == CompressionLevel::Fast {
            seq!["-realtime"@, "1"@]
        } else {
            Seq::empty()
        },
        Vendor::Software => if codec == Codec::Av1 {
            // From 0, the slowest, to 13, the fastest.
            seq!["-preset"@, by_level(level, "10"@, "6"@, "2"@)]
        } else {
            seq!["-preset"@, by_level(level, "veryfast"@, "medium"@, "veryslow"@)]
        },
    }
}

/// The options for constant quality.
pub open spec fn constant_args(codec: Codec, vendor: Vendor) -> Seq<Seq<char>> {
    match vendor {
        Vendor::Nvenc => seq!["-rc"@, "constqp"@, "-qp"@, "23"@],
        Vendor::Amf => seq![
            "-rc"@,
            "cqp"@,
            "-qp_i"@,
            "23"@,
            "-qp_p"@,
            "23"@,
            "-qp_b"@,
            "23"@,
        ],
        Vendor::Qsv => seq!["-global_quality"@, "23"@],
        Vendor::Vaapi => seq!["-rc_mode"@, "CQP"@, "-qp"@, "23"@],
        Vendor::VideoToolbox => seq!["-q:v"@, "50"@],
        Vendor::Software => if codec == Codec::Av1 {
            seq!["-crf"@, "30"@]
        } else {
            seq!["-crf"@, "23"@]
        },
    }
}

/// The options that name the bitrate mode, for those encoders that want it named.
pub open spec fn mode_args(vendor: Vendor, capped: bool) -> Seq<Seq<char>> {
    match vendor {
        Vendor::Nvenc => if capped {
            seq!["-rc"@, "vbr"@]
        } else {
            seq!["-rc"@, "cbr"@]
        },
        Vendor::Amf => if capped {
            seq!["-rc"@, "vbr_peak"@]
        } else {
            seq!["-rc"@, "cbr"@]
        },
        Vendor::Vaapi => if capped {
            seq!["-rc_mode"@, "VBR"@]
        } else {
            seq!["-rc_mode"@, "CBR"@]
        },
        _ => Seq::empty(),
    }
}

/// Whether the encoder is told a maximum bitrate.
pub open spec fn honours_cap(codec: Codec, vendor: Vendor) -> bool {
    !(vendor == Vendor::Software && codec == Codec::Av1)
}

/// Whether the encoder is told a buffer of twice the maximum bitrate.
pub open spec fn sets_buffer(codec: Codec, vendor: Vendor) -> bool {
    match vendor {
        Vendor::Nvenc | Vendor::VideoToolbox => true,
        Vendor::Software => codec != Codec::Av1,
        _ => false,
    }
}

/// A bitrate as the encoder reads it.
pub open spec fn kbps(n: int) -> Seq<char> {
    decimal(n) + "k"@
}

/// The options for a bitrate.
pub open spec fn bitrate_args(
    codec: Codec,
    vendor: Vendor,
    avg_kbps: u32,
    max_kbps: Option<u32>,
) -> Seq<Seq<char>> {
    mode_args(vendor, max_kbps is Some) + seq!["-b:v"@, kbps(avg_kbps as int)] + match max_kbps {
        Some(m) => (if honours_cap(codec, vendor) {
            seq!["-maxrate"@, kbps(m as int)]
        } else {
            Seq::empty()
        }) + (if sets_buffer(codec, vendor) {
            seq!["-bufsize"@, kbps(m * 2)]
        } else {
            Seq::empty()
        }),
        None => Seq::empty(),
    }
}

/// The options that set rate control and effort.
pub open spec fn rate_and_preset_args(
    codec: Codec,
    vendor: Vendor,
    level: CompressionLevel,
    rate: RateControl,
) -> Seq<Seq<char>> {
    preset_args(codec, vendor, level) + match rate {
        RateControl::Constant => constant_args(codec, vendor),
        RateControl::Bitrate { avg_kbps, max_kbps } => bitrate_args(
            codec,
            vendor,
            avg_kbps,
            max_kbps,
        ),
    }
}

/// The buffer size, where one is set, can be computed.
pub open spec fn rate_fits(codec: Codec, vendor: Vendor, rate: RateControl) -> bool {
    match rate {
        RateControl::Bitrate { max_kbps: Some(m), .. } => sets_buffer(codec, vendor) ==> m * 2
            <= u32::MAX,
        _ => true,
    }
}

/// Picks one of three texts by compression level.
fn pick<'a>(level: CompressionLevel, fast: &'a str, balanced: &'a str, high: &'a str) -> (r: &'a str)
    ensures
        r@ == by_level(level, fast@, balanced@, high@),
{
    let table: [&'a str; 3] = [fast, balanced, high];
    table[level.idx()]
}

/// Appends an option with a bitrate.
fn add_kbps(list: &mut Vec<String>, option: &str, n: u32)
    ensures
        texts(final(list)@) == texts(old(list)@) + seq![option@, kbps(n as int)],
{
    let value = joined(to_decimal(n as u64).as_str(), "k");
    add_pair(list, option, value.as_str());
}

fn create_preset_args(codec: Codec, vendor: Vendor, level: CompressionLevel) -> (r: Vec<String>)
    ensures
        texts(r@) == preset_args(codec, vendor, level),
{
    let mut a: Vec<String> = Vec::new();
    match vendor {
        Vendor::Nvenc => add_pair(&mut a, "-preset", pick(level, "p1", "p4", "p7")),
        Vendor::Amf => add_pair(&mut a, "-quality", pick(level, "speed", "balanced", "quality")),
        Vendor::Qsv => add_pair(&mut a, "-preset", pick(level, "veryfast", "medium", "veryslow")),
        Vendor::Vaapi => add_pair(&mut a, "-compression_level", pick(level, "7", "4", "0")),
        Vendor::VideoToolbox => {
            if level == CompressionLevel::Fast {
                add_pair(&mut a, "-realtime", "1");
            }
        },
        Vendor::Software => {
            if codec == Codec::Av1 {
                add_pair(&mut a, "-preset", pick(level, "10", "6", "2"));
            } else {
                add_pair(&mut a, "-preset", pick(level, "veryfast", "medium", "veryslow"));
            }
        },
    }
    assert(texts(a@) =~= preset_args(codec, vendor, level));
    a
}

fn create_constant_args(codec: Codec, vendor: Vendor) -> (r: Vec<String>)
    ensures
        texts(r@) == constant_args(codec, vendor),
{
    let mut a: Vec<String> = Vec::new();
    match vendor {
        Vendor::Nvenc => {
            add_pair(&mut a, "-rc", "constqp");
            add_pair(&mut a, "-qp", "23");
        },
        Vendor::Amf => {
            add_pair(&mut a, "-rc", "cqp");
            add_pair(&mut a, "-qp_i", "23");
            add_pair(&mut a, "-qp_p", "23");
            add_pair(&mut a, "-qp_b", "23");
        },
        Vendor::Qsv => add_pair(&mut a, "-global_quality", "23"),
        Vendor::Vaapi => {
            add_pair(&mut a, "-rc_mode", "CQP");
            add_pair(&mut a, "-qp", "23");
        },
        Vendor::VideoToolbox => add_pair(&mut a, "-q:v", "50"),
        Vendor::Software => {
            if codec == Codec::Av1 {
                add_pair(&mut a, "-crf", "30");
            } else {
                add_pair(&mut a, "-crf", "23");
            }
        },
    }
    assert(texts(a@) =~= constant_args(codec, vendor));
    a
}

fn create_bitrate_args(codec: Codec, vendor: Vendor, avg_kbps: u32, max_kbps: Option<u32>) -> (r:
    Vec<String>)
    requires
        rate_fits(codec, vendor, RateControl::Bitrate { avg_kbps, max_kbps }),
    ensures
        texts(r@) == bitrate_args(codec, vendor, avg_kbps, max_kbps),
{
    let mut a: Vec<String> = Vec::new();
    let capped: bool = max_kbps.is_some();
    match vendor {
        Vendor::Nvenc => add_pair(&mut a, "-rc", if capped { "vbr" } else { "cbr" }),
        Vendor::Amf => add_pair(&mut a, "-rc", if capped { "vbr_peak" } else { "cbr" }),
        Vendor::Vaapi => add_pair(&mut a, "-rc_mode", if capped { "VBR" } else { "CBR" }),
        _ => (),
    }
    assert(texts(a@) =~= mode_args(vendor, capped));
    add_kbps(&mut a, "-b:v", avg_kbps);
    if let Some(m) = max_kbps {
        let svt_av1: bool = vendor == Vendor::Software && codec == Codec::Av1;
        if !svt_av1 {
            add_kbps(&mut a, "-maxrate", m);
        }
        if vendor == Vendor::Nvenc || vendor == Vendor::VideoToolbox || (vendor == Vendor::Software
            && !svt_av1) {
            add_kbps(&mut a, "-bufsize", m * 2);
        }
    }
    assert(texts(a@) =~= bitrate_args(codec, vendor, avg_kbps, max_kbps));
    a
}

/// The options that set rate control and effort.
pub fn create_rate_and_preset_args(
    codec: Codec,
    vendor: Vendor,
    compression_level: CompressionLevel,
    rate: &RateControl,
) -> (r: Vec<String>)
    requires
        rate_fits(codec, vendor, *rate),
    ensures
        texts(r@) == rate_and_preset_args(codec, vendor, compression_level, *rate),
{
    let mut a = create_preset_args(codec, vendor, compression_level);
    match *rate {
        RateControl::Constant => add_args(&mut a, create_constant_args(codec, vendor)),
        RateControl::Bitrate { avg_kbps, max_kbps } => add_args(
            &mut a,
            create_bitrate_args(codec, vendor, avg_kbps, max_kbps),
        ),
    }
    a
}

/// How FFmpeg's encoder names call a codec.
pub open spec fn codec_token(codec: Codec) -> Seq<char> {
    match codec {
        Codec::H264 => "h264"@,
        Codec::H265 => "hevc"@,
        Codec::Av1 => "av1"@,
    }
}

/// How FFmpeg's encoder names call a vendor.
pub open spec fn vendor_token(vendor: Vendor) -> Seq<char> {
    match vendor {
        Vendor::Nvenc => "nvenc"@,
        Vendor::Amf => "amf"@,
        Vendor::Vaapi => "vaapi"@,
        Vendor::Qsv => "qsv"@,
        Vendor::VideoToolbox => "videotoolbox"@,
        Vendor::Software => "software"@,
    }
}

/// FFmpeg's name for an encoder.
pub open spec fn spec_encoder_name(codec: Codec, vendor: Vendor) -> Seq<char> {
    match vendor {
        Vendor::Software => match codec {
            Codec::H264 => "libx264"@,
            Codec::H265 => "libx265"@,
            Codec::Av1 => "libsvtav1"@,
        },
        _ => codec_token(codec) + "_"@ + vendor_token(vendor),
    }
}

/// FFmpeg's name for an encoder.
pub fn encoder_name(codec: Codec, vendor: Vendor) -> (r: String)
    ensures
        r@ == spec_encoder_name(codec, vendor),
{
    let token: &str = match vendor {
        Vendor::Nvenc => "nvenc",
        Vendor::Amf => "amf",
        Vendor::Vaapi => "vaapi",
        Vendor::Qsv => "qsv",
        Vendor::VideoToolbox => "videotoolbox",
        Vendor::Software => {
            return match codec {
                Codec::H264 => owned("libx264"),
                Codec::H265 => owned("libx265"),
                Codec::Av1 => owned("libsvtav1"),
            };
        },
    };
    let codec_tok: &str = match codec {
        Codec::H264 => "h264",
        Codec::H265 => "hevc",
        Codec::Av1 => "av1",
    };
    joined(joined(codec_tok, "_").as_str(), token)
}

/// Options that give the encoder RGB frames in the form it takes: those before the
/// input, and those on the output side.
pub open spec fn setup_args(vendor: Vendor) -> (Seq<Seq<char>>, Seq<Seq<char>>) {
    match vendor {
        Vendor::Nvenc | Vendor::Amf | Vendor::VideoToolbox => (
            Seq::empty(),
            seq!["-pix_fmt"@, "p010le"@],
        ),
        Vendor::Vaapi => (
            seq!["-vaapi_device"@, "/dev/dri/renderD128"@],
            seq!["-vf"@, "format=p010le,hwupload"@],
        ),
        Vendor::Qsv => (
            seq!["-init_hw_device"@, "qsv=hw"@, "-filter_hw_device"@, "hw"@],
            seq!["-vf"@, "format=p010le,hwupload=extra_hw_frames=64"@],
        ),
        Vendor::Software => (Seq::empty(), seq!["-pix_fmt"@, "yuv420p10le"@]),
    }
}

/// Options that give the encoder RGB frames in the form it takes: those before the
/// input, and those on the output side.
///
/// The VAAPI device path and the QSV device are defaults that suit most setups.
pub fn hw_setup_args(vendor: Vendor) -> (r: (Vec<String>, Vec<String>))
    ensures
        texts(r.0@) == setup_args(vendor).0,
        texts(r.1@) == setup_args(vendor).1,
{
    let mut pre: Vec<String> = Vec::new();
    let mut post: Vec<String> = Vec::new();
    match vendor {
        Vendor::Nvenc | Vendor::Amf | Vendor::VideoToolbox => {
            add_pair(&mut post, "-pix_fmt", "p010le");
        },
        Vendor::Vaapi => {
            add_pair(&mut pre, "-vaapi_device", "/dev/dri/renderD128");
            add_pair(&mut post, "-vf", "format=p010le,hwupload");
        },
        Vendor::Qsv => {
            add_pair(&mut pre, "-init_hw_device", "qsv=hw");
            add_pair(&mut pre, "-filter_hw_device", "hw");
            add_pair(&mut post, "-vf", "format=p010le,hwupload=extra_hw_frames=64");
        },
        Vendor::Software => {
            add_pair(&mut post, "-pix_fmt", "yuv420p10le");
        },
    }
    assert(texts(pre@) =~= setup_args(vendor).0);
    assert(texts(post@) =~= setup_args(vendor).1);
    (pre, post)
}

/// The options that FFmpeg runs start with which report errors alone.
pub open spec fn quiet_args() -> Seq<Seq<char>> {
    seq!["-hide_banner"@, "-v"@, "error"@, "-nostdin"@]
}

pub(crate) fn create_quiet_args() -> (r: Vec<String>)
    ensures
        texts(r@) == quiet_args(),
{
    let mut a: Vec<String> = Vec::new();
    add_pair(&mut a, "-hide_banner", "-v");
    add_pair(&mut a, "error", "-nostdin");
    assert(texts(a@) =~= quiet_args());
    a
}

/// The arguments of a test run that encodes one black frame.
pub open spec fn spec_probe_args(codec: Codec, vendor: Vendor) -> Seq<Seq<char>> {
    quiet_args() + setup_args(vendor).0 + seq![
        "-f"@,
        "lavfi"@,
        "-i"@,
        "color=c=black:s=128x128:r=30:d=0.1"@,
    ] + setup_args(vendor).1 + seq!["-c:v"@, spec_encoder_name(codec, vendor)] + seq![
        "-frames:v"@,
        "1"@,
        "-f"@,
        "null"@,
        "-"@,
    ]
}

/// The arguments of a test run that encodes one black frame.
pub fn probe_args(codec: Codec, vendor: Vendor) -> (r: Vec<String>)
    ensures
        texts(r@) == spec_probe_args(codec, vendor),
{
    let (pre_input, pix_or_filter) = hw_setup_args(vendor);
    let mut a = create_quiet_args();
    add_args(&mut a, pre_input);
    add_pair(&mut a, "-f", "lavfi");
    add_pair(&mut a, "-i", "color=c=black:s=128x128:r=30:d=0.1");
    add_args(&mut a, pix_or_filter);
    add_pair(&mut a, "-c:v", encoder_name(codec, vendor).as_str());
    add_pair(&mut a, "-frames:v", "1");
    add_pair(&mut a, "-f", "null");
    add_arg(&mut a, "-");
    assert(texts(a@) =~= spec_probe_args(codec, vendor));
    a
}

/// What one encoding run is asked to do.
pub struct EncodeJob {
    pub width: u32,
    pub height: u32,
    /// Frames per second, as FFmpeg reads it.
    pub fps: String,
    /// Path of the output file.
    pub output: String,
    pub codec: Codec,
    pub quality: CompressionLevel,
    pub rate: RateControl,
}

/// The arguments of an encoding run: raw RGB frames from the standard input, encoded
/// with `encoder` into the output file.
pub open spec fn spec_encode_args(job: EncodeJob, vendor: Vendor, encoder: Seq<char>) -> Seq<
    Seq<char>,
> {
    quiet_args() + setup_args(vendor).0 + seq![
        "-f"@,
        "rawvideo"@,
        "-pix_fmt"@,
        "rgb24"@,
        "-s"@,
        decimal(job.width as int) + "x"@ + decimal(job.height as int),
        "-r"@,
        job.fps@,
        "-i"@,
        "pipe:0"@,
    ] + setup_args(vendor).1 + seq!["-c:v"@, encoder] + rate_and_preset_args(
        job.codec,
        vendor,
        job.quality,
        job.rate,
    ) + seq!["-y"@, job.output@]
}

/// The arguments of an encoding run: raw RGB frames from the standard input, encoded
/// with `encoder` into the output file.
pub fn encode_args(job: &EncodeJob, vendor: Vendor, encoder: &str) -> (r: Vec<String>)
    requires
        rate_fits(job.codec, vendor, job.rate),
    ensures
        texts(r@) == spec_encode_args(*job, vendor, encoder@),
{
    let (pre_input, pix_or_filter) = hw_setup_args(vendor);
    let mut a = create_quiet_args();
    add_args(&mut a, pre_input);
    add_pair(&mut a, "-f", "rawvideo");
    add_pair(&mut a, "-pix_fmt", "rgb24");
    let width = joined(to_decimal(job.width as u64).as_str(), "x");
    let size = joined(width.as_str(), to_decimal(job.height as u64).as_str());
    add_pair(&mut a, "-s", size.as_str());
    add_pair(&mut a, "-r", job.fps.as_str());
    add_pair(&mut a, "-i", "pipe:0");
    add_args(&mut a, pix_or_filter);
    add_pair(&mut a, "-c:v", encoder);
    add_args(&mut a, create_rate_and_preset_args(job.codec, vendor, job.quality, &job.rate));
    add_pair(&mut a, "-y", job.output.as_str());
    assert(texts(a@) =~= spec_encode_args(*job, vendor, encoder@));
    a
}

/// How long a test run of an encoder may take, in seconds.
pub const ENCODER_PROBE_SECS: u64 = 8;

/// What to do after a look at a test run of an encoder: one whose state cannot be had
/// is left alone.
pub open spec fn spec_probe_wait_step(state: ChildState, elapsed: u128, timeout: u128) -> WaitStep {
    if state == ChildState::Unknown {
        WaitStep::Abandon
    } else {
        spec_wait_step(state, elapsed, timeout)
    }
}

/// What to do after a look at a test run of an encoder that has run for `elapsed`
/// nanoseconds and may run for `timeout`.
pub fn probe_wait_step(state: ChildState, elapsed: u128, timeout: u128) -> (r: WaitStep)
    ensures
        r == spec_probe_wait_step(state, elapsed, timeout),
{
    if state == ChildState::Unknown {
        WaitStep::Abandon
    } else {
        wait_step(state, elapsed, timeout)
    }
}

/// The encoders that a platform may offer, most preferred first.
pub open spec fn spec_vendor_order(platform: Platform) -> Seq<Vendor> {
    match platform {
        Platform::MacOs => seq![Vendor::VideoToolbox, Vendor::Software],
        Platform::Windows => seq![Vendor::Nvenc, Vendor::Amf, Vendor::Qsv, Vendor::Software],
        Platform::Other => seq![
            Vendor::Nvenc,
            Vendor::Vaapi,
            Vendor::Amf,
            Vendor::Qsv,
            Vendor::Software,
        ],
    }
}

/// The encoders that a platform may offer, most preferred first.
pub fn vendor_order(platform: Platform) -> (r: Vec<Vendor>)
    ensures
        r@ == spec_vendor_order(platform),
{
    let order: Vec<Vendor> = match platform {
        Platform::MacOs => vec![Vendor::VideoToolbox, Vendor::Software],
        Platform::Windows => vec![Vendor::Nvenc, Vendor::Amf, Vendor::Qsv, Vendor::Software],
        Platform::Other => vec![
            Vendor::Nvenc,
            Vendor::Vaapi,
            Vendor::Amf,
            Vendor::Qsv,
            Vendor::Software,
        ],
    };
    assert(order@ =~= spec_vendor_order(platform));
    order
}

/// The encoders to try: a preferred one comes first, the others keep their order.
pub open spec fn spec_probe_order(platform: Platform, preferred: Option<Vendor>) -> Seq<Vendor> {
    match preferred {
        Some(p) => seq![p] + spec_vendor_order(platform).filter(|v: Vendor| v != p),
        None => spec_vendor_order(platform),
    }
}

/// The encoders to try: a preferred one comes first, the others keep their order.
pub fn probe_order(platform: Platform, preferred: Option<Vendor>) -> (r: Vec<Vendor>)
    ensures
        r@ == spec_probe_order(platform, preferred),
{
    let known = vendor_order(platform);
    let p = match preferred {
        Some(p) => p,
        None => return known,
    };
    let ghost keep = |v: Vendor| v != p;
    let mut order: Vec<Vendor> = vec![p];
    let mut i: usize = 0;
    while i < known.len()
        invariant
            keep == (|v: Vendor| v != p),
            i <= known@.len(),
            order@ == seq![p] + known@.take(i as int).filter(keep),
        decreases known@.len() - i,
    {
        proof {
            reveal(Seq::filter);
            assert(known@.take(i + 1).drop_last() =~= known@.take(i as int));
        }
        if known[i] != p {
            order.push(known[i]);
        }
        i = i + 1;
    }
    assert(known@.take(i as int) =~= known@);
    order
}

/// A search for an encoder that works.
pub struct EncoderSelection {
    pub codec: Codec,
    pub order: Vec<Vendor>,
    pub search: FirstWorking,
}

impl EncoderSelection {
    pub open spec fn wf(self) -> bool {
        &&& self.search.wf()
        &&& self.search.count == self.order@.len()
    }

    /// The encoder that a test run is wanted of, if the search goes on.
    pub open spec fn spec_next_probe(self) -> Option<Vendor> {
        match self.search.spec_pending() {
            Some(i) => Some(self.order@[i]),
            None => None,
        }
    }

    /// The encoder that was found to work.
    pub open spec fn spec_selected(self) -> Option<Vendor> {
        match self.search.spec_chosen() {
            Some(i) => Some(self.order@[i]),
            None => None,
        }
    }

    /// The encoder that a test run is wanted of, if the search goes on.
    pub fn next_probe(&self) -> (r: Option<Vendor>)
        requires
            self.wf(),
        ensures
            r == self.spec_next_probe(),
    {
        match self.search.pending() {
            Some(i) => Some(self.order[i]),
            None => None,
        }
    }

    /// Records whether the test run succeeded.
    pub fn record(&mut self, works: bool)
        requires
            old(self).wf(),
            old(self).spec_next_probe() is Some,
        ensures
            final(self).wf(),
            final(self).codec == old(self).codec,
            final(self).order@ == old(self).order@,
            final(self).search == (FirstWorking {
                count: old(self).search.count,
                tried: (old(self).search.tried + 1) as usize,
                found: works,
            }),
    {
        self.search.record(works);
    }

    /// The encoder that was found to work, and its name.
    pub fn selected(&self) -> (r: Option<(Vendor, String)>)
        requires
            self.wf(),
        ensures
            r is Some <==> self.spec_selected() is Some,
            r matches Some((vendor, name)) ==> self.spec_selected() == Some(vendor) && name@
                == spec_encoder_name(self.codec, vendor),
    {
        match self.search.chosen() {
            Some(i) => {
                let vendor = self.order[i];
                Some((vendor, encoder_name(self.codec, vendor)))
            },
            None => None,
        }
    }
}

/// Starts the search for an encoder of a codec.
pub fn select_encoder(platform: Platform, codec: Codec, preferred: Option<Vendor>) -> (r:
    EncoderSelection)
    ensures
        r.wf(),
        r.codec == codec,
        r.order@ == spec_probe_order(platform, preferred),
        r.search.tried == 0,
        !r.search.found,
{
    let order = probe_order(platform, preferred);
    let search = FirstWorking::new(order.len());
    EncoderSelection { codec, order, search }
}

/// A search for an encoder that has ended, each test run of it having told the truth,
/// has selected an encoder that works and is preferred to every other that works; it
/// has selected none exactly if none works.
pub proof fn law_selects_first_working(s: EncoderSelection, works: spec_fn(Vendor) -> bool)
    requires
        s.wf(),
        s.search.agrees(outcomes(s.order@, works)),
        s.spec_next_probe() is None,
    ensures
        s.spec_selected() == first_of(s.order@, works),
        match s.spec_selected() {
            Some(vendor) => exists|i: int|
                {
                    &&& 0 <= i < s.order@.len()
                    &&& #[trigger] s.order@[i] == vendor
                    &&& works(vendor)
                    &&& forall|j: int| 0 <= j < i ==> !works(#[trigger] s.order@[j])
                },
            None => forall|j: int| 0 <= j < s.order@.len() ==> !works(#[trigger] s.order@[j]),
        },
{
    law_search_finds_first_item(s.search, s.order@, works);
}

/// A preferred encoder that does not work changes nothing: the encoder selected is the one
/// that would be without a preference.
pub proof fn law_useless_preference(
    platform: Platform,
    preferred: Vendor,
    works: spec_fn(Vendor) -> bool,
)
    requires
        !works(preferred),
    ensures
        first_of(spec_probe_order(platform, Some(preferred)), works) == first_of(
            spec_probe_order(platform, None),
            works,
        ),
{
    let known = spec_vendor_order(platform);
    let keep = |v: Vendor| v != preferred;
    law_useless_item_in_front(preferred, known.filter(keep), works);
    law_useless_items_left_out(known, keep, works);
}

/// A preferred encoder that works is the one selected.
pub proof fn law_working_preference(
    platform: Platform,
    preferred: Vendor,
    works: spec_fn(Vendor) -> bool,
)
    requires
        works(preferred),
    ensures
        first_of(spec_probe_order(platform, Some(preferred)), works) == Some(preferred),
{
    law_working_item_in_front(
        preferred,
        spec_vendor_order(platform).filter(|v: Vendor| v != preferred),
        works,
    );
}

/// A preferred encoder is tried first, every encoder of the platform is tried, and none
/// is tried twice.
pub proof fn law_probe_order(platform: Platform, preferred: Option<Vendor>)
    ensures
        preferred matches Some(p) ==> spec_probe_order(platform, preferred)[0] == p,
        forall|v: Vendor|
            #[trigger] spec_vendor_order(platform).contains(v) ==> spec_probe_order(
                platform,
                preferred,
            ).contains(v),
        spec_probe_order(platform, preferred).no_duplicates(),
        spec_probe_order(platform, preferred).contains(Vendor::Software),
{
    let known = spec_vendor_order(platform);
    let order = spec_probe_order(platform, preferred);
    assert(known.no_duplicates());
    assert(known[known.len() - 1] == Vendor::Software);
    assert(known.contains(Vendor::Software));
    if let Some(p) = preferred {
        let keep = |v: Vendor| v != p;
        let rest = known.filter(keep);
        lemma_filter_distinct(known, keep);
        broadcast use Seq::lemma_filter_contains, Seq::lemma_filter_pred;

        assert forall|v: Vendor| #[trigger] known.contains(v) implies order.contains(v) by {
            if v == p {
                assert(order[0] == v);
            } else {
                let i = known.index_of(v);
                assert(known[i] == v);
                assert(rest.contains(known[i]));
                let j = rest.index_of(v);
                assert(order[j + 1] == v);
            }
        }
        assert forall|i: int, j: int|
            0 <= i < order.len() && 0 <= j < order.len() && i != j implies order[i] != order[j] by {
            if i > 0 {
                assert(order[i] == rest[i - 1] && keep(rest[i - 1]));
            }
            if j > 0 {
                assert(order[j] == rest[j - 1] && keep(rest[j - 1]));
            }
        }
    }
}

/// What is left of distinct encoders is distinct.
proof fn lemma_filter_distinct(s: Seq<Vendor>, keep: spec_fn(Vendor) -> bool)
    requires
        s.no_duplicates(),
    ensures
        s.filter(keep).no_duplicates(),
    decreases s.len(),
{
    reveal(Seq::filter);
    if s.len() > 0 {
        let rest = s.drop_last();
        assert(rest.no_duplicates());
        lemma_filter_distinct(rest, keep);
        if keep(s.last()) && rest.filter(keep).contains(s.last()) {
            rest.lemma_filter_contains_rev(keep, s.last());
        }
    }
}

/// No two encoders share a name.
pub proof fn law_encoder_names_distinct(c1: Codec, v1: Vendor, c2: Codec, v2: Vendor)
    requires
        spec_encoder_name(c1, v1) == spec_encoder_name(c2, v2),
    ensures
        c1 == c2,
        v1 == v2,
{
    reveal_strlit("libx264");
    reveal_strlit("libx265");
    reveal_strlit("libsvtav1");
    reveal_strlit("h264");
    reveal_strlit("hevc");
    reveal_strlit("av1");
    reveal_strlit("_");
    reveal_strlit("nvenc");
    reveal_strlit("amf");
    reveal_strlit("vaapi");
    reveal_strlit("qsv");
    reveal_strlit("videotoolbox");
    let a = spec_encoder_name(c1, v1);
    let b = spec_encoder_name(c2, v2);
    assert(a.len() == b.len());
    assert(a[0] == b[0]);
    assert(a[1] == b[1]);
    assert(a[5] == b[5]);
    assert(a[6] == b[6]);
    assert(a[a.len() - 1] == b[b.len() - 1]);
}

/// Why a frame was not encoded, or an encoding run did not end well.
#[derive(Debug)]
pub enum EncodeError {
    /// The frame has `got` bytes where the run takes frames of `expected` bytes.
    FrameSize { got: usize, expected: usize, width: u32, height: u32 },
    /// The run takes no more frames.
    Finished,
    /// FFmpeg failed while it wrote the output.
    Failed { output: String },
}

impl EncodeError {
    /// The message for a user; `status` is how FFmpeg's exit status is written.
    pub open spec fn spec_message(self, status: Seq<char>) -> Seq<char> {
        match self {
            EncodeError::FrameSize { got, expected, width, height } => "frame size mismatch: got "@
                + decimal(got as int) + " bytes, expected "@ + decimal(expected as int) + " ("@
                + decimal(width as int) + "x"@ + decimal(height as int) + "x3)"@,
            EncodeError::Finished => "encoder already finished"@,
            EncodeError::Failed { output } => "ffmpeg exited with status "@ + status
                + " while writing "@ + output@,
        }
    }

    /// The message for a user; `status` is how FFmpeg's exit status is written.
    pub fn message(&self, status: &str) -> (r: String)
        ensures
            r@ == self.spec_message(status@),
    {
        match self {
            EncodeError::FrameSize { got, expected, width, height } => {
                let mut m = owned("frame size mismatch: got ");
                m.append(to_decimal(*got as u64).as_str());
                m.append(" bytes, expected ");
                m.append(to_decimal(*expected as u64).as_str());
                m.append(" (");
                m.append(to_decimal(*width as u64).as_str());
                m.append("x");
                m.append(to_decimal(*height as u64).as_str());
                m.append("x3)");
                m
            },
            EncodeError::Finished => owned("encoder already finished"),
            EncodeError::Failed { output } => {
                let mut m = owned("ffmpeg exited with status ");
                m.append(status);
                m.append(" while writing ");
                m.append(output.as_str());
                m
            },
        }
    }
}

/// An encoding run, as far as FFmpeg's part in it has come.
pub struct FfmpegEncoder {
    pub width: u32,
    pub height: u32,
    pub output: String,
    pub vendor: Vendor,
    pub encoder: String,
    /// Whether frames can still be written to FFmpeg.
    pub stdin_open: bool,
    /// Whether FFmpeg has not been waited for yet.
    pub child_running: bool,
}

impl FfmpegEncoder {
    /// How many bytes a frame has.
    pub open spec fn frame_len(self) -> int {
        self.width * self.height * 3
    }

    /// Frames are only taken while FFmpeg runs.
    pub open spec fn wf(self) -> bool {
        self.stdin_open ==> self.child_running
    }

    /// Whether a frame of the given bytes is taken.
    pub open spec fn accepts(self, bytes: Seq<u8>) -> bool {
        bytes.len() == self.frame_len() && self.stdin_open
    }

    /// The run once its input has ended and FFmpeg has been waited for.
    pub open spec fn finished(self) -> Self {
        FfmpegEncoder { stdin_open: false, child_running: false, ..self }
    }

    /// A run of which FFmpeg has just been started.
    pub fn new(job: &EncodeJob, vendor: Vendor, encoder: String) -> (r: Self)
        ensures
            r.wf(),
            r.width == job.width,
            r.height == job.height,
            r.output@ == job.output@,
            r.vendor == vendor,
            r.encoder == encoder,
            r.stdin_open,
            r.child_running,
    {
        FfmpegEncoder {
            width: job.width,
            height: job.height,
            output: job.output.clone(),
            vendor,
            encoder,
            stdin_open: true,
            child_running: true,
        }
    }

    /// The bytes to write to FFmpeg for a frame. A frame of the wrong size is reported as
    /// such even if the run takes no more frames.
    pub fn encode_frame(&self, frame: &Frame) -> (r: Result<Vec<u8>, EncodeError>)
        requires
            self.frame_len() <= u32::MAX,
        ensures
            r is Ok <==> self.accepts(frame_bytes(*frame)),
            match r {
                Ok(bytes) => bytes@ == frame_bytes(*frame),
                Err(EncodeError::FrameSize { got, expected, width, height }) => {
                    &&& got == frame_bytes(*frame).len()
                    &&& got != self.frame_len()
                    &&& expected == self.frame_len()
                    &&& width == self.width
                    &&& height == self.height
                },
                Err(EncodeError::Finished) => frame_bytes(*frame).len() == self.frame_len()
                    && !self.stdin_open,
                Err(EncodeError::Failed { .. }) => false,
            },
    {
        assert(0 <= self.width * self.height <= self.frame_len()) by (nonlinear_arith)
            requires
                self.frame_len() == self.width * self.height * 3,
        ;
        let expected: usize = (self.width * self.height * 3) as usize;
        let rgb = standard_bytes(frame);
        if rgb.len() != expected {
            return Err(
                EncodeError::FrameSize {
                    got: rgb.len(),
                    expected,
                    width: self.width,
                    height: self.height,
                },
            );
        }
        if !self.stdin_open {
            return Err(EncodeError::Finished);
        }
        Ok(rgb)
    }

    /// Ends the input, so that FFmpeg completes the file. Returns whether FFmpeg is to be
    /// waited for, which it is the first time only.
    pub fn finish(&mut self) -> (wait: bool)
        ensures
            wait == old(self).child_running,
            *final(self) == old(self).finished(),
    {
        let wait: bool = self.child_running;
        self.stdin_open = false;
        self.child_running = false;
        wait
    }

    /// What the end of FFmpeg means for the run.
    pub fn exited(&self, success: bool) -> (r: Result<(), EncodeError>)
        ensures
            r is Ok <==> success,
            r matches Err(e) ==> (e matches EncodeError::Failed { output } && output@
                == self.output@),
    {
        if success {
            Ok(())
        } else {
            Err(EncodeError::Failed { output: self.output.clone() })
        }
    }

    /// The name of the encoder in use.
    pub fn selected_encoder(&self) -> (r: &str)
        ensures
            r@ == self.encoder@,
    {
        self.encoder.as_str()
    }

    /// The vendor of the encoder in use.
    pub fn selected_vendor(&self) -> (r: Vendor)
        ensures
            r == self.vendor,
    {
        self.vendor
    }
}

/// A run that has been finished takes no frame, and finishing it again neither changes
/// it nor waits for FFmpeg again.
pub proof fn law_finished_for_good(run: FfmpegEncoder, bytes: Seq<u8>)
    ensures
        run.finished().wf(),
        !run.finished().accepts(bytes),
        !run.finished().child_running,
        run.finished().finished() == run.finished(),
{
}

} // verus!
