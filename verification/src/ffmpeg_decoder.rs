//! Decoding video through a child process of FFmpeg.
use vstd::prelude::*;
use vstd::string::StringExecFns;
use vstd::utf8::{decode_utf8, valid_utf8};
use crate::ffmpeg_encoder::{create_quiet_args, quiet_args};
use crate::frame::RgbFrame;
use crate::platform::Platform;
use crate::search::{first_of, law_search_finds_first_item, outcomes, FirstWorking};
use crate::text::{
    add_arg, add_pair, are_entries, contains, contains_text, decimal, law_decimal_reads_back,
    law_report_reads_back, lossy_text, output_text, owned, parse_u32, report_text, spec_parse_u32, spec_value_of,
    split_at_char, split_trimmed, texts, value_of,
};
use crate::util::ChildState;

verus! {

/// The name of FFmpeg's probing program.
pub open spec fn spec_ffprobe_name(platform: Platform) -> Seq<char> {
    if platform == Platform::Windows {
        "ffprobe.exe"@
    } else {
        "ffprobe"@
    }
}

/// The name of FFmpeg's probing program.
pub fn ffprobe_name(platform: Platform) -> (r: &'static str)
    ensures
        r@ == spec_ffprobe_name(platform),
{
    if platform == Platform::Windows {
        "ffprobe.exe"
    } else {
        "ffprobe"
    }
}

/// The arguments, before the input file, of a run that reports the size and the frame
/// rate of the first video stream.
pub open spec fn spec_metadata_args() -> Seq<Seq<char>> {
    seq![
        "-v"@,
        "error"@,
        "-select_streams"@,
        "v:0"@,
        "-show_entries"@,
        "stream=width,height,avg_frame_rate,r_frame_rate"@,
        "-of"@,
        "default=noprint_wrappers=1"@,
    ]
}

/// The arguments, before the input file, of a run that reports the size and the frame
/// rate of the first video stream.
pub fn metadata_args() -> (r: Vec<String>)
    ensures
        texts(r@) == spec_metadata_args(),
{
    let mut a: Vec<String> = Vec::new();
    add_pair(&mut a, "-v", "error");
    add_pair(&mut a, "-select_streams", "v:0");
    add_pair(&mut a, "-show_entries", "stream=width,height,avg_frame_rate,r_frame_rate");
    add_pair(&mut a, "-of", "default=noprint_wrappers=1");
    assert(texts(a@) =~= spec_metadata_args());
    a
}

/// What a report on a video stream lacks.
#[derive(Clone, Copy, Debug, PartialEq, Eq, Structural)]
pub enum ProbeError {
    /// There is no report: the probing program failed.
    Failed,
    Width,
    Height,
    FrameRate,
}

impl ProbeError {
    /// The message for a user, about the given file.
    pub open spec fn spec_message(self, file: Seq<char>) -> Seq<char> {
        (match self {
            ProbeError::Failed => "ffprobe failed to read "@,
            ProbeError::Width => "ffprobe reported no video width for "@,
            ProbeError::Height => "ffprobe reported no video height for "@,
            ProbeError::FrameRate => "ffprobe reported no usable frame rate for "@,
        }) + file
    }

    /// The message for a user, about the given file.
    pub fn message(self, file: &str) -> (r: String)
        ensures
            r@ == self.spec_message(file@),
    {
        let mut m = owned(
            match self {
                ProbeError::Failed => "ffprobe failed to read ",
                ProbeError::Width => "ffprobe reported no video width for ",
                ProbeError::Height => "ffprobe reported no video height for ",
                ProbeError::FrameRate => "ffprobe reported no usable frame rate for ",
            },
        );
        m.append(file);
        m
    }
}

/// What a report says of a video stream.
pub struct StreamFields {
    pub width: u32,
    pub height: u32,
    /// The average frame rate, as a ratio.
    pub avg_frame_rate: Option<String>,
    /// The nominal frame rate, as a ratio.
    pub r_frame_rate: Option<String>,
}

/// The number that a report gives `key`.
pub open spec fn reported_number(text: Seq<char>, key: Seq<char>) -> Option<int> {
    match spec_value_of(text, key) {
        Some(v) => spec_parse_u32(v),
        None => None,
    }
}

/// Whether a value read from a report is the one that it gives `key`.
pub open spec fn reported(value: Option<String>, text: Seq<char>, key: Seq<char>) -> bool {
    match value {
        Some(v) => spec_value_of(text, key) == Some(v@),
        None => spec_value_of(text, key) is None,
    }
}

/// The number that a report gives `key`.
fn read_number(text: &str, key: &str) -> (r: Option<u32>)
    ensures
        r is Some <==> reported_number(text@, key@) is Some,
        r matches Some(n) ==> reported_number(text@, key@) == Some(n as int),
{
    match value_of(text, key) {
        Some(v) => parse_u32(v.as_str()),
        None => None,
    }
}

/// Whether the fields of a report, or what it lacks, are those of the given text. A report
/// without a width is rejected for that, whatever else it lacks.
pub open spec fn is_reading(r: Result<StreamFields, ProbeError>, text: Seq<char>) -> bool {
    match r {
        Ok(fields) => {
            &&& reported_number(text, "width"@) == Some(fields.width as int)
            &&& reported_number(text, "height"@) == Some(fields.height as int)
            &&& reported(fields.avg_frame_rate, text, "avg_frame_rate"@)
            &&& reported(fields.r_frame_rate, text, "r_frame_rate"@)
        },
        Err(ProbeError::Width) => reported_number(text, "width"@) is None,
        Err(ProbeError::Height) => reported_number(text, "width"@) is Some && reported_number(
            text,
            "height"@,
        ) is None,
        Err(ProbeError::FrameRate) => false,
        Err(ProbeError::Failed) => false,
    }
}

/// Reads a report on a video stream from what FFmpeg's probing program wrote, if it was
/// successful.
pub fn probe_metadata(success: bool, output: &Vec<u8>) -> (r: Result<StreamFields, ProbeError>)
    ensures
        !success ==> r == Err::<StreamFields, _>(ProbeError::Failed),
        success ==> is_reading(r, lossy_text(output@)),
        success && valid_utf8(output@) ==> is_reading(r, decode_utf8(output@)),
{
    if !success {
        return Err(ProbeError::Failed);
    }
    read_report(output_text(output).as_str())
}

/// Reads a report on a video stream.
pub fn read_report(text: &str) -> (r: Result<StreamFields, ProbeError>)
    ensures
        is_reading(r, text@),
{
    let width: u32 = match read_number(text, "width") {
        Some(n) => n,
        None => return Err(ProbeError::Width),
    };
    let height: u32 = match read_number(text, "height") {
        Some(n) => n,
        None => return Err(ProbeError::Height),
    };
    let avg_frame_rate = value_of(text, "avg_frame_rate");
    let r_frame_rate = value_of(text, "r_frame_rate");
    Ok(StreamFields { width, height, avg_frame_rate, r_frame_rate })
}

/// A number that a report gives a key is read as that number, wherever in the report it
/// stands.
pub proof fn law_reported_number_reads_back(
    entries: Seq<(Seq<char>, Seq<char>)>,
    i: int,
    n: u32,
)
    requires
        are_entries(entries),
        0 <= i < entries.len(),
        entries[i].1 == decimal(n as int),
    ensures
        reported_number(report_text(entries), entries[i].0) == Some(n as int),
{
    law_report_reads_back(entries, i);
    law_decimal_reads_back(n);
}

/// The two sides of a ratio, if a text is one.
pub fn rational_parts(s: &str) -> (r: Option<(String, String)>)
    ensures
        match r {
            Some((num, den)) => split_trimmed(s@, '/') == Some((num@, den@)),
            None => split_trimmed(s@, '/') is None,
        },
{
    split_at_char(s, '/')
}

/// Picks the frame rate to work with: the average one if it is usable, else the nominal
/// one if that is. A frame rate that was not reported is not usable.
pub fn choose_frame_rate(fields: &StreamFields, avg_usable: bool, r_usable: bool) -> (r: Result<
    String,
    ProbeError,
>)
    ensures
        match (fields.avg_frame_rate, fields.r_frame_rate) {
            (Some(avg), _) if avg_usable => r matches Ok(rate) && rate@ == avg@,
            (_, Some(nominal)) if r_usable => r matches Ok(rate) && rate@ == nominal@,
            _ => r == Err::<String, _>(ProbeError::FrameRate),
        },
{
    if avg_usable {
        match &fields.avg_frame_rate {
            Some(rate) => return Ok(rate.clone()),
            None => {},
        }
    }
    if r_usable {
        match &fields.r_frame_rate {
            Some(rate) => return Ok(rate.clone()),
            None => {},
        }
    }
    Err(ProbeError::FrameRate)
}

/// The hardware decoders that a platform may offer, most preferred first.
pub open spec fn spec_hwaccel_candidates(platform: Platform) -> Seq<Seq<char>> {
    match platform {
        Platform::MacOs => seq!["videotoolbox"@],
        Platform::Windows => seq!["cuda"@, "d3d12va"@, "qsv"@, "d3d11va"@, "dxva2"@],
        Platform::Other => seq!["cuda"@, "vaapi"@, "vdpau"@, "qsv"@],
    }
}

/// The hardware decoders that a platform may offer, most preferred first.
pub fn hwaccel_candidates(platform: Platform) -> (r: Vec<String>)
    ensures
        texts(r@) == spec_hwaccel_candidates(platform),
{
    let mut names: Vec<String> = Vec::new();
    match platform {
        Platform::MacOs => {
            add_arg(&mut names, "videotoolbox");
        },
        Platform::Windows => {
            add_pair(&mut names, "cuda", "d3d12va");
            add_pair(&mut names, "qsv", "d3d11va");
            add_arg(&mut names, "dxva2");
        },
        Platform::Other => {
            add_pair(&mut names, "cuda", "vaapi");
            add_pair(&mut names, "vdpau", "qsv");
        },
    }
    assert(texts(names@) =~= spec_hwaccel_candidates(platform));
    names
}

/// The arguments, before and after the input file, of a test run that decodes one frame.
pub open spec fn spec_test_decode_args(hwaccel: Seq<char>) -> (Seq<Seq<char>>, Seq<Seq<char>>) {
    (
        seq![
            "-hide_banner"@,
            "-v"@,
            "warning"@,
            "-nostdin"@,
            "-hwaccel"@,
            hwaccel,
            "-noautorotate"@,
            "-i"@,
        ],
        seq!["-map"@, "0:v:0"@, "-frames:v"@, "1"@, "-f"@, "null"@, "-"@],
    )
}

/// The arguments, before and after the input file, of a test run that decodes one frame.
pub fn test_decode_args(hwaccel: &str) -> (r: (Vec<String>, Vec<String>))
    ensures
        texts(r.0@) == spec_test_decode_args(hwaccel@).0,
        texts(r.1@) == spec_test_decode_args(hwaccel@).1,
{
    let mut before: Vec<String> = Vec::new();
    add_pair(&mut before, "-hide_banner", "-v");
    add_pair(&mut before, "warning", "-nostdin");
    add_pair(&mut before, "-hwaccel", hwaccel);
    add_pair(&mut before, "-noautorotate", "-i");
    assert(texts(before@) =~= spec_test_decode_args(hwaccel@).0);
    let mut after: Vec<String> = Vec::new();
    add_pair(&mut after, "-map", "0:v:0");
    add_pair(&mut after, "-frames:v", "1");
    add_pair(&mut after, "-f", "null");
    add_arg(&mut after, "-");
    assert(texts(after@) =~= spec_test_decode_args(hwaccel@).1);
    (before, after)
}

/// How long a test run of a decoder may take, in seconds.
pub const DECODER_PROBE_SECS: u64 = 8;

/// A text in lower case.
pub uninterp spec fn lowercase(s: Seq<char>) -> Seq<char>;

/// An ASCII letter in lower case; any other character as it is.
pub open spec fn ascii_lowercase(c: char) -> char {
    if 65 <= c as int <= 90 {
        (c as int + 32) as char
    } else {
        c
    }
}

/// Whether a text holds ASCII characters alone.
pub open spec fn is_ascii_text(s: Seq<char>) -> bool {
    forall|i: int| 0 <= i < s.len() ==> ((#[trigger] s[i]) as int) < 128
}

/// An ASCII text in lower case.
pub open spec fn ascii_lowercase_text(s: Seq<char>) -> Seq<char> {
    s.map_values(|c: char| ascii_lowercase(c))
}

/// `str::to_lowercase`: the text in lower case as Unicode defines it, which for a text of
/// ASCII characters is each of its letters in lower case.
#[verifier::external_body]
fn to_lowercase(s: &str) -> (r: String)
    ensures
        r@ == lowercase(s@),
        is_ascii_text(s@) ==> r@ == ascii_lowercase_text(s@),
{
    s.to_lowercase()
}

/// Whether messages, in lower case, say that FFmpeg gave up on a hardware decoder and
/// fell back to software. FFmpeg is successful nevertheless.
pub open spec fn mentions_fallback(messages: Seq<char>) -> bool {
    ||| contains_text(messages, "failed setup for format"@)
    ||| contains_text(messages, "hwaccel initialization returned error"@)
    ||| contains_text(messages, "device creation failed"@)
    ||| contains_text(messages, "error creating a"@)
}

/// Whether messages, in lower case, say that FFmpeg gave up on a hardware decoder and
/// fell back to software.
pub fn reports_fallback(messages: &str) -> (r: bool)
    ensures
        r == mentions_fallback(messages@),
{
    contains(messages, "failed setup for format") || contains(
        messages,
        "hwaccel initialization returned error",
    ) || contains(messages, "device creation failed") || contains(messages, "error creating a")
}

/// Whether a test run, which wrote the given messages, showed that a hardware decoder
/// works. `None` stands for a run that could not be started or took too long.
pub fn test_decode(outcome: &Option<(bool, String)>) -> (r: bool)
    ensures
        match *outcome {
            Some((true, messages)) => {
                &&& r == !mentions_fallback(lowercase(messages@))
                &&& is_ascii_text(messages@) ==> r == !mentions_fallback(
                    ascii_lowercase_text(messages@),
                )
            },
            _ => !r,
        },
{
    match outcome {
        Some((success, messages)) => {
            if !*success {
                return false;
            }
            !reports_fallback(to_lowercase(messages.as_str()).as_str())
        },
        None => false,
    }
}

/// A search for a hardware decoder that works.
pub struct HwaccelSearch {
    pub names: Vec<String>,
    pub search: FirstWorking,
}

impl HwaccelSearch {
    pub open spec fn wf(self) -> bool {
        &&& self.search.wf()
        &&& self.search.count == self.names@.len()
    }

    /// The decoder that a test run is wanted of, if the search goes on.
    pub open spec fn spec_next_probe(self) -> Option<Seq<char>> {
        match self.search.spec_pending() {
            Some(i) => Some(texts(self.names@)[i]),
            None => None,
        }
    }

    /// The decoder that was found to work.
    pub open spec fn spec_chosen(self) -> Option<Seq<char>> {
        match self.search.spec_chosen() {
            Some(i) => Some(texts(self.names@)[i]),
            None => None,
        }
    }

    /// The decoder that a test run is wanted of, if the search goes on.
    pub fn next_probe(&self) -> (r: Option<&str>)
        requires
            self.wf(),
        ensures
            r is Some <==> self.spec_next_probe() is Some,
            r matches Some(name) ==> self.spec_next_probe() == Some(name@),
    {
        match self.search.pending() {
            Some(i) => Some(self.names[i].as_str()),
            None => None,
        }
    }

    /// Records whether the test run showed that the decoder works.
    pub fn record(&mut self, works: bool)
        requires
            old(self).wf(),
            old(self).spec_next_probe() is Some,
        ensures
            final(self).wf(),
            final(self).names@ == old(self).names@,
            final(self).search == (FirstWorking {
                count: old(self).search.count,
                tried: (old(self).search.tried + 1) as usize,
                found: works,
            }),
    {
        self.search.record(works);
    }

    /// The decoder that was found to work.
    pub fn chosen(&self) -> (r: Option<String>)
        requires
            self.wf(),
        ensures
            r is Some <==> self.spec_chosen() is Some,
            r matches Some(name) ==> self.spec_chosen() == Some(name@),
    {
        match self.search.chosen() {
            Some(i) => Some(self.names[i].clone()),
            None => None,
        }
    }
}

/// Starts the search for a hardware decoder.
pub fn probe_hwaccel(platform: Platform) -> (r: HwaccelSearch)
    ensures
        r.wf(),
        texts(r.names@) == spec_hwaccel_candidates(platform),
        r.search.tried == 0,
        !r.search.found,
{
    let names = hwaccel_candidates(platform);
    let search = FirstWorking::new(names.len());
    HwaccelSearch { names, search }
}

/// A search for a hardware decoder that has ended, each test run of it having told the
/// truth, has chosen a decoder that works and is preferred to every other that works; it
/// has chosen none exactly if none works.
pub proof fn law_chooses_first_working(s: HwaccelSearch, works: spec_fn(Seq<char>) -> bool)
    requires
        s.wf(),
        s.search.agrees(outcomes(texts(s.names@), works)),
        s.spec_next_probe() is None,
    ensures
        s.spec_chosen() == first_of(texts(s.names@), works),
        match s.spec_chosen() {
            Some(name) => exists|i: int|
                {
                    &&& 0 <= i < s.names@.len()
                    &&& #[trigger] texts(s.names@)[i] == name
                    &&& works(name)
                    &&& forall|j: int| 0 <= j < i ==> !works(#[trigger] texts(s.names@)[j])
                },
            None => forall|j: int|
                0 <= j < s.names@.len() ==> !works(#[trigger] texts(s.names@)[j]),
        },
{
    law_search_finds_first_item(s.search, texts(s.names@), works);
}

/// The arguments of a run that decodes the first video stream of a file to raw RGB
/// frames on the standard output, through a hardware decoder if one is given.
pub open spec fn spec_decode_args(file: Seq<char>, hwaccel: Option<Seq<char>>) -> Seq<Seq<char>> {
    quiet_args() + (match hwaccel {
        Some(name) => seq!["-hwaccel"@, name],
        None => seq![],
    }) + seq![
        "-noautorotate"@,
        "-i"@,
        file,
        "-map"@,
        "0:v:0"@,
        "-f"@,
        "rawvideo"@,
        "-pix_fmt"@,
        "rgb24"@,
        "pipe:1"@,
    ]
}

/// The characters of a string that may be missing.
pub open spec fn text_of_option(s: Option<String>) -> Option<Seq<char>> {
    match s {
        Some(s) => Some(s@),
        None => None,
    }
}

/// The arguments of a run that decodes the first video stream of a file to raw RGB
/// frames on the standard output, through a hardware decoder if one is given.
pub fn decode_args(file: &str, hwaccel: &Option<String>) -> (r: Vec<String>)
    ensures
        texts(r@) == spec_decode_args(file@, text_of_option(*hwaccel)),
{
    let mut a = create_quiet_args();
    match hwaccel {
        Some(name) => {
            add_pair(&mut a, "-hwaccel", name.as_str());
        },
        None => {},
    }
    add_arg(&mut a, "-noautorotate");
    add_pair(&mut a, "-i", file);
    add_pair(&mut a, "-map", "0:v:0");
    add_pair(&mut a, "-f", "rawvideo");
    add_pair(&mut a, "-pix_fmt", "rgb24");
    add_arg(&mut a, "pipe:1");
    assert(texts(a@) =~= spec_decode_args(file@, text_of_option(*hwaccel)));
    a
}

/// A decoding run, as far as FFmpeg's part in it has come.
pub struct FfmpegVideoDecoder {
    pub width: u32,
    pub height: u32,
    /// Frames per second, as a ratio.
    pub fps_rational: String,
    /// How many bytes a frame has.
    pub frame_size: usize,
    /// Whether there are no more frames to come.
    pub finished: bool,
    /// Whether FFmpeg decodes in software.
    pub is_software: bool,
}

/// What happens in the course of getting one frame.
pub enum DecodeEvent {
    /// The next frame is asked for.
    Requested,
    /// FFmpeg delivered the bytes of a whole frame.
    Read(Vec<u8>),
    /// FFmpeg closed its output before the frame was complete.
    EndOfStream,
    /// Reading from FFmpeg failed in another way.
    ReadFailed,
    /// FFmpeg has exited, successfully or not.
    Exited(bool),
}

/// What to do next in getting one frame.
pub enum DecodeStep {
    /// Read so many bytes from FFmpeg.
    Read(usize),
    /// Hand out the frame.
    Deliver(RgbFrame),
    /// Wait until FFmpeg exits.
    AwaitExit,
    /// Kill FFmpeg, which may be blocked, and report the failure to read.
    KillAndFail,
    /// Report that there are no more frames.
    End,
    /// Report that FFmpeg failed.
    FailAbnormalExit,
}

impl FfmpegVideoDecoder {
    /// The frame size is that of RGB frames of the video's dimensions.
    pub open spec fn wf(self) -> bool {
        self.frame_size == self.width * self.height * 3
    }

    /// Whether an event can come in this state: FFmpeg is only read from while frames may
    /// come, and delivers as many bytes as were asked for; it is only waited for once it
    /// has closed its output.
    pub open spec fn admits(self, event: DecodeEvent) -> bool {
        match event {
            DecodeEvent::Requested => true,
            DecodeEvent::Read(bytes) => !self.finished && bytes@.len() == self.frame_size,
            DecodeEvent::EndOfStream => !self.finished,
            DecodeEvent::ReadFailed => !self.finished,
            DecodeEvent::Exited(_) => self.finished,
        }
    }

    /// The state after an event.
    pub open spec fn after(self, event: DecodeEvent) -> Self {
        FfmpegVideoDecoder {
            finished: self.finished || event is EndOfStream || event is ReadFailed,
            ..self
        }
    }

    /// What to do after an event.
    pub open spec fn step(self, event: DecodeEvent) -> DecodeStep {
        match event {
            DecodeEvent::Requested => if self.finished {
                DecodeStep::End
            } else {
                DecodeStep::Read(self.frame_size)
            },
            DecodeEvent::Read(bytes) => DecodeStep::Deliver(
                RgbFrame { width: self.width, height: self.height, data: bytes },
            ),
            DecodeEvent::EndOfStream => DecodeStep::AwaitExit,
            DecodeEvent::ReadFailed => DecodeStep::KillAndFail,
            DecodeEvent::Exited(success) => if success {
                DecodeStep::End
            } else {
                DecodeStep::FailAbnormalExit
            },
        }
    }

    /// Width and height of the frames.
    pub fn size(&self) -> (r: (u32, u32))
        ensures
            r == (self.width, self.height),
    {
        (self.width, self.height)
    }

    /// Frames per second, as a ratio.
    pub fn frame_rate_rational(&self) -> (r: &str)
        ensures
            r@ == self.fps_rational@,
    {
        self.fps_rational.as_str()
    }

    /// Takes an event in the course of getting one frame, and says what to do next.
    pub fn next_frame(&mut self, event: DecodeEvent) -> (r: DecodeStep)
        requires
            old(self).wf(),
            old(self).admits(event),
        ensures
            r == old(self).step(event),
            *final(self) == old(self).after(event),
            final(self).wf(),
            r matches DecodeStep::Deliver(frame) ==> frame.wf(),
    {
        match event {
            DecodeEvent::Requested => {
                if self.finished {
                    DecodeStep::End
                } else {
                    DecodeStep::Read(self.frame_size)
                }
            },
            DecodeEvent::Read(data) => DecodeStep::Deliver(
                RgbFrame { width: self.width, height: self.height, data },
            ),
            DecodeEvent::EndOfStream => {
                self.finished = true;
                DecodeStep::AwaitExit
            },
            DecodeEvent::ReadFailed => {
                self.finished = true;
                DecodeStep::KillAndFail
            },
            DecodeEvent::Exited(success) => {
                if success {
                    DecodeStep::End
                } else {
                    DecodeStep::FailAbnormalExit
                }
            },
        }
    }

    /// Whether FFmpeg is to be killed when the run is given up, by what a look at it
    /// shows.
    pub fn kill_on_drop(state: ChildState) -> (r: bool)
        ensures
            r == !(state is Exited),
    {
        match state {
            ChildState::Exited(_) => false,
            _ => true,
        }
    }
}

/// A decoding run of which FFmpeg has just been started.
pub fn create_decoder(fields: &StreamFields, fps_rational: String, hwaccel: &Option<String>) -> (r:
    FfmpegVideoDecoder)
    requires
        fields.width * fields.height * 3 <= usize::MAX,
    ensures
        r.wf(),
        r.width == fields.width,
        r.height == fields.height,
        r.fps_rational == fps_rational,
        !r.finished,
        r.is_software == (*hwaccel is None),
{
    assert(0 <= fields.width * fields.height <= fields.width * fields.height * 3)
        by (nonlinear_arith);
    let frame_size: usize = fields.width as usize * fields.height as usize * 3;
    FfmpegVideoDecoder {
        width: fields.width,
        height: fields.height,
        fps_rational,
        frame_size,
        finished: false,
        is_software: hwaccel.is_none(),
    }
}

/// The run after a series of events.
pub open spec fn after_all(run: FfmpegVideoDecoder, events: Seq<DecodeEvent>) -> FfmpegVideoDecoder
    decreases events.len(),
{
    if events.len() == 0 {
        run
    } else {
        after_all(run, events.drop_last()).after(events.last())
    }
}

/// Once FFmpeg has closed its output or could not be read from, no frame is handed out
/// any more, whatever happens then: a request is answered with the end.
pub proof fn law_finished_stays_finished(
    run: FfmpegVideoDecoder,
    end: DecodeEvent,
    events: Seq<DecodeEvent>,
)
    requires
        end is EndOfStream || end is ReadFailed,
    ensures
        after_all(run.after(end), events).finished,
        after_all(run.after(end), events).step(DecodeEvent::Requested) == DecodeStep::End,
    decreases events.len(),
{
    if events.len() > 0 {
        law_finished_stays_finished(run, end, events.drop_last());
    }
}

/// A decode that stops early is never taken for one that came to its end: the end is
/// reported only to a request after the last frame or when FFmpeg exited successfully.
pub proof fn law_partial_decode_is_reported(run: FfmpegVideoDecoder, event: DecodeEvent)
    requires
        run.admits(event),
    ensures
        run.step(event) == DecodeStep::End <==> {
            ||| event is Requested && run.finished
            ||| event == DecodeEvent::Exited(true)
        },
        event == DecodeEvent::Exited(false) ==> run.step(event) == DecodeStep::FailAbnormalExit,
        event is ReadFailed ==> run.step(event) == DecodeStep::KillAndFail,
{
}

} // verus!
