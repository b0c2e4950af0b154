//! How runs of FFmpeg go on, and how long they are waited for.
use vstd::prelude::*;
use crate::ffmpeg_decoder::{
    create_decoder, hwaccel_candidates, probe_hwaccel, DecodeEvent, DecodeStep, FfmpegVideoDecoder,
    HwaccelSearch, StreamFields,
};
use crate::ffmpeg_encoder::{
    encoder_name, probe_order, probe_wait_step, select_encoder, Codec, EncodeError, EncodeJob,
    EncoderSelection, FfmpegEncoder, Vendor,
};
use crate::frame::RgbFrame;
use crate::platform::Platform;
use crate::search::FirstWorking;
use crate::text::texts;
use crate::util::{image_to_frame, run_succeeded, wait_step, ChildState, Frame, WaitStep};

verus! {

/// A child process that has exited is reported, with its outcome, at any time. One that
/// still runs is looked at again after 50 milliseconds, until its time is over: then it is
/// killed, as is one whose state cannot be had.
pub proof fn law_waiting(state: ChildState, elapsed: u128, timeout: u128, r: WaitStep)
    requires
        wait_step.ensures((state, elapsed, timeout), r),
    ensures
        state matches ChildState::Exited(success) ==> r == WaitStep::Report(success),
        state == ChildState::Running && elapsed < timeout ==> r == WaitStep::Sleep(50),
        state == ChildState::Running && elapsed >= timeout ==> r == WaitStep::Kill,
        state == ChildState::Unknown ==> r == WaitStep::Kill,
{
}

/// A test run of an encoder is waited for in the same way, but for one whose state cannot be
/// had: it is left alone.
pub proof fn law_waiting_for_test_run(
    state: ChildState,
    elapsed: u128,
    timeout: u128,
    r: WaitStep,
    usual: WaitStep,
)
    requires
        probe_wait_step.ensures((state, elapsed, timeout), r),
        wait_step.ensures((state, elapsed, timeout), usual),
    ensures
        state == ChildState::Unknown ==> r == WaitStep::Abandon,
        state != ChildState::Unknown ==> r == usual,
{
}

/// A run has succeeded exactly if its outcome is known and it exited successfully, whatever
/// it wrote.
pub proof fn law_run_success(messages: String, success: bool, known: bool, unknown: bool)
    requires
        run_succeeded.ensures((&Some((success, messages)),), known),
        run_succeeded.ensures((&None::<(bool, String)>,), unknown),
    ensures
        known == success,
        !unknown,
{
}

/// A new decoding run reads frames of three bytes for each pixel of the video's size. It is
/// one in software exactly if no hardware decoder was found.
pub proof fn law_new_decoding_run(
    fields: StreamFields,
    fps: String,
    hwaccel: Option<String>,
    r: FfmpegVideoDecoder,
)
    requires
        create_decoder.ensures((&fields, fps, &hwaccel), r),
    ensures
        r.width == fields.width,
        r.height == fields.height,
        r.frame_size == fields.width * fields.height * 3,
        r.fps_rational@ == fps@,
        !r.finished,
        r.is_software <==> hwaccel is None,
{
}

/// A run that has not ended reads a whole frame when the next one is asked for, and hands
/// out the bytes that were read as a frame of the video's size. Neither ends the run.
pub proof fn law_frames_are_delivered(
    run: &mut FfmpegVideoDecoder,
    event: DecodeEvent,
    r: DecodeStep,
)
    requires
        FfmpegVideoDecoder::next_frame.ensures((run, event), r),
        !old(run).finished,
        event is Requested || event is Read,
    ensures
        event is Requested ==> (r matches DecodeStep::Read(n) && n == old(run).frame_size),
        event matches DecodeEvent::Read(bytes) ==> (r matches DecodeStep::Deliver(frame)
            && frame.width == old(run).width && frame.height == old(run).height && frame.data@
            == bytes@),
        !final(run).finished,
{
}

/// The end of FFmpeg's output ends the run, and FFmpeg is waited for: the end is reported
/// if it exits successfully, else its failure is. Any other failure to read ends the run
/// too, and FFmpeg is killed. A run that has ended reports the end when asked.
pub proof fn law_runs_end(run: &mut FfmpegVideoDecoder, event: DecodeEvent, r: DecodeStep)
    requires
        FfmpegVideoDecoder::next_frame.ensures((run, event), r),
    ensures
        event is EndOfStream ==> r is AwaitExit && final(run).finished,
        event is ReadFailed ==> r is KillAndFail && final(run).finished,
        event == DecodeEvent::Exited(true) ==> r is End,
        event == DecodeEvent::Exited(false) ==> r is FailAbnormalExit,
        event is Requested && old(run).finished ==> r is End,
        old(run).finished ==> final(run).finished,
        r is Deliver ==> event is Read,
        final(run).width == old(run).width,
        final(run).height == old(run).height,
        final(run).frame_size == old(run).frame_size,
        final(run).fps_rational == old(run).fps_rational,
        final(run).is_software == old(run).is_software,
{
}

/// FFmpeg is killed when a run is given up, unless it has exited.
pub proof fn law_kill_on_drop(state: ChildState, r: bool)
    requires
        FfmpegVideoDecoder::kill_on_drop.ensures((state,), r),
    ensures
        r <==> state == ChildState::Running || state == ChildState::Unknown,
{
}

/// A new encoding run takes frames of the job's size, and they go to FFmpeg byte by byte as
/// they are. A frame with another number of bytes is refused with both numbers.
pub proof fn law_frames_are_encoded(
    job: EncodeJob,
    vendor: Vendor,
    encoder: String,
    run: FfmpegEncoder,
    image: RgbFrame,
    frame: Frame,
    r: Result<Vec<u8>, EncodeError>,
)
    requires
        FfmpegEncoder::new.ensures((&job, vendor, encoder), run),
        image_to_frame.ensures((image,), frame),
        FfmpegEncoder::encode_frame.ensures((&run, &frame), r),
    ensures
        run.output@ == job.output@,
        run.vendor == vendor,
        run.encoder@ == encoder@,
        image.data@.len() == job.width * job.height * 3 ==> (r matches Ok(bytes) && bytes@
            == image.data@),
        image.data@.len() != job.width * job.height * 3 ==> (r matches Err(
            EncodeError::FrameSize { got, expected, width, height },
        ) && got == image.data@.len() && expected == job.width * job.height * 3 && width
            == job.width && height == job.height),
{
}

/// Finishing a run closes its input and waits for FFmpeg; finishing it again does neither.
/// After that frames of the right size are refused as coming too late.
pub proof fn law_finishing(
    run: &mut FfmpegEncoder,
    wait: bool,
    again: &mut FfmpegEncoder,
    wait_again: bool,
    image: RgbFrame,
    frame: Frame,
    r: Result<Vec<u8>, EncodeError>,
)
    requires
        FfmpegEncoder::finish.ensures((run,), wait),
        *old(again) == *final(run),
        FfmpegEncoder::finish.ensures((again,), wait_again),
        image_to_frame.ensures((image,), frame),
        image.data@.len() == old(run).width * old(run).height * 3,
        FfmpegEncoder::encode_frame.ensures((&*final(run), &frame), r),
    ensures
        wait == old(run).child_running,
        !wait_again,
        r matches Err(e) && e is Finished,
        final(run).output == old(run).output,
        final(run).vendor == old(run).vendor,
        final(run).encoder == old(run).encoder,
        final(run).width == old(run).width,
        final(run).height == old(run).height,
{
}

/// A run has succeeded exactly if FFmpeg has; else the output file is named.
pub proof fn law_exit_is_reported(
    run: FfmpegEncoder,
    success: bool,
    r: Result<(), EncodeError>,
)
    requires
        FfmpegEncoder::exited.ensures((&run, success), r),
    ensures
        success <==> r is Ok,
        !success ==> (r matches Err(EncodeError::Failed { output }) && output@ == run.output@),
{
}

/// A search tries candidates in order, one after the other, until one works or none is
/// left; what it has chosen is the one that was found to work last.
pub proof fn law_search_steps(
    s: &mut FirstWorking,
    works: bool,
    before: Option<usize>,
    after: Option<usize>,
    chosen: Option<usize>,
)
    requires
        FirstWorking::pending.ensures((&*old(s),), before),
        FirstWorking::record.ensures((s, works), ()),
        FirstWorking::pending.ensures((&*final(s),), after),
        FirstWorking::chosen.ensures((&*final(s),), chosen),
        before is Some,
        old(s).tried < usize::MAX,
    ensures
        before == Some(old(s).tried),
        works ==> after is None && chosen == before,
        !works ==> chosen is None && (after matches Some(next) ==> next == before->0 + 1),
        !works ==> (after is None <==> before->0 + 1 == old(s).count),
{
}

/// A new search starts with the first candidate, if there is one, and has chosen none.
pub proof fn law_search_starts(
    count: usize,
    s: FirstWorking,
    first: Option<usize>,
    chosen: Option<usize>,
)
    requires
        FirstWorking::new.ensures((count,), s),
        FirstWorking::pending.ensures((&s,), first),
        FirstWorking::chosen.ensures((&s,), chosen),
    ensures
        count == 0 ==> first is None,
        count > 0 ==> first == Some(0usize),
        chosen is None,
        s.count == count,
{
}

/// The search for an encoder tries the encoders of its list by their numbers, and selects
/// an encoder by the name that it has for the codec.
pub proof fn law_encoder_search(
    s: EncoderSelection,
    number: Option<usize>,
    chosen: Option<usize>,
    next: Option<Vendor>,
    selected: Option<(Vendor, String)>,
    name: String,
)
    requires
        FirstWorking::pending.ensures((&s.search,), number),
        FirstWorking::chosen.ensures((&s.search,), chosen),
        EncoderSelection::next_probe.ensures((&s,), next),
        EncoderSelection::selected.ensures((&s,), selected),
        selected matches Some((vendor, _)) ==> encoder_name.ensures((s.codec, vendor), name),
    ensures
        next is Some <==> number is Some,
        number matches Some(i) ==> next == Some(s.order@[i as int]),
        selected is Some <==> chosen is Some,
        chosen matches Some(i) ==> (selected matches Some((vendor, called)) && vendor
            == s.order@[i as int] && called@ == name@),
{
}

/// The search for a hardware decoder tries the decoders of its list by their numbers.
pub proof fn law_decoder_search(
    s: HwaccelSearch,
    number: Option<usize>,
    chosen: Option<usize>,
    next: Option<&str>,
    found: Option<String>,
)
    requires
        FirstWorking::pending.ensures((&s.search,), number),
        FirstWorking::chosen.ensures((&s.search,), chosen),
        HwaccelSearch::next_probe.ensures((&s,), next),
        HwaccelSearch::chosen.ensures((&s,), found),
        s.search.count == s.names@.len(),
    ensures
        next is Some <==> number is Some,
        number matches Some(i) ==> (next matches Some(name) && name@ == s.names@[i as int]@),
        found is Some <==> chosen is Some,
        chosen matches Some(i) ==> (found matches Some(name) && name@ == s.names@[i as int]@),
{
}

/// The search for an encoder goes through the order of encoders from its start, for the
/// codec asked for.
pub proof fn law_encoder_search_starts(
    platform: Platform,
    codec: Codec,
    preferred: Option<Vendor>,
    order: Vec<Vendor>,
    s: EncoderSelection,
    first: Option<Vendor>,
    selected: Option<(Vendor, String)>,
)
    requires
        probe_order.ensures((platform, preferred), order),
        select_encoder.ensures((platform, codec, preferred), s),
        EncoderSelection::next_probe.ensures((&s,), first),
        EncoderSelection::selected.ensures((&s,), selected),
    ensures
        s.order@ == order@,
        s.codec == codec,
        s.search.count == order@.len(),
        order@.len() > 0 ==> first == Some(order@[0]),
        order@.len() == 0 ==> first is None,
        selected is None,
{
}

/// An encoder that works ends the search and is selected; after one that does not work the
/// next of the list is tried, and none is selected.
pub proof fn law_encoder_search_goes_on(
    s: &mut EncoderSelection,
    works: bool,
    before: Option<Vendor>,
    after: Option<Vendor>,
    selected: Option<(Vendor, String)>,
    i: int,
)
    requires
        old(s).wf(),
        EncoderSelection::next_probe.ensures((&*old(s),), before),
        before is Some,
        EncoderSelection::record.ensures((s, works), ()),
        EncoderSelection::next_probe.ensures((&*final(s),), after),
        EncoderSelection::selected.ensures((&*final(s),), selected),
        i == old(s).search.tried,
    ensures
        final(s).order@ == old(s).order@,
        final(s).codec == old(s).codec,
        0 <= i < old(s).order@.len(),
        before == Some(old(s).order@[i]),
        works ==> after is None && (selected matches Some((vendor, _)) && Some(vendor) == before),
        !works ==> selected is None,
        !works && i + 1 < old(s).order@.len() ==> after == Some(old(s).order@[i + 1]),
        !works && i + 1 == old(s).order@.len() ==> after is None,
{
}

/// The search for a hardware decoder goes through the platform's candidates from their
/// start.
pub proof fn law_decoder_search_starts(
    platform: Platform,
    names: Vec<String>,
    s: HwaccelSearch,
    first: Option<&str>,
    found: Option<String>,
)
    requires
        hwaccel_candidates.ensures((platform,), names),
        probe_hwaccel.ensures((platform,), s),
        HwaccelSearch::next_probe.ensures((&s,), first),
        HwaccelSearch::chosen.ensures((&s,), found),
    ensures
        texts(s.names@) == texts(names@),
        s.search.count == names@.len(),
        names@.len() > 0 ==> (first matches Some(name) && name@ == names@[0]@),
        names@.len() == 0 ==> first is None,
        found is None,
{
    assert(texts(names@).len() == names@.len());
    assert(texts(s.names@).len() == s.names@.len());
    if names@.len() > 0 {
        assert(texts(names@)[0] == names@[0]@);
    }
}

/// A hardware decoder that works ends the search and is chosen; after one that does not
/// work the next of the list is tried, and none is chosen.
pub proof fn law_decoder_search_goes_on(
    s: &mut HwaccelSearch,
    works: bool,
    before: Option<&str>,
    after: Option<&str>,
    found: Option<String>,
    i: int,
)
    requires
        old(s).wf(),
        HwaccelSearch::next_probe.ensures((&*old(s),), before),
        before is Some,
        HwaccelSearch::record.ensures((s, works), ()),
        HwaccelSearch::next_probe.ensures((&*final(s),), after),
        HwaccelSearch::chosen.ensures((&*final(s),), found),
        i == old(s).search.tried,
    ensures
        final(s).names@ == old(s).names@,
        0 <= i < old(s).names@.len(),
        before matches Some(name) && name@ == old(s).names@[i]@,
        works ==> after is None && (found matches Some(name) && name@ == old(s).names@[i]@),
        !works ==> found is None,
        !works && i + 1 < old(s).names@.len() ==> (after matches Some(name) && name@ == old(
            s,
        ).names@[i + 1]@),
        !works && i + 1 == old(s).names@.len() ==> after is None,
{
}

/// What a decoding run is asked about itself: the size of the video and its frame rate.
pub proof fn law_decoding_run_details(
    fields: StreamFields,
    fps: String,
    hwaccel: Option<String>,
    run: FfmpegVideoDecoder,
    size: (u32, u32),
    rate: &str,
)
    requires
        create_decoder.ensures((&fields, fps, &hwaccel), run),
        FfmpegVideoDecoder::size.ensures((&run,), size),
        FfmpegVideoDecoder::frame_rate_rational.ensures((&run,), rate),
    ensures
        size.0 == fields.width,
        size.1 == fields.height,
        rate@ == fps@,
{
}

/// What an encoding run is asked about itself: its encoder, and the encoder's vendor. A new
/// run is waited for when it is finished.
pub proof fn law_encoding_run_details(
    job: EncodeJob,
    vendor: Vendor,
    encoder: String,
    run: &mut FfmpegEncoder,
    name: &str,
    of: Vendor,
    wait: bool,
)
    requires
        FfmpegEncoder::new.ensures((&job, vendor, encoder), *old(run)),
        FfmpegEncoder::selected_encoder.ensures((&*old(run),), name),
        FfmpegEncoder::selected_vendor.ensures((&*old(run),), of),
        FfmpegEncoder::finish.ensures((run,), wait),
    ensures
        name@ == encoder@,
        of == vendor,
        wait,
{
}

/// A frame with the wrong number of bytes is refused for that, in a run that is finished as
/// in one that is not.
pub proof fn law_wrong_frames_are_refused(
    run: FfmpegEncoder,
    image: RgbFrame,
    frame: Frame,
    r: Result<Vec<u8>, EncodeError>,
)
    requires
        image_to_frame.ensures((image,), frame),
        image.data@.len() != run.width * run.height * 3,
        FfmpegEncoder::encode_frame.ensures((&run, &frame), r),
    ensures
        r matches Err(EncodeError::FrameSize { got, expected, width, height }) && got
            == image.data@.len() && expected == run.width * run.height * 3 && width == run.width
            && height == run.height,
{
}

} // verus!
