//! Decisions of a conversion from the input file to the output.
use std::collections::HashMap;
use vstd::prelude::*;
use crate::algorithm::snapped;
use crate::ffmpeg_encoder::FfmpegEncoder;
use crate::frame::{is_crop, row_fits, RgbFrame};

verus! {

/// What a file was recognised as.
#[derive(Clone, Copy, Debug, PartialEq, Eq, Structural)]
pub enum MediaKind {
    Video,
    Image,
    /// Something else, or nothing that is known.
    Other,
}

/// Whether the input is a video, if it can be converted at all.
pub fn is_video(kind: MediaKind) -> (r: Option<bool>)
    ensures
        r == match kind {
            MediaKind::Video => Some(true),
            MediaKind::Image => Some(false),
            MediaKind::Other => None,
        },
{
    match kind {
        MediaKind::Video => Some(true),
        MediaKind::Image => Some(false),
        MediaKind::Other => None,
    }
}

/// Whether an input is too small for cells of the given size: it has to hold four of them
/// in both directions.
pub fn too_small(width: u32, height: u32, cell_w: u32, cell_h: u32) -> (r: bool)
    requires
        cell_w * 4 <= u32::MAX,
        cell_h * 4 <= u32::MAX,
    ensures
        r == (width < cell_w * 4 || height < cell_h * 4),
{
    width < cell_w * 4 || height < cell_h * 4
}

/// The even number at or next below `n`.
pub open spec fn even_part(n: int) -> int {
    n - n % 2
}

/// Width and height of the encoded video: what whole cells cover, made even.
pub fn output_size(width: u32, height: u32, cell_w: u32, cell_h: u32) -> (r: (u32, u32))
    requires
        cell_w > 0,
        cell_h > 0,
    ensures
        r.0 == even_part(snapped(width, cell_w)),
        r.1 == even_part(snapped(height, cell_h)),
{
    (output_side(width, cell_w), output_side(height, cell_h))
}

/// What whole cells cover of a side, made even.
fn output_side(side: u32, cell: u32) -> (r: u32)
    requires
        cell > 0,
    ensures
        r == even_part(snapped(side, cell)),
{
    assert(0 <= snapped(side, cell) <= side) by {
        vstd::arithmetic::div_mod::lemma_fundamental_div_mod(side as int, cell as int);
        vstd::arithmetic::mul::lemma_mul_is_commutative(cell as int, (side / cell) as int);
    }
    let covered: u32 = (side / cell) * cell;
    assert(covered & !1u32 == covered - covered % 2) by (bit_vector);
    covered & !1
}

/// The encoded video is no larger than what was rendered, and both its sides are even.
pub proof fn law_output_fits_render(side: u32, cell: u32)
    requires
        cell > 0,
    ensures
        even_part(snapped(side, cell)) % 2 == 0,
        0 <= even_part(snapped(side, cell)) <= snapped(side, cell) <= side,
        snapped(side, cell) < even_part(snapped(side, cell)) + 2,
        side < snapped(side, cell) + cell,
{
    vstd::arithmetic::div_mod::lemma_fundamental_div_mod(side as int, cell as int);
    vstd::arithmetic::mul::lemma_mul_is_commutative(cell as int, (side / cell) as int);
}

/// Cuts a rendered frame to the size of the encoded video, as far as the frame goes.
pub fn crop_render(render: RgbFrame, out_w: u32, out_h: u32) -> (r: RgbFrame)
    requires
        render.wf(),
        row_fits(render.width, render.height, 3),
    ensures
        is_crop(r, render, out_w, out_h),
{
    render.crop(out_w, out_h)
}

/// A rendered frame that has been cut to the size of the encoded video has the size that
/// an encoding run for that video takes.
pub proof fn law_cropped_frame_fits_encoder(
    width: u32,
    height: u32,
    cell_w: u32,
    cell_h: u32,
    render: RgbFrame,
    cropped: RgbFrame,
    run: FfmpegEncoder,
)
    requires
        cell_w > 0,
        cell_h > 0,
        render.width == snapped(width, cell_w),
        render.height == snapped(height, cell_h),
        run.width == even_part(snapped(width, cell_w)),
        run.height == even_part(snapped(height, cell_h)),
        run.stdin_open,
        is_crop(cropped, render, run.width, run.height),
    ensures
        run.accepts(cropped.data@),
{
    law_output_fits_render(width, cell_w);
    law_output_fits_render(height, cell_h);
}

/// How many threads convert frames, of those that the machine offers: fewer where
/// decoding or encoding takes up the processor too, and at least one.
pub open spec fn spec_processing_threads(
    available: int,
    software_decoder: bool,
    software_encoder: bool,
) -> int {
    let wanted = if software_decoder && software_encoder {
        available / 4
    } else if software_decoder || software_encoder {
        available - 4
    } else {
        available - 1
    };
    if wanted >= 1 {
        wanted
    } else {
        1
    }
}

/// How many threads convert frames.
pub fn processing_threads(available: usize, software_decoder: bool, software_encoder: bool) -> (r:
    usize)
    ensures
        r == spec_processing_threads(available as int, software_decoder, software_encoder),
{
    let wanted: usize = match (software_decoder, software_encoder) {
        (true, true) => available / 4,
        (true, _) | (_, true) => available.saturating_sub(4),
        (false, false) => available.saturating_sub(1),
    };
    if wanted >= 1 {
        wanted
    } else {
        1
    }
}

/// There is always a thread that converts frames, and never more of them than the
/// machine offers, if it offers any.
pub proof fn law_threads_in_range(available: int, software_decoder: bool, software_encoder: bool)
    requires
        available >= 1,
    ensures
        1 <= spec_processing_threads(available, software_decoder, software_encoder) <= available,
{
}

/// The place of a frame that the decoder may have delivered, and the place of the next one.
pub fn decoded(next: u32, got: bool) -> (r: (Option<u32>, u32))
    requires
        got ==> next < u32::MAX,
    ensures
        r.0 == (if got {
            Some(next)
        } else {
            None
        }),
        r.1 == next + (if got {
            1int
        } else {
            0
        }),
{
    if got {
        (Some(next), next + 1)
    } else {
        (None, next)
    }
}

/// How many messages tell the converting threads that there are no more frames, of a
/// machine that offers so many threads. Each message is taken by one of them.
pub open spec fn spec_end_messages(available: int) -> int {
    available
}

/// How many messages tell the converting threads that there are no more frames.
pub fn end_messages(available: usize) -> (r: usize)
    ensures
        r == spec_end_messages(available as int),
{
    available
}

/// There is a message for every thread that converts frames.
pub proof fn law_every_thread_is_told(
    available: int,
    software_decoder: bool,
    software_encoder: bool,
)
    requires
        available >= 1,
    ensures
        spec_processing_threads(available, software_decoder, software_encoder)
            <= spec_end_messages(available),
{
}

/// How many milliseconds the decoder waits when the queue is full.
pub const QUEUE_WAIT_MILLIS: u64 = 400;

/// Whether the decoder has to wait, so many frames being on their way to the encoder.
pub fn queue_full(frames_in_queue: u32) -> (r: bool)
    ensures
        r == (frames_in_queue > 24),
{
    frames_in_queue > 24
}

/// Whether progress is reported after so many frames.
pub fn reports_progress(frames: u32) -> (r: bool)
    ensures
        r == (frames % 30 == 0),
{
    frames % 30 == 0
}

/// A frame that has been converted, with its place in the video.
pub struct ProcessedFrame {
    pub id: u32,
    pub frame: RgbFrame,
}

/// Frames that wait for their turn to be encoded.
pub struct ReorderQueue {
    pub waiting: HashMap<u32, RgbFrame>,
    /// The place of the next frame to encode.
    pub next: u32,
}

/// The first place from `from` on that no frame is there for.
pub open spec fn first_gap(frames: Map<u32, RgbFrame>, from: u32) -> u32
    decreases u32::MAX - from,
{
    if from < u32::MAX && frames.dom().contains(from) {
        first_gap(frames, (from + 1) as u32)
    } else {
        from
    }
}

/// The frames of the places from `from` up to `to`, in order.
pub open spec fn in_order(frames: Map<u32, RgbFrame>, from: u32, to: u32) -> Seq<RgbFrame> {
    Seq::new((to - from) as nat, |i: int| frames[(from + i) as u32])
}

/// The frames without those of the places from `from` up to `to`.
pub open spec fn without(frames: Map<u32, RgbFrame>, from: u32, to: u32) -> Map<u32, RgbFrame> {
    frames.remove_keys(Set::new(|id: u32| from <= id < to))
}

impl ReorderQueue {
    /// A place is left behind the last frame.
    pub open spec fn wf(self) -> bool {
        !self.waiting@.dom().contains(u32::MAX)
    }

    /// A queue that waits for the first frame.
    pub fn new() -> (r: Self)
        ensures
            r.wf(),
            r.waiting@ == Map::<u32, RgbFrame>::empty(),
            r.next == 0,
    {
        ReorderQueue { waiting: HashMap::new(), next: 0 }
    }

    /// Takes a frame in, and hands out the frames whose turn it is: all that follow the
    /// frames handed out before without a gap.
    pub fn push(&mut self, data: ProcessedFrame) -> (r: Vec<RgbFrame>)
        requires
            old(self).wf(),
            data.id < u32::MAX,
        ensures
            final(self).wf(),
            ({
                let all = old(self).waiting@.insert(data.id, data.frame);
                &&& final(self).next == first_gap(all, old(self).next)
                &&& r@ == in_order(all, old(self).next, final(self).next)
                &&& final(self).waiting@ == without(all, old(self).next, final(self).next)
            }),
    {
        broadcast use vstd::std_specs::hash::group_hash_axioms;

        let ghost start = self.next;
        let ghost all = self.waiting@.insert(data.id, data.frame);
        let mut out: Vec<RgbFrame> = Vec::new();
        self.waiting.insert(data.id, data.frame);
        assert(self.waiting@ =~= without(all, start, start));
        assert(out@ =~= in_order(all, start, start));
        loop
            invariant
                start <= self.next,
                !all.dom().contains(u32::MAX),
                first_gap(all, start) == first_gap(all, self.next),
                out@ == in_order(all, start, self.next),
                self.waiting@ == without(all, start, self.next),
            ensures
                self.next == first_gap(all, start),
                !all.dom().contains(u32::MAX),
                out@ == in_order(all, start, self.next),
                self.waiting@ == without(all, start, self.next),
            decreases u32::MAX - self.next,
        {
            match self.waiting.remove(&self.next) {
                Some(frame) => {
                    let ghost at = self.next;
                    assert(all.dom().contains(at) && frame == all[at]);
                    assert(at < u32::MAX);
                    out.push(frame);
                    self.next = self.next + 1;
                    assert(out@ =~= in_order(all, start, self.next));
                    assert(self.waiting@ =~= without(all, start, self.next));
                },
                None => {
                    assert(!all.dom().contains(self.next));
                    break;
                },
            }
        }
        out
    }
}

/// The frames that have been taken in, by their places.
pub open spec fn arrived(frames: Seq<ProcessedFrame>) -> Map<u32, RgbFrame>
    decreases frames.len(),
{
    if frames.len() == 0 {
        Map::empty()
    } else {
        arrived(frames.drop_last()).insert(frames.last().id, frames.last().frame)
    }
}

/// What a new queue has come to when it has taken in frames one after the other: the
/// frames that wait, the place of the next one, and the frames handed out.
pub open spec fn after_frames(frames: Seq<ProcessedFrame>) -> (
    Map<u32, RgbFrame>,
    u32,
    Seq<RgbFrame>,
)
    decreases frames.len(),
{
    if frames.len() == 0 {
        (Map::empty(), 0, seq![])
    } else {
        let (waiting, from, out) = after_frames(frames.drop_last());
        let all = waiting.insert(frames.last().id, frames.last().frame);
        let next = first_gap(all, from);
        (without(all, from, next), next, out + in_order(all, from, next))
    }
}

/// Whether no two frames have the same place, and each place has another behind it.
pub open spec fn have_own_places(frames: Seq<ProcessedFrame>) -> bool {
    &&& forall|i: int| 0 <= i < frames.len() ==> (#[trigger] frames[i]).id < u32::MAX
    &&& forall|i: int, j: int|
        0 <= i < j < frames.len() ==> (#[trigger] frames[i]).id != (#[trigger] frames[j]).id
}

/// Frames leave the queue in the order of the video, whatever order they arrive in: when
/// frames of different places have been taken in, those handed out are the frames of the
/// first places, up to the first that has not arrived.
pub proof fn law_frames_leave_in_order(frames: Seq<ProcessedFrame>)
    requires
        have_own_places(frames),
    ensures
        after_frames(frames).1 == first_gap(arrived(frames), 0),
        after_frames(frames).2 == in_order(arrived(frames), 0, after_frames(frames).1),
{
    lemma_queue(frames);
}

/// No frame is held back: once the frames of the first `n` places have arrived, at least
/// `n` frames have been handed out.
pub proof fn law_no_frame_is_held_back(frames: Seq<ProcessedFrame>, n: u32)
    requires
        have_own_places(frames),
        forall|id: u32| id < n ==> #[trigger] arrived(frames).dom().contains(id),
    ensures
        after_frames(frames).2.len() >= n,
{
    lemma_queue(frames);
    let next = after_frames(frames).1;
    lemma_gap(arrived(frames), 0);
    if next < n {
        assert(arrived(frames).dom().contains(next));
    }
}

/// Nothing is missing before the first gap, and nothing is at it.
pub(crate) proof fn lemma_gap(frames: Map<u32, RgbFrame>, from: u32)
    ensures
        from <= first_gap(frames, from),
        forall|id: u32|
            from <= id < first_gap(frames, from) ==> #[trigger] frames.dom().contains(id),
        first_gap(frames, from) < u32::MAX ==> !frames.dom().contains(first_gap(frames, from)),
    decreases u32::MAX - from,
{
    if from < u32::MAX && frames.dom().contains(from) {
        lemma_gap(frames, (from + 1) as u32);
    }
}

/// The first gap only depends on the places from where it is looked for.
proof fn lemma_gap_agrees(a: Map<u32, RgbFrame>, b: Map<u32, RgbFrame>, from: u32)
    requires
        forall|id: u32|
            from <= id ==> #[trigger] a.dom().contains(id) == b.dom().contains(id),
    ensures
        first_gap(a, from) == first_gap(b, from),
    decreases u32::MAX - from,
{
    assert(a.dom().contains(from) == b.dom().contains(from));
    if from < u32::MAX && a.dom().contains(from) {
        lemma_gap_agrees(a, b, (from + 1) as u32);
    }
}

/// Places that are taken can be passed over.
proof fn lemma_gap_skips(frames: Map<u32, RgbFrame>, from: u32, to: u32)
    requires
        from <= to,
        forall|id: u32| from <= id < to ==> #[trigger] frames.dom().contains(id),
    ensures
        first_gap(frames, from) == first_gap(frames, to),
    decreases to - from,
{
    if from < to {
        assert(frames.dom().contains(from));
        lemma_gap_skips(frames, (from + 1) as u32, to);
    }
}

/// What has arrived came from one of the frames.
proof fn lemma_arrived(frames: Seq<ProcessedFrame>, id: u32)
    requires
        arrived(frames).dom().contains(id),
    ensures
        exists|i: int| 0 <= i < frames.len() && (#[trigger] frames[i]).id == id,
    decreases frames.len(),
{
    if frames.last().id == id {
        assert(frames[frames.len() - 1].id == id);
    } else {
        lemma_arrived(frames.drop_last(), id);
        let i = choose|i: int|
            0 <= i < frames.len() - 1 && (#[trigger] frames.drop_last()[i]).id == id;
        assert(frames[i].id == id);
    }
}

/// The queue holds what has arrived but for the frames handed out, which are those
/// before the first gap.
proof fn lemma_queue(frames: Seq<ProcessedFrame>)
    requires
        have_own_places(frames),
    ensures
        after_frames(frames).0 == without(arrived(frames), 0, after_frames(frames).1),
        after_frames(frames).1 == first_gap(arrived(frames), 0),
        after_frames(frames).2 == in_order(arrived(frames), 0, after_frames(frames).1),
    decreases frames.len(),
{
    let (waiting, next, out) = after_frames(frames);
    if frames.len() == 0 {
        assert(waiting =~= without(arrived(frames), 0, 0));
        assert(out =~= in_order(arrived(frames), 0, 0));
    } else {
        let front = frames.drop_last();
        let id = frames.last().id;
        assert forall|i: int| 0 <= i < front.len() implies (#[trigger] front[i]).id < u32::MAX by {
            assert(front[i] == frames[i]);
        }
        assert forall|i: int, j: int| 0 <= i < j < front.len() implies (#[trigger] front[i]).id != (
        #[trigger] front[j]).id by {
            assert(front[i] == frames[i] && front[j] == frames[j]);
        }
        lemma_queue(front);
        let (held, from, before) = after_frames(front);
        let old_all = arrived(front);
        let new_all = arrived(frames);
        let all = held.insert(id, frames.last().frame);
        lemma_gap(old_all, 0);
        assert(id >= from) by {
            if id < from {
                assert(old_all.dom().contains(id));
                lemma_arrived(front, id);
                let i = choose|i: int| 0 <= i < front.len() && (#[trigger] front[i]).id == id;
                assert(frames[i].id == frames[frames.len() - 1].id);
            }
        }
        lemma_gap_agrees(all, new_all, from);
        assert forall|k: u32| 0 <= k < from implies #[trigger] new_all.dom().contains(k) by {
            assert(old_all.dom().contains(k));
        }
        lemma_gap_skips(new_all, 0, from);
        lemma_gap(all, from);
        assert(waiting =~= without(new_all, 0, next));
        assert(out =~= in_order(new_all, 0, next)) by {
            assert forall|i: int| 0 <= i < out.len() implies out[i] == in_order(
                new_all,
                0,
                next,
            )[i] by {
                if i < before.len() {
                    assert(out[i] == old_all[i as u32]);
                } else {
                    let k = i as u32;
                    assert(out[i] == in_order(all, from, next)[i - before.len()]);
                    assert(all.dom().contains(k));
                    assert(all[k] == new_all[k]);
                }
            }
        }
    }
}

} // verus!
