//! Frames on their way: conversion, cropping, sizes and order.
use vstd::prelude::*;
use crate::frame::{read_planes, Layout, Planes, RgbFrame, Samples, SourceImage};
use crate::pipeline::{
    after_frames, arrived, crop_render, decoded, end_messages, have_own_places, is_video,
    law_frames_leave_in_order, lemma_gap, output_size, processing_threads, queue_full,
    reports_progress, too_small, MediaKind, ProcessedFrame, ReorderQueue,
};

verus! {

/// The colours of a pixel of an image with 8-bit samples are its samples; those of a grey
/// pixel are three times its grey, and alpha is left out.
pub proof fn law_colours_of_8_bits(image: SourceImage, v: Vec<u8>, r: Planes, p: int, c: int)
    requires
        read_planes.ensures((&image,), r),
        image.samples == Samples::Bits8(v),
        0 <= p < image.width * image.height,
        0 <= c < 3,
    ensures
        r.width == image.width,
        r.height == image.height,
        image.layout is Luma ==> r.rgb@[3 * p + c] == v@[p] && r.luma@[p] == v@[p],
        image.layout is LumaAlpha ==> r.rgb@[3 * p + c] == v@[2 * p] && r.luma@[p] == v@[2 * p],
        image.layout is Rgb ==> r.rgb@[3 * p + c] == v@[3 * p + c],
        image.layout is Rgba ==> r.rgb@[3 * p + c] == v@[4 * p + c],
{
    lemma_samples(image.layout, p);
    assert(r.rgb@[3 * p + c] == image.sample8(image.layout.sample(p, c)));
    assert(image.luma_of(p, r.luma@[p] as int));
}

/// An image is read in its size: a luma value and three colours for each pixel.
pub proof fn law_all_pixels_are_read(image: SourceImage, r: Planes)
    requires
        read_planes.ensures((&image,), r),
    ensures
        r.width == image.width,
        r.height == image.height,
        r.luma@.len() == image.width * image.height,
        r.rgb@.len() == image.width * image.height * 3,
{
}

/// The colours of a pixel of an image with 16-bit samples are the nearest 8-bit values.
pub proof fn law_colours_of_16_bits(image: SourceImage, v: Vec<u16>, r: Planes, p: int, c: int)
    requires
        image.wf(),
        read_planes.ensures((&image,), r),
        image.samples == Samples::Bits16(v),
        0 <= p < image.width * image.height,
        0 <= c < 3,
    ensures
        ({
            let s = match image.layout {
                Layout::Luma => v@[p],
                Layout::LumaAlpha => v@[2 * p],
                Layout::Rgb => v@[3 * p + c],
                Layout::Rgba => v@[4 * p + c],
            };
            &&& -257 < 2 * (257 * r.rgb@[3 * p + c] - s) < 257
            &&& image.layout is Luma || image.layout is LumaAlpha ==> r.luma@[p] == r.rgb@[3 * p
                + c]
        }),
{
    lemma_samples(image.layout, p);
    let i = image.layout.sample(p, c);
    assert(r.rgb@[3 * p + c] == image.sample8(i));
    assert(image.luma_of(p, r.luma@[p] as int));
    let s = v@[i];
    assert(0 <= s <= 0xffff);
    if !image.layout.coloured() {
        assert(image.layout.sample(p, 0) == i);
    }
}

/// The luma of a coloured pixel is the sum of 21.26 % of its red, 71.52 % of its green and
/// 7.22 % of its blue, up to six tenths of a step.
pub proof fn law_luma_of_colours(image: SourceImage, r: Planes, p: int)
    requires
        read_planes.ensures((&image,), r),
        0 <= p < image.width * image.height,
        image.layout is Rgb || image.layout is Rgba,
    ensures
        ({
            let n = if image.layout is Rgb { 3int } else { 4 };
            let l = r.luma@[p] as int;
            &&& image.samples matches Samples::Bits8(v) ==> -6000 <= 10000 * l - (2126 * v@[n * p]
                + 7152 * v@[n * p + 1] + 722 * v@[n * p + 2]) <= 6000
            &&& image.samples matches Samples::Bits16(v) ==> -1542000 <= 2570000 * l - (2126 * v@[n
                * p] + 7152 * v@[n * p + 1] + 722 * v@[n * p + 2]) <= 1542000
        }),
{
    lemma_samples(image.layout, p);
    let l = r.luma@[p] as int;
    assert(image.luma_of(p, l));
    assert(10000 * 1 * l == 10000 * l && 10000 * 257 * l == 2570000 * l) by (nonlinear_arith);
}

/// Where the samples of a pixel start.
proof fn lemma_samples(layout: Layout, p: int)
    ensures
        layout is Luma ==> p * layout.channels() == p,
        layout is LumaAlpha ==> p * layout.channels() == 2 * p,
        layout is Rgb ==> p * layout.channels() == 3 * p,
        layout is Rgba ==> p * layout.channels() == 4 * p,
{
}

/// A frame is cut at its right and its bottom: what is left is as large as asked for, as
/// far as the frame goes, and each pixel keeps its place and its colours.
pub proof fn law_crop(
    render: RgbFrame,
    out_w: u32,
    out_h: u32,
    r: RgbFrame,
    x: int,
    y: int,
    c: int,
)
    requires
        crop_render.ensures((render, out_w, out_h), r),
    ensures
        r.width <= out_w && r.width <= render.width,
        r.width == out_w || r.width == render.width,
        r.height <= out_h && r.height <= render.height,
        r.height == out_h || r.height == render.height,
        r.data@.len() == r.width * r.height * 3,
        0 <= x < r.width && 0 <= y < r.height && 0 <= c < 3 ==> r.data@[(y * r.width + x) * 3 + c]
            == render.data@[(y * render.width + x) * 3 + c],
{
    if 0 <= x < r.width && 0 <= y < r.height && 0 <= c < 3 {
        assert(r.at(x, y, c) == render.at(x, y, c));
    }
}

/// The encoded video is the largest even part of what whole cells cover.
pub proof fn law_output_size(width: u32, height: u32, cell_w: u32, cell_h: u32, r: (u32, u32))
    requires
        cell_w > 0,
        cell_h > 0,
        output_size.ensures((width, height, cell_w, cell_h), r),
    ensures
        r.0 % 2 == 0 && r.0 <= (width / cell_w) * cell_w < r.0 + 2,
        r.1 % 2 == 0 && r.1 <= (height / cell_h) * cell_h < r.1 + 2,
        (width / cell_w) * cell_w <= width < (width / cell_w) * cell_w + cell_w,
        (height / cell_h) * cell_h <= height < (height / cell_h) * cell_h + cell_h,
{
    vstd::arithmetic::div_mod::lemma_fundamental_div_mod(width as int, cell_w as int);
    vstd::arithmetic::mul::lemma_mul_is_commutative(cell_w as int, (width / cell_w) as int);
    vstd::arithmetic::div_mod::lemma_fundamental_div_mod(height as int, cell_h as int);
    vstd::arithmetic::mul::lemma_mul_is_commutative(cell_h as int, (height / cell_h) as int);
}

/// An input is too small exactly if it does not hold four cells in both directions.
pub proof fn law_too_small(width: u32, height: u32, cell_w: u32, cell_h: u32, r: bool)
    requires
        cell_w > 0,
        cell_h > 0,
        too_small.ensures((width, height, cell_w, cell_h), r),
    ensures
        !r <==> width / cell_w >= 4 && height / cell_h >= 4,
{
    let (w, h) = (width as int, height as int);
    let (a, b) = (cell_w as int, cell_h as int);
    assert(w / a >= 4 <==> w >= a * 4) by (nonlinear_arith)
        requires
            a > 0,
            w >= 0,
    ;
    assert(h / b >= 4 <==> h >= b * 4) by (nonlinear_arith)
        requires
            b > 0,
            h >= 0,
    ;
}

/// Frames are converted by one thread less than the machine offers, by four less where
/// decoding or encoding is done in software, and by a quarter of them where both are; by
/// one thread at least.
pub proof fn law_threads(available: usize, decoder: bool, encoder: bool, r: usize)
    requires
        processing_threads.ensures((available, decoder, encoder), r),
    ensures
        r >= 1,
        decoder && encoder && available >= 4 ==> 4 * r <= available < 4 * r + 4,
        decoder != encoder && available > 4 ==> r + 4 == available,
        !decoder && !encoder && available > 1 ==> r + 1 == available,
        decoder && encoder && available < 4 ==> r == 1,
        decoder != encoder && available <= 4 ==> r == 1,
        !decoder && !encoder && available <= 1 ==> r == 1,
{
}

/// Small decisions of a conversion: a file is converted as what it was recognised as; the
/// decoder waits while 25 frames or more are under way; progress is reported every 30
/// frames; each thread that the machine offers is told the end.
pub proof fn law_small_decisions(
    kind: MediaKind,
    video: Option<bool>,
    frames: u32,
    full: bool,
    reports: bool,
    available: usize,
    messages: usize,
)
    requires
        is_video.ensures((kind,), video),
        queue_full.ensures((frames,), full),
        reports_progress.ensures((frames,), reports),
        end_messages.ensures((available,), messages),
    ensures
        kind is Video <==> video == Some(true),
        kind is Image <==> video == Some(false),
        kind is Other <==> video is None,
        full <==> frames >= 25,
        reports <==> exists|n: int| frames == #[trigger] (n * 30),
        messages == available,
{
    if reports {
        assert(frames == (frames as int / 30) * 30);
    }
}

/// Decoded frames are numbered one after the other: the first has the number 0 if it is
/// started with, each next one the number after it.
pub proof fn law_frames_are_numbered(
    next: u32,
    first: (Option<u32>, u32),
    second: (Option<u32>, u32),
    last: (Option<u32>, u32),
)
    requires
        decoded.ensures((next, true), first),
        decoded.ensures((first.1, true), second),
        decoded.ensures((second.1, false), last),
    ensures
        first.0 == Some(next),
        second.0 matches Some(n) && n == next + 1,
        last.0 is None,
        last.1 == next + 2,
{
}

/// A queue that takes in a frame hands out, in order and without a gap, the frames from the
/// place on that it waits for, up to the first that is not there; it keeps the others.
pub proof fn law_push(q: &mut ReorderQueue, data: ProcessedFrame, r: Vec<RgbFrame>, id: u32)
    requires
        ReorderQueue::push.ensures((q, data), r),
        !old(q).waiting@.dom().contains(u32::MAX),
        data.id < u32::MAX,
    ensures
        ({
            let here = old(q).waiting@.dom().contains(id) || id == data.id;
            let frame = if id == data.id { data.frame } else { old(q).waiting@[id] };
            let (from, to) = (old(q).next, final(q).next);
            &&& from <= to
            &&& r@.len() == to - from
            &&& from <= id < to ==> here && r@[id - from] == frame
            &&& id == to ==> !here
            &&& final(q).waiting@.dom().contains(id) <==> here && !(from <= id < to)
            &&& final(q).waiting@.dom().contains(id) ==> final(q).waiting@[id] == frame
        }),
{
    let all = old(q).waiting@.insert(data.id, data.frame);
    lemma_gap(all, old(q).next);
    let (from, to) = (old(q).next, final(q).next);
    if from <= id < to {
        assert(all.dom().contains(id));
    }
}

/// A new queue is empty and waits for the first frame: it is where `after_frames` starts.
pub proof fn law_new_queue(q: ReorderQueue, id: u32)
    requires
        ReorderQueue::new.ensures((), q),
    ensures
        q.next == 0,
        !q.waiting@.dom().contains(id),
        q.waiting@ == after_frames(seq![]).0,
        q.next == after_frames(seq![]).1,
        after_frames(seq![]).2.len() == 0,
{
}

/// What `after_frames` says of a queue is what the queue comes to: pushing one frame more
/// takes it from there to there.
pub proof fn law_pushes_follow(
    q: &mut ReorderQueue,
    frames: Seq<ProcessedFrame>,
    data: ProcessedFrame,
    r: Vec<RgbFrame>,
)
    requires
        old(q).waiting@ == after_frames(frames).0,
        old(q).next == after_frames(frames).1,
        ReorderQueue::push.ensures((q, data), r),
    ensures
        final(q).waiting@ == after_frames(frames.push(data)).0,
        final(q).next == after_frames(frames.push(data)).1,
        after_frames(frames).2 + r@ == after_frames(frames.push(data)).2,
{
    assert(frames.push(data).drop_last() =~= frames);
}

/// Frames leave the queue in the order of the video. Of frames that arrive in any order,
/// no two with the same number, each that is handed out as the `i`th is the one with the
/// number `i`; all before the first number that is missing are handed out, and no more.
pub proof fn law_video_order(frames: Seq<ProcessedFrame>, i: int)
    requires
        have_own_places(frames),
    ensures
        ({
            let out = after_frames(frames).2;
            &&& 0 <= i < out.len() ==> exists|j: int|
                0 <= j < frames.len() && (#[trigger] frames[j]).id == i && frames[j].frame == out[i]
            &&& forall|j: int| 0 <= j < frames.len() ==> (#[trigger] frames[j]).id != out.len()
        }),
{
    law_frames_leave_in_order(frames);
    let all = arrived(frames);
    let out = after_frames(frames).2;
    lemma_gap(all, 0);
    if 0 <= i < out.len() {
        let id = i as u32;
        assert(all.dom().contains(id));
        lemma_arrived_frame(frames, id);
    }
    assert forall|j: int| 0 <= j < frames.len() implies (#[trigger] frames[j]).id != out.len() by {
        lemma_in_arrived(frames, j);
        assert(all.dom().contains(frames[j].id));
    }
}

proof fn lemma_in_arrived(frames: Seq<ProcessedFrame>, j: int)
    requires
        0 <= j < frames.len(),
    ensures
        arrived(frames).dom().contains(frames[j].id),
    decreases frames.len(),
{
    if j < frames.len() - 1 {
        assert(frames.drop_last()[j] == frames[j]);
        lemma_in_arrived(frames.drop_last(), j);
    }
}

proof fn lemma_arrived_frame(frames: Seq<ProcessedFrame>, id: u32)
    requires
        arrived(frames).dom().contains(id),
    ensures
        exists|j: int|
            0 <= j < frames.len() && (#[trigger] frames[j]).id == id && frames[j].frame == arrived(
                frames,
            )[id],
    decreases frames.len(),
{
    if frames.last().id == id {
        assert(frames[frames.len() - 1].id == id);
    } else {
        let front = frames.drop_last();
        lemma_arrived_frame(front, id);
        let j = choose|j: int|
            0 <= j < front.len() && (#[trigger] front[j]).id == id && front[j].frame == arrived(
                front,
            )[id];
        assert(frames[j] == front[j]);
    }
}

} // verus!
