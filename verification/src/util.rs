//! Frames as arrays, and waiting for child processes.
use vstd::prelude::*;
use crate::frame::RgbFrame;

verus! {

/// A frame as an array of rows, columns and colour values.
#[verifier::external_body]
pub struct Frame {
    array: ndarray::Array3<u8>,
}

/// The elements of a frame, row by row.
pub uninterp spec fn frame_bytes(frame: Frame) -> Seq<u8>;

/// The lengths of a frame's three axes.
pub uninterp spec fn frame_shape(frame: Frame) -> Seq<nat>;

/// `ndarray::Array3::from_shape_vec`: the image's values, row by row, as an array of
/// its height, its width and three.
#[verifier::external_body]
pub fn image_to_frame(img: RgbFrame) -> (r: Frame)
    requires
        img.wf(),
        img.data@.len() == 0 ==> img.width * 3 <= isize::MAX && img.height * 3 <= isize::MAX,
    ensures
        frame_bytes(r) == img.data@,
        frame_shape(r) == seq![img.height as nat, img.width as nat, 3],
{
    let shape = (img.height as usize, img.width as usize, 3);
    Frame { array: ndarray::Array3::from_shape_vec(shape, img.data).unwrap() }
}

/// `ndarray::ArrayBase::as_standard_layout` and `into_raw_vec_and_offset`: the
/// elements, row by row.
#[verifier::external_body]
pub(crate) fn standard_bytes(frame: &Frame) -> (r: Vec<u8>)
    ensures
        r@ == frame_bytes(*frame),
{
    frame.array.as_standard_layout().to_owned().into_raw_vec_and_offset().0
}

/// How long a probe of FFmpeg may take, in seconds.
pub const PROBE_TIMEOUT_SECS: u64 = 5;

/// What a look at a child process shows.
#[derive(Clone, Copy, Debug, PartialEq, Eq, Structural)]
pub enum ChildState {
    /// It has exited, successfully or not.
    Exited(bool),
    /// It still runs.
    Running,
    /// Its state cannot be had.
    Unknown,
}

/// What to do after a look at a child process.
#[derive(Clone, Copy, Debug, PartialEq, Eq, Structural)]
pub enum WaitStep {
    /// Collect what the child wrote and report whether it was successful.
    Report(bool),
    /// Kill the child, wait for it, and report no outcome.
    Kill,
    /// Leave the child alone and report no outcome.
    Abandon,
    /// Look again after so many milliseconds.
    Sleep(u64),
}

/// What to do after a look at a child process that has run for `elapsed` nanoseconds
/// and may run for `timeout`.
pub open spec fn spec_wait_step(state: ChildState, elapsed: u128, timeout: u128) -> WaitStep {
    match state {
        ChildState::Exited(success) => WaitStep::Report(success),
        ChildState::Running => if elapsed >= timeout {
            WaitStep::Kill
        } else {
            WaitStep::Sleep(50)
        },
        ChildState::Unknown => WaitStep::Kill,
    }
}

/// What to do after a look at a child process that has run for `elapsed` nanoseconds
/// and may run for `timeout`. A child that has exited is reported however late that
/// is noticed.
pub fn wait_step(state: ChildState, elapsed: u128, timeout: u128) -> (r: WaitStep)
    ensures
        r == spec_wait_step(state, elapsed, timeout),
{
    match state {
        ChildState::Exited(success) => WaitStep::Report(success),
        ChildState::Running => {
            if elapsed >= timeout {
                WaitStep::Kill
            } else {
                WaitStep::Sleep(50)
            }
        },
        ChildState::Unknown => WaitStep::Kill,
    }
}

/// Whether a run that was waited for ended with success.
pub fn run_succeeded(outcome: &Option<(bool, String)>) -> (r: bool)
    ensures
        r == (*outcome matches Some((success, _)) && success),
{
    match outcome {
        Some((success, _)) => *success,
        None => false,
    }
}

/// No child process is waited for after its time is over, one that still runs then is
/// killed, and the outcome of one that has exited is never lost.
pub proof fn law_wait_is_bounded(state: ChildState, elapsed: u128, timeout: u128)
    ensures
        elapsed >= timeout ==> !(spec_wait_step(state, elapsed, timeout) is Sleep),
        elapsed >= timeout && state == ChildState::Running ==> spec_wait_step(
            state,
            elapsed,
            timeout,
        ) == WaitStep::Kill,
        state matches ChildState::Exited(success) ==> spec_wait_step(state, elapsed, timeout)
            == WaitStep::Report(success),
        spec_wait_step(state, elapsed, timeout) is Report ==> state is Exited,
{
}

} // verus!
