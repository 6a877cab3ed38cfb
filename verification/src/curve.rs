//! Step curves: samples with the times from which they hold.
use crate::error::{BvhAssetLoaderError, BvhAssetLoaderErrorView};
use vstd::prelude::*;

verus! {

/// A curve that holds each of its values from the time that stands with it
/// until the time of the next. Times are in nanoseconds.
#[derive(Clone, Debug, PartialEq, Eq)]
pub struct StepCurve<T> {
    pub keyframes: Vec<(u128, T)>,
}

/// The time of sample `i` where a frame lasts `frame_duration`.
pub open spec fn timestamp(i: nat, frame_duration: nat) -> nat {
    i * frame_duration
}

/// The time of sample `i` as it comes out by adding the duration of a
/// frame once for every sample before it.
pub open spec fn accumulated_time(i: nat, frame_duration: nat) -> nat
    decreases i,
{
    if i == 0 {
        0
    } else {
        accumulated_time((i - 1) as nat, frame_duration) + frame_duration
    }
}

/// The samples of a curve: every value with its time.
pub open spec fn step_curve_of<T>(values: Seq<T>, frame_duration: nat) -> Seq<(u128, T)> {
    Seq::new(values.len(), |i: int| (timestamp(i as nat, frame_duration) as u128, values[i]))
}

/// The time of a sample is its place times the duration of a frame,
/// whether it is multiplied or added up frame by frame: the first sample
/// is at time zero, and every next one is one frame later.
pub proof fn lemma_timestamps_accumulate(i: nat, frame_duration: nat)
    ensures
        timestamp(0, frame_duration) == 0,
        timestamp(i + 1, frame_duration) == timestamp(i, frame_duration) + frame_duration,
        accumulated_time(i, frame_duration) == timestamp(i, frame_duration),
    decreases i,
{
    assert(0 * frame_duration == 0) by (nonlinear_arith);
    assert((i + 1) * frame_duration == i * frame_duration + frame_duration) by (nonlinear_arith);
    if i > 0 {
        lemma_timestamps_accumulate((i - 1) as nat, frame_duration);
        assert(((i - 1) + 1) * frame_duration == (i - 1) * frame_duration + frame_duration)
            by (nonlinear_arith);
    }
}

/// The time of a sample whose place and frame duration fit in 64 bits fits
/// in 128 bits.
pub proof fn lemma_timestamp_fits(i: nat, frame_duration: nat)
    requires
        i <= u64::MAX,
        frame_duration <= u64::MAX,
    ensures
        timestamp(i, frame_duration) <= u128::MAX,
{
    assert(i * frame_duration <= 0xffff_ffff_ffff_ffff * 0xffff_ffff_ffff_ffff) by (nonlinear_arith)
        requires
            i <= 0xffff_ffff_ffff_ffff,
            frame_duration <= 0xffff_ffff_ffff_ffff,
    ;
}

/// The step curve of samples taken one frame apart, the first at time
/// zero; `frame_duration` is in nanoseconds.
///
/// It is an error if there are fewer than two samples.
pub fn create_curve<T: Copy>(values: &Vec<T>, frame_duration: u64) -> (r: Result<
    StepCurve<T>,
    BvhAssetLoaderError,
>)
    ensures
        match r {
            Ok(curve) => values@.len() >= 2 && curve.keyframes@ == step_curve_of(
                values@,
                frame_duration as nat,
            ),
            Err(e) => e@ == BvhAssetLoaderErrorView::InsufficientSamples && values@.len() < 2,
        },
        r is Ok ==> forall|i: int|
            0 <= i < values@.len() ==> (#[trigger] r->Ok_0.keyframes@[i]).0 == timestamp(
                i as nat,
                frame_duration as nat,
            ),
{
    if values.len() < 2 {
        return Err(BvhAssetLoaderError::InsufficientSamples);
    }
    let mut keyframes: Vec<(u128, T)> = Vec::new();
    let mut i: usize = 0;
    while i < values.len()
        invariant
            i <= values@.len(),
            keyframes@.len() == i,
            forall|k: int|
                0 <= k < i ==> keyframes@[k] == (
                    timestamp(k as nat, frame_duration as nat) as u128,
                    values@[k],
                ),
            forall|k: int|
                0 <= k < i ==> (#[trigger] keyframes@[k]).0 == timestamp(
                    k as nat,
                    frame_duration as nat,
                ),
        decreases values@.len() - i,
    {
        proof {
            lemma_timestamp_fits(i as nat, frame_duration as nat);
        }
        let time: u128 = (i as u128) * (frame_duration as u128);
        keyframes.push((time, values[i]));
        i = i + 1;
    }
    assert(keyframes@ =~= step_curve_of(values@, frame_duration as nat));
    Ok(StepCurve { keyframes })
}

} // verus!
