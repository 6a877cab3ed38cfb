//! The animation clip of a capture: for every joint with key frames a step
//! curve, addressed to the joint by its path in the skeleton.
use crate::bvh::Bvh;
use crate::curve::{create_curve, step_curve_of, StepCurve};
use crate::error::{BvhAssetLoaderError, BvhAssetLoaderErrorView};
use crate::hierarchy::{first_ending_in, names_of, unfolds, JointHierarchy};
use crate::key_frames::{KeyFrames, RotationOrder};
use crate::math::Vec3;
use vstd::prelude::*;

verus! {

/// The translations of a joint over time.
#[derive(Clone, Debug, PartialEq, Eq)]
pub struct TranslationCurve {
    /// The path of the joint in the skeleton.
    pub target: Vec<String>,
    pub curve: StepCurve<Vec3>,
}

/// The rotations of a joint over time, as angles in degrees about X, Y and
/// Z with the order of the rotation channels.
#[derive(Clone, Debug, PartialEq, Eq)]
pub struct RotationCurve {
    /// The path of the joint in the skeleton.
    pub target: Vec<String>,
    pub order: RotationOrder,
    pub curve: StepCurve<Vec3>,
}

/// The curves of a capture.
#[derive(Clone, Debug, PartialEq, Eq)]
pub struct AnimationClip {
    pub translations: Vec<TranslationCurve>,
    pub rotations: Vec<RotationCurve>,
}

/// What `len` samples of the joint `name` come to against the paths of a
/// skeleton: the path to address the curve to, or what is wrong.
pub open spec fn curve_outcome(paths: Seq<Seq<Seq<char>>>, name: Seq<char>, len: nat) -> Result<
    Seq<Seq<char>>,
    BvhAssetLoaderErrorView,
> {
    match first_ending_in(paths, name) {
        None => Err(BvhAssetLoaderErrorView::StructureError),
        Some(path) => if len < 2 {
            Err(BvhAssetLoaderErrorView::InsufficientSamples)
        } else {
            Ok(path)
        },
    }
}

/// What entry `i` of the translations comes to.
pub open spec fn translation_outcome(skeleton: JointHierarchy, key_frames: KeyFrames, i: int) -> Result<
    Seq<Seq<char>>,
    BvhAssetLoaderErrorView,
> {
    curve_outcome(
        skeleton.paths(),
        key_frames.joint_translations.entries@[i].0@,
        key_frames.joint_translations.entries@[i].1@.len(),
    )
}

/// What entry `i` of the rotations comes to.
pub open spec fn rotation_outcome(skeleton: JointHierarchy, key_frames: KeyFrames, i: int) -> Result<
    Seq<Seq<char>>,
    BvhAssetLoaderErrorView,
> {
    curve_outcome(
        skeleton.paths(),
        key_frames.joint_rotations.entries@[i].0@,
        key_frames.joint_rotations.entries@[i].1.angles@.len(),
    )
}

/// Whether the first `n` entries of the translations all come to a curve.
pub open spec fn translations_fit(skeleton: JointHierarchy, key_frames: KeyFrames, n: int) -> bool {
    forall|k: int| 0 <= k < n ==> (#[trigger] translation_outcome(skeleton, key_frames, k)) is Ok
}

/// Whether the first `n` entries of the rotations all come to a curve.
pub open spec fn rotations_fit(skeleton: JointHierarchy, key_frames: KeyFrames, n: int) -> bool {
    forall|k: int| 0 <= k < n ==> (#[trigger] rotation_outcome(skeleton, key_frames, k)) is Ok
}

/// Whether `curve` is the curve of entry `i` of the translations.
pub open spec fn is_translation_curve(
    skeleton: JointHierarchy,
    key_frames: KeyFrames,
    frame_duration: nat,
    i: int,
    curve: TranslationCurve,
) -> bool {
    &&& translation_outcome(skeleton, key_frames, i) == Ok::<
        Seq<Seq<char>>,
        BvhAssetLoaderErrorView,
    >(names_of(curve.target@))
    &&& curve.curve.keyframes@ == step_curve_of(
        key_frames.joint_translations.entries@[i].1@,
        frame_duration,
    )
}

/// Whether `curve` is the curve of entry `i` of the rotations.
pub open spec fn is_rotation_curve(
    skeleton: JointHierarchy,
    key_frames: KeyFrames,
    frame_duration: nat,
    i: int,
    curve: RotationCurve,
) -> bool {
    &&& rotation_outcome(skeleton, key_frames, i) == Ok::<Seq<Seq<char>>, BvhAssetLoaderErrorView>(
        names_of(curve.target@),
    )
    &&& curve.order == key_frames.joint_rotations.entries@[i].1.order
    &&& curve.curve.keyframes@ == step_curve_of(
        key_frames.joint_rotations.entries@[i].1.angles@,
        frame_duration,
    )
}

/// Whether `clip` holds the curves of all entries of the key frames, in the
/// order of the entries.
pub open spec fn is_clip_of(
    skeleton: JointHierarchy,
    key_frames: KeyFrames,
    frame_duration: nat,
    clip: AnimationClip,
) -> bool {
    &&& clip.translations@.len() == key_frames.joint_translations.entries@.len()
    &&& forall|i: int|
        0 <= i < clip.translations@.len() ==> is_translation_curve(
            skeleton,
            key_frames,
            frame_duration,
            i,
            #[trigger] clip.translations@[i],
        )
    &&& clip.rotations@.len() == key_frames.joint_rotations.entries@.len()
    &&& forall|i: int|
        0 <= i < clip.rotations@.len() ==> is_rotation_curve(
            skeleton,
            key_frames,
            frame_duration,
            i,
            #[trigger] clip.rotations@[i],
        )
}

/// Whether entry `i` of the translations is the first entry that comes to
/// no curve, for the reason `e`.
pub open spec fn translation_fails(
    skeleton: JointHierarchy,
    key_frames: KeyFrames,
    i: int,
    e: BvhAssetLoaderErrorView,
) -> bool {
    &&& 0 <= i < key_frames.joint_translations.entries@.len()
    &&& translations_fit(skeleton, key_frames, i)
    &&& translation_outcome(skeleton, key_frames, i) == Err::<
        Seq<Seq<char>>,
        BvhAssetLoaderErrorView,
    >(e)
}

/// Whether all translations come to curves and entry `i` of the rotations
/// is the first that comes to none, for the reason `e`.
pub open spec fn rotation_fails(
    skeleton: JointHierarchy,
    key_frames: KeyFrames,
    i: int,
    e: BvhAssetLoaderErrorView,
) -> bool {
    &&& translations_fit(
        skeleton,
        key_frames,
        key_frames.joint_translations.entries@.len() as int,
    )
    &&& 0 <= i < key_frames.joint_rotations.entries@.len()
    &&& rotations_fit(skeleton, key_frames, i)
    &&& rotation_outcome(skeleton, key_frames, i) == Err::<Seq<Seq<char>>, BvhAssetLoaderErrorView>(
        e,
    )
}

/// Whether `r` is what the key frames come to against a skeleton: the clip
/// of all their curves, or the error of the first entry that comes to none,
/// the translations taken before the rotations.
pub open spec fn clip_outcome(
    skeleton: JointHierarchy,
    key_frames: KeyFrames,
    frame_duration: nat,
    r: Result<AnimationClip, BvhAssetLoaderError>,
) -> bool {
    match r {
        Ok(clip) => is_clip_of(skeleton, key_frames, frame_duration, clip),
        Err(e) => (exists|i: int| translation_fails(skeleton, key_frames, i, e@)) || (exists|i: int|
            rotation_fails(skeleton, key_frames, i, e@)),
    }
}

/// The path and the curve of one entry of the key frames.
///
/// It is an error if the skeleton has no joint of that name, or if there
/// are fewer than two samples.
fn target_curve(skeleton: &JointHierarchy, name: &String, values: &Vec<Vec3>, frame_duration: u64) -> (r:
    Result<(Vec<String>, StepCurve<Vec3>), BvhAssetLoaderError>)
    ensures
        match r {
            Ok(found) => curve_outcome(skeleton.paths(), name@, values@.len()) == Ok::<
                Seq<Seq<char>>,
                BvhAssetLoaderErrorView,
            >(names_of(found.0@)) && found.1.keyframes@ == step_curve_of(
                values@,
                frame_duration as nat,
            ),
            Err(e) => curve_outcome(skeleton.paths(), name@, values@.len()) == Err::<
                Seq<Seq<char>>,
                BvhAssetLoaderErrorView,
            >(e@),
        },
{
    let target = match skeleton.target_id(name.as_str()) {
        Some(target) => target,
        None => {
            return Err(BvhAssetLoaderError::StructureError);
        },
    };
    match create_curve(values, frame_duration) {
        Ok(curve) => Ok((target, curve)),
        Err(e) => Err(e),
    }
}

/// The clip of key frames whose joints are those of `skeleton`, with frames
/// that last `frame_duration` nanoseconds.
pub fn clip_from_key_frames(
    skeleton: &JointHierarchy,
    key_frames: &KeyFrames,
    frame_duration: u64,
) -> (r: Result<AnimationClip, BvhAssetLoaderError>)
    ensures
        clip_outcome(*skeleton, *key_frames, frame_duration as nat, r),
{
    let mut translations: Vec<TranslationCurve> = Vec::new();
    let mut i: usize = 0;
    while i < key_frames.joint_translations.entries.len()
        invariant
            i <= key_frames.joint_translations.entries@.len(),
            translations@.len() == i,
            translations_fit(*skeleton, *key_frames, i as int),
            forall|k: int|
                0 <= k < i ==> is_translation_curve(
                    *skeleton,
                    *key_frames,
                    frame_duration as nat,
                    k,
                    #[trigger] translations@[k],
                ),
        decreases key_frames.joint_translations.entries@.len() - i,
    {
        let entry = &key_frames.joint_translations.entries[i];
        match target_curve(skeleton, &entry.0, &entry.1, frame_duration) {
            Ok(found) => {
                translations.push(TranslationCurve { target: found.0, curve: found.1 });
            },
            Err(e) => {
                assert(translation_fails(*skeleton, *key_frames, i as int, e@));
                return Err(e);
            },
        }
        i = i + 1;
    }
    let mut rotations: Vec<RotationCurve> = Vec::new();
    let mut j: usize = 0;
    while j < key_frames.joint_rotations.entries.len()
        invariant
            j <= key_frames.joint_rotations.entries@.len(),
            rotations@.len() == j,
            translations_fit(
                *skeleton,
                *key_frames,
                key_frames.joint_translations.entries@.len() as int,
            ),
            rotations_fit(*skeleton, *key_frames, j as int),
            forall|k: int|
                0 <= k < j ==> is_rotation_curve(
                    *skeleton,
                    *key_frames,
                    frame_duration as nat,
                    k,
                    #[trigger] rotations@[k],
                ),
        decreases key_frames.joint_rotations.entries@.len() - j,
    {
        let entry = &key_frames.joint_rotations.entries[j];
        match target_curve(skeleton, &entry.0, &entry.1.angles, frame_duration) {
            Ok(found) => {
                rotations.push(
                    RotationCurve { target: found.0, order: entry.1.order, curve: found.1 },
                );
            },
            Err(e) => {
                assert(rotation_fails(*skeleton, *key_frames, j as int, e@));
                return Err(e);
            },
        }
        j = j + 1;
    }
    Ok(AnimationClip { translations, rotations })
}

/// The clip of a capture and its key frames.
///
/// The curves are addressed by the paths of the skeleton of the capture. It
/// is an error if the capture has no skeleton, if a joint of the key frames
/// is not in the skeleton, or if a joint has fewer than two samples.
pub fn bvh_to_clip(bvh: &Bvh, key_frames: &KeyFrames) -> (r: Result<
    AnimationClip,
    BvhAssetLoaderError,
>)
    ensures
        !unfolds(bvh.joints@, 0, bvh.joints@.len()) ==> r is Err && r->Err_0@
            == BvhAssetLoaderErrorView::StructureError,
        unfolds(bvh.joints@, 0, bvh.joints@.len()) ==> exists|skeleton: JointHierarchy|
            #[trigger] skeleton.matches(bvh.joints@, 0) && clip_outcome(
                skeleton,
                *key_frames,
                bvh.frame_time as nat,
                r,
            ),
{
    let skeleton = match JointHierarchy::try_from(bvh) {
        Ok(skeleton) => skeleton,
        Err(e) => {
            return Err(e);
        },
    };
    clip_from_key_frames(&skeleton, key_frames, bvh.frame_time)
}

} // verus!
