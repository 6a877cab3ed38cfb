//! What is made of a parsed capture when it is loaded: all of its parts, or
//! the one part that a label asks for.
use crate::bvh::Bvh;
use crate::clip::{bvh_to_clip, clip_outcome, AnimationClip};
use crate::error::{BvhAssetLoaderError, BvhAssetLoaderErrorView};
use crate::hierarchy::{unfolds, JointHierarchy};
use crate::key_frames::{bvh_to_key_frames, converts, KeyFrames};
use crate::label::BvhAssetLabel;
use vstd::prelude::*;

verus! {

/// The parts of a loaded capture. A part that was not asked for is absent.
#[derive(Debug, PartialEq, Eq)]
pub struct BvhParts {
    pub skeleton: Option<JointHierarchy>,
    pub key_frames: Option<KeyFrames>,
    pub clip: Option<AnimationClip>,
    /// The skeleton from which the scene is made.
    pub scene: Option<JointHierarchy>,
}

/// Whether a part is made for a label: every part where there is no label,
/// and else the part of the label.
pub open spec fn is_wanted(label: Option<BvhAssetLabel>, part: BvhAssetLabel) -> bool {
    label is None || label == Some(part)
}

/// Whether the key frames of the capture are made for a label: for
/// themselves, or for the clip.
pub open spec fn takes_key_frames(label: Option<BvhAssetLabel>) -> bool {
    is_wanted(label, BvhAssetLabel::KeyFrames) || is_wanted(label, BvhAssetLabel::Clip)
}

/// Whether the skeleton of the capture is made for a label: for itself,
/// for the clip, or for the scene.
pub open spec fn takes_skeleton(label: Option<BvhAssetLabel>) -> bool {
    is_wanted(label, BvhAssetLabel::Skeleton) || is_wanted(label, BvhAssetLabel::Clip) || is_wanted(
        label,
        BvhAssetLabel::Scene,
    )
}

/// Whether `parts` holds what a label asks of a capture, each part as its
/// own conversion gives it.
pub open spec fn is_loaded(bvh: Bvh, label: Option<BvhAssetLabel>, parts: BvhParts) -> bool {
    &&& parts.skeleton is Some <==> is_wanted(label, BvhAssetLabel::Skeleton)
    &&& parts.key_frames is Some <==> is_wanted(label, BvhAssetLabel::KeyFrames)
    &&& parts.clip is Some <==> is_wanted(label, BvhAssetLabel::Clip)
    &&& parts.scene is Some <==> is_wanted(label, BvhAssetLabel::Scene)
    &&& parts.skeleton is Some ==> parts.skeleton->Some_0.matches(bvh.joints@, 0)
    &&& parts.scene is Some ==> parts.scene->Some_0.matches(bvh.joints@, 0)
    &&& parts.key_frames is Some ==> converts(
        bvh,
        Ok::<KeyFrames, BvhAssetLoaderError>(parts.key_frames->Some_0),
    )
    &&& parts.clip is Some ==> exists|key_frames: KeyFrames, skeleton: JointHierarchy|
        #![trigger converts(bvh, Ok::<KeyFrames, BvhAssetLoaderError>(key_frames)), skeleton.matches(bvh.joints@, 0)]
        converts(bvh, Ok::<KeyFrames, BvhAssetLoaderError>(key_frames)) && skeleton.matches(
            bvh.joints@,
            0,
        ) && clip_outcome(
            skeleton,
            key_frames,
            bvh.frame_time as nat,
            Ok::<AnimationClip, BvhAssetLoaderError>(parts.clip->Some_0),
        )
}

/// Whether loading fails with `e`: the key frames are taken first, then
/// the skeleton, then the clip.
pub open spec fn load_fails(bvh: Bvh, label: Option<BvhAssetLabel>, e: BvhAssetLoaderError) -> bool {
    ||| takes_key_frames(label) && converts(bvh, Err::<KeyFrames, BvhAssetLoaderError>(e))
    ||| takes_skeleton(label) && !unfolds(bvh.joints@, 0, bvh.joints@.len()) && e@
        == BvhAssetLoaderErrorView::StructureError
    ||| is_wanted(label, BvhAssetLabel::Clip) && exists|
        key_frames: KeyFrames,
        skeleton: JointHierarchy,
    |
        #![trigger converts(bvh, Ok::<KeyFrames, BvhAssetLoaderError>(key_frames)), skeleton.matches(bvh.joints@, 0)]
        converts(bvh, Ok::<KeyFrames, BvhAssetLoaderError>(key_frames)) && skeleton.matches(
            bvh.joints@,
            0,
        ) && clip_outcome(
            skeleton,
            key_frames,
            bvh.frame_time as nat,
            Err::<AnimationClip, BvhAssetLoaderError>(e),
        )
}

/// The parts of a capture that a label asks for; without a label, all of
/// them.
///
/// It is an error if a part that is needed cannot be made.
pub fn load_parts(bvh: &Bvh, label: Option<BvhAssetLabel>) -> (r: Result<
    BvhParts,
    BvhAssetLoaderError,
>)
    ensures
        match r {
            Ok(parts) => is_loaded(*bvh, label, parts),
            Err(e) => load_fails(*bvh, label, e),
        },
{
    let wants_all = label.is_none();
    let wants_key_frames = wants_all || label == Some(BvhAssetLabel::KeyFrames);
    let wants_clip = wants_all || label == Some(BvhAssetLabel::Clip);
    let wants_skeleton = wants_all || label == Some(BvhAssetLabel::Skeleton);
    let wants_scene = wants_all || label == Some(BvhAssetLabel::Scene);
    let mut key_frames: Option<KeyFrames> = None;
    let mut clip: Option<AnimationClip> = None;
    if wants_key_frames || wants_clip {
        let made = match bvh_to_key_frames(bvh) {
            Ok(made) => made,
            Err(e) => {
                return Err(e);
            },
        };
        if wants_clip {
            match bvh_to_clip(bvh, &made) {
                Ok(c) => {
                    clip = Some(c);
                },
                Err(e) => {
                    return Err(e);
                },
            }
        }
        if wants_key_frames {
            key_frames = Some(made);
        }
    }
    let mut skeleton: Option<JointHierarchy> = None;
    if wants_skeleton {
        match JointHierarchy::try_from(bvh) {
            Ok(s) => {
                skeleton = Some(s);
            },
            Err(e) => {
                return Err(e);
            },
        }
    }
    let mut scene: Option<JointHierarchy> = None;
    if wants_scene {
        match JointHierarchy::try_from(bvh) {
            Ok(s) => {
                scene = Some(s);
            },
            Err(e) => {
                return Err(e);
            },
        }
    }
    Ok(BvhParts { skeleton, key_frames, clip, scene })
}

} // verus!
