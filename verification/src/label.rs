//! The parts of a loaded capture, and the labels by which they are asked for.
use vstd::prelude::*;

verus! {

/// A part of a loaded capture.
#[derive(Clone, Copy, Debug, PartialEq, Eq, Structural)]
pub enum BvhAssetLabel {
    Skeleton,
    KeyFrames,
    Clip,
    Scene,
}

impl BvhAssetLabel {
    /// The label of the part, as it stands in an asset path.
    pub open spec fn spec_label(self) -> Seq<char> {
        match self {
            BvhAssetLabel::Clip => "clip"@,
            BvhAssetLabel::Scene => "scene"@,
            BvhAssetLabel::Skeleton => "skeleton"@,
            BvhAssetLabel::KeyFrames => "key_frames"@,
        }
    }

    /// The label of the part, as it stands in an asset path.
    pub fn label(&self) -> (s: &'static str)
        ensures
            s@ == self.spec_label(),
    {
        match self {
            BvhAssetLabel::Clip => "clip",
            BvhAssetLabel::Scene => "scene",
            BvhAssetLabel::Skeleton => "skeleton",
            BvhAssetLabel::KeyFrames => "key_frames",
        }
    }

    /// The part that a label asks for, if it is the label of one.
    pub fn from_label(label: &str) -> (r: Option<BvhAssetLabel>)
        ensures
            match r {
                Some(part) => label@ == part.spec_label(),
                None => forall|part: BvhAssetLabel| label@ != part.spec_label(),
            },
    {
        let wanted = label.to_owned();
        proof {
            reveal_strlit("clip");
            reveal_strlit("scene");
            reveal_strlit("skeleton");
            reveal_strlit("key_frames");
        }
        if wanted == BvhAssetLabel::Clip.label().to_owned() {
            Some(BvhAssetLabel::Clip)
        } else if wanted == BvhAssetLabel::Scene.label().to_owned() {
            Some(BvhAssetLabel::Scene)
        } else if wanted == BvhAssetLabel::Skeleton.label().to_owned() {
            Some(BvhAssetLabel::Skeleton)
        } else if wanted == BvhAssetLabel::KeyFrames.label().to_owned() {
            Some(BvhAssetLabel::KeyFrames)
        } else {
            assert forall|part: BvhAssetLabel| label@ != part.spec_label() by {
                match part {
                    BvhAssetLabel::Clip => {},
                    BvhAssetLabel::Scene => {},
                    BvhAssetLabel::Skeleton => {},
                    BvhAssetLabel::KeyFrames => {},
                }
            }
            None
        }
    }
}

} // verus!
