//! Key frames: the samples of every joint of a capture, gathered channel by
//! channel, with the order of its rotation channels.
//!
//! A rotation is kept as the three angles that the channels give, in
//! degrees, together with the order of the channels.
use crate::bvh::{Bvh, Channel, ChannelType, JointRecord};
use crate::error::{BvhAssetLoaderError, BvhAssetLoaderErrorView};
use crate::math::Vec3;
use crate::name_map::NameMap;
use vstd::prelude::*;

verus! {

/// The order in which the rotation channels of a joint are given.
#[derive(Clone, Copy, Debug, PartialEq, Eq, Structural)]
pub enum RotationOrder {
    XYZ,
    ZXY,
}

impl RotationOrder {
    /// The rotation channels in this order.
    pub open spec fn kinds(self) -> Seq<ChannelType> {
        match self {
            RotationOrder::XYZ => seq![
                ChannelType::RotationX,
                ChannelType::RotationY,
                ChannelType::RotationZ,
            ],
            RotationOrder::ZXY => seq![
                ChannelType::RotationZ,
                ChannelType::RotationX,
                ChannelType::RotationY,
            ],
        }
    }
}

/// The kinds of the rotation channels among `channels`, in their order.
pub open spec fn rotation_kinds(channels: Seq<Channel>) -> Seq<ChannelType>
    decreases channels.len(),
{
    if channels.len() == 0 {
        Seq::empty()
    } else if channels.last().channel_type.is_rotation() {
        rotation_kinds(channels.drop_last()).push(channels.last().channel_type)
    } else {
        rotation_kinds(channels.drop_last())
    }
}

/// The order of the rotation channels of a joint.
///
/// It is an error, which carries the rotation channels as they were found,
/// unless they are X, Y, Z or Z, X, Y.
pub fn rotation_order(channels: &Vec<Channel>) -> (r: Result<RotationOrder, BvhAssetLoaderError>)
    ensures
        match r {
            Ok(order) => rotation_kinds(channels@) == order.kinds(),
            Err(e) => e@ == BvhAssetLoaderErrorView::UnsupportedRotationOrder(
                rotation_kinds(channels@),
            ) && rotation_kinds(channels@) != RotationOrder::XYZ.kinds() && rotation_kinds(
                channels@,
            ) != RotationOrder::ZXY.kinds(),
        },
{
    let mut observed: Vec<ChannelType> = Vec::new();
    let mut i: usize = 0;
    while i < channels.len()
        invariant
            i <= channels@.len(),
            observed@ == rotation_kinds(channels@.take(i as int)),
        decreases channels@.len() - i,
    {
        let kind = channels[i].channel_type;
        assert(channels@.take(i + 1).drop_last() =~= channels@.take(i as int));
        if kind.is_rotation() {
            observed.push(kind);
        }
        i = i + 1;
    }
    assert(channels@.take(i as int) =~= channels@);
    if observed.len() == 3 {
        let a = observed[0];
        let b = observed[1];
        let c = observed[2];
        if a == ChannelType::RotationX && b == ChannelType::RotationY && c
            == ChannelType::RotationZ {
            assert(observed@ =~= RotationOrder::XYZ.kinds());
            return Ok(RotationOrder::XYZ);
        }
        if a == ChannelType::RotationZ && b == ChannelType::RotationX && c
            == ChannelType::RotationY {
            assert(observed@ =~= RotationOrder::ZXY.kinds());
            return Ok(RotationOrder::ZXY);
        }
        assert(observed@ != RotationOrder::XYZ.kinds()) by {
            if observed@ == RotationOrder::XYZ.kinds() {
                assert(observed@[0] == RotationOrder::XYZ.kinds()[0]);
                assert(observed@[1] == RotationOrder::XYZ.kinds()[1]);
                assert(observed@[2] == RotationOrder::XYZ.kinds()[2]);
            }
        }
        assert(observed@ != RotationOrder::ZXY.kinds()) by {
            if observed@ == RotationOrder::ZXY.kinds() {
                assert(observed@[0] == RotationOrder::ZXY.kinds()[0]);
                assert(observed@[1] == RotationOrder::ZXY.kinds()[1]);
                assert(observed@[2] == RotationOrder::ZXY.kinds()[2]);
            }
        }
    } else {
        assert(RotationOrder::XYZ.kinds().len() == 3);
        assert(RotationOrder::ZXY.kinds().len() == 3);
    }
    Err(BvhAssetLoaderError::UnsupportedRotationOrder(observed))
}

/// The samples of one joint: for every kind of channel one value for each
/// frame. A kind that the joint does not have has no samples.
#[derive(Clone, Debug, PartialEq, Eq)]
pub struct ChannelSampleSet {
    pub position_x: Vec<u32>,
    pub position_y: Vec<u32>,
    pub position_z: Vec<u32>,
    pub rotation_x: Vec<u32>,
    pub rotation_y: Vec<u32>,
    pub rotation_z: Vec<u32>,
}

impl ChannelSampleSet {
    /// The samples of a kind of channel.
    pub open spec fn samples(self, kind: ChannelType) -> Seq<u32> {
        match kind {
            ChannelType::PositionX => self.position_x@,
            ChannelType::PositionY => self.position_y@,
            ChannelType::PositionZ => self.position_z@,
            ChannelType::RotationX => self.rotation_x@,
            ChannelType::RotationY => self.rotation_y@,
            ChannelType::RotationZ => self.rotation_z@,
        }
    }

    /// The set without any sample.
    pub fn new() -> (set: ChannelSampleSet)
        ensures
            forall|kind: ChannelType| set.samples(kind) == Seq::<u32>::empty(),
    {
        ChannelSampleSet {
            position_x: Vec::new(),
            position_y: Vec::new(),
            position_z: Vec::new(),
            rotation_x: Vec::new(),
            rotation_y: Vec::new(),
            rotation_z: Vec::new(),
        }
    }

    /// Replaces the samples of a kind of channel.
    pub fn set(&mut self, kind: ChannelType, values: Vec<u32>)
        ensures
            forall|k: ChannelType|
                final(self).samples(k) == (if k == kind {
                    values@
                } else {
                    old(self).samples(k)
                }),
    {
        match kind {
            ChannelType::PositionX => {
                self.position_x = values;
            },
            ChannelType::PositionY => {
                self.position_y = values;
            },
            ChannelType::PositionZ => {
                self.position_z = values;
            },
            ChannelType::RotationX => {
                self.rotation_x = values;
            },
            ChannelType::RotationY => {
                self.rotation_y = values;
            },
            ChannelType::RotationZ => {
                self.rotation_z = values;
            },
        }
    }
}

/// Whether every frame has a value at `motion_index`.
pub open spec fn has_samples(frames: Seq<Vec<u32>>, motion_index: int) -> bool {
    forall|f: int| 0 <= f < frames.len() ==> motion_index < (#[trigger] frames[f])@.len()
}

/// The values at `motion_index`, frame by frame.
pub open spec fn channel_samples(frames: Seq<Vec<u32>>, motion_index: int) -> Seq<u32> {
    Seq::new(frames.len(), |f: int| frames[f]@[motion_index])
}

/// The samples that the channels of a joint give for a kind of channel:
/// those of the last channel of that kind, and none if there is no such
/// channel.
pub open spec fn joint_samples(frames: Seq<Vec<u32>>, channels: Seq<Channel>, kind: ChannelType) -> Seq<
    u32,
>
    decreases channels.len(),
{
    if channels.len() == 0 {
        Seq::empty()
    } else if channels.last().channel_type == kind {
        channel_samples(frames, channels.last().motion_index as int)
    } else {
        joint_samples(frames, channels.drop_last(), kind)
    }
}

/// Whether every channel has a value in every frame.
pub open spec fn channels_have_samples(frames: Seq<Vec<u32>>, channels: Seq<Channel>) -> bool {
    forall|c: int|
        0 <= c < channels.len() ==> has_samples(frames, (#[trigger] channels[c]).motion_index as int)
}

/// The value of a channel in every frame.
///
/// It is an error if a frame has no value for the channel.
pub fn sample_channel(frames: &Vec<Vec<u32>>, channel: &Channel) -> (r: Result<
    Vec<u32>,
    BvhAssetLoaderError,
>)
    ensures
        match r {
            Ok(values) => has_samples(frames@, channel.motion_index as int) && values@
                == channel_samples(frames@, channel.motion_index as int),
            Err(e) => e@ == BvhAssetLoaderErrorView::DataError && !has_samples(
                frames@,
                channel.motion_index as int,
            ),
        },
{
    let mut values: Vec<u32> = Vec::new();
    let mut f: usize = 0;
    while f < frames.len()
        invariant
            f <= frames@.len(),
            values@.len() == f,
            forall|g: int| 0 <= g < f ==> channel.motion_index < (#[trigger] frames@[g])@.len(),
            forall|g: int| 0 <= g < f ==> values@[g] == frames@[g]@[channel.motion_index as int],
        decreases frames@.len() - f,
    {
        let frame = &frames[f];
        if channel.motion_index >= frame.len() {
            return Err(BvhAssetLoaderError::DataError);
        }
        values.push(frame[channel.motion_index]);
        f = f + 1;
    }
    assert(values@ =~= channel_samples(frames@, channel.motion_index as int));
    Ok(values)
}

/// The samples of a joint with the given channels.
///
/// It is an error if a frame has no value for one of the channels.
pub fn sample_joint(frames: &Vec<Vec<u32>>, channels: &Vec<Channel>) -> (r: Result<
    ChannelSampleSet,
    BvhAssetLoaderError,
>)
    ensures
        match r {
            Ok(set) => channels_have_samples(frames@, channels@) && forall|kind: ChannelType|
                set.samples(kind) == joint_samples(frames@, channels@, kind),
            Err(e) => e@ == BvhAssetLoaderErrorView::DataError && !channels_have_samples(
                frames@,
                channels@,
            ),
        },
{
    let mut set = ChannelSampleSet::new();
    let mut c: usize = 0;
    while c < channels.len()
        invariant
            c <= channels@.len(),
            channels_have_samples(frames@, channels@.take(c as int)),
            forall|kind: ChannelType|
                set.samples(kind) == joint_samples(frames@, channels@.take(c as int), kind),
        decreases channels@.len() - c,
    {
        let channel = channels[c];
        assert(channels@.take(c + 1).drop_last() =~= channels@.take(c as int));
        assert(channels@.take(c + 1).last() == channel);
        match sample_channel(frames, &channel) {
            Ok(values) => {
                set.set(channel.channel_type, values);
            },
            Err(e) => {
                return Err(e);
            },
        }
        assert forall|k: int| 0 <= k < c + 1 implies has_samples(
            frames@,
            (#[trigger] channels@.take(c + 1)[k]).motion_index as int,
        ) by {
            if k < c {
                assert(channels@.take(c as int)[k] == channels@[k]);
            }
        }
        c = c + 1;
    }
    assert(channels@.take(c as int) =~= channels@);
    Ok(set)
}

/// The vectors whose components are given one by one.
pub open spec fn zip3(xs: Seq<u32>, ys: Seq<u32>, zs: Seq<u32>) -> Seq<Vec3> {
    Seq::new(xs.len(), |f: int| Vec3 { x: xs[f], y: ys[f], z: zs[f] })
}

fn zip_samples(xs: &Vec<u32>, ys: &Vec<u32>, zs: &Vec<u32>) -> (out: Vec<Vec3>)
    requires
        xs@.len() == ys@.len(),
        xs@.len() == zs@.len(),
    ensures
        out@ == zip3(xs@, ys@, zs@),
{
    let mut out: Vec<Vec3> = Vec::new();
    let mut f: usize = 0;
    while f < xs.len()
        invariant
            f <= xs@.len(),
            xs@.len() == ys@.len(),
            xs@.len() == zs@.len(),
            out@.len() == f,
            forall|g: int| 0 <= g < f ==> out@[g] == (Vec3 { x: xs@[g], y: ys@[g], z: zs@[g] }),
        decreases xs@.len() - f,
    {
        out.push(Vec3::new(xs[f], ys[f], zs[f]));
        f = f + 1;
    }
    assert(out@ =~= zip3(xs@, ys@, zs@));
    out
}

/// Whether three runs of samples have the same length.
pub open spec fn same_length(xs: Seq<u32>, ys: Seq<u32>, zs: Seq<u32>) -> bool {
    xs.len() == ys.len() && xs.len() == zs.len()
}

/// The translations of a joint, frame by frame, if it has any.
///
/// It is an error if the three position channels do not have the same
/// number of samples.
pub fn extract_joint_positions(channel_frame_data: &ChannelSampleSet) -> (r: Result<
    Option<Vec<Vec3>>,
    BvhAssetLoaderError,
>)
    ensures
        match r {
            Ok(Some(positions)) => same_length(
                channel_frame_data.position_x@,
                channel_frame_data.position_y@,
                channel_frame_data.position_z@,
            ) && channel_frame_data.position_x@.len() > 0 && positions@ == zip3(
                channel_frame_data.position_x@,
                channel_frame_data.position_y@,
                channel_frame_data.position_z@,
            ),
            Ok(None) => same_length(
                channel_frame_data.position_x@,
                channel_frame_data.position_y@,
                channel_frame_data.position_z@,
            ) && channel_frame_data.position_x@.len() == 0,
            Err(e) => e@ == BvhAssetLoaderErrorView::DataError && !same_length(
                channel_frame_data.position_x@,
                channel_frame_data.position_y@,
                channel_frame_data.position_z@,
            ),
        },
{
    let xs = &channel_frame_data.position_x;
    let ys = &channel_frame_data.position_y;
    let zs = &channel_frame_data.position_z;
    if xs.len() != ys.len() || xs.len() != zs.len() {
        return Err(BvhAssetLoaderError::DataError);
    }
    if xs.len() == 0 {
        return Ok(None);
    }
    Ok(Some(zip_samples(xs, ys, zs)))
}

/// The rotations of a joint: the order of its rotation channels, and the
/// angles about X, Y and Z in degrees, frame by frame.
#[derive(Clone, Debug, PartialEq, Eq)]
pub struct JointRotations {
    pub order: RotationOrder,
    pub angles: Vec<Vec3>,
}

/// The rotations of a joint, frame by frame.
///
/// It is an error if the three rotation channels do not have the same
/// number of samples, or have none.
pub fn extract_joint_rotations(
    channel_frame_data: &ChannelSampleSet,
    rotation_order: RotationOrder,
) -> (r: Result<JointRotations, BvhAssetLoaderError>)
    ensures
        match r {
            Ok(rotations) => same_length(
                channel_frame_data.rotation_x@,
                channel_frame_data.rotation_y@,
                channel_frame_data.rotation_z@,
            ) && channel_frame_data.rotation_x@.len() > 0 && rotations.order == rotation_order
                && rotations.angles@ == zip3(
                channel_frame_data.rotation_x@,
                channel_frame_data.rotation_y@,
                channel_frame_data.rotation_z@,
            ),
            Err(e) => e@ == BvhAssetLoaderErrorView::DataError && !(same_length(
                channel_frame_data.rotation_x@,
                channel_frame_data.rotation_y@,
                channel_frame_data.rotation_z@,
            ) && channel_frame_data.rotation_x@.len() > 0),
        },
{
    let xs = &channel_frame_data.rotation_x;
    let ys = &channel_frame_data.rotation_y;
    let zs = &channel_frame_data.rotation_z;
    if xs.len() != ys.len() || xs.len() != zs.len() {
        return Err(BvhAssetLoaderError::DataError);
    }
    if xs.len() == 0 {
        return Err(BvhAssetLoaderError::DataError);
    }
    Ok(JointRotations { order: rotation_order, angles: zip_samples(xs, ys, zs) })
}

/// The key frames of one joint.
#[derive(Clone, Debug, PartialEq, Eq)]
pub struct JointKeyFrames {
    /// The translations, if the joint has position channels.
    pub translations: Option<Vec<Vec3>>,
    pub rotations: JointRotations,
}

/// The key frames of one joint, as sequences.
pub struct JointKeyFramesView {
    pub translations: Option<Seq<Vec3>>,
    pub order: RotationOrder,
    pub angles: Seq<Vec3>,
}

impl View for JointKeyFrames {
    type V = JointKeyFramesView;

    open spec fn view(&self) -> JointKeyFramesView {
        JointKeyFramesView {
            translations: match self.translations {
                Some(t) => Some(t@),
                None => None,
            },
            order: self.rotations.order,
            angles: self.rotations.angles@,
        }
    }
}

/// The order that a run of rotation channels spells, if it is one.
pub open spec fn matched_order(kinds: Seq<ChannelType>) -> Option<RotationOrder> {
    if kinds == RotationOrder::XYZ.kinds() {
        Some(RotationOrder::XYZ)
    } else if kinds == RotationOrder::ZXY.kinds() {
        Some(RotationOrder::ZXY)
    } else {
        None
    }
}

/// What the channels of a joint give over the frames of a capture: its key
/// frames, or the first thing that is wrong with them.
pub open spec fn joint_outcome(frames: Seq<Vec<u32>>, channels: Seq<Channel>) -> Result<
    JointKeyFramesView,
    BvhAssetLoaderErrorView,
> {
    let px = joint_samples(frames, channels, ChannelType::PositionX);
    let py = joint_samples(frames, channels, ChannelType::PositionY);
    let pz = joint_samples(frames, channels, ChannelType::PositionZ);
    let rx = joint_samples(frames, channels, ChannelType::RotationX);
    let ry = joint_samples(frames, channels, ChannelType::RotationY);
    let rz = joint_samples(frames, channels, ChannelType::RotationZ);
    if !channels_have_samples(frames, channels) {
        Err(BvhAssetLoaderErrorView::DataError)
    } else {
        match matched_order(rotation_kinds(channels)) {
            None => Err(
                BvhAssetLoaderErrorView::UnsupportedRotationOrder(rotation_kinds(channels)),
            ),
            Some(order) => if !same_length(px, py, pz) {
                Err(BvhAssetLoaderErrorView::DataError)
            } else if !(same_length(rx, ry, rz) && rx.len() > 0) {
                Err(BvhAssetLoaderErrorView::DataError)
            } else {
                Ok(
                    JointKeyFramesView {
                        translations: if px.len() == 0 {
                            None
                        } else {
                            Some(zip3(px, py, pz))
                        },
                        order,
                        angles: zip3(rx, ry, rz),
                    },
                )
            },
        }
    }
}

/// The key frames of a joint with the given channels.
pub fn joint_key_frames(frames: &Vec<Vec<u32>>, channels: &Vec<Channel>) -> (r: Result<
    JointKeyFrames,
    BvhAssetLoaderError,
>)
    ensures
        match r {
            Ok(k) => joint_outcome(frames@, channels@) == Ok::<
                JointKeyFramesView,
                BvhAssetLoaderErrorView,
            >(k@),
            Err(e) => joint_outcome(frames@, channels@) == Err::<
                JointKeyFramesView,
                BvhAssetLoaderErrorView,
            >(e@),
        },
{
    let set = match sample_joint(frames, channels) {
        Ok(set) => set,
        Err(e) => {
            return Err(e);
        },
    };
    proof {
        assert(set.samples(ChannelType::PositionX) == set.position_x@);
        assert(set.samples(ChannelType::PositionY) == set.position_y@);
        assert(set.samples(ChannelType::PositionZ) == set.position_z@);
        assert(set.samples(ChannelType::RotationX) == set.rotation_x@);
        assert(set.samples(ChannelType::RotationY) == set.rotation_y@);
        assert(set.samples(ChannelType::RotationZ) == set.rotation_z@);
    }
    let order = match rotation_order(channels) {
        Ok(order) => order,
        Err(e) => {
            return Err(e);
        },
    };
    assert(matched_order(rotation_kinds(channels@)) == Some(order)) by {
        if order == RotationOrder::ZXY && rotation_kinds(channels@) == RotationOrder::XYZ.kinds() {
            assert(RotationOrder::XYZ.kinds()[0] == RotationOrder::ZXY.kinds()[0]);
        }
    }
    let translations = match extract_joint_positions(&set) {
        Ok(translations) => translations,
        Err(e) => {
            return Err(e);
        },
    };
    let rotations = match extract_joint_rotations(&set, order) {
        Ok(rotations) => rotations,
        Err(e) => {
            return Err(e);
        },
    };
    Ok(JointKeyFrames { translations, rotations })
}

/// The key frames of a capture: for every joint, by its name, the
/// translations (if it has any) and the rotations.
#[derive(Clone, Debug, PartialEq, Eq)]
pub struct KeyFrames {
    /// The time for which a frame is shown, in nanoseconds.
    pub frame_time: u64,
    /// The number of frames.
    pub count: usize,
    pub joint_translations: NameMap<Vec<Vec3>>,
    pub joint_rotations: NameMap<JointRotations>,
}

impl KeyFrames {
    /// Whether no joint name occurs twice in either map.
    pub open spec fn well_formed(self) -> bool {
        self.joint_translations.well_formed() && self.joint_rotations.well_formed()
    }

    /// The translations, by joint name.
    pub open spec fn translations(self) -> Map<Seq<char>, Seq<Vec3>> {
        self.joint_translations@.map_values(|t: Vec<Vec3>| t@)
    }

    /// The order of the rotation channels and the angles, by joint name.
    pub open spec fn rotations(self) -> Map<Seq<char>, (RotationOrder, Seq<Vec3>)> {
        self.joint_rotations@.map_values(|r: JointRotations| (r.order, r.angles@))
    }

    /// The key frames of a capture.
    pub fn try_from(bvh: &Bvh) -> (r: Result<KeyFrames, BvhAssetLoaderError>)
        ensures
            converts(*bvh, r),
    {
        bvh_to_key_frames(bvh)
    }
}

/// Whether every joint has key frames over the given frames.
pub open spec fn joints_convert(frames: Seq<Vec<u32>>, joints: Seq<JointRecord>) -> bool {
    forall|j: int|
        0 <= j < joints.len() ==> joint_outcome(frames, (#[trigger] joints[j]).channels@) is Ok
}

/// Whether joint `j` is the first without key frames, for the reason `e`.
pub open spec fn first_failure(
    frames: Seq<Vec<u32>>,
    joints: Seq<JointRecord>,
    j: int,
    e: BvhAssetLoaderErrorView,
) -> bool {
    &&& 0 <= j < joints.len()
    &&& joints_convert(frames, joints.take(j))
    &&& joint_outcome(frames, joints[j].channels@) == Err::<
        JointKeyFramesView,
        BvhAssetLoaderErrorView,
    >(e)
}

/// The translations of the joints that have any, by name. Of two joints
/// with one name the later one counts.
pub open spec fn translations_of(frames: Seq<Vec<u32>>, joints: Seq<JointRecord>) -> Map<
    Seq<char>,
    Seq<Vec3>,
>
    decreases joints.len(),
{
    if joints.len() == 0 {
        Map::empty()
    } else {
        let rest = translations_of(frames, joints.drop_last());
        match joint_outcome(frames, joints.last().channels@) {
            Ok(k) => match k.translations {
                Some(t) => rest.insert(joints.last().name@, t),
                None => rest,
            },
            Err(_) => rest,
        }
    }
}

/// The rotations of the joints, by name. Of two joints with one name the
/// later one counts.
pub open spec fn rotations_of(frames: Seq<Vec<u32>>, joints: Seq<JointRecord>) -> Map<
    Seq<char>,
    (RotationOrder, Seq<Vec3>),
>
    decreases joints.len(),
{
    if joints.len() == 0 {
        Map::empty()
    } else {
        let rest = rotations_of(frames, joints.drop_last());
        match joint_outcome(frames, joints.last().channels@) {
            Ok(k) => rest.insert(joints.last().name@, (k.order, k.angles)),
            Err(_) => rest,
        }
    }
}

/// The names of the joints that have translations, each where it comes
/// first among the joints.
pub open spec fn translation_names_of(frames: Seq<Vec<u32>>, joints: Seq<JointRecord>) -> Seq<
    Seq<char>,
>
    decreases joints.len(),
{
    if joints.len() == 0 {
        Seq::empty()
    } else {
        let rest = translation_names_of(frames, joints.drop_last());
        match joint_outcome(frames, joints.last().channels@) {
            Ok(k) => if k.translations is Some && !rest.contains(joints.last().name@) {
                rest.push(joints.last().name@)
            } else {
                rest
            },
            Err(_) => rest,
        }
    }
}

/// The names of the joints that have rotations, each where it comes first
/// among the joints.
pub open spec fn rotation_names_of(frames: Seq<Vec<u32>>, joints: Seq<JointRecord>) -> Seq<
    Seq<char>,
>
    decreases joints.len(),
{
    if joints.len() == 0 {
        Seq::empty()
    } else {
        let rest = rotation_names_of(frames, joints.drop_last());
        match joint_outcome(frames, joints.last().channels@) {
            Ok(k) => if !rest.contains(joints.last().name@) {
                rest.push(joints.last().name@)
            } else {
                rest
            },
            Err(_) => rest,
        }
    }
}

/// Whether `r` is what the conversion of a capture to key frames gives:
/// the key frames of all joints, or the error of the first joint that has
/// none.
pub open spec fn converts(bvh: Bvh, r: Result<KeyFrames, BvhAssetLoaderError>) -> bool {
    match r {
        Ok(key_frames) => {
            &&& joints_convert(bvh.frames@, bvh.joints@)
            &&& key_frames.well_formed()
            &&& key_frames.frame_time == bvh.frame_time
            &&& key_frames.count == bvh.frames@.len()
            &&& key_frames.translations() == translations_of(bvh.frames@, bvh.joints@)
            &&& key_frames.rotations() == rotations_of(bvh.frames@, bvh.joints@)
            &&& key_frames.joint_translations.names() == translation_names_of(
                bvh.frames@,
                bvh.joints@,
            )
            &&& key_frames.joint_rotations.names() == rotation_names_of(bvh.frames@, bvh.joints@)
        },
        Err(e) => exists|j: int| first_failure(bvh.frames@, bvh.joints@, j, e@),
    }
}

/// The key frames of a capture.
///
/// The joints are taken in their order. It is an error if a frame lacks a
/// value for a channel of a joint, if the rotation channels of a joint are
/// not in a known order, or if its channels do not have one sample each for
/// every frame; the error is that of the first such joint.
pub fn bvh_to_key_frames(bvh: &Bvh) -> (r: Result<KeyFrames, BvhAssetLoaderError>)
    ensures
        converts(*bvh, r),
{
    let mut joint_translations: NameMap<Vec<Vec3>> = NameMap::new();
    let mut joint_rotations: NameMap<JointRotations> = NameMap::new();
    let ghost frames = bvh.frames@;
    let ghost joints = bvh.joints@;
    let mut j: usize = 0;
    assert(joint_translations.names() =~= translation_names_of(frames, joints.take(0)));
    assert(joint_rotations.names() =~= rotation_names_of(frames, joints.take(0)));
    assert(joint_translations@.map_values(|t: Vec<Vec3>| t@) =~= translations_of(
        frames,
        joints.take(0),
    ));
    assert(joint_rotations@.map_values(|r: JointRotations| (r.order, r.angles@)) =~= rotations_of(
        frames,
        joints.take(0),
    ));
    while j < bvh.joints.len()
        invariant
            frames == bvh.frames@,
            joints == bvh.joints@,
            j <= joints.len(),
            joints_convert(frames, joints.take(j as int)),
            joint_translations.well_formed(),
            joint_rotations.well_formed(),
            joint_translations@.map_values(|t: Vec<Vec3>| t@) == translations_of(
                frames,
                joints.take(j as int),
            ),
            joint_rotations@.map_values(|r: JointRotations| (r.order, r.angles@)) == rotations_of(
                frames,
                joints.take(j as int),
            ),
            joint_translations.names() == translation_names_of(frames, joints.take(j as int)),
            joint_rotations.names() == rotation_names_of(frames, joints.take(j as int)),
        decreases joints.len() - j,
    {
        let joint = &bvh.joints[j];
        let ghost translations_before = joint_translations@;
        let ghost rotations_before = joint_rotations@;
        proof {
            assert(joints.take(j + 1).drop_last() =~= joints.take(j as int));
            assert(joints.take(j + 1).last() == joints[j as int]);
        }
        match joint_key_frames(&bvh.frames, &joint.channels) {
            Ok(k) => {
                let ghost kv = k@;
                match k.translations {
                    Some(t) => {
                        joint_translations.insert(joint.name.clone(), t);
                        assert(translations_before.insert(joint.name@, t).map_values(
                            |t: Vec<Vec3>| t@,
                        ) =~= translations_before.map_values(|t: Vec<Vec3>| t@).insert(
                            joint.name@,
                            t@,
                        ));
                    },
                    None => {},
                }
                let rotations = k.rotations;
                joint_rotations.insert(joint.name.clone(), rotations);
                assert(rotations_before.insert(joint.name@, rotations).map_values(
                    |r: JointRotations| (r.order, r.angles@),
                ) =~= rotations_before.map_values(|r: JointRotations| (r.order, r.angles@)).insert(
                    joint.name@,
                    (rotations.order, rotations.angles@),
                ));
            },
            Err(e) => {
                assert(first_failure(frames, joints, j as int, e@));
                return Err(e);
            },
        }
        proof {
            assert forall|i: int| 0 <= i < j + 1 implies joint_outcome(
                frames,
                (#[trigger] joints.take(j + 1)[i]).channels@,
            ) is Ok by {
                if i < j {
                    assert(joints.take(j as int)[i] == joints[i]);
                }
            }
        }
        j = j + 1;
    }
    assert(joints.take(j as int) =~= joints);
    Ok(
        KeyFrames {
            frame_time: bvh.frame_time,
            count: bvh.frames.len(),
            joint_translations,
            joint_rotations,
        },
    )
}

} // verus!
