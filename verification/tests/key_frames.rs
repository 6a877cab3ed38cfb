use bvh_gav::bvh::{Bvh, Channel, ChannelType, JointRecord};
use bvh_gav::error::BvhAssetLoaderError;
use bvh_gav::key_frames::{
    bvh_to_key_frames, extract_joint_positions, extract_joint_rotations, joint_key_frames,
    rotation_order, sample_channel, sample_joint, ChannelSampleSet, JointRotations, KeyFrames,
    RotationOrder,
};
use bvh_gav::math::Vec3;
use bvh_gav::name_map::NameMap;

use ChannelType::{PositionX, PositionY, PositionZ, RotationX, RotationY, RotationZ};

fn channels(kinds: &[ChannelType], first_index: usize) -> Vec<Channel> {
    kinds
        .iter()
        .enumerate()
        .map(|(i, k)| Channel { channel_type: *k, motion_index: first_index + i })
        .collect()
}

fn joint(name: &str, channels: Vec<Channel>) -> JointRecord {
    JointRecord {
        name: name.to_string(),
        offset: Vec3::new(0, 0, 0),
        end_site: None,
        channels,
        parent: None,
        children: Vec::new(),
    }
}

fn two_joint_capture() -> Bvh {
    Bvh {
        joints: vec![
            joint(
                "hips",
                channels(&[PositionX, PositionY, PositionZ, RotationZ, RotationX, RotationY], 0),
            ),
            joint("spine", channels(&[RotationX, RotationY, RotationZ], 6)),
        ],
        frames: vec![
            vec![1, 2, 3, 4, 5, 6, 7, 8, 9],
            vec![11, 12, 13, 14, 15, 16, 17, 18, 19],
        ],
        frame_time: 16_700_000,
    }
}

#[test]
fn rotation_order_xyz() {
    let c = channels(&[RotationX, RotationY, RotationZ], 0);
    assert_eq!(rotation_order(&c), Ok(RotationOrder::XYZ));
}

#[test]
fn rotation_order_zxy() {
    let c = channels(&[RotationZ, RotationX, RotationY], 0);
    assert_eq!(rotation_order(&c), Ok(RotationOrder::ZXY));
}

#[test]
fn rotation_order_skips_position_channels() {
    let c = channels(&[PositionX, RotationZ, PositionY, RotationX, PositionZ, RotationY], 0);
    assert_eq!(rotation_order(&c), Ok(RotationOrder::ZXY));
    let c = channels(&[RotationX, RotationY, RotationZ, PositionX, PositionY, PositionZ], 0);
    assert_eq!(rotation_order(&c), Ok(RotationOrder::XYZ));
}

#[test]
fn rotation_order_of_another_order_is_unsupported() {
    let c = channels(&[PositionX, RotationY, RotationX, RotationZ], 0);
    assert_eq!(
        rotation_order(&c),
        Err(BvhAssetLoaderError::UnsupportedRotationOrder(vec![RotationY, RotationX, RotationZ]))
    );
    let c = channels(&[RotationZ, RotationY, RotationX], 0);
    assert_eq!(
        rotation_order(&c),
        Err(BvhAssetLoaderError::UnsupportedRotationOrder(vec![RotationZ, RotationY, RotationX]))
    );
}

#[test]
fn rotation_order_of_partial_channels_is_unsupported() {
    let c = channels(&[RotationX, RotationY], 0);
    assert_eq!(
        rotation_order(&c),
        Err(BvhAssetLoaderError::UnsupportedRotationOrder(vec![RotationX, RotationY]))
    );
    let c = channels(&[PositionX, PositionY, PositionZ], 0);
    assert_eq!(rotation_order(&c), Err(BvhAssetLoaderError::UnsupportedRotationOrder(vec![])));
    assert_eq!(
        rotation_order(&Vec::new()),
        Err(BvhAssetLoaderError::UnsupportedRotationOrder(vec![]))
    );
}

#[test]
fn rotation_order_of_too_many_channels_is_unsupported() {
    let c = channels(&[RotationX, RotationY, RotationZ, RotationX], 0);
    assert_eq!(
        rotation_order(&c),
        Err(BvhAssetLoaderError::UnsupportedRotationOrder(vec![
            RotationX, RotationY, RotationZ, RotationX
        ]))
    );
}

#[test]
fn channel_kinds() {
    assert!(RotationX.is_rotation() && RotationY.is_rotation() && RotationZ.is_rotation());
    assert!(PositionX.is_position() && PositionY.is_position() && PositionZ.is_position());
    assert!(!PositionX.is_rotation());
    assert!(!RotationZ.is_position());
}

#[test]
fn sample_channel_takes_one_value_per_frame() {
    let frames = vec![vec![1, 2, 3], vec![4, 5, 6], vec![7, 8, 9]];
    let c = Channel { channel_type: RotationY, motion_index: 1 };
    assert_eq!(sample_channel(&frames, &c), Ok(vec![2, 5, 8]));
    assert_eq!(sample_channel(&Vec::new(), &c), Ok(vec![]));
}

#[test]
fn sample_channel_without_a_value_is_data_error() {
    let frames = vec![vec![1, 2, 3], vec![4, 5], vec![7, 8, 9]];
    let c = Channel { channel_type: RotationY, motion_index: 2 };
    assert_eq!(sample_channel(&frames, &c), Err(BvhAssetLoaderError::DataError));
}

#[test]
fn sample_joint_fills_the_declared_channels() {
    let frames = vec![vec![1, 2, 3, 4], vec![5, 6, 7, 8]];
    let c = channels(&[RotationZ, RotationX, RotationY], 1);
    let set = sample_joint(&frames, &c).unwrap();
    assert_eq!(set.rotation_z, vec![2, 6]);
    assert_eq!(set.rotation_x, vec![3, 7]);
    assert_eq!(set.rotation_y, vec![4, 8]);
    assert!(set.position_x.is_empty() && set.position_y.is_empty() && set.position_z.is_empty());
}

#[test]
fn sample_joint_takes_the_last_channel_of_a_kind() {
    let frames = vec![vec![1, 2], vec![3, 4]];
    let c = vec![
        Channel { channel_type: PositionX, motion_index: 0 },
        Channel { channel_type: PositionX, motion_index: 1 },
    ];
    let set = sample_joint(&frames, &c).unwrap();
    assert_eq!(set.position_x, vec![2, 4]);
}

#[test]
fn sample_joint_without_a_value_is_data_error() {
    let frames = vec![vec![1, 2, 3, 4], vec![5, 6, 7]];
    let c = channels(&[RotationZ, RotationX, RotationY], 1);
    assert_eq!(sample_joint(&frames, &c), Err(BvhAssetLoaderError::DataError));
}

#[test]
fn sample_set_replaces_one_kind() {
    let mut set = ChannelSampleSet::new();
    set.set(PositionY, vec![1, 2]);
    set.set(RotationZ, vec![3]);
    set.set(PositionY, vec![4]);
    assert_eq!(set.position_y, vec![4]);
    assert_eq!(set.rotation_z, vec![3]);
    assert!(set.position_x.is_empty());
}

#[test]
fn positions_are_zipped_frame_by_frame() {
    let mut set = ChannelSampleSet::new();
    set.set(PositionX, vec![1, 2]);
    set.set(PositionY, vec![3, 4]);
    set.set(PositionZ, vec![5, 6]);
    assert_eq!(
        extract_joint_positions(&set),
        Ok(Some(vec![Vec3::new(1, 3, 5), Vec3::new(2, 4, 6)]))
    );
}

#[test]
fn positions_of_a_joint_without_position_channels_are_absent() {
    let mut set = ChannelSampleSet::new();
    set.set(RotationX, vec![1, 2]);
    assert_eq!(extract_joint_positions(&set), Ok(None));
}

#[test]
fn positions_of_different_lengths_are_data_error() {
    let mut set = ChannelSampleSet::new();
    set.set(PositionX, vec![1, 2]);
    set.set(PositionY, vec![3, 4]);
    assert_eq!(extract_joint_positions(&set), Err(BvhAssetLoaderError::DataError));
}

#[test]
fn rotations_are_zipped_frame_by_frame() {
    let mut set = ChannelSampleSet::new();
    set.set(RotationZ, vec![5, 6]);
    set.set(RotationX, vec![1, 2]);
    set.set(RotationY, vec![3, 4]);
    assert_eq!(
        extract_joint_rotations(&set, RotationOrder::ZXY),
        Ok(JointRotations {
            order: RotationOrder::ZXY,
            angles: vec![Vec3::new(1, 3, 5), Vec3::new(2, 4, 6)],
        })
    );
}

#[test]
fn rotations_without_samples_are_data_error() {
    let set = ChannelSampleSet::new();
    assert_eq!(
        extract_joint_rotations(&set, RotationOrder::XYZ),
        Err(BvhAssetLoaderError::DataError)
    );
    let mut set = ChannelSampleSet::new();
    set.set(RotationX, vec![1]);
    set.set(RotationY, vec![1]);
    assert_eq!(
        extract_joint_rotations(&set, RotationOrder::XYZ),
        Err(BvhAssetLoaderError::DataError)
    );
}

#[test]
fn joint_key_frames_of_a_root() {
    let bvh = two_joint_capture();
    let k = joint_key_frames(&bvh.frames, &bvh.joints[0].channels).unwrap();
    assert_eq!(k.translations, Some(vec![Vec3::new(1, 2, 3), Vec3::new(11, 12, 13)]));
    assert_eq!(k.rotations.order, RotationOrder::ZXY);
    assert_eq!(k.rotations.angles, vec![Vec3::new(5, 6, 4), Vec3::new(15, 16, 14)]);
}

#[test]
fn joint_key_frames_report_data_error_before_rotation_order() {
    let frames = vec![vec![1, 2]];
    let c = channels(&[RotationY, RotationX, RotationZ], 0);
    assert_eq!(joint_key_frames(&frames, &c), Err(BvhAssetLoaderError::DataError));
    let frames = vec![vec![1, 2, 3]];
    assert_eq!(
        joint_key_frames(&frames, &c),
        Err(BvhAssetLoaderError::UnsupportedRotationOrder(vec![RotationY, RotationX, RotationZ]))
    );
}

#[test]
fn joint_key_frames_with_partial_positions_are_data_error() {
    let frames = vec![vec![1, 2, 3, 4, 5]];
    let c = channels(&[PositionX, PositionY, RotationX, RotationY, RotationZ], 0);
    assert_eq!(joint_key_frames(&frames, &c), Err(BvhAssetLoaderError::DataError));
}

#[test]
fn joint_key_frames_without_frames_are_data_error() {
    let c = channels(&[RotationX, RotationY, RotationZ], 0);
    assert_eq!(joint_key_frames(&Vec::new(), &c), Err(BvhAssetLoaderError::DataError));
}

#[test]
fn key_frames_of_a_capture() {
    let bvh = two_joint_capture();
    let kf = bvh_to_key_frames(&bvh).unwrap();
    assert_eq!(kf.frame_time, 16_700_000);
    assert_eq!(kf.count, 2);
    assert_eq!(kf.joint_translations.len(), 1);
    assert_eq!(kf.joint_rotations.len(), 2);
    assert_eq!(
        kf.joint_translations.get(&"hips".to_string()),
        Some(&vec![Vec3::new(1, 2, 3), Vec3::new(11, 12, 13)])
    );
    assert_eq!(kf.joint_translations.get(&"spine".to_string()), None);
    assert_eq!(
        kf.joint_rotations.get(&"hips".to_string()),
        Some(&JointRotations {
            order: RotationOrder::ZXY,
            angles: vec![Vec3::new(5, 6, 4), Vec3::new(15, 16, 14)],
        })
    );
    assert_eq!(
        kf.joint_rotations.get(&"spine".to_string()),
        Some(&JointRotations {
            order: RotationOrder::XYZ,
            angles: vec![Vec3::new(7, 8, 9), Vec3::new(17, 18, 19)],
        })
    );
}

#[test]
fn key_frames_do_not_carry_positions_over_to_the_next_joint() {
    let bvh = two_joint_capture();
    let kf = KeyFrames::try_from(&bvh).unwrap();
    assert!(kf.joint_translations.get(&"spine".to_string()).is_none());
}

#[test]
fn key_frames_of_joints_with_one_name_keep_the_later_joint() {
    let mut bvh = two_joint_capture();
    bvh.joints[1].name = "hips".to_string();
    let kf = bvh_to_key_frames(&bvh).unwrap();
    assert_eq!(kf.joint_rotations.len(), 1);
    assert_eq!(
        kf.joint_rotations.get(&"hips".to_string()).unwrap().angles,
        vec![Vec3::new(7, 8, 9), Vec3::new(17, 18, 19)]
    );
    assert_eq!(
        kf.joint_translations.get(&"hips".to_string()),
        Some(&vec![Vec3::new(1, 2, 3), Vec3::new(11, 12, 13)])
    );
}

#[test]
fn key_frames_fail_with_the_error_of_the_first_bad_joint() {
    let mut bvh = two_joint_capture();
    bvh.joints[1].channels = channels(&[RotationY, RotationZ, RotationX], 6);
    bvh.joints.push(joint("far", channels(&[RotationX, RotationY, RotationZ], 40)));
    assert_eq!(
        bvh_to_key_frames(&bvh).err(),
        Some(BvhAssetLoaderError::UnsupportedRotationOrder(vec![RotationY, RotationZ, RotationX]))
    );
    bvh.joints.swap(1, 2);
    assert_eq!(bvh_to_key_frames(&bvh).err(), Some(BvhAssetLoaderError::DataError));
}

#[test]
fn key_frames_of_a_capture_without_joints_are_empty() {
    let bvh = Bvh { joints: Vec::new(), frames: vec![vec![], vec![]], frame_time: 5 };
    let kf = bvh_to_key_frames(&bvh).unwrap();
    assert_eq!(kf.count, 2);
    assert_eq!(kf.frame_time, 5);
    assert_eq!(kf.joint_translations.len(), 0);
    assert_eq!(kf.joint_rotations.len(), 0);
}

#[test]
fn name_map_keeps_one_entry_per_name() {
    let mut m: NameMap<u32> = NameMap::new();
    assert_eq!(m.len(), 0);
    m.insert("a".to_string(), 1);
    m.insert("b".to_string(), 2);
    m.insert("a".to_string(), 3);
    assert_eq!(m.len(), 2);
    assert_eq!(m.get(&"a".to_string()), Some(&3));
    assert_eq!(m.get(&"b".to_string()), Some(&2));
    assert_eq!(m.get(&"c".to_string()), None);
    assert_eq!(m.position(&"a".to_string()), Some(0));
    assert_eq!(m.position(&"b".to_string()), Some(1));
    assert_eq!(m.position(&"c".to_string()), None);
    assert_eq!(m.entries, vec![("a".to_string(), 3), ("b".to_string(), 2)]);
}
