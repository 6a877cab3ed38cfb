use bevy_math::Quat as FloatQuat;
use bvh_gav::error::GavError;
use bvh_gav::gav::{bvh_to_gav, gav_to_animation, Animation, BvhData};
use bvh_gav::math::{Quat, Vec3};
use bvh_gav::tensor::GavTensor;

fn vec3(x: f32, y: f32, z: f32) -> Vec3 {
    Vec3::new(x.to_bits(), y.to_bits(), z.to_bits())
}

fn quat(q: FloatQuat) -> Quat {
    Quat::from_xyzw(q.x.to_bits(), q.y.to_bits(), q.z.to_bits(), q.w.to_bits())
}

fn unit(q: Quat) -> FloatQuat {
    FloatQuat::from_xyzw(
        f32::from_bits(q.x),
        f32::from_bits(q.y),
        f32::from_bits(q.z),
        f32::from_bits(q.w),
    )
    .normalize()
}

#[test]
fn tensor_from_matching_buffer() {
    let t = GavTensor::from_shape_vec((2, 1, 3), vec![1, 2, 3, 4, 5, 6]).unwrap();
    assert_eq!(t.dim(), (2, 1, 3));
    assert_eq!(t.get(0, 0, 0), Some(1));
    assert_eq!(t.get(1, 0, 2), Some(6));
    assert_eq!(t.get(2, 0, 0), None);
    assert_eq!(t.get(0, 1, 0), None);
    assert_eq!(t.get(0, 0, 3), None);
    assert_eq!(t.to_vec(), vec![1, 2, 3, 4, 5, 6]);
}

#[test]
fn tensor_is_row_major() {
    let data: Vec<u32> = (0..24).collect();
    let t = GavTensor::from_shape_vec((2, 4, 3), data.clone()).unwrap();
    assert_eq!(t.get(1, 2, 1), Some((1 * 4 + 2) * 3 + 1));
    assert_eq!(t.get(0, 3, 2), Some(11));
    assert_eq!(t.to_vec(), data);
}

#[test]
fn tensor_from_short_buffer_is_shape_mismatch() {
    let r = GavTensor::from_shape_vec((2, 1, 3), vec![1, 2, 3, 4, 5]);
    assert!(matches!(r, Err(GavError::ShapeMismatch)));
}

#[test]
fn tensor_from_long_buffer_is_shape_mismatch() {
    let r = GavTensor::from_shape_vec((2, 1, 3), vec![0; 7]);
    assert!(matches!(r, Err(GavError::ShapeMismatch)));
}

#[test]
fn tensor_beyond_size_limit_is_shape_mismatch() {
    let r = GavTensor::from_shape_vec((usize::MAX, 0, 3), Vec::new());
    assert!(matches!(r, Err(GavError::ShapeMismatch)));
}

#[test]
fn tensor_with_empty_axis() {
    let t = GavTensor::from_shape_vec((2, 0, 3), Vec::new()).unwrap();
    assert_eq!(t.dim(), (2, 0, 3));
    assert_eq!(t.to_vec(), Vec::<u32>::new());
}

#[test]
fn encode_lays_out_root_then_joints() {
    let data = BvhData {
        pose_local_positions: vec![vec![Vec3::new(1, 2, 3), Vec3::new(4, 5, 6)]],
        pose_local_rotations: vec![
            vec![Quat::from_xyzw(10, 11, 12, 13), Quat::from_xyzw(14, 15, 16, 17)],
            vec![Quat::from_xyzw(20, 21, 22, 23), Quat::from_xyzw(24, 25, 26, 27)],
        ],
    };
    let t = bvh_to_gav(&data, 2).unwrap();
    assert_eq!(t.dim(), (3, 2, 3));
    assert_eq!(
        t.to_vec(),
        vec![1, 2, 3, 4, 5, 6, 10, 11, 12, 14, 15, 16, 20, 21, 22, 24, 25, 26]
    );
}

#[test]
fn encode_with_wrong_frame_count_is_shape_mismatch() {
    let data = BvhData {
        pose_local_positions: vec![vec![Vec3::new(1, 2, 3), Vec3::new(4, 5, 6)]],
        pose_local_rotations: vec![vec![Quat::from_xyzw(0, 0, 0, 1), Quat::from_xyzw(0, 0, 0, 1)]],
    };
    assert!(matches!(bvh_to_gav(&data, 3), Err(GavError::ShapeMismatch)));
    assert!(matches!(bvh_to_gav(&data, 1), Err(GavError::ShapeMismatch)));
    assert!(bvh_to_gav(&data, 2).is_ok());
}

#[test]
fn encode_with_a_short_curve_is_shape_mismatch() {
    let data = BvhData {
        pose_local_positions: vec![vec![Vec3::new(1, 2, 3), Vec3::new(4, 5, 6)]],
        pose_local_rotations: vec![vec![Quat::from_xyzw(0, 0, 0, 1)]],
    };
    assert!(matches!(bvh_to_gav(&data, 2), Err(GavError::ShapeMismatch)));
}

#[test]
fn decode_reads_root_and_joints() {
    let t = GavTensor::from_shape_vec((2, 2, 3), vec![1, 2, 3, 4, 5, 6, 7, 8, 9, 10, 11, 12])
        .unwrap();
    let a = gav_to_animation(t).unwrap();
    assert_eq!(a.joint_count(), 1);
    assert_eq!(a.frame_count(), 2);
    assert_eq!(a.root_positions, vec![Vec3::new(1, 2, 3), Vec3::new(4, 5, 6)]);
    assert_eq!(
        a.joint_rotations,
        vec![vec![Quat::from_xyzw(7, 8, 9, 0), Quat::from_xyzw(10, 11, 12, 0)]]
    );
}

#[test]
fn decode_of_tensor_without_curves_is_empty_tensor_error() {
    let t = GavTensor::from_shape_vec((0, 4, 3), Vec::new()).unwrap();
    assert!(matches!(gav_to_animation(t), Err(GavError::EmptyTensorError)));
}

#[test]
fn decode_of_tensor_with_wide_samples_is_shape_mismatch() {
    let t = GavTensor::from_shape_vec((1, 1, 4), vec![1, 2, 3, 4]).unwrap();
    assert!(matches!(gav_to_animation(t), Err(GavError::ShapeMismatch)));
}

#[test]
fn decode_of_root_only_tensor_has_no_joints() {
    let t = GavTensor::from_shape_vec((1, 2, 3), vec![1, 2, 3, 4, 5, 6]).unwrap();
    let a = gav_to_animation(t).unwrap();
    assert_eq!(a.joint_count(), 0);
    assert_eq!(a.frame_count(), 2);
}

#[test]
fn animation_counts() {
    let a = Animation {
        root_positions: vec![Vec3::new(0, 0, 0); 5],
        joint_rotations: vec![vec![Quat::from_xyzw(0, 0, 0, 0); 5]; 3],
    };
    assert_eq!(a.joint_count(), 3);
    assert_eq!(a.frame_count(), 5);
}

#[test]
fn root_translations_round_trip_exactly() {
    let positions = vec![
        vec3(0.0, -0.0, 1.5),
        vec3(f32::MAX, f32::MIN_POSITIVE, -3.25e-7),
        vec3(f32::NAN, f32::INFINITY, f32::NEG_INFINITY),
        vec3(12.125, 99.0, -0.001),
    ];
    let identity = quat(FloatQuat::IDENTITY);
    let data = BvhData {
        pose_local_positions: vec![positions.clone()],
        pose_local_rotations: vec![vec![identity; 4], vec![identity; 4]],
    };
    let a = gav_to_animation(bvh_to_gav(&data, 4).unwrap()).unwrap();
    assert_eq!(a.root_positions, positions);
    assert_eq!(a.joint_count(), 2);
}

#[test]
fn decode_keeps_vector_part_and_clears_real_part() {
    let q = Quat::from_xyzw(7, 8, 9, 10);
    let data = BvhData {
        pose_local_positions: vec![vec![Vec3::new(1, 2, 3)]],
        pose_local_rotations: vec![vec![q]],
    };
    let a = gav_to_animation(bvh_to_gav(&data, 1).unwrap()).unwrap();
    assert_eq!(a.joint_rotations[0][0], Quat::pure(q.vector()));
    assert_eq!(a.joint_rotations[0][0], Quat::from_xyzw(7, 8, 9, 0));
}

#[test]
fn rotation_near_half_turn_round_trips_within_epsilon() {
    let given = FloatQuat::from_axis_angle(bevy_math::Vec3::new(0.6, 0.0, 0.8), 179.0f32.to_radians());
    let data = BvhData {
        pose_local_positions: vec![vec![vec3(0.0, 0.0, 0.0)]],
        pose_local_rotations: vec![vec![quat(given)]],
    };
    let a = gav_to_animation(bvh_to_gav(&data, 1).unwrap()).unwrap();
    let decoded = unit(a.joint_rotations[0][0]);
    assert!(decoded.abs_diff_eq(given, 0.01));
}

#[test]
fn rotation_near_identity_does_not_round_trip() {
    let given = FloatQuat::from_axis_angle(bevy_math::Vec3::new(0.6, 0.0, 0.8), 1.0f32.to_radians());
    let data = BvhData {
        pose_local_positions: vec![vec![vec3(0.0, 0.0, 0.0)]],
        pose_local_rotations: vec![vec![quat(given)]],
    };
    let a = gav_to_animation(bvh_to_gav(&data, 1).unwrap()).unwrap();
    let decoded = unit(a.joint_rotations[0][0]);
    assert!(!decoded.abs_diff_eq(given, 0.01));
    assert!(decoded.w.abs() < 1e-6);
    assert!(given.w > 0.99);
}

#[test]
fn root_only_skeleton_end_to_end() {
    let translations = vec![vec3(0.0, 0.0, 0.0), vec3(1.0, 0.0, 0.0), vec3(2.0, 0.0, 0.0)];
    let identity = quat(FloatQuat::from_xyzw(0.0, 0.0, 0.0, 1.0));
    let data = BvhData {
        pose_local_positions: vec![translations.clone()],
        pose_local_rotations: vec![vec![identity; 3]],
    };
    let t = bvh_to_gav(&data, 3).unwrap();
    assert_eq!(t.dim(), (2, 3, 3));
    let a = gav_to_animation(t).unwrap();
    assert_eq!(a.frame_count(), 3);
    assert_eq!(a.joint_count(), 1);
    assert_eq!(a.root_positions, translations);
    for stored in &a.joint_rotations[0] {
        assert_eq!(*stored, Quat::from_xyzw(0, 0, 0, 0));
        assert!(!unit(*stored).abs_diff_eq(FloatQuat::IDENTITY, 1e-3));
    }
}

#[test]
fn translations_alone_make_a_single_curve() {
    let translations = vec![vec3(0.0, 0.0, 0.0), vec3(1.0, 0.0, 0.0), vec3(2.0, 0.0, 0.0)];
    let data = BvhData {
        pose_local_positions: vec![translations.clone()],
        pose_local_rotations: Vec::new(),
    };
    let t = bvh_to_gav(&data, 3).unwrap();
    assert_eq!(t.dim(), (1, 3, 3));
    let a = gav_to_animation(t).unwrap();
    assert_eq!(a.root_positions, translations);
    assert_eq!(a.joint_count(), 0);
}
