use glam::{Mat4, Quat, Vec3};
use skelanim::clip::{collect_samples, Animation, ChannelSamples, ClipError, JointTransform, KeyFrame};

fn pose(name: &str, y: f32) -> JointTransform {
    JointTransform::new(name, &Vec3::new(0.0, y, 0.0), &Quat::IDENTITY)
}

#[test]
fn samples_group_by_time() {
    let samples = vec![
        (1.0f32.to_bits(), pose("a", 1.0)),
        (0.0f32.to_bits(), pose("a", 0.0)),
        (1.0f32.to_bits(), pose("b", 2.0)),
        (0.5f32.to_bits(), pose("a", 0.5)),
        (0.0f32.to_bits(), pose("b", 3.0)),
    ];
    let a = Animation::from_samples(&samples);
    let times: Vec<f32> = a.key_frames.iter().map(|k| f32::from_bits(k.time_stamp)).collect();
    assert_eq!(times, vec![0.0, 0.5, 1.0]);
    let names: Vec<Vec<&str>> = a
        .key_frames
        .iter()
        .map(|k| k.pose.iter().map(|p| p.joint_name.as_str()).collect())
        .collect();
    assert_eq!(names, vec![vec!["a", "b"], vec!["a"], vec!["a", "b"]]);
    assert_eq!(a.key_frames[2].pose[1].position, Vec3::new(0.0, 2.0, 0.0));
}

#[test]
fn empty_samples_give_empty_clip() {
    assert!(Animation::from_samples(&vec![]).key_frames.is_empty());
}

#[test]
fn matrix_pose_drops_scale() {
    let m = Mat4::from_scale_rotation_translation(
        Vec3::splat(2.0),
        Quat::from_rotation_y(0.5),
        Vec3::new(1.0, 2.0, 3.0),
    );
    let t = JointTransform::from_matrix("j", &m);
    assert_eq!(t.position, Vec3::new(1.0, 2.0, 3.0));
    assert!(t.rotation.abs_diff_eq(Quat::from_rotation_y(0.5), 1e-5));
    let local = t.get_local_transform();
    let expected = Mat4::from_translation(Vec3::new(1.0, 2.0, 3.0)) * Mat4::from_rotation_y(0.5);
    assert!(local.abs_diff_eq(expected, 1e-5));
}

#[test]
fn channels_resolve_first_contained_name() {
    let bones = vec!["Spine".to_string(), "Hip".to_string()];
    let channels = vec![
        ChannelSamples {
            target: "Armature_Hip/transform".to_string(),
            times: vec![0.0f32.to_bits(), 1.0f32.to_bits()],
            transforms: vec![Mat4::IDENTITY, Mat4::from_translation(Vec3::X), Mat4::IDENTITY],
        },
        ChannelSamples {
            target: "Armature_Spine/transform".to_string(),
            times: vec![0.5f32.to_bits()],
            transforms: vec![Mat4::from_translation(Vec3::Y)],
        },
    ];
    let samples = collect_samples(&channels, &bones).unwrap();
    let got: Vec<(f32, &str, Vec3)> = samples
        .iter()
        .map(|(t, p)| (f32::from_bits(*t), p.joint_name.as_str(), p.position))
        .collect();
    assert_eq!(
        got,
        vec![(0.0, "Hip", Vec3::ZERO), (1.0, "Hip", Vec3::X), (0.5, "Spine", Vec3::Y)]
    );
}

#[test]
fn unknown_target_is_rejected() {
    let bones = vec!["Spine".to_string()];
    let ok = ChannelSamples { target: "Spine".to_string(), times: vec![], transforms: vec![] };
    let bad = ChannelSamples { target: "Tail".to_string(), times: vec![], transforms: vec![] };
    assert_eq!(collect_samples(&vec![ok, bad], &bones).err(), Some(ClipError::UnknownTarget(1)));
}

#[test]
fn short_transform_list_is_rejected() {
    let bones = vec!["Spine".to_string()];
    let ch = ChannelSamples {
        target: "Spine".to_string(),
        times: vec![0, 1],
        transforms: vec![Mat4::IDENTITY],
    };
    assert_eq!(collect_samples(&vec![ch], &bones).err(), Some(ClipError::MissingSamples(0)));
}

#[test]
fn keyframe_and_clip_copies() {
    let k = KeyFrame::new(7, &vec![pose("a", 1.0)]);
    let a = Animation::new(&vec![k.clone(), k]);
    assert_eq!(a.key_frames.len(), 2);
    assert_eq!(a.key_frames[1].time_stamp, 7);
    assert_eq!(a.key_frames[1].pose[0].joint_name, "a");
}
