use glam::{Mat4, Quat, Vec3};
use skelanim::clip::{Animation, JointTransform, KeyFrame};
use skelanim::player::{sample_pose, AnimationPlayer, PoseError, PoseSample};
use skelanim::scene::SceneNode;
use skelanim::skeleton::Skeleton;

const SECOND: u64 = 1_000_000_000;

fn jt(name: &str, position: Vec3, rotation: Quat) -> JointTransform {
    JointTransform::new(name, &position, &rotation)
}

fn blend(a: &JointTransform, b: &JointTransform, s: &PoseSample) -> JointTransform {
    let f = s.progress as f32 / s.span as f32;
    jt(&a.joint_name, a.position.lerp(b.position, f), a.rotation.slerp(b.rotation, f))
}

fn chain() -> Skeleton {
    let child = SceneNode {
        name: "child".to_string(),
        is_joint: true,
        transform: Mat4::from_translation(Vec3::Y),
        children: vec![],
    };
    let root = SceneNode { name: "root".to_string(), is_joint: true, transform: Mat4::IDENTITY, children: vec![child] };
    Skeleton::build(&root, &vec!["root".to_string(), "child".to_string()]).unwrap()
}

fn two_key_clip() -> Animation {
    let k0 = KeyFrame::new(0, &vec![jt("root", Vec3::ZERO, Quat::IDENTITY), jt("child", Vec3::Y, Quat::IDENTITY)]);
    let k1 = KeyFrame::new(
        1.0f32.to_bits(),
        &vec![jt("root", Vec3::ZERO, Quat::IDENTITY), jt("child", Vec3::Y, Quat::from_xyzw(0.0, 1.0, 0.0, 0.0))],
    );
    Animation::new(&vec![k0, k1])
}

fn four_key_clip() -> Animation {
    let frames: Vec<KeyFrame> = (0..4)
        .map(|i| KeyFrame::new(i, &vec![jt("root", Vec3::new(i as f32, 0.0, 0.0), Quat::IDENTITY), jt("child", Vec3::Y, Quat::IDENTITY)]))
        .collect();
    Animation::new(&frames)
}

fn apply(p: &mut AnimationPlayer, s: &PoseSample) {
    let pairs = p.joint_poses(s).unwrap();
    let pose: Vec<JointTransform> = pairs.iter().map(|(a, b)| blend(a, b, s)).collect();
    p.apply_pose(&pose);
}

#[test]
fn slerp_midpoint_of_two_joint_chain() {
    let mut p = AnimationPlayer::new(&two_key_clip(), &chain());
    let s = p.animate(SECOND / 2, SECOND).unwrap();
    assert_eq!(s, PoseSample { lower: 0, upper: 1, progress: SECOND / 2, span: SECOND });
    let pairs = p.joint_poses(&s).unwrap();
    let child = blend(&pairs[1].0, &pairs[1].1, &s);
    assert!(child.rotation.abs_diff_eq(Quat::from_rotation_y(std::f32::consts::FRAC_PI_2), 1e-5));
    apply(&mut p, &s);
    let bind_global = Mat4::from_translation(Vec3::Y);
    let global = p.skeleton.joints[1].animation_transform * bind_global;
    let expected = Mat4::IDENTITY * Mat4::from_translation(Vec3::Y) * Mat4::from_rotation_y(std::f32::consts::FRAC_PI_2);
    assert!(global.abs_diff_eq(expected, 1e-5));
}

#[test]
fn full_duration_step_returns_to_start() {
    let mut p = AnimationPlayer::new(&four_key_clip(), &chain());
    let start = p.reset();
    apply(&mut p, &start);
    let first = p.get_global_transform_matrices();
    for _ in 0..3 {
        let s = p.animate(2 * SECOND, 2 * SECOND).unwrap();
        assert_eq!(p.animation_time, 0);
        assert_eq!((s.lower, s.progress), (0, 0));
        apply(&mut p, &s);
        assert_eq!(p.get_global_transform_matrices(), first);
    }
}

#[test]
fn boundary_times_hit_keyframes_exactly() {
    let s = sample_pose(SECOND, 3 * SECOND, 4);
    assert_eq!(s, PoseSample { lower: 1, upper: 2, progress: 0, span: 3 * SECOND });
    let mut p = AnimationPlayer::new(&four_key_clip(), &chain());
    apply(&mut p, &s);
    let root = p.skeleton.joints[0].animation_transform;
    assert_eq!(root, Mat4::from_translation(Vec3::X));
    let before = sample_pose(SECOND / 2, 3 * SECOND, 4);
    assert_eq!((before.lower, before.upper), (0, 1));
}

#[test]
fn paused_player_does_not_move() {
    let mut p = AnimationPlayer::new(&four_key_clip(), &chain());
    let s = p.pause_to_pose(SECOND, 3 * SECOND);
    assert_eq!((s.lower, s.progress), (1, 0));
    apply(&mut p, &s);
    let palette = p.get_global_transform_matrices();
    for _ in 0..5 {
        assert_eq!(p.animate(SECOND / 3, 3 * SECOND), None);
        assert_eq!(p.animation_time, SECOND);
        assert_eq!(p.get_global_transform_matrices(), palette);
    }
    p.toggle_pause();
    assert!(p.animate(SECOND, 3 * SECOND).is_some());
    assert_eq!(p.animation_time, 2 * SECOND);
}

#[test]
fn time_wraps_modulo_duration() {
    let mut p = AnimationPlayer::new(&four_key_clip(), &chain());
    p.animate(5 * SECOND / 2, SECOND);
    assert_eq!(p.animation_time, SECOND / 2);
    let s = p.reset();
    assert_eq!(p.animation_time, 0);
    assert_eq!((s.lower, s.upper, s.progress), (0, 1, 0));
}

#[test]
fn single_keyframe_is_static() {
    let clip = Animation::new(&vec![KeyFrame::new(0, &vec![jt("root", Vec3::ZERO, Quat::IDENTITY)])]);
    let s = sample_pose(SECOND / 2, SECOND, 1);
    assert_eq!((s.lower, s.upper, s.progress), (0, 0, 0));
    assert_eq!(clip.key_frames.len(), 1);
}

#[test]
fn missing_joint_pose_is_reported() {
    let k0 = KeyFrame::new(0, &vec![jt("root", Vec3::ZERO, Quat::IDENTITY), jt("child", Vec3::Y, Quat::IDENTITY)]);
    let k1 = KeyFrame::new(1, &vec![jt("root", Vec3::ZERO, Quat::IDENTITY)]);
    let mut p = AnimationPlayer::new(&Animation::new(&vec![k0, k1]), &chain());
    let s = p.animate(SECOND / 2, SECOND).unwrap();
    assert_eq!(p.joint_poses(&s).err(), Some(PoseError::MissingJointPose { keyframe: 1, joint: 1 }));
}

#[test]
fn pause_to_pose_keeps_the_given_time() {
    let mut p = AnimationPlayer::new(&four_key_clip(), &chain());
    let s = p.pause_to_pose(2 * SECOND, 2 * SECOND);
    assert!(p.paused);
    assert_eq!(p.animation_time, 2 * SECOND);
    assert_eq!((s.lower, s.upper, s.progress), (0, 1, 0));
    assert_eq!(p.animate(SECOND, 0), None);
    assert_eq!(p.animation_time, 2 * SECOND);
}
