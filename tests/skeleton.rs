use glam::{Mat4, Vec3};
use skelanim::scene::SceneNode;
use skelanim::skeleton::{Joint, Skeleton, SkeletonError};

fn node(name: &str, is_joint: bool, transform: Option<Mat4>, children: Vec<SceneNode>) -> SceneNode {
    SceneNode { name: name.to_string(), is_joint, transform: transform.unwrap_or(Mat4::IDENTITY), children }
}

fn names(list: &[&str]) -> Vec<String> {
    list.iter().map(|s| s.to_string()).collect()
}

fn sample_tree() -> SceneNode {
    let head = node("head", true, Some(Mat4::from_translation(Vec3::new(0.0, 0.5, 0.0))), vec![]);
    let spine = node("spine", true, Some(Mat4::from_translation(Vec3::new(0.0, 1.0, 0.0))), vec![head]);
    let hidden = node("hidden", true, None, vec![]);
    let mesh = node("mesh", false, None, vec![hidden]);
    let arm = node("arm", true, Some(Mat4::from_rotation_z(0.5)), vec![]);
    node("hip", true, Some(Mat4::from_translation(Vec3::new(1.0, 0.0, 0.0))), vec![spine, mesh, arm])
}

fn approx(a: &Mat4, b: &Mat4) -> bool {
    a.abs_diff_eq(*b, 1e-5)
}

#[test]
fn build_lists_joints_in_preorder() {
    let s = Skeleton::build(&sample_tree(), &names(&["spine", "hip", "head", "arm", "hidden"])).unwrap();
    let got: Vec<(&str, i32, Option<usize>)> =
        s.joints.iter().map(|j| (j.name.as_str(), j.id, j.parent)).collect();
    assert_eq!(
        got,
        vec![("hip", 1, None), ("spine", 0, Some(0)), ("head", 2, Some(1)), ("arm", 3, Some(0))]
    );
}

#[test]
fn bind_pose_round_trip() {
    let s = Skeleton::build(&sample_tree(), &names(&["spine", "hip", "head", "arm"])).unwrap();
    let mut globals: Vec<Mat4> = Vec::new();
    for j in &s.joints {
        let g = match j.parent {
            Some(p) => globals[p] * j.local_bind_transform,
            None => j.local_bind_transform,
        };
        assert!(approx(&(g * j.inverse_bind_transform), &Mat4::IDENTITY));
        globals.push(g);
    }
    let head = &s.joints[2];
    assert!(approx(&head.inverse_bind_transform, &Mat4::from_translation(Vec3::new(-1.0, -1.5, 0.0))));
}

#[test]
fn unknown_joint_is_rejected() {
    let r = Skeleton::build(&sample_tree(), &names(&["spine", "hip", "head"]));
    assert_eq!(r.err(), Some(SkeletonError::UnknownJoint("arm".to_string())));
}

#[test]
fn root_must_be_a_joint() {
    let root = node("scene", false, None, vec![]);
    let r = Skeleton::build(&root, &names(&["scene"]));
    assert_eq!(r.err(), Some(SkeletonError::RootNotJoint));
}

#[test]
fn singular_bind_transform_is_rejected() {
    let child = node("b", true, Some(Mat4::ZERO), vec![]);
    let root = node("a", true, None, vec![child]);
    let r = Skeleton::build(&root, &names(&["a", "b"]));
    assert_eq!(r.err(), Some(SkeletonError::SingularBindTransform(1)));
}

#[test]
fn add_child_keeps_preorder() {
    let mut s = Skeleton::new(Joint::new(0, "root"));
    let a = s.add_child(0, Joint::new(1, "a"));
    assert!(s.can_add_child(a));
    let b = s.add_child(a, Joint::new(2, "b"));
    assert_eq!((a, b), (1, 2));
    assert!(s.can_add_child(0));
    assert!(!s.can_add_child(7));
    s.add_child(0, Joint::new(3, "c"));
    assert!(!s.can_add_child(a));
    let order: Vec<String> = s.flatten().into_iter().map(|j| j.name).collect();
    assert_eq!(order, vec!["root", "a", "b", "c"]);
    assert_eq!(s.joints[3].parent, Some(0));
}

#[test]
fn pose_palette_is_global_times_inverse_bind() {
    let mut s = Skeleton::build(&sample_tree(), &names(&["spine", "hip", "head", "arm"])).unwrap();
    let locals: Vec<Mat4> = s.joints.iter().map(|j| j.local_bind_transform).collect();
    s.apply_local_pose(&locals);
    for m in s.get_global_transform_matrices() {
        assert!(approx(&m, &Mat4::IDENTITY));
    }
    let mut moved = locals.clone();
    moved[1] = Mat4::from_translation(Vec3::new(0.0, 2.0, 0.0));
    s.apply_local_pose(&moved);
    let palette = s.get_global_transform_matrices();
    assert_eq!(palette.len(), 4);
    let shift = Mat4::from_translation(Vec3::new(0.0, 1.0, 0.0));
    assert!(approx(&palette[1], &shift));
    assert!(approx(&palette[2], &shift));
    assert!(approx(&palette[3], &Mat4::IDENTITY));
}

#[test]
fn new_joint_starts_at_identity() {
    let j = Joint::new(4, "wrist");
    assert_eq!((j.id, j.name.as_str(), j.parent), (4, "wrist", None));
    assert_eq!(j.local_bind_transform, Mat4::IDENTITY);
    assert_eq!(j.inverse_bind_transform, Mat4::IDENTITY);
    assert_eq!(j.animation_transform, Mat4::IDENTITY);
    let s = Skeleton::new(j);
    assert_eq!(s.flatten().len(), 1);
}
