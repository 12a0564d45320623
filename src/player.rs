//! Playback of one clip on one skeleton: clip time, pause state, and the
//! choice of the two keyframes to blend.
//!
//! Times are whole nanoseconds. Blending the two chosen poses (linear for
//! positions, spherical for rotations) is floating-point work done by the
//! caller, which hands the blended pose back through `apply_pose`.
use vstd::prelude::*;
use glam::Mat4;
use crate::clip::{local_matrix, same_key_frames, Animation, JointTransform};
use crate::linalg::mat4_product;
use crate::skeleton::{chained_transform, same_but_animation, Joint, Skeleton};

verus! {

/// Where a clip time falls in keyframe-index space: between keyframe `lower`
/// and keyframe `upper`, a fraction `progress / span` of the way along.
#[derive(Clone, Copy, Debug, PartialEq, Eq, Structural)]
pub struct PoseSample {
    pub lower: usize,
    pub upper: usize,
    pub progress: u64,
    pub span: u64,
}

/// The keyframe after `k`; the first follows the last.
pub open spec fn following(k: int, n: int) -> int {
    if k + 1 >= n {
        0
    } else {
        k + 1
    }
}

/// Clip time `t` of a clip lasting `d` with `n` keyframes, rescaled to
/// `t / d * (n - 1)`: its whole part picks the lower keyframe and its
/// fractional part is the blend factor.
pub open spec fn pose_sample(t: int, d: int, n: int) -> PoseSample {
    let lower = (t * (n - 1)) / d;
    PoseSample {
        lower: lower as usize,
        upper: following(lower, n) as usize,
        progress: ((t * (n - 1)) % d) as u64,
        span: d as u64,
    }
}

/// The clip time after advancing `t` by `delta` in a clip lasting `d`,
/// wrapping around the end of the clip.
pub open spec fn advanced_time(t: int, delta: int, d: int) -> int {
    (t + delta) % d
}

proof fn lemma_sample_in_range(t: int, d: int, n: int)
    requires
        0 <= t < d,
        n >= 1,
    ensures
        0 <= (t * (n - 1)) / d < n,
        0 <= t * (n - 1) < d * n,
        n > 1 ==> (t * (n - 1)) / d < n - 1,
{
    assert(0 <= t * (n - 1) <= (d - 1) * (n - 1)) by (nonlinear_arith)
        requires
            0 <= t < d,
            n >= 1,
    ;
    assert(0 <= (t * (n - 1)) / d <= t * (n - 1) / d) by (nonlinear_arith)
        requires
            0 <= t * (n - 1),
            d > 0,
    ;
    if n > 1 {
        assert((t * (n - 1)) / d < n - 1) by (nonlinear_arith)
            requires
                0 <= t < d,
                n > 1,
        ;
    } else {
        assert(t * (n - 1) == 0) by (nonlinear_arith)
            requires
                n == 1,
        ;
    }
    assert(t * (n - 1) < d * n) by (nonlinear_arith)
        requires
            0 <= t < d,
            n >= 1,
    ;
}

/// Where clip time `time` falls among `keyframe_count` keyframes spread over
/// a clip lasting `duration`.
pub fn sample_pose(time: u64, duration: u64, keyframe_count: usize) -> (s: PoseSample)
    requires
        duration > 0,
        time < duration,
        keyframe_count >= 1,
    ensures
        s == pose_sample(time as int, duration as int, keyframe_count as int),
        s.lower < keyframe_count,
        s.upper < keyframe_count,
{
    proof {
        lemma_sample_in_range(time as int, duration as int, keyframe_count as int);
        assert((time as int) * (keyframe_count as int - 1) <= 0xffff_ffff_ffff_ffff * 0xffff_ffff_ffff_ffff)
            by (nonlinear_arith)
            requires
                time < 0x1_0000_0000_0000_0000,
                0 <= keyframe_count as int - 1 < 0x1_0000_0000_0000_0000,
        ;
    }
    let steps = (keyframe_count - 1) as u128;
    let scaled: u128 = time as u128 * steps;
    let lower = (scaled / duration as u128) as usize;
    let progress = (scaled % duration as u128) as u64;
    let upper = if lower + 1 >= keyframe_count {
        0
    } else {
        lower + 1
    };
    PoseSample { lower, upper, progress, span: duration }
}

/// Advancing by a whole clip duration comes back to the same clip time, and
/// so to the same keyframes and blend factor.
pub proof fn lemma_full_cycle_returns(t: int, d: int, n: int)
    requires
        0 <= t < d,
        n >= 1,
    ensures
        advanced_time(t, d, d) == t,
        pose_sample(advanced_time(t, d, d), d, n) == pose_sample(t, d, n),
{
    assert((t + d) % d == t) by (nonlinear_arith)
        requires
            0 <= t < d,
    ;
}

/// At a clip time that lands exactly on keyframe `k` the blend factor is 0
/// and `k` is the lower keyframe, so the pose is keyframe `k` itself; and for
/// every keyframe but the last, the keyframe after it is the upper keyframe of
/// the span that ends there.
pub proof fn lemma_keyframe_boundary(t: int, d: int, n: int, k: int)
    requires
        0 <= t < d,
        1 <= n <= usize::MAX,
        t * (n - 1) == k * d,
    ensures
        pose_sample(t, d, n).progress == 0,
        pose_sample(t, d, n).lower == k,
        0 <= k < n,
        k >= 1 ==> following(k - 1, n) == k,
{
    lemma_sample_in_range(t, d, n);
    assert((k * d) / d == k && (k * d) % d == 0) by (nonlinear_arith)
        requires
            d > 0,
    ;
    assert(0 <= k);
}

/// Playing one clip on one skeleton.
pub struct AnimationPlayer {
    pub animation: Animation,
    pub paused: bool,
    pub animation_time: u64,
    pub skeleton: Skeleton,
}

/// The player after one `animate(delta, d)` call.
pub open spec fn after_animate(p: AnimationPlayer, delta: u64, d: u64) -> AnimationPlayer {
    if p.paused {
        p
    } else {
        AnimationPlayer {
            animation_time: advanced_time(p.animation_time as int, delta as int, d as int) as u64,
            ..p
        }
    }
}

/// The player after `animate(deltas[0], d)`, `animate(deltas[1], d)`, ... in turn.
pub open spec fn after_animations(p: AnimationPlayer, deltas: Seq<u64>, d: u64) -> AnimationPlayer
    decreases deltas.len(),
{
    if deltas.len() == 0 {
        p
    } else {
        after_animations(after_animate(p, deltas[0], d), deltas.drop_first(), d)
    }
}

/// While paused, no run of `animate` calls changes the player: neither its
/// clip time nor any joint's animation transform.
pub proof fn lemma_pause_freezes(p: AnimationPlayer, deltas: Seq<u64>, d: u64)
    requires
        p.paused,
    ensures
        after_animations(p, deltas, d) == p,
    decreases deltas.len(),
{
    if deltas.len() > 0 {
        lemma_pause_freezes(p, deltas.drop_first(), d);
    }
}

/// Any number of `animate` steps of exactly one clip duration leave the
/// player as it was, at the same clip time and so at the same pose.
pub proof fn lemma_whole_cycles(p: AnimationPlayer, k: nat, d: u64)
    requires
        0 < d,
        p.animation_time < d,
    ensures
        after_animations(p, Seq::new(k, |i: int| d), d) == p,
    decreases k,
{
    if k > 0 {
        let steps = Seq::new(k, |i: int| d);
        lemma_full_cycle_returns(p.animation_time as int, d as int, 1);
        assert(after_animate(p, d, d) == p);
        assert(steps.drop_first() =~= Seq::new((k - 1) as nat, |i: int| d));
        lemma_whole_cycles(p, (k - 1) as nat, d);
    }
}

/// Why a pose could not be looked up.
#[derive(Clone, Copy, Debug, PartialEq, Eq, Structural)]
pub enum PoseError {
    /// Keyframe `keyframe` holds no pose for the joint at arena index `joint`.
    MissingJointPose { keyframe: usize, joint: usize },
}

/// `i` is the first place in `pose` that holds a transform for `name`.
pub open spec fn first_pose_of(pose: Seq<JointTransform>, name: Seq<char>, i: int) -> bool {
    &&& 0 <= i < pose.len()
    &&& pose[i].joint_name@ == name
    &&& forall|m: int| 0 <= m < i ==> pose[m].joint_name@ != name
}

pub open spec fn has_pose(pose: Seq<JointTransform>, name: Seq<char>) -> bool {
    exists|i: int| 0 <= i < pose.len() && (#[trigger] pose[i]).joint_name@ == name
}

/// The first transform for `name` in `pose`.
fn find_pose(pose: &Vec<JointTransform>, name: &String) -> (r: Option<usize>)
    ensures
        r matches Some(i) ==> first_pose_of(pose@, name@, i as int),
        r is None ==> !has_pose(pose@, name@),
{
    let mut i: usize = 0;
    while i < pose.len()
        invariant
            i <= pose@.len(),
            forall|m: int| 0 <= m < i ==> pose@[m].joint_name@ != name@,
        decreases pose@.len() - i,
    {
        if pose[i].joint_name == *name {
            return Some(i);
        }
        i = i + 1;
    }
    None
}

fn clone_joints(js: &Vec<Joint>) -> (r: Vec<Joint>)
    ensures
        r@ == js@,
{
    let mut r: Vec<Joint> = Vec::new();
    let mut i: usize = 0;
    while i < js.len()
        invariant
            i <= js.len(),
            r@ == js@.subrange(0, i as int),
        decreases js.len() - i,
    {
        r.push(js[i].clone());
        i = i + 1;
        assert(r@ =~= js@.subrange(0, i as int));
    }
    assert(r@ =~= js@);
    r
}

impl AnimationPlayer {
    pub open spec fn wf(&self) -> bool {
        self.skeleton.wf() && self.animation.key_frames@.len() >= 1
    }

    /// A player at clip time 0, playing.
    pub fn new(animation: &Animation, skeleton: &Skeleton) -> (p: AnimationPlayer)
        ensures
            same_key_frames(p.animation.key_frames@, animation.key_frames@),
            p.skeleton.joints@ == skeleton.joints@,
            p.animation_time == 0,
            !p.paused,
    {
        AnimationPlayer {
            animation: animation.clone(),
            paused: false,
            animation_time: 0,
            skeleton: Skeleton { joints: clone_joints(&skeleton.joints) },
        }
    }

    pub fn toggle_pause(&mut self)
        ensures
            final(self).paused == !old(self).paused,
            final(self).animation_time == old(self).animation_time,
            final(self).animation == old(self).animation,
            final(self).skeleton == old(self).skeleton,
    {
        self.paused = !self.paused;
    }

    /// Sets the clip time to `time` as given and pauses there; returns the
    /// keyframes to blend for that time. The keyframes of a time past the end
    /// of a clip lasting `duration` are those of its remainder, as for
    /// `animate`; the stored clip time itself is kept as given.
    pub fn pause_to_pose(&mut self, time: u64, duration: u64) -> (s: PoseSample)
        requires
            old(self).wf(),
            duration > 0,
        ensures
            final(self).paused,
            final(self).animation_time == time,
            final(self).animation == old(self).animation,
            final(self).skeleton == old(self).skeleton,
            s == pose_sample(
                (time % duration) as int,
                duration as int,
                old(self).animation.key_frames@.len() as int,
            ),
            s.lower < old(self).animation.key_frames@.len(),
            s.upper < old(self).animation.key_frames@.len(),
    {
        self.animation_time = time;
        self.paused = true;
        sample_pose(time % duration, duration, self.animation.key_frames.len())
    }

    /// Moves back to clip time 0, paused or not as before; returns the
    /// keyframes to blend there (the first keyframe, with blend factor 0).
    pub fn reset(&mut self) -> (s: PoseSample)
        requires
            old(self).wf(),
        ensures
            final(self).animation_time == 0,
            final(self).paused == old(self).paused,
            final(self).animation == old(self).animation,
            final(self).skeleton == old(self).skeleton,
            s == pose_sample(0, 1, old(self).animation.key_frames@.len() as int),
            s.lower == 0,
            s.progress == 0,
            s.upper < old(self).animation.key_frames@.len(),
    {
        self.animation_time = 0;
        sample_pose(0, 1, self.animation.key_frames.len())
    }

    /// Advances clip time by `delta` in a clip lasting `duration` and returns
    /// the keyframes to blend; does nothing while paused. Time wraps by the
    /// remainder, so reaching the end exactly lands on time 0 and a step
    /// longer than the clip completes whole loops rather than skipping them.
    pub fn animate(&mut self, delta: u64, duration: u64) -> (r: Option<PoseSample>)
        requires
            old(self).wf(),
            !old(self).paused ==> duration > 0,
        ensures
            *final(self) == after_animate(*old(self), delta, duration),
            old(self).paused ==> r is None && *final(self) == *old(self),
            !old(self).paused ==> {
                &&& final(self).animation_time == advanced_time(
                    old(self).animation_time as int,
                    delta as int,
                    duration as int,
                )
                &&& !final(self).paused
                &&& final(self).animation == old(self).animation
                &&& final(self).skeleton == old(self).skeleton
                &&& r == Some(
                    pose_sample(
                        final(self).animation_time as int,
                        duration as int,
                        old(self).animation.key_frames@.len() as int,
                    ),
                )
            },
            r matches Some(s) ==> s.lower < old(self).animation.key_frames@.len() && s.upper
                < old(self).animation.key_frames@.len(),
    {
        if self.paused {
            return None;
        }
        let t = ((self.animation_time as u128 + delta as u128) % duration as u128) as u64;
        self.animation_time = t;
        Some(sample_pose(t, duration, self.animation.key_frames.len()))
    }

    /// For each joint, in arena order, its transforms in the two keyframes of
    /// `s`: the first one listed under the joint's name in each. Fails at the
    /// first joint that one of the two keyframes has no transform for.
    pub fn joint_poses(&self, s: &PoseSample) -> (r: Result<
        Vec<(JointTransform, JointTransform)>,
        PoseError,
    >)
        requires
            self.wf(),
            s.lower < self.animation.key_frames@.len(),
            s.upper < self.animation.key_frames@.len(),
        ensures
            ({
                let lo = self.animation.key_frames@[s.lower as int].pose@;
                let up = self.animation.key_frames@[s.upper as int].pose@;
                let js = self.skeleton.joints@;
                &&& r is Ok <==> forall|j: int|
                    0 <= j < js.len() ==> has_pose(lo, #[trigger] js[j].name@) && has_pose(
                        up,
                        js[j].name@,
                    )
                &&& r matches Ok(v) ==> v@.len() == js.len() && forall|j: int, a: int, b: int|
                    #![trigger v@[j], first_pose_of(lo, js[j].name@, a), first_pose_of(up, js[j].name@, b)]
                    0 <= j < js.len() && first_pose_of(lo, js[j].name@, a) && first_pose_of(
                        up,
                        js[j].name@,
                        b,
                    ) ==> v@[j] == (lo[a], up[b])
                &&& r matches Err(PoseError::MissingJointPose { keyframe, joint }) ==> {
                    &&& joint < js.len()
                    &&& (keyframe == s.lower && !has_pose(lo, js[joint as int].name@)) || (
                    keyframe == s.upper && has_pose(lo, js[joint as int].name@) && !has_pose(
                        up,
                        js[joint as int].name@,
                    ))
                    &&& forall|j: int|
                        0 <= j < joint ==> has_pose(lo, #[trigger] js[j].name@) && has_pose(
                            up,
                            js[j].name@,
                        )
                }
            }),
    {
        let lo = &self.animation.key_frames[s.lower].pose;
        let up = &self.animation.key_frames[s.upper].pose;
        let js = &self.skeleton.joints;
        let mut v: Vec<(JointTransform, JointTransform)> = Vec::new();
        let mut j: usize = 0;
        while j < js.len()
            invariant
                s.lower < self.animation.key_frames@.len(),
                s.upper < self.animation.key_frames@.len(),
                lo@ == self.animation.key_frames@[s.lower as int].pose@,
                up@ == self.animation.key_frames@[s.upper as int].pose@,
                js@ == self.skeleton.joints@,
                j <= js@.len(),
                v@.len() == j,
                forall|k: int| 0 <= k < j ==> has_pose(lo@, #[trigger] js@[k].name@) && has_pose(up@, js@[k].name@),
                forall|k: int, a: int, b: int|
                    #![trigger v@[k], first_pose_of(lo@, js@[k].name@, a), first_pose_of(up@, js@[k].name@, b)]
                    0 <= k < j && first_pose_of(lo@, js@[k].name@, a) && first_pose_of(
                        up@,
                        js@[k].name@,
                        b,
                    ) ==> v@[k] == (lo@[a], up@[b]),
            decreases js@.len() - j,
        {
            let a = match find_pose(lo, &js[j].name) {
                Some(a) => a,
                None => {
                    assert(!has_pose(lo@, js@[j as int].name@));
                    return Err(PoseError::MissingJointPose { keyframe: s.lower, joint: j });
                },
            };
            let b = match find_pose(up, &js[j].name) {
                Some(b) => b,
                None => {
                    assert(lo@[a as int].joint_name@ == js@[j as int].name@);
                    assert(has_pose(lo@, js@[j as int].name@));
                    assert(!has_pose(up@, js@[j as int].name@));
                    return Err(PoseError::MissingJointPose { keyframe: s.upper, joint: j });
                },
            };
            let ghost ga = a as int;
            let ghost gb = b as int;
            v.push((lo[a].clone(), up[b].clone()));
            proof {
                assert(lo@[ga].joint_name@ == js@[j as int].name@);
                assert(up@[gb].joint_name@ == js@[j as int].name@);
                assert forall|k: int, a2: int, b2: int|
                    #![trigger v@[k], first_pose_of(lo@, js@[k].name@, a2), first_pose_of(up@, js@[k].name@, b2)]
                    0 <= k < j + 1 && first_pose_of(lo@, js@[k].name@, a2) && first_pose_of(
                        up@,
                        js@[k].name@,
                        b2,
                    ) implies v@[k] == (lo@[a2], up@[b2]) by {
                    if k == j {
                        if a2 != ga {
                            if a2 < ga {
                                assert(lo@[a2].joint_name@ != js@[k].name@);
                            } else {
                                assert(lo@[ga].joint_name@ != js@[k].name@);
                            }
                        }
                        if b2 != gb {
                            if b2 < gb {
                                assert(up@[b2].joint_name@ != js@[k].name@);
                            } else {
                                assert(up@[gb].joint_name@ != js@[k].name@);
                            }
                        }
                    }
                }
            }
            j = j + 1;
        }
        Ok(v)
    }

    /// Installs a blended pose: `pose[j]` is the local pose of joint `j`.
    /// Each joint's animation transform becomes its global transform under
    /// that pose times its inverse bind transform.
    pub fn apply_pose(&mut self, pose: &Vec<JointTransform>)
        requires
            old(self).wf(),
            pose@.len() == old(self).skeleton.joints@.len(),
        ensures
            final(self).wf(),
            final(self).animation == old(self).animation,
            final(self).animation_time == old(self).animation_time,
            final(self).paused == old(self).paused,
            final(self).skeleton.joints@.len() == old(self).skeleton.joints@.len(),
            forall|j: int|
                0 <= j < old(self).skeleton.joints@.len() ==> same_but_animation(
                    #[trigger] final(self).skeleton.joints@[j],
                    old(self).skeleton.joints@[j],
                ) && final(self).skeleton.joints@[j].animation_transform == mat4_product(
                    chained_transform(
                        old(self).skeleton.joints@,
                        pose@.map_values(|t: JointTransform| local_matrix(t)),
                        j,
                    ),
                    old(self).skeleton.joints@[j].inverse_bind_transform,
                ),
    {
        let mut locals: Vec<Mat4> = Vec::new();
        let mut i: usize = 0;
        while i < pose.len()
            invariant
                i <= pose@.len(),
                locals@ == pose@.subrange(0, i as int).map_values(|t: JointTransform| local_matrix(t)),
            decreases pose@.len() - i,
        {
            locals.push(pose[i].get_local_transform());
            i = i + 1;
            assert(locals@ =~= pose@.subrange(0, i as int).map_values(
                |t: JointTransform| local_matrix(t),
            ));
        }
        assert(pose@.subrange(0, i as int) =~= pose@);
        self.skeleton.apply_local_pose(&locals);
    }

    /// The skinning-matrix palette of the current pose.
    pub fn get_global_transform_matrices(&self) -> (r: Vec<Mat4>)
        ensures
            r@ == self.skeleton.joints@.map_values(|j: Joint| j.animation_transform),
    {
        self.skeleton.get_global_transform_matrices()
    }
}

} // verus!
