//! Keyframes and animation clips: per-joint local poses grouped by time.
//!
//! Time stamps are order keys: the IEEE-754 bit pattern of a non-negative
//! `f32` number of seconds, which orders and compares exactly as the number.
use vstd::prelude::*;
use vstd::utf8::encode_utf8;
use glam::{Mat4, Quat, Vec3};
use crate::linalg::{mat4_product, rotation_matrix, scale_rotation_translation, translation_matrix};
use crate::skeleton::{Joint, Skeleton};

verus! {

/// The local pose of one named joint: a translation and a rotation.
pub struct JointTransform {
    pub joint_name: String,
    pub position: Vec3,
    pub rotation: Quat,
}

/// The local matrix of a pose: the translation applied after the rotation.
pub open spec fn local_matrix(t: JointTransform) -> Mat4 {
    mat4_product(translation_matrix(t.position), rotation_matrix(t.rotation))
}

impl JointTransform {
    pub fn new(joint_name: &str, position: &Vec3, rotation: &Quat) -> (t: JointTransform)
        ensures
            t.joint_name@ == joint_name@,
            t.position == *position,
            t.rotation == *rotation,
    {
        JointTransform { joint_name: joint_name.to_owned(), position: *position, rotation: *rotation }
    }

    /// The pose held in an affine matrix: its translation and rotation; any
    /// scale the matrix carries is dropped. The rotation is the one glam's
    /// decomposition reads out: each column of the upper 3x3 block is scaled
    /// by the reciprocal of its length, and the x scale takes the sign of the
    /// block's determinant, so a mirrored matrix yields the rotation of its
    /// mirror image with a negative x scale (which is then dropped).
    pub fn from_matrix(joint_name: &str, m: &Mat4) -> (t: JointTransform)
        ensures
            t.joint_name@ == joint_name@,
            t.position == scale_rotation_translation(*m).2,
            t.rotation == scale_rotation_translation(*m).1,
    {
        let (_scale, rotation, translation) = m.to_scale_rotation_translation();
        JointTransform { joint_name: joint_name.to_owned(), position: translation, rotation }
    }

    /// `translation(position) * rotation(rotation)`.
    pub fn get_local_transform(&self) -> (m: Mat4)
        ensures
            m == local_matrix(*self),
    {
        let translation = Mat4::from_translation(self.position);
        let rotation = Mat4::from_quat(self.rotation);
        translation.mul_mat4(&rotation)
    }
}

impl Clone for JointTransform {
    fn clone(&self) -> (r: Self)
        ensures
            r == *self,
    {
        JointTransform {
            joint_name: self.joint_name.clone(),
            position: self.position,
            rotation: self.rotation,
        }
    }
}

fn clone_pose(pose: &Vec<JointTransform>) -> (r: Vec<JointTransform>)
    ensures
        r@ == pose@,
{
    let mut r: Vec<JointTransform> = Vec::new();
    let mut i: usize = 0;
    while i < pose.len()
        invariant
            i <= pose.len(),
            r@ == pose@.subrange(0, i as int),
        decreases pose.len() - i,
    {
        r.push(pose[i].clone());
        i = i + 1;
        assert(r@ =~= pose@.subrange(0, i as int));
    }
    assert(r@ =~= pose@);
    r
}

/// The poses of the animated joints at one instant.
pub struct KeyFrame {
    pub time_stamp: u32,
    pub pose: Vec<JointTransform>,
}

impl KeyFrame {
    pub fn new(time_stamp: u32, pose: &Vec<JointTransform>) -> (k: KeyFrame)
        ensures
            k.time_stamp == time_stamp,
            k.pose@ == pose@,
    {
        KeyFrame { time_stamp, pose: clone_pose(pose) }
    }
}

impl Clone for KeyFrame {
    fn clone(&self) -> (r: Self)
        ensures
            r.time_stamp == self.time_stamp,
            r.pose@ == self.pose@,
    {
        KeyFrame::new(self.time_stamp, &self.pose)
    }
}

/// The poses, in order, of the samples taken at time `t`.
pub open spec fn poses_at(samples: Seq<(u32, JointTransform)>, t: u32) -> Seq<JointTransform>
    decreases samples.len(),
{
    if samples.len() == 0 {
        Seq::empty()
    } else {
        let front = poses_at(samples.drop_last(), t);
        if samples.last().0 == t {
            front.push(samples.last().1)
        } else {
            front
        }
    }
}

/// Keyframes with strictly increasing time stamps.
pub open spec fn strictly_increasing(kfs: Seq<KeyFrame>) -> bool {
    forall|i: int, j: int| 0 <= i < j < kfs.len() ==> kfs[i].time_stamp < kfs[j].time_stamp
}

/// The keyframes are the samples grouped by time: one keyframe per distinct
/// time, in increasing time order, each holding the poses sampled at its time
/// in the order they were given.
pub open spec fn groups_samples(kfs: Seq<KeyFrame>, samples: Seq<(u32, JointTransform)>) -> bool {
    &&& strictly_increasing(kfs)
    &&& forall|k: int|
        0 <= k < kfs.len() ==> (#[trigger] kfs[k]).pose@ == poses_at(samples, kfs[k].time_stamp)
            && kfs[k].pose@.len() > 0
    &&& forall|i: int|
        0 <= i < samples.len() ==> exists|k: int|
            0 <= k < kfs.len() && (#[trigger] kfs[k]).time_stamp == (#[trigger] samples[i]).0
}

proof fn lemma_poses_at_absent(samples: Seq<(u32, JointTransform)>, t: u32)
    requires
        forall|i: int| 0 <= i < samples.len() ==> samples[i].0 != t,
    ensures
        poses_at(samples, t) == Seq::<JointTransform>::empty(),
    decreases samples.len(),
{
    if samples.len() > 0 {
        lemma_poses_at_absent(samples.drop_last(), t);
    }
}

/// An animation clip: keyframes in time order, looping from the last back to
/// the first.
pub struct Animation {
    pub key_frames: Vec<KeyFrame>,
}

/// A copy of a keyframe list with the same time stamps and poses.
pub open spec fn same_key_frames(a: Seq<KeyFrame>, b: Seq<KeyFrame>) -> bool {
    &&& a.len() == b.len()
    &&& forall|k: int|
        0 <= k < a.len() ==> (#[trigger] a[k]).time_stamp == b[k].time_stamp && a[k].pose@
            == b[k].pose@
}

fn clone_key_frames(kfs: &Vec<KeyFrame>) -> (r: Vec<KeyFrame>)
    ensures
        same_key_frames(r@, kfs@),
{
    let mut r: Vec<KeyFrame> = Vec::new();
    let mut i: usize = 0;
    while i < kfs.len()
        invariant
            i <= kfs.len(),
            r@.len() == i,
            forall|k: int|
                0 <= k < i ==> (#[trigger] r@[k]).time_stamp == kfs@[k].time_stamp && r@[k].pose@
                    == kfs@[k].pose@,
        decreases kfs.len() - i,
    {
        r.push(kfs[i].clone());
        i = i + 1;
    }
    r
}

impl Clone for Animation {
    fn clone(&self) -> (r: Self)
        ensures
            same_key_frames(r.key_frames@, self.key_frames@),
    {
        Animation { key_frames: clone_key_frames(&self.key_frames) }
    }
}

impl Animation {
    pub fn new(key_frames: &Vec<KeyFrame>) -> (a: Animation)
        ensures
            same_key_frames(a.key_frames@, key_frames@),
    {
        Animation { key_frames: clone_key_frames(key_frames) }
    }

    /// Groups (time stamp, pose) samples into keyframes: one per distinct
    /// time stamp, in increasing time order, each carrying every pose sampled
    /// at that time in the order given.
    pub fn from_samples(samples: &Vec<(u32, JointTransform)>) -> (a: Animation)
        ensures
            groups_samples(a.key_frames@, samples@),
    {
        let mut kfs: Vec<KeyFrame> = Vec::new();
        let mut i: usize = 0;
        while i < samples.len()
            invariant
                i <= samples.len(),
                groups_samples(kfs@, samples@.subrange(0, i as int)),
            decreases samples.len() - i,
        {
            let ghost pre = samples@.subrange(0, i as int);
            let ghost next = samples@.subrange(0, i as int + 1);
            let ghost old_kfs = kfs@;
            proof {
                assert(next.drop_last() =~= pre);
                assert(next.last() == samples@[i as int]);
            }
            let t = samples[i].0;
            let mut k: usize = 0;
            while k < kfs.len() && kfs[k].time_stamp < t
                invariant
                    k <= kfs.len(),
                    kfs@ == old_kfs,
                    forall|m: int| 0 <= m < k ==> kfs@[m].time_stamp < t,
                decreases kfs.len() - k,
            {
                k = k + 1;
            }
            if k < kfs.len() && kfs[k].time_stamp == t {
                let mut kf = kfs.remove(k);
                kf.pose.push(samples[i].1.clone());
                kfs.insert(k, kf);
                proof {
                    assert forall|m: int| 0 <= m < kfs@.len() && m != k implies #[trigger] kfs@[m] == old_kfs[m] by {}
                    assert forall|m: int|
                        0 <= m < kfs@.len() implies (#[trigger] kfs@[m]).pose@ == poses_at(
                        next,
                        kfs@[m].time_stamp,
                    ) && kfs@[m].pose@.len() > 0 by {
                        if m != k {
                            assert(old_kfs[m].time_stamp != t);
                        }
                    }
                    assert forall|j: int|
                        0 <= j < next.len() implies exists|m: int|
                        0 <= m < kfs@.len() && (#[trigger] kfs@[m]).time_stamp == (#[trigger] next[j]).0 by {
                        if j < pre.len() {
                            assert(next[j] == pre[j]);
                            let m = choose|m: int|
                                0 <= m < old_kfs.len() && (#[trigger] old_kfs[m]).time_stamp == pre[j].0;
                            assert(kfs@[m].time_stamp == old_kfs[m].time_stamp);
                        } else {
                            assert(kfs@[k as int].time_stamp == next[j].0);
                        }
                    }
                }
            } else {
                let mut pose: Vec<JointTransform> = Vec::new();
                pose.push(samples[i].1.clone());
                kfs.insert(k, KeyFrame { time_stamp: t, pose });
                proof {
                    assert forall|j: int| 0 <= j < pre.len() implies pre[j].0 != t by {
                        let m = choose|m: int|
                            0 <= m < old_kfs.len() && (#[trigger] old_kfs[m]).time_stamp == (#[trigger] pre[j]).0;
                        if m < k {
                        } else {
                            assert(old_kfs[k as int].time_stamp > t);
                            if m > k {
                                assert(old_kfs[k as int].time_stamp < old_kfs[m].time_stamp);
                            }
                        }
                    }
                    lemma_poses_at_absent(pre, t);
                    assert(poses_at(next, t) =~= seq![samples@[i as int].1]);
                    assert forall|m: int| 0 <= m < k implies #[trigger] kfs@[m] == old_kfs[m] by {}
                    assert forall|m: int| k < m < kfs@.len() implies #[trigger] kfs@[m] == old_kfs[m - 1] by {}
                    assert forall|a: int, b: int| 0 <= a < b < kfs@.len() implies kfs@[a].time_stamp < kfs@[b].time_stamp by {
                        if a < k && b > k {
                            if k < old_kfs.len() {
                                assert(old_kfs[k as int].time_stamp >= t);
                            }
                        } else if a == k && b > k {
                            if b - 1 > k {
                                assert(old_kfs[k as int].time_stamp < old_kfs[b - 1].time_stamp);
                            }
                        }
                    }
                    assert forall|m: int|
                        0 <= m < kfs@.len() implies (#[trigger] kfs@[m]).pose@ == poses_at(
                        next,
                        kfs@[m].time_stamp,
                    ) && kfs@[m].pose@.len() > 0 by {
                        if m < k {
                            assert(old_kfs[m].time_stamp < t);
                        } else if m > k {
                            assert(old_kfs[m - 1].time_stamp != t) by {
                                if k < old_kfs.len() {
                                    assert(old_kfs[k as int].time_stamp > t);
                                    if m - 1 > k {
                                        assert(old_kfs[k as int].time_stamp < old_kfs[m - 1].time_stamp);
                                    }
                                }
                            }
                        }
                    }
                    assert forall|j: int|
                        0 <= j < next.len() implies exists|m: int|
                        0 <= m < kfs@.len() && (#[trigger] kfs@[m]).time_stamp == (#[trigger] next[j]).0 by {
                        if j < pre.len() {
                            assert(next[j] == pre[j]);
                            let m = choose|m: int|
                                0 <= m < old_kfs.len() && (#[trigger] old_kfs[m]).time_stamp == pre[j].0;
                            if m < k {
                                assert(kfs@[m] == old_kfs[m]);
                            } else {
                                assert(kfs@[m + 1] == old_kfs[m]);
                            }
                        } else {
                            assert(kfs@[k as int].time_stamp == next[j].0);
                        }
                    }
                }
            }
            i = i + 1;
        }
        proof {
            assert(samples@.subrange(0, i as int) =~= samples@);
        }
        Animation { key_frames: kfs }
    }
}

/// The samples of one animation channel: the joint it drives, named inside
/// `target`, and parallel lists of time stamps and local transform matrices.
pub struct ChannelSamples {
    pub target: String,
    pub times: Vec<u32>,
    pub transforms: Vec<Mat4>,
}

/// Why the channels of a clip could not be read.
#[derive(Clone, Copy, Debug, PartialEq, Eq, Structural)]
pub enum ClipError {
    /// No joint name occurs in the target of this channel.
    UnknownTarget(usize),
    /// This channel has fewer transforms than time stamps.
    MissingSamples(usize),
}

/// `needle` occurs in `hay` at position `i`.
pub open spec fn occurs_at(hay: Seq<u8>, needle: Seq<u8>, i: int) -> bool {
    0 <= i && i + needle.len() <= hay.len() && hay.subrange(i, i + needle.len()) == needle
}

/// The UTF-8 text of `name` occurs in that of `target`.
pub open spec fn names_in_target(target: Seq<char>, name: Seq<char>) -> bool {
    exists|i: int| occurs_at(encode_utf8(target), encode_utf8(name), i)
}

/// `k` is the first joint name that occurs in `target`.
pub open spec fn is_first_target_match(names: Seq<String>, target: Seq<char>, k: int) -> bool {
    &&& 0 <= k < names.len()
    &&& names_in_target(target, names[k]@)
    &&& forall|m: int| 0 <= m < k ==> !names_in_target(target, #[trigger] names[m]@)
}

pub open spec fn target_resolves(names: Seq<String>, target: Seq<char>) -> bool {
    exists|k: int| 0 <= k < names.len() && names_in_target(target, #[trigger] names[k]@)
}

pub open spec fn channel_ok(names: Seq<String>, ch: ChannelSamples) -> bool {
    target_resolves(names, ch.target@) && ch.transforms@.len() >= ch.times@.len()
}

/// How many samples the channels before `c` hold.
pub open spec fn sample_start(channels: Seq<ChannelSamples>, c: int) -> int
    decreases c,
{
    if c <= 0 {
        0
    } else {
        sample_start(channels, c - 1) + channels[c - 1].times@.len()
    }
}

fn occurs_here(hay: &[u8], needle: &[u8], i: usize) -> (r: bool)
    requires
        i + needle@.len() <= hay@.len(),
    ensures
        r == occurs_at(hay@, needle@, i as int),
{
    let hl = hay.len();
    let mut j: usize = 0;
    while j < needle.len()
        invariant
            hl == hay@.len(),
            i + needle@.len() <= hay@.len(),
            j <= needle@.len(),
            forall|q: int| 0 <= q < j ==> hay@[i + q] == needle@[q],
        decreases needle@.len() - j,
    {
        if hay[i + j] != needle[j] {
            assert(hay@.subrange(i as int, i + needle@.len())[j as int] != needle@[j as int]);
            return false;
        }
        j = j + 1;
    }
    assert(hay@.subrange(i as int, i + needle@.len()) =~= needle@);
    true
}

fn occurs_in(hay: &[u8], needle: &[u8]) -> (r: bool)
    ensures
        r == exists|i: int| occurs_at(hay@, needle@, i),
{
    if needle.len() > hay.len() {
        return false;
    }
    let last = hay.len() - needle.len();
    let mut i: usize = 0;
    while i < last
        invariant
            i <= last,
            last == hay@.len() - needle@.len(),
            forall|p: int| 0 <= p < i ==> !occurs_at(hay@, needle@, p),
        decreases last - i,
    {
        if occurs_here(hay, needle, i) {
            return true;
        }
        i = i + 1;
    }
    if occurs_here(hay, needle, last) {
        return true;
    }
    assert forall|p: int| !occurs_at(hay@, needle@, p) by {
        if 0 <= p && p + needle@.len() <= hay@.len() {
            assert(p <= last);
        }
    }
    false
}

/// The first joint name that occurs in `target`.
fn resolve_target(target: &String, names: &Vec<String>) -> (r: Option<usize>)
    ensures
        r matches Some(k) ==> is_first_target_match(names@, target@, k as int),
        r is None ==> !target_resolves(names@, target@),
{
    let hay = target.as_str().as_bytes();
    let mut k: usize = 0;
    while k < names.len()
        invariant
            k <= names@.len(),
            hay@ == encode_utf8(target@),
            forall|m: int| 0 <= m < k ==> !names_in_target(target@, #[trigger] names@[m]@),
        decreases names@.len() - k,
    {
        if occurs_in(hay, names[k].as_str().as_bytes()) {
            return Some(k);
        }
        k = k + 1;
    }
    None
}

/// Reads every channel's samples, in channel order, as (time stamp, pose)
/// pairs: each transform is reduced to its translation and rotation and
/// credited to the first joint name that occurs in the channel's target.
/// Transforms beyond the number of time stamps are ignored. Fails at the
/// first channel whose target names no joint or that has too few transforms.
pub fn collect_samples(channels: &Vec<ChannelSamples>, bone_names: &Vec<String>) -> (r: Result<
    Vec<(u32, JointTransform)>,
    ClipError,
>)
    ensures
        r is Ok <==> forall|c: int|
            0 <= c < channels@.len() ==> channel_ok(bone_names@, #[trigger] channels@[c]),
        r matches Ok(out) ==> {
            &&& out@.len() == sample_start(channels@, channels@.len() as int)
            &&& forall|c: int, i: int, k: int|
                #![trigger out@[sample_start(channels@, c) + i], is_first_target_match(bone_names@, channels@[c].target@, k)]
                0 <= c < channels@.len() && 0 <= i < channels@[c].times@.len()
                    && is_first_target_match(bone_names@, channels@[c].target@, k) ==> {
                    let s = out@[sample_start(channels@, c) + i];
                    &&& s.0 == channels@[c].times@[i]
                    &&& s.1.joint_name@ == bone_names@[k]@
                    &&& s.1.position == scale_rotation_translation(channels@[c].transforms@[i]).2
                    &&& s.1.rotation == scale_rotation_translation(channels@[c].transforms@[i]).1
                }
        },
        r matches Err(ClipError::UnknownTarget(c)) ==> {
            &&& c < channels@.len()
            &&& !target_resolves(bone_names@, channels@[c as int].target@)
            &&& forall|d: int| 0 <= d < c ==> channel_ok(bone_names@, #[trigger] channels@[d])
        },
        r matches Err(ClipError::MissingSamples(c)) ==> {
            &&& c < channels@.len()
            &&& target_resolves(bone_names@, channels@[c as int].target@)
            &&& channels@[c as int].transforms@.len() < channels@[c as int].times@.len()
            &&& forall|d: int| 0 <= d < c ==> channel_ok(bone_names@, #[trigger] channels@[d])
        },
{
    let mut out: Vec<(u32, JointTransform)> = Vec::new();
    let mut c: usize = 0;
    while c < channels.len()
        invariant
            c <= channels@.len(),
            out@.len() == sample_start(channels@, c as int),
            forall|d: int| 0 <= d < c ==> channel_ok(bone_names@, #[trigger] channels@[d]),
            forall|d: int, i: int, k: int|
                #![trigger out@[sample_start(channels@, d) + i], is_first_target_match(bone_names@, channels@[d].target@, k)]
                0 <= d < c && 0 <= i < channels@[d].times@.len()
                    && is_first_target_match(bone_names@, channels@[d].target@, k) ==> {
                    let s = out@[sample_start(channels@, d) + i];
                    &&& s.0 == channels@[d].times@[i]
                    &&& s.1.joint_name@ == bone_names@[k]@
                    &&& s.1.position == scale_rotation_translation(channels@[d].transforms@[i]).2
                    &&& s.1.rotation == scale_rotation_translation(channels@[d].transforms@[i]).1
                },
        decreases channels@.len() - c,
    {
        let ch = &channels[c];
        let k = match resolve_target(&ch.target, bone_names) {
            Some(k) => k,
            None => {
                assert(!channel_ok(bone_names@, channels@[c as int]));
                return Err(ClipError::UnknownTarget(c));
            },
        };
        if ch.transforms.len() < ch.times.len() {
            assert(!channel_ok(bone_names@, channels@[c as int]));
            return Err(ClipError::MissingSamples(c));
        }
        let ghost before = out@;
        let mut i: usize = 0;
        while i < ch.times.len()
            invariant
                c < channels@.len(),
                *ch == channels@[c as int],
                is_first_target_match(bone_names@, ch.target@, k as int),
                ch.transforms@.len() >= ch.times@.len(),
                i <= ch.times@.len(),
                out@.len() == before.len() + i,
                before.len() == sample_start(channels@, c as int),
                forall|m: int| 0 <= m < before.len() ==> #[trigger] out@[m] == before[m],
                forall|m: int|
                    0 <= m < i ==> {
                        let s = #[trigger] out@[before.len() + m];
                        &&& s.0 == ch.times@[m]
                        &&& s.1.joint_name@ == bone_names@[k as int]@
                        &&& s.1.position == scale_rotation_translation(ch.transforms@[m]).2
                        &&& s.1.rotation == scale_rotation_translation(ch.transforms@[m]).1
                    },
            decreases ch.times@.len() - i,
        {
            let t = JointTransform::from_matrix(bone_names[k].as_str(), &ch.transforms[i]);
            out.push((ch.times[i], t));
            i = i + 1;
        }
        proof {
            assert forall|d: int, i: int, kk: int|
                #![trigger out@[sample_start(channels@, d) + i], is_first_target_match(bone_names@, channels@[d].target@, kk)]
                0 <= d < c + 1 && 0 <= i < channels@[d].times@.len()
                    && is_first_target_match(bone_names@, channels@[d].target@, kk) implies {
                    let s = out@[sample_start(channels@, d) + i];
                    &&& s.0 == channels@[d].times@[i]
                    &&& s.1.joint_name@ == bone_names@[kk]@
                    &&& s.1.position == scale_rotation_translation(channels@[d].transforms@[i]).2
                    &&& s.1.rotation == scale_rotation_translation(channels@[d].transforms@[i]).1
                } by {
                if d < c {
                    lemma_start_grows(channels@, d + 1, c as int);
                    lemma_start_grows(channels@, 0, d);
                    assert(sample_start(channels@, d + 1) == sample_start(channels@, d) + channels@[d].times@.len());
                    assert(sample_start(channels@, d) + i < before.len());
                    assert(out@[sample_start(channels@, d) + i] == before[sample_start(channels@, d) + i]);
                } else {
                    if kk != k {
                        if kk < k {
                            assert(!names_in_target(channels@[d].target@, bone_names@[kk]@));
                        } else {
                            assert(!names_in_target(channels@[d].target@, bone_names@[k as int]@));
                        }
                    }
                    assert(out@[before.len() + i] == out@[sample_start(channels@, d) + i]);
                }
            }
        }
        c = c + 1;
    }
    Ok(out)
}

proof fn lemma_start_grows(channels: Seq<ChannelSamples>, a: int, b: int)
    requires
        0 <= a <= b <= channels.len(),
    ensures
        sample_start(channels, a) <= sample_start(channels, b),
    decreases b - a,
{
    if a < b {
        lemma_start_grows(channels, a, b - 1);
    }
}

} // verus!
