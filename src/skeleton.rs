//! The joint hierarchy of a skinned mesh, stored as an arena in pre-order,
//! with its bind pose and the per-frame skinning matrices.
use vstd::prelude::*;
use glam::Mat4;
use crate::linalg::{identity_matrix, mat4_inverse, mat4_product};

verus! {

/// One joint of a skeleton. `parent` is the arena index of the parent joint,
/// `None` for the root.
pub struct Joint {
    pub id: i32,
    pub name: String,
    pub parent: Option<usize>,
    pub local_bind_transform: Mat4,
    pub inverse_bind_transform: Mat4,
    pub animation_transform: Mat4,
}

impl Joint {
    /// A parentless joint with identity transforms.
    pub fn new(id: i32, name: &str) -> (j: Joint)
        ensures
            j.id == id,
            j.name@ == name@,
            j.parent is None,
    {
        let m = identity_matrix();
        Joint {
            id,
            name: name.to_owned(),
            parent: None,
            local_bind_transform: m,
            inverse_bind_transform: m,
            animation_transform: m,
        }
    }
}

impl Clone for Joint {
    fn clone(&self) -> (r: Self)
        ensures
            r == *self,
    {
        Joint {
            id: self.id,
            name: self.name.clone(),
            parent: self.parent,
            local_bind_transform: self.local_bind_transform,
            inverse_bind_transform: self.inverse_bind_transform,
            animation_transform: self.animation_transform,
        }
    }
}

/// Why a skeleton could not be built or bound.
#[derive(Debug, Clone, PartialEq, Eq)]
pub enum SkeletonError {
    /// The node the skeleton is built from is not a joint.
    RootNotJoint,
    /// A joint's name is missing from the skin's bone-name table.
    UnknownJoint(String),
    /// The global bind transform of the joint at this arena index has no
    /// finite inverse.
    SingularBindTransform(usize),
}

/// The parent index of joint `j`, or -1 for a joint without one.
pub open spec fn parent_of(js: Seq<Joint>, j: int) -> int {
    match js[j].parent {
        Some(p) => p as int,
        None => -1,
    }
}

/// Joint `j` sits correctly in a pre-order listing: it has a parent before it,
/// and every joint between the parent and `j` lies in the parent's subtree.
pub open spec fn placed_in_preorder(js: Seq<Joint>, j: int) -> bool {
    &&& js[j].parent is Some
    &&& 0 <= parent_of(js, j) < j
    &&& forall|k: int| parent_of(js, j) < k < j ==> parent_of(js, k) >= parent_of(js, j)
}

/// A single-rooted tree listed in pre-order: the root first, then each
/// subtree contiguously after its parent.
pub open spec fn is_preorder_tree(js: Seq<Joint>) -> bool {
    &&& js.len() >= 1
    &&& js[0].parent is None
    &&& forall|j: int| 1 <= j < js.len() ==> #[trigger] placed_in_preorder(js, j)
}

/// A joint may be given a new last child in pre-order when every joint after
/// it lies in its subtree.
pub open spec fn can_take_child(js: Seq<Joint>, p: int) -> bool {
    &&& 0 <= p < js.len()
    &&& forall|k: int| p < k < js.len() ==> parent_of(js, k) >= p
}

/// The global transform of joint `j` when every joint `k` has local transform
/// `locals[k]`: the parent's global transform times the local one; the root's
/// parent counts as the identity.
pub open spec fn chained_transform(js: Seq<Joint>, locals: Seq<Mat4>, j: int) -> Mat4
    decreases j,
{
    match js[j].parent {
        Some(p) => if 0 <= p < j {
            mat4_product(chained_transform(js, locals, p as int), locals[j])
        } else {
            locals[j]
        },
        None => locals[j],
    }
}

pub open spec fn bind_locals(js: Seq<Joint>) -> Seq<Mat4> {
    js.map_values(|j: Joint| j.local_bind_transform)
}

/// The global bind transform of joint `j`.
pub open spec fn global_bind_transform(js: Seq<Joint>, j: int) -> Mat4 {
    chained_transform(js, bind_locals(js), j)
}

/// All of a joint's fields but its inverse bind transform agree.
pub open spec fn same_but_inverse_bind(a: Joint, b: Joint) -> bool {
    &&& a.id == b.id
    &&& a.name == b.name
    &&& a.parent == b.parent
    &&& a.local_bind_transform == b.local_bind_transform
    &&& a.animation_transform == b.animation_transform
}

/// All of a joint's fields but its animation transform agree.
pub open spec fn same_but_animation(a: Joint, b: Joint) -> bool {
    &&& a.id == b.id
    &&& a.name == b.name
    &&& a.parent == b.parent
    &&& a.local_bind_transform == b.local_bind_transform
    &&& a.inverse_bind_transform == b.inverse_bind_transform
}

/// The joints of one skeleton, root first, in pre-order. The arena index of a
/// joint is its place in the matrix palette handed to the renderer.
pub struct Skeleton {
    pub joints: Vec<Joint>,
}

impl Skeleton {
    pub open spec fn wf(&self) -> bool {
        is_preorder_tree(self.joints@)
    }

    /// A skeleton of one joint.
    pub fn new(root: Joint) -> (s: Skeleton)
        ensures
            s.wf(),
            s.joints@.len() == 1,
            s.joints@[0] == (Joint { parent: None, ..root }),
    {
        let mut root = root;
        root.parent = None;
        let mut joints: Vec<Joint> = Vec::new();
        joints.push(root);
        Skeleton { joints }
    }

    /// Whether `parent` may take a new last child without breaking the
    /// pre-order: every joint after it must lie in its subtree.
    pub fn can_add_child(&self, parent: usize) -> (r: bool)
        ensures
            r == can_take_child(self.joints@, parent as int),
    {
        if parent >= self.joints.len() {
            return false;
        }
        let mut k: usize = parent + 1;
        while k < self.joints.len()
            invariant
                parent < k <= self.joints.len(),
                forall|m: int| parent < m < k ==> parent_of(self.joints@, m) >= parent,
            decreases self.joints.len() - k,
        {
            match self.joints[k].parent {
                Some(p) => {
                    if p < parent {
                        assert(parent_of(self.joints@, k as int) < parent);
                        return false;
                    }
                },
                None => {
                    assert(parent_of(self.joints@, k as int) == -1);
                    return false;
                },
            }
            k = k + 1;
        }
        true
    }

    /// Appends `child` as the last child of `parent` and returns its index.
    pub fn add_child(&mut self, parent: usize, child: Joint) -> (idx: usize)
        requires
            old(self).wf(),
            can_take_child(old(self).joints@, parent as int),
        ensures
            final(self).wf(),
            idx == old(self).joints@.len(),
            final(self).joints@ == old(self).joints@.push(
                Joint { parent: Some(parent), ..child },
            ),
    {
        let mut child = child;
        child.parent = Some(parent);
        let idx = self.joints.len();
        self.joints.push(child);
        proof {
            let js = self.joints@;
            assert forall|j: int| 1 <= j < js.len() implies #[trigger] placed_in_preorder(js, j) by {
                if j < idx {
                    assert(placed_in_preorder(old(self).joints@, j));
                    assert forall|k: int| parent_of(js, j) < k < j implies parent_of(js, k)
                        >= parent_of(js, j) by {
                        assert(parent_of(js, k) == parent_of(old(self).joints@, k));
                    }
                } else {
                    assert forall|k: int| parent_of(js, j) < k < j implies parent_of(js, k)
                        >= parent_of(js, j) by {
                        assert(parent_of(js, k) == parent_of(old(self).joints@, k));
                    }
                }
            }
        }
        idx
    }

    /// Computes every joint's inverse bind transform from the local bind
    /// transforms, parents before children. On failure the skeleton is left
    /// as it was.
    pub fn calculate_inverse_bind_transform(&mut self) -> (r: Result<(), SkeletonError>)
        requires
            old(self).wf(),
        ensures
            final(self).wf(),
            final(self).joints@.len() == old(self).joints@.len(),
            r is Ok <==> forall|j: int|
                0 <= j < old(self).joints@.len() ==> mat4_inverse(
                    #[trigger] global_bind_transform(old(self).joints@, j),
                ) is Some,
            r is Ok ==> forall|j: int|
                0 <= j < old(self).joints@.len() ==> same_but_inverse_bind(
                    #[trigger] final(self).joints@[j],
                    old(self).joints@[j],
                ) && Some(final(self).joints@[j].inverse_bind_transform) == mat4_inverse(
                    global_bind_transform(old(self).joints@, j),
                ),
            r matches Err(SkeletonError::SingularBindTransform(j)) ==> {
                &&& 0 <= j < old(self).joints@.len()
                &&& mat4_inverse(global_bind_transform(old(self).joints@, j as int)) is None
                &&& forall|k: int|
                    0 <= k < j ==> mat4_inverse(#[trigger] global_bind_transform(old(self).joints@, k)) is Some
            },
            r is Err ==> (r matches Err(SkeletonError::SingularBindTransform(_))),
            r is Err ==> *final(self) == *old(self),
    {
        let n = self.joints.len();
        let ghost js = self.joints@;
        let mut globals: Vec<Mat4> = Vec::new();
        let mut inverses: Vec<Mat4> = Vec::new();
        let mut j: usize = 0;
        while j < n
            invariant
                n == js.len(),
                js == self.joints@,
                is_preorder_tree(js),
                j <= n,
                globals@.len() == j,
                inverses@.len() == j,
                forall|k: int| 0 <= k < j ==> #[trigger] globals@[k] == global_bind_transform(js, k),
                forall|k: int|
                    0 <= k < j ==> mat4_inverse(#[trigger] global_bind_transform(js, k)) == Some(
                        inverses@[k],
                    ),
            decreases n - j,
        {
            let g = match self.joints[j].parent {
                Some(p) => {
                    proof {
                        assert(placed_in_preorder(js, j as int));
                    }
                    globals[p].mul_mat4(&self.joints[j].local_bind_transform)
                },
                None => self.joints[j].local_bind_transform,
            };
            assert(g == global_bind_transform(js, j as int));
            match g.try_inverse() {
                Some(inv) => {
                    globals.push(g);
                    inverses.push(inv);
                },
                None => {
                    return Err(SkeletonError::SingularBindTransform(j));
                },
            }
            j = j + 1;
        }
        let mut j: usize = 0;
        while j < n
            invariant
                n == js.len(),
                inverses@.len() == n,
                self.joints@.len() == n,
                is_preorder_tree(js),
                j <= n,
                forall|k: int|
                    0 <= k < n ==> mat4_inverse(#[trigger] global_bind_transform(js, k)) == Some(
                        inverses@[k],
                    ),
                forall|k: int|
                    0 <= k < j ==> same_but_inverse_bind(#[trigger] self.joints@[k], js[k])
                        && self.joints@[k].inverse_bind_transform == inverses@[k],
                forall|k: int| j <= k < n ==> #[trigger] self.joints@[k] == js[k],
            decreases n - j,
        {
            self.joints[j].inverse_bind_transform = inverses[j];
            j = j + 1;
        }
        proof {
            lemma_preorder_depends_on_parents(js, self.joints@);
        }
        Ok(())
    }

    /// Sets every joint's animation transform from a local pose: with `g` the
    /// global transform chained from `locals` down the hierarchy, joint `j`
    /// gets `g[j] * inverse_bind[j]`. All matrices are computed before any is
    /// published.
    pub fn apply_local_pose(&mut self, locals: &Vec<Mat4>)
        requires
            old(self).wf(),
            locals@.len() == old(self).joints@.len(),
        ensures
            final(self).wf(),
            final(self).joints@.len() == old(self).joints@.len(),
            forall|j: int|
                0 <= j < old(self).joints@.len() ==> same_but_animation(
                    #[trigger] final(self).joints@[j],
                    old(self).joints@[j],
                ) && final(self).joints@[j].animation_transform == mat4_product(
                    chained_transform(old(self).joints@, locals@, j),
                    old(self).joints@[j].inverse_bind_transform,
                ),
    {
        let n = self.joints.len();
        let ghost js = self.joints@;
        let mut globals: Vec<Mat4> = Vec::new();
        let mut j: usize = 0;
        while j < n
            invariant
                n == js.len(),
                js == self.joints@,
                locals@.len() == n,
                is_preorder_tree(js),
                j <= n,
                globals@.len() == j,
                forall|k: int|
                    0 <= k < j ==> #[trigger] globals@[k] == chained_transform(js, locals@, k),
            decreases n - j,
        {
            let g = match self.joints[j].parent {
                Some(p) => {
                    proof {
                        assert(placed_in_preorder(js, j as int));
                    }
                    globals[p].mul_mat4(&locals[j])
                },
                None => locals[j],
            };
            globals.push(g);
            j = j + 1;
        }
        let mut j: usize = 0;
        while j < n
            invariant
                n == js.len(),
                globals@.len() == n,
                self.joints@.len() == n,
                is_preorder_tree(js),
                j <= n,
                forall|k: int|
                    0 <= k < n ==> #[trigger] globals@[k] == chained_transform(js, locals@, k),
                forall|k: int|
                    0 <= k < j ==> same_but_animation(#[trigger] self.joints@[k], js[k])
                        && self.joints@[k].animation_transform == mat4_product(
                        globals@[k],
                        js[k].inverse_bind_transform,
                    ),
                forall|k: int| j <= k < n ==> #[trigger] self.joints@[k] == js[k],
            decreases n - j,
        {
            let m = globals[j].mul_mat4(&self.joints[j].inverse_bind_transform);
            self.joints[j].animation_transform = m;
            j = j + 1;
        }
        proof {
            lemma_preorder_depends_on_parents(js, self.joints@);
        }
    }

    /// The joints in pre-order (root first, each subtree after its parent).
    pub fn flatten(&self) -> (r: Vec<Joint>)
        ensures
            r@ == self.joints@,
    {
        let mut r: Vec<Joint> = Vec::new();
        let mut j: usize = 0;
        while j < self.joints.len()
            invariant
                j <= self.joints.len(),
                r@ == self.joints@.subrange(0, j as int),
            decreases self.joints.len() - j,
        {
            r.push(self.joints[j].clone());
            j = j + 1;
            assert(r@ =~= self.joints@.subrange(0, j as int));
        }
        assert(r@ =~= self.joints@);
        r
    }

    /// The skinning-matrix palette: each joint's animation transform, in
    /// pre-order.
    pub fn get_global_transform_matrices(&self) -> (r: Vec<Mat4>)
        ensures
            r@ == self.joints@.map_values(|j: Joint| j.animation_transform),
    {
        let mut r: Vec<Mat4> = Vec::new();
        let mut j: usize = 0;
        while j < self.joints.len()
            invariant
                j <= self.joints.len(),
                r@ == self.joints@.subrange(0, j as int).map_values(|j: Joint| j.animation_transform),
            decreases self.joints.len() - j,
        {
            r.push(self.joints[j].animation_transform);
            j = j + 1;
            assert(r@ =~= self.joints@.subrange(0, j as int).map_values(
                |j: Joint| j.animation_transform,
            ));
        }
        assert(self.joints@.subrange(0, j as int) =~= self.joints@);
        r
    }
}

/// The tree shape is a matter of the parent links alone.
proof fn lemma_preorder_depends_on_parents(a: Seq<Joint>, b: Seq<Joint>)
    requires
        is_preorder_tree(a),
        a.len() == b.len(),
        forall|k: int| 0 <= k < a.len() ==> #[trigger] b[k].parent == a[k].parent,
    ensures
        is_preorder_tree(b),
{
    assert forall|j: int| 1 <= j < b.len() implies #[trigger] placed_in_preorder(b, j) by {
        assert(placed_in_preorder(a, j));
        assert(b[j].parent == a[j].parent);
        assert forall|k: int| parent_of(b, j) < k < j implies parent_of(b, k) >= parent_of(b, j) by {
            assert(b[k].parent == a[k].parent);
            assert(parent_of(b, k) == parent_of(a, k));
            assert(parent_of(a, j) < k < j);
            assert(parent_of(a, k) >= parent_of(a, j));
        }
    }
}

} // verus!
