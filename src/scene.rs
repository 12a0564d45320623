//! Assembling a skeleton from the node hierarchy of a scene document.
use vstd::prelude::*;
use glam::Mat4;
use crate::linalg::{mat4_inverse, mat4_product};
use crate::skeleton::{
    bind_locals, can_take_child, global_bind_transform, is_preorder_tree, parent_of,
    placed_in_preorder, Joint, Skeleton, SkeletonError,
};

verus! {

/// A node of a scene hierarchy: its name, whether the document marks it as a
/// skeletal joint, its authored local transform (the identity where none is
/// authored), and its child nodes.
pub struct SceneNode {
    pub name: String,
    pub is_joint: bool,
    pub transform: Mat4,
    pub children: Vec<SceneNode>,
}

/// The joint nodes under `nodes` in pre-order, each with the arena index of
/// its parent joint, when the joints are listed from index `base` on and the
/// top-level ones hang under `parent`. A node that is not a joint is left out
/// together with everything under it.
pub open spec fn preorder_entries(nodes: Seq<SceneNode>, parent: int, base: int) -> Seq<
    (SceneNode, int),
>
    decreases nodes,
{
    if nodes.len() == 0 {
        Seq::empty()
    } else {
        let last = nodes.last();
        let front = preorder_entries(nodes.drop_last(), parent, base);
        if last.is_joint {
            let idx = base + front.len();
            front + seq![(last, parent)] + preorder_entries(last.children@, idx, idx + 1)
        } else {
            front
        }
    }
}

/// `i` is the first place in `names` that holds `name`.
pub open spec fn is_first_match(names: Seq<String>, name: Seq<char>, i: int) -> bool {
    &&& 0 <= i < names.len()
    &&& names[i]@ == name
    &&& forall|k: int| 0 <= k < i ==> names[k]@ != name
}

pub open spec fn is_known(names: Seq<String>, name: Seq<char>) -> bool {
    exists|k: int| 0 <= k < names.len() && names[k]@ == name
}

/// Every node of the listing has its name in `names`.
pub open spec fn all_known(entries: Seq<(SceneNode, int)>, names: Seq<String>) -> bool {
    forall|i: int| 0 <= i < entries.len() ==> is_known(names, #[trigger] entries[i].0.name@)
}

/// Joint `j` is the joint made from scene node `n` hanging under `parent`.
pub open spec fn made_from(j: Joint, n: SceneNode, parent: int, names: Seq<String>) -> bool {
    &&& j.name@ == n.name@
    &&& is_first_match(names, n.name@, j.id as int)
    &&& j.local_bind_transform == n.transform
    &&& parent == (match j.parent {
        Some(p) => p as int,
        None => -1,
    })
}

/// The global bind transform of the `j`-th joint of a listing: its parent's
/// times its own local transform; a joint without a parent keeps its local one.
pub open spec fn entry_global(es: Seq<(SceneNode, int)>, j: int) -> Mat4
    decreases j,
{
    if 0 <= es[j].1 < j {
        mat4_product(entry_global(es, es[j].1), es[j].0.transform)
    } else {
        es[j].0.transform
    }
}

/// A skeleton made from a listing has the listing's global bind transforms.
proof fn lemma_global_bind_of_listing(js: Seq<Joint>, es: Seq<(SceneNode, int)>, names: Seq<String>, j: int)
    requires
        is_preorder_tree(js),
        js.len() == es.len(),
        0 <= j < js.len(),
        forall|i: int| 0 <= i < es.len() ==> made_from(#[trigger] js[i], es[i].0, es[i].1, names),
    ensures
        global_bind_transform(js, j) == entry_global(es, j),
    decreases j,
{
    assert(made_from(js[j], es[j].0, es[j].1, names));
    assert(bind_locals(js)[j] == es[j].0.transform);
    if j > 0 {
        assert(placed_in_preorder(js, j));
        let p = parent_of(js, j);
        lemma_global_bind_of_listing(js, es, names, p);
    }
}

/// The listing of a concatenation is the concatenation of the listings.
proof fn lemma_entries_concat(a: Seq<SceneNode>, b: Seq<SceneNode>, parent: int, base: int)
    ensures
        preorder_entries(a + b, parent, base) == preorder_entries(a, parent, base)
            + preorder_entries(b, parent, base + preorder_entries(a, parent, base).len()),
    decreases b.len(),
{
    if b.len() == 0 {
        assert(a + b =~= a);
        assert(preorder_entries(a, parent, base) + Seq::<(SceneNode, int)>::empty() =~= preorder_entries(a, parent, base));
    } else {
        let ab = a + b;
        assert(ab.drop_last() =~= a + b.drop_last());
        assert(ab.last() == b.last());
        lemma_entries_concat(a, b.drop_last(), parent, base);
        let ea = preorder_entries(a, parent, base);
        let eb1 = preorder_entries(b.drop_last(), parent, base + ea.len());
        if b.last().is_joint {
            let idx = base + ea.len() + eb1.len();
            let tail = preorder_entries(b.last().children@, idx, idx + 1);
            assert(ea + eb1 + seq![(b.last(), parent)] + tail =~= ea + (eb1 + seq![(b.last(), parent)] + tail));
        }
    }
}

/// The first place in `names` that holds `name`.
fn find_bone(names: &Vec<String>, name: &String) -> (r: Option<usize>)
    ensures
        r matches Some(i) ==> is_first_match(names@, name@, i as int),
        r is None ==> !is_known(names@, name@),
{
    let mut i: usize = 0;
    while i < names.len()
        invariant
            i <= names.len(),
            forall|k: int| 0 <= k < i ==> names@[k]@ != name@,
        decreases names.len() - i,
    {
        if names[i] == *name {
            return Some(i);
        }
        i = i + 1;
    }
    None
}

/// Appends the joints under `children`, in pre-order, below joint `parent`.
fn push_joint_children(
    joints: &mut Vec<Joint>,
    children: &Vec<SceneNode>,
    parent: usize,
    names: &Vec<String>,
) -> (r: Result<(), SkeletonError>)
    requires
        is_preorder_tree(old(joints)@),
        can_take_child(old(joints)@, parent as int),
        names@.len() <= i32::MAX,
    ensures
        r is Ok <==> all_known(
            preorder_entries(children@, parent as int, old(joints)@.len() as int),
            names@,
        ),
        r is Err ==> (r matches Err(SkeletonError::UnknownJoint(_))),
        r is Ok ==> {
            let es = preorder_entries(children@, parent as int, old(joints)@.len() as int);
            &&& is_preorder_tree(final(joints)@)
            &&& final(joints)@.len() == old(joints)@.len() + es.len()
            &&& final(joints)@.subrange(0, old(joints)@.len() as int) == old(joints)@
            &&& forall|i: int|
                0 <= i < es.len() ==> made_from(
                    #[trigger] final(joints)@[old(joints)@.len() + i],
                    es[i].0,
                    es[i].1,
                    names@,
                )
            &&& forall|k: int|
                old(joints)@.len() <= k < final(joints)@.len() ==> parent_of(final(joints)@, k)
                    >= parent
        },
    decreases children@,
{
    let ghost js0 = joints@;
    let ghost base = js0.len() as int;
    let mut i: usize = 0;
    while i < children.len()
        invariant
            i <= children@.len(),
            names@.len() <= i32::MAX,
            is_preorder_tree(joints@),
            can_take_child(joints@, parent as int),
            joints@.subrange(0, base) == js0,
            base == js0.len(),
            js0 == old(joints)@,
            ({
                let es = preorder_entries(children@.subrange(0, i as int), parent as int, base);
                &&& all_known(es, names@)
                &&& joints@.len() == base + es.len()
                &&& forall|k: int|
                    0 <= k < es.len() ==> made_from(
                        #[trigger] joints@[base + k],
                        es[k].0,
                        es[k].1,
                        names@,
                    )
            }),
            forall|k: int| base <= k < joints@.len() ==> parent_of(joints@, k) >= parent,
        decreases children@.len() - i,
    {
        let ghost pre = children@.subrange(0, i as int);
        let ghost next = children@.subrange(0, i as int + 1);
        proof {
            assert(next.drop_last() =~= pre);
            assert(next.last() == children@[i as int]);
        }
        let child = &children[i];
        if child.is_joint {
            let id = match find_bone(names, &child.name) {
                Some(id) => id,
                None => {
                    proof {
                        let es = preorder_entries(next, parent as int, base);
                        let front = preorder_entries(pre, parent as int, base);
                        let idx = base + front.len();
                        assert(es == front + seq![(*child, parent as int)] + preorder_entries(child.children@, idx, idx + 1));
                        assert(es[front.len() as int].0 == *child);
                        assert(!is_known(names@, child.name@));
                        lemma_unknown_in_prefix(children@, i as int + 1, parent as int, base, front.len() as int, names@);
                        assert(!all_known(preorder_entries(children@, parent as int, base), names@));
                    }
                    return Err(SkeletonError::UnknownJoint(child.name.clone()));
                },
            };
            let ghost before = joints@;
            let mut joint = Joint::new(id as i32, child.name.as_str());
            joint.local_bind_transform = child.transform;
            joint.parent = Some(parent);
            let idx = joints.len();
            joints.push(joint);
            proof {
                let js = joints@;
                assert forall|k: int| 1 <= k < js.len() implies #[trigger] placed_in_preorder(js, k) by {
                    assert forall|m: int| 0 <= m < idx implies #[trigger] js[m] == before[m] by {}
                    if k < idx {
                        assert(placed_in_preorder(before, k));
                        assert forall|m: int| parent_of(js, k) < m < k implies parent_of(js, m)
                            >= parent_of(js, k) by {
                            assert(parent_of(js, m) == parent_of(before, m));
                        }
                    } else {
                        assert forall|m: int| parent_of(js, k) < m < k implies parent_of(js, m)
                            >= parent_of(js, k) by {
                            assert(parent_of(js, m) == parent_of(before, m));
                        }
                    }
                }
                assert(joints@.subrange(0, base) =~= before.subrange(0, base));
            }
            let ghost mid = joints@;
            let res = push_joint_children(joints, &child.children, idx, names);
            match res {
                Ok(()) => {},
                Err(e) => {
                    proof {
                        let front = preorder_entries(pre, parent as int, base);
                        let sub = preorder_entries(child.children@, idx as int, idx as int + 1);
                        let es = preorder_entries(next, parent as int, base);
                        assert(es == front + seq![(*child, parent as int)] + sub);
                        let w = choose|w: int| 0 <= w < sub.len() && !is_known(names@, #[trigger] sub[w].0.name@);
                        assert(es[front.len() + 1 + w] == sub[w]);
                        lemma_unknown_in_prefix(children@, i as int + 1, parent as int, base, front.len() + 1 + w, names@);
                    }
                    return Err(e);
                },
            }
            proof {
                let front = preorder_entries(pre, parent as int, base);
                let sub = preorder_entries(child.children@, idx as int, idx as int + 1);
                let es = preorder_entries(next, parent as int, base);
                assert(es == front + seq![(*child, parent as int)] + sub);
                assert(idx == base + front.len());
                let js = joints@;
                assert forall|k: int| 0 <= k < idx implies #[trigger] js[k] == mid[k] by {
                    assert(js.subrange(0, mid.len() as int)[k] == mid[k]);
                }
                assert(js[idx as int] == mid[idx as int]);
                assert forall|k: int| 0 <= k < es.len() implies made_from(
                    #[trigger] js[base + k],
                    es[k].0,
                    es[k].1,
                    names@,
                ) by {
                    if k < front.len() {
                        assert(js[base + k] == mid[base + k]);
                    } else if k == front.len() {
                    } else {
                        assert(js[base + k] == js[idx + 1 + (k - front.len() - 1)]);
                    }
                }
                assert forall|k: int| 0 <= k < es.len() implies is_known(names@, #[trigger] es[k].0.name@) by {
                    if k < front.len() {
                    } else if k == front.len() {
                        assert(names@[id as int]@ == child.name@);
                    } else {
                        assert(es[k] == sub[k - front.len() - 1]);
                    }
                }
                assert(js.subrange(0, base) =~= js0) by {
                    assert forall|k: int| 0 <= k < base implies js.subrange(0, base)[k] == js0[k] by {
                        assert(js[k] == mid[k]);
                        assert(mid.subrange(0, base)[k] == js0[k]);
                    }
                }
                assert forall|k: int| 0 <= k < idx implies #[trigger] mid[k] == before[k] by {}
                assert(mid[idx as int].parent == Some(parent));
                assert forall|k: int| base <= k < js.len() implies parent_of(js, k) >= parent by {
                    if k < idx {
                        assert(js[k] == mid[k]);
                        assert(parent_of(before, k) >= parent);
                    } else if k == idx {
                        assert(js[k] == mid[k]);
                    } else {
                        assert(parent_of(js, k) >= idx);
                    }
                }
                assert forall|m: int| parent < m < js.len() implies parent_of(js, m) >= parent by {
                    if m < base {
                        assert(js[m] == mid[m]);
                        assert(mid[m] == before[m]);
                        assert(parent_of(before, m) >= parent);
                    }
                }
            }
        } else {
            proof {
                assert(preorder_entries(next, parent as int, base) == preorder_entries(pre, parent as int, base));
            }
        }
        i = i + 1;
    }
    proof {
        assert(children@.subrange(0, i as int) =~= children@);
    }
    Ok(())
}

/// If the listing of the first `upto` children holds an unknown name at `w`,
/// so does the listing of them all.
proof fn lemma_unknown_in_prefix(
    children: Seq<SceneNode>,
    upto: int,
    parent: int,
    base: int,
    w: int,
    names: Seq<String>,
)
    requires
        0 <= upto <= children.len(),
        0 <= w < preorder_entries(children.subrange(0, upto), parent, base).len(),
        !is_known(names, preorder_entries(children.subrange(0, upto), parent, base)[w].0.name@),
    ensures
        !all_known(preorder_entries(children, parent, base), names),
{
    let a = children.subrange(0, upto);
    let b = children.subrange(upto, children.len() as int);
    assert(children =~= a + b);
    lemma_entries_concat(a, b, parent, base);
    let all = preorder_entries(children, parent, base);
    assert(all[w] == preorder_entries(a, parent, base)[w]);
}

impl Skeleton {
    /// Builds the skeleton rooted at scene node `root`: one joint per joint
    /// node, in pre-order, each identified by the first place of its name in
    /// the skin's bone-name table and carrying the node's local transform;
    /// then computes the inverse bind transforms.
    pub fn build(root: &SceneNode, bone_names: &Vec<String>) -> (r: Result<Skeleton, SkeletonError>)
        requires
            bone_names@.len() <= i32::MAX,
        ensures
            !root.is_joint ==> r == Err::<Skeleton, SkeletonError>(SkeletonError::RootNotJoint),
            root.is_joint ==> (r matches Err(SkeletonError::UnknownJoint(_)) <==> !all_known(
                preorder_entries(seq![*root], -1, 0),
                bone_names@,
            )),
            root.is_joint && all_known(preorder_entries(seq![*root], -1, 0), bone_names@) ==> (r is Ok
                <==> forall|j: int|
                0 <= j < preorder_entries(seq![*root], -1, 0).len() ==> mat4_inverse(
                    #[trigger] entry_global(preorder_entries(seq![*root], -1, 0), j),
                ) is Some),
            r matches Err(SkeletonError::SingularBindTransform(j)) ==> {
                let es = preorder_entries(seq![*root], -1, 0);
                &&& j < es.len()
                &&& mat4_inverse(entry_global(es, j as int)) is None
                &&& forall|k: int| 0 <= k < j ==> mat4_inverse(#[trigger] entry_global(es, k)) is Some
            },
            r matches Ok(s) ==> {
                let es = preorder_entries(seq![*root], -1, 0);
                &&& s.wf()
                &&& s.joints@.len() == es.len()
                &&& forall|i: int|
                    0 <= i < es.len() ==> made_from(
                        #[trigger] s.joints@[i],
                        es[i].0,
                        es[i].1,
                        bone_names@,
                    ) && Some(s.joints@[i].inverse_bind_transform) == mat4_inverse(entry_global(es, i))
            },
    {
        if !root.is_joint {
            return Err(SkeletonError::RootNotJoint);
        }
        proof {
            let s = seq![*root];
            assert(s.drop_last() =~= Seq::<SceneNode>::empty());
            assert(s.last() == *root);
            let e0 = preorder_entries(s.drop_last(), -1, 0);
            assert(e0 =~= Seq::<(SceneNode, int)>::empty());
            assert(e0 + seq![(*root, -1int)] + preorder_entries(root.children@, 0, 1) =~= seq![(*root, -1int)] + preorder_entries(root.children@, 0, 1));
            assert(preorder_entries(s, -1, 0) == seq![(*root, -1int)] + preorder_entries(root.children@, 0, 1));
        }
        let id = match find_bone(bone_names, &root.name) {
            Some(id) => id,
            None => {
                proof {
                    assert(preorder_entries(seq![*root], -1, 0)[0].0 == *root);
                }
                return Err(SkeletonError::UnknownJoint(root.name.clone()));
            },
        };
        let mut joint = Joint::new(id as i32, root.name.as_str());
        joint.local_bind_transform = root.transform;
        let mut joints: Vec<Joint> = Vec::new();
        joints.push(joint);
        let ghost one = joints@;
        let res = push_joint_children(&mut joints, &root.children, 0, bone_names);
        let ghost es = preorder_entries(seq![*root], -1, 0);
        let ghost sub = preorder_entries(root.children@, 0, 1);
        match res {
            Ok(()) => {},
            Err(e) => {
                proof {
                    let w = choose|w: int| 0 <= w < sub.len() && !is_known(bone_names@, #[trigger] sub[w].0.name@);
                    assert(es[1 + w] == sub[w]);
                }
                return Err(e);
            },
        }
        let mut s = Skeleton { joints };
        proof {
            assert(s.joints@[0] == one[0]) by {
                assert(s.joints@.subrange(0, 1)[0] == one[0]);
            }
            assert forall|i: int| 0 <= i < es.len() implies made_from(
                #[trigger] s.joints@[i],
                es[i].0,
                es[i].1,
                bone_names@,
            ) by {
                if i > 0 {
                    assert(es[i] == sub[i - 1]);
                    assert(s.joints@[1 + (i - 1)] == s.joints@[i]);
                }
            }
            assert forall|i: int| 0 <= i < es.len() implies is_known(bone_names@, #[trigger] es[i].0.name@) by {
                if i > 0 {
                    assert(es[i] == sub[i - 1]);
                } else {
                    assert(bone_names@[id as int]@ == root.name@);
                }
            }
        }
        let ghost built = s.joints@;
        proof {
            assert forall|j: int| 0 <= j < es.len() implies #[trigger] global_bind_transform(built, j)
                == entry_global(es, j) by {
                lemma_global_bind_of_listing(built, es, bone_names@, j);
            }
        }
        match s.calculate_inverse_bind_transform() {
            Ok(()) => {},
            Err(e) => {
                proof {
                    if let SkeletonError::SingularBindTransform(j) = e {
                        assert(global_bind_transform(built, j as int) == entry_global(es, j as int));
                        assert forall|k: int| 0 <= k < j implies mat4_inverse(#[trigger] entry_global(es, k)) is Some by {
                            assert(global_bind_transform(built, k) == entry_global(es, k));
                        }
                    }
                }
                return Err(e);
            },
        }
        proof {
            assert forall|i: int| 0 <= i < es.len() implies made_from(
                #[trigger] s.joints@[i],
                es[i].0,
                es[i].1,
                bone_names@,
            ) by {
                assert(made_from(built[i], es[i].0, es[i].1, bone_names@));
                assert(global_bind_transform(built, i) == entry_global(es, i));
            }
            assert forall|j: int| 0 <= j < es.len() implies mat4_inverse(#[trigger] entry_global(es, j)) is Some by {
                assert(global_bind_transform(built, j) == entry_global(es, j));
            }
        }
        Ok(s)
    }
}

} // verus!
