//! The skeleton as a tree of joints, built from the flat list of a capture,
//! and the path that identifies a joint in it.
use crate::bvh::{Bvh, JointRecord};
use crate::error::{BvhAssetLoaderError, BvhAssetLoaderErrorView};
use crate::math::Vec3;
use vstd::prelude::*;

verus! {

/// A joint of the skeleton with the joints below it.
#[derive(Debug, PartialEq, Eq)]
pub struct JointHierarchy {
    pub name: String,
    /// The rest position of the joint, relative to its parent.
    pub offset: Vec3,
    /// The end of the bone that starts at a joint without children.
    pub end: Option<Vec3>,
    pub children: Vec<JointHierarchy>,
}

/// Whether the joints reached from joint `index` through the lists of
/// children are all in the list of joints, and those lists lead no more
/// than `depth` joints deep.
pub open spec fn unfolds(joints: Seq<JointRecord>, index: int, depth: nat) -> bool
    decreases depth,
{
    &&& 0 <= index < joints.len()
    &&& depth > 0
    &&& forall|k: int|
        0 <= k < joints[index].children@.len() ==> unfolds(
            joints,
            #[trigger] joints[index].children@[k] as int,
            (depth - 1) as nat,
        )
}

impl JointHierarchy {
    /// Whether the tree is joint `index` of the list with all that is below
    /// it: name, offset and end site as listed, and the children as listed,
    /// in their order.
    pub open spec fn matches(self, joints: Seq<JointRecord>, index: int) -> bool
        decreases self,
    {
        &&& 0 <= index < joints.len()
        &&& self.name@ == joints[index].name@
        &&& self.offset == joints[index].offset
        &&& self.end == joints[index].end_site
        &&& self.children@.len() == joints[index].children@.len()
        &&& forall|k: int|
            0 <= k < self.children@.len() ==> (#[trigger] self.children@[k]).matches(
                joints,
                joints[index].children@[k] as int,
            )
    }

    /// The skeleton of a capture, as the tree below its root joint.
    ///
    /// It is an error if the capture has no joint, if a list of children
    /// names a joint that is not there, or if the lists of children lead
    /// deeper than there are joints, as they do where they form a cycle.
    pub fn try_from(bvh: &Bvh) -> (r: Result<JointHierarchy, BvhAssetLoaderError>)
        ensures
            r is Ok <==> unfolds(bvh.joints@, 0, bvh.joints@.len()),
            match r {
                Ok(skeleton) => skeleton.matches(bvh.joints@, 0),
                Err(e) => e@ == BvhAssetLoaderErrorView::StructureError,
            },
    {
        build_hierarchy(&bvh.joints, 0, bvh.joints.len())
    }
}

/// The tree below joint `index`, if it is no more than `depth` joints deep.
fn build_hierarchy(joints: &Vec<JointRecord>, index: usize, depth: usize) -> (r: Result<
    JointHierarchy,
    BvhAssetLoaderError,
>)
    ensures
        r is Ok <==> unfolds(joints@, index as int, depth as nat),
        match r {
            Ok(tree) => tree.matches(joints@, index as int),
            Err(e) => e@ == BvhAssetLoaderErrorView::StructureError,
        },
    decreases depth,
{
    if index >= joints.len() || depth == 0 {
        return Err(BvhAssetLoaderError::StructureError);
    }
    let joint = &joints[index];
    let mut children: Vec<JointHierarchy> = Vec::new();
    let mut k: usize = 0;
    while k < joint.children.len()
        invariant
            index < joints@.len(),
            depth > 0,
            joint == &joints@[index as int],
            k <= joint.children@.len(),
            children@.len() == k,
            forall|i: int|
                0 <= i < k ==> (#[trigger] children@[i]).matches(
                    joints@,
                    joint.children@[i] as int,
                ),
            forall|i: int|
                0 <= i < k ==> unfolds(
                    joints@,
                    #[trigger] joint.children@[i] as int,
                    (depth - 1) as nat,
                ),
        decreases joint.children@.len() - k,
    {
        match build_hierarchy(joints, joint.children[k], depth - 1) {
            Ok(child) => {
                children.push(child);
            },
            Err(e) => {
                return Err(e);
            },
        }
        k = k + 1;
    }
    Ok(JointHierarchy { name: joint.name.clone(), offset: joint.offset, end: joint.end_site, children })
}

/// The names of a run of strings.
pub open spec fn names_of(path: Seq<String>) -> Seq<Seq<char>> {
    path.map_values(|s: String| s@)
}

/// The paths with the name `head` in front of each.
pub open spec fn prefixed(head: Seq<char>, paths: Seq<Seq<Seq<char>>>) -> Seq<Seq<Seq<char>>> {
    paths.map_values(|p: Seq<Seq<char>>| seq![head] + p)
}

/// The first of `paths` that ends in `name`, if there is one.
pub open spec fn first_ending_in(paths: Seq<Seq<Seq<char>>>, name: Seq<char>) -> Option<
    Seq<Seq<char>>,
>
    decreases paths.len(),
{
    if paths.len() == 0 {
        None
    } else if paths[0].len() > 0 && paths[0].last() == name {
        Some(paths[0])
    } else {
        first_ending_in(paths.drop_first(), name)
    }
}

impl JointHierarchy {
    /// The paths of all joints of the tree, in pre-order: a joint before the
    /// joints below it, and the children of a joint in their order. The
    /// path of a joint is made of the names from the root of the tree down
    /// to the joint.
    pub open spec fn paths(self) -> Seq<Seq<Seq<char>>>
        decreases self, self.children@.len() + 1,
    {
        seq![seq![self.name@]] + self.paths_below(self.children@.len())
    }

    /// The paths of the joints below the first `n` children, in pre-order.
    pub open spec fn paths_below(self, n: nat) -> Seq<Seq<Seq<char>>>
        decreases self, n,
    {
        if n == 0 || n > self.children@.len() {
            Seq::empty()
        } else {
            self.paths_below((n - 1) as nat) + prefixed(self.name@, self.children@[n - 1].paths())
        }
    }

    /// The path of the first joint, in pre-order, that has the given name.
    ///
    /// There is none if no joint has that name.
    pub fn target_id(&self, bone_name: &str) -> (r: Option<Vec<String>>)
        ensures
            match r {
                Some(id) => first_ending_in(self.paths(), bone_name@) == Some(names_of(id@)),
                None => first_ending_in(self.paths(), bone_name@) is None,
            },
    {
        let name = bone_name.to_owned();
        let mut path: Vec<String> = Vec::new();
        let r = target_id(self, &name, &mut path);
        proof {
            if r is Some {
                assert(Seq::<Seq<char>>::empty() + first_ending_in(self.paths(), name@).unwrap()
                    =~= first_ending_in(self.paths(), name@).unwrap());
            }
        }
        r
    }
}

/// The first match among `a` followed by `b` is the first match in `a`, or
/// else the first match in `b`.
proof fn lemma_first_of_concat(a: Seq<Seq<Seq<char>>>, b: Seq<Seq<Seq<char>>>, name: Seq<char>)
    ensures
        first_ending_in(a + b, name) == (match first_ending_in(a, name) {
            Some(p) => Some(p),
            None => first_ending_in(b, name),
        }),
    decreases a.len(),
{
    if a.len() == 0 {
        assert(a + b =~= b);
    } else {
        assert((a + b)[0] == a[0]);
        assert((a + b).drop_first() =~= a.drop_first() + b);
        lemma_first_of_concat(a.drop_first(), b, name);
    }
}

/// Putting a name in front of every path puts it in front of the first
/// match.
proof fn lemma_first_of_prefixed(paths: Seq<Seq<Seq<char>>>, head: Seq<char>, name: Seq<char>)
    requires
        forall|i: int| 0 <= i < paths.len() ==> (#[trigger] paths[i]).len() > 0,
    ensures
        first_ending_in(prefixed(head, paths), name) == (match first_ending_in(paths, name) {
            Some(p) => Some(seq![head] + p),
            None => None,
        }),
    decreases paths.len(),
{
    let longer = prefixed(head, paths);
    if paths.len() > 0 {
        assert(longer[0] == seq![head] + paths[0]);
        assert(longer[0].last() == paths[0].last());
        assert(longer.drop_first() =~= prefixed(head, paths.drop_first()));
        assert forall|i: int| 0 <= i < paths.drop_first().len() implies (
        #[trigger] paths.drop_first()[i]).len() > 0 by {
            assert(paths.drop_first()[i] == paths[i + 1]);
        }
        lemma_first_of_prefixed(paths.drop_first(), head, name);
    }
}

impl JointHierarchy {
    /// Every path of the tree starts at its root.
    pub proof fn lemma_paths_start_at_root(self)
        ensures
            forall|i: int|
                0 <= i < self.paths().len() ==> (#[trigger] self.paths()[i]).len() > 0
                    && self.paths()[i][0] == self.name@,
            forall|n: nat, i: int|
                0 <= i < self.paths_below(n).len() ==> (#[trigger] self.paths_below(n)[i]).len() > 1
                    && self.paths_below(n)[i][0] == self.name@,
        decreases self, self.children@.len() + 1,
    {
        assert forall|n: nat, i: int| 0 <= i < self.paths_below(n).len() implies (
        #[trigger] self.paths_below(n)[i]).len() > 1 && self.paths_below(n)[i][0]
            == self.name@ by {
            self.lemma_paths_below_start_at_root(n);
        }
        let below = self.paths_below(self.children@.len());
        assert forall|i: int| 0 <= i < self.paths().len() implies (#[trigger] self.paths()[i]).len()
            > 0 && self.paths()[i][0] == self.name@ by {
            if i > 0 {
                assert(self.paths()[i] == below[i - 1]);
            }
        }
    }

    proof fn lemma_paths_below_start_at_root(self, n: nat)
        ensures
            forall|i: int|
                0 <= i < self.paths_below(n).len() ==> (#[trigger] self.paths_below(n)[i]).len() > 1
                    && self.paths_below(n)[i][0] == self.name@,
        decreases self, n,
    {
        if n == 0 || n > self.children@.len() {
        } else {
            self.lemma_paths_below_start_at_root((n - 1) as nat);
            let child = self.children@[n - 1];
            child.lemma_paths_start_at_root();
            let before = self.paths_below((n - 1) as nat);
            let added = prefixed(self.name@, child.paths());
            assert(self.paths_below(n) == before + added);
            assert forall|i: int| 0 <= i < self.paths_below(n).len() implies (
            #[trigger] self.paths_below(n)[i]).len() > 1 && self.paths_below(n)[i][0]
                == self.name@ by {
                if i >= before.len() {
                    let p = child.paths()[i - before.len()];
                    assert(added[i - before.len()] == seq![self.name@] + p);
                }
            }
        }
    }
}

/// A copy of a path.
fn clone_path(path: &Vec<String>) -> (copy: Vec<String>)
    ensures
        names_of(copy@) == names_of(path@),
{
    let mut copy: Vec<String> = Vec::new();
    let mut i: usize = 0;
    while i < path.len()
        invariant
            i <= path@.len(),
            copy@.len() == i,
            forall|k: int| 0 <= k < i ==> (#[trigger] copy@[k])@ == path@[k]@,
        decreases path@.len() - i,
    {
        copy.push(path[i].clone());
        i = i + 1;
    }
    assert(names_of(copy@) =~= names_of(path@));
    copy
}

/// Looks for the first joint of the given name in the tree, in pre-order,
/// with `path` as the stack of names from the root down to the parent of
/// the tree.
///
/// Where a joint is found, the result is its path from the root. Where none
/// is found, the stack is left with the name of the tree on top of what it
/// held, for the caller to take off.
fn target_id(joint_hierarchy: &JointHierarchy, bone_name: &String, path: &mut Vec<String>) -> (r:
    Option<Vec<String>>)
    ensures
        match first_ending_in(joint_hierarchy.paths(), bone_name@) {
            Some(p) => r is Some && names_of(r->Some_0@) == names_of(old(path)@) + p,
            None => r is None && names_of(final(path)@) == names_of(old(path)@).push(
                joint_hierarchy.name@,
            ),
        },
    decreases joint_hierarchy,
{
    let ghost above = names_of(path@);
    let ghost own = joint_hierarchy.name@;
    let ghost head = seq![seq![own]];
    path.push(joint_hierarchy.name.clone());
    assert(names_of(path@) =~= above.push(own));
    proof {
        lemma_first_of_concat(
            head,
            joint_hierarchy.paths_below(joint_hierarchy.children@.len()),
            bone_name@,
        );
        assert(head.drop_first() =~= Seq::<Seq<Seq<char>>>::empty());
        assert(head[0].last() == own);
        assert(first_ending_in(head.drop_first(), bone_name@) is None);
    }
    if *bone_name == joint_hierarchy.name {
        let id = clone_path(path);
        assert(above.push(own) =~= above + seq![own]);
        return Some(id);
    }
    let mut k: usize = 0;
    while k < joint_hierarchy.children.len()
        invariant
            k <= joint_hierarchy.children@.len(),
            own == joint_hierarchy.name@,
            above == names_of(old(path)@),
            names_of(path@) == above.push(own),
            first_ending_in(joint_hierarchy.paths_below(k as nat), bone_name@) is None,
            first_ending_in(joint_hierarchy.paths(), bone_name@) == first_ending_in(
                joint_hierarchy.paths_below(joint_hierarchy.children@.len()),
                bone_name@,
            ),
        decreases joint_hierarchy.children@.len() - k,
    {
        let child = &joint_hierarchy.children[k];
        proof {
            assert(joint_hierarchy.paths_below((k + 1) as nat) == joint_hierarchy.paths_below(
                k as nat,
            ) + prefixed(own, child.paths()));
            child.lemma_paths_start_at_root();
            lemma_first_of_prefixed(child.paths(), own, bone_name@);
            lemma_first_of_concat(
                joint_hierarchy.paths_below(k as nat),
                prefixed(own, child.paths()),
                bone_name@,
            );
        }
        match target_id(child, bone_name, path) {
            Some(id) => {
                proof {
                    let p = first_ending_in(child.paths(), bone_name@).unwrap();
                    assert(above.push(own) + p =~= above + (seq![own] + p));
                    assert(first_ending_in(joint_hierarchy.paths_below((k + 1) as nat), bone_name@)
                        == Some(seq![own] + p));
                    joint_hierarchy.lemma_first_below_stays((k + 1) as nat, bone_name@);
                }
                return Some(id);
            },
            None => {
                let ghost longer = path@;
                assert(names_of(longer).len() == longer.len());
                path.pop();
                assert forall|i: int| 0 <= i < path@.len() implies names_of(path@)[i] == above.push(
                    own,
                )[i] by {
                    assert(names_of(path@)[i] == names_of(longer)[i]);
                }
                assert(names_of(path@) =~= above.push(own));
            },
        }
        k = k + 1;
    }
    None
}

impl JointHierarchy {
    /// A match among the joints below the first `n` children is the first
    /// match among the joints below all of them.
    proof fn lemma_first_below_stays(self, n: nat, name: Seq<char>)
        requires
            n <= self.children@.len(),
            first_ending_in(self.paths_below(n), name) is Some,
        ensures
            first_ending_in(self.paths_below(self.children@.len()), name) == first_ending_in(
                self.paths_below(n),
                name,
            ),
        decreases self.children@.len() - n,
    {
        if n < self.children@.len() {
            lemma_first_of_concat(
                self.paths_below(n),
                prefixed(self.name@, self.children@[n as int].paths()),
                name,
            );
            self.lemma_first_below_stays(n + 1, name);
        }
    }
}

/// The names of a run of paths.
pub open spec fn paths_of(paths: Seq<Vec<String>>) -> Seq<Seq<Seq<char>>> {
    paths.map_values(|p: Vec<String>| names_of(p@))
}

/// The paths with the names `above` in front of each.
pub open spec fn extended(above: Seq<Seq<char>>, paths: Seq<Seq<Seq<char>>>) -> Seq<
    Seq<Seq<char>>,
> {
    paths.map_values(|p: Seq<Seq<char>>| above + p)
}

impl JointHierarchy {
    /// The paths of all joints of the tree, in pre-order.
    pub fn joint_paths(&self) -> (all: Vec<Vec<String>>)
        ensures
            paths_of(all@) == self.paths(),
    {
        let mut all: Vec<Vec<String>> = Vec::new();
        let mut path: Vec<String> = Vec::new();
        collect_paths(self, &mut path, &mut all);
        proof {
            let nothing = Seq::<Seq<char>>::empty();
            assert forall|i: int| 0 <= i < self.paths().len() implies extended(
                nothing,
                self.paths(),
            )[i] == self.paths()[i] by {
                assert(nothing + self.paths()[i] =~= self.paths()[i]);
            }
            assert(extended(nothing, self.paths()) =~= self.paths());
            assert(paths_of(Seq::<Vec<String>>::empty()) + self.paths() =~= self.paths());
        }
        all
    }
}

/// Adds the paths of all joints of the tree to `all`, in pre-order, with
/// `path` as the stack of names from the root down to the parent of the
/// tree. The stack is left as it was.
fn collect_paths(tree: &JointHierarchy, path: &mut Vec<String>, all: &mut Vec<Vec<String>>)
    ensures
        names_of(final(path)@) == names_of(old(path)@),
        paths_of(final(all)@) == paths_of(old(all)@) + extended(names_of(old(path)@), tree.paths()),
    decreases tree,
{
    let ghost above = names_of(path@);
    let ghost before = paths_of(all@);
    let ghost own = tree.name@;
    path.push(tree.name.clone());
    assert(names_of(path@) =~= above.push(own));
    let copy = clone_path(path);
    all.push(copy);
    proof {
        assert(extended(above, seq![seq![own]] + tree.paths_below(0))[0] == above + seq![own]);
        assert(above + seq![own] =~= above.push(own));
        assert(paths_of(all@) =~= before + extended(
            above,
            seq![seq![own]] + tree.paths_below(0),
        ));
    }
    let mut k: usize = 0;
    while k < tree.children.len()
        invariant
            k <= tree.children@.len(),
            own == tree.name@,
            names_of(path@) == above.push(own),
            paths_of(all@) == before + extended(
                above,
                seq![seq![own]] + tree.paths_below(k as nat),
            ),
        decreases tree.children@.len() - k,
    {
        let child = &tree.children[k];
        let ghost held = paths_of(all@);
        collect_paths(child, path, all);
        proof {
            let added = extended(above.push(own), child.paths());
            let through = prefixed(own, child.paths());
            assert(tree.paths_below((k + 1) as nat) == tree.paths_below(k as nat) + through);
            assert forall|i: int| 0 <= i < child.paths().len() implies added[i] == extended(
                above,
                through,
            )[i] by {
                assert(above.push(own) + child.paths()[i] =~= above + (seq![own]
                    + child.paths()[i]));
            }
            assert(added =~= extended(above, through));
            assert(held + added =~= before + extended(
                above,
                seq![seq![own]] + tree.paths_below((k + 1) as nat),
            ));
        }
        k = k + 1;
    }
    let ghost longer = path@;
    assert(names_of(longer).len() == longer.len());
    path.pop();
    assert forall|i: int| 0 <= i < path@.len() implies names_of(path@)[i] == above[i] by {
        assert(names_of(path@)[i] == names_of(longer)[i]);
    }
    assert(names_of(path@) =~= above);
}

} // verus!
