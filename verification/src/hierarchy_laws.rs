//! What holds of the skeleton that is built from a list of joints which
//! forms a tree.
use crate::bvh::JointRecord;
use crate::hierarchy::{prefixed, unfolds, JointHierarchy};
use vstd::prelude::*;

verus! {

/// How often `x` occurs in `s`.
pub open spec fn occurrences<A>(s: Seq<A>, x: A) -> nat
    decreases s.len(),
{
    if s.len() == 0 {
        0
    } else {
        occurrences(s.drop_last(), x) + (if s.last() == x {
            1nat
        } else {
            0nat
        })
    }
}

/// The parent of joint `j`, if it has one.
pub open spec fn parent_of(joints: Seq<JointRecord>, j: int) -> Option<int> {
    match joints[j].parent {
        Some(p) => Some(p as int),
        None => None,
    }
}

/// The children of joint `p`, in their order.
pub open spec fn children_of(joints: Seq<JointRecord>, p: int) -> Seq<int> {
    joints[p].children@.map_values(|c: usize| c as int)
}

/// The number of steps from joint `index` up to the root, from parent to
/// parent, if the root is reached within `limit` steps.
pub open spec fn steps_to_root(joints: Seq<JointRecord>, index: int, limit: nat) -> Option<nat>
    decreases limit,
{
    if index == 0 {
        Some(0)
    } else if limit == 0 || !(0 <= index < joints.len()) {
        None
    } else {
        match parent_of(joints, index) {
            Some(p) => match steps_to_root(joints, p, (limit - 1) as nat) {
                Some(d) => Some(d + 1),
                None => None,
            },
            None => None,
        }
    }
}

/// Whether a list of joints forms a tree with joint 0 as its root: the
/// root has no parent; every other joint has a parent, and stands exactly
/// once in the children of that parent and in no other list of children;
/// and from every joint the root is reached from parent to parent.
pub open spec fn is_tree(joints: Seq<JointRecord>) -> bool {
    &&& joints.len() > 0
    &&& parent_of(joints, 0) is None
    &&& forall|p: int, k: int|
        0 <= p < joints.len() && 0 <= k < children_of(joints, p).len() ==> 0
            < #[trigger] children_of(joints, p)[k] < joints.len() && parent_of(
            joints,
            children_of(joints, p)[k],
        ) == Some(p)
    &&& forall|j: int|
        0 < j < joints.len() ==> (#[trigger] parent_of(joints, j)) is Some && 0 <= parent_of(
            joints,
            j,
        )->Some_0 < joints.len() && occurrences(
            children_of(joints, parent_of(joints, j)->Some_0),
            j,
        ) == 1
    &&& forall|j: int|
        0 <= j < joints.len() ==> (#[trigger] steps_to_root(
            joints,
            j,
            (joints.len() - 1) as nat,
        )) is Some
}

impl JointHierarchy {
    /// The joints of the list that a walk of the tree in pre-order comes
    /// to, one after the other, where the tree is joint `index` of the list
    /// with all that is below it.
    pub open spec fn visits(self, joints: Seq<JointRecord>, index: int) -> Seq<int>
        decreases self, self.children@.len() + 1,
    {
        seq![index] + self.visits_below(joints, index, self.children@.len())
    }

    /// The joints that the walk comes to below the first `n` children.
    pub open spec fn visits_below(self, joints: Seq<JointRecord>, index: int, n: nat) -> Seq<int>
        decreases self, n,
    {
        if n == 0 || n > self.children@.len() || !(0 <= index < joints.len()) || n
            > joints[index].children@.len() {
            Seq::empty()
        } else {
            self.visits_below(joints, index, (n - 1) as nat) + self.children@[n - 1].visits(
                joints,
                joints[index].children@[n - 1] as int,
            )
        }
    }

    /// Whether no two children of one joint have the same name, anywhere in
    /// the tree.
    pub open spec fn sibling_names_differ(self) -> bool
        decreases self,
    {
        &&& forall|a: int, b: int|
            0 <= a < b < self.children@.len() ==> (#[trigger] self.children@[a]).name@ != (
            #[trigger] self.children@[b]).name@
        &&& forall|k: int|
            0 <= k < self.children@.len() ==> (#[trigger] self.children@[k]).sibling_names_differ()
    }
}

proof fn lemma_occurrences_concat<A>(a: Seq<A>, b: Seq<A>, x: A)
    ensures
        occurrences(a + b, x) == occurrences(a, x) + occurrences(b, x),
    decreases b.len(),
{
    if b.len() == 0 {
        assert(a + b =~= a);
    } else {
        assert((a + b).drop_last() =~= a + b.drop_last());
        lemma_occurrences_concat(a, b.drop_last(), x);
    }
}

proof fn lemma_occurrences_found<A>(s: Seq<A>, x: A)
    requires
        occurrences(s, x) > 0,
    ensures
        exists|k: int| 0 <= k < s.len() && s[k] == x,
    decreases s.len(),
{
    if s.len() > 0 {
        if s.last() == x {
            assert(s[s.len() - 1] == x);
        } else {
            lemma_occurrences_found(s.drop_last(), x);
            let k = choose|k: int| 0 <= k < s.drop_last().len() && s.drop_last()[k] == x;
            assert(s[k] == x);
        }
    }
}

/// With a larger limit the steps to the root are the same.
proof fn lemma_steps_with_more(joints: Seq<JointRecord>, index: int, limit: nat, more: nat)
    requires
        steps_to_root(joints, index, limit) is Some,
        limit <= more,
    ensures
        steps_to_root(joints, index, more) == steps_to_root(joints, index, limit),
        steps_to_root(joints, index, limit)->Some_0 <= limit,
    decreases limit,
{
    if index != 0 {
        let p = parent_of(joints, index)->Some_0;
        lemma_steps_with_more(joints, p, (limit - 1) as nat, (more - 1) as nat);
    }
}

/// In a tree a child is one step further from the root than its parent.
proof fn lemma_child_is_deeper(joints: Seq<JointRecord>, p: int, k: int)
    requires
        is_tree(joints),
        0 <= p < joints.len(),
        0 <= k < children_of(joints, p).len(),
    ensures
        steps_to_root(joints, children_of(joints, p)[k], (joints.len() - 1) as nat)->Some_0
            == steps_to_root(joints, p, (joints.len() - 1) as nat)->Some_0 + 1,
        steps_to_root(joints, p, (joints.len() - 1) as nat)->Some_0 + 1 < joints.len(),
{
    let n = joints.len();
    let c = children_of(joints, p)[k];
    assert(steps_to_root(joints, c, (n - 1) as nat) is Some);
    assert(parent_of(joints, c) == Some(p));
    assert(steps_to_root(joints, p, (n - 2) as nat) is Some);
    lemma_steps_with_more(joints, p, (n - 2) as nat, (n - 1) as nat);
    lemma_steps_with_more(joints, c, (n - 1) as nat, (n - 1) as nat);
}

proof fn lemma_unfolds_from(joints: Seq<JointRecord>, index: int)
    requires
        is_tree(joints),
        0 <= index < joints.len(),
    ensures
        steps_to_root(joints, index, (joints.len() - 1) as nat)->Some_0 < joints.len(),
        unfolds(
            joints,
            index,
            (joints.len() - steps_to_root(joints, index, (joints.len() - 1) as nat)->Some_0) as nat,
        ),
    decreases joints.len() - steps_to_root(joints, index, (joints.len() - 1) as nat)->Some_0,
{
    let n = joints.len();
    let d = steps_to_root(joints, index, (n - 1) as nat)->Some_0;
    assert(steps_to_root(joints, index, (n - 1) as nat) is Some);
    lemma_steps_with_more(joints, index, (n - 1) as nat, (n - 1) as nat);
    assert forall|k: int| 0 <= k < joints[index].children@.len() implies unfolds(
        joints,
        #[trigger] joints[index].children@[k] as int,
        (n - d - 1) as nat,
    ) by {
        assert(children_of(joints, index)[k] == joints[index].children@[k] as int);
        lemma_child_is_deeper(joints, index, k);
        lemma_unfolds_from(joints, children_of(joints, index)[k]);
    }
}

/// The joints of a list that forms a tree can be laid out as a skeleton:
/// building it does not fail.
pub proof fn lemma_tree_unfolds(joints: Seq<JointRecord>)
    requires
        is_tree(joints),
    ensures
        unfolds(joints, 0, joints.len()),
{
    lemma_unfolds_from(joints, 0);
}

impl JointHierarchy {
    /// In a tree, a joint other than the one on top occurs in a walk as
    /// often as its parent does; the one on top occurs once more.
    proof fn lemma_visits_follow_parents(self, joints: Seq<JointRecord>, index: int, x: int)
        requires
            is_tree(joints),
            self.matches(joints, index),
            0 <= x < joints.len(),
        ensures
            x == 0 ==> occurrences(self.visits(joints, index), x) == (if index == 0 {
                1nat
            } else {
                0nat
            }),
            x > 0 ==> occurrences(self.visits(joints, index), x) == occurrences(
                self.visits(joints, index),
                parent_of(joints, x)->Some_0,
            ) + (if index == x {
                1nat
            } else {
                0nat
            }),
        decreases self, self.children@.len() + 1,
    {
        let n = self.children@.len();
        let below = self.visits_below(joints, index, n);
        self.lemma_visits_below_follow_parents(joints, index, n, x);
        lemma_occurrences_concat(seq![index], below, x);
        assert(seq![index].drop_last() =~= Seq::<int>::empty());
        assert(occurrences(seq![index].drop_last(), x) == 0);
        if x > 0 {
            let p = parent_of(joints, x)->Some_0;
            lemma_occurrences_concat(seq![index], below, p);
            assert(occurrences(seq![index].drop_last(), p) == 0);
            let listed = children_of(joints, index);
            assert(listed.take(n as int) =~= listed);
            if p == index {
            } else {
                if occurrences(listed, x) > 0 {
                    lemma_occurrences_found(listed, x);
                    let k = choose|k: int| 0 <= k < listed.len() && listed[k] == x;
                    assert(parent_of(joints, children_of(joints, index)[k]) == Some(index));
                }
            }
        }
    }

    proof fn lemma_visits_below_follow_parents(
        self,
        joints: Seq<JointRecord>,
        index: int,
        m: nat,
        x: int,
    )
        requires
            is_tree(joints),
            self.matches(joints, index),
            m <= self.children@.len(),
            0 <= x < joints.len(),
        ensures
            x == 0 ==> occurrences(self.visits_below(joints, index, m), x) == 0,
            x > 0 ==> occurrences(self.visits_below(joints, index, m), x) == occurrences(
                self.visits_below(joints, index, m),
                parent_of(joints, x)->Some_0,
            ) + occurrences(children_of(joints, index).take(m as int), x),
        decreases self, m,
    {
        let listed = children_of(joints, index);
        if m == 0 {
            assert(listed.take(0) =~= Seq::<int>::empty());
        } else {
            let c = listed[m - 1];
            assert(c == joints[index].children@[m - 1] as int);
            let child = self.children@[m - 1];
            let before = self.visits_below(joints, index, (m - 1) as nat);
            let added = child.visits(joints, c);
            assert(self.visits_below(joints, index, m) == before + added);
            self.lemma_visits_below_follow_parents(joints, index, (m - 1) as nat, x);
            child.lemma_visits_follow_parents(joints, c, x);
            lemma_occurrences_concat(before, added, x);
            assert(listed.take(m as int).drop_last() =~= listed.take(m - 1));
            assert(listed.take(m as int).last() == c);
            assert(0 < c < joints.len());
            if x > 0 {
                let p = parent_of(joints, x)->Some_0;
                lemma_occurrences_concat(before, added, p);
            }
        }
    }

    proof fn lemma_visited_once(
        self,
        joints: Seq<JointRecord>,
        x: int,
        limit: nat,
    )
        requires
            is_tree(joints),
            self.matches(joints, 0),
            0 <= x < joints.len(),
            steps_to_root(joints, x, limit) is Some,
        ensures
            occurrences(self.visits(joints, 0), x) == 1,
        decreases limit,
    {
        self.lemma_visits_follow_parents(joints, 0, x);
        if x > 0 {
            let p = parent_of(joints, x)->Some_0;
            self.lemma_visited_once(joints, p, (limit - 1) as nat);
        }
    }

    /// A walk in pre-order of the skeleton that was built from a list of
    /// joints which forms a tree comes to every joint of the list exactly
    /// once, and to nothing else.
    pub proof fn lemma_walk_visits_every_joint_once(self, joints: Seq<JointRecord>)
        requires
            is_tree(joints),
            self.matches(joints, 0),
        ensures
            forall|x: int|
                0 <= x < joints.len() ==> #[trigger] occurrences(self.visits(joints, 0), x) == 1,
            forall|i: int|
                0 <= i < self.visits(joints, 0).len() ==> 0 <= #[trigger] self.visits(joints, 0)[i]
                    < joints.len(),
            self.visits(joints, 0).len() == joints.len(),
    {
        let walk = self.visits(joints, 0);
        assert forall|x: int| 0 <= x < joints.len() implies #[trigger] occurrences(walk, x)
            == 1 by {
            assert(steps_to_root(joints, x, (joints.len() - 1) as nat) is Some);
            self.lemma_visited_once(joints, x, (joints.len() - 1) as nat);
        }
        self.lemma_paths_name_visits(joints, 0);
        lemma_occurrences_add_up(walk, joints.len());
        lemma_all_once(walk, joints.len());
    }
}

/// How often the numbers below `n` occur in `s`, taken together.
pub open spec fn occurrences_below(s: Seq<int>, n: nat) -> nat
    decreases n,
{
    if n == 0 {
        0
    } else {
        occurrences_below(s, (n - 1) as nat) + occurrences(s, (n - 1) as int)
    }
}

proof fn lemma_occurrences_below_push(s: Seq<int>, last: int, n: nat)
    ensures
        occurrences_below(s.push(last), n) == occurrences_below(s, n) + (if 0 <= last < n {
            1nat
        } else {
            0nat
        }),
    decreases n,
{
    if n > 0 {
        lemma_occurrences_below_push(s, last, (n - 1) as nat);
        assert(s.push(last).drop_last() =~= s);
    }
}

/// Where all of `s` is below `n`, the occurrences of the numbers below `n`
/// add up to the length of `s`.
proof fn lemma_occurrences_add_up(s: Seq<int>, n: nat)
    requires
        forall|i: int| 0 <= i < s.len() ==> 0 <= #[trigger] s[i] < n,
    ensures
        occurrences_below(s, n) == s.len(),
    decreases s.len(),
{
    if s.len() == 0 {
        lemma_none_in_empty(s, n);
    } else {
        lemma_occurrences_add_up(s.drop_last(), n);
        lemma_occurrences_below_push(s.drop_last(), s.last(), n);
        assert(s.drop_last().push(s.last()) =~= s);
    }
}

proof fn lemma_none_in_empty(s: Seq<int>, n: nat)
    requires
        s.len() == 0,
    ensures
        occurrences_below(s, n) == 0,
    decreases n,
{
    if n > 0 {
        lemma_none_in_empty(s, (n - 1) as nat);
    }
}

proof fn lemma_all_once(s: Seq<int>, n: nat)
    requires
        forall|x: int| 0 <= x < n ==> #[trigger] occurrences(s, x) == 1,
    ensures
        occurrences_below(s, n) == n,
    decreases n,
{
    if n > 0 {
        lemma_all_once(s, (n - 1) as nat);
    }
}

impl JointHierarchy {
    /// Whether the second name of a path is the name of one of the first
    /// `m` children.
    pub open spec fn leads_through_child(self, m: nat, path: Seq<Seq<char>>) -> bool {
        exists|a: int| 0 <= a < m && a < self.children@.len() && path[1] == self.children@[a].name@
    }

    proof fn lemma_paths_below_differ(self, m: nat)
        requires
            self.sibling_names_differ(),
            m <= self.children@.len(),
        ensures
            self.paths_below(m).no_duplicates(),
            forall|i: int|
                0 <= i < self.paths_below(m).len() ==> self.leads_through_child(
                    m,
                    #[trigger] self.paths_below(m)[i],
                ),
        decreases self, m,
    {
        if m > 0 {
            let child = self.children@[m - 1];
            let before = self.paths_below((m - 1) as nat);
            let added = prefixed(self.name@, child.paths());
            let all = self.paths_below(m);
            assert(all == before + added);
            self.lemma_paths_below_differ((m - 1) as nat);
            child.lemma_paths_differ();
            child.lemma_paths_start_at_root();
            assert forall|i: int| 0 <= i < added.len() implies added[i].len() > 1 && (
            #[trigger] added[i])[1] == child.name@ && added[i].drop_first() == child.paths()[i] by {
                assert(added[i] == seq![self.name@] + child.paths()[i]);
                assert(added[i].drop_first() =~= child.paths()[i]);
            }
            assert forall|i: int| 0 <= i < all.len() implies self.leads_through_child(
                m,
                #[trigger] all[i],
            ) by {
                if i < before.len() {
                    assert(self.leads_through_child((m - 1) as nat, before[i]));
                    let a = choose|a: int|
                        0 <= a < m - 1 && a < self.children@.len() && before[i][1]
                            == self.children@[a].name@;
                    assert(0 <= a < m && all[i][1] == self.children@[a].name@);
                } else {
                    assert(all[i] == added[i - before.len()]);
                    assert(all[i][1] == self.children@[m - 1].name@);
                }
            }
            assert forall|i: int, j: int| 0 <= i < j < all.len() implies all[i] != all[j] by {
                if j < before.len() {
                } else if i >= before.len() {
                    let a = i - before.len();
                    let b = j - before.len();
                    assert(all[i] == added[a]);
                    assert(all[j] == added[b]);
                    if added[a] == added[b] {
                        assert(child.paths()[a] == child.paths()[b]);
                    }
                } else {
                    assert(self.leads_through_child((m - 1) as nat, before[i]));
                    let a = choose|a: int|
                        0 <= a < m - 1 && a < self.children@.len() && before[i][1]
                            == self.children@[a].name@;
                    assert(all[j] == added[j - before.len()]);
                    assert(self.children@[a].name@ != self.children@[m - 1].name@);
                }
            }
        }
    }

    /// Where no two children of one joint have the same name, no two joints
    /// of the tree have the same path.
    pub proof fn lemma_paths_differ(self)
        requires
            self.sibling_names_differ(),
        ensures
            self.paths().no_duplicates(),
        decreases self, self.children@.len() + 1,
    {
        let below = self.paths_below(self.children@.len());
        let all = self.paths();
        self.lemma_paths_below_differ(self.children@.len());
        self.lemma_paths_start_at_root();
        assert forall|i: int, j: int| 0 <= i < j < all.len() implies all[i] != all[j] by {
            assert(all[j] == below[j - 1]);
            if i == 0 {
                assert(all[0].len() == 1);
            } else {
                assert(all[i] == below[i - 1]);
            }
        }
    }
}

impl JointHierarchy {
    proof fn lemma_same_paths_below(self, other: JointHierarchy, joints: Seq<JointRecord>, index: int, m: nat)
        requires
            self.matches(joints, index),
            other.matches(joints, index),
            m <= self.children@.len(),
        ensures
            self.paths_below(m) == other.paths_below(m),
        decreases self, m,
    {
        if m > 0 {
            self.lemma_same_paths_below(other, joints, index, (m - 1) as nat);
            self.children@[m - 1].lemma_same_paths(
                other.children@[m - 1],
                joints,
                joints[index].children@[m - 1] as int,
            );
        }
    }

    /// Two skeletons of one list of joints have the same paths: what the
    /// list is laid out as is settled by the list.
    pub proof fn lemma_same_paths(self, other: JointHierarchy, joints: Seq<JointRecord>, index: int)
        requires
            self.matches(joints, index),
            other.matches(joints, index),
        ensures
            self.paths() == other.paths(),
        decreases self, self.children@.len() + 1,
    {
        self.lemma_same_paths_below(other, joints, index, self.children@.len());
    }
}

impl JointHierarchy {
    proof fn lemma_paths_below_name_visits(self, joints: Seq<JointRecord>, index: int, m: nat)
        requires
            self.matches(joints, index),
            m <= self.children@.len(),
        ensures
            self.paths_below(m).len() == self.visits_below(joints, index, m).len(),
            forall|i: int|
                0 <= i < self.paths_below(m).len() ==> 0 <= #[trigger] self.visits_below(
                    joints,
                    index,
                    m,
                )[i] < joints.len() && self.paths_below(m)[i].last()
                    == joints[self.visits_below(joints, index, m)[i]].name@,
        decreases self, m,
    {
        if m > 0 {
            let child = self.children@[m - 1];
            let c = joints[index].children@[m - 1] as int;
            self.lemma_paths_below_name_visits(joints, index, (m - 1) as nat);
            child.lemma_paths_name_visits(joints, c);
            child.lemma_paths_start_at_root();
            let before = self.paths_below((m - 1) as nat);
            let added = prefixed(self.name@, child.paths());
            let seen = self.visits_below(joints, index, (m - 1) as nat);
            assert(self.paths_below(m) == before + added);
            assert(self.visits_below(joints, index, m) == seen + child.visits(joints, c));
            assert forall|i: int| 0 <= i < self.paths_below(m).len() implies 0
                <= #[trigger] self.visits_below(joints, index, m)[i] < joints.len()
                && self.paths_below(m)[i].last() == joints[self.visits_below(
                joints,
                index,
                m,
            )[i]].name@ by {
                if i >= before.len() {
                    let a = i - before.len();
                    assert(added[a] == seq![self.name@] + child.paths()[a]);
                    assert(added[a].last() == child.paths()[a].last());
                    assert(self.visits_below(joints, index, m)[i] == child.visits(joints, c)[a]);
                } else {
                    assert(self.visits_below(joints, index, m)[i] == seen[i]);
                }
            }
        }
    }

    /// The paths of a skeleton and the walk of its list of joints go side
    /// by side: the path at a place ends in the name of the joint that the
    /// walk comes to at that place.
    pub proof fn lemma_paths_name_visits(self, joints: Seq<JointRecord>, index: int)
        requires
            self.matches(joints, index),
        ensures
            self.paths().len() == self.visits(joints, index).len(),
            forall|i: int|
                0 <= i < self.paths().len() ==> 0 <= #[trigger] self.visits(joints, index)[i]
                    < joints.len() && self.paths()[i].last() == joints[self.visits(
                    joints,
                    index,
                )[i]].name@,
        decreases self, self.children@.len() + 1,
    {
        let n = self.children@.len();
        self.lemma_paths_below_name_visits(joints, index, n);
        let below = self.paths_below(n);
        let seen = self.visits_below(joints, index, n);
        assert forall|i: int| 0 <= i < self.paths().len() implies 0 <= #[trigger] self.visits(
            joints,
            index,
        )[i] < joints.len() && self.paths()[i].last() == joints[self.visits(
            joints,
            index,
        )[i]].name@ by {
            if i > 0 {
                assert(self.paths()[i] == below[i - 1]);
                assert(self.visits(joints, index)[i] == seen[i - 1]);
            }
        }
    }
}

} // verus!
