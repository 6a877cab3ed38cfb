//! A parsed BVH capture: the joints of the skeleton as a flat list, and the
//! motion values of every frame.
use crate::math::Vec3;
use vstd::prelude::*;

verus! {

/// A degree of freedom of a joint.
#[derive(Clone, Copy, Debug, PartialEq, Eq, Structural)]
pub enum ChannelType {
    RotationX,
    RotationY,
    RotationZ,
    PositionX,
    PositionY,
    PositionZ,
}

impl ChannelType {
    pub open spec fn spec_is_rotation(&self) -> bool {
        *self == ChannelType::RotationX || *self == ChannelType::RotationY || *self
            == ChannelType::RotationZ
    }

    /// Whether the channel turns the joint about an axis.
    #[verifier::when_used_as_spec(spec_is_rotation)]
    pub fn is_rotation(&self) -> (b: bool)
        ensures
            b == self.spec_is_rotation(),
    {
        match self {
            ChannelType::RotationX | ChannelType::RotationY | ChannelType::RotationZ => true,
            _ => false,
        }
    }

    pub open spec fn spec_is_position(&self) -> bool {
        !self.spec_is_rotation()
    }

    /// Whether the channel moves the joint along an axis.
    #[verifier::when_used_as_spec(spec_is_position)]
    pub fn is_position(&self) -> (b: bool)
        ensures
            b == self.spec_is_position(),
    {
        !self.is_rotation()
    }
}

/// A channel of a joint: its kind, and where its value stands among the
/// motion values of a frame.
#[derive(Clone, Copy, Debug, PartialEq, Eq, Structural)]
pub struct Channel {
    pub channel_type: ChannelType,
    pub motion_index: usize,
}

/// A joint as the parser lists it.
#[derive(Clone, Debug, PartialEq, Eq)]
pub struct JointRecord {
    pub name: String,
    /// The rest position of the joint, relative to its parent.
    pub offset: Vec3,
    /// The end of the bone that starts at a joint without children.
    pub end_site: Option<Vec3>,
    pub channels: Vec<Channel>,
    /// The place of the parent in the list of joints; the root has none.
    pub parent: Option<usize>,
    /// The places of the children in the list of joints, in their order.
    pub children: Vec<usize>,
}

/// A parsed capture. If there is a root joint, it is joint 0.
#[derive(Clone, Debug, PartialEq, Eq)]
pub struct Bvh {
    pub joints: Vec<JointRecord>,
    /// The motion values of every frame, one word for each channel.
    pub frames: Vec<Vec<u32>>,
    /// The time for which a frame is shown, in nanoseconds.
    pub frame_time: u64,
}

/// The joints among the first `n` whose parent is joint `p`, in their
/// order.
pub open spec fn children_among(parents: Seq<Option<usize>>, p: int, n: nat) -> Seq<usize>
    decreases n,
{
    if n == 0 || n > parents.len() {
        Seq::empty()
    } else if parents[n - 1] == Some(p as usize) {
        children_among(parents, p, (n - 1) as nat).push((n - 1) as usize)
    } else {
        children_among(parents, p, (n - 1) as nat)
    }
}

/// For every joint the list of its children, in the order of the joints,
/// given the parent of every joint. A parent that is not among the joints
/// has no list.
pub fn children_lists(parents: &Vec<Option<usize>>) -> (lists: Vec<Vec<usize>>)
    ensures
        lists@.len() == parents@.len(),
        forall|p: int|
            0 <= p < parents@.len() ==> (#[trigger] lists@[p])@ == children_among(
                parents@,
                p,
                parents@.len(),
            ),
{
    let n = parents.len();
    let mut lists: Vec<Vec<usize>> = Vec::new();
    let mut p: usize = 0;
    while p < n
        invariant
            n == parents@.len(),
            p <= n,
            lists@.len() == p,
            forall|q: int|
                0 <= q < p ==> (#[trigger] lists@[q])@ == children_among(parents@, q, n as nat),
        decreases n - p,
    {
        let mut list: Vec<usize> = Vec::new();
        let mut j: usize = 0;
        while j < n
            invariant
                n == parents@.len(),
                p < n,
                j <= n,
                list@ == children_among(parents@, p as int, j as nat),
            decreases n - j,
        {
            match parents[j] {
                Some(parent) => {
                    if parent == p {
                        list.push(j);
                    }
                },
                None => {},
            }
            j = j + 1;
        }
        lists.push(list);
        p = p + 1;
    }
    lists
}

} // verus!
