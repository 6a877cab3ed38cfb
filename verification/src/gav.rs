//! The GAV tensor codec: a capture's root translations and joint rotations
//! packed into one tensor, and read back from it.
//!
//! A tensor of `J` joints and `F` frames has the axis lengths `(J + 1, F, 3)`.
//! Curve 0 is the translation of the root; curve `1 + j` holds the vector
//! part of the rotations of joint `j`. The real part of a rotation is not
//! stored, and reading gives every rotation a real part of zero: bringing it
//! to unit length is arithmetic on the samples, which is left to the caller.
use crate::error::GavError;
use crate::math::{Quat, Vec3};
use crate::tensor::{
    array3_dim, array3_index, axis_or_one, offset_of, shape_in_range, shape_matches, tensor_dim,
    tensor_elems, GavTensor,
};
use vstd::prelude::*;

verus! {

/// The poses of a capture: for every joint its local position and its local
/// rotation in every frame. Joint 0 is the root.
#[derive(Clone, Debug, PartialEq, Eq)]
pub struct BvhData {
    pub pose_local_positions: Vec<Vec<Vec3>>,
    pub pose_local_rotations: Vec<Vec<Quat>>,
}

/// What a tensor holds: the translation of the root and the rotation of
/// every joint, frame by frame.
#[derive(Clone, Debug, PartialEq, Eq)]
pub struct Animation {
    pub root_positions: Vec<Vec3>,
    pub joint_rotations: Vec<Vec<Quat>>,
}

/// The components of a run of vectors, one after the other.
pub open spec fn vec3_words(s: Seq<Vec3>) -> Seq<u32> {
    Seq::new(3 * s.len(), |w: int| s[w / 3].component(w % 3))
}

/// The vector parts of a run of quaternions, component by component.
pub open spec fn quat_words(s: Seq<Quat>) -> Seq<u32> {
    Seq::new(3 * s.len(), |w: int| s[w / 3].spec_vector().component(w % 3))
}

/// The vector parts of the rotations of every joint, joint after joint.
pub open spec fn curves_words(curves: Seq<Vec<Quat>>) -> Seq<u32>
    decreases curves.len(),
{
    if curves.len() == 0 {
        Seq::empty()
    } else {
        curves_words(curves.drop_last()) + quat_words(curves.last()@)
    }
}

impl BvhData {
    /// The words of the tensor that holds the capture: the translations of
    /// the root, then the vector parts of the rotations of every joint.
    pub open spec fn words(self) -> Seq<u32>
        recommends
            self.pose_local_positions@.len() > 0,
    {
        vec3_words(self.pose_local_positions@[0]@) + curves_words(self.pose_local_rotations@)
    }

    /// Whether the root and every joint have one sample for each of
    /// `frame_count` frames.
    pub open spec fn well_formed(self, frame_count: nat) -> bool {
        &&& self.pose_local_positions@.len() > 0
        &&& self.pose_local_positions@[0]@.len() == frame_count
        &&& forall|j: int|
            0 <= j < self.pose_local_rotations@.len() ==> (
            #[trigger] self.pose_local_rotations@[j])@.len() == frame_count
    }
}

impl Animation {
    #[verifier::when_used_as_spec(spec_joint_count)]
    pub fn joint_count(&self) -> (n: usize)
        ensures
            n == self.spec_joint_count(),
    {
        self.joint_rotations.len()
    }

    pub open spec fn spec_joint_count(&self) -> usize {
        self.joint_rotations@.len() as usize
    }

    #[verifier::when_used_as_spec(spec_frame_count)]
    pub fn frame_count(&self) -> (n: usize)
        ensures
            n == self.spec_frame_count(),
    {
        self.root_positions.len()
    }

    pub open spec fn spec_frame_count(&self) -> usize {
        self.root_positions@.len() as usize
    }
}

/// The vector that curve `i` of a tensor holds for frame `f`.
pub open spec fn tensor_vec3(t: GavTensor, i: int, f: int) -> Vec3 {
    Vec3 {
        x: tensor_elems(t)[offset_of(tensor_dim(t), i, f, 0)],
        y: tensor_elems(t)[offset_of(tensor_dim(t), i, f, 1)],
        z: tensor_elems(t)[offset_of(tensor_dim(t), i, f, 2)],
    }
}

/// Whether `t` is the tensor of the capture `data` over `frame_count` frames.
pub open spec fn encodes(data: BvhData, frame_count: nat, t: GavTensor) -> bool {
    &&& shape_matches(data.pose_local_rotations@.len() + 1, frame_count, 3, data.words().len())
    &&& tensor_dim(t) == ((data.pose_local_rotations@.len() + 1) as nat, frame_count, 3nat)
    &&& tensor_elems(t) == data.words()
}

/// Whether `a` is what the tensor `t` holds: curve 0 as the translations of
/// the root, and every further curve as the rotations of a joint, each with
/// the stored vector part and a real part of zero.
pub open spec fn decodes(t: GavTensor, a: Animation) -> bool {
    let dim = tensor_dim(t);
    &&& dim.0 >= 1
    &&& dim.2 == 3
    &&& a.root_positions@ == Seq::new(dim.1, |f: int| tensor_vec3(t, 0, f))
    &&& a.joint_rotations@.len() == dim.0 - 1
    &&& forall|j: int|
        0 <= j < dim.0 - 1 ==> (#[trigger] a.joint_rotations@[j])@ == Seq::new(
            dim.1,
            |f: int| Quat::spec_pure(tensor_vec3(t, j + 1, f)),
        )
}

proof fn lemma_vec3_words_push(s: Seq<Vec3>, v: Vec3)
    ensures
        vec3_words(s.push(v)) == vec3_words(s).push(v.x).push(v.y).push(v.z),
{
    assert(vec3_words(s.push(v)) =~= vec3_words(s).push(v.x).push(v.y).push(v.z));
}

proof fn lemma_quat_words_push(s: Seq<Quat>, q: Quat)
    ensures
        quat_words(s.push(q)) == quat_words(s).push(q.x).push(q.y).push(q.z),
{
    assert(quat_words(s.push(q)) =~= quat_words(s).push(q.x).push(q.y).push(q.z));
}

/// The vector parts of `n` curves of `frame_count` rotations each take
/// `n * frame_count * 3` words.
proof fn lemma_curves_words_len(curves: Seq<Vec<Quat>>, frame_count: nat)
    requires
        forall|j: int| 0 <= j < curves.len() ==> (#[trigger] curves[j])@.len() == frame_count,
    ensures
        curves_words(curves).len() == curves.len() * frame_count * 3,
    decreases curves.len(),
{
    if curves.len() == 0 {
        assert(0 * frame_count * 3 == 0) by (nonlinear_arith);
    } else {
        lemma_curves_words_len(curves.drop_last(), frame_count);
        assert((curves.len() - 1) * frame_count * 3 + 3 * frame_count == curves.len() * frame_count
            * 3) by (nonlinear_arith);
    }
}

/// Where the words of curves of equal length stand: component `k` of
/// rotation `f` of curve `j` is word `(j * frame_count + f) * 3 + k`.
proof fn lemma_curves_words_index(curves: Seq<Vec<Quat>>, frame_count: nat, j: int, f: int, k: int)
    requires
        forall|i: int| 0 <= i < curves.len() ==> (#[trigger] curves[i])@.len() == frame_count,
        0 <= j < curves.len(),
        0 <= f < frame_count,
        0 <= k < 3,
    ensures
        0 <= (j * frame_count + f) * 3 + k < curves_words(curves).len(),
        curves_words(curves)[(j * frame_count + f) * 3 + k] == curves[j]@[f].spec_vector().component(
            k,
        ),
    decreases curves.len(),
{
    let n = curves.len() as int;
    let w = (j * frame_count + f) * 3 + k;
    lemma_curves_words_len(curves, frame_count);
    lemma_curves_words_len(curves.drop_last(), frame_count);
    let head = (n - 1) * frame_count * 3;
    assert(head + 3 * frame_count == n * frame_count * 3) by (nonlinear_arith)
        requires
            head == (n - 1) * frame_count * 3,
    ;
    if j < n - 1 {
        lemma_curves_words_index(curves.drop_last(), frame_count, j, f, k);
    } else {
        assert(w == head + (3 * f + k)) by (nonlinear_arith)
            requires
                w == (j * frame_count + f) * 3 + k,
                j == n - 1,
                head == (n - 1) * frame_count * 3,
        ;
        assert(0 <= 3 * f + k < 3 * frame_count);
        assert((3 * f + k) / 3 == f);
        assert((3 * f + k) % 3 == k);
        assert(curves_words(curves)[w] == quat_words(curves.last()@)[3 * f + k]);
    }
}

/// A capture with one sample per frame and curve has as many words as the
/// tensor of its frames and joints has elements.
proof fn lemma_well_formed_fills(data: BvhData, frame_count: nat)
    requires
        data.well_formed(frame_count),
    ensures
        data.words().len() == (data.pose_local_rotations@.len() + 1) * frame_count * 3,
{
    lemma_curves_words_len(data.pose_local_rotations@, frame_count);
    let n = data.pose_local_rotations@.len();
    assert(3 * frame_count + n * frame_count * 3 == (n + 1) * frame_count * 3)
        by (nonlinear_arith);
}

/// Reading the tensor of a capture gives back the translations of the root
/// as they were, and of every rotation the vector part as it was, with a
/// real part of zero.
pub proof fn lemma_decode_of_encode(data: BvhData, frame_count: nat, t: GavTensor, a: Animation)
    requires
        data.well_formed(frame_count),
        encodes(data, frame_count, t),
        decodes(t, a),
    ensures
        a.root_positions@ == data.pose_local_positions@[0]@,
        a.joint_rotations@.len() == data.pose_local_rotations@.len(),
        forall|j: int|
            0 <= j < data.pose_local_rotations@.len() ==> (#[trigger] a.joint_rotations@[j])@
                == data.pose_local_rotations@[j]@.map_values(
                |q: Quat| Quat::spec_pure(q.spec_vector()),
            ),
{
    let root = data.pose_local_positions@[0]@;
    let curves = data.pose_local_rotations@;
    let dim = tensor_dim(t);
    let head = vec3_words(root);
    assert forall|f: int| 0 <= f < frame_count implies a.root_positions@[f] == root[f] by {
        assert forall|k: int| 0 <= k < 3 implies #[trigger] tensor_elems(t)[offset_of(dim, 0, f, k)]
            == root[f].component(k) by {
            assert(offset_of(dim, 0, f, k) == 3 * f + k) by (nonlinear_arith)
                requires
                    dim.1 == frame_count,
                    dim.2 == 3,
            ;
            assert((3 * f + k) / 3 == f);
            assert((3 * f + k) % 3 == k);
            assert(data.words()[3 * f + k] == head[3 * f + k]);
        }
        assert(tensor_elems(t)[offset_of(dim, 0, f, 0)] == root[f].component(0));
        assert(tensor_elems(t)[offset_of(dim, 0, f, 1)] == root[f].component(1));
        assert(tensor_elems(t)[offset_of(dim, 0, f, 2)] == root[f].component(2));
    }
    assert(a.root_positions@ =~= root);
    assert forall|j: int| 0 <= j < curves.len() implies (#[trigger] a.joint_rotations@[j])@
        == curves[j]@.map_values(|q: Quat| Quat::spec_pure(q.spec_vector())) by {
        let got = a.joint_rotations@[j]@;
        let want = curves[j]@.map_values(|q: Quat| Quat::spec_pure(q.spec_vector()));
        assert forall|f: int| 0 <= f < frame_count implies got[f] == want[f] by {
            assert forall|k: int| 0 <= k < 3 implies #[trigger] tensor_elems(t)[offset_of(
                dim,
                j + 1,
                f,
                k,
            )] == curves[j]@[f].spec_vector().component(k) by {
                lemma_curves_words_index(curves, frame_count, j, f, k);
                assert(offset_of(dim, j + 1, f, k) == 3 * frame_count + ((j * frame_count + f) * 3
                    + k)) by (nonlinear_arith)
                    requires
                        dim.1 == frame_count,
                        dim.2 == 3,
                ;
            }
            assert(tensor_elems(t)[offset_of(dim, j + 1, f, 0)]
                == curves[j]@[f].spec_vector().component(0));
            assert(tensor_elems(t)[offset_of(dim, j + 1, f, 1)]
                == curves[j]@[f].spec_vector().component(1));
            assert(tensor_elems(t)[offset_of(dim, j + 1, f, 2)]
                == curves[j]@[f].spec_vector().component(2));
        }
        assert(got =~= want);
    }
}

/// The tensor of a capture over `frame_count` frames.
///
/// The capture has a root. It is an error if the samples do not fill a
/// tensor of `frame_count` frames, or if such a tensor is beyond the size
/// limit of an array.
pub fn bvh_to_gav(bvh_data: &BvhData, frame_count: usize) -> (r: Result<GavTensor, GavError>)
    requires
        bvh_data.pose_local_positions@.len() > 0,
    ensures
        match r {
            Ok(t) => encodes(*bvh_data, frame_count as nat, t),
            Err(e) => e == GavError::ShapeMismatch && !shape_matches(
                bvh_data.pose_local_rotations@.len() + 1,
                frame_count as nat,
                3,
                bvh_data.words().len(),
            ),
        },
        bvh_data.well_formed(frame_count as nat) && shape_in_range(
            bvh_data.pose_local_rotations@.len() + 1,
            frame_count as nat,
            3,
        ) ==> r is Ok,
{
    proof {
        if bvh_data.well_formed(frame_count as nat) {
            lemma_well_formed_fills(*bvh_data, frame_count as nat);
        }
    }
    let joint_count: usize = bvh_data.pose_local_rotations.len();
    let mut data: Vec<u32> = Vec::new();
    let root = &bvh_data.pose_local_positions[0];
    let mut f: usize = 0;
    assert(data@ =~= vec3_words(root@.take(0)));
    while f < root.len()
        invariant
            f <= root@.len(),
            data@ == vec3_words(root@.take(f as int)),
        decreases root@.len() - f,
    {
        let frame = root[f];
        proof {
            lemma_vec3_words_push(root@.take(f as int), frame);
            assert(root@.take(f as int).push(frame) =~= root@.take(f + 1));
        }
        data.push(frame.x);
        data.push(frame.y);
        data.push(frame.z);
        f = f + 1;
    }
    assert(root@.take(f as int) =~= root@);
    let ghost curves = bvh_data.pose_local_rotations@;
    let mut j: usize = 0;
    assert(data@ =~= vec3_words(root@) + curves_words(curves.take(0)));
    while j < joint_count
        invariant
            j <= joint_count,
            joint_count == curves.len(),
            curves == bvh_data.pose_local_rotations@,
            data@ == vec3_words(root@) + curves_words(curves.take(j as int)),
        decreases joint_count - j,
    {
        let joint = &bvh_data.pose_local_rotations[j];
        let ghost before = data@;
        let mut q: usize = 0;
        assert(data@ =~= before + quat_words(joint@.take(0)));
        while q < joint.len()
            invariant
                q <= joint@.len(),
                data@ == before + quat_words(joint@.take(q as int)),
            decreases joint@.len() - q,
        {
            let quat = joint[q];
            proof {
                lemma_quat_words_push(joint@.take(q as int), quat);
                assert(joint@.take(q as int).push(quat) =~= joint@.take(q + 1));
                assert(before + quat_words(joint@.take(q as int)).push(quat.x).push(quat.y).push(
                    quat.z,
                ) =~= (before + quat_words(joint@.take(q as int))).push(quat.x).push(quat.y).push(
                    quat.z,
                ));
            }
            data.push(quat.x);
            data.push(quat.y);
            data.push(quat.z);
            q = q + 1;
        }
        proof {
            assert(joint@.take(q as int) =~= joint@);
            assert(curves.take(j + 1).drop_last() =~= curves.take(j as int));
            assert(curves.take(j + 1).last() == curves[j as int]);
            assert(data@ =~= vec3_words(root@) + curves_words(curves.take(j + 1)));
        }
        j = j + 1;
    }
    assert(curves.take(j as int) =~= curves);
    if joint_count == usize::MAX {
        proof {
            lemma_too_many_curves(frame_count as nat);
        }
        return Err(GavError::ShapeMismatch);
    }
    GavTensor::from_shape_vec((joint_count + 1, frame_count, 3), data)
}

proof fn lemma_too_many_curves(frame_count: nat)
    ensures
        !shape_in_range(usize::MAX as nat + 1, frame_count, 3),
{
    let a = axis_or_one(usize::MAX as nat + 1);
    let b = axis_or_one(frame_count);
    assert(a * b * 3 > isize::MAX as nat) by (nonlinear_arith)
        requires
            a > isize::MAX as nat,
            b >= 1,
    ;
}

/// The translations of the root and the rotations of every joint that a
/// tensor holds.
///
/// It is an error if the tensor has no curve at all, or if a sample of it
/// does not have three components.
pub fn gav_to_animation(gav_data: GavTensor) -> (r: Result<Animation, GavError>)
    ensures
        match r {
            Ok(a) => decodes(gav_data, a),
            Err(e) => if tensor_dim(gav_data).0 == 0 {
                e == GavError::EmptyTensorError
            } else {
                e == GavError::ShapeMismatch && tensor_dim(gav_data).2 != 3
            },
        },
{
    let (curve_count, frame_count, width) = array3_dim(&gav_data);
    if curve_count == 0 {
        return Err(GavError::EmptyTensorError);
    }
    if width != 3 {
        return Err(GavError::ShapeMismatch);
    }
    let root_positions = read_curve(&gav_data, 0);
    let mut joint_rotations: Vec<Vec<Quat>> = Vec::new();
    let mut i: usize = 1;
    while i < curve_count
        invariant
            1 <= i <= curve_count,
            tensor_dim(gav_data) == (curve_count as nat, frame_count as nat, 3nat),
            joint_rotations@.len() == i - 1,
            forall|j: int|
                0 <= j < i - 1 ==> (#[trigger] joint_rotations@[j])@ == Seq::new(
                    frame_count as nat,
                    |f: int| Quat::spec_pure(tensor_vec3(gav_data, j + 1, f)),
                ),
        decreases curve_count - i,
    {
        let vectors = read_curve(&gav_data, i);
        let mut rotations: Vec<Quat> = Vec::new();
        let mut f: usize = 0;
        while f < vectors.len()
            invariant
                f <= vectors@.len(),
                rotations@.len() == f,
                forall|g: int| 0 <= g < f ==> rotations@[g] == Quat::spec_pure(vectors@[g]),
            decreases vectors@.len() - f,
        {
            rotations.push(Quat::pure(vectors[f]));
            f = f + 1;
        }
        assert(rotations@ =~= Seq::new(
            frame_count as nat,
            |f: int| Quat::spec_pure(tensor_vec3(gav_data, i as int, f)),
        ));
        joint_rotations.push(rotations);
        i = i + 1;
    }
    Ok(Animation { root_positions, joint_rotations })
}

/// The vectors of curve `i` of a tensor, frame by frame.
fn read_curve(gav_data: &GavTensor, i: usize) -> (curve: Vec<Vec3>)
    requires
        i < tensor_dim(*gav_data).0,
        tensor_dim(*gav_data).2 == 3,
    ensures
        curve@ == Seq::new(tensor_dim(*gav_data).1, |f: int| tensor_vec3(*gav_data, i as int, f)),
{
    let (_, frame_count, _) = array3_dim(gav_data);
    let mut curve: Vec<Vec3> = Vec::new();
    let mut f: usize = 0;
    while f < frame_count
        invariant
            f <= frame_count,
            frame_count == tensor_dim(*gav_data).1,
            i < tensor_dim(*gav_data).0,
            tensor_dim(*gav_data).2 == 3,
            curve@.len() == f,
            forall|g: int| 0 <= g < f ==> curve@[g] == tensor_vec3(*gav_data, i as int, g),
        decreases frame_count - f,
    {
        let x = array3_index(gav_data, i, f, 0);
        let y = array3_index(gav_data, i, f, 1);
        let z = array3_index(gav_data, i, f, 2);
        curve.push(Vec3::new(x, y, z));
        f = f + 1;
    }
    assert(curve@ =~= Seq::new(
        tensor_dim(*gav_data).1,
        |f: int| tensor_vec3(*gav_data, i as int, f),
    ));
    curve
}

} // verus!
