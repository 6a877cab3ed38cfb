//! Error values of the conversions.
use crate::bvh::ChannelType;
use vstd::prelude::*;

verus! {

/// Why a tensor could not be built or read.
#[derive(Clone, Copy, Debug, PartialEq, Eq, Structural)]
pub enum GavError {
    /// The number of samples is not the product of the axis lengths, or the
    /// axis lengths are not those of a GAV tensor.
    ShapeMismatch,
    /// The tensor has no curve at all, not even the translation of the root.
    EmptyTensorError,
}

/// Why a capture could not be converted.
#[derive(Clone, Debug, PartialEq, Eq)]
pub enum BvhAssetLoaderError {
    /// The skeleton has no root joint, or its joints do not form a tree.
    StructureError,
    /// A channel has no value in some frame, or the channels of a joint do
    /// not have one sample each for every frame.
    DataError,
    /// The rotation channels of a joint, in the order given, are neither
    /// X, Y, Z nor Z, X, Y.
    UnsupportedRotationOrder(Vec<ChannelType>),
    /// A curve needs at least two samples.
    InsufficientSamples,
}

/// An error with the observed rotation channels as a sequence.
pub enum BvhAssetLoaderErrorView {
    StructureError,
    DataError,
    UnsupportedRotationOrder(Seq<ChannelType>),
    InsufficientSamples,
}

impl View for BvhAssetLoaderError {
    type V = BvhAssetLoaderErrorView;

    open spec fn view(&self) -> BvhAssetLoaderErrorView {
        match self {
            BvhAssetLoaderError::StructureError => BvhAssetLoaderErrorView::StructureError,
            BvhAssetLoaderError::DataError => BvhAssetLoaderErrorView::DataError,
            BvhAssetLoaderError::UnsupportedRotationOrder(observed) => {
                BvhAssetLoaderErrorView::UnsupportedRotationOrder(observed@)
            },
            BvhAssetLoaderError::InsufficientSamples => BvhAssetLoaderErrorView::InsufficientSamples,
        }
    }
}

} // verus!
