use vstd::prelude::*;

verus! {

/// `image::ImageError`, carried through as it is.
#[verifier::external_type_specification]
#[verifier::external_body]
pub struct ExImageError(image::ImageError);

/// What can go wrong while loading or exporting a composition.
#[derive(Debug)]
pub enum MakuError {
    /// The image codec failed.
    Image(image::ImageError),
    /// A canvas or an image has no pixels, or the resources handed in do not
    /// answer the composition's requests one for one.
    InvalidComposition,
    /// A pixel buffer does not hold four bytes for each pixel of its size.
    BufferSize,
}

} // verus!
