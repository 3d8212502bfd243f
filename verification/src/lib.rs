//! A verified contract for elliptic-curve cryptographic groups.
//!
//! The crate states, as traits with specification-level models and proof
//! obligations, what any concrete curve implementation must provide: the
//! additive group algebra, the dual affine/projective point representations
//! and the lossless conversions between them, a canonical byte encoding with
//! checked and unchecked decoding, and the relationship between a curve's
//! full group and its prime-order subgroup. A small toy group of order 21
//! (prime order 7, cofactor 3) implements the whole surface, which shows the
//! obligations are satisfiable and pins the intended semantics down.

pub mod cofactor;
pub mod ct;
pub mod curve;
pub mod toy;

pub use cofactor::Cofactor;
pub use ct::CtBool;
pub use ct::CtOpt;
pub use curve::batch_normalize;
pub use curve::random;
pub use curve::smul_v;
pub use curve::Coordinates;
pub use curve::CoordinatesJac;
pub use curve::CtSelectable;
pub use curve::Curve;
pub use curve::CurveAffine;
pub use curve::Encoding;
pub use curve::FieldElement;
pub use curve::Group;
pub use curve::GroupOps;
pub use curve::GroupOpsOwned;
pub use curve::ScalarField;
pub use curve::ScalarMul;
pub use curve::ScalarMulOwned;
pub use curve::UncompressedEncoding;
pub use toy::Fp7;
pub use toy::Fq23;
pub use toy::ToyAffine;
pub use toy::ToyPoint;
pub use toy::ToyRepr;
pub use toy::ToySubgroup;
pub use toy::ToyUncompressed;
