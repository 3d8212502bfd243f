use vstd::prelude::*;

use crate::ct::draw_u64;
use crate::ct::CtBool;
use crate::ct::CtOpt;

verus! {

/// Constant-time selection between two values of a type: the result is chosen
/// by masking on the choice bit, never by branching on it.
pub trait CtSelectable: Sized {
    fn conditional_select(a: &Self, b: &Self, c: &CtBool) -> (r: Self)
        requires
            c.wf(),
        ensures
            r == if c.is_set() { *b } else { *a },
    ;
}

/// An element of the base field that point coordinates live in. Elements are
/// modelled by their residue `as_nat`, which well-formed values keep reduced
/// and canonical.
pub trait FieldElement: CtSelectable + Sized + Copy {
    /// The field's characteristic.
    spec fn modulus() -> nat;

    /// Well-formed (reduced) elements, as the field's operations produce them.
    spec fn wf(self) -> bool;

    /// The residue this element stands for.
    spec fn as_nat(self) -> nat;

    /// Well-formed elements are reduced modulo a nontrivial modulus.
    proof fn lemma_wf(self)
        requires
            self.wf(),
        ensures
            Self::modulus() >= 2,
            self.as_nat() < Self::modulus(),
    ;

    /// Well-formed elements are canonical: equal residues are equal values.
    proof fn lemma_canonical(a: Self, b: Self)
        requires
            a.wf(),
            b.wf(),
            a.as_nat() == b.as_nat(),
        ensures
            a == b,
    ;

    fn zero() -> (r: Self)
        ensures
            r.wf(),
            r.as_nat() == 0,
    ;

    fn ct_eq(&self, rhs: &Self) -> (r: CtBool)
        requires
            self.wf(),
            rhs.wf(),
        ensures
            r.wf(),
            r.is_set() <==> self.as_nat() == rhs.as_nat(),
    ;
}

/// A prime field of scalars with full field arithmetic, every operation
/// specified exactly on the residues.
pub trait ScalarField: FieldElement {
    fn one() -> (r: Self)
        ensures
            r.wf(),
            r.as_nat() == 1,
    ;

    fn add(&self, rhs: &Self) -> (r: Self)
        requires
            self.wf(),
            rhs.wf(),
        ensures
            r.wf(),
            r.as_nat() == (self.as_nat() + rhs.as_nat()) % Self::modulus(),
    ;

    fn sub(&self, rhs: &Self) -> (r: Self)
        requires
            self.wf(),
            rhs.wf(),
        ensures
            r.wf(),
            r.as_nat() == (self.as_nat() + Self::modulus() - rhs.as_nat()) % (
            Self::modulus() as int),
    ;

    fn mul(&self, rhs: &Self) -> (r: Self)
        requires
            self.wf(),
            rhs.wf(),
        ensures
            r.wf(),
            r.as_nat() == (self.as_nat() * rhs.as_nat()) % Self::modulus(),
    ;

    fn neg(&self) -> (r: Self)
        requires
            self.wf(),
        ensures
            r.wf(),
            r.as_nat() == (Self::modulus() - self.as_nat()) % (Self::modulus() as int),
    ;

    /// The multiplicative inverse; there is none exactly for zero.
    fn invert(&self) -> (r: CtOpt<Self>)
        requires
            self.wf(),
        ensures
            r.wf(),
            r.is_valid() <==> self.as_nat() != 0,
            r.is_valid() ==> r.val().wf() && (self.as_nat() * r.val().as_nat())
                % Self::modulus() == 1,
    ;
}

/// An element of a cryptographic group. A value is modelled by its view (the
/// abstract group value it carries); the group's algebra is stated over views
/// by the spec functions below, and the group axioms are proof obligations on
/// every implementation.
pub trait Group: View + Sized + Copy {
    /// Scalars modulo the order of this group's scalar field.
    type Scalar: ScalarField;

    /// Well-formed values, as every safe constructor produces them.
    spec fn wf(self) -> bool;

    /// The abstract values that are elements of the group.
    spec fn valid_v(a: Self::V) -> bool;

    /// Abstract addition of group values.
    spec fn add_v(a: Self::V, b: Self::V) -> Self::V;

    /// The abstract additive inverse.
    spec fn neg_v(a: Self::V) -> Self::V;

    /// The abstract identity (neutral) element.
    spec fn id_v() -> Self::V;

    /// The abstract value of the fixed generator.
    spec fn gen_v() -> Self::V;

    /// The additive group axioms: associativity, commutativity, the identity
    /// as neutral element, additive inverses, and closure.
    proof fn lemma_axioms(a: Self::V, b: Self::V, c: Self::V)
        requires
            Self::valid_v(a),
            Self::valid_v(b),
            Self::valid_v(c),
        ensures
            Self::add_v(Self::add_v(a, b), c) == Self::add_v(a, Self::add_v(b, c)),
            Self::add_v(a, b) == Self::add_v(b, a),
            Self::add_v(a, Self::id_v()) == a,
            Self::add_v(a, Self::neg_v(a)) == Self::id_v(),
            Self::valid_v(Self::add_v(a, b)),
            Self::valid_v(Self::neg_v(a)),
    ;

    /// The identity and the generator are elements, and the generator is not
    /// the identity.
    proof fn lemma_constants()
        ensures
            Self::valid_v(Self::id_v()),
            Self::valid_v(Self::gen_v()),
            Self::gen_v() != Self::id_v(),
    ;

    /// Every well-formed value carries a group element.
    proof fn lemma_wf_valid(self)
        requires
            self.wf(),
        ensures
            Self::valid_v(self@),
    ;

    /// The additive identity, also known as the "neutral element".
    fn identity() -> (r: Self)
        ensures
            r.wf(),
            r@ == Self::id_v(),
    ;

    /// A fixed, public, non-identity generator.
    fn generator() -> (r: Self)
        ensures
            r.wf(),
            r@ == Self::gen_v(),
    ;

    /// Whether this element is the identity, in constant time.
    fn is_identity(&self) -> (r: CtBool)
        requires
            self.wf(),
        ensures
            r.wf(),
            r.is_set() <==> self@ == Self::id_v(),
    ;

    /// Exact equality of the carried group values, in constant time.
    fn ct_eq(&self, rhs: &Self) -> (r: CtBool)
        requires
            self.wf(),
            rhs.wf(),
        ensures
            r.wf(),
            r.is_set() <==> self@ == rhs@,
    ;

    /// The additive inverse.
    fn neg(&self) -> (r: Self)
        requires
            self.wf(),
        ensures
            r.wf(),
            r@ == Self::neg_v(self@),
    ;

    /// Derives a well-formed, non-identity element from one draw of entropy;
    /// `random` builds on this.
    fn from_entropy(e: u64) -> (r: Self)
        ensures
            r.wf(),
            r@ != Self::id_v(),
    ;
}

/// Samples an element from the non-identity elements of the group, consuming
/// entropy from the caller-supplied generator. Non-determinism is confined to
/// the one entropy draw; what is promised holds of every outcome.
pub fn random<G: Group, R: rand_core::Rng>(rng: &mut R) -> (r: G)
    ensures
        r.wf(),
        r@ != G::id_v(),
{
    let e = draw_u64(rng);
    G::from_entropy(e)
}

/// A helper trait for types with a group operation.
pub trait GroupOps: Group {
    fn add(&self, rhs: &Self) -> (r: Self)
        requires
            self.wf(),
            rhs.wf(),
        ensures
            r.wf(),
            r@ == Self::add_v(self@, rhs@),
    ;

    fn sub(&self, rhs: &Self) -> (r: Self)
        requires
            self.wf(),
            rhs.wf(),
        ensures
            r.wf(),
            r@ == Self::add_v(self@, Self::neg_v(rhs@)),
    ;
}

/// A helper trait for the owned, consuming forms of the group operation.
pub trait GroupOpsOwned: GroupOps {
    fn add_owned(self, rhs: Self) -> (r: Self)
        requires
            self.wf(),
            rhs.wf(),
        ensures
            r.wf(),
            r@ == Self::add_v(self@, rhs@),
    {
        self.add(&rhs)
    }

    fn sub_owned(self, rhs: Self) -> (r: Self)
        requires
            self.wf(),
            rhs.wf(),
        ensures
            r.wf(),
            r@ == Self::add_v(self@, Self::neg_v(rhs@)),
    {
        self.sub(&rhs)
    }
}

/// Scalar multiplication as iterated abstract addition.
pub open spec fn smul_v<G: Group>(g: <G as View>::V, n: nat) -> <G as View>::V
    decreases n,
{
    if n == 0 {
        G::id_v()
    } else {
        G::add_v(smul_v::<G>(g, (n - 1) as nat), g)
    }
}

/// A helper trait for types implementing group scalar multiplication.
pub trait ScalarMul: Group {
    fn mul(&self, s: &Self::Scalar) -> (r: Self)
        requires
            self.wf(),
            s.wf(),
        ensures
            r.wf(),
            r@ == smul_v::<Self>(self@, s.as_nat()),
    ;
}

/// A helper trait for the owned, consuming form of scalar multiplication.
pub trait ScalarMulOwned: ScalarMul {
    fn mul_owned(self, s: Self::Scalar) -> (r: Self)
        requires
            self.wf(),
            s.wf(),
        ensures
            r.wf(),
            r@ == smul_v::<Self>(self@, s.as_nat()),
    {
        self.mul(&s)
    }
}

/// A group with a fixed-size canonical byte encoding. Encoding is total;
/// decoding is partial, and `decode_v` names exactly the byte strings that
/// carry an element.
pub trait Encoding: Group {
    /// The fixed-size encoding of group elements.
    type Repr: Copy;

    /// The canonical encoding of a group value.
    spec fn encode_v(a: Self::V) -> Self::Repr;

    /// The abstract decode: which encodings carry which group value.
    spec fn decode_v(r: Self::Repr) -> Option<Self::V>;

    /// Decoding is left inverse to encoding, and decodes only to elements.
    proof fn lemma_codec(a: Self::V, r: Self::Repr, b: Self::V)
        ensures
            Self::valid_v(a) ==> Self::decode_v(Self::encode_v(a)) == Some(a),
            Self::decode_v(r) == Some(b) ==> Self::valid_v(b),
    ;

    /// Converts this element into its canonical byte encoding.
    fn to_bytes(&self) -> (r: Self::Repr)
        requires
            self.wf(),
        ensures
            r == Self::encode_v(self@),
    ;

    /// Attempts to deserialize a group element from its encoding, checking
    /// every invariant the type promises. This is the only decoding entry
    /// point that is safe on untrusted input.
    fn from_bytes(bytes: &Self::Repr) -> (r: CtOpt<Self>)
        ensures
            r.wf(),
            r.is_valid() <==> Self::decode_v(*bytes) is Some,
            r.is_valid() ==> r.val().wf() && Self::decode_v(*bytes) == Some(r.val()@),
    ;

    /// Attempts to deserialize a group element without checking validity.
    ///
    /// This is dangerous to call unless the bytes are trusted (for instance,
    /// previously written by `to_bytes`): on other input the result may break
    /// the type's invariants, which no later call detects. On bytes that the
    /// checked decode accepts, it agrees with the checked decode.
    fn from_bytes_unchecked(bytes: &Self::Repr) -> (r: CtOpt<Self>)
        ensures
            r.wf(),
            Self::decode_v(*bytes) is Some ==> r.is_valid() && r.val().wf() && Self::decode_v(
                *bytes,
            ) == Some(r.val()@),
    ;
}

/// A group whose points also have a larger, uncompressed byte encoding, with
/// the same checked/unchecked split as `Encoding`. How the identity is
/// encoded in this form is representation-defined and documented per
/// implementation.
pub trait UncompressedEncoding: Group {
    /// The fixed-size uncompressed encoding of group elements.
    type Uncompressed: Copy;

    /// The canonical uncompressed encoding of a group value.
    spec fn uncompressed_encode_v(a: Self::V) -> Self::Uncompressed;

    /// The abstract uncompressed decode.
    spec fn uncompressed_decode_v(r: Self::Uncompressed) -> Option<Self::V>;

    /// Uncompressed decoding is left inverse to encoding, and decodes only to
    /// elements.
    proof fn lemma_uncompressed_codec(a: Self::V, r: Self::Uncompressed, b: Self::V)
        ensures
            Self::valid_v(a) ==> Self::uncompressed_decode_v(Self::uncompressed_encode_v(a))
                == Some(a),
            Self::uncompressed_decode_v(r) == Some(b) ==> Self::valid_v(b),
    ;

    /// Converts this element into its uncompressed encoding.
    fn to_uncompressed(&self) -> (r: Self::Uncompressed)
        requires
            self.wf(),
        ensures
            r == Self::uncompressed_encode_v(self@),
    ;

    /// Attempts to deserialize an element from its uncompressed encoding,
    /// checking every invariant the type promises.
    fn from_uncompressed(bytes: &Self::Uncompressed) -> (r: CtOpt<Self>)
        ensures
            r.wf(),
            r.is_valid() <==> Self::uncompressed_decode_v(*bytes) is Some,
            r.is_valid() ==> r.val().wf() && Self::uncompressed_decode_v(*bytes) == Some(
                r.val()@,
            ),
    ;

    /// Attempts to deserialize an uncompressed element without checking
    /// validity. Dangerous on untrusted input, exactly as
    /// `Encoding::from_bytes_unchecked`.
    fn from_uncompressed_unchecked(bytes: &Self::Uncompressed) -> (r: CtOpt<Self>)
        ensures
            r.wf(),
            Self::uncompressed_decode_v(*bytes) is Some ==> r.is_valid() && r.val().wf()
                && Self::uncompressed_decode_v(*bytes) == Some(r.val()@),
    ;
}

/// The validated affine coordinates of a point on an elliptic curve, over the
/// curve's base field. A live value is on the curve by construction: the only
/// public constructor checks the curve equation.
#[derive(Clone, Copy)]
pub struct Coordinates<B> {
    pub(crate) x: B,
    pub(crate) y: B,
}

/// The validated projective (Jacobian-style) coordinates of a point on an
/// elliptic curve, on the curve by construction.
#[derive(Clone, Copy)]
pub struct CoordinatesJac<B> {
    pub(crate) x: B,
    pub(crate) y: B,
    pub(crate) z: B,
}

/// Affine representation of an elliptic curve point.
pub trait CurveAffine: Group + Encoding + CtSelectable {
    /// The projective representation of the same curve, carrying the same
    /// abstract points. (Bounding it by the full `Curve` trait would close a
    /// cycle between the two traits, so the bound names only what the
    /// contracts here use; a concrete curve's projective type implements
    /// `Curve` itself.)
    type Curve: Group + GroupOps + View<V = Self::V>;

    /// The base field of the point coordinates.
    type Base: FieldElement;

    /// Values that pass the curve check. Every well-formed value does; a
    /// value produced through an "unchecked" entry point may not.
    spec fn on_curve(self) -> bool;

    /// The affine curve equation: whether `(x, y)` is a finite curve point.
    spec fn on_curve_xy(x: Self::Base, y: Self::Base) -> bool;

    /// The abstract point carried by an on-curve coordinate pair.
    spec fn v_of_xy(x: Self::Base, y: Self::Base) -> Self::V;

    /// The coordinates of a non-identity abstract point.
    spec fn xy_of(a: Self::V) -> (Self::Base, Self::Base);

    /// The curve endomorphism on abstract points.
    spec fn endo_v(a: Self::V) -> Self::V;

    /// The deterministic hash-to-curve map.
    spec fn hash_v(domain_prefix: Seq<u8>, msg: Seq<u8>) -> Self::V;

    /// The curve constant `a` of the curve equation.
    spec fn a_v() -> Self::Base;

    /// The curve constant `b` of the curve equation.
    spec fn b_v() -> Self::Base;

    /// Well-formed points pass the curve check.
    proof fn lemma_wf_on_curve(self)
        requires
            self.wf(),
        ensures
            self.on_curve(),
    ;

    /// On-curve coordinate pairs carry exactly the non-identity elements,
    /// and coordinates are faithful: they determine the point, and the point
    /// determines them.
    proof fn lemma_coordinates(x: Self::Base, y: Self::Base, a: Self::V)
        ensures
            Self::on_curve_xy(x, y) ==> Self::valid_v(Self::v_of_xy(x, y)) && Self::v_of_xy(x, y)
                != Self::id_v() && Self::xy_of(Self::v_of_xy(x, y)) == (x, y),
            Self::valid_v(a) && a != Self::id_v() ==> Self::on_curve_xy(
                Self::xy_of(a).0,
                Self::xy_of(a).1,
            ) && Self::v_of_xy(Self::xy_of(a).0, Self::xy_of(a).1) == a,
    ;

    /// The affine representation is canonical: well-formed values carrying
    /// the same point are equal. With the view-preservation contracts of
    /// `to_curve` and `Curve::to_affine`, this pins the affine/projective
    /// round trip down: converting to projective and back reproduces the
    /// original value exactly.
    proof fn lemma_canonical(a: Self, b: Self)
        requires
            a.wf(),
            b.wf(),
            a@ == b@,
        ensures
            a == b,
    ;

    /// The endomorphism is additive and preserves membership.
    proof fn lemma_endo(a: Self::V, b: Self::V)
        requires
            Self::valid_v(a),
            Self::valid_v(b),
        ensures
            Self::endo_v(Self::add_v(a, b)) == Self::add_v(Self::endo_v(a), Self::endo_v(b)),
            Self::valid_v(Self::endo_v(a)),
    ;

    /// Hashing lands in the group.
    proof fn lemma_hash_valid(domain_prefix: Seq<u8>, msg: Seq<u8>)
        ensures
            Self::valid_v(Self::hash_v(domain_prefix, msg)),
    ;

    /// Whether this point satisfies the curve equation, in constant time.
    /// True for every value a safe constructor produced.
    fn is_on_curve(&self) -> (r: CtBool)
        ensures
            r.wf(),
            r.is_set() <==> self.on_curve(),
    ;

    /// Converts this element to its projective representation.
    fn to_curve(&self) -> (r: Self::Curve)
        requires
            self.wf(),
        ensures
            r.wf(),
            r@ == self@,
    ;

    /// The coordinates of this point; "no value" exactly for the identity,
    /// which has no finite coordinates.
    fn coordinates(&self) -> (r: CtOpt<Coordinates<Self::Base>>)
        requires
            self.wf(),
        ensures
            r.wf(),
            r.is_valid() <==> self@ != Self::id_v(),
            r.is_valid() ==> (r.val().spec_x(), r.val().spec_y()) == Self::xy_of(self@),
    ;

    /// Obtains a point given `(x, y)`, failing if it is not on the curve.
    /// This is the sole safe path from raw field elements to a point.
    fn from_coordinates(x: Self::Base, y: Self::Base) -> (r: CtOpt<Self>)
        requires
            x.wf(),
            y.wf(),
        ensures
            r.wf(),
            r.is_valid() <==> Self::on_curve_xy(x, y),
            r.is_valid() ==> r.val().wf() && r.val()@ == Self::v_of_xy(x, y),
    ;

    /// The curve constant `a` of the curve equation: fixed and public.
    fn a() -> (r: Self::Base)
        ensures
            r.wf(),
            r == Self::a_v(),
    ;

    /// The curve constant `b` of the curve equation: fixed and public.
    fn b() -> (r: Self::Base)
        ensures
            r.wf(),
            r == Self::b_v(),
    ;

    /// Adds two affine points, in the efficient projective representation.
    fn add(&self, rhs: &Self) -> (r: Self::Curve)
        requires
            self.wf(),
            rhs.wf(),
        ensures
            r.wf(),
            r@ == Self::add_v(self@, rhs@),
    ;

    /// Subtracts two affine points, in the projective representation.
    fn sub(&self, rhs: &Self) -> (r: Self::Curve)
        requires
            self.wf(),
            rhs.wf(),
        ensures
            r.wf(),
            r@ == Self::add_v(self@, Self::neg_v(rhs@)),
    ;

    /// Scalar multiplication of an affine base point, in the projective
    /// representation.
    fn mul(&self, s: &Self::Scalar) -> (r: Self::Curve)
        requires
            self.wf(),
            s.wf(),
        ensures
            r.wf(),
            r@ == smul_v::<Self>(self@, s.as_nat()),
    ;

    /// Applies the curve endomorphism (classically, multiplying one
    /// coordinate by a fixed element of small multiplicative order).
    fn endo(&self) -> (r: Self)
        requires
            self.wf(),
        ensures
            r.wf(),
            r@ == Self::endo_v(self@),
    ;

    /// Deterministically maps a message to a curve point, separated by the
    /// domain prefix. Exposed for higher-level protocols.
    fn hash_to_curve(domain_prefix: &[u8], msg: &[u8]) -> (r: Self)
        ensures
            r.wf(),
            r@ == Self::hash_v(domain_prefix@, msg@),
    ;
}

/// Efficient (projective) representation of an elliptic curve point.
pub trait Curve: Group + CtSelectable + GroupOps + GroupOpsOwned + ScalarMul + ScalarMulOwned {
    /// The affine representation of the same curve, carrying the same
    /// abstract points.
    type Affine: CurveAffine + View<V = Self::V>;

    /// The base field of the point coordinates.
    type Base: FieldElement;

    /// Values that pass the curve check. Every well-formed value does.
    spec fn on_curve(self) -> bool;

    /// The projective curve equation: whether `(x, y, z)` is a valid
    /// representation of a finite curve point.
    spec fn on_curve_xyz(x: Self::Base, y: Self::Base, z: Self::Base) -> bool;

    /// The abstract point carried by valid projective coordinates.
    spec fn v_of_xyz(x: Self::Base, y: Self::Base, z: Self::Base) -> Self::V;

    /// The curve endomorphism on abstract points.
    spec fn endo_v(a: Self::V) -> Self::V;

    /// Well-formed points pass the curve check.
    proof fn lemma_wf_on_curve(self)
        requires
            self.wf(),
        ensures
            self.on_curve(),
    ;

    /// Valid projective coordinates carry non-identity elements.
    proof fn lemma_coordinates(x: Self::Base, y: Self::Base, z: Self::Base)
        requires
            Self::on_curve_xyz(x, y, z),
        ensures
            Self::valid_v(Self::v_of_xyz(x, y, z)),
            Self::v_of_xyz(x, y, z) != Self::id_v(),
    ;

    /// The endomorphism is additive and preserves membership.
    proof fn lemma_endo(a: Self::V, b: Self::V)
        requires
            Self::valid_v(a),
            Self::valid_v(b),
        ensures
            Self::endo_v(Self::add_v(a, b)) == Self::add_v(Self::endo_v(a), Self::endo_v(b)),
            Self::valid_v(Self::endo_v(a)),
    ;

    /// Whether this point satisfies the curve equation, in constant time.
    fn is_on_curve(&self) -> (r: CtBool)
        ensures
            r.wf(),
            r.is_set() <==> self.on_curve(),
    ;

    /// Converts this element into its affine representation.
    fn to_affine(&self) -> (r: Self::Affine)
        requires
            self.wf(),
        ensures
            r.wf(),
            r@ == self@,
    ;

    /// The projective coordinates of this point; "no value" exactly for the
    /// identity.
    fn coordinates(&self) -> (r: CtOpt<CoordinatesJac<Self::Base>>)
        requires
            self.wf(),
        ensures
            r.wf(),
            r.is_valid() <==> self@ != Self::id_v(),
            r.is_valid() ==> Self::on_curve_xyz(
                r.val().spec_x(),
                r.val().spec_y(),
                r.val().spec_z(),
            ) && Self::v_of_xyz(r.val().spec_x(), r.val().spec_y(), r.val().spec_z()) == self@,
    ;

    /// Obtains a point given `(x, y, z)`, failing if it is not a valid
    /// representation of a curve point.
    fn from_coordinates(x: Self::Base, y: Self::Base, z: Self::Base) -> (r: CtOpt<Self>)
        requires
            x.wf(),
            y.wf(),
            z.wf(),
        ensures
            r.wf(),
            r.is_valid() <==> Self::on_curve_xyz(x, y, z),
            r.is_valid() ==> r.val().wf() && r.val()@ == Self::v_of_xyz(x, y, z),
    ;

    /// Adds an affine point to this projective point.
    fn add_mixed(&self, rhs: &Self::Affine) -> (r: Self)
        requires
            self.wf(),
            rhs.wf(),
        ensures
            r.wf(),
            r@ == Self::add_v(self@, rhs@),
    ;

    /// Doubles this element; correct at the identity too.
    fn double(&self) -> (r: Self)
        requires
            self.wf(),
        ensures
            r.wf(),
            r@ == Self::add_v(self@, self@),
    ;

    /// Applies the curve endomorphism.
    fn endo(&self) -> (r: Self)
        requires
            self.wf(),
        ensures
            r.wf(),
            r@ == Self::endo_v(self@),
    ;
}

impl<B: FieldElement> Coordinates<B> {
    /// Obtains a `Coordinates` value given `(x, y)`, failing if it is not on
    /// the curve `C`.
    pub fn new<C: CurveAffine<Base = B>>(x: B, y: B) -> (r: CtOpt<Coordinates<B>>)
        requires
            x.wf(),
            y.wf(),
        ensures
            r.wf(),
            r.is_valid() <==> C::on_curve_xy(x, y),
            r.val().spec_x() == x,
            r.val().spec_y() == y,
    {
        let p = C::from_coordinates(x, y);
        CtOpt::new(Coordinates { x, y }, p.is_some())
    }

    /// The x-coordinate.
    pub closed spec fn spec_x(&self) -> B {
        self.x
    }

    /// The y-coordinate.
    pub closed spec fn spec_y(&self) -> B {
        self.y
    }

    /// Builds the value without validating; for the crate's own constructors,
    /// which prove validity themselves.
    pub(crate) fn raw(x: B, y: B) -> (r: Coordinates<B>)
        ensures
            r.spec_x() == x,
            r.spec_y() == y,
    {
        Coordinates { x, y }
    }

    /// Returns the x-coordinate.
    pub fn x(&self) -> (r: &B)
        ensures
            *r == self.spec_x(),
    {
        &self.x
    }

    /// Returns the y-coordinate.
    pub fn y(&self) -> (r: &B)
        ensures
            *r == self.spec_y(),
    {
        &self.y
    }
}

impl<B: FieldElement> CtSelectable for Coordinates<B> {
    fn conditional_select(a: &Self, b: &Self, c: &CtBool) -> (r: Self) {
        Coordinates {
            x: B::conditional_select(&a.x, &b.x, c),
            y: B::conditional_select(&a.y, &b.y, c),
        }
    }
}

impl<B: FieldElement> CoordinatesJac<B> {
    /// Obtains a `CoordinatesJac` value given `(x, y, z)`, failing if it is
    /// not a valid representation of a point on the curve `C`.
    pub fn new<C: Curve<Base = B>>(x: B, y: B, z: B) -> (r: CtOpt<CoordinatesJac<B>>)
        requires
            x.wf(),
            y.wf(),
            z.wf(),
        ensures
            r.wf(),
            r.is_valid() <==> C::on_curve_xyz(x, y, z),
            r.val().spec_x() == x,
            r.val().spec_y() == y,
            r.val().spec_z() == z,
    {
        let p = C::from_coordinates(x, y, z);
        CtOpt::new(CoordinatesJac { x, y, z }, p.is_some())
    }

    /// The x-coordinate.
    pub closed spec fn spec_x(&self) -> B {
        self.x
    }

    /// The y-coordinate.
    pub closed spec fn spec_y(&self) -> B {
        self.y
    }

    /// The z-coordinate.
    pub closed spec fn spec_z(&self) -> B {
        self.z
    }

    /// Builds the value without validating; for the crate's own constructors,
    /// which prove validity themselves.
    pub(crate) fn raw(x: B, y: B, z: B) -> (r: CoordinatesJac<B>)
        ensures
            r.spec_x() == x,
            r.spec_y() == y,
            r.spec_z() == z,
    {
        CoordinatesJac { x, y, z }
    }

    /// Returns the x-coordinate.
    pub fn x(&self) -> (r: &B)
        ensures
            *r == self.spec_x(),
    {
        &self.x
    }

    /// Returns the y-coordinate.
    pub fn y(&self) -> (r: &B)
        ensures
            *r == self.spec_y(),
    {
        &self.y
    }

    /// Returns the z-coordinate.
    pub fn z(&self) -> (r: &B)
        ensures
            *r == self.spec_z(),
    {
        &self.z
    }
}

impl<B: FieldElement> CtSelectable for CoordinatesJac<B> {
    fn conditional_select(a: &Self, b: &Self, c: &CtBool) -> (r: Self) {
        CoordinatesJac {
            x: B::conditional_select(&a.x, &b.x, c),
            y: B::conditional_select(&a.y, &b.y, c),
            z: B::conditional_select(&a.z, &b.z, c),
        }
    }
}

/// Converts a batch of projective elements into affine elements, writing over
/// the output vector. The output must come with the input's length: a
/// mismatch is a caller bug, ruled out here rather than detected. Each output
/// equals the element-wise `to_affine` of the corresponding input.
pub fn batch_normalize<C: Curve>(p: &Vec<C>, q: &mut Vec<C::Affine>)
    requires
        old(q).len() == p.len(),
        forall|i: int| 0 <= i < p.len() ==> (#[trigger] p[i]).wf(),
    ensures
        final(q).len() == p.len(),
        forall|i: int|
            0 <= i < p.len() ==> (#[trigger] final(q)[i]).wf() && final(q)[i]@ == p[i]@,
{
    let n = p.len();
    let mut j: usize = 0;
    while j < n
        invariant
            n == p.len(),
            q.len() == n,
            j <= n,
            forall|i: int| 0 <= i < n ==> (#[trigger] p[i]).wf(),
            forall|i: int| 0 <= i < j ==> (#[trigger] q[i]).wf() && q[i]@ == p[i]@,
        decreases n - j,
    {
        let a = p[j].to_affine();
        q.set(j, a);
        j += 1;
    }
}

} // verus!
