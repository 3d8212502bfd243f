use vstd::prelude::*;

use crate::ct::CtBool;
use crate::ct::CtOpt;
use crate::curve::Group;

verus! {

/// An element of a cryptographic group whose order factors as `h * r` for a
/// small cofactor `h` and a large prime `r`. The prime-order subgroup is a
/// separate group type carrying a subset of this group's abstract values, so
/// membership, embedding and cofactor clearing are all stated over one value
/// space.
pub trait Cofactor: Group {
    /// The large prime-order subgroup in which cryptographic operations are
    /// performed.
    type Subgroup: Group<Scalar = Self::Scalar> + View<V = Self::V>;

    /// The abstract cofactor-clearing map: multiplication by a fixed
    /// per-implementation multiple of the cofactor, the same for every input.
    spec fn clear_v(a: Self::V) -> Self::V;

    /// The subgroup is a subgroup: its elements are elements of the full
    /// group, with the same addition and the same identity.
    proof fn lemma_subgroup(a: Self::V, b: Self::V)
        requires
            Self::Subgroup::valid_v(a),
            Self::Subgroup::valid_v(b),
        ensures
            Self::valid_v(a),
            Self::Subgroup::add_v(a, b) == Self::add_v(a, b),
            Self::Subgroup::id_v() == Self::id_v(),
    ;

    /// Clearing the cofactor lands in the prime-order subgroup, wherever it
    /// starts from.
    proof fn lemma_clear_in_subgroup(a: Self::V)
        requires
            Self::valid_v(a),
        ensures
            Self::Subgroup::valid_v(Self::clear_v(a)),
    ;

    /// On elements already in the subgroup, clearing the cofactor is the
    /// identity map.
    proof fn lemma_clear_idempotent(a: Self::V)
        requires
            Self::Subgroup::valid_v(a),
        ensures
            Self::clear_v(a) == a,
    ;

    /// Maps `self` into the prime-order subgroup by multiplying it by a fixed
    /// multiple of the cofactor.
    fn clear_cofactor(&self) -> (r: Self::Subgroup)
        requires
            self.wf(),
        ensures
            r.wf(),
            r@ == Self::clear_v(self@),
    ;

    /// Embeds a subgroup element into the full group; the embedding is
    /// lossless (it keeps the abstract value).
    fn embed(s: &Self::Subgroup) -> (r: Self)
        requires
            s.wf(),
        ensures
            r.wf(),
            r@ == s@,
    ;

    /// Returns `self` as a subgroup element exactly when it is already in the
    /// prime-order subgroup — unlike `clear_cofactor`, which always projects.
    fn into_subgroup(self) -> (r: CtOpt<Self::Subgroup>)
        requires
            self.wf(),
        ensures
            r.wf(),
            r.is_valid() <==> Self::Subgroup::valid_v(self@),
            r.is_valid() ==> r.val().wf() && r.val()@ == self@,
    ;

    /// Whether this element is of small order, that is, lies in the torsion
    /// subgroup: exactly when clearing the cofactor yields the identity.
    fn is_small_order(&self) -> (r: CtBool)
        requires
            self.wf(),
        ensures
            r.wf(),
            r.is_set() <==> Self::clear_v(self@) == Self::id_v(),
    {
        let c = self.clear_cofactor();
        proof {
            Self::Subgroup::lemma_constants();
            Self::lemma_subgroup(Self::Subgroup::id_v(), Self::Subgroup::id_v());
        }
        c.is_identity()
    }

    /// Whether this element is torsion free, that is, genuinely a member of
    /// the prime-order subgroup. Implementations must compute this by a sound
    /// membership test (classically, multiplication by the subgroup order),
    /// not assume it from cofactor clearing.
    fn is_torsion_free(&self) -> (r: CtBool)
        requires
            self.wf(),
        ensures
            r.wf(),
            r.is_set() <==> Self::Subgroup::valid_v(self@),
    ;
}

} // verus!
