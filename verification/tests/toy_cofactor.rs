//! Cofactor clearing, subgroup membership, batch normalization, the
//! endomorphism, and hashing to the curve.

use group::batch_normalize;
use group::Cofactor;
use group::Curve;
use group::CurveAffine;
use group::Encoding;
use group::Group;
use group::GroupOps;
use group::ToyAffine;
use group::ToyPoint;
use group::ToySubgroup;

fn point(k: u64) -> ToyPoint {
    ToyAffine::from_index(k).to_curve()
}

#[test]
fn cofactor_clearing_scenario() {
    // The toy curve has prime subgroup order 7 and cofactor 3 (group order
    // 21). Clearing the cofactor multiplies by the fixed multiple 15 of the
    // cofactor, so the full-group generator g lands on the subgroup element
    // of index 15 — a projection by a multiple of 3 into the order-7
    // subgroup.
    let g = ToyPoint::generator();
    assert_eq!(g.clear_cofactor(), ToySubgroup::from_index(15));
    // an element of pure 3-torsion (index 7 has order 3) is of small order
    let torsion = point(7);
    assert!(torsion.is_small_order().truth());
    assert!(!torsion.is_torsion_free().truth());
    // the subgroup generator is torsion free
    let sub_gen = ToyPoint::embed(&ToySubgroup::generator());
    assert!(sub_gen.is_torsion_free().truth());
    assert!(!sub_gen.is_small_order().truth());
}

#[test]
fn cofactor_clearing_fixes_the_subgroup() {
    for j in 0..7 {
        let s = ToySubgroup::from_index(3 * j);
        let embedded = ToyPoint::embed(&s);
        assert_eq!(embedded.clear_cofactor(), s);
    }
}

#[test]
fn cofactor_clearing_always_lands_in_the_subgroup() {
    for k in 0..21 {
        let cleared = point(k).clear_cofactor();
        assert!(ToyPoint::embed(&cleared).is_torsion_free().truth());
    }
}

#[test]
fn membership_predicates_are_consistent() {
    for k in 0..21 {
        let p = point(k);
        // is_torsion_free(p) holds exactly when into_subgroup(p) has a value
        let member = p.into_subgroup().into_option();
        assert_eq!(p.is_torsion_free().truth(), member.is_some());
        assert_eq!(p.is_torsion_free().truth(), k % 3 == 0);
        if let Some(s) = member {
            assert!(ToyPoint::embed(&s).ct_eq(&p).truth());
        }
        // is_small_order(p) holds exactly when clearing yields the identity
        assert_eq!(
            p.is_small_order().truth(),
            p.clear_cofactor().is_identity().truth()
        );
        assert_eq!(p.is_small_order().truth(), k % 7 == 0);
    }
}

#[test]
fn prime_group_cofactor_is_trivial() {
    // For the subgroup itself, the subgroup type is the type itself and
    // clearing is the identity map.
    for j in 0..7 {
        let s = ToySubgroup::from_index(3 * j);
        assert_eq!(s.clear_cofactor(), s);
        assert_eq!(s.into_subgroup().into_option(), Some(s));
        assert!(s.is_torsion_free().truth());
        assert_eq!(s.is_small_order().truth(), s.is_identity().truth());
    }
}

#[test]
fn batch_normalize_matches_elementwise_conversion() {
    let inputs: Vec<ToyPoint> = (0..21).map(point).collect();
    let mut outputs: Vec<ToyAffine> = vec![ToyAffine::identity(); inputs.len()];
    batch_normalize(&inputs, &mut outputs);
    for (p, q) in inputs.iter().zip(outputs.iter()) {
        assert_eq!(*q, p.to_affine());
    }
}

#[test]
fn endomorphism_is_additive() {
    for a in 0..21 {
        for b in 0..21 {
            let pa = point(a);
            let pb = point(b);
            let lhs = pa.endo().add(&pb.endo());
            let rhs = pa.add(&pb).endo();
            assert!(lhs.ct_eq(&rhs).truth());
        }
    }
}

#[test]
fn endomorphism_has_multiplicative_order_three() {
    let g = point(1);
    let once = g.endo();
    let thrice = once.endo().endo();
    assert!(!once.ct_eq(&g).truth());
    assert!(thrice.ct_eq(&g).truth());
    // the affine endomorphism agrees with the projective one
    let ga = ToyAffine::from_index(1);
    assert_eq!(ga.endo(), once.to_affine());
}

#[test]
fn hash_to_curve_is_deterministic_and_domain_separated() {
    let h1 = ToyAffine::hash_to_curve(b"toy:demo", b"hello");
    let h2 = ToyAffine::hash_to_curve(b"toy:demo", b"hello");
    assert_eq!(h1, h2);
    assert!(h1.is_on_curve().truth());
    let other_domain = ToyAffine::hash_to_curve(b"toy:other", b"hello");
    // with this fold the two domains land on different points
    assert_ne!(h1, other_domain);
}

#[test]
fn hash_to_curve_folds_every_byte() {
    let domain = b"d";
    let msg = [3u8, 250u8];
    let mut expected: u64 = 0;
    for b in domain.iter().chain(msg.iter()) {
        expected = (expected * 31 + *b as u64) % 21;
    }
    let h = ToyAffine::hash_to_curve(domain, &msg);
    assert_eq!(h.to_bytes().lo as u64, expected);
}
