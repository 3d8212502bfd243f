//! Group algebra, sampling, and scalar multiplication on the toy curve.

use group::random;
use group::Cofactor;
use group::Curve;
use group::CurveAffine;
use group::Group;
use group::GroupOps;
use group::GroupOpsOwned;
use group::FieldElement;
use group::Fp7;
use group::ScalarField;
use group::ScalarMul;
use group::ScalarMulOwned;
use group::ToyAffine;
use group::ToyPoint;
use group::ToySubgroup;

/// A small deterministic generator for tests, so sampling is reproducible.
struct TestRng {
    state: u64,
}

impl rand_core::TryRng for TestRng {
    type Error = core::convert::Infallible;

    fn try_next_u32(&mut self) -> Result<u32, Self::Error> {
        Ok((self.try_next_u64()? >> 32) as u32)
    }

    fn try_next_u64(&mut self) -> Result<u64, Self::Error> {
        self.state = self
            .state
            .wrapping_mul(6364136223846793005)
            .wrapping_add(1442695040888963407);
        Ok(self.state)
    }

    fn try_fill_bytes(&mut self, dst: &mut [u8]) -> Result<(), Self::Error> {
        for b in dst.iter_mut() {
            *b = (self.try_next_u64()? >> 24) as u8;
        }
        Ok(())
    }
}

fn eq_point(a: &ToyPoint, b: &ToyPoint) -> bool {
    a.ct_eq(b).truth()
}

fn point(k: u64) -> ToyPoint {
    ToyAffine::from_index(k).to_curve()
}

#[test]
fn group_axioms_on_sampled_elements() {
    let mut rng = TestRng { state: 7 };
    for _ in 0..20 {
        let a: ToyPoint = random(&mut rng);
        let b: ToyPoint = random(&mut rng);
        let c: ToyPoint = random(&mut rng);
        // (a + b) + c == a + (b + c)
        assert!(eq_point(&a.add(&b).add(&c), &a.add(&b.add(&c))));
        // a + b == b + a
        assert!(eq_point(&a.add(&b), &b.add(&a)));
        // a + identity() == a
        assert!(eq_point(&a.add(&ToyPoint::identity()), &a));
        // a + (-a) == identity()
        assert!(a.add(&a.neg()).is_identity().truth());
    }
}

#[test]
fn random_is_never_identity_and_on_curve() {
    let mut rng = TestRng { state: 99 };
    for _ in 0..50 {
        let p: ToyPoint = random(&mut rng);
        assert!(!p.is_identity().truth());
        assert!(p.is_on_curve().truth());
    }
}

#[test]
fn generator_is_not_identity() {
    assert!(!ToyPoint::generator().is_identity().truth());
    assert!(!ToyAffine::generator().is_identity().truth());
    assert!(!ToySubgroup::generator().is_identity().truth());
    assert!(ToyPoint::identity().is_identity().truth());
    assert_eq!(ToyPoint::identity().is_identity().unwrap_u8(), 1);
    assert_eq!(ToyPoint::generator().is_identity().unwrap_u8(), 0);
}

#[test]
fn sub_is_add_of_negation() {
    for i in 0..21 {
        for j in 0..21 {
            let a = point(i);
            let b = point(j);
            assert!(eq_point(&a.sub(&b), &a.add(&b.neg())));
        }
    }
}

#[test]
fn owned_ops_agree_with_borrowed_ops() {
    let a = point(5);
    let b = point(9);
    assert!(eq_point(&a.add_owned(b), &a.add(&b)));
    assert!(eq_point(&a.sub_owned(b), &a.sub(&b)));
    let s = group::Fp7::new(4);
    assert!(eq_point(&a.mul_owned(s), &a.mul(&s)));
}

#[test]
fn scalar_multiplication_is_iterated_addition() {
    for k in 0..21 {
        let p = point(k);
        let mut acc = ToyPoint::identity();
        for s in 0..7 {
            let scalar = group::Fp7::new(s);
            assert!(eq_point(&p.mul(&scalar), &acc));
            acc = acc.add(&p);
        }
    }
}

#[test]
fn affine_scalar_multiplication_matches_projective() {
    let a = ToyAffine::from_index(4);
    let s = group::Fp7::new(6);
    assert!(eq_point(&a.mul(&s), &a.to_curve().mul(&s)));
}

#[test]
fn double_adds_the_point_to_itself() {
    for k in 0..21 {
        let p = point(k);
        assert!(eq_point(&p.double(), &p.add(&p)));
    }
    assert!(ToyPoint::identity().double().is_identity().truth());
}

#[test]
fn subgroup_group_axioms_hold() {
    let mut rng = TestRng { state: 3 };
    for _ in 0..20 {
        let a: ToySubgroup = random(&mut rng);
        let b: ToySubgroup = random(&mut rng);
        let c: ToySubgroup = random(&mut rng);
        assert_eq!(a.add(&b).add(&c), a.add(&b.add(&c)));
        assert_eq!(a.add(&b), b.add(&a));
        assert_eq!(a.add(&ToySubgroup::identity()), a);
        assert!(a.add(&a.neg()).is_identity().truth());
    }
}

#[test]
fn scalar_field_arithmetic_is_exact() {
    // 3 + 5 == 1, 3 - 5 == 5, 3 * 5 == 1, -3 == 4 (mod 7)
    let three = Fp7::new(3);
    let five = Fp7::new(5);
    assert_eq!(three.add(&five), Fp7::new(1));
    assert_eq!(three.sub(&five), Fp7::new(5));
    assert_eq!(three.mul(&five), Fp7::new(1));
    assert_eq!(three.neg(), Fp7::new(4));
    assert_eq!(Fp7::zero().neg(), Fp7::new(0));
    assert_eq!(Fp7::one(), Fp7::new(1));
}

#[test]
fn scalar_inversion_works_for_every_nonzero_scalar() {
    assert!(Fp7::zero().invert().into_option().is_none());
    for a in 1..7 {
        let s = Fp7::new(a);
        let inv = s.invert().into_option().expect("nonzero scalar has an inverse");
        assert_eq!(s.mul(&inv), Fp7::one());
    }
}

#[test]
fn default_values_are_neutral() {
    assert!(ToyPoint::default().is_identity().truth());
    assert_eq!(ToyAffine::default(), ToyAffine::identity());
    assert_eq!(ToySubgroup::default(), ToySubgroup::identity());
}
