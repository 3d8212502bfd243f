//! Representations and encodings: affine/projective round trips, coordinate
//! validation, and checked/unchecked byte decoding on the toy curve.

use group::Coordinates;
use group::CoordinatesJac;
use group::CtSelectable;
use group::Curve;
use group::CurveAffine;
use group::Encoding;
use group::FieldElement;
use group::Fq23;
use group::Group;
use group::ToyAffine;
use group::ToyPoint;
use group::ToyRepr;
use group::ToySubgroup;
use group::ToyUncompressed;
use group::UncompressedEncoding;

fn ycoord(k: u64) -> u64 {
    (k * k * k + 5 * k + 7) % 23
}

#[test]
fn affine_projective_round_trip() {
    for k in 1..21 {
        let p = ToyAffine::from_index(k);
        assert_eq!(p.to_curve().to_affine(), p);
    }
    // identity maps to identity in both directions
    assert!(ToyAffine::identity().to_curve().is_identity().truth());
    assert_eq!(ToyPoint::identity().to_affine(), ToyAffine::identity());
}

#[test]
fn safe_constructors_give_on_curve_points() {
    assert!(ToyAffine::generator().is_on_curve().truth());
    assert!(ToyPoint::generator().is_on_curve().truth());
    let sum = ToyAffine::from_index(8).add(&ToyAffine::from_index(20));
    assert!(sum.is_on_curve().truth());
    let decoded = ToyAffine::from_bytes(&ToyRepr { lo: 13, hi: 0 })
        .into_option()
        .expect("a valid encoding decodes");
    assert!(decoded.is_on_curve().truth());
}

#[test]
fn coordinates_exist_exactly_off_the_identity() {
    for k in 1..21 {
        let c = ToyAffine::from_index(k)
            .coordinates()
            .into_option()
            .expect("a non-identity point has coordinates");
        assert_eq!(*c.x(), Fq23::new(k));
        assert_eq!(*c.y(), Fq23::new(ycoord(k)));
    }
    assert!(ToyAffine::identity().coordinates().into_option().is_none());
    assert!(ToyPoint::identity().coordinates().into_option().is_none());
}

#[test]
fn from_coordinates_validates_the_curve_equation() {
    for k in 1..21 {
        let p = ToyAffine::from_coordinates(Fq23::new(k), Fq23::new(ycoord(k)))
            .into_option()
            .expect("an on-curve pair is accepted");
        assert_eq!(p, ToyAffine::from_index(k));
    }
    // off-curve y, x out of range, and the identity's empty coordinates fail
    assert!(ToyAffine::from_coordinates(Fq23::new(4), Fq23::new((ycoord(4) + 1) % 23))
        .into_option()
        .is_none());
    assert!(ToyAffine::from_coordinates(Fq23::new(21), Fq23::new(0)).into_option().is_none());
    assert!(ToyAffine::from_coordinates(Fq23::new(0), Fq23::new(7)).into_option().is_none());
}

#[test]
fn jacobian_coordinates_round_trip_through_both_units() {
    for k in 1..21 {
        let p = ToyAffine::from_index(k).to_curve();
        let c = p
            .coordinates()
            .into_option()
            .expect("a non-identity point has coordinates");
        let q = ToyPoint::from_coordinates(*c.x(), *c.y(), *c.z())
            .into_option()
            .expect("published coordinates are accepted back");
        assert!(p.ct_eq(&q).truth());
        // the same point, scaled by the other unit z = 22
        let y22 = Fq23::new((ycoord(k) * 22) % 23);
        let q22 = ToyPoint::from_coordinates(Fq23::new(k), y22, Fq23::new(22))
            .into_option()
            .expect("a scaled representation is accepted");
        assert!(p.ct_eq(&q22).truth());
        assert_eq!(q22.to_affine(), ToyAffine::from_index(k));
    }
}

#[test]
fn jacobian_from_coordinates_rejects_invalid_triples() {
    // z outside the unit set, off-curve y, and the identity's z = 0 all fail
    assert!(ToyPoint::from_coordinates(Fq23::new(4), Fq23::new(ycoord(4)), Fq23::new(5))
        .into_option()
        .is_none());
    assert!(ToyPoint::from_coordinates(Fq23::new(4), Fq23::new((ycoord(4) + 1) % 23), Fq23::new(1))
        .into_option()
        .is_none());
    assert!(ToyPoint::from_coordinates(Fq23::new(4), Fq23::new(ycoord(4)), Fq23::new(0))
        .into_option()
        .is_none());
}

#[test]
fn coordinates_constructors_validate() {
    let ok = Coordinates::<Fq23>::new::<ToyAffine>(Fq23::new(2), Fq23::new(ycoord(2)));
    assert!(ok.into_option().is_some());
    let bad = Coordinates::<Fq23>::new::<ToyAffine>(Fq23::new(2), Fq23::new((ycoord(2) + 1) % 23));
    assert!(bad.into_option().is_none());
    let ok3 = CoordinatesJac::<Fq23>::new::<ToyPoint>(Fq23::new(2), Fq23::new(ycoord(2)), Fq23::new(1));
    let c = ok3.into_option().expect("a valid triple is accepted");
    assert_eq!(*c.x(), Fq23::new(2));
    assert_eq!(*c.y(), Fq23::new(ycoord(2)));
    assert_eq!(*c.z(), Fq23::new(1));
    let bad3 = CoordinatesJac::<Fq23>::new::<ToyPoint>(Fq23::new(2), Fq23::new(ycoord(2)), Fq23::new(3));
    assert!(bad3.into_option().is_none());
}

#[test]
fn curve_constants_are_exposed() {
    assert_eq!(ToyAffine::a(), Fq23::new(5));
    assert_eq!(ToyAffine::b(), Fq23::new(7));
}

#[test]
fn compressed_encoding_round_trips() {
    for k in 0..21 {
        let p = ToyAffine::from_index(k);
        let bytes = p.to_bytes();
        assert_eq!(ToyAffine::from_bytes(&bytes).into_option(), Some(p));
        assert_eq!(ToyAffine::from_bytes_unchecked(&bytes).into_option(), Some(p));
    }
    // the all-zero encoding is the identity
    assert_eq!(ToyAffine::identity().to_bytes(), ToyRepr { lo: 0, hi: 0 });
}

#[test]
fn compressed_decoding_rejects_garbage() {
    assert!(ToyAffine::from_bytes(&ToyRepr { lo: 21, hi: 0 }).into_option().is_none());
    assert!(ToyAffine::from_bytes(&ToyRepr { lo: 255, hi: 0 }).into_option().is_none());
    assert!(ToyAffine::from_bytes(&ToyRepr { lo: 5, hi: 1 }).into_option().is_none());
}

#[test]
fn unchecked_decoding_can_break_the_curve_invariant() {
    // The documented danger: unchecked decoding of untrusted bytes may hand
    // back a value that fails the curve check.
    let p = ToyAffine::from_bytes_unchecked(&ToyRepr { lo: 30, hi: 0 })
        .into_option()
        .expect("unchecked decoding does not validate");
    assert!(!p.is_on_curve().truth());
}

#[test]
fn subgroup_encoding_checks_membership() {
    for j in 0..7 {
        let s = ToySubgroup::from_index(3 * j);
        let bytes = s.to_bytes();
        assert_eq!(ToySubgroup::from_bytes(&bytes).into_option(), Some(s));
    }
    // in range for the full group but outside the subgroup
    assert!(ToySubgroup::from_bytes(&ToyRepr { lo: 5, hi: 0 }).into_option().is_none());
    assert!(ToySubgroup::from_bytes(&ToyRepr { lo: 22, hi: 0 }).into_option().is_none());
}

#[test]
fn uncompressed_encoding_round_trips() {
    for k in 0..21 {
        let p = ToyAffine::from_index(k);
        let bytes = p.to_uncompressed();
        assert_eq!(ToyAffine::from_uncompressed(&bytes).into_option(), Some(p));
        assert_eq!(ToyAffine::from_uncompressed_unchecked(&bytes).into_option(), Some(p));
    }
    // the identity's uncompressed form is the all-zero buffer
    assert_eq!(ToyAffine::identity().to_uncompressed(), ToyUncompressed { x: 0, y: 0 });
}

#[test]
fn uncompressed_decoding_rejects_off_curve_pairs() {
    assert!(ToyAffine::from_uncompressed(&ToyUncompressed { x: 4, y: (ycoord(4) as u8) ^ 1 })
        .into_option()
        .is_none());
    assert!(ToyAffine::from_uncompressed(&ToyUncompressed { x: 21, y: 3 }).into_option().is_none());
    assert!(ToyAffine::from_uncompressed(&ToyUncompressed { x: 0, y: 5 }).into_option().is_none());
}

#[test]
fn conditional_selection_picks_by_the_flag() {
    let a = Fq23::new(4);
    let b = Fq23::new(9);
    let yes = group::ToyAffine::from_index(1).is_on_curve();
    let no = group::ToyAffine::from_index(1).is_identity();
    assert_eq!(Fq23::conditional_select(&a, &b, &yes), b);
    assert_eq!(Fq23::conditional_select(&a, &b, &no), a);
    let pa = ToyAffine::from_index(3);
    let pb = ToyAffine::from_index(8);
    assert_eq!(ToyAffine::conditional_select(&pa, &pb, &yes), pb);
    assert_eq!(ToyAffine::conditional_select(&pa, &pb, &no), pa);
}
