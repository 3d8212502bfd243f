//! A complete toy instantiation of the crate's contract: a cyclic group of
//! order 21, whose prime-order subgroup has order `r = 7` and cofactor
//! `h = 3`. Elements are modelled by their index in the cycle; the point at
//! index 0 is the identity. A non-identity point at index `k` has the affine
//! coordinates `(k, k^3 + 5*k + 7 mod 23)` over the base field of 23
//! elements, and projective representations scaled by a unit `z` with
//! `z^2 = 1`, so conversions and coordinate validation are genuine
//! computations while the group law stays small enough to verify outright.

use vstd::arithmetic::div_mod::lemma_add_mod_noop;
use vstd::arithmetic::div_mod::lemma_fundamental_div_mod;
use vstd::arithmetic::div_mod::lemma_fundamental_div_mod_converse;
use vstd::arithmetic::div_mod::lemma_mod_multiples_basic;
use vstd::arithmetic::div_mod::lemma_small_mod;
use vstd::prelude::*;

use crate::ct::ct_eq_u64;
use crate::ct::ct_gt_u64;
use crate::ct::ct_select_u64;
use crate::ct::CtBool;
use crate::ct::CtOpt;
use crate::curve::smul_v;
use crate::curve::CtSelectable;
use crate::curve::Curve;
use crate::curve::CurveAffine;
use crate::curve::Encoding;
use crate::curve::FieldElement;
use crate::curve::Group;
use crate::curve::GroupOps;
use crate::curve::GroupOpsOwned;
use crate::curve::ScalarField;
use crate::curve::ScalarMul;
use crate::curve::ScalarMulOwned;
use crate::curve::UncompressedEncoding;
use crate::curve::Coordinates;
use crate::curve::CoordinatesJac;
use crate::cofactor::Cofactor;

verus! {

/// The base field of 23 elements that the toy curve's coordinates live in.
#[derive(Clone, Copy, Debug, PartialEq, Eq, Structural)]
pub struct Fq23 {
    rep: u64,
}

impl Fq23 {
    /// The element with the given residue.
    pub fn new(x: u64) -> (r: Fq23)
        requires
            x < 23,
        ensures
            r.wf(),
            r.as_nat() == x,
    {
        Fq23 { rep: x }
    }
}

impl CtSelectable for Fq23 {
    fn conditional_select(a: &Self, b: &Self, c: &CtBool) -> (r: Self) {
        Fq23 { rep: ct_select_u64(a.rep, b.rep, c) }
    }
}

impl FieldElement for Fq23 {
    closed spec fn modulus() -> nat {
        23
    }

    closed spec fn wf(self) -> bool {
        self.rep < 23
    }

    closed spec fn as_nat(self) -> nat {
        self.rep as nat
    }

    proof fn lemma_wf(self) {
    }

    proof fn lemma_canonical(a: Self, b: Self) {
    }

    fn zero() -> (r: Self) {
        Fq23 { rep: 0 }
    }

    fn ct_eq(&self, rhs: &Self) -> (r: CtBool) {
        ct_eq_u64(self.rep, rhs.rep)
    }
}

/// The scalar field of 7 elements, matching the order of the toy curve's
/// prime-order subgroup.
#[derive(Clone, Copy, Debug, PartialEq, Eq, Structural)]
pub struct Fp7 {
    rep: u64,
}

impl Fp7 {
    /// The scalar with the given residue.
    pub fn new(x: u64) -> (r: Fp7)
        requires
            x < 7,
        ensures
            r.wf(),
            r.as_nat() == x,
    {
        Fp7 { rep: x }
    }
}

impl CtSelectable for Fp7 {
    fn conditional_select(a: &Self, b: &Self, c: &CtBool) -> (r: Self) {
        Fp7 { rep: ct_select_u64(a.rep, b.rep, c) }
    }
}

impl FieldElement for Fp7 {
    closed spec fn modulus() -> nat {
        7
    }

    closed spec fn wf(self) -> bool {
        self.rep < 7
    }

    closed spec fn as_nat(self) -> nat {
        self.rep as nat
    }

    proof fn lemma_wf(self) {
    }

    proof fn lemma_canonical(a: Self, b: Self) {
    }

    fn zero() -> (r: Self) {
        Fp7 { rep: 0 }
    }

    fn ct_eq(&self, rhs: &Self) -> (r: CtBool) {
        ct_eq_u64(self.rep, rhs.rep)
    }
}

impl ScalarField for Fp7 {
    fn one() -> (r: Self) {
        Fp7 { rep: 1 }
    }

    fn add(&self, rhs: &Self) -> (r: Self) {
        Fp7 { rep: (self.rep + rhs.rep) % 7 }
    }

    fn sub(&self, rhs: &Self) -> (r: Self) {
        Fp7 { rep: (self.rep + 7 - rhs.rep) % 7 }
    }

    fn mul(&self, rhs: &Self) -> (r: Self) {
        proof {
            assert(self.rep * rhs.rep <= 36) by (nonlinear_arith)
                requires
                    self.rep < 7,
                    rhs.rep < 7,
            ;
        }
        Fp7 { rep: (self.rep * rhs.rep) % 7 }
    }

    fn neg(&self) -> (r: Self) {
        Fp7 { rep: (7 - self.rep) % 7 }
    }

    fn invert(&self) -> (r: CtOpt<Self>) {
        // A constant-time table scan: every entry is visited, and the match
        // is folded in by masked selection, never by branching.
        let a = self.rep;
        let mut v: u64 = 0;
        v = ct_select_u64(v, 1, &ct_eq_u64(a, 1));
        v = ct_select_u64(v, 4, &ct_eq_u64(a, 2));
        v = ct_select_u64(v, 5, &ct_eq_u64(a, 3));
        v = ct_select_u64(v, 2, &ct_eq_u64(a, 4));
        v = ct_select_u64(v, 3, &ct_eq_u64(a, 5));
        v = ct_select_u64(v, 6, &ct_eq_u64(a, 6));
        let flag = ct_eq_u64(a, 0).not();
        proof {
            assert(a == 0 || a == 1 || a == 2 || a == 3 || a == 4 || a == 5 || a == 6);
            if a != 0 {
                assert((a * v) % 7 == 1) by (nonlinear_arith)
                    requires
                        (a == 1 && v == 1) || (a == 2 && v == 4) || (a == 3 && v == 5) || (a == 4
                            && v == 2) || (a == 5 && v == 3) || (a == 6 && v == 6),
                ;
            }
        }
        CtOpt::new(Fp7 { rep: v }, flag)
    }
}

/// Addition in the cyclic group of 21 elements obeys the group axioms.
pub(crate) proof fn lemma_axioms21(a: nat, b: nat, c: nat)
    requires
        a < 21,
        b < 21,
        c < 21,
    ensures
        ((a + b) % 21 + c) % 21 == (a + (b + c) % 21) % 21,
        (a + b) % 21 < 21,
        (a + 0) % 21 == a,
        (a + (if 0 < a < 21 {
            (21 - a) as nat
        } else {
            0
        })) % 21 == 0,
        (if 0 < b < 21 {
            (21 - b) as nat
        } else {
            0
        }) < 21,
{
    vstd::arithmetic::div_mod::lemma_add_mod_noop_right(c as int, (a + b) as int, 21);
    vstd::arithmetic::div_mod::lemma_add_mod_noop_right(a as int, (b + c) as int, 21);
    lemma_small_mod(a, 21);
    if a == 0 {
        lemma_small_mod(0, 21);
    } else {
        lemma_mod_multiples_basic(1, 21);
    }
}

/// Multiples of 3 below 21 are closed under the group operation and under
/// negation.
pub(crate) proof fn lemma_sub21(a: nat, b: nat)
    requires
        a < 21,
        b < 21,
        a % 3 == 0,
        b % 3 == 0,
    ensures
        ((a + b) % 21) % 3 == 0,
        (if 0 < a < 21 {
            (21 - a) as nat
        } else {
            0
        }) % 3 == 0,
{
    vstd::arithmetic::div_mod::lemma_mod_mod((a + b) as int, 7, 3);
    lemma_add_mod_noop(a as int, b as int, 3);
    lemma_small_mod(0, 3);
    if 0 < a {
        lemma_fundamental_div_mod(a as int, 3);
        assert(21 - a == 3 * (7 - a / 3)) by {
            assert(a == 3 * (a / 3));
        }
        lemma_mod_multiples_basic(7 - a as int / 3, 3);
    }
}

/// For indices below 21, seven times the index vanishes modulo 21 exactly for
/// the multiples of 3: the subgroup-order multiplication test recognises the
/// order-7 subgroup.
pub(crate) proof fn lemma_torsion_test(v: nat)
    requires
        v < 21,
    ensures
        (7 * v) % 21 == 7 * (v % 3),
        ((7 * v) % 21 == 0) <==> (v % 3 == 0),
{
    let q = v as int / 3;
    let s = v as int % 3;
    lemma_fundamental_div_mod(v as int, 3);
    assert(7 * v == 21 * q + 7 * s) by (nonlinear_arith)
        requires
            v == 3 * q + s,
    ;
    lemma_fundamental_div_mod_converse(7 * v as int, 21, q, 7 * s);
}

/// Multiplying by 15 (the fixed cofactor multiple used to clear the cofactor;
/// 15 is 5 times the cofactor 3, and 1 modulo 7) lands in the multiples of 3
/// and fixes them.
pub(crate) proof fn lemma_clear15(v: nat)
    requires
        v < 21,
    ensures
        (15 * v) % 21 < 21,
        ((15 * v) % 21) % 3 == 0,
        v % 3 == 0 ==> (15 * v) % 21 == v,
{
    vstd::arithmetic::div_mod::lemma_mod_mod(15 * v as int, 7, 3);
    assert(15 * v == 3 * (5 * v)) by (nonlinear_arith);
    lemma_mod_multiples_basic(5 * v as int, 3);
    if v % 3 == 0 {
        let q = v as int / 3;
        lemma_fundamental_div_mod(v as int, 3);
        assert(15 * v == 21 * (2 * q) + v) by (nonlinear_arith)
            requires
                v == 3 * q,
        ;
        lemma_fundamental_div_mod_converse(15 * v as int, 21, 2 * q, v as int);
    }
}

/// Multiplying indices by 16 (an automorphism of order 3: 16 cubed is 1
/// modulo 21) distributes over the group operation.
pub(crate) proof fn lemma_endo16(a: nat, b: nat)
    requires
        a < 21,
        b < 21,
    ensures
        (16 * ((a + b) % 21)) % 21 == ((16 * a) % 21 + (16 * b) % 21) % 21,
        (16 * a) % 21 < 21,
        a == 0 ==> (16 * a) % 21 == 0,
        a != 0 ==> (16 * a) % 21 != 0,
{
    vstd::arithmetic::div_mod::lemma_mul_mod_noop_right(16, (a + b) as int, 21);
    assert(16 * (a + b) == 16 * a + 16 * b) by (nonlinear_arith);
    lemma_add_mod_noop(16 * a as int, 16 * b as int, 21);
    if a == 0 {
        lemma_small_mod(0, 21);
    } else {
        // 16 is coprime to 21, so no multiple 16 * a with 0 < a < 21 is a
        // multiple of 21; there are only twenty cases to check.
        assert(a == 1 || a == 2 || a == 3 || a == 4 || a == 5 || a == 6 || a == 7 || a == 8 || a
            == 9 || a == 10 || a == 11 || a == 12 || a == 13 || a == 14 || a == 15 || a == 16 || a
            == 17 || a == 18 || a == 19 || a == 20);
        assert((16 * a) % 21 != 0);
    }
}

/// The y-coordinate that the toy curve equation assigns to the x-coordinate
/// `k`: `k^3 + 5*k + 7` reduced modulo 23 (5 and 7 are the curve constants).
pub closed spec fn ycoord(k: nat) -> nat {
    (k * k * k + 5 * k + 7) % 23
}

fn ycoord_exec(k: u64) -> (r: u64)
    requires
        k < 23,
    ensures
        r < 23,
        r as nat == ycoord(k as nat),
{
    proof {
        assert(k * k < 529 && k * k * k < 12167 && k * k * k + 5 * k + 7 < 13000)
            by (nonlinear_arith)
            requires
                k < 23,
        ;
    }
    (k * k * k + 5 * k + 7) % 23
}

/// The canonical projective z-coordinate for a freshly computed point: 0 for
/// the identity, 1 otherwise, selected in constant time.
fn zfor(k: u64) -> (z: u64)
    ensures
        z == if k == 0 { 0u64 } else { 1u64 },
{
    ct_select_u64(1, 0, &ct_eq_u64(k, 0))
}

/// Multiplying twice by a self-inverse unit (1 or 22, the square roots of 1
/// modulo 23) gives the original residue back.
proof fn lemma_zz_cancel(y: nat, z: nat)
    requires
        y < 23,
        z == 1 || z == 22,
    ensures
        (y * z) % 23 < 23,
        (((y * z) % 23) * z) % 23 == y,
{
    if z == 1 {
        assert(y * z == y);
        lemma_small_mod(y, 23);
        assert((y % 23) * z == y % 23);
        lemma_small_mod(y % 23, 23);
    } else {
        assert(y * z == y * 22);
        if y == 0 {
            assert(y * 22 == 0);
            lemma_small_mod(0, 23);
            assert(((y * z) % 23) * z == 0);
        } else {
            assert(y * 22 == 23 * ((y - 1) as int) + (23 - y));
            lemma_fundamental_div_mod_converse(
                (y * 22) as int,
                23,
                (y - 1) as int,
                (23 - y) as int,
            );
            let w = (23 - y) as nat;
            assert((y * z) % 23 == w);
            assert(w * z == w * 22);
            assert(w * 22 == 23 * ((w - 1) as int) + (23 - w));
            lemma_fundamental_div_mod_converse(
                (w * 22) as int,
                23,
                (w - 1) as int,
                (23 - w) as int,
            );
            assert((w * 22) % 23 == 23 - w);
        }
    }
}

/// The deterministic hash fold: each byte stirs the accumulator with a fixed
/// multiplier, modulo the group order.
pub closed spec fn hash_fold(h: nat, s: Seq<u8>) -> nat
    decreases s.len(),
{
    if s.len() == 0 {
        h
    } else {
        hash_fold(((h * 31 + s[0]) % 21) as nat, s.subrange(1, s.len() as int))
    }
}

proof fn lemma_hash_fold_bound(h: nat, s: Seq<u8>)
    requires
        h < 21,
    ensures
        hash_fold(h, s) < 21,
    decreases s.len(),
{
    if s.len() != 0 {
        lemma_hash_fold_bound(((h * 31 + s[0]) % 21) as nat, s.subrange(1, s.len() as int));
    }
}

fn hash_step(h0: u64, s: &[u8]) -> (r: u64)
    requires
        h0 < 21,
    ensures
        r < 21,
        r as nat == hash_fold(h0 as nat, s@),
{
    let n = s.len();
    let mut h = h0;
    let mut i: usize = 0;
    proof {
        assert(s@.subrange(0, n as int) =~= s@);
    }
    while i < n
        invariant
            h < 21,
            i <= n,
            n == s@.len(),
            hash_fold(h as nat, s@.subrange(i as int, n as int)) == hash_fold(h0 as nat, s@),
        decreases n - i,
    {
        proof {
            let t = s@.subrange(i as int, n as int);
            assert(t.len() > 0);
            assert(t[0] == s@[i as int]);
            assert(t.subrange(1, t.len() as int) =~= s@.subrange(i as int + 1, n as int));
        }
        h = (h * 31 + (s[i] as u64)) % 21;
        i = i + 1;
    }
    proof {
        assert(s@.subrange(n as int, n as int).len() == 0);
    }
    h
}

/// The affine representation of a toy curve point: the index of the element
/// in the cycle of 21, with index 0 standing for the identity.
#[derive(Clone, Copy, Debug, PartialEq, Eq, Structural)]
pub struct ToyAffine {
    k: u64,
}

/// The projective representation of a toy curve point: the index, and a unit
/// `z` (1 or 22) scaling the published coordinates, with `z == 0` reserved
/// for the identity. Distinct `z` values represent the same element, so
/// equality of elements is `ct_eq`, not structural equality.
#[derive(Clone, Copy, Debug)]
pub struct ToyPoint {
    k: u64,
    z: u64,
}

/// An element of the toy curve's prime-order subgroup: the multiples of 3 in
/// the cycle of 21, an order-7 group embedded in the full toy group.
#[derive(Clone, Copy, Debug, PartialEq, Eq, Structural)]
pub struct ToySubgroup {
    k: u64,
}

/// The fixed-size compressed encoding of toy points: the index in the low
/// byte, with a zero tag byte. The all-zero encoding is the identity.
#[derive(Clone, Copy, Debug, PartialEq, Eq, Structural)]
pub struct ToyRepr {
    pub lo: u8,
    pub hi: u8,
}

/// The uncompressed encoding of toy points: both affine coordinates. The
/// identity, which has no coordinates, is encoded as the all-zero buffer
/// (representation-defined for this curve).
#[derive(Clone, Copy, Debug, PartialEq, Eq, Structural)]
pub struct ToyUncompressed {
    pub x: u8,
    pub y: u8,
}

impl ToyAffine {
    /// The element with the given index.
    pub fn from_index(k: u64) -> (r: ToyAffine)
        requires
            k < 21,
        ensures
            r.wf(),
            r@ == k as nat,
    {
        ToyAffine { k }
    }
}

impl View for ToyAffine {
    type V = nat;

    closed spec fn view(&self) -> nat {
        self.k as nat
    }
}

impl CtSelectable for ToyAffine {
    fn conditional_select(a: &Self, b: &Self, c: &CtBool) -> (r: Self) {
        ToyAffine { k: ct_select_u64(a.k, b.k, c) }
    }
}

impl Group for ToyAffine {
    type Scalar = Fp7;

    closed spec fn wf(self) -> bool {
        self.k < 21
    }

    open spec fn valid_v(a: nat) -> bool {
        a < 21
    }

    open spec fn add_v(a: nat, b: nat) -> nat {
        (a + b) % 21
    }

    open spec fn neg_v(a: nat) -> nat {
        if 0 < a < 21 {
            (21 - a) as nat
        } else {
            0
        }
    }

    open spec fn id_v() -> nat {
        0
    }

    open spec fn gen_v() -> nat {
        1
    }

    proof fn lemma_axioms(a: nat, b: nat, c: nat) {
        lemma_axioms21(a, b, c);
        lemma_axioms21(b, a, c);
    }

    proof fn lemma_constants() {
    }

    proof fn lemma_wf_valid(self) {
    }

    fn identity() -> (r: Self) {
        ToyAffine { k: 0 }
    }

    fn generator() -> (r: Self) {
        ToyAffine { k: 1 }
    }

    fn is_identity(&self) -> (r: CtBool) {
        ct_eq_u64(self.k, 0)
    }

    fn ct_eq(&self, rhs: &Self) -> (r: CtBool) {
        ct_eq_u64(self.k, rhs.k)
    }

    fn neg(&self) -> (r: Self) {
        proof {
            if self.k != 0 {
                lemma_small_mod((21 - self.k) as nat, 21);
            }
        }
        ToyAffine { k: (21 - self.k) % 21 }
    }

    fn from_entropy(e: u64) -> (r: Self) {
        ToyAffine { k: e % 20 + 1 }
    }
}

impl Group for ToyPoint {
    type Scalar = Fp7;

    closed spec fn wf(self) -> bool {
        self.k < 21 && (self.k == 0 <==> self.z == 0) && (self.k != 0 ==> self.z == 1 || self.z
            == 22)
    }

    open spec fn valid_v(a: nat) -> bool {
        a < 21
    }

    open spec fn add_v(a: nat, b: nat) -> nat {
        (a + b) % 21
    }

    open spec fn neg_v(a: nat) -> nat {
        if 0 < a < 21 {
            (21 - a) as nat
        } else {
            0
        }
    }

    open spec fn id_v() -> nat {
        0
    }

    open spec fn gen_v() -> nat {
        1
    }

    proof fn lemma_axioms(a: nat, b: nat, c: nat) {
        lemma_axioms21(a, b, c);
        lemma_axioms21(b, a, c);
    }

    proof fn lemma_constants() {
    }

    proof fn lemma_wf_valid(self) {
    }

    fn identity() -> (r: Self) {
        ToyPoint { k: 0, z: 0 }
    }

    fn generator() -> (r: Self) {
        ToyPoint { k: 1, z: 1 }
    }

    fn is_identity(&self) -> (r: CtBool) {
        ct_eq_u64(self.k, 0)
    }

    fn ct_eq(&self, rhs: &Self) -> (r: CtBool) {
        ct_eq_u64(self.k, rhs.k)
    }

    fn neg(&self) -> (r: Self) {
        proof {
            if self.k != 0 {
                lemma_small_mod((21 - self.k) as nat, 21);
            }
        }
        ToyPoint { k: (21 - self.k) % 21, z: self.z }
    }

    fn from_entropy(e: u64) -> (r: Self) {
        let z = ct_select_u64(1, 22, &ct_eq_u64(e % 2, 1));
        ToyPoint { k: e % 20 + 1, z }
    }
}

impl View for ToyPoint {
    type V = nat;

    closed spec fn view(&self) -> nat {
        self.k as nat
    }
}

impl CtSelectable for ToyPoint {
    fn conditional_select(a: &Self, b: &Self, c: &CtBool) -> (r: Self) {
        ToyPoint { k: ct_select_u64(a.k, b.k, c), z: ct_select_u64(a.z, b.z, c) }
    }
}

impl GroupOps for ToyPoint {
    fn add(&self, rhs: &Self) -> (r: Self) {
        let ks = (self.k + rhs.k) % 21;
        let z = zfor(ks);
        ToyPoint { k: ks, z }
    }

    fn sub(&self, rhs: &Self) -> (r: Self) {
        proof {
            if rhs.k != 0 {
                lemma_small_mod((21 - rhs.k) as nat, 21);
            }
        }
        let nk = (21 - rhs.k) % 21;
        let ks = (self.k + nk) % 21;
        let z = zfor(ks);
        ToyPoint { k: ks, z }
    }
}

impl GroupOpsOwned for ToyPoint {
}

impl ScalarMul for ToyPoint {
    fn mul(&self, s: &Fp7) -> (r: Self) {
        let mut acc = <ToyPoint as Group>::identity();
        let mut i: u64 = 0;
        while i < s.rep
            invariant
                self.wf(),
                acc.wf(),
                i <= s.rep,
                acc@ == smul_v::<ToyPoint>(self@, i as nat),
            decreases s.rep - i,
        {
            acc = acc.add(self);
            i = i + 1;
        }
        acc
    }
}

impl ScalarMulOwned for ToyPoint {
}

impl Curve for ToyPoint {
    type Affine = ToyAffine;

    type Base = Fq23;

    closed spec fn on_curve(self) -> bool {
        self.k < 21 && (self.k == 0 <==> self.z == 0) && (self.k != 0 ==> self.z == 1 || self.z
            == 22)
    }

    closed spec fn on_curve_xyz(x: Fq23, y: Fq23, z: Fq23) -> bool {
        (z.rep == 1 || z.rep == 22) && 1 <= x.rep < 21 && y.rep < 23 && ((y.rep * z.rep)
            % 23) as nat == ycoord(x.rep as nat)
    }

    closed spec fn v_of_xyz(x: Fq23, y: Fq23, z: Fq23) -> nat {
        x.rep as nat
    }

    open spec fn endo_v(a: nat) -> nat {
        (16 * a) % 21
    }

    proof fn lemma_wf_on_curve(self) {
    }

    proof fn lemma_coordinates(x: Fq23, y: Fq23, z: Fq23) {
    }

    proof fn lemma_endo(a: nat, b: nat) {
        lemma_endo16(a, b);
        lemma_endo16(b, a);
    }

    fn is_on_curve(&self) -> (r: CtBool) {
        let k_ok = ct_gt_u64(21, self.k);
        let id_match = ct_eq_u64(self.k, 0).and(&ct_eq_u64(self.z, 0)).or(
            &ct_eq_u64(self.k, 0).not().and(&ct_eq_u64(self.z, 0).not()),
        );
        let z_ok = ct_eq_u64(self.k, 0).or(&ct_eq_u64(self.z, 1).or(&ct_eq_u64(self.z, 22)));
        k_ok.and(&id_match).and(&z_ok)
    }

    fn to_affine(&self) -> (r: ToyAffine) {
        ToyAffine { k: self.k }
    }

    fn coordinates(&self) -> (r: CtOpt<CoordinatesJac<Fq23>>) {
        let yc = ycoord_exec(self.k);
        proof {
            assert(yc * self.z < 529) by (nonlinear_arith)
                requires
                    yc < 23,
                    self.z < 23,
            ;
        }
        let w = (yc * self.z) % 23;
        let c = CoordinatesJac::<Fq23>::raw(
            Fq23 { rep: self.k },
            Fq23 { rep: w },
            Fq23 { rep: self.z },
        );
        let flag = ct_eq_u64(self.k, 0).not();
        proof {
            if self.k != 0 {
                lemma_zz_cancel(yc as nat, self.z as nat);
            }
        }
        CtOpt::new(c, flag)
    }

    fn from_coordinates(x: Fq23, y: Fq23, z: Fq23) -> (r: CtOpt<Self>) {
        let yc = ycoord_exec(x.rep);
        proof {
            assert(y.rep * z.rep < 529) by (nonlinear_arith)
                requires
                    y.rep < 23,
                    z.rep < 23,
            ;
            lemma_small_mod(x.rep as nat % 21, 21);
            if x.rep < 21 {
                lemma_small_mod(x.rep as nat, 21);
            }
        }
        let w = (y.rep * z.rep) % 23;
        let flag = ct_eq_u64(z.rep, 1).or(&ct_eq_u64(z.rep, 22)).and(&ct_gt_u64(21, x.rep)).and(
            &ct_gt_u64(x.rep, 0),
        ).and(&ct_eq_u64(w, yc));
        CtOpt::new(ToyPoint { k: x.rep % 21, z: z.rep }, flag)
    }

    fn add_mixed(&self, rhs: &ToyAffine) -> (r: Self) {
        let ks = (self.k + rhs.k) % 21;
        let z = zfor(ks);
        ToyPoint { k: ks, z }
    }

    fn double(&self) -> (r: Self) {
        self.add(self)
    }

    fn endo(&self) -> (r: Self) {
        proof {
            lemma_endo16(self@, self@);
        }
        let k2 = (16 * self.k) % 21;
        let z2 = ct_select_u64(self.z, 0, &ct_eq_u64(k2, 0));
        ToyPoint { k: k2, z: z2 }
    }
}


impl CurveAffine for ToyAffine {
    type Curve = ToyPoint;

    type Base = Fq23;

    closed spec fn on_curve(self) -> bool {
        self.k < 21
    }

    closed spec fn on_curve_xy(x: Fq23, y: Fq23) -> bool {
        1 <= x.rep < 21 && y.rep as nat == ycoord(x.rep as nat)
    }

    closed spec fn v_of_xy(x: Fq23, y: Fq23) -> nat {
        x.rep as nat
    }

    closed spec fn xy_of(a: nat) -> (Fq23, Fq23) {
        (Fq23 { rep: a as u64 }, Fq23 { rep: ycoord(a) as u64 })
    }

    open spec fn endo_v(a: nat) -> nat {
        (16 * a) % 21
    }

    open spec fn hash_v(domain_prefix: Seq<u8>, msg: Seq<u8>) -> nat {
        hash_fold(hash_fold(0, domain_prefix), msg)
    }

    closed spec fn a_v() -> Fq23 {
        Fq23 { rep: 5 }
    }

    closed spec fn b_v() -> Fq23 {
        Fq23 { rep: 7 }
    }

    proof fn lemma_wf_on_curve(self) {
    }

    proof fn lemma_coordinates(x: Fq23, y: Fq23, a: nat) {
        vstd::arithmetic::div_mod::lemma_mod_bound(
            (x.rep * x.rep * x.rep + 5 * x.rep + 7) as int,
            23,
        );
        vstd::arithmetic::div_mod::lemma_mod_bound((a * a * a + 5 * a + 7) as int, 23);
    }

    proof fn lemma_canonical(a: Self, b: Self) {
    }

    proof fn lemma_endo(a: nat, b: nat) {
        lemma_endo16(a, b);
        lemma_endo16(b, a);
    }

    proof fn lemma_hash_valid(domain_prefix: Seq<u8>, msg: Seq<u8>) {
        lemma_hash_fold_bound(0, domain_prefix);
        lemma_hash_fold_bound(hash_fold(0, domain_prefix), msg);
    }

    fn is_on_curve(&self) -> (r: CtBool) {
        ct_gt_u64(21, self.k)
    }

    fn to_curve(&self) -> (r: ToyPoint) {
        let z = zfor(self.k);
        ToyPoint { k: self.k, z }
    }

    fn coordinates(&self) -> (r: CtOpt<Coordinates<Fq23>>) {
        let yc = ycoord_exec(self.k);
        let c = Coordinates::<Fq23>::raw(Fq23 { rep: self.k }, Fq23 { rep: yc });
        let flag = ct_eq_u64(self.k, 0).not();
        CtOpt::new(c, flag)
    }

    fn from_coordinates(x: Fq23, y: Fq23) -> (r: CtOpt<Self>) {
        let yc = ycoord_exec(x.rep);
        proof {
            lemma_small_mod(x.rep as nat % 21, 21);
            if x.rep < 21 {
                lemma_small_mod(x.rep as nat, 21);
            }
        }
        let flag = ct_gt_u64(21, x.rep).and(&ct_gt_u64(x.rep, 0)).and(&ct_eq_u64(y.rep, yc));
        CtOpt::new(ToyAffine { k: x.rep % 21 }, flag)
    }

    fn a() -> (r: Fq23) {
        Fq23 { rep: 5 }
    }

    fn b() -> (r: Fq23) {
        Fq23 { rep: 7 }
    }

    fn add(&self, rhs: &Self) -> (r: ToyPoint) {
        let ks = (self.k + rhs.k) % 21;
        let z = zfor(ks);
        ToyPoint { k: ks, z }
    }

    fn sub(&self, rhs: &Self) -> (r: ToyPoint) {
        proof {
            if rhs.k != 0 {
                lemma_small_mod((21 - rhs.k) as nat, 21);
            }
        }
        let nk = (21 - rhs.k) % 21;
        let ks = (self.k + nk) % 21;
        let z = zfor(ks);
        ToyPoint { k: ks, z }
    }

    fn mul(&self, s: &Fp7) -> (r: ToyPoint) {
        let p = self.to_curve();
        let mut acc = <ToyPoint as Group>::identity();
        let mut i: u64 = 0;
        while i < s.rep
            invariant
                p.wf(),
                p@ == self@,
                acc.wf(),
                i <= s.rep,
                acc@ == smul_v::<ToyAffine>(p@, i as nat),
            decreases s.rep - i,
        {
            acc = acc.add(&p);
            i = i + 1;
        }
        acc
    }

    fn endo(&self) -> (r: Self) {
        proof {
            lemma_endo16(self@, self@);
        }
        ToyAffine { k: (16 * self.k) % 21 }
    }

    fn hash_to_curve(domain_prefix: &[u8], msg: &[u8]) -> (r: Self) {
        let h1 = hash_step(0, domain_prefix);
        let h2 = hash_step(h1, msg);
        ToyAffine { k: h2 }
    }
}

impl Encoding for ToyAffine {
    type Repr = ToyRepr;

    open spec fn encode_v(a: nat) -> ToyRepr {
        ToyRepr { lo: a as u8, hi: 0 }
    }

    open spec fn decode_v(r: ToyRepr) -> Option<nat> {
        if r.hi == 0 && r.lo < 21 {
            Some(r.lo as nat)
        } else {
            None
        }
    }

    proof fn lemma_codec(a: nat, r: ToyRepr, b: nat) {
    }

    fn to_bytes(&self) -> (r: ToyRepr) {
        ToyRepr { lo: self.k as u8, hi: 0 }
    }

    fn from_bytes(bytes: &ToyRepr) -> (r: CtOpt<Self>) {
        let lo = bytes.lo as u64;
        proof {
            lemma_small_mod(lo as nat % 21, 21);
            if lo < 21 {
                lemma_small_mod(lo as nat, 21);
            }
        }
        let flag = ct_eq_u64(bytes.hi as u64, 0).and(&ct_gt_u64(21, lo));
        CtOpt::new(ToyAffine { k: lo % 21 }, flag)
    }

    fn from_bytes_unchecked(bytes: &ToyRepr) -> (r: CtOpt<Self>) {
        CtOpt::new(ToyAffine { k: bytes.lo as u64 }, CtBool::ct_true())
    }
}

impl UncompressedEncoding for ToyAffine {
    type Uncompressed = ToyUncompressed;

    open spec fn uncompressed_encode_v(a: nat) -> ToyUncompressed {
        if a == 0 {
            ToyUncompressed { x: 0, y: 0 }
        } else {
            ToyUncompressed { x: a as u8, y: ycoord(a) as u8 }
        }
    }

    open spec fn uncompressed_decode_v(r: ToyUncompressed) -> Option<nat> {
        if r.x == 0 && r.y == 0 {
            Some(0)
        } else if 1 <= r.x < 21 && r.y as nat == ycoord(r.x as nat) {
            Some(r.x as nat)
        } else {
            None
        }
    }

    proof fn lemma_uncompressed_codec(a: nat, r: ToyUncompressed, b: nat) {
        vstd::arithmetic::div_mod::lemma_mod_bound((a * a * a + 5 * a + 7) as int, 23);
        vstd::arithmetic::div_mod::lemma_mod_bound(
            (r.x * r.x * r.x + 5 * r.x + 7) as int,
            23,
        );
    }

    fn to_uncompressed(&self) -> (r: ToyUncompressed) {
        let yc = ycoord_exec(self.k);
        let y = ct_select_u64(yc, 0, &ct_eq_u64(self.k, 0));
        ToyUncompressed { x: self.k as u8, y: y as u8 }
    }

    fn from_uncompressed(bytes: &ToyUncompressed) -> (r: CtOpt<Self>) {
        let x = bytes.x as u64;
        let y = bytes.y as u64;
        let yc = ycoord_exec(x % 23);
        proof {
            lemma_small_mod(x as nat % 21, 21);
            if x < 21 {
                lemma_small_mod(x as nat, 21);
                lemma_small_mod(x as nat, 23);
            }
        }
        let is_id = ct_eq_u64(x, 0).and(&ct_eq_u64(y, 0));
        let is_pt = ct_gt_u64(21, x).and(&ct_gt_u64(x, 0)).and(&ct_eq_u64(y, yc));
        let flag = is_id.or(&is_pt);
        CtOpt::new(ToyAffine { k: x % 21 }, flag)
    }

    fn from_uncompressed_unchecked(bytes: &ToyUncompressed) -> (r: CtOpt<Self>) {
        let x = bytes.x as u64;
        proof {
            lemma_small_mod(x as nat % 21, 21);
            if x < 21 {
                lemma_small_mod(x as nat, 21);
            }
        }
        CtOpt::new(ToyAffine { k: x % 21 }, CtBool::ct_true())
    }
}

impl ToySubgroup {
    /// The subgroup element with the given index, which must be a multiple
    /// of 3.
    pub fn from_index(k: u64) -> (r: ToySubgroup)
        requires
            k < 21,
            k as nat % 3 == 0,
        ensures
            r.wf(),
            r@ == k as nat,
    {
        ToySubgroup { k }
    }
}

impl View for ToySubgroup {
    type V = nat;

    closed spec fn view(&self) -> nat {
        self.k as nat
    }
}

impl CtSelectable for ToySubgroup {
    fn conditional_select(a: &Self, b: &Self, c: &CtBool) -> (r: Self) {
        ToySubgroup { k: ct_select_u64(a.k, b.k, c) }
    }
}

impl Group for ToySubgroup {
    type Scalar = Fp7;

    closed spec fn wf(self) -> bool {
        self.k < 21 && self.k as nat % 3 == 0
    }

    open spec fn valid_v(a: nat) -> bool {
        a < 21 && a % 3 == 0
    }

    open spec fn add_v(a: nat, b: nat) -> nat {
        (a + b) % 21
    }

    open spec fn neg_v(a: nat) -> nat {
        if 0 < a < 21 {
            (21 - a) as nat
        } else {
            0
        }
    }

    open spec fn id_v() -> nat {
        0
    }

    open spec fn gen_v() -> nat {
        3
    }

    proof fn lemma_axioms(a: nat, b: nat, c: nat) {
        lemma_axioms21(a, b, c);
        lemma_axioms21(b, a, c);
        lemma_sub21(a, b);
        lemma_sub21(b, a);
    }

    proof fn lemma_constants() {
    }

    proof fn lemma_wf_valid(self) {
    }

    fn identity() -> (r: Self) {
        ToySubgroup { k: 0 }
    }

    fn generator() -> (r: Self) {
        ToySubgroup { k: 3 }
    }

    fn is_identity(&self) -> (r: CtBool) {
        ct_eq_u64(self.k, 0)
    }

    fn ct_eq(&self, rhs: &Self) -> (r: CtBool) {
        ct_eq_u64(self.k, rhs.k)
    }

    fn neg(&self) -> (r: Self) {
        proof {
            if self.k != 0 {
                lemma_small_mod((21 - self.k) as nat, 21);
                lemma_sub21(self@, self@);
            }
        }
        ToySubgroup { k: (21 - self.k) % 21 }
    }

    fn from_entropy(e: u64) -> (r: Self) {
        proof {
            lemma_mod_multiples_basic((e as int % 6) + 1, 3);
        }
        ToySubgroup { k: 3 * (e % 6 + 1) }
    }
}

impl GroupOps for ToySubgroup {
    fn add(&self, rhs: &Self) -> (r: Self) {
        proof {
            lemma_sub21(self@, rhs@);
        }
        ToySubgroup { k: (self.k + rhs.k) % 21 }
    }

    fn sub(&self, rhs: &Self) -> (r: Self) {
        proof {
            lemma_sub21(rhs@, rhs@);
            if rhs.k != 0 {
                lemma_small_mod((21 - rhs.k) as nat, 21);
            }
        }
        let nk = (21 - rhs.k) % 21;
        proof {
            lemma_sub21(self@, nk as nat);
        }
        ToySubgroup { k: (self.k + nk) % 21 }
    }
}

impl GroupOpsOwned for ToySubgroup {
}

impl ScalarMul for ToySubgroup {
    fn mul(&self, s: &Fp7) -> (r: Self) {
        let mut acc = <ToySubgroup as Group>::identity();
        let mut i: u64 = 0;
        while i < s.rep
            invariant
                self.wf(),
                acc.wf(),
                i <= s.rep,
                acc@ == smul_v::<ToySubgroup>(self@, i as nat),
            decreases s.rep - i,
        {
            acc = acc.add(self);
            i = i + 1;
        }
        acc
    }
}

impl ScalarMulOwned for ToySubgroup {
}

impl Encoding for ToySubgroup {
    type Repr = ToyRepr;

    open spec fn encode_v(a: nat) -> ToyRepr {
        ToyRepr { lo: a as u8, hi: 0 }
    }

    open spec fn decode_v(r: ToyRepr) -> Option<nat> {
        if r.hi == 0 && r.lo < 21 && (r.lo as nat) % 3 == 0 {
            Some(r.lo as nat)
        } else {
            None
        }
    }

    proof fn lemma_codec(a: nat, r: ToyRepr, b: nat) {
    }

    fn to_bytes(&self) -> (r: ToyRepr) {
        ToyRepr { lo: self.k as u8, hi: 0 }
    }

    fn from_bytes(bytes: &ToyRepr) -> (r: CtOpt<Self>) {
        let lo = bytes.lo as u64;
        let km = lo % 21;
        let rem = km % 3;
        proof {
            lemma_small_mod(lo as nat % 21, 21);
            if lo < 21 {
                lemma_small_mod(lo as nat, 21);
            }
            lemma_fundamental_div_mod(km as int, 3);
            lemma_mod_multiples_basic(km as int / 3, 3);
        }
        let flag = ct_eq_u64(bytes.hi as u64, 0).and(&ct_gt_u64(21, lo)).and(
            &ct_eq_u64(rem, 0),
        );
        CtOpt::new(ToySubgroup { k: km - rem }, flag)
    }

    fn from_bytes_unchecked(bytes: &ToyRepr) -> (r: CtOpt<Self>) {
        CtOpt::new(ToySubgroup { k: bytes.lo as u64 }, CtBool::ct_true())
    }
}

impl Cofactor for ToyPoint {
    type Subgroup = ToySubgroup;

    open spec fn clear_v(a: nat) -> nat {
        (15 * a) % 21
    }

    proof fn lemma_subgroup(a: nat, b: nat) {
        assert(<ToySubgroup as Group>::valid_v(a) == (a < 21 && a % 3 == 0));
        assert(<ToyPoint as Group>::valid_v(a) == (a < 21));
        assert(<ToySubgroup as Group>::add_v(a, b) == (a + b) % 21);
        assert(<ToyPoint as Group>::add_v(a, b) == (a + b) % 21);
        assert(<ToySubgroup as Group>::id_v() == 0nat);
        assert(<ToyPoint as Group>::id_v() == 0nat);
    }

    proof fn lemma_clear_in_subgroup(a: nat) {
        lemma_clear15(a);
    }

    proof fn lemma_clear_idempotent(a: nat) {
        lemma_clear15(a);
    }

    fn clear_cofactor(&self) -> (r: ToySubgroup) {
        proof {
            lemma_clear15(self@);
        }
        let kc = (15 * self.k) % 21;
        let r = ToySubgroup { k: kc };
        proof {
            assert(kc as nat == (15 * self@) % 21);
            assert(r@ == kc as nat);
            assert(r.wf());
        }
        r
    }

    fn embed(s: &ToySubgroup) -> (r: Self) {
        let z = zfor(s.k);
        ToyPoint { k: s.k, z }
    }

    fn into_subgroup(self) -> (r: CtOpt<ToySubgroup>) {
        let rem = self.k % 3;
        proof {
            lemma_fundamental_div_mod(self.k as int, 3);
            lemma_mod_multiples_basic(self.k as int / 3, 3);
        }
        let flag = ct_eq_u64(rem, 0);
        CtOpt::new(ToySubgroup { k: self.k - rem }, flag)
    }

    fn is_torsion_free(&self) -> (r: CtBool) {
        // The sound membership test: multiply by the subgroup order 7 and
        // compare with the identity, independent of cofactor clearing.
        let mut acc = *self;
        let mut i: u64 = 1;
        proof {
            lemma_small_mod(self@, 21);
            assert(1 * self@ == self@);
        }
        while i < 7
            invariant
                self.wf(),
                acc.wf(),
                1 <= i <= 7,
                acc@ == (i * self@) % 21,
            decreases 7 - i,
        {
            proof {
                lemma_add_mod_noop((i * self@) as int, self@ as int, 21);
                lemma_small_mod(self@, 21);
                assert((i + 1) * self@ == i * self@ + self@) by (nonlinear_arith);
            }
            acc = acc.add(self);
            i = i + 1;
        }
        proof {
            lemma_torsion_test(self@);
        }
        acc.is_identity()
    }
}


impl Cofactor for ToySubgroup {
    type Subgroup = ToySubgroup;

    open spec fn clear_v(a: nat) -> nat {
        a
    }

    proof fn lemma_subgroup(a: nat, b: nat) {
    }

    proof fn lemma_clear_in_subgroup(a: nat) {
    }

    proof fn lemma_clear_idempotent(a: nat) {
    }

    fn clear_cofactor(&self) -> (r: ToySubgroup) {
        *self
    }

    fn embed(s: &ToySubgroup) -> (r: Self) {
        *s
    }

    fn into_subgroup(self) -> (r: CtOpt<ToySubgroup>) {
        CtOpt::new(self, CtBool::ct_true())
    }

    fn is_torsion_free(&self) -> (r: CtBool) {
        CtBool::ct_true()
    }
}

impl Default for Fq23 {
    fn default() -> (r: Self)
        ensures
            r.wf(),
            r.as_nat() == 0,
    {
        Fq23 { rep: 0 }
    }
}

impl Default for Fp7 {
    fn default() -> (r: Self)
        ensures
            r.wf(),
            r.as_nat() == 0,
    {
        Fp7 { rep: 0 }
    }
}

impl Default for ToyAffine {
    fn default() -> (r: Self)
        ensures
            r.wf(),
            r@ == <ToyAffine as Group>::id_v(),
    {
        <ToyAffine as Group>::identity()
    }
}

impl Default for ToyPoint {
    fn default() -> (r: Self)
        ensures
            r.wf(),
            r@ == <ToyPoint as Group>::id_v(),
    {
        <ToyPoint as Group>::identity()
    }
}

impl Default for ToySubgroup {
    fn default() -> (r: Self)
        ensures
            r.wf(),
            r@ == <ToySubgroup as Group>::id_v(),
    {
        <ToySubgroup as Group>::identity()
    }
}

impl Default for ToyRepr {
    fn default() -> (r: Self)
        ensures
            r == (ToyRepr { lo: 0, hi: 0 }),
    {
        ToyRepr { lo: 0, hi: 0 }
    }
}

impl Default for ToyUncompressed {
    fn default() -> (r: Self)
        ensures
            r == (ToyUncompressed { x: 0, y: 0 }),
    {
        ToyUncompressed { x: 0, y: 0 }
    }
}

} // verus!
