use vstd::prelude::*;

verus! {

/// A constant-time boolean: a truth value carried as a data bit, so that
/// producing and combining such values never branches on secret material.
#[derive(Clone, Copy, Debug)]
pub struct CtBool {
    bit: u8,
}

impl CtBool {
    /// The bit is either 0 or 1.
    pub closed spec fn wf(self) -> bool {
        self.bit <= 1
    }

    /// Whether this value stands for "true".
    pub closed spec fn is_set(self) -> bool {
        self.bit == 1
    }

    pub fn ct_true() -> (r: CtBool)
        ensures
            r.wf(),
            r.is_set(),
    {
        CtBool { bit: 1 }
    }

    pub fn ct_false() -> (r: CtBool)
        ensures
            r.wf(),
            !r.is_set(),
    {
        CtBool { bit: 0 }
    }

    pub fn and(&self, other: &CtBool) -> (r: CtBool)
        requires
            self.wf(),
            other.wf(),
        ensures
            r.wf(),
            r.is_set() <==> self.is_set() && other.is_set(),
    {
        let a = self.bit;
        let b = other.bit;
        assert((a & b <= 1) && ((a & b == 1) <==> (a == 1 && b == 1))) by (bit_vector)
            requires
                a <= 1,
                b <= 1,
        ;
        CtBool { bit: a & b }
    }

    pub fn or(&self, other: &CtBool) -> (r: CtBool)
        requires
            self.wf(),
            other.wf(),
        ensures
            r.wf(),
            r.is_set() <==> self.is_set() || other.is_set(),
    {
        let a = self.bit;
        let b = other.bit;
        assert((a | b <= 1) && ((a | b == 1) <==> (a == 1 || b == 1))) by (bit_vector)
            requires
                a <= 1,
                b <= 1,
        ;
        CtBool { bit: a | b }
    }

    pub fn not(&self) -> (r: CtBool)
        requires
            self.wf(),
        ensures
            r.wf(),
            r.is_set() <==> !self.is_set(),
    {
        CtBool { bit: 1 - self.bit }
    }

    /// The late, explicit branch point: reveals the bit as an ordinary boolean.
    pub fn truth(&self) -> (r: bool)
        requires
            self.wf(),
        ensures
            r == self.is_set(),
    {
        self.bit == 1
    }

    /// The bit itself: 1 for "true", 0 for "false".
    pub fn unwrap_u8(&self) -> (r: u8)
        requires
            self.wf(),
        ensures
            r == if self.is_set() { 1u8 } else { 0u8 },
    {
        self.bit
    }
}

/// A constant-time optional value. The payload and the validity flag are both
/// always materialised, so that a "no value" outcome is produced through the
/// same data flow as a present value; callers branch on validity late, through
/// `into_option`, or select on it with the flag.
#[derive(Clone, Copy)]
pub struct CtOpt<T> {
    value: T,
    flag: CtBool,
}

impl<T> CtOpt<T> {
    pub closed spec fn wf(self) -> bool {
        self.flag.wf()
    }

    pub closed spec fn is_valid(self) -> bool {
        self.flag.is_set()
    }

    pub closed spec fn val(self) -> T {
        self.value
    }

    pub fn new(value: T, flag: CtBool) -> (r: CtOpt<T>)
        requires
            flag.wf(),
        ensures
            r.wf(),
            r.is_valid() == flag.is_set(),
            r.val() == value,
    {
        CtOpt { value, flag }
    }

    pub fn is_some(&self) -> (r: CtBool)
        requires
            self.wf(),
        ensures
            r.wf(),
            r.is_set() == self.is_valid(),
    {
        self.flag
    }

    /// The late branch on validity.
    pub fn into_option(self) -> (r: Option<T>)
        requires
            self.wf(),
        ensures
            r == if self.is_valid() {
                Some(self.val())
            } else {
                None::<T>
            },
    {
        let f = self.flag.truth();
        if f {
            Some(self.value)
        } else {
            None
        }
    }
}

/// Relies on `<u64 as subtle::ConstantTimeEq>::ct_eq`: the returned `Choice`
/// holds 1 exactly when the two values are equal, computed by masking rather
/// than branching.
#[verifier::external_body]
pub(crate) fn ct_eq_u64(a: u64, b: u64) -> (r: CtBool)
    ensures
        r.wf(),
        r.is_set() <==> a == b,
{
    CtBool { bit: subtle::ConstantTimeEq::ct_eq(&a, &b).unwrap_u8() }
}

/// Relies on `<u64 as subtle::ConstantTimeGreater>::ct_gt`: the returned
/// `Choice` holds 1 exactly when the first value is strictly greater.
#[verifier::external_body]
pub(crate) fn ct_gt_u64(a: u64, b: u64) -> (r: CtBool)
    ensures
        r.wf(),
        r.is_set() <==> a > b,
{
    CtBool { bit: subtle::ConstantTimeGreater::ct_gt(&a, &b).unwrap_u8() }
}

/// Relies on `<u64 as subtle::ConditionallySelectable>::conditional_select`:
/// returns the first value when the choice bit is 0 and the second when it is
/// 1, selecting by masking rather than branching.
#[verifier::external_body]
pub(crate) fn ct_select_u64(a: u64, b: u64, c: &CtBool) -> (r: u64)
    requires
        c.wf(),
    ensures
        r == if c.is_set() { b } else { a },
{
    subtle::ConditionallySelectable::conditional_select(&a, &b, subtle::Choice::from(c.bit))
}

/// Relies on `rand_core::Rng::next_u64`: draws the next value from the
/// caller's generator. Nothing is promised of the result.
#[verifier::external_body]
pub(crate) fn draw_u64<R: rand_core::Rng>(rng: &mut R) -> u64 {
    rng.next_u64()
}

} // verus!
