//! Numeric sample types.

use vstd::prelude::*;

verus! {

/// A sample type: an unsigned count of light, from zero up to a largest level.
///
/// Every sample stands for a natural number, its level, and a sample is
/// determined by its level. Levels are bounded by `u32::MAX`, so that a sum of
/// a few samples can be formed in a `u64`.
pub trait Component: Copy + Sized {
    /// The natural number that the sample stands for.
    spec fn level(self) -> nat;

    /// The largest level that the type can hold.
    spec fn max_level() -> nat;

    /// No sample lies above the largest level.
    proof fn level_bounded(self)
        ensures
            self.level() <= Self::max_level(),
    ;

    /// Sums of a few levels fit in a `u64`.
    proof fn max_level_bounded()
        ensures
            Self::max_level() <= u32::MAX,
    ;

    /// Two samples of the same level are the same sample.
    proof fn level_injective(a: Self, b: Self)
        requires
            a.level() == b.level(),
        ensures
            a == b,
    ;

    /// The sample that marks a channel as not yet reconstructed.
    fn zero() -> (z: Self)
        ensures
            z.level() == 0,
    ;

    /// The level of the sample, for arithmetic.
    fn to_u64(self) -> (v: u64)
        ensures
            v == self.level(),
    ;

    /// The sample of the given level.
    fn from_u64(v: u64) -> (s: Self)
        requires
            v <= Self::max_level(),
        ensures
            s.level() == v,
    ;
}

/// The levels of the samples `data`, in their order.
pub open spec fn levels<T: Component>(data: Seq<T>) -> Seq<nat> {
    Seq::new(data.len(), |k: int| data[k].level())
}

/// Two images with the same levels hold the same samples.
pub proof fn lemma_levels_determine_samples<T: Component>(a: Seq<T>, b: Seq<T>)
    requires
        levels(a) == levels(b),
    ensures
        a == b,
{
    assert(a.len() == levels(a).len());
    assert(b.len() == levels(b).len());
    assert forall|k: int| 0 <= k < a.len() implies a[k] == b[k] by {
        assert(levels(a)[k] == a[k].level());
        assert(levels(b)[k] == b[k].level());
        T::level_injective(a[k], b[k]);
    }
    assert(a =~= b);
}

impl Component for u8 {
    open spec fn level(self) -> nat {
        self as nat
    }

    open spec fn max_level() -> nat {
        u8::MAX as nat
    }

    proof fn level_bounded(self) {
    }

    proof fn max_level_bounded() {
    }

    proof fn level_injective(a: Self, b: Self) {
    }

    fn zero() -> (z: Self) {
        0
    }

    fn to_u64(self) -> (v: u64) {
        self as u64
    }

    fn from_u64(v: u64) -> (s: Self) {
        v as u8
    }
}

impl Component for u16 {
    open spec fn level(self) -> nat {
        self as nat
    }

    open spec fn max_level() -> nat {
        u16::MAX as nat
    }

    proof fn level_bounded(self) {
    }

    proof fn max_level_bounded() {
    }

    proof fn level_injective(a: Self, b: Self) {
    }

    fn zero() -> (z: Self) {
        0
    }

    fn to_u64(self) -> (v: u64) {
        self as u64
    }

    fn from_u64(v: u64) -> (s: Self) {
        v as u16
    }
}

impl Component for u32 {
    open spec fn level(self) -> nat {
        self as nat
    }

    open spec fn max_level() -> nat {
        u32::MAX as nat
    }

    proof fn level_bounded(self) {
    }

    proof fn max_level_bounded() {
    }

    proof fn level_injective(a: Self, b: Self) {
    }

    fn zero() -> (z: Self) {
        0
    }

    fn to_u64(self) -> (v: u64) {
        self as u64
    }

    fn from_u64(v: u64) -> (s: Self) {
        v as u32
    }
}

} // verus!
