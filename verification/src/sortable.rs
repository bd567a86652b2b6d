//! Wrappers that make partially ordered keys usable for sorting, with a
//! totality check on the key type, plus variants carrying extra payload
//! data and lexicographic two- and three-key forms.

use core::cmp::Ordering;
use vstd::prelude::*;
use vstd::std_specs::cmp::PartialEqSpec;
use vstd::std_specs::cmp::PartialEqSpecImpl;
use vstd::std_specs::cmp::PartialOrdSpec;
use vstd::std_specs::cmp::PartialOrdSpecImpl;

verus! {

/// A key type that can certify each value as safe to sort: comparisons
/// on checked values never come back undecided.
pub trait SortableCheck {
    /// Whether this value is a sound sort key.
    spec fn sortable_spec(&self) -> bool;

    /// Decide `sortable_spec`, exactly.
    fn sortable_check(&self) -> (r: bool)
        ensures
            r == self.sortable_spec(),
    ;
}

impl SortableCheck for u8 {
    open spec fn sortable_spec(&self) -> bool {
        true
    }

    fn sortable_check(&self) -> (r: bool) {
        true
    }
}

impl SortableCheck for i8 {
    open spec fn sortable_spec(&self) -> bool {
        true
    }

    fn sortable_check(&self) -> (r: bool) {
        true
    }
}

impl SortableCheck for u16 {
    open spec fn sortable_spec(&self) -> bool {
        true
    }

    fn sortable_check(&self) -> (r: bool) {
        true
    }
}

impl SortableCheck for i16 {
    open spec fn sortable_spec(&self) -> bool {
        true
    }

    fn sortable_check(&self) -> (r: bool) {
        true
    }
}

impl SortableCheck for u32 {
    open spec fn sortable_spec(&self) -> bool {
        true
    }

    fn sortable_check(&self) -> (r: bool) {
        true
    }
}

impl SortableCheck for i32 {
    open spec fn sortable_spec(&self) -> bool {
        true
    }

    fn sortable_check(&self) -> (r: bool) {
        true
    }
}

impl SortableCheck for u64 {
    open spec fn sortable_spec(&self) -> bool {
        true
    }

    fn sortable_check(&self) -> (r: bool) {
        true
    }
}

impl SortableCheck for i64 {
    open spec fn sortable_spec(&self) -> bool {
        true
    }

    fn sortable_check(&self) -> (r: bool) {
        true
    }
}

impl SortableCheck for u128 {
    open spec fn sortable_spec(&self) -> bool {
        true
    }

    fn sortable_check(&self) -> (r: bool) {
        true
    }
}

impl SortableCheck for i128 {
    open spec fn sortable_spec(&self) -> bool {
        true
    }

    fn sortable_check(&self) -> (r: bool) {
        true
    }
}

impl SortableCheck for usize {
    open spec fn sortable_spec(&self) -> bool {
        true
    }

    fn sortable_check(&self) -> (r: bool) {
        true
    }
}

impl SortableCheck for isize {
    open spec fn sortable_spec(&self) -> bool {
        true
    }

    fn sortable_check(&self) -> (r: bool) {
        true
    }
}

/// A single sortable key.
#[derive(Debug, Clone, Copy)]
pub struct Sortable<S: PartialEq + PartialOrd + SortableCheck>(pub S);

impl<S: PartialEqSpec + PartialOrdSpec + SortableCheck> Sortable<S> {
    /// Key equality; sound when the key type obeys its comparison spec.
    pub fn eq(&self, other: &Sortable<S>) -> (r: bool)
        requires
            self.0.sortable_spec(),
        ensures
            S::obeys_eq_spec() ==> r == self.0.eq_spec(&other.0),
    {
        self.0.eq(&other.0)
    }

    /// Key comparison.
    pub fn partial_cmp(&self, other: &Sortable<S>) -> (r: Option<Ordering>)
        requires
            self.0.sortable_spec(),
            other.0.sortable_spec(),
        ensures
            S::obeys_partial_cmp_spec() ==> r == self.0.partial_cmp_spec(&other.0),
    {
        self.0.partial_cmp(&other.0)
    }

    /// Total comparison of checked keys: defined exactly when the key
    /// comparison is decided.
    pub fn cmp(&self, other: &Sortable<S>) -> (r: Ordering)
        requires
            self.0.sortable_spec(),
            other.0.sortable_spec(),
            S::obeys_partial_cmp_spec(),
            self.0.partial_cmp_spec(&other.0) is Some,
        ensures
            Some(r) == self.0.partial_cmp_spec(&other.0),
    {
        self.partial_cmp(other).unwrap()
    }
}

impl<S: PartialEqSpec + PartialOrdSpec + SortableCheck> PartialEq for Sortable<S> {
    fn eq(&self, other: &Self) -> (r: bool) {
        self.0.eq(&other.0)
    }
}

impl<S: PartialEqSpec + PartialOrdSpec + SortableCheck> PartialEqSpecImpl for Sortable<S> {
    open spec fn obeys_eq_spec() -> bool {
        S::obeys_eq_spec()
    }

    open spec fn eq_spec(&self, other: &Self) -> bool {
        self.0.eq_spec(&other.0)
    }
}

/// A sortable key carrying payload data that takes no part in the
/// comparisons.
#[derive(Debug, Clone, Copy)]
pub struct SortableWith<S: PartialEq + PartialOrd + SortableCheck, T>(pub S, pub T);

impl<S: PartialEqSpec + PartialOrdSpec + SortableCheck, T> SortableWith<S, T> {
    /// The payload.
    pub fn data(&self) -> (r: &T)
        ensures
            *r == self.1,
    {
        &self.1
    }

    /// The payload, writable in place.
    pub fn data_mut(&mut self) -> (r: &mut T)
        ensures
            *r == old(self).1,
            final (self).0 == old(self).0,
            final (self).1 == *final (r),
    {
        &mut self.1
    }

    /// Key equality; the payload is ignored.
    pub fn eq(&self, other: &SortableWith<S, T>) -> (r: bool)
        requires
            self.0.sortable_spec(),
        ensures
            S::obeys_eq_spec() ==> r == self.0.eq_spec(&other.0),
    {
        self.0.eq(&other.0)
    }

    /// Key comparison; the payload is ignored.
    pub fn partial_cmp(&self, other: &SortableWith<S, T>) -> (r: Option<Ordering>)
        requires
            self.0.sortable_spec(),
            other.0.sortable_spec(),
        ensures
            S::obeys_partial_cmp_spec() ==> r == self.0.partial_cmp_spec(&other.0),
    {
        self.0.partial_cmp(&other.0)
    }

    /// Total comparison of checked keys.
    pub fn cmp(&self, other: &SortableWith<S, T>) -> (r: Ordering)
        requires
            self.0.sortable_spec(),
            other.0.sortable_spec(),
            S::obeys_partial_cmp_spec(),
            self.0.partial_cmp_spec(&other.0) is Some,
        ensures
            Some(r) == self.0.partial_cmp_spec(&other.0),
    {
        self.partial_cmp(other).unwrap()
    }
}

impl<S: PartialEqSpec + PartialOrdSpec + SortableCheck, T> PartialEq for SortableWith<S, T> {
    fn eq(&self, other: &Self) -> (r: bool) {
        self.0.eq(&other.0)
    }
}

impl<S: PartialEqSpec + PartialOrdSpec + SortableCheck, T> PartialEqSpecImpl for SortableWith<S, T> {
    open spec fn obeys_eq_spec() -> bool {
        S::obeys_eq_spec()
    }

    open spec fn eq_spec(&self, other: &Self) -> bool {
        self.0.eq_spec(&other.0)
    }
}

/// Two keys compared lexicographically.
#[derive(Debug, Clone, Copy)]
pub struct Sortable2D<
    S1: PartialEq + PartialOrd + SortableCheck,
    S2: PartialEq + PartialOrd + SortableCheck,
>(pub S1, pub S2);

impl<
    S1: PartialEqSpec + PartialOrdSpec + SortableCheck,
    S2: PartialEqSpec + PartialOrdSpec + SortableCheck,
> Sortable2D<S1, S2> {
    /// Both keys equal; sound when both key types obey their specs.
    pub fn eq(&self, other: &Sortable2D<S1, S2>) -> (r: bool)
        requires
            self.0.sortable_spec(),
            self.1.sortable_spec(),
        ensures
            S1::obeys_eq_spec() && S2::obeys_eq_spec() ==> r == (self.0.eq_spec(&other.0)
                && self.1.eq_spec(&other.1)),
    {
        self.0.eq(&other.0) && self.1.eq(&other.1)
    }

    /// Lexicographic comparison: the second key decides only when the
    /// first compares equal.
    pub fn partial_cmp(&self, other: &Sortable2D<S1, S2>) -> (r: Option<Ordering>)
        requires
            self.0.sortable_spec(),
            other.0.sortable_spec(),
            self.1.sortable_spec(),
            other.1.sortable_spec(),
            S1::obeys_partial_cmp_spec(),
            self.0.partial_cmp_spec(&other.0) is Some,
        ensures
            S2::obeys_partial_cmp_spec() ==> r == (if self.0.partial_cmp_spec(&other.0) == Some(
                Ordering::Equal,
            ) {
                self.1.partial_cmp_spec(&other.1)
            } else {
                self.0.partial_cmp_spec(&other.0)
            }),
    {
        let first = self.0.partial_cmp(&other.0).unwrap();
        match first {
            Ordering::Equal => self.1.partial_cmp(&other.1),
            _ => Some(first),
        }
    }

    /// Total lexicographic comparison of checked keys.
    pub fn cmp(&self, other: &Sortable2D<S1, S2>) -> (r: Ordering)
        requires
            self.0.sortable_spec(),
            other.0.sortable_spec(),
            self.1.sortable_spec(),
            other.1.sortable_spec(),
            S1::obeys_partial_cmp_spec(),
            S2::obeys_partial_cmp_spec(),
            self.0.partial_cmp_spec(&other.0) is Some,
            self.1.partial_cmp_spec(&other.1) is Some,
        ensures
            Some(r) == (if self.0.partial_cmp_spec(&other.0) == Some(Ordering::Equal) {
                self.1.partial_cmp_spec(&other.1)
            } else {
                self.0.partial_cmp_spec(&other.0)
            }),
    {
        self.partial_cmp(other).unwrap()
    }
}

impl<S1: PartialEqSpec + PartialOrdSpec + SortableCheck, S2: PartialEqSpec + PartialOrdSpec + SortableCheck> PartialEq for Sortable2D<S1, S2> {
    fn eq(&self, other: &Self) -> (r: bool) {
        self.0.eq(&other.0) && self.1.eq(&other.1)
    }
}

impl<S1: PartialEqSpec + PartialOrdSpec + SortableCheck, S2: PartialEqSpec + PartialOrdSpec + SortableCheck> PartialEqSpecImpl for Sortable2D<S1, S2> {
    open spec fn obeys_eq_spec() -> bool {
        S1::obeys_eq_spec() && S2::obeys_eq_spec()
    }

    open spec fn eq_spec(&self, other: &Self) -> bool {
        self.0.eq_spec(&other.0) && self.1.eq_spec(&other.1)
    }
}

/// Two lexicographic keys carrying payload data.
#[derive(Debug, Clone, Copy)]
pub struct Sortable2DWith<
    S1: PartialEq + PartialOrd + SortableCheck,
    S2: PartialEq + PartialOrd + SortableCheck,
    T,
>(pub S1, pub S2, pub T);

impl<
    S1: PartialEqSpec + PartialOrdSpec + SortableCheck,
    S2: PartialEqSpec + PartialOrdSpec + SortableCheck,
    T,
> Sortable2DWith<S1, S2, T> {
    /// The payload.
    pub fn data(&self) -> (r: &T)
        ensures
            *r == self.2,
    {
        &self.2
    }

    /// The payload, writable in place.
    pub fn data_mut(&mut self) -> (r: &mut T)
        ensures
            *r == old(self).2,
            final (self).0 == old(self).0,
            final (self).1 == old(self).1,
            final (self).2 == *final (r),
    {
        &mut self.2
    }

    /// Both keys equal; the payload is ignored.
    pub fn eq(&self, other: &Sortable2DWith<S1, S2, T>) -> (r: bool)
        requires
            self.0.sortable_spec(),
            self.1.sortable_spec(),
        ensures
            S1::obeys_eq_spec() && S2::obeys_eq_spec() ==> r == (self.0.eq_spec(&other.0)
                && self.1.eq_spec(&other.1)),
    {
        self.0.eq(&other.0) && self.1.eq(&other.1)
    }

    /// Lexicographic comparison; the payload is ignored.
    pub fn partial_cmp(&self, other: &Sortable2DWith<S1, S2, T>) -> (r: Option<Ordering>)
        requires
            self.0.sortable_spec(),
            other.0.sortable_spec(),
            self.1.sortable_spec(),
            other.1.sortable_spec(),
            S1::obeys_partial_cmp_spec(),
            self.0.partial_cmp_spec(&other.0) is Some,
        ensures
            S2::obeys_partial_cmp_spec() ==> r == (if self.0.partial_cmp_spec(&other.0) == Some(
                Ordering::Equal,
            ) {
                self.1.partial_cmp_spec(&other.1)
            } else {
                self.0.partial_cmp_spec(&other.0)
            }),
    {
        let first = self.0.partial_cmp(&other.0).unwrap();
        match first {
            Ordering::Equal => self.1.partial_cmp(&other.1),
            _ => Some(first),
        }
    }

    /// Total lexicographic comparison of checked keys.
    pub fn cmp(&self, other: &Sortable2DWith<S1, S2, T>) -> (r: Ordering)
        requires
            self.0.sortable_spec(),
            other.0.sortable_spec(),
            self.1.sortable_spec(),
            other.1.sortable_spec(),
            S1::obeys_partial_cmp_spec(),
            S2::obeys_partial_cmp_spec(),
            self.0.partial_cmp_spec(&other.0) is Some,
            self.1.partial_cmp_spec(&other.1) is Some,
        ensures
            Some(r) == (if self.0.partial_cmp_spec(&other.0) == Some(Ordering::Equal) {
                self.1.partial_cmp_spec(&other.1)
            } else {
                self.0.partial_cmp_spec(&other.0)
            }),
    {
        self.partial_cmp(other).unwrap()
    }
}

impl<S1: PartialEqSpec + PartialOrdSpec + SortableCheck, S2: PartialEqSpec + PartialOrdSpec + SortableCheck, T> PartialEq for Sortable2DWith<S1, S2, T> {
    fn eq(&self, other: &Self) -> (r: bool) {
        self.0.eq(&other.0) && self.1.eq(&other.1)
    }
}

impl<S1: PartialEqSpec + PartialOrdSpec + SortableCheck, S2: PartialEqSpec + PartialOrdSpec + SortableCheck, T> PartialEqSpecImpl for Sortable2DWith<S1, S2, T> {
    open spec fn obeys_eq_spec() -> bool {
        S1::obeys_eq_spec() && S2::obeys_eq_spec()
    }

    open spec fn eq_spec(&self, other: &Self) -> bool {
        self.0.eq_spec(&other.0) && self.1.eq_spec(&other.1)
    }
}

/// Three keys compared lexicographically.
#[derive(Debug, Clone, Copy)]
pub struct Sortable3D<
    S1: PartialEq + PartialOrd + SortableCheck,
    S2: PartialEq + PartialOrd + SortableCheck,
    S3: PartialEq + PartialOrd + SortableCheck,
>(pub S1, pub S2, pub S3);

impl<
    S1: PartialEqSpec + PartialOrdSpec + SortableCheck,
    S2: PartialEqSpec + PartialOrdSpec + SortableCheck,
    S3: PartialEqSpec + PartialOrdSpec + SortableCheck,
> Sortable3D<S1, S2, S3> {
    /// All three keys equal.
    pub fn eq(&self, other: &Sortable3D<S1, S2, S3>) -> (r: bool)
        requires
            self.0.sortable_spec(),
            self.1.sortable_spec(),
            self.2.sortable_spec(),
        ensures
            S1::obeys_eq_spec() && S2::obeys_eq_spec() && S3::obeys_eq_spec() ==> r == (
            self.0.eq_spec(&other.0) && self.1.eq_spec(&other.1) && self.2.eq_spec(&other.2)),
    {
        self.0.eq(&other.0) && self.1.eq(&other.1) && self.2.eq(&other.2)
    }

    /// Lexicographic comparison over the three keys in order.
    pub fn partial_cmp(&self, other: &Sortable3D<S1, S2, S3>) -> (r: Option<Ordering>)
        requires
            self.0.sortable_spec(),
            other.0.sortable_spec(),
            self.1.sortable_spec(),
            other.1.sortable_spec(),
            self.2.sortable_spec(),
            other.2.sortable_spec(),
            S1::obeys_partial_cmp_spec(),
            S2::obeys_partial_cmp_spec(),
            self.0.partial_cmp_spec(&other.0) is Some,
            self.1.partial_cmp_spec(&other.1) is Some,
        ensures
            S3::obeys_partial_cmp_spec() ==> r == (if self.0.partial_cmp_spec(&other.0) == Some(
                Ordering::Equal,
            ) {
                if self.1.partial_cmp_spec(&other.1) == Some(Ordering::Equal) {
                    self.2.partial_cmp_spec(&other.2)
                } else {
                    self.1.partial_cmp_spec(&other.1)
                }
            } else {
                self.0.partial_cmp_spec(&other.0)
            }),
    {
        let first = self.0.partial_cmp(&other.0).unwrap();
        match first {
            Ordering::Equal => {
                let second = self.1.partial_cmp(&other.1).unwrap();
                match second {
                    Ordering::Equal => self.2.partial_cmp(&other.2),
                    _ => Some(second),
                }
            },
            _ => Some(first),
        }
    }

    /// Total lexicographic comparison of checked keys.
    pub fn cmp(&self, other: &Sortable3D<S1, S2, S3>) -> (r: Ordering)
        requires
            self.0.sortable_spec(),
            other.0.sortable_spec(),
            self.1.sortable_spec(),
            other.1.sortable_spec(),
            self.2.sortable_spec(),
            other.2.sortable_spec(),
            S1::obeys_partial_cmp_spec(),
            S2::obeys_partial_cmp_spec(),
            S3::obeys_partial_cmp_spec(),
            self.0.partial_cmp_spec(&other.0) is Some,
            self.1.partial_cmp_spec(&other.1) is Some,
            self.2.partial_cmp_spec(&other.2) is Some,
        ensures
            Some(r) == (if self.0.partial_cmp_spec(&other.0) == Some(Ordering::Equal) {
                if self.1.partial_cmp_spec(&other.1) == Some(Ordering::Equal) {
                    self.2.partial_cmp_spec(&other.2)
                } else {
                    self.1.partial_cmp_spec(&other.1)
                }
            } else {
                self.0.partial_cmp_spec(&other.0)
            }),
    {
        self.partial_cmp(other).unwrap()
    }
}

impl<S1: PartialEqSpec + PartialOrdSpec + SortableCheck, S2: PartialEqSpec + PartialOrdSpec + SortableCheck, S3: PartialEqSpec + PartialOrdSpec + SortableCheck> PartialEq for Sortable3D<S1, S2, S3> {
    fn eq(&self, other: &Self) -> (r: bool) {
        self.0.eq(&other.0) && self.1.eq(&other.1) && self.2.eq(&other.2)
    }
}

impl<S1: PartialEqSpec + PartialOrdSpec + SortableCheck, S2: PartialEqSpec + PartialOrdSpec + SortableCheck, S3: PartialEqSpec + PartialOrdSpec + SortableCheck> PartialEqSpecImpl for Sortable3D<S1, S2, S3> {
    open spec fn obeys_eq_spec() -> bool {
        S1::obeys_eq_spec() && S2::obeys_eq_spec() && S3::obeys_eq_spec()
    }

    open spec fn eq_spec(&self, other: &Self) -> bool {
        self.0.eq_spec(&other.0) && self.1.eq_spec(&other.1) && self.2.eq_spec(&other.2)
    }
}

/// Three lexicographic keys carrying payload data.
#[derive(Debug, Clone, Copy)]
pub struct Sortable3DWith<
    S1: PartialEq + PartialOrd + SortableCheck,
    S2: PartialEq + PartialOrd + SortableCheck,
    S3: PartialEq + PartialOrd + SortableCheck,
    T,
>(pub S1, pub S2, pub S3, pub T);

impl<
    S1: PartialEqSpec + PartialOrdSpec + SortableCheck,
    S2: PartialEqSpec + PartialOrdSpec + SortableCheck,
    S3: PartialEqSpec + PartialOrdSpec + SortableCheck,
    T,
> Sortable3DWith<S1, S2, S3, T> {
    /// The payload.
    pub fn data(&self) -> (r: &T)
        ensures
            *r == self.3,
    {
        &self.3
    }

    /// The payload, writable in place.
    pub fn data_mut(&mut self) -> (r: &mut T)
        ensures
            *r == old(self).3,
            final (self).0 == old(self).0,
            final (self).1 == old(self).1,
            final (self).2 == old(self).2,
            final (self).3 == *final (r),
    {
        &mut self.3
    }

    /// All three keys equal; the payload is ignored.
    pub fn eq(&self, other: &Sortable3DWith<S1, S2, S3, T>) -> (r: bool)
        requires
            self.0.sortable_spec(),
            self.1.sortable_spec(),
            self.2.sortable_spec(),
        ensures
            S1::obeys_eq_spec() && S2::obeys_eq_spec() && S3::obeys_eq_spec() ==> r == (
            self.0.eq_spec(&other.0) && self.1.eq_spec(&other.1) && self.2.eq_spec(&other.2)),
    {
        self.0.eq(&other.0) && self.1.eq(&other.1) && self.2.eq(&other.2)
    }

    /// Lexicographic comparison; the payload is ignored.
    pub fn partial_cmp(&self, other: &Sortable3DWith<S1, S2, S3, T>) -> (r: Option<Ordering>)
        requires
            self.0.sortable_spec(),
            other.0.sortable_spec(),
            self.1.sortable_spec(),
            other.1.sortable_spec(),
            self.2.sortable_spec(),
            other.2.sortable_spec(),
            S1::obeys_partial_cmp_spec(),
            S2::obeys_partial_cmp_spec(),
            self.0.partial_cmp_spec(&other.0) is Some,
            self.1.partial_cmp_spec(&other.1) is Some,
        ensures
            S3::obeys_partial_cmp_spec() ==> r == (if self.0.partial_cmp_spec(&other.0) == Some(
                Ordering::Equal,
            ) {
                if self.1.partial_cmp_spec(&other.1) == Some(Ordering::Equal) {
                    self.2.partial_cmp_spec(&other.2)
                } else {
                    self.1.partial_cmp_spec(&other.1)
                }
            } else {
                self.0.partial_cmp_spec(&other.0)
            }),
    {
        let first = self.0.partial_cmp(&other.0).unwrap();
        match first {
            Ordering::Equal => {
                let second = self.1.partial_cmp(&other.1).unwrap();
                match second {
                    Ordering::Equal => self.2.partial_cmp(&other.2),
                    _ => Some(second),
                }
            },
            _ => Some(first),
        }
    }

    /// Total lexicographic comparison of checked keys.
    pub fn cmp(&self, other: &Sortable3DWith<S1, S2, S3, T>) -> (r: Ordering)
        requires
            self.0.sortable_spec(),
            other.0.sortable_spec(),
            self.1.sortable_spec(),
            other.1.sortable_spec(),
            self.2.sortable_spec(),
            other.2.sortable_spec(),
            S1::obeys_partial_cmp_spec(),
            S2::obeys_partial_cmp_spec(),
            S3::obeys_partial_cmp_spec(),
            self.0.partial_cmp_spec(&other.0) is Some,
            self.1.partial_cmp_spec(&other.1) is Some,
            self.2.partial_cmp_spec(&other.2) is Some,
        ensures
            Some(r) == (if self.0.partial_cmp_spec(&other.0) == Some(Ordering::Equal) {
                if self.1.partial_cmp_spec(&other.1) == Some(Ordering::Equal) {
                    self.2.partial_cmp_spec(&other.2)
                } else {
                    self.1.partial_cmp_spec(&other.1)
                }
            } else {
                self.0.partial_cmp_spec(&other.0)
            }),
    {
        self.partial_cmp(other).unwrap()
    }
}

impl<S1: PartialEqSpec + PartialOrdSpec + SortableCheck, S2: PartialEqSpec + PartialOrdSpec + SortableCheck, S3: PartialEqSpec + PartialOrdSpec + SortableCheck, T> PartialEq for Sortable3DWith<S1, S2, S3, T> {
    fn eq(&self, other: &Self) -> (r: bool) {
        self.0.eq(&other.0) && self.1.eq(&other.1) && self.2.eq(&other.2)
    }
}

impl<S1: PartialEqSpec + PartialOrdSpec + SortableCheck, S2: PartialEqSpec + PartialOrdSpec + SortableCheck, S3: PartialEqSpec + PartialOrdSpec + SortableCheck, T> PartialEqSpecImpl for Sortable3DWith<S1, S2, S3, T> {
    open spec fn obeys_eq_spec() -> bool {
        S1::obeys_eq_spec() && S2::obeys_eq_spec() && S3::obeys_eq_spec()
    }

    open spec fn eq_spec(&self, other: &Self) -> bool {
        self.0.eq_spec(&other.0) && self.1.eq_spec(&other.1) && self.2.eq_spec(&other.2)
    }
}

} // verus!
