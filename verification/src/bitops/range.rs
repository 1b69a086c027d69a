//! Ranges of bit positions: the standard range types and pairs of bounds
//! as ranges of positions, and the positions that a range selects.

use vstd::prelude::*;
use core::ops::{Bound, Range, RangeInclusive, RangeFrom, RangeTo, RangeToInclusive, RangeFull};
use vstd::std_specs::cmp::{PartialOrdSpec, PartialOrdIs};
use crate::bitops::model::clamp;

verus! {

/// Makes `core::ops::Bound` known, with its three variants, as the
/// standard library defines it.
#[verifier::external_type_specification]
#[verifier::reject_recursive_types(T)]
pub struct ExBound<T>(Bound<T>);

/// Makes `core::ops::RangeFrom` known, with its public field `start`, as
/// the standard library defines it.
#[verifier::external_type_specification]
#[verifier::reject_recursive_types(Idx)]
pub struct ExRangeFrom<Idx>(RangeFrom<Idx>);

/// Makes `core::ops::RangeTo` known, with its public field `end`, as the
/// standard library defines it.
#[verifier::external_type_specification]
#[verifier::reject_recursive_types(Idx)]
pub struct ExRangeTo<Idx>(RangeTo<Idx>);

/// Makes `core::ops::RangeToInclusive` known, with its public field `end`,
/// as the standard library defines it.
#[verifier::external_type_specification]
#[verifier::reject_recursive_types(Idx)]
pub struct ExRangeToInclusive<Idx>(RangeToInclusive<Idx>);

/// Makes `core::ops::RangeFull`, which has no field, known.
#[verifier::external_type_specification]
pub struct ExRangeFull(RangeFull);

/// `RangeInclusive::start` returns the lower bound of the range; its
/// documentation leaves the value unspecified once iteration has finished,
/// and so does this contract.
pub assume_specification<Idx>[ RangeInclusive::<Idx>::start ](r: &RangeInclusive<Idx>) -> (s: &Idx)
    ensures
        !r@.exhausted ==> *s == r@.start,
;

/// `RangeInclusive::end` returns the (inclusive) upper bound of the range;
/// its documentation leaves the value unspecified once iteration has
/// finished, and so does this contract.
pub assume_specification<Idx>[ RangeInclusive::<Idx>::end ](r: &RangeInclusive<Idx>) -> (e: &Idx)
    ensures
        !r@.exhausted ==> *e == r@.end,
;

/// `RangeInclusive::is_empty` tells whether the range holds no value: its
/// documentation says so of a range whose start is not below or equal to
/// its end, and of one whose iteration has finished.
pub assume_specification<Idx: PartialOrd<Idx>>[ RangeInclusive::<Idx>::is_empty ](
    r: &RangeInclusive<Idx>,
) -> (b: bool) where Idx: PartialOrd
    ensures
        Idx::obeys_partial_cmp_spec() ==> b == (r@.exhausted || !r@.start.is_le(&r@.end)),
;

/// The first position that a start bound selects.
pub open spec fn start_position(b: Bound<u32>) -> nat {
    match b {
        Bound::Included(s) => s as nat,
        Bound::Excluded(s) => s as nat + 1,
        Bound::Unbounded => 0,
    }
}

/// The position just past the last one that an end bound selects, in a
/// number of `width` bits.
pub open spec fn end_position(b: Bound<u32>, width: nat) -> nat {
    match b {
        Bound::Included(e) => e as nat + 1,
        Bound::Excluded(e) => e as nat,
        Bound::Unbounded => width,
    }
}

/// Whether computing the positions of the bounds stays within `u32`: an
/// excluded start or an included end at `u32::MAX` would overflow.
pub open spec fn bounds_fit(start: Bound<u32>, end: Bound<u32>) -> bool {
    &&& start != Bound::<u32>::Excluded(u32::MAX)
    &&& end != Bound::<u32>::Included(u32::MAX)
}

/// Whether a pair of bounds selects no position at all, whatever the width.
pub open spec fn selects_nothing(start: Bound<u32>, end: Bound<u32>) -> bool {
    &&& !(end is Unbounded)
    &&& end_position(end, 0) <= start_position(start)
}

/// The bound on a position given by a bound on a reference to it.
pub open spec fn bound_of_ref(b: Bound<&u32>) -> Bound<u32> {
    match b {
        Bound::Included(p) => Bound::Included(*p),
        Bound::Excluded(p) => Bound::Excluded(*p),
        Bound::Unbounded => Bound::Unbounded,
    }
}

/// A range of bit positions, given by its two ends.
pub trait BitRange {
    /// Whether the ends of the range are known. They are, but for an
    /// inclusive range whose iteration has finished: such a range is empty,
    /// and its ends are left unspecified.
    spec fn bounds_known(&self) -> bool;

    /// The start of the range.
    spec fn start_of(&self) -> Bound<u32>;

    /// The end of the range.
    spec fn end_of(&self) -> Bound<u32>;

    /// Returns the start and the end of the range.
    fn bounds(&self) -> (r: (Bound<u32>, Bound<u32>))
        ensures
            self.bounds_known() ==> r == (self.start_of(), self.end_of()),
            !self.bounds_known() ==> selects_nothing(r.0, r.1) && bounds_fit(r.0, r.1),
    ;
}

impl BitRange for Range<u32> {
    open spec fn bounds_known(&self) -> bool {
        true
    }

    open spec fn start_of(&self) -> Bound<u32> {
        Bound::Included(self.start)
    }

    open spec fn end_of(&self) -> Bound<u32> {
        Bound::Excluded(self.end)
    }

    fn bounds(&self) -> (r: (Bound<u32>, Bound<u32>)) {
        (Bound::Included(self.start), Bound::Excluded(self.end))
    }
}

impl BitRange for RangeInclusive<u32> {
    open spec fn bounds_known(&self) -> bool {
        !self@.exhausted
    }

    open spec fn start_of(&self) -> Bound<u32> {
        Bound::Included(self@.start)
    }

    open spec fn end_of(&self) -> Bound<u32> {
        Bound::Included(self@.end)
    }

    fn bounds(&self) -> (r: (Bound<u32>, Bound<u32>)) {
        let start = *self.start();
        let end = *self.end();
        if self.is_empty() && start <= end {
            // Only an inclusive range whose iteration has finished is empty
            // with its start at or below its end.
            (Bound::Included(start), Bound::Excluded(start))
        } else {
            (Bound::Included(start), Bound::Included(end))
        }
    }
}

impl BitRange for RangeFrom<u32> {
    open spec fn bounds_known(&self) -> bool {
        true
    }

    open spec fn start_of(&self) -> Bound<u32> {
        Bound::Included(self.start)
    }

    open spec fn end_of(&self) -> Bound<u32> {
        Bound::Unbounded
    }

    fn bounds(&self) -> (r: (Bound<u32>, Bound<u32>)) {
        (Bound::Included(self.start), Bound::Unbounded)
    }
}

impl BitRange for RangeTo<u32> {
    open spec fn bounds_known(&self) -> bool {
        true
    }

    open spec fn start_of(&self) -> Bound<u32> {
        Bound::Unbounded
    }

    open spec fn end_of(&self) -> Bound<u32> {
        Bound::Excluded(self.end)
    }

    fn bounds(&self) -> (r: (Bound<u32>, Bound<u32>)) {
        (Bound::Unbounded, Bound::Excluded(self.end))
    }
}

impl BitRange for RangeToInclusive<u32> {
    open spec fn bounds_known(&self) -> bool {
        true
    }

    open spec fn start_of(&self) -> Bound<u32> {
        Bound::Unbounded
    }

    open spec fn end_of(&self) -> Bound<u32> {
        Bound::Included(self.end)
    }

    fn bounds(&self) -> (r: (Bound<u32>, Bound<u32>)) {
        (Bound::Unbounded, Bound::Included(self.end))
    }
}

impl BitRange for RangeFull {
    open spec fn bounds_known(&self) -> bool {
        true
    }

    open spec fn start_of(&self) -> Bound<u32> {
        Bound::Unbounded
    }

    open spec fn end_of(&self) -> Bound<u32> {
        Bound::Unbounded
    }

    fn bounds(&self) -> (r: (Bound<u32>, Bound<u32>)) {
        (Bound::Unbounded, Bound::Unbounded)
    }
}

impl BitRange for (Bound<u32>, Bound<u32>) {
    open spec fn bounds_known(&self) -> bool {
        true
    }

    open spec fn start_of(&self) -> Bound<u32> {
        self.0
    }

    open spec fn end_of(&self) -> Bound<u32> {
        self.1
    }

    fn bounds(&self) -> (r: (Bound<u32>, Bound<u32>))
        ensures
            r == *self,
    {
        (copy_bound(&self.0), copy_bound(&self.1))
    }
}

impl<'a> BitRange for (Bound<&'a u32>, Bound<&'a u32>) {
    open spec fn bounds_known(&self) -> bool {
        true
    }

    open spec fn start_of(&self) -> Bound<u32> {
        bound_of_ref(self.0)
    }

    open spec fn end_of(&self) -> Bound<u32> {
        bound_of_ref(self.1)
    }

    fn bounds(&self) -> (r: (Bound<u32>, Bound<u32>)) {
        (deref_bound(&self.0), deref_bound(&self.1))
    }
}

impl<'a> BitRange for Range<&'a u32> {
    open spec fn bounds_known(&self) -> bool {
        true
    }

    open spec fn start_of(&self) -> Bound<u32> {
        Bound::Included(*self.start)
    }

    open spec fn end_of(&self) -> Bound<u32> {
        Bound::Excluded(*self.end)
    }

    fn bounds(&self) -> (r: (Bound<u32>, Bound<u32>)) {
        (Bound::Included(*self.start), Bound::Excluded(*self.end))
    }
}

impl<'a> BitRange for RangeInclusive<&'a u32> {
    open spec fn bounds_known(&self) -> bool {
        !self@.exhausted
    }

    open spec fn start_of(&self) -> Bound<u32> {
        Bound::Included(*self@.start)
    }

    open spec fn end_of(&self) -> Bound<u32> {
        Bound::Included(*self@.end)
    }

    fn bounds(&self) -> (r: (Bound<u32>, Bound<u32>)) {
        let start: u32 = **self.start();
        let end: u32 = **self.end();
        if self.is_empty() && start <= end {
            // Only an inclusive range whose iteration has finished is empty
            // with its start at or below its end.
            (Bound::Included(start), Bound::Excluded(start))
        } else {
            (Bound::Included(start), Bound::Included(end))
        }
    }
}

impl<'a> BitRange for RangeFrom<&'a u32> {
    open spec fn bounds_known(&self) -> bool {
        true
    }

    open spec fn start_of(&self) -> Bound<u32> {
        Bound::Included(*self.start)
    }

    open spec fn end_of(&self) -> Bound<u32> {
        Bound::Unbounded
    }

    fn bounds(&self) -> (r: (Bound<u32>, Bound<u32>)) {
        (Bound::Included(*self.start), Bound::Unbounded)
    }
}

impl<'a> BitRange for RangeTo<&'a u32> {
    open spec fn bounds_known(&self) -> bool {
        true
    }

    open spec fn start_of(&self) -> Bound<u32> {
        Bound::Unbounded
    }

    open spec fn end_of(&self) -> Bound<u32> {
        Bound::Excluded(*self.end)
    }

    fn bounds(&self) -> (r: (Bound<u32>, Bound<u32>)) {
        (Bound::Unbounded, Bound::Excluded(*self.end))
    }
}

impl<'a> BitRange for RangeToInclusive<&'a u32> {
    open spec fn bounds_known(&self) -> bool {
        true
    }

    open spec fn start_of(&self) -> Bound<u32> {
        Bound::Unbounded
    }

    open spec fn end_of(&self) -> Bound<u32> {
        Bound::Included(*self.end)
    }

    fn bounds(&self) -> (r: (Bound<u32>, Bound<u32>)) {
        (Bound::Unbounded, Bound::Included(*self.end))
    }
}

/// Returns a copy of a bound on a position.
fn copy_bound(b: &Bound<u32>) -> (r: Bound<u32>)
    ensures
        r == *b,
{
    match b {
        Bound::Included(p) => Bound::Included(*p),
        Bound::Excluded(p) => Bound::Excluded(*p),
        Bound::Unbounded => Bound::Unbounded,
    }
}

/// Returns the bound on a position given by a bound on a reference to it.
fn deref_bound(b: &Bound<&u32>) -> (r: Bound<u32>)
    ensures
        r == bound_of_ref(*b),
{
    match b {
        Bound::Included(p) => Bound::Included(**p),
        Bound::Excluded(p) => Bound::Excluded(**p),
        Bound::Unbounded => Bound::Unbounded,
    }
}

/// Turns the bounds of a range into the start and end positions that it
/// selects in a number of `width` bits, both cut at `width`. A range whose
/// ends are unspecified selects no position.
pub fn parse_bounds<R: BitRange>(bounds: R, width: u32) -> (r: (u32, u32))
    requires
        bounds.bounds_known() ==> bounds_fit(bounds.start_of(), bounds.end_of()),
    ensures
        bounds.bounds_known() ==> r.0 == clamp(start_position(bounds.start_of()), width as nat),
        bounds.bounds_known() ==> r.1 == clamp(
            end_position(bounds.end_of(), width as nat),
            width as nat,
        ),
        !bounds.bounds_known() ==> r.1 <= r.0,
{
    let (start_bound, end_bound) = bounds.bounds();
    let start = match start_bound {
        Bound::Included(start) => start,
        Bound::Excluded(start) => start + 1,
        Bound::Unbounded => 0,
    };
    let start = if start < width {
        start
    } else {
        width
    };

    let end = match end_bound {
        Bound::Included(end) => end + 1,
        Bound::Excluded(end) => end,
        Bound::Unbounded => width,
    };
    let end = if end < width {
        end
    } else {
        width
    };

    (start, end)
}

/// An included end selects the same positions as an excluded end one
/// further, an included start the same as an excluded start one before, and
/// open ends the same as the first position and the width.
pub proof fn law_bound_forms(p: u32, width: nat)
    ensures
        p < u32::MAX ==> end_position(Bound::<u32>::Included(p), width) == end_position(
            Bound::<u32>::Excluded((p + 1) as u32),
            width,
        ),
        p > 0 ==> start_position(Bound::<u32>::Included(p)) == start_position(
            Bound::<u32>::Excluded((p - 1) as u32),
        ),
        start_position(Bound::<u32>::Unbounded) == start_position(Bound::<u32>::Included(0)),
        end_position(Bound::<u32>::Unbounded, width) == width,
{
}

/// The positions that each form of bound selects, as plain numbers: a
/// start at `p` is `p` when included and `p + 1` when excluded, an end at
/// `p` is `p + 1` when included and `p` when excluded, an open start is 0 and
/// an open end is the width.
pub proof fn law_bound_positions(p: u32, width: nat)
    ensures
        start_position(Bound::<u32>::Included(p)) == p,
        start_position(Bound::<u32>::Excluded(p)) == p + 1,
        start_position(Bound::<u32>::Unbounded) == 0,
        end_position(Bound::<u32>::Included(p), width) == p + 1,
        end_position(Bound::<u32>::Excluded(p), width) == p,
        end_position(Bound::<u32>::Unbounded, width) == width,
{
}

/// A pair of bounds is the range that its two components say, as given:
/// the first is its start and the second its end.
pub proof fn law_pair_bounds(start: Bound<u32>, end: Bound<u32>)
    ensures
        (start, end).bounds_known(),
        (start, end).start_of() == start,
        (start, end).end_of() == end,
{
}

/// Taking the reference off a bound keeps its form and its position: an
/// included or excluded bound at `&p` is one at `p`, and an open bound stays
/// open.
pub proof fn law_bound_of_ref(p: u32)
    ensures
        bound_of_ref(Bound::Included(&p)) == Bound::<u32>::Included(p),
        bound_of_ref(Bound::Excluded(&p)) == Bound::<u32>::Excluded(p),
        bound_of_ref(Bound::<&u32>::Unbounded) == Bound::<u32>::Unbounded,
{
}

/// A pair of bounds over references is the range its components say, with
/// the references taken off.
pub proof fn law_ref_pair_bounds(a: u32, b: u32)
    ensures
        (Bound::Included(&a), Bound::Excluded(&b)).bounds_known(),
        (Bound::Included(&a), Bound::Excluded(&b)).start_of() == Bound::<u32>::Included(a),
        (Bound::Included(&a), Bound::Excluded(&b)).end_of() == Bound::<u32>::Excluded(b),
        (Bound::Excluded(&a), Bound::Included(&b)).start_of() == Bound::<u32>::Excluded(a),
        (Bound::Excluded(&a), Bound::Included(&b)).end_of() == Bound::<u32>::Included(b),
        (Bound::Included(&a), Bound::<&u32>::Unbounded).end_of() == Bound::<u32>::Unbounded,
        (Bound::<&u32>::Unbounded, Bound::Excluded(&b)).start_of() == Bound::<u32>::Unbounded,
{
}

/// The standard ranges are the ranges their syntax says: `a..b` from `a`
/// included to `b` excluded, `a..=b` (not iterated to its end) to `b`
/// included, `a..` and `..b`, `..=b` and `..` open on the sides they leave
/// out; the same over references.
pub proof fn law_std_range_bounds(
    a: u32,
    b: u32,
    r: RangeInclusive<u32>,
    q: RangeInclusive<&u32>,
    f: RangeFull,
)
    ensures
        (Range { start: a, end: b }).bounds_known(),
        (Range { start: a, end: b }).start_of() == Bound::<u32>::Included(a),
        (Range { start: a, end: b }).end_of() == Bound::<u32>::Excluded(b),
        !r@.exhausted ==> r.bounds_known(),
        r.start_of() == Bound::<u32>::Included(r@.start),
        r.end_of() == Bound::<u32>::Included(r@.end),
        (RangeFrom { start: a }).bounds_known(),
        (RangeFrom { start: a }).start_of() == Bound::<u32>::Included(a),
        (RangeFrom { start: a }).end_of() == Bound::<u32>::Unbounded,
        (RangeTo { end: b }).bounds_known(),
        (RangeTo { end: b }).start_of() == Bound::<u32>::Unbounded,
        (RangeTo { end: b }).end_of() == Bound::<u32>::Excluded(b),
        (RangeToInclusive { end: b }).bounds_known(),
        (RangeToInclusive { end: b }).start_of() == Bound::<u32>::Unbounded,
        (RangeToInclusive { end: b }).end_of() == Bound::<u32>::Included(b),
        f.bounds_known(),
        f.start_of() == Bound::<u32>::Unbounded,
        f.end_of() == Bound::<u32>::Unbounded,
        (Range { start: &a, end: &b }).start_of() == Bound::<u32>::Included(a),
        (Range { start: &a, end: &b }).end_of() == Bound::<u32>::Excluded(b),
        (RangeFrom { start: &a }).start_of() == Bound::<u32>::Included(a),
        (RangeFrom { start: &a }).end_of() == Bound::<u32>::Unbounded,
        (RangeTo { end: &b }).start_of() == Bound::<u32>::Unbounded,
        (RangeTo { end: &b }).end_of() == Bound::<u32>::Excluded(b),
        (RangeToInclusive { end: &b }).start_of() == Bound::<u32>::Unbounded,
        (RangeToInclusive { end: &b }).end_of() == Bound::<u32>::Included(b),
        !q@.exhausted ==> q.bounds_known(),
        q.start_of() == Bound::<u32>::Included(*q@.start),
        q.end_of() == Bound::<u32>::Included(*q@.end),
{
}

/// `parse_bounds` over a pair of bounds gives, as plain numbers cut at the
/// width, the first position that the start includes and the position just
/// past the last one that the end includes.
pub proof fn law_parse_pair(s: u32, e: u32, width: u32)
    ensures
        clamp(start_position((Bound::Included(s), Bound::<u32>::Excluded(e)).start_of()), width as nat)
            == if s < width { s } else { width },
        clamp(end_position((Bound::<u32>::Included(s), Bound::Excluded(e)).end_of(), width as nat), width as nat)
            == if e < width { e } else { width },
        clamp(end_position((Bound::<u32>::Included(s), Bound::Included(e)).end_of(), width as nat), width as nat)
            == if e + 1 < width { e + 1 } else { width as int },
        clamp(start_position((Bound::Excluded(s), Bound::<u32>::Unbounded).start_of()), width as nat)
            == if s + 1 < width { s + 1 } else { width as int },
        clamp(end_position((Bound::Excluded(s), Bound::<u32>::Unbounded).end_of(), width as nat), width as nat)
            == width,
{
}

} // verus!
