//! Half-open one-dimensional interval arithmetic.

use vstd::prelude::*;

verus! {

/// A half-open span of indexes `[min, min + count)`.
///
/// A span is well formed when `min + count` does not overflow; every
/// operation that reads the upper bound asks for that.
#[derive(Clone, Copy, Debug, PartialEq, Eq, Structural)]
pub struct MemSpan {
    pub min: usize,
    pub count: usize,
}

impl MemSpan {
    /// `min + count` stays within the addressing width.
    pub open spec fn wf(self) -> bool {
        self.min + self.count <= usize::MAX
    }

    /// The exclusive upper bound, as a mathematical integer.
    pub open spec fn spec_upper(self) -> int {
        self.min + self.count
    }

    /// The last index covered; meaningful only when `count > 0`.
    pub open spec fn spec_max(self) -> int {
        self.min + self.count - 1
    }

    /// The overlapping half-open interval of two spans: `None` when either
    /// span is empty or the spans are separated by at least one index;
    /// a present (possibly empty) span when they overlap or merely touch.
    pub open spec fn spec_intersect(a: MemSpan, b: MemSpan) -> Option<MemSpan> {
        if a.count == 0 || b.count == 0 {
            None
        } else {
            let lo = if a.min >= b.min {
                a.min as int
            } else {
                b.min as int
            };
            let hi = if a.spec_max() <= b.spec_max() {
                a.spec_max()
            } else {
                b.spec_max()
            };
            if lo > hi + 1 {
                None
            } else {
                Some(MemSpan { min: lo as usize, count: (hi + 1 - lo) as usize })
            }
        }
    }

    /// Whether two spans share at least one index: the intersection is
    /// present with positive length. Touching at a boundary is no overlap.
    pub open spec fn spec_overlaps(a: MemSpan, b: MemSpan) -> bool {
        match Self::spec_intersect(a, b) {
            Some(s) => s.count > 0,
            None => false,
        }
    }

    /// What a checked shift of the whole span returns: `None` exactly when
    /// the moved span would leave the addressing width.
    pub open spec fn spec_shift_checked(self, shift: int) -> Option<MemSpan> {
        if shift < 0 {
            if self.min + shift >= 0 {
                Some(MemSpan { min: (self.min + shift) as usize, count: self.count })
            } else {
                None
            }
        } else if shift > 0 {
            if self.min + shift + self.count <= usize::MAX {
                Some(MemSpan { min: (self.min + shift) as usize, count: self.count })
            } else {
                None
            }
        } else {
            Some(self)
        }
    }

    /// What a checked shift of the upper bound alone returns.
    pub open spec fn spec_shift_max_checked(self, shift: int) -> Option<MemSpan> {
        if shift < 0 {
            if self.count + shift >= 0 {
                Some(MemSpan { min: self.min, count: (self.count + shift) as usize })
            } else {
                None
            }
        } else if shift > 0 {
            if self.min + self.count + shift <= usize::MAX && self.count + shift <= usize::MAX {
                Some(MemSpan { min: self.min, count: (self.count + shift) as usize })
            } else {
                None
            }
        } else {
            Some(self)
        }
    }

    /// What a checked shift of the lower bound alone returns.
    pub open spec fn spec_shift_min_checked(self, shift: int) -> Option<MemSpan> {
        if shift < 0 {
            if self.min + shift >= 0 && self.count - shift <= usize::MAX {
                Some(
                    MemSpan {
                        min: (self.min + shift) as usize,
                        count: (self.count - shift) as usize,
                    },
                )
            } else {
                None
            }
        } else if shift > 0 {
            if self.min + shift <= usize::MAX && self.count - shift >= 0 {
                Some(
                    MemSpan {
                        min: (self.min + shift) as usize,
                        count: (self.count - shift) as usize,
                    },
                )
            } else {
                None
            }
        } else {
            Some(self)
        }
    }

    pub fn lower_bound(&self) -> (r: usize)
        ensures
            r == self.min,
    {
        self.min
    }

    pub fn upper_bound(&self) -> (r: usize)
        requires
            self.wf(),
        ensures
            r == self.spec_upper(),
    {
        self.min + self.count
    }

    /// The greatest index covered by the span, or `None` when it is empty.
    pub fn max(&self) -> (r: Option<usize>)
        requires
            self.wf(),
        ensures
            match r {
                Some(m) => self.count > 0 && m == self.spec_max(),
                None => self.count == 0,
            },
    {
        if self.count == 0 {
            return None;
        }
        Some(self.min + self.count - 1)
    }

    pub fn max_value(&self) -> (r: Option<usize>)
        requires
            self.wf(),
        ensures
            match r {
                Some(m) => self.count > 0 && m == self.spec_max(),
                None => self.count == 0,
            },
    {
        self.max()
    }

    pub fn len(&self) -> (r: usize)
        ensures
            r == self.count,
    {
        self.count
    }

    /// The span covering `min ..= max`; `None` when `min > max + 1`
    /// (an empty span at `min == max + 1` is still present).
    pub fn min_max(min: usize, max: usize) -> (r: Option<Self>)
        requires
            max < usize::MAX,
        ensures
            match r {
                Some(s) => min <= max + 1 && s.min == min && s.count == max + 1 - min && s.wf(),
                None => min > max + 1,
            },
    {
        MemSpan::lower_bound_upper_bound(min, max + 1)
    }

    /// The span covering `lower .. upper`; `None` when `lower > upper`.
    pub fn lower_bound_upper_bound(lower: usize, upper: usize) -> (r: Option<Self>)
        ensures
            match r {
                Some(s) => lower <= upper && s.min == lower && s.count == upper - lower
                    && s.wf(),
                None => lower > upper,
            },
    {
        if lower > upper {
            return None;
        }
        Some(MemSpan { min: lower, count: upper - lower })
    }

    /// The span covering a `start .. end` range; an inverted range gives an
    /// empty span at `start`.
    pub fn new_range(range: core::ops::Range<usize>) -> (r: Self)
        ensures
            r.min == range.start,
            r.count == if range.end >= range.start {
                range.end - range.start
            } else {
                0
            },
            r.wf(),
    {
        let count: usize = if range.end >= range.start {
            range.end - range.start
        } else {
            0
        };
        MemSpan { min: range.start, count }
    }

    // Shifts of the whole span: both bounds move together.
    pub fn shift_up_wrapping(&self, shift: usize) -> (r: Self)
        ensures
            r.count == self.count,
            r.min == if self.min + shift <= usize::MAX {
                self.min + shift
            } else {
                self.min + shift - usize::MAX - 1
            },
    {
        MemSpan { min: self.min.wrapping_add(shift), count: self.count }
    }

    pub fn shift_down_wrapping(&self, shift: usize) -> (r: Self)
        ensures
            r.count == self.count,
            r.min == if self.min >= shift {
                self.min - shift
            } else {
                self.min - shift + usize::MAX + 1
            },
    {
        MemSpan { min: self.min.wrapping_sub(shift), count: self.count }
    }

    pub fn shift_wrapping(&self, shift: isize) -> (r: Self)
        requires
            shift > isize::MIN,
        ensures
            r.count == self.count,
            shift >= 0 ==> r.min == if self.min + shift <= usize::MAX {
                self.min + shift
            } else {
                self.min + shift - usize::MAX - 1
            },
            shift < 0 ==> r.min == if self.min + shift >= 0 {
                self.min + shift
            } else {
                self.min + shift + usize::MAX + 1
            },
    {
        if shift < 0 {
            self.shift_down_wrapping((-shift) as usize)
        } else if shift > 0 {
            self.shift_up_wrapping(shift as usize)
        } else {
            *self
        }
    }

    pub fn shift_up_checked(&self, shift: usize) -> (r: Option<Self>)
        ensures
            match r {
                Some(s) => {
                    &&& self.min + shift + self.count <= usize::MAX
                    &&& s.min == self.min + shift
                    &&& s.count == self.count
                },
                None => self.min + shift + self.count > usize::MAX,
            },
    {
        let min = match self.min.checked_add(shift) {
            Some(v) => v,
            None => {
                return None;
            },
        };
        if min.checked_add(self.count).is_none() {
            return None;
        }
        Some(MemSpan { min, count: self.count })
    }

    pub fn shift_down_checked(&self, shift: usize) -> (r: Option<Self>)
        ensures
            match r {
                Some(s) => {
                    &&& shift <= self.min
                    &&& s.min == self.min - shift
                    &&& s.count == self.count
                },
                None => shift > self.min,
            },
    {
        let min = match self.min.checked_sub(shift) {
            Some(v) => v,
            None => {
                return None;
            },
        };
        Some(MemSpan { min, count: self.count })
    }

    pub fn shift_checked(&self, shift: isize) -> (r: Option<Self>)
        requires
            shift > isize::MIN,
        ensures
            r == self.spec_shift_checked(shift as int),
    {
        if shift < 0 {
            self.shift_down_checked((-shift) as usize)
        } else if shift > 0 {
            self.shift_up_checked(shift as usize)
        } else {
            Some(*self)
        }
    }

    // Shifts of the upper bound alone: the span grows or shrinks from the top.
    pub fn shift_max_up_wrapping(&self, shift: usize) -> (r: Self)
        ensures
            r.min == self.min,
            r.count == if self.count + shift <= usize::MAX {
                self.count + shift
            } else {
                self.count + shift - usize::MAX - 1
            },
    {
        MemSpan { min: self.min, count: self.count.wrapping_add(shift) }
    }

    pub fn shift_max_down_wrapping(&self, shift: usize) -> (r: Self)
        ensures
            r.min == self.min,
            r.count == if self.count >= shift {
                self.count - shift
            } else {
                self.count - shift + usize::MAX + 1
            },
    {
        MemSpan { min: self.min, count: self.count.wrapping_sub(shift) }
    }

    pub fn shift_max_wrapping(&self, shift: isize) -> (r: Self)
        requires
            shift > isize::MIN,
        ensures
            r.min == self.min,
            shift >= 0 ==> r.count == if self.count + shift <= usize::MAX {
                self.count + shift
            } else {
                self.count + shift - usize::MAX - 1
            },
            shift < 0 ==> r.count == if self.count + shift >= 0 {
                self.count + shift
            } else {
                self.count + shift + usize::MAX + 1
            },
    {
        if shift < 0 {
            self.shift_max_down_wrapping((-shift) as usize)
        } else if shift > 0 {
            self.shift_max_up_wrapping(shift as usize)
        } else {
            *self
        }
    }

    pub fn shift_max_up_checked(&self, shift: usize) -> (r: Option<Self>)
        ensures
            match r {
                Some(s) => {
                    &&& self.min + self.count + shift <= usize::MAX
                    &&& s.min == self.min
                    &&& s.count == self.count + shift
                },
                None => self.min + self.count + shift > usize::MAX,
            },
    {
        let count = match self.count.checked_add(shift) {
            Some(v) => v,
            None => {
                return None;
            },
        };
        if self.min.checked_add(count).is_none() {
            return None;
        }
        Some(MemSpan { min: self.min, count })
    }

    pub fn shift_max_down_checked(&self, shift: usize) -> (r: Option<Self>)
        ensures
            match r {
                Some(s) => {
                    &&& shift <= self.count
                    &&& s.min == self.min
                    &&& s.count == self.count - shift
                },
                None => shift > self.count,
            },
    {
        let count = match self.count.checked_sub(shift) {
            Some(v) => v,
            None => {
                return None;
            },
        };
        Some(MemSpan { min: self.min, count })
    }

    pub fn shift_max_checked(&self, shift: isize) -> (r: Option<Self>)
        requires
            shift > isize::MIN,
        ensures
            r == self.spec_shift_max_checked(shift as int),
    {
        if shift < 0 {
            self.shift_max_down_checked((-shift) as usize)
        } else if shift > 0 {
            self.shift_max_up_checked(shift as usize)
        } else {
            Some(*self)
        }
    }

    // Shifts of the lower bound alone: the span grows or shrinks from the
    // bottom while the upper bound stays put.
    pub fn shift_min_up_wrapping(&self, shift: usize) -> (r: Self)
        ensures
            r.min == if self.min + shift <= usize::MAX {
                self.min + shift
            } else {
                self.min + shift - usize::MAX - 1
            },
            r.count == if self.count >= shift {
                self.count - shift
            } else {
                self.count - shift + usize::MAX + 1
            },
    {
        MemSpan { min: self.min.wrapping_add(shift), count: self.count.wrapping_sub(shift) }
    }

    pub fn shift_min_down_wrapping(&self, shift: usize) -> (r: Self)
        ensures
            r.count == self.count,
            r.min == if self.min >= shift {
                self.min - shift
            } else {
                self.min - shift + usize::MAX + 1
            },
    {
        MemSpan { min: self.min.wrapping_sub(shift), count: self.count }
    }

    pub fn shift_min_wrapping(&self, shift: isize) -> (r: Self)
        requires
            shift > isize::MIN,
        ensures
            shift >= 0 ==> r.min == if self.min + shift <= usize::MAX {
                self.min + shift
            } else {
                self.min + shift - usize::MAX - 1
            },
            shift >= 0 ==> r.count == if self.count >= shift {
                self.count - shift
            } else {
                self.count - shift + usize::MAX + 1
            },
            shift < 0 ==> r.count == self.count,
            shift < 0 ==> r.min == if self.min + shift >= 0 {
                self.min + shift
            } else {
                self.min + shift + usize::MAX + 1
            },
    {
        if shift < 0 {
            self.shift_min_down_wrapping((-shift) as usize)
        } else if shift > 0 {
            self.shift_min_up_wrapping(shift as usize)
        } else {
            *self
        }
    }

    pub fn shift_min_up_checked(&self, shift: usize) -> (r: Option<Self>)
        ensures
            match r {
                Some(s) => {
                    &&& self.min + shift <= usize::MAX
                    &&& shift <= self.count
                    &&& s.min == self.min + shift
                    &&& s.count == self.count - shift
                },
                None => self.min + shift > usize::MAX || shift > self.count,
            },
    {
        let min = match self.min.checked_add(shift) {
            Some(v) => v,
            None => {
                return None;
            },
        };
        let count = match self.count.checked_sub(shift) {
            Some(v) => v,
            None => {
                return None;
            },
        };
        Some(MemSpan { min, count })
    }

    pub fn shift_min_down_checked(&self, shift: usize) -> (r: Option<Self>)
        ensures
            match r {
                Some(s) => {
                    &&& shift <= self.min
                    &&& self.count + shift <= usize::MAX
                    &&& s.min == self.min - shift
                    &&& s.count == self.count + shift
                },
                None => shift > self.min || self.count + shift > usize::MAX,
            },
    {
        let min = match self.min.checked_sub(shift) {
            Some(v) => v,
            None => {
                return None;
            },
        };
        let count = match self.count.checked_add(shift) {
            Some(v) => v,
            None => {
                return None;
            },
        };
        Some(MemSpan { min, count })
    }

    pub fn shift_min_checked(&self, shift: isize) -> (r: Option<Self>)
        requires
            shift > isize::MIN,
        ensures
            r == self.spec_shift_min_checked(shift as int),
    {
        if shift < 0 {
            self.shift_min_down_checked((-shift) as usize)
        } else if shift > 0 {
            self.shift_min_up_checked(shift as usize)
        } else {
            Some(*self)
        }
    }

    /// Whether `index` lies in the half-open interval `[min, min + count)`.
    pub fn contains(&self, index: usize) -> (r: bool)
        ensures
            r == (self.min <= index && index < self.spec_upper()),
    {
        index >= self.min && index - self.min < self.count
    }

    /// The overlapping half-open interval, per [`MemSpan::spec_intersect`].
    pub fn intersect(&self, other: &Self) -> (r: Option<Self>)
        requires
            self.wf(),
            other.wf(),
        ensures
            r == Self::spec_intersect(*self, *other),
    {
        let this_max = match self.max() {
            Some(m) => m,
            None => {
                return None;
            },
        };
        let other_max = match other.max_value() {
            Some(m) => m,
            None => {
                return None;
            },
        };
        let lo = if self.min >= other.min {
            self.min
        } else {
            other.min
        };
        let hi = if this_max <= other_max {
            this_max
        } else {
            other_max
        };
        Self::min_max(lo, hi)
    }

    /// True exactly when the intersection is present with positive length:
    /// two spans that only touch at a boundary do not overlap.
    pub fn overlaps(&self, other: &Self) -> (r: bool)
        requires
            self.wf(),
            other.wf(),
        ensures
            r == Self::spec_overlaps(*self, *other),
    {
        match self.intersect(other) {
            Some(s) => s.len() > 0,
            None => false,
        }
    }

    /// Whether a list of spans sorted by ascending lower bound holds some
    /// pair that overlaps, that is, some pair with a positive-length
    /// intersection. The check is exact: because the list is sorted, it
    /// suffices to compare each span's lower bound against the greatest
    /// exclusive upper bound of the non-empty spans before it.
    pub fn spans_have_overlap_sorted(spans: &Vec<MemSpan>) -> (r: bool)
        requires
            spans.len() >= 1,
            forall|i: int| 0 <= i < spans@.len() ==> (#[trigger] spans@[i]).wf(),
            forall|i: int|
                0 <= i < spans@.len() - 1 ==> (#[trigger] spans@[i]).min <= spans@[i + 1].min,
        ensures
            r == exists|i: int, j: int|
                0 <= i < j < spans@.len() && Self::spec_overlaps(
                    #[trigger] spans@[i],
                    #[trigger] spans@[j],
                ),
    {
        let n = spans.len();
        // The greatest exclusive upper bound among the non-empty spans seen
        // so far; zero while none was seen, which no lower bound can
        // undercut.
        let mut best_upper: usize = 0;
        let mut j: usize = 0;
        while j < n
            invariant
                0 <= j <= n,
                n == spans@.len(),
                forall|k: int| 0 <= k < spans@.len() ==> (#[trigger] spans@[k]).wf(),
                forall|k: int|
                    0 <= k < spans@.len() - 1 ==> (#[trigger] spans@[k]).min <= spans@[k + 1].min,
                forall|a: int, b: int|
                    0 <= a < b < j ==> !Self::spec_overlaps(
                        #[trigger] spans@[a],
                        #[trigger] spans@[b],
                    ),
                forall|a: int|
                    0 <= a < j && (#[trigger] spans@[a]).count > 0 ==> spans@[a].spec_upper()
                        <= best_upper,
                best_upper == 0 || exists|a: int|
                    0 <= a < j && (#[trigger] spans@[a]).count > 0 && spans@[a].spec_upper()
                        == best_upper,
            decreases n - j,
        {
            let s = spans[j];
            if s.len() > 0 {
                if s.min < best_upper {
                    proof {
                        let a = choose|a: int|
                            0 <= a < j && (#[trigger] spans@[a]).count > 0 && spans@[
                                a
                            ].spec_upper() == best_upper;
                        lemma_min_sorted(spans@, a, j as int);
                        assert(Self::spec_overlaps(spans@[a], spans@[j as int]));
                    }
                    return true;
                }
                proof {
                    assert forall|a: int| 0 <= a < j implies !Self::spec_overlaps(
                        spans@[a],
                        spans@[j as int],
                    ) by {
                        if spans@[a].count > 0 {
                            lemma_min_sorted(spans@, a, j as int);
                        }
                    }
                }
                let upper = s.upper_bound();
                if upper > best_upper {
                    best_upper = upper;
                }
            } else {
                proof {
                    assert forall|a: int| 0 <= a < j implies !Self::spec_overlaps(
                        spans@[a],
                        spans@[j as int],
                    ) by {}
                }
            }
            j = j + 1;
        }
        false
    }

    /// Intersection looks at both spans the same way: swapping the arguments
    /// never changes the result.
    pub proof fn lemma_intersect_commutes(a: MemSpan, b: MemSpan)
        ensures
            Self::spec_intersect(a, b) == Self::spec_intersect(b, a),
    {
    }

    /// Intersecting a non-empty span with itself gives the span back.
    pub proof fn lemma_intersect_idempotent(a: MemSpan)
        requires
            a.wf(),
            a.count > 0,
        ensures
            Self::spec_intersect(a, a) == Some(a),
    {
    }

    /// Intersection is associative as long as both intermediate
    /// intersections cover at least one index. (Where an intermediate is
    /// empty or absent the two groupings can differ, because an empty
    /// intersection is present when spans touch but absent when they are
    /// separated.)
    pub proof fn lemma_intersect_assoc(a: MemSpan, b: MemSpan, c: MemSpan)
        requires
            a.wf(),
            b.wf(),
            c.wf(),
            match Self::spec_intersect(a, b) {
                Some(s) => s.count > 0,
                None => false,
            },
            match Self::spec_intersect(b, c) {
                Some(s) => s.count > 0,
                None => false,
            },
        ensures
            ({
                let ab = Self::spec_intersect(a, b).unwrap();
                let bc = Self::spec_intersect(b, c).unwrap();
                Self::spec_intersect(ab, c) == Self::spec_intersect(a, bc)
            }),
    {
    }
}

/// In a list sorted by ascending lower bound, an earlier span starts at
/// or below a later one.
pub proof fn lemma_min_sorted(spans: Seq<MemSpan>, i: int, j: int)
    requires
        forall|k: int| 0 <= k < spans.len() - 1 ==> (#[trigger] spans[k]).min <= spans[k + 1].min,
        0 <= i <= j < spans.len(),
    ensures
        spans[i].min <= spans[j].min,
    decreases j - i,
{
    if i < j {
        lemma_min_sorted(spans, i, j - 1);
    }
}

} // verus!
