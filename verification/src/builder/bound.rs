//! Bounds of a range of values: an optional start, which is always included,
//! and an optional end, which is included or not.

use vstd::prelude::*;
use vstd::std_specs::convert::IntoSpec;
use crate::value::{DataValue, display_text, int_text, int_to_string};

verus! {

/// A range of values with optional bounds.
#[derive(Debug, PartialEq, Eq, Clone, Copy)]
pub struct ValueBound<T> {
    start: Option<T>,
    include_end: bool,
    end: Option<T>,
}

/// Values that can bound a range: each has an integer that orders it.
pub trait BoundValue: Sized {
    /// The integer that orders this value.
    spec fn order_key(&self) -> int;

    /// Whether this value is at most `other`.
    fn bound_le(&self, other: &Self) -> (r: bool)
        ensures
            r == (self.order_key() <= other.order_key()),
    ;

    /// Whether this value is below `other`.
    fn bound_lt(&self, other: &Self) -> (r: bool)
        ensures
            r == (self.order_key() < other.order_key()),
    ;
}

impl BoundValue for i32 {
    open spec fn order_key(&self) -> int {
        *self as int
    }

    fn bound_le(&self, other: &Self) -> (r: bool) {
        *self <= *other
    }

    fn bound_lt(&self, other: &Self) -> (r: bool) {
        *self < *other
    }
}

impl BoundValue for i64 {
    open spec fn order_key(&self) -> int {
        *self as int
    }

    fn bound_le(&self, other: &Self) -> (r: bool) {
        *self <= *other
    }

    fn bound_lt(&self, other: &Self) -> (r: bool) {
        *self < *other
    }
}

impl BoundValue for u32 {
    open spec fn order_key(&self) -> int {
        *self as int
    }

    fn bound_le(&self, other: &Self) -> (r: bool) {
        *self <= *other
    }

    fn bound_lt(&self, other: &Self) -> (r: bool) {
        *self < *other
    }
}

/// Values with a text, used to show a range.
pub trait TextValue: Sized {
    /// The text of this value.
    spec fn text_of(&self) -> Seq<char>;

    /// The text of this value.
    fn to_text(&self) -> (r: String)
        ensures
            r@ == self.text_of(),
    ;
}

impl TextValue for i32 {
    open spec fn text_of(&self) -> Seq<char> {
        int_text(*self as int)
    }

    fn to_text(&self) -> (r: String) {
        int_to_string(*self)
    }
}

impl TextValue for DataValue {
    open spec fn text_of(&self) -> Seq<char> {
        display_text(*self)
    }

    fn to_text(&self) -> (r: String) {
        self.to_display_string()
    }
}

/// Text of a range from the texts of its bounds, in Rust's range syntax:
/// `s..=e`, `s..e`, `s..`, `..=e`, `..e` or `..`.
pub open spec fn range_text(start: Option<Seq<char>>, include_end: bool, end: Option<Seq<char>>) -> Seq<char> {
    match (start, end) {
        (Some(s), Some(e)) => if include_end { s + "..="@ + e } else { s + ".."@ + e },
        (Some(s), None) => s + ".."@,
        (None, Some(e)) => if include_end { "..="@ + e } else { ".."@ + e },
        (None, None) => ".."@,
    }
}

/// Applies `f` to the value in an option.
pub open spec fn option_map<T, U>(o: Option<T>, f: spec_fn(T) -> U) -> Option<U> {
    match o {
        Some(v) => Some(f(v)),
        None => None,
    }
}

impl<T> ValueBound<T> {
    /// The start of the range, which is included when present.
    pub closed spec fn lower(&self) -> Option<T> {
        self.start
    }

    /// The end of the range.
    pub closed spec fn upper(&self) -> Option<T> {
        self.end
    }

    /// Whether the end of the range is included.
    pub closed spec fn includes_end(&self) -> bool {
        self.include_end
    }

    /// The range with the given bounds.
    pub closed spec fn spec_new(start: Option<T>, include_end: bool, end: Option<T>) -> Self {
        ValueBound { start, include_end, end }
    }

    /// This range with each missing bound taken from `other`; the end is
    /// included as in the range that gives the end.
    pub closed spec fn filled_from(&self, other: Self) -> Self {
        ValueBound {
            start: if self.start is Some { self.start } else { other.start },
            include_end: if self.end is Some { self.include_end } else { other.include_end },
            end: if self.end is Some { self.end } else { other.end },
        }
    }

    /// The bounds of a filled range.
    pub proof fn lemma_filled_from(a: Self, b: Self)
        ensures
            a.filled_from(b).lower() == (if a.lower() is Some { a.lower() } else { b.lower() }),
            a.filled_from(b).upper() == (if a.upper() is Some { a.upper() } else { b.upper() }),
            a.filled_from(b).includes_end() == (if a.upper() is Some { a.includes_end() } else { b.includes_end() }),
    {
    }

    /// Filling a range from itself changes nothing.
    pub proof fn law_filling_from_itself(self)
        ensures
            self.filled_from(self) == self,
    {
    }

    /// Filling the range without bounds from `other` gives `other`.
    pub proof fn law_filling_the_full_range(other: Self)
        ensures
            Self::spec_new(None, false, None).filled_from(other) == other,
    {
    }

    /// Two ranges are equal when their bounds are.
    pub proof fn lemma_eq(a: Self, b: Self)
        requires
            a.lower() == b.lower(),
            a.upper() == b.upper(),
            a.includes_end() == b.includes_end(),
        ensures
            a == b,
    {
    }

    /// The bounds of a range built by `spec_new`.
    pub proof fn lemma_spec_new(start: Option<T>, include_end: bool, end: Option<T>)
        ensures
            Self::spec_new(start, include_end, end).lower() == start,
            Self::spec_new(start, include_end, end).upper() == end,
            Self::spec_new(start, include_end, end).includes_end() == include_end,
    {
    }

    /// The range without bounds.
    pub fn new_full() -> (r: Self)
        ensures
            r.lower() is None,
            r.upper() is None,
            !r.includes_end(),
    {
        Self::new(None, None)
    }

    /// The range from `start` to `end`; `end` holds whether the end is
    /// included and the end itself. Without an end, the end is not included.
    pub fn new(start: Option<T>, end: Option<(bool, T)>) -> (r: Self)
        ensures
            r.lower() == start,
            r.upper() == option_map(end, |e: (bool, T)| e.1),
            r.includes_end() == (end matches Some(e) && e.0),
    {
        let (include_end, end_value): (bool, Option<T>) = match end {
            None => (false, None),
            Some((inclusive, e)) => (inclusive, Some(e)),
        };
        ValueBound { start, include_end, end: end_value }
    }

    /// The start of the range.
    pub fn get_start(&self) -> (r: &Option<T>)
        ensures
            *r == self.lower(),
    {
        &self.start
    }

    /// The end of the range.
    pub fn get_end(&self) -> (r: &Option<T>)
        ensures
            *r == self.upper(),
    {
        &self.end
    }

    /// Whether the end of the range is included.
    pub fn is_include_end(&self) -> (r: bool)
        ensures
            r == self.includes_end(),
    {
        self.include_end
    }

    /// The same range with each bound converted by `Into`.
    pub fn convert_into<U>(self) -> (r: ValueBound<U>)
        where
            T: Into<U>,
        requires
            <T as IntoSpec<U>>::obeys_into_spec(),
        ensures
            r.lower() == option_map(self.lower(), |v: T| <T as IntoSpec<U>>::into_spec(v)),
            r.upper() == option_map(self.upper(), |v: T| <T as IntoSpec<U>>::into_spec(v)),
            r.includes_end() == self.includes_end(),
    {
        let ValueBound { start, include_end, end } = self;
        let new_start = match start {
            Some(s) => Some(s.into()),
            None => None,
        };
        let new_end = match end {
            Some(e) => Some(e.into()),
            None => None,
        };
        ValueBound { start: new_start, include_end, end: new_end }
    }

    /// The same range with each bound converted by `convert`, the start first.
    pub fn convert_with<F, U>(self, convert: F) -> (r: ValueBound<U>)
        where
            F: Fn(T) -> U,
        requires
            self.lower() matches Some(s) ==> convert.requires((s,)),
            self.upper() matches Some(e) ==> convert.requires((e,)),
        ensures
            r.lower() is Some <==> self.lower() is Some,
            r.upper() is Some <==> self.upper() is Some,
            self.lower() matches Some(s) ==> convert.ensures((s,), r.lower()->0),
            self.upper() matches Some(e) ==> convert.ensures((e,), r.upper()->0),
            r.includes_end() == self.includes_end(),
    {
        let ValueBound { start, include_end, end } = self;
        let new_start = match start {
            Some(s) => Some(convert(s)),
            None => None,
        };
        let new_end = match end {
            Some(e) => Some(convert(e)),
            None => None,
        };
        ValueBound { start: new_start, include_end, end: new_end }
    }

    /// The same range with each bound converted by `convert`, the start
    /// first; the first conversion that fails gives the error.
    pub fn try_convert_with<F, U, E>(self, convert: F) -> (r: Result<ValueBound<U>, E>)
        where
            F: Fn(T) -> Result<U, E>,
        requires
            self.lower() matches Some(s) ==> convert.requires((s,)),
            self.upper() matches Some(e) ==> convert.requires((e,)),
        ensures
            match r {
                Ok(b) => {
                    &&& b.includes_end() == self.includes_end()
                    &&& b.lower() is Some <==> self.lower() is Some
                    &&& b.upper() is Some <==> self.upper() is Some
                    &&& self.lower() matches Some(s) ==> convert.ensures((s,), Ok::<U, E>(b.lower()->0))
                    &&& self.upper() matches Some(e) ==> convert.ensures((e,), Ok::<U, E>(b.upper()->0))
                },
                Err(err) => {
                    ||| (self.lower() is Some && convert.ensures((self.lower()->0,), Err::<U, E>(err)))
                    ||| {
                        &&& self.upper() is Some
                        &&& convert.ensures((self.upper()->0,), Err::<U, E>(err))
                        &&& self.lower() matches Some(s) ==> exists|u: U| convert.ensures((s,), Ok::<U, E>(u))
                    }
                },
            },
    {
        let ValueBound { start, include_end, end } = self;
        let new_start = match start {
            None => None,
            Some(s) => match convert(s) {
                Ok(v) => Some(v),
                Err(e) => {
                    return Err(e);
                },
            },
        };
        let new_end = match end {
            None => None,
            Some(e) => match convert(e) {
                Ok(v) => Some(v),
                Err(err) => {
                    return Err(err);
                },
            },
        };
        Ok(ValueBound { start: new_start, include_end, end: new_end })
    }

    /// Fills each bound that this range lacks from `other`; the end is
    /// included as in the range that gives the end.
    pub fn without_no_bound_from_other(self, other: ValueBound<T>) -> (r: ValueBound<T>)
        ensures
            r == self.filled_from(other),
            r.lower() == (if self.lower() is Some { self.lower() } else { other.lower() }),
            r.upper() == (if self.upper() is Some { self.upper() } else { other.upper() }),
            r.includes_end() == (if self.upper() is Some { self.includes_end() } else { other.includes_end() }),
    {
        let ValueBound { start, include_end, end } = self;
        let ValueBound { start: other_start, include_end: other_include_end, end: other_end } =
            other;
        let has_end = end.is_some();
        ValueBound {
            start: match start {
                Some(s) => Some(s),
                None => other_start,
            },
            include_end: if has_end {
                include_end
            } else {
                other_include_end
            },
            end: match end {
                Some(e) => Some(e),
                None => other_end,
            },
        }
    }
}

impl<T: BoundValue> ValueBound<T> {
    /// Whether `v` lies in the range.
    pub open spec fn admits(&self, v: T) -> bool {
        &&& (self.lower() matches Some(s) ==> s.order_key() <= v.order_key())
        &&& (self.upper() matches Some(e) ==> if self.includes_end() {
            v.order_key() <= e.order_key()
        } else {
            v.order_key() < e.order_key()
        })
    }

    /// Whether the range has both bounds and they leave no room between them.
    pub open spec fn spec_is_empty(&self) -> bool {
        &&& self.lower() is Some
        &&& self.upper() is Some
        &&& if self.includes_end() {
            self.upper()->0.order_key() < self.lower()->0.order_key()
        } else {
            self.upper()->0.order_key() <= self.lower()->0.order_key()
        }
    }

    /// Whether `v` lies in the range.
    pub fn contains(&self, v: &T) -> (r: bool)
        ensures
            r == self.admits(*v),
    {
        let start_ok = match &self.start {
            Some(s) => s.bound_le(v),
            None => true,
        };
        let end_ok = match &self.end {
            Some(e) => {
                if self.include_end {
                    v.bound_le(e)
                } else {
                    v.bound_lt(e)
                }
            },
            None => true,
        };
        start_ok && end_ok
    }

    /// Whether the range is known to be empty: both bounds are given and no
    /// value lies between them. A range with a missing bound is never reported
    /// empty.
    pub fn is_empty(&self) -> (r: bool)
        ensures
            r == self.spec_is_empty(),
    {
        match (&self.start, &self.end) {
            (Some(s), Some(e)) => {
                if self.include_end {
                    !s.bound_le(e)
                } else {
                    !s.bound_lt(e)
                }
            },
            _ => false,
        }
    }
}

impl<T: BoundValue> ValueBound<T> {
    /// A range reported empty holds no value.
    pub proof fn law_empty_range_holds_nothing(self, v: T)
        requires
            self.spec_is_empty(),
        ensures
            !self.admits(v),
    {
    }

    /// A value lies in a range filled from `other` when it lies in the range
    /// itself and in `other`.
    pub proof fn law_filling_narrows(self, other: Self, v: T)
        requires
            self.admits(v),
            other.admits(v),
        ensures
            self.filled_from(other).admits(v),
    {
        Self::lemma_filled_from(self, other);
    }

    /// Filling a range that has both bounds changes nothing.
    pub proof fn law_filling_a_bounded_range_keeps_it(self, other: Self)
        requires
            self.lower() is Some,
            self.upper() is Some,
        ensures
            self.filled_from(other) == self,
    {
        Self::lemma_filled_from(self, other);
        Self::lemma_eq(self.filled_from(other), self);
    }
}

impl<T: TextValue> ValueBound<T> {
    /// The text of the range in Rust's range syntax.
    pub open spec fn bound_text(&self) -> Seq<char> {
        range_text(
            option_map(self.lower(), |v: T| v.text_of()),
            self.includes_end(),
            option_map(self.upper(), |v: T| v.text_of()),
        )
    }

    /// The text of the range in Rust's range syntax, such as `1..=15`.
    pub fn to_display_string(&self) -> (r: String)
        ensures
            r@ == self.bound_text(),
    {
        let start_text = match &self.start {
            Some(s) => Some(s.to_text()),
            None => None,
        };
        let end_text = match &self.end {
            Some(e) => Some(e.to_text()),
            None => None,
        };
        let r = match (start_text, end_text) {
            (Some(s), Some(e)) => {
                if self.include_end {
                    s.concat("..=").concat(e.as_str())
                } else {
                    s.concat("..").concat(e.as_str())
                }
            },
            (Some(s), None) => s.concat(".."),
            (None, Some(e)) => {
                if self.include_end {
                    String::from_str("..=").concat(e.as_str())
                } else {
                    String::from_str("..").concat(e.as_str())
                }
            },
            (None, None) => String::from_str(".."),
        };
        r
    }
}

impl ValueBound<DataValue> {
    /// A copy of this range.
    pub fn duplicate(&self) -> (r: Self)
        ensures
            r == *self,
    {
        let start = match &self.start {
            Some(v) => Some(v.duplicate()),
            None => None,
        };
        let end = match &self.end {
            Some(v) => Some(v.duplicate()),
            None => None,
        };
        ValueBound { start, include_end: self.include_end, end }
    }
}

impl<T> Default for ValueBound<T> {
    /// The range without bounds.
    fn default() -> (r: Self)
        ensures
            r.lower() is None,
            r.upper() is None,
            !r.includes_end(),
    {
        Self::new_full()
    }
}

/// `RangeInclusive::into_inner` gives the bounds the range was made with.
pub assume_specification<Idx>[ core::ops::RangeInclusive::<Idx>::into_inner ](
    r: core::ops::RangeInclusive<Idx>,
) -> (ret: (Idx, Idx))
    ensures
        ret.0 == r@.start,
        ret.1 == r@.end,
;

impl<T> From<core::ops::Range<T>> for ValueBound<T> {
    /// The range `start..end`, without its end.
    fn from(range: core::ops::Range<T>) -> (r: Self) {
        let r = ValueBound::new(Some(range.start), Some((false, range.end)));
        proof {
            Self::lemma_spec_new(Some(range.start), false, Some(range.end));
            Self::lemma_eq(r, Self::spec_new(Some(range.start), false, Some(range.end)));
        }
        r
    }
}

impl<T> vstd::std_specs::convert::FromSpecImpl<core::ops::Range<T>> for ValueBound<T> {
    open spec fn obeys_from_spec() -> bool {
        true
    }

    open spec fn from_spec(v: core::ops::Range<T>) -> Self {
        ValueBound::spec_new(Some(v.start), false, Some(v.end))
    }
}

impl<T> From<core::ops::RangeInclusive<T>> for ValueBound<T> {
    /// The range `start..=end`, with its end.
    fn from(range: core::ops::RangeInclusive<T>) -> (r: Self) {
        let ghost view = range@;
        let (start, end) = range.into_inner();
        let r = ValueBound::new(Some(start), Some((true, end)));
        proof {
            Self::lemma_spec_new(Some(start), true, Some(end));
            Self::lemma_eq(r, Self::spec_new(Some(view.start), true, Some(view.end)));
        }
        r
    }
}

impl<T> vstd::std_specs::convert::FromSpecImpl<core::ops::RangeInclusive<T>> for ValueBound<T> {
    open spec fn obeys_from_spec() -> bool {
        true
    }

    open spec fn from_spec(v: core::ops::RangeInclusive<T>) -> Self {
        ValueBound::spec_new(Some(v@.start), true, Some(v@.end))
    }
}

} // verus!
