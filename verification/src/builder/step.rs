//! An initial value and an optional step between successive values.

use vstd::prelude::*;
use vstd::std_specs::convert::IntoSpec;
use crate::builder::bound::TextValue;

verus! {

/// An initial value and an optional step.
#[derive(Debug, PartialEq, Eq, Clone, Copy)]
pub struct ValueStep<T> {
    initial: T,
    step: Option<T>,
}

impl<T> ValueStep<T> {
    /// The initial value.
    pub closed spec fn first(&self) -> T {
        self.initial
    }

    /// The step, when one is given.
    pub closed spec fn stride(&self) -> Option<T> {
        self.step
    }

    /// The step from `initial`, by `step` when given.
    pub fn new(initial: T, step: Option<T>) -> (r: Self)
        ensures
            r.first() == initial,
            r.stride() == step,
    {
        ValueStep { initial, step }
    }

    /// The initial value.
    pub fn get_initial(&self) -> (r: &T)
        ensures
            *r == self.first(),
    {
        &self.initial
    }

    /// The step.
    pub fn get_step(&self) -> (r: &Option<T>)
        ensures
            *r == self.stride(),
    {
        &self.step
    }

    /// The same step with each value converted by `Into`.
    pub fn convert_into<U>(self) -> (r: ValueStep<U>)
        where
            T: Into<U>,
        requires
            <T as IntoSpec<U>>::obeys_into_spec(),
        ensures
            r.first() == <T as IntoSpec<U>>::into_spec(self.first()),
            r.stride() == (match self.stride() {
                Some(s) => Some(<T as IntoSpec<U>>::into_spec(s)),
                None => None,
            }),
    {
        let ValueStep { initial, step } = self;
        let new_step = match step {
            Some(s) => Some(s.into()),
            None => None,
        };
        ValueStep { initial: initial.into(), step: new_step }
    }

    /// The same step with each value converted by `convert`, the initial value first.
    pub fn convert_with<F, U>(self, convert: F) -> (r: ValueStep<U>)
        where
            F: Fn(T) -> U,
        requires
            convert.requires((self.first(),)),
            self.stride() matches Some(s) ==> convert.requires((s,)),
        ensures
            convert.ensures((self.first(),), r.first()),
            r.stride() is Some <==> self.stride() is Some,
            self.stride() matches Some(s) ==> convert.ensures((s,), r.stride()->0),
    {
        let ValueStep { initial, step } = self;
        let new_initial = convert(initial);
        let new_step = match step {
            Some(s) => Some(convert(s)),
            None => None,
        };
        ValueStep { initial: new_initial, step: new_step }
    }

    /// The same step with each value converted by `convert`, the step first;
    /// a conversion that fails gives the error.
    pub fn try_convert_with<F, U, E>(self, convert: F) -> (r: Result<ValueStep<U>, E>)
        where
            F: Fn(T) -> Result<U, E>,
        requires
            convert.requires((self.first(),)),
            self.stride() matches Some(s) ==> convert.requires((s,)),
        ensures
            match r {
                Ok(b) => {
                    &&& convert.ensures((self.first(),), Ok::<U, E>(b.first()))
                    &&& b.stride() is Some <==> self.stride() is Some
                    &&& self.stride() matches Some(s) ==> convert.ensures((s,), Ok::<U, E>(b.stride()->0))
                },
                Err(err) => {
                    ||| convert.ensures((self.first(),), Err::<U, E>(err))
                    ||| (self.stride() is Some && convert.ensures((self.stride()->0,), Err::<U, E>(err)))
                },
            },
    {
        let ValueStep { initial, step } = self;
        let new_step = match step {
            None => None,
            Some(s) => match convert(s) {
                Ok(v) => Some(v),
                Err(e) => {
                    return Err(e);
                },
            },
        };
        match convert(initial) {
            Ok(v) => Ok(ValueStep { initial: v, step: new_step }),
            Err(e) => Err(e),
        }
    }
}

impl<T: TextValue> ValueStep<T> {
    /// The text of the step: `initial..(/step)`, or `initial..` without step.
    pub open spec fn step_text(&self) -> Seq<char> {
        match self.stride() {
            Some(s) => self.first().text_of() + "..(/"@ + s.text_of() + ")"@,
            None => self.first().text_of() + ".."@,
        }
    }

    /// The text of the step, such as `1..(/2)`.
    pub fn to_display_string(&self) -> (r: String)
        ensures
            r@ == self.step_text(),
    {
        let first = self.initial.to_text();
        match &self.step {
            Some(s) => {
                let step = s.to_text();
                first.concat("..(/").concat(step.as_str()).concat(")")
            },
            None => first.concat(".."),
        }
    }
}

} // verus!
