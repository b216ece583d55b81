//! Generators of integers, booleans, nulls and sequential identifiers.

use vstd::prelude::*;
use crate::builder::{GeneratorBuilder, Nullable, ValueBound};
use crate::builder::generator_builder::int_bound_values;
use crate::error::{BuildError, GenerateError};
use crate::generator::{
    Randomizer, int_bound_failure, int_bound_parses, int_parse_outcome, parse_int_bound,
    parse_int_value, parsed_int_bound, parsed_int_value,
};
use crate::generator_type::GeneratorType;
use crate::value::{DataValue, SbrdInt, law_int_text_reads_back};
use crate::builder::bound::option_map;

verus! {

/// The range of `i16`, the default range of integers.
pub open spec fn default_int_range() -> ValueBound<SbrdInt> {
    ValueBound::spec_new(Some(-32768i32), true, Some(32767i32))
}

/// Generator of integers in a range.
#[derive(Debug)]
pub struct IntGenerator {
    nullable: Nullable,
    range: ValueBound<SbrdInt>,
}

/// Whether `r` is what building the generator that `builder` describes gives.
pub open spec fn int_create_outcome(builder: GeneratorBuilder, r: Result<IntGenerator, BuildError>) -> bool {
    &&& builder.generator_type != GeneratorType::Int ==> r == Err::<IntGenerator, BuildError>(
                BuildError::InvalidType(builder.generator_type)
    )
    &&& builder.generator_type == GeneratorType::Int ==> match builder.range {
                None => r matches Ok(g) && g.range_of() == default_int_range() && g.nullable_of()
                    == builder.nullable,
                Some(b) => if !int_bound_parses(b) {
                    r matches Err(e) && int_bound_failure(b, e)
                } else if parsed_int_bound(b).spec_is_empty() {
                    r matches Err(e) && e == BuildError::RangeEmpty(int_bound_values(parsed_int_bound(b)))
                } else {
                    r matches Ok(g) && g.range_of() == parsed_int_bound(b) && g.nullable_of() == builder.nullable
                }
    }
}

impl IntGenerator {
    /// Whether this generator may produce null.
    pub closed spec fn nullable_of(&self) -> Nullable {
        self.nullable
    }

    /// The range of the integers.
    pub closed spec fn range_of(&self) -> ValueBound<SbrdInt> {
        self.range
    }

    /// The range of `i16`.
    pub fn default_range() -> (r: ValueBound<SbrdInt>)
        ensures
            r == default_int_range(),
            !r.spec_is_empty(),
    {
        let r = ValueBound::new(Some(-32768i32), Some((true, 32767i32)));
        proof {
            ValueBound::<SbrdInt>::lemma_spec_new(Some(-32768i32), true, Some(32767i32));
            ValueBound::<SbrdInt>::lemma_eq(r, default_int_range());
        }
        r
    }

    /// The generator `builder` describes: its range is the range of `i16`
    /// when absent, and the bounds given must be integers and leave room.
    pub fn create(builder: GeneratorBuilder) -> (r: Result<Self, BuildError>)
        ensures
            int_create_outcome(builder, r),
    {
        if builder.generator_type != GeneratorType::Int {
            return Err(BuildError::InvalidType(builder.generator_type));
        }
        let range = match builder.range {
            None => Self::default_range(),
            Some(b) => match parse_int_bound(b) {
                Ok(p) => p,
                Err(e) => return Err(e),
            },
        };
        if range.is_empty() {
            return Err(BuildError::RangeEmpty(int_bound_to_data(range)));
        }
        Ok(IntGenerator { nullable: builder.nullable, range })
    }

    /// Whether this generator may produce null.
    pub fn is_nullable(&self) -> (r: bool)
        ensures
            r == self.nullable_of().allows_null(),
    {
        self.nullable.is_nullable()
    }

    /// An integer of the range; a missing bound is that of `i32`. Fails only
    /// when no `i32` lies in the range.
    pub fn generate_without_null<R: Randomizer>(&self, rng: &mut R) -> (r: Result<DataValue, GenerateError>)
        ensures
            int_outcome(*self, r),
    {
        let low: SbrdInt = match self.range.get_start() {
            Some(s) => *s,
            None => i32::MIN,
        };
        let high: SbrdInt = match self.range.get_end() {
            Some(e) => {
                if self.range.is_include_end() {
                    *e
                } else if *e == i32::MIN {
                    return Err(GenerateError::FailGenerate(String::from_str("No integer lies in the range")));
                } else {
                    *e - 1
                }
            },
            None => i32::MAX,
        };
        if low > high {
            return Err(GenerateError::FailGenerate(String::from_str("No integer lies in the range")));
        }
        let v = rng.gen_i32_between(low, high);
        Ok(DataValue::Int(v))
    }
}

/// Whether `r` may come from the integer generator `g`: an integer of its
/// range, or a failure when no `i32` lies in it.
pub open spec fn int_outcome(g: IntGenerator, r: Result<DataValue, GenerateError>) -> bool {
    match r {
        Ok(v) => v is Int && g.range_of().admits(v->Int_0),
        Err(e) => e is FailGenerate && forall|v: SbrdInt| !g.range_of().admits(v),
    }
}

/// Integer bounds as integer values.
pub fn int_bound_to_data(range: ValueBound<SbrdInt>) -> (r: ValueBound<DataValue>)
    ensures
        r == int_bound_values(range),
{
    let r = range.convert_with(|v: SbrdInt| -> (d: DataValue) ensures d == DataValue::Int(v) { DataValue::Int(v) });
    proof {
        ValueBound::<DataValue>::lemma_spec_new(
            crate::builder::bound::option_map(range.lower(), |v: SbrdInt| DataValue::Int(v)),
            range.includes_end(),
            crate::builder::bound::option_map(range.upper(), |v: SbrdInt| DataValue::Int(v)),
        );
        ValueBound::<DataValue>::lemma_eq(r, int_bound_values(range));
    }
    r
}

/// Generator of booleans, each with probability one half.
#[derive(Debug)]
pub struct BoolGenerator {
    nullable: Nullable,
}

/// Whether `r` is what building the generator that `builder` describes gives.
pub open spec fn bool_create_outcome(builder: GeneratorBuilder, r: Result<BoolGenerator, BuildError>) -> bool {
    &&& builder.generator_type != GeneratorType::Bool ==> r == Err::<BoolGenerator, BuildError>(
                BuildError::InvalidType(builder.generator_type)
    )
    &&& builder.generator_type == GeneratorType::Bool ==> (r matches Ok(g) && g.nullable_of()
                == builder.nullable)
}

impl BoolGenerator {
    /// Whether this generator may produce null.
    pub closed spec fn nullable_of(&self) -> Nullable {
        self.nullable
    }

    /// The generator `builder` describes.
    pub fn create(builder: GeneratorBuilder) -> (r: Result<Self, BuildError>)
        ensures
            bool_create_outcome(builder, r),
    {
        if builder.generator_type != GeneratorType::Bool {
            return Err(BuildError::InvalidType(builder.generator_type));
        }
        Ok(BoolGenerator { nullable: builder.nullable })
    }

    /// Whether this generator may produce null.
    pub fn is_nullable(&self) -> (r: bool)
        ensures
            r == self.nullable_of().allows_null(),
    {
        self.nullable.is_nullable()
    }

    /// A boolean.
    pub fn generate_without_null<R: Randomizer>(&self, rng: &mut R) -> (r: Result<DataValue, GenerateError>)
        ensures
            r matches Ok(v) && v is Bool,
    {
        Ok(DataValue::Bool(rng.gen_ratio(1, 2)))
    }
}

/// Generator of nulls only.
#[derive(Debug)]
pub struct AlwaysNullGenerator {}

/// Whether `r` is what building the generator that `builder` describes gives.
pub open spec fn always_null_create_outcome(builder: GeneratorBuilder, r: Result<AlwaysNullGenerator, BuildError>) -> bool {
    &&& builder.generator_type != GeneratorType::AlwaysNull ==> r == Err::<AlwaysNullGenerator, BuildError>(
                BuildError::InvalidType(builder.generator_type)
    )
    &&& builder.generator_type == GeneratorType::AlwaysNull ==> r is Ok
}

impl AlwaysNullGenerator {
    /// The generator `builder` describes.
    pub fn create(builder: GeneratorBuilder) -> (r: Result<Self, BuildError>)
        ensures
            always_null_create_outcome(builder, r),
    {
        if builder.generator_type != GeneratorType::AlwaysNull {
            return Err(BuildError::InvalidType(builder.generator_type));
        }
        Ok(AlwaysNullGenerator {  })
    }

    /// Always true: this generator produces null.
    pub fn is_nullable(&self) -> (r: bool)
        ensures
            r,
    {
        true
    }

    /// Null.
    pub fn generate_without_null(&self) -> (r: Result<DataValue, GenerateError>)
        ensures
            r matches Ok(v) && v is Null,
    {
        Ok(DataValue::Null)
    }
}

/// Generator of sequential identifiers: the first value, then each previous
/// one plus the step.
#[derive(Debug)]
pub struct IncrementIdGenerator {
    nullable: Nullable,
    current_id: SbrdInt,
    step: SbrdInt,
}

/// Whether `e` reports the failure to read the step of `builder`'s increment.
pub open spec fn step_failure(builder: GeneratorBuilder, e: BuildError) -> bool {
    builder.increment matches Some(s) && s.stride() matches Some(v) && int_parse_outcome(v, Err(e))
}

/// Whether `r` is what building the generator that `builder` describes gives.
pub open spec fn increment_id_create_outcome(builder: GeneratorBuilder, r: Result<IncrementIdGenerator, BuildError>) -> bool {
    &&& builder.generator_type != GeneratorType::IncrementId ==> r == Err::<IncrementIdGenerator, BuildError>(
                BuildError::InvalidType(builder.generator_type)
    )
    &&& builder.generator_type == GeneratorType::IncrementId ==> match builder.increment {
                None => r matches Ok(g) && g.next_id() == 1 && g.step_of() == 1 && g.nullable_of()
                    == builder.nullable,
                Some(s) => if parsed_int_value(s.first()) is None {
                    r matches Err(e) && int_parse_outcome(s.first(), Err(e))
                } else if s.stride() matches Some(v) && parsed_int_value(v) is None {
                    r matches Err(e) && step_failure(builder, e)
                } else {
                    r matches Ok(g) && g.next_id() == parsed_int_value(s.first())->0 && g.step_of() == (
                    match s.stride() {
                        Some(v) => parsed_int_value(v)->0,
                        None => 1i32,
                    }) && g.nullable_of() == builder.nullable
                }
    }
}

impl IncrementIdGenerator {
    /// Whether this generator may produce null.
    pub closed spec fn nullable_of(&self) -> Nullable {
        self.nullable
    }

    /// The identifier produced next.
    pub closed spec fn next_id(&self) -> SbrdInt {
        self.current_id
    }

    /// The difference between successive identifiers.
    pub closed spec fn step_of(&self) -> SbrdInt {
        self.step
    }

    /// The generator `builder` describes: from 1 by 1 without increment;
    /// otherwise from its first value, by its step or by 1.
    pub fn create(builder: GeneratorBuilder) -> (r: Result<Self, BuildError>)
        ensures
            increment_id_create_outcome(builder, r),
    {
        if builder.generator_type != GeneratorType::IncrementId {
            return Err(BuildError::InvalidType(builder.generator_type));
        }
        let (initial, step): (SbrdInt, SbrdInt) = match &builder.increment {
            None => (1, 1),
            Some(s) => {
                let initial = match parse_int_value(s.get_initial().duplicate()) {
                    Ok(v) => v,
                    Err(e) => return Err(e),
                };
                let step = match s.get_step() {
                    None => 1,
                    Some(v) => match parse_int_value(v.duplicate()) {
                        Ok(n) => n,
                        Err(e) => return Err(e),
                    },
                };
                (initial, step)
            },
        };
        Ok(IncrementIdGenerator { nullable: builder.nullable, current_id: initial, step })
    }

    /// Whether this generator may produce null.
    pub fn is_nullable(&self) -> (r: bool)
        ensures
            r == self.nullable_of().allows_null(),
    {
        self.nullable.is_nullable()
    }

    /// Whether this generator may produce null.
    pub fn nullable(&self) -> (r: Nullable)
        ensures
            r == self.nullable_of(),
    {
        self.nullable
    }

    /// The identifier produced next.
    pub fn get_next_id(&self) -> (r: SbrdInt)
        ensures
            r == self.next_id(),
    {
        self.current_id
    }

    /// The difference between successive identifiers.
    pub fn get_step(&self) -> (r: SbrdInt)
        ensures
            r == self.step_of(),
    {
        self.step
    }

    /// The next identifier, moving on by the step; fails, unchanged, when
    /// the identifier after it would leave the range of `i32`.
    pub fn generate_without_null(&mut self) -> (r: Result<DataValue, GenerateError>)
        ensures
            final(self).nullable_of() == old(self).nullable_of(),
            final(self).step_of() == old(self).step_of(),
            match r {
                Ok(v) => v == DataValue::Int(old(self).next_id()) && final(self).next_id() == old(self).next_id()
                    + old(self).step_of(),
                Err(e) => e is FailGenerate && final(self).next_id() == old(self).next_id() && !(i32::MIN
                    <= old(self).next_id() + old(self).step_of() <= i32::MAX),
            },
    {
        let id = self.current_id;
        match id.checked_add(self.step) {
            Some(next) => {
                self.current_id = next;
                Ok(DataValue::Int(id))
            },
            None => Err(GenerateError::FailGenerate(String::from_str("The next identifier is beyond the range of i32"))),
        }
    }
}

/// An integer range written into a builder as values reads back as the
/// same range when a generator is built from it.
pub proof fn law_int_range_survives_building(range: ValueBound<SbrdInt>)
    ensures
        int_bound_parses(int_bound_values(range)),
        parsed_int_bound(int_bound_values(range)) == range,
{
    let b = int_bound_values(range);
    ValueBound::<DataValue>::lemma_spec_new(
        option_map(range.lower(), |v: SbrdInt| DataValue::Int(v)),
        range.includes_end(),
        option_map(range.upper(), |v: SbrdInt| DataValue::Int(v)),
    );
    if let Some(s) = range.lower() {
        law_int_text_reads_back(s);
    }
    if let Some(e) = range.upper() {
        law_int_text_reads_back(e);
    }
    let p = parsed_int_bound(b);
    ValueBound::<SbrdInt>::lemma_spec_new(
        option_map(b.lower(), |v: DataValue| parsed_int_value(v)->0),
        b.includes_end(),
        option_map(b.upper(), |v: DataValue| parsed_int_value(v)->0),
    );
    ValueBound::<SbrdInt>::lemma_eq(p, range);
}

} // verus!
