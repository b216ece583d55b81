//! Generators of values, built from [`GeneratorBuilder`]s.
//!
//! [`GeneratorBuilder`]: crate::builder::GeneratorBuilder

pub mod any_generator;
pub mod build_string;
pub mod calendar;
pub mod primitive;
pub mod random_values;

use vstd::prelude::*;
use rand::distributions::{Distribution, WeightedIndex};
use rand::rngs::StdRng;
use rand::Rng;
use crate::builder::{GeneratorBuilder, ValueBound};
use crate::builder::bound::option_map;
use crate::context::DataValueMap;
use crate::error::{BuildError, GenerateError};
use crate::eval::{EvalError, FormatText, ValueFormatter, template_fill};
use crate::text::string_of;
use crate::value::{
    DataValue, IntParseError, SbrdInt, int_parse_error_text, parse_int, parse_int_spec, value_text,
};

verus! {

#[verifier::external_type_specification]
#[verifier::external_body]
pub struct ExStdRng(StdRng);

/// The sum of `weights`.
pub open spec fn weight_sum(weights: Seq<u128>) -> int
    decreases weights.len(),
{
    if weights.len() == 0 {
        0
    } else {
        weight_sum(weights.drop_last()) + weights.last()
    }
}

/// A source of random numbers.
pub trait Randomizer {
    /// An integer from `low` to `high`, both included.
    fn gen_i32_between(&mut self, low: i32, high: i32) -> (r: i32)
        requires
            low <= high,
        ensures
            low <= r <= high,
    ;

    /// An integer from `low` to `high`, both included.
    fn gen_i64_between(&mut self, low: i64, high: i64) -> (r: i64)
        requires
            low <= high,
        ensures
            low <= r <= high,
    ;

    /// An index below `len`.
    fn gen_index(&mut self, len: usize) -> (r: usize)
        requires
            len > 0,
        ensures
            r < len,
    ;

    /// True with probability `numerator / denominator`.
    fn gen_ratio(&mut self, numerator: u32, denominator: u32) -> (r: bool)
        requires
            0 < denominator,
            numerator <= denominator,
        ensures
            numerator == 0 ==> !r,
            numerator == denominator ==> r,
    ;

    /// An index chosen with probability proportional to its weight; an
    /// index of weight zero is never chosen.
    fn gen_weighted_index(&mut self, weights: &Vec<u128>) -> (r: usize)
        requires
            weights@.len() > 0,
            0 < weight_sum(weights@) <= u128::MAX,
        ensures
            r < weights@.len(),
            weights@[r as int] > 0,
    ;
}

/// `Rng::gen_range` on `low..=high`, which it samples uniformly.
#[verifier::external_body]
fn std_rng_i32_between(rng: &mut StdRng, low: i32, high: i32) -> (r: i32)
    requires
        low <= high,
    ensures
        low <= r <= high,
{
    rng.gen_range(low..=high)
}

/// `Rng::gen_range` on `low..=high`, which it samples uniformly.
#[verifier::external_body]
fn std_rng_i64_between(rng: &mut StdRng, low: i64, high: i64) -> (r: i64)
    requires
        low <= high,
    ensures
        low <= r <= high,
{
    rng.gen_range(low..=high)
}

/// `Rng::gen_range` on `0..len`, which it samples uniformly.
#[verifier::external_body]
fn std_rng_index(rng: &mut StdRng, len: usize) -> (r: usize)
    requires
        len > 0,
    ensures
        r < len,
{
    rng.gen_range(0..len)
}

/// `Rng::gen_ratio`, which is certainly false for a zero numerator and
/// certainly true for a numerator equal to the denominator.
#[verifier::external_body]
fn std_rng_ratio(rng: &mut StdRng, numerator: u32, denominator: u32) -> (r: bool)
    requires
        0 < denominator,
        numerator <= denominator,
    ensures
        numerator == 0 ==> !r,
        numerator == denominator ==> r,
{
    Rng::gen_ratio(rng, numerator, denominator)
}

/// `WeightedIndex::new` then `Distribution::sample`: index `i` comes with
/// probability `weights[i]` over their sum, so one of weight zero never comes.
#[verifier::external_body]
fn std_rng_weighted_index(rng: &mut StdRng, weights: &Vec<u128>) -> (r: usize)
    requires
        weights@.len() > 0,
        0 < weight_sum(weights@) <= u128::MAX,
    ensures
        r < weights@.len(),
        weights@[r as int] > 0,
{
    WeightedIndex::new(weights.iter()).unwrap().sample(rng)
}

impl Randomizer for StdRng {
    fn gen_i32_between(&mut self, low: i32, high: i32) -> (r: i32) {
        std_rng_i32_between(self, low, high)
    }

    fn gen_i64_between(&mut self, low: i64, high: i64) -> (r: i64) {
        std_rng_i64_between(self, low, high)
    }

    fn gen_index(&mut self, len: usize) -> (r: usize) {
        std_rng_index(self, len)
    }

    fn gen_ratio(&mut self, numerator: u32, denominator: u32) -> (r: bool) {
        std_rng_ratio(self, numerator, denominator)
    }

    fn gen_weighted_index(&mut self, weights: &Vec<u128>) -> (r: usize) {
        std_rng_weighted_index(self, weights)
    }
}

/// Generators of real numbers and formatting by format specifications,
/// supplied from outside this crate. [`NoExtension`] supplies none.
pub trait Extension: ValueFormatter + Sized {
    /// Whether building from `builder` may fail with `e`. A member for the
    /// specification alone: it is never run.
    spec fn create_failure(builder: GeneratorBuilder, e: BuildError) -> bool;

    /// A generator of real numbers built from `builder`.
    fn create(builder: GeneratorBuilder) -> (r: Result<Self, BuildError>)
        ensures
            r matches Err(e) ==> Self::create_failure(builder, e),
    ;

    /// Whether the generator may produce null.
    fn is_nullable(&self) -> bool;

    /// A value produced without the chance of null.
    fn generate_without_null(&self, context: &DataValueMap) -> Result<DataValue, GenerateError>;
}

/// No generator of real numbers, and no format specification accepted.
#[derive(Debug)]
pub struct NoExtension;

impl ValueFormatter for NoExtension {
    open spec fn format_spec(value: DataValue, format: FormatText) -> Option<FormatText> {
        None
    }

    fn format(value: &DataValue, format: &str) -> (r: Option<String>)
        ensures
            r is None,
    {
        None
    }
}

impl Extension for NoExtension {
    open spec fn create_failure(builder: GeneratorBuilder, e: BuildError) -> bool {
        e == BuildError::InvalidType(builder.generator_type)
    }

    fn create(builder: GeneratorBuilder) -> (r: Result<Self, BuildError>)
        ensures
            r matches Err(BuildError::InvalidType(t)) && t == builder.generator_type,
    {
        Err(BuildError::InvalidType(builder.generator_type))
    }

    fn is_nullable(&self) -> (r: bool)
        ensures
            !r,
    {
        false
    }

    fn generate_without_null(&self, context: &DataValueMap) -> (r: Result<DataValue, GenerateError>)
        ensures
            r matches Err(GenerateError::FailGenerate(m)) && m@ == "no real numbers"@,
    {
        Err(GenerateError::FailGenerate(String::from_str("no real numbers")))
    }
}

/// Whether `e` reports that the template `script` failed to fill in `ctx`
/// with the formatter `F`.
pub open spec fn fill_failure<F: ValueFormatter>(e: GenerateError, script: Seq<char>, ctx: Map<Seq<char>, DataValue>) -> bool {
    &&& e matches GenerateError::FailEval(EvalError::FailApplyValueContext(m), s, c)
    &&& s@ == script
    &&& c@ == ctx
    &&& template_fill::<F>(script, ctx) == Err::<Seq<char>, Seq<char>>(m@)
}

/// The `i32` that the text of `v` stands for, if any.
pub open spec fn parsed_int_value(v: DataValue) -> Option<i32> {
    match parse_int_spec(value_text(v)) {
        Ok(n) => Some(n as i32),
        Err(_) => None,
    }
}

/// Whether `e` reports that the text of `v` is no `i32`.
pub open spec fn int_parse_failure(e: BuildError, v: DataValue) -> bool {
    &&& parse_int_spec(value_text(v)) is Err
    &&& e matches BuildError::FailParseValue(t, ty, m)
    &&& t@ == value_text(v)
    &&& ty@ == "Int"@
    &&& m@ == int_parse_error_text(parse_int_spec(value_text(v))->Err_0)
}

/// Whether `r` is the outcome of reading the text of `v` as an `i32`.
pub open spec fn int_parse_outcome(v: DataValue, r: Result<SbrdInt, BuildError>) -> bool {
    match r {
        Ok(n) => parsed_int_value(v) == Some(n),
        Err(e) => parsed_int_value(v) is None && int_parse_failure(e, v),
    }
}

/// The `i32` that the text of `v` stands for.
pub fn parse_int_value(v: DataValue) -> (r: Result<SbrdInt, BuildError>)
    ensures
        int_parse_outcome(v, r),
{
    let text = v.to_parse_string();
    match parse_int(text.as_str()) {
        Ok(n) => Ok(n),
        Err(e) => Err(BuildError::FailParseValue(text, String::from_str("Int"), e.message())),
    }
}

/// Whether both bounds of `b` stand for `i32`s.
pub open spec fn int_bound_parses(b: ValueBound<DataValue>) -> bool {
    &&& (b.lower() matches Some(s) ==> parsed_int_value(s) is Some)
    &&& (b.upper() matches Some(e) ==> parsed_int_value(e) is Some)
}

/// The range of the `i32`s that the bounds of `b` stand for.
pub open spec fn parsed_int_bound(b: ValueBound<DataValue>) -> ValueBound<SbrdInt> {
    ValueBound::spec_new(
        option_map(b.lower(), |v: DataValue| parsed_int_value(v)->0),
        b.includes_end(),
        option_map(b.upper(), |v: DataValue| parsed_int_value(v)->0),
    )
}

/// Whether `e` reports the first bound of `b` that is no `i32`.
pub open spec fn int_bound_failure(b: ValueBound<DataValue>, e: BuildError) -> bool {
    if b.lower() is Some && parsed_int_value(b.lower()->0) is None {
        int_parse_failure(e, b.lower()->0)
    } else {
        b.upper() is Some && int_parse_failure(e, b.upper()->0)
    }
}

/// The range of the `i32`s that the bounds of `b` stand for.
pub fn parse_int_bound(b: ValueBound<DataValue>) -> (r: Result<ValueBound<SbrdInt>, BuildError>)
    ensures
        match r {
            Ok(p) => int_bound_parses(b) && p == parsed_int_bound(b),
            Err(e) => !int_bound_parses(b) && int_bound_failure(b, e),
        },
{
    let r = b.try_convert_with(
        |v: DataValue| -> (r: Result<SbrdInt, BuildError>) ensures int_parse_outcome(v, r) { parse_int_value(v) },
    );
    proof {
        if let Ok(p) = r {
            ValueBound::<SbrdInt>::lemma_spec_new(
                option_map(b.lower(), |v: DataValue| parsed_int_value(v)->0),
                b.includes_end(),
                option_map(b.upper(), |v: DataValue| parsed_int_value(v)->0),
            );
            ValueBound::<SbrdInt>::lemma_eq(p, parsed_int_bound(b));
        }
    }
    r
}

} // verus!
