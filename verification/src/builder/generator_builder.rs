//! Builders that describe a generator by its kind and options.

use vstd::prelude::*;
use crate::builder::{Nullable, ValueBound, ValueStep};
use crate::builder::bound::option_map;
use crate::context::DataValueMap;
use crate::generator_type::GeneratorType;
use crate::generator::calendar::{CalendarUnit, calendar_bound, calendar_bound_texts};
use crate::value::{DataValue, SbrdInt, SbrdString};

verus! {

/// Weight of a child in a random choice.
pub type Weight = u8;

/// A builder with the key that names what its generator produces.
#[derive(Debug)]
pub struct ParentGeneratorBuilder {
    /// The key of the generated values.
    pub key: String,
    /// The builder of the generator.
    pub builder: GeneratorBuilder,
}

/// A builder used as a child of another generator, with a condition or a
/// weight for choosing it.
#[derive(Debug)]
pub struct ChildGeneratorBuilder {
    /// Script that must evaluate to true for this child to be used.
    pub condition: Option<String>,
    /// Weight of this child in a random choice; 1 when absent.
    pub weight: Option<Weight>,
    /// The builder of the generator.
    pub builder: GeneratorBuilder,
}

/// A description of a generator: its kind and its options.
#[derive(Debug)]
pub struct GeneratorBuilder {
    /// Kind of the generator.
    pub generator_type: GeneratorType,
    /// Whether the generator may produce null.
    pub nullable: Nullable,
    /// Range of the values, or of the count of values joined.
    pub range: Option<ValueBound<DataValue>>,
    /// First value and step of sequential values.
    pub increment: Option<ValueStep<DataValue>>,
    /// Child generators.
    pub children: Option<Vec<ChildGeneratorBuilder>>,
    /// Characters to choose from, each a value.
    pub chars: Option<String>,
    /// Values to choose from.
    pub values: Option<Vec<DataValue>>,
    /// Path of a file whose lines are values to choose from.
    pub filepath: Option<String>,
    /// The lines of the file at `filepath`, or why it could not be read;
    /// whoever reads the file sets it.
    pub file_lines: Option<Result<Vec<String>, String>>,
    /// Text put between joined values.
    pub separator: Option<String>,
    /// Format of the generated text.
    pub format: Option<String>,
    /// Script that computes the value.
    pub script: Option<String>,
    /// Parameters of a distribution.
    pub parameters: Option<DataValueMap>,
}

impl ParentGeneratorBuilder {
    /// The key and the builder.
    pub fn split_key(self) -> (r: (String, GeneratorBuilder))
        ensures
            r.0 == self.key,
            r.1 == self.builder,
    {
        let ParentGeneratorBuilder { key, builder } = self;
        (key, builder)
    }
}

impl ChildGeneratorBuilder {
    /// A child without condition and weight.
    fn new(builder: GeneratorBuilder) -> (r: Self)
        ensures
            r.condition is None,
            r.weight is None,
            r.builder == builder,
    {
        ChildGeneratorBuilder { condition: None, weight: None, builder }
    }

    /// This child, used only when `condition` evaluates to true.
    pub fn condition(self, condition: String) -> (r: Self)
        ensures
            r.condition == Some(condition),
            r.weight == self.weight,
            r.builder == self.builder,
    {
        ChildGeneratorBuilder { condition: Some(condition), ..self }
    }

    /// This child with weight `weight`.
    pub fn weight(self, weight: Weight) -> (r: Self)
        ensures
            r.condition == self.condition,
            r.weight == Some(weight),
            r.builder == self.builder,
    {
        ChildGeneratorBuilder { weight: Some(weight), ..self }
    }
}

/// Whether `b` is a builder of kind `t` with no option set and null not allowed.
pub open spec fn is_bare(b: GeneratorBuilder, t: GeneratorType) -> bool {
    &&& b.generator_type == t
    &&& !b.nullable.allows_null()
    &&& b.range is None
    &&& b.increment is None
    &&& b.children is None
    &&& b.chars is None
    &&& b.values is None
    &&& b.filepath is None
    &&& b.file_lines is None
    &&& b.separator is None
    &&& b.format is None
    &&& b.script is None
    &&& b.parameters is None
}

/// Whether `b` has kind `t`, never produces null, and sets no option but
/// those its constructor documents: increment, file lines and parameters are
/// unset.
pub open spec fn fresh_of(b: GeneratorBuilder, t: GeneratorType) -> bool {
    &&& b.generator_type == t
    &&& !b.nullable.allows_null()
    &&& b.increment is None
    &&& b.file_lines is None
    &&& b.parameters is None
}

/// Whether `b` has no choice options.
pub open spec fn no_choices(b: GeneratorBuilder) -> bool {
    &&& b.children is None
    &&& b.chars is None
    &&& b.values is None
    &&& b.filepath is None
}

/// Whether `b` has no text options.
pub open spec fn no_texts(b: GeneratorBuilder) -> bool {
    &&& b.separator is None
    &&& b.format is None
    &&& b.script is None
}

/// An integer range as a range of values.
pub open spec fn int_bound_values(range: ValueBound<SbrdInt>) -> ValueBound<DataValue> {
    ValueBound::spec_new(
        option_map(range.lower(), |v: SbrdInt| DataValue::Int(v)),
        range.includes_end(),
        option_map(range.upper(), |v: SbrdInt| DataValue::Int(v)),
    )
}

/// Strings as string values.
pub open spec fn string_values(values: Seq<String>) -> Seq<DataValue> {
    values.map_values(|s: String| DataValue::String(s))
}

/// Integers as integer values.
pub open spec fn int_values(values: Seq<SbrdInt>) -> Seq<DataValue> {
    values.map_values(|v: SbrdInt| DataValue::Int(v))
}

/// Whether `b` lists exactly the given choices, or an empty list of values
/// when none is given.
pub open spec fn lists_choices(
    b: GeneratorBuilder,
    chars: Option<String>,
    values: Option<Seq<DataValue>>,
    filepath: Option<String>,
) -> bool {
    if chars is None && values is None && filepath is None {
        &&& b.chars is None
        &&& b.values matches Some(v) && v@.len() == 0
        &&& b.filepath is None
    } else {
        &&& b.chars == chars
        &&& (match values {
            Some(v) => b.values matches Some(bv) && bv@ == v,
            None => b.values is None,
        })
        &&& b.filepath == filepath
    }
}

/// Converts integer bounds to integer values.
fn int_bound_to_values(range: ValueBound<SbrdInt>) -> (r: ValueBound<DataValue>)
    ensures
        r == int_bound_values(range),
{
    let r = range.convert_with(|v: SbrdInt| -> (d: DataValue) ensures d == DataValue::Int(v) { DataValue::Int(v) });
    proof {
        ValueBound::<DataValue>::lemma_spec_new(
            option_map(range.lower(), |v: SbrdInt| DataValue::Int(v)),
            range.includes_end(),
            option_map(range.upper(), |v: SbrdInt| DataValue::Int(v)),
        );
        ValueBound::<DataValue>::lemma_eq(r, int_bound_values(range));
    }
    r
}

/// Strings as string values.
fn strings_to_values(values: &Vec<String>) -> (r: Vec<DataValue>)
    ensures
        r@ == string_values(values@),
{
    let mut r: Vec<DataValue> = Vec::new();
    let mut i: usize = 0;
    while i < values.len()
        invariant
            i <= values@.len(),
            r@ == string_values(values@.take(i as int)),
        decreases values@.len() - i,
    {
        r.push(DataValue::String(values[i].clone()));
        i = i + 1;
        assert(r@ =~= string_values(values@.take(i as int)));
    }
    assert(values@.take(i as int) =~= values@);
    r
}

/// Integers as integer values.
fn ints_to_values(values: &Vec<SbrdInt>) -> (r: Vec<DataValue>)
    ensures
        r@ == int_values(values@),
{
    let mut r: Vec<DataValue> = Vec::new();
    let mut i: usize = 0;
    while i < values.len()
        invariant
            i <= values@.len(),
            r@ == int_values(values@.take(i as int)),
        decreases values@.len() - i,
    {
        r.push(DataValue::Int(values[i]));
        i = i + 1;
        assert(r@ =~= int_values(values@.take(i as int)));
    }
    assert(values@.take(i as int) =~= values@);
    r
}

impl GeneratorBuilder {
    /// A builder of kind `generator_type` without options.
    fn new(generator_type: GeneratorType) -> (r: Self)
        ensures
            is_bare(r, generator_type),
    {
        GeneratorBuilder {
            generator_type,
            nullable: Nullable::new_required(),
            range: None,
            increment: None,
            children: None,
            chars: None,
            values: None,
            filepath: None,
            file_lines: None,
            separator: None,
            format: None,
            script: None,
            parameters: None,
        }
    }

    /// This builder, allowing null.
    pub fn nullable(self) -> (r: Self)
        ensures
            r.nullable.allows_null(),
            r == (GeneratorBuilder { nullable: r.nullable, ..self }),
    {
        GeneratorBuilder { nullable: Nullable::new_nullable(), ..self }
    }

    /// This builder with the lines of its file, or why the file could not be read.
    pub fn file_lines(self, lines: Result<Vec<String>, String>) -> (r: Self)
        ensures
            r == (GeneratorBuilder { file_lines: Some(lines), ..self }),
    {
        GeneratorBuilder { file_lines: Some(lines), ..self }
    }

    /// This builder as a parent with key `key`.
    pub fn into_parent(self, key: String) -> (r: ParentGeneratorBuilder)
        ensures
            r.key == key,
            r.builder == self,
    {
        ParentGeneratorBuilder { key, builder: self }
    }

    /// This builder as a child without condition and weight.
    pub fn into_child(self) -> (r: ChildGeneratorBuilder)
        ensures
            r.condition is None,
            r.weight is None,
            r.builder == self,
    {
        ChildGeneratorBuilder::new(self)
    }

    fn range(self, range: ValueBound<DataValue>) -> (r: Self)
        ensures
            r == (GeneratorBuilder { range: Some(range), ..self }),
    {
        GeneratorBuilder { range: Some(range), ..self }
    }

    fn increment(self, increment: ValueStep<DataValue>) -> (r: Self)
        ensures
            r == (GeneratorBuilder { increment: Some(increment), ..self }),
    {
        GeneratorBuilder { increment: Some(increment), ..self }
    }

    fn children(self, children: Vec<ChildGeneratorBuilder>) -> (r: Self)
        ensures
            r == (GeneratorBuilder { children: Some(children), ..self }),
    {
        GeneratorBuilder { children: Some(children), ..self }
    }

    fn chars(self, chars: String) -> (r: Self)
        ensures
            r == (GeneratorBuilder { chars: Some(chars), ..self }),
    {
        GeneratorBuilder { chars: Some(chars), ..self }
    }

    fn values(self, values: Vec<DataValue>) -> (r: Self)
        ensures
            r == (GeneratorBuilder { values: Some(values), ..self }),
    {
        GeneratorBuilder { values: Some(values), ..self }
    }

    fn filepath(self, filepath: String) -> (r: Self)
        ensures
            r == (GeneratorBuilder { filepath: Some(filepath), ..self }),
    {
        GeneratorBuilder { filepath: Some(filepath), ..self }
    }

    fn separator(self, separator: String) -> (r: Self)
        ensures
            r == (GeneratorBuilder { separator: Some(separator), ..self }),
    {
        GeneratorBuilder { separator: Some(separator), ..self }
    }

    fn format(self, format: String) -> (r: Self)
        ensures
            r == (GeneratorBuilder { format: Some(format), ..self }),
    {
        GeneratorBuilder { format: Some(format), ..self }
    }

    fn script(self, script: String) -> (r: Self)
        ensures
            r == (GeneratorBuilder { script: Some(script), ..self }),
    {
        GeneratorBuilder { script: Some(script), ..self }
    }

    /// This builder with the given choices, or an empty list of values when
    /// none is given.
    fn select_list(self, chars: Option<String>, values: Option<Vec<DataValue>>, filepath: Option<String>) -> (r: Self)
        requires
            self.chars is None,
            self.values is None,
            self.filepath is None,
        ensures
            lists_choices(r, chars, option_map(values, |v: Vec<DataValue>| v@), filepath),
            r == (GeneratorBuilder { chars: r.chars, values: r.values, filepath: r.filepath, ..self }),
    {
        if chars.is_none() && values.is_none() && filepath.is_none() {
            return self.values(Vec::new());
        }
        let mut this = self;
        if let Some(c) = chars {
            this = this.chars(c);
        }
        if let Some(v) = values {
            this = this.values(v);
        }
        if let Some(f) = filepath {
            this = this.filepath(f);
        }
        this
    }

    /// Builder of strings joined from values chosen at random, a count in
    /// `range` of them, with `separator` between.
    fn new_duplicate_permutation(range: Option<ValueBound<SbrdInt>>, separator: String) -> (r: Self)
        ensures
            fresh_of(r, GeneratorType::DuplicatePermutation),
            no_choices(r),
            r.range == option_map(range, |b: ValueBound<SbrdInt>| int_bound_values(b)),
            r.separator == Some(separator),
            r.format is None && r.script is None,
    {
        let mut this = Self::new(GeneratorType::DuplicatePermutation).separator(separator);
        if let Some(b) = range {
            this = this.range(int_bound_to_values(b));
        }
        this
    }
}

impl GeneratorBuilder {
    /// Builder of strings joined from values of the children chosen at
    /// random, a count in `range` of them (1 to 15 when absent), with
    /// `separator` between.
    pub fn new_duplicate_permutation_with_children(
        range: Option<ValueBound<SbrdInt>>,
        separator: String,
        children: Vec<ChildGeneratorBuilder>,
    ) -> (r: Self)
        ensures
            fresh_of(r, GeneratorType::DuplicatePermutation),
            r.range == option_map(range, |b: ValueBound<SbrdInt>| int_bound_values(b)),
            r.separator == Some(separator),
            r.children == Some(children),
            r.chars is None && r.values is None && r.filepath is None,
            r.format is None && r.script is None,
    {
        Self::new_duplicate_permutation(range, separator).children(children)
    }

    /// Builder of strings joined from the given choices taken at random, a
    /// count in `range` of them (1 to 15 when absent), with `separator` between.
    pub fn new_duplicate_permutation_with_select_list(
        range: Option<ValueBound<SbrdInt>>,
        separator: String,
        chars: Option<String>,
        values: Option<Vec<String>>,
        filepath: Option<String>,
    ) -> (r: Self)
        ensures
            fresh_of(r, GeneratorType::DuplicatePermutation),
            r.range == option_map(range, |b: ValueBound<SbrdInt>| int_bound_values(b)),
            r.separator == Some(separator),
            r.children is None,
            lists_choices(r, chars, option_map(values, |v: Vec<String>| string_values(v@)), filepath),
            r.format is None && r.script is None,
    {
        let values = match values {
            Some(v) => Some(strings_to_values(&v)),
            None => None,
        };
        Self::new_duplicate_permutation(range, separator).select_list(chars, values, filepath)
    }

    /// Builder of strings that fill `format` with the values generated so far.
    pub fn new_format(format: String) -> (r: Self)
        ensures
            fresh_of(r, GeneratorType::Format),
            no_choices(r),
            r.range is None,
            r.format == Some(format),
            r.separator is None && r.script is None,
    {
        Self::new(GeneratorType::Format).format(format)
    }

    /// Builder of integers that `script` evaluates to.
    pub fn new_eval_int(script: String) -> (r: Self)
        ensures
            fresh_of(r, GeneratorType::EvalInt),
            no_choices(r),
            r.range is None,
            r.script == Some(script),
            r.separator is None && r.format is None,
    {
        Self::new(GeneratorType::EvalInt).script(script)
    }

    /// Builder of real numbers that `script` evaluates to.
    pub fn new_eval_real(script: String) -> (r: Self)
        ensures
            fresh_of(r, GeneratorType::EvalReal),
            no_choices(r),
            r.range is None,
            r.script == Some(script),
            r.separator is None && r.format is None,
    {
        Self::new(GeneratorType::EvalReal).script(script)
    }

    /// Builder of booleans that `script` evaluates to.
    pub fn new_eval_bool(script: String) -> (r: Self)
        ensures
            fresh_of(r, GeneratorType::EvalBool),
            no_choices(r),
            r.range is None,
            r.script == Some(script),
            r.separator is None && r.format is None,
    {
        Self::new(GeneratorType::EvalBool).script(script)
    }

    /// Builder of strings that `script` evaluates to.
    pub fn new_eval_string(script: String) -> (r: Self)
        ensures
            fresh_of(r, GeneratorType::EvalString),
            no_choices(r),
            r.range is None,
            r.script == Some(script),
            r.separator is None && r.format is None,
    {
        Self::new(GeneratorType::EvalString).script(script)
    }

    /// Builder of integers in `range` (the range of `i16` when absent).
    pub fn new_int(range: Option<ValueBound<SbrdInt>>) -> (r: Self)
        ensures
            fresh_of(r, GeneratorType::Int),
            no_choices(r),
            no_texts(r),
            r.range == option_map(range, |b: ValueBound<SbrdInt>| int_bound_values(b)),
    {
        let mut this = Self::new(GeneratorType::Int);
        if let Some(b) = range {
            this = this.range(int_bound_to_values(b));
        }
        this
    }

    /// Builder of booleans.
    pub fn new_bool() -> (r: Self)
        ensures
            fresh_of(r, GeneratorType::Bool),
            no_choices(r),
            no_texts(r),
            r.range is None,
    {
        Self::new(GeneratorType::Bool)
    }

    /// Builder of nulls.
    pub fn new_always_null() -> (r: Self)
        ensures
            fresh_of(r, GeneratorType::AlwaysNull),
            no_choices(r),
            no_texts(r),
            r.range is None,
    {
        Self::new(GeneratorType::AlwaysNull)
    }

    /// Builder of date-times in `range`, written by `format`. A bound is a
    /// Unix timestamp in seconds and is kept as its text in the default
    /// date-time format.
    pub fn new_date_time(range: Option<ValueBound<i64>>, format: Option<String>) -> (r: Self)
        ensures
            fresh_of(r, GeneratorType::DateTime),
            no_choices(r),
            r.range is Some <==> range is Some,
            range matches Some(g) ==> calendar_bound_texts(CalendarUnit::DateTime, g, r.range->0),
            r.format == format,
            r.separator is None && r.script is None,
    {
        let mut this = Self::new(GeneratorType::DateTime);
        if let Some(b) = range {
            this = this.range(calendar_bound(CalendarUnit::DateTime, b));
        }
        if let Some(f) = format {
            this = this.format(f);
        }
        this
    }

    /// Builder of dates in `range`, written by `format`. A bound is a day
    /// number, 0001-01-01 being day 1, and is kept as its text in the
    /// default date format.
    pub fn new_date(range: Option<ValueBound<i64>>, format: Option<String>) -> (r: Self)
        ensures
            fresh_of(r, GeneratorType::Date),
            no_choices(r),
            r.range is Some <==> range is Some,
            range matches Some(g) ==> calendar_bound_texts(CalendarUnit::Date, g, r.range->0),
            r.format == format,
            r.separator is None && r.script is None,
    {
        let mut this = Self::new(GeneratorType::Date);
        if let Some(b) = range {
            this = this.range(calendar_bound(CalendarUnit::Date, b));
        }
        if let Some(f) = format {
            this = this.format(f);
        }
        this
    }

    /// Builder of times of day in `range`, written by `format`. A bound is
    /// a count of seconds from midnight and is kept as its text in the
    /// default time format.
    pub fn new_time(range: Option<ValueBound<i64>>, format: Option<String>) -> (r: Self)
        ensures
            fresh_of(r, GeneratorType::Time),
            no_choices(r),
            r.range is Some <==> range is Some,
            range matches Some(g) ==> calendar_bound_texts(CalendarUnit::Time, g, r.range->0),
            r.format == format,
            r.separator is None && r.script is None,
    {
        let mut this = Self::new(GeneratorType::Time);
        if let Some(b) = range {
            this = this.range(calendar_bound(CalendarUnit::Time, b));
        }
        if let Some(f) = format {
            this = this.format(f);
        }
        this
    }

    /// Builder of sequential identifiers from the first value of
    /// `increment` by its step (1 by 1 when absent).
    pub fn new_increment_id(increment: Option<ValueStep<SbrdInt>>) -> (r: Self)
        ensures
            r.generator_type == GeneratorType::IncrementId,
            !r.nullable.allows_null(),
            r.file_lines is None && r.parameters is None,
            no_choices(r),
            no_texts(r),
            r.range is None,
            r.increment is Some <==> increment is Some,
            r.increment matches Some(s) ==> s.first() == DataValue::Int(increment->0.first()) && s.stride()
                == option_map(increment->0.stride(), |v: SbrdInt| DataValue::Int(v)),
    {
        let mut this = Self::new(GeneratorType::IncrementId);
        if let Some(s) = increment {
            this = this.increment(
                s.convert_with(|v: SbrdInt| -> (d: DataValue) ensures d == DataValue::Int(v) { DataValue::Int(v) }),
            );
        }
        this
    }

    /// Builder that uses the first child whose condition holds.
    pub fn new_case_when(children: Vec<ChildGeneratorBuilder>) -> (r: Self)
        ensures
            fresh_of(r, GeneratorType::CaseWhen),
            r.children == Some(children),
            r.chars is None && r.values is None && r.filepath is None,
            no_texts(r),
            r.range is None,
    {
        Self::new(GeneratorType::CaseWhen).children(children)
    }

    /// Builder that uses a child chosen at random by weight.
    pub fn new_random_child(children: Vec<ChildGeneratorBuilder>) -> (r: Self)
        ensures
            fresh_of(r, GeneratorType::RandomChild),
            r.children == Some(children),
            r.chars is None && r.values is None && r.filepath is None,
            no_texts(r),
            r.range is None,
    {
        Self::new(GeneratorType::RandomChild).children(children)
    }

    /// Builder of integers chosen from the given choices.
    pub fn new_select_int(chars: Option<String>, values: Option<Vec<SbrdInt>>, filepath: Option<String>) -> (r: Self)
        ensures
            fresh_of(r, GeneratorType::SelectInt),
            r.children is None,
            lists_choices(r, chars, option_map(values, |v: Vec<SbrdInt>| int_values(v@)), filepath),
            no_texts(r),
            r.range is None,
    {
        let values = match values {
            Some(v) => Some(ints_to_values(&v)),
            None => None,
        };
        Self::new(GeneratorType::SelectInt).select_list(chars, values, filepath)
    }

    /// Builder of strings chosen from the given choices.
    pub fn new_select_string(chars: Option<String>, values: Option<Vec<SbrdString>>, filepath: Option<String>) -> (r: Self)
        ensures
            fresh_of(r, GeneratorType::SelectString),
            r.children is None,
            lists_choices(r, chars, option_map(values, |v: Vec<String>| string_values(v@)), filepath),
            no_texts(r),
            r.range is None,
    {
        let values = match values {
            Some(v) => Some(strings_to_values(&v)),
            None => None,
        };
        Self::new(GeneratorType::SelectString).select_list(chars, values, filepath)
    }

    /// Builder of values or children chosen at random.
    pub fn new_randomize_with_children(children: Vec<ChildGeneratorBuilder>) -> (r: Self)
        ensures
            fresh_of(r, GeneratorType::Randomize),
            r.children == Some(children),
            r.chars is None && r.values is None && r.filepath is None,
            no_texts(r),
            r.range is None,
    {
        Self::new(GeneratorType::Randomize).children(children)
    }

    /// Builder of strings chosen at random from the given choices.
    pub fn new_randomize_with_select_list(chars: Option<String>, values: Option<Vec<String>>, filepath: Option<String>) -> (r: Self)
        ensures
            fresh_of(r, GeneratorType::Randomize),
            r.children is None,
            lists_choices(r, chars, option_map(values, |v: Vec<String>| string_values(v@)), filepath),
            no_texts(r),
            r.range is None,
    {
        let values = match values {
            Some(v) => Some(strings_to_values(&v)),
            None => None,
        };
        Self::new(GeneratorType::Randomize).select_list(chars, values, filepath)
    }
}

impl GeneratorBuilder {
    /// Builder of integers at the index that `script` gives, among the characters of `chars`.
    pub fn new_get_int_value_at_from_chars(script: String, chars: String) -> (r: Self)
        ensures
            fresh_of(r, GeneratorType::GetIntValueAt),
            r.children is None && r.values is None && r.filepath is None,
            r.chars == Some(chars),
            r.script == Some(script),
            r.separator is None && r.format is None,
            r.range is None,
    {
        Self::new(GeneratorType::GetIntValueAt).script(script).chars(chars)
    }

    /// Builder of integers at the index that `script` gives, among the lines of the file.
    pub fn new_get_int_value_at_from_file(script: String, filepath: String) -> (r: Self)
        ensures
            fresh_of(r, GeneratorType::GetIntValueAt),
            r.children is None && r.values is None && r.chars is None,
            r.filepath == Some(filepath),
            r.script == Some(script),
            r.separator is None && r.format is None,
            r.range is None,
    {
        Self::new(GeneratorType::GetIntValueAt).script(script).filepath(filepath)
    }

    /// Builder of integers at the index that `script` gives, among `values`.
    pub fn new_get_int_value_at_from_values(script: String, values: Vec<SbrdInt>) -> (r: Self)
        ensures
            fresh_of(r, GeneratorType::GetIntValueAt),
            r.children is None && r.chars is None && r.filepath is None,
            r.values matches Some(v) && v@ == int_values(values@),
            r.script == Some(script),
            r.separator is None && r.format is None,
            r.range is None,
    {
        let values = ints_to_values(&values);
        Self::new(GeneratorType::GetIntValueAt).script(script).values(values)
    }

    /// Builder of real numbers at the index that `script` gives, among the characters of `chars`.
    pub fn new_get_real_value_at_from_chars(script: String, chars: String) -> (r: Self)
        ensures
            fresh_of(r, GeneratorType::GetRealValueAt),
            r.children is None && r.values is None && r.filepath is None,
            r.chars == Some(chars),
            r.script == Some(script),
            r.separator is None && r.format is None,
            r.range is None,
    {
        Self::new(GeneratorType::GetRealValueAt).script(script).chars(chars)
    }

    /// Builder of real numbers at the index that `script` gives, among the lines of the file.
    pub fn new_get_real_value_at_from_file(script: String, filepath: String) -> (r: Self)
        ensures
            fresh_of(r, GeneratorType::GetRealValueAt),
            r.children is None && r.values is None && r.chars is None,
            r.filepath == Some(filepath),
            r.script == Some(script),
            r.separator is None && r.format is None,
            r.range is None,
    {
        Self::new(GeneratorType::GetRealValueAt).script(script).filepath(filepath)
    }

    /// Builder of strings at the index that `script` gives, among the characters of `chars`.
    pub fn new_get_string_value_at_from_chars(script: String, chars: String) -> (r: Self)
        ensures
            fresh_of(r, GeneratorType::GetStringValueAt),
            r.children is None && r.values is None && r.filepath is None,
            r.chars == Some(chars),
            r.script == Some(script),
            r.separator is None && r.format is None,
            r.range is None,
    {
        Self::new(GeneratorType::GetStringValueAt).script(script).chars(chars)
    }

    /// Builder of strings at the index that `script` gives, among the lines of the file.
    pub fn new_get_string_value_at_from_file(script: String, filepath: String) -> (r: Self)
        ensures
            fresh_of(r, GeneratorType::GetStringValueAt),
            r.children is None && r.values is None && r.chars is None,
            r.filepath == Some(filepath),
            r.script == Some(script),
            r.separator is None && r.format is None,
            r.range is None,
    {
        Self::new(GeneratorType::GetStringValueAt).script(script).filepath(filepath)
    }

    /// Builder of strings at the index that `script` gives, among `values`.
    pub fn new_get_string_value_at_from_values(script: String, values: Vec<SbrdString>) -> (r: Self)
        ensures
            fresh_of(r, GeneratorType::GetStringValueAt),
            r.children is None && r.chars is None && r.filepath is None,
            r.values matches Some(v) && v@ == string_values(values@),
            r.script == Some(script),
            r.separator is None && r.format is None,
            r.range is None,
    {
        let values = strings_to_values(&values);
        Self::new(GeneratorType::GetStringValueAt).script(script).values(values)
    }

    /// Builder of random indexes into the characters of `chars`.
    pub fn new_get_value_index_from_chars(chars: String) -> (r: Self)
        ensures
            fresh_of(r, GeneratorType::GetValueIndex),
            r.children is None && r.values is None && r.filepath is None,
            r.chars == Some(chars),
            no_texts(r),
            r.range is None,
    {
        Self::new(GeneratorType::GetValueIndex).chars(chars)
    }

    /// Builder of random indexes into `values`.
    pub fn new_get_value_index_from_values(values: Vec<DataValue>) -> (r: Self)
        ensures
            fresh_of(r, GeneratorType::GetValueIndex),
            r.children is None && r.chars is None && r.filepath is None,
            r.values == Some(values),
            no_texts(r),
            r.range is None,
    {
        Self::new(GeneratorType::GetValueIndex).values(values)
    }

    /// Builder of random indexes into the lines of the file.
    pub fn new_get_value_index_from_file(filepath: String) -> (r: Self)
        ensures
            fresh_of(r, GeneratorType::GetValueIndex),
            r.children is None && r.chars is None && r.values is None,
            r.filepath == Some(filepath),
            no_texts(r),
            r.range is None,
    {
        Self::new(GeneratorType::GetValueIndex).filepath(filepath)
    }
}

} // verus!
