//! The kinds of generators a builder can describe.

use vstd::prelude::*;
use crate::text::{push_chars, string_of};

verus! {

/// Kind of a generator.
#[derive(Debug, PartialEq, Eq, Structural, Clone, Copy)]
pub enum GeneratorType {
    /// Joins values chosen at random into a string.
    DuplicatePermutation,
    /// Fills a format with the values generated so far.
    Format,
    /// Real number from a normal distribution.
    DistNormal,
    /// Integer result of a script.
    EvalInt,
    /// Real-number result of a script.
    EvalReal,
    /// Boolean result of a script.
    EvalBool,
    /// String result of a script.
    EvalString,
    /// Integer in a range.
    Int,
    /// Real number in a range.
    Real,
    /// Boolean.
    Bool,
    /// Date and time in a range.
    DateTime,
    /// Date in a range.
    Date,
    /// Time of day in a range.
    Time,
    /// Always null.
    AlwaysNull,
    /// Sequential integer identifiers.
    IncrementId,
    /// The first child whose condition holds.
    CaseWhen,
    /// A child chosen at random by weight.
    RandomChild,
    /// Integer chosen from a list.
    SelectInt,
    /// Real number chosen from a list.
    SelectReal,
    /// String chosen from a list.
    SelectString,
    /// Integer at the index a script gives.
    GetIntValueAt,
    /// Real number at the index a script gives.
    GetRealValueAt,
    /// String at the index a script gives.
    GetStringValueAt,
    /// Random index into a list.
    GetValueIndex,
    /// A value or a child chosen at random.
    Randomize,
}

/// The kebab-case name of a kind, as schemas write it.
pub open spec fn kind_name(t: GeneratorType) -> Seq<char> {
    match t {
        GeneratorType::DuplicatePermutation => "duplicate-permutation"@,
        GeneratorType::Format => "format"@,
        GeneratorType::DistNormal => "dist-normal"@,
        GeneratorType::EvalInt => "eval-int"@,
        GeneratorType::EvalReal => "eval-real"@,
        GeneratorType::EvalBool => "eval-bool"@,
        GeneratorType::EvalString => "eval-string"@,
        GeneratorType::Int => "int"@,
        GeneratorType::Real => "real"@,
        GeneratorType::Bool => "bool"@,
        GeneratorType::DateTime => "date-time"@,
        GeneratorType::Date => "date"@,
        GeneratorType::Time => "time"@,
        GeneratorType::AlwaysNull => "always-null"@,
        GeneratorType::IncrementId => "increment-id"@,
        GeneratorType::CaseWhen => "case-when"@,
        GeneratorType::RandomChild => "random-child"@,
        GeneratorType::SelectInt => "select-int"@,
        GeneratorType::SelectReal => "select-real"@,
        GeneratorType::SelectString => "select-string"@,
        GeneratorType::GetIntValueAt => "get-int-value-at"@,
        GeneratorType::GetRealValueAt => "get-real-value-at"@,
        GeneratorType::GetStringValueAt => "get-string-value-at"@,
        GeneratorType::GetValueIndex => "get-value-index"@,
        GeneratorType::Randomize => "randomize"@,
    }
}

/// Whether generators of this kind produce real numbers.
pub open spec fn produces_real(t: GeneratorType) -> bool {
    ||| t == GeneratorType::DistNormal
    ||| t == GeneratorType::EvalReal
    ||| t == GeneratorType::Real
    ||| t == GeneratorType::SelectReal
    ||| t == GeneratorType::GetRealValueAt
}

impl GeneratorType {
    /// The kind as a YAML document holding its name, the text kinds are
    /// shown by: `---`, a line break, the name and a line break.
    pub fn to_display_string(&self) -> (r: String)
        ensures
            r@ == "---\n"@ + kind_name(*self) + "\n"@,
    {
        let mut out: Vec<char> = Vec::new();
        push_chars(&mut out, "---\n");
        push_chars(&mut out, self.name());
        push_chars(&mut out, "\n");
        string_of(out.as_slice())
    }

    /// The kebab-case name of this kind, as schemas write it.
    pub fn name(&self) -> (r: &'static str)
        ensures
            r@ == kind_name(*self),
    {
        match self {
            GeneratorType::DuplicatePermutation => "duplicate-permutation",
            GeneratorType::Format => "format",
            GeneratorType::DistNormal => "dist-normal",
            GeneratorType::EvalInt => "eval-int",
            GeneratorType::EvalReal => "eval-real",
            GeneratorType::EvalBool => "eval-bool",
            GeneratorType::EvalString => "eval-string",
            GeneratorType::Int => "int",
            GeneratorType::Real => "real",
            GeneratorType::Bool => "bool",
            GeneratorType::DateTime => "date-time",
            GeneratorType::Date => "date",
            GeneratorType::Time => "time",
            GeneratorType::AlwaysNull => "always-null",
            GeneratorType::IncrementId => "increment-id",
            GeneratorType::CaseWhen => "case-when",
            GeneratorType::RandomChild => "random-child",
            GeneratorType::SelectInt => "select-int",
            GeneratorType::SelectReal => "select-real",
            GeneratorType::SelectString => "select-string",
            GeneratorType::GetIntValueAt => "get-int-value-at",
            GeneratorType::GetRealValueAt => "get-real-value-at",
            GeneratorType::GetStringValueAt => "get-string-value-at",
            GeneratorType::GetValueIndex => "get-value-index",
            GeneratorType::Randomize => "randomize",
        }
    }

    /// Whether generators of this kind produce real numbers.
    pub fn is_real_number(&self) -> (r: bool)
        ensures
            r == produces_real(*self),
    {
        match self {
            GeneratorType::DistNormal | GeneratorType::EvalReal | GeneratorType::Real
            | GeneratorType::SelectReal | GeneratorType::GetRealValueAt => true,
            _ => false,
        }
    }
}

} // verus!
