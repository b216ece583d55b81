//! Generators of strings filled from formats, and evaluators of scripts.

use vstd::prelude::*;
use crate::builder::{GeneratorBuilder, Nullable};
use crate::context::DataValueMap;
use crate::error::{BuildError, GenerateError};
use crate::eval::{
    EvalError, Evaluator, ValueFormatter, bool_eval_exact, int_eval_exact, string_eval_exact, template_fill,
};
use crate::generator::fill_failure;
use crate::generator_type::GeneratorType;
use crate::value::{DataValue, SbrdBool, SbrdInt, SbrdString};

verus! {

/// Generator of strings that fill a format with the values generated so far.
#[derive(Debug)]
pub struct FormatGenerator {
    nullable: Nullable,
    format: String,
}

/// Whether `r` is what building the generator that `builder` describes gives.
pub open spec fn format_create_outcome(builder: GeneratorBuilder, r: Result<FormatGenerator, BuildError>) -> bool {
    &&& builder.generator_type != GeneratorType::Format ==> r == Err::<FormatGenerator, BuildError>(
                BuildError::InvalidType(builder.generator_type)
    )
    &&& builder.generator_type == GeneratorType::Format ==> match builder.format {
                None => r matches Err(e) && e matches BuildError::NotExistValueOf(n) && n@ == "format"@,
                Some(f) => r matches Ok(g) && g.format_of() == f && g.nullable_of() == builder.nullable
    }
}

impl FormatGenerator {
    /// Whether this generator may produce null.
    pub closed spec fn nullable_of(&self) -> Nullable {
        self.nullable
    }

    /// The format.
    pub closed spec fn format_of(&self) -> String {
        self.format
    }

    /// The generator `builder` describes; it needs a format.
    pub fn create(builder: GeneratorBuilder) -> (r: Result<Self, BuildError>)
        ensures
            format_create_outcome(builder, r),
    {
        if builder.generator_type != GeneratorType::Format {
            return Err(BuildError::InvalidType(builder.generator_type));
        }
        match builder.format {
            None => Err(BuildError::NotExistValueOf(String::from_str("format"))),
            Some(format) => Ok(FormatGenerator { nullable: builder.nullable, format }),
        }
    }

    /// Whether this generator may produce null.
    pub fn is_nullable(&self) -> (r: bool)
        ensures
            r == self.nullable_of().allows_null(),
    {
        self.nullable.is_nullable()
    }

    /// The format filled in `context`.
    pub fn generate_without_null<F: ValueFormatter>(&self, context: &DataValueMap) -> (r: Result<DataValue, GenerateError>)
        ensures
            format_generator_outcome::<F>(*self, context@, r),
    {
        match Evaluator::new(context).format_script::<F>(self.format.as_str()) {
            Ok(s) => Ok(DataValue::String(s)),
            Err(e) => Err(GenerateError::FailEval(e, self.format.clone(), context.duplicate())),
        }
    }
}

/// Whether `r` may come from the format generator `g` in `ctx`, with the
/// formatter `F`: the filled format, or the failure to fill it.
pub open spec fn format_generator_outcome<F: ValueFormatter>(
    g: FormatGenerator,
    ctx: Map<Seq<char>, DataValue>,
    r: Result<DataValue, GenerateError>,
) -> bool {
    match r {
        Ok(v) => v is String && template_fill::<F>(g.format_of()@, ctx) == Ok::<Seq<char>, Seq<char>>(v->String_0@),
        Err(e) => fill_failure::<F>(e, g.format_of()@, ctx),
    }
}

/// Whether `r` may come from the script generator `g` in `ctx`, with the
/// formatter `F`: a value of its kind that the script evaluates to, or the
/// failure to evaluate it.
pub open spec fn eval_generator_outcome<F: ValueFormatter>(
    g: EvalGenerator,
    ctx: Map<Seq<char>, DataValue>,
    r: Result<DataValue, GenerateError>,
) -> bool {
    let t = g.script_of()@;
    match r {
        Ok(v) => match g.kind_of() {
            EvalKind::Int => v matches DataValue::Int(i) && int_eval_exact::<F>(t, ctx, Ok::<SbrdInt, EvalError>(i)),
            EvalKind::Bool => v matches DataValue::Bool(b) && bool_eval_exact::<F>(t, ctx, Ok::<SbrdBool, EvalError>(b)),
            EvalKind::String => v matches DataValue::String(x) && string_eval_exact::<F>(
                t,
                ctx,
                Ok::<SbrdString, EvalError>(x),
            ),
        },
        Err(e) => e matches GenerateError::FailEval(err, s, c) && s == g.script_of() && c@ == ctx && match g.kind_of() {
            EvalKind::Int => int_eval_exact::<F>(t, ctx, Err::<SbrdInt, EvalError>(err)),
            EvalKind::Bool => bool_eval_exact::<F>(t, ctx, Err::<SbrdBool, EvalError>(err)),
            EvalKind::String => string_eval_exact::<F>(t, ctx, Err::<SbrdString, EvalError>(err)),
        },
    }
}

/// The type of value a script evaluates to.
#[derive(Debug, PartialEq, Eq, Structural, Clone, Copy)]
pub enum EvalKind {
    /// Integer.
    Int,
    /// Boolean.
    Bool,
    /// String.
    String,
}

/// Whether `v` is a value of `kind`.
pub open spec fn of_kind(kind: EvalKind, v: DataValue) -> bool {
    match kind {
        EvalKind::Int => v is Int,
        EvalKind::Bool => v is Bool,
        EvalKind::String => v is String,
    }
}

/// The kind of a script generator of type `t`, if `t` is one this crate evaluates.
pub open spec fn eval_kind_of(t: GeneratorType) -> Option<EvalKind> {
    match t {
        GeneratorType::EvalInt => Some(EvalKind::Int),
        GeneratorType::EvalBool => Some(EvalKind::Bool),
        GeneratorType::EvalString => Some(EvalKind::String),
        _ => None,
    }
}

/// Generator of the values a script evaluates to.
#[derive(Debug)]
pub struct EvalGenerator {
    kind: EvalKind,
    nullable: Nullable,
    script: String,
}

/// Whether `r` is what building the generator that `builder` describes gives.
pub open spec fn eval_create_outcome(builder: GeneratorBuilder, r: Result<EvalGenerator, BuildError>) -> bool {
    &&& eval_kind_of(builder.generator_type) is None ==> r == Err::<EvalGenerator, BuildError>(
                BuildError::InvalidType(builder.generator_type)
    )
    &&& eval_kind_of(builder.generator_type) matches Some(k) ==> match builder.script {
                None => r matches Err(e) && e matches BuildError::NotExistValueOf(n) && n@ == "script"@,
                Some(s) => r matches Ok(g) && g.kind_of() == k && g.script_of() == s && g.nullable_of()
                    == builder.nullable
    }
}

impl EvalGenerator {
    /// The type of the values.
    pub closed spec fn kind_of(&self) -> EvalKind {
        self.kind
    }

    /// Whether this generator may produce null.
    pub closed spec fn nullable_of(&self) -> Nullable {
        self.nullable
    }

    /// The script.
    pub closed spec fn script_of(&self) -> String {
        self.script
    }

    /// The generator `builder` describes: of type eval-int, eval-bool or
    /// eval-string, with a script.
    pub fn create(builder: GeneratorBuilder) -> (r: Result<Self, BuildError>)
        ensures
            eval_create_outcome(builder, r),
    {
        let kind = match builder.generator_type {
            GeneratorType::EvalInt => EvalKind::Int,
            GeneratorType::EvalBool => EvalKind::Bool,
            GeneratorType::EvalString => EvalKind::String,
            _ => return Err(BuildError::InvalidType(builder.generator_type)),
        };
        match builder.script {
            None => Err(BuildError::NotExistValueOf(String::from_str("script"))),
            Some(script) => Ok(EvalGenerator { kind, nullable: builder.nullable, script }),
        }
    }

    /// Whether this generator may produce null.
    pub fn is_nullable(&self) -> (r: bool)
        ensures
            r == self.nullable_of().allows_null(),
    {
        self.nullable.is_nullable()
    }

    /// The value the script evaluates to in `context`.
    pub fn generate_without_null<F: ValueFormatter>(&self, context: &DataValueMap) -> (r: Result<DataValue, GenerateError>)
        ensures
            eval_generator_outcome::<F>(*self, context@, r),
    {
        let evaluator = Evaluator::new(context);
        let outcome: Result<DataValue, EvalError> = match self.kind {
            EvalKind::Int => match evaluator.eval_int::<F>(self.script.as_str()) {
                Ok(v) => Ok(DataValue::Int(v)),
                Err(e) => Err(e),
            },
            EvalKind::Bool => match evaluator.eval_bool::<F>(self.script.as_str()) {
                Ok(v) => Ok(DataValue::Bool(v)),
                Err(e) => Err(e),
            },
            EvalKind::String => match evaluator.eval_string::<F>(self.script.as_str()) {
                Ok(v) => Ok(DataValue::String(v)),
                Err(e) => Err(e),
            },
        };
        match outcome {
            Ok(v) => Ok(v),
            Err(e) => Err(GenerateError::FailEval(e, self.script.clone(), context.duplicate())),
        }
    }
}

} // verus!
