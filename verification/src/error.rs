//! Errors of building generators and schemas and of generating values.

use vstd::prelude::*;
use crate::builder::ValueBound;
use crate::context::{DataValueMap, in_key_order};
use evalexpr::EvalexprError;
use crate::eval::EvalError;
use crate::generator_type::{GeneratorType, kind_name};
use crate::text::{push_chars, string_of};
use crate::value::{DataValue, bool_text, int_text, int_to_string};

verus! {

/// Why a builder could not become a generator or a schema.
#[derive(Debug)]
pub enum BuildError {
    /// The keys to output are not unique; all of them.
    SpecifiedKeyNotUnique(Vec<String>),
    /// A key to output has no generator; the key and the keys of the generators.
    NotExistSpecifiedKey(String, Vec<String>),
    /// Two generators share this key.
    AlreadyExistKey(String),
    /// The builder's kind does not suit the generator.
    InvalidType(GeneratorType),
    /// An option has an unusable value; its text.
    InvalidValue(String),
    /// A required option is missing; its name.
    NotExistValueOf(String),
    /// A text could not be parsed: the text, the type wanted and the reason.
    FailParseValue(String, String, String),
    /// The range holds no value.
    RangeEmpty(ValueBound<DataValue>),
    /// More than one of these options was given where only one is allowed.
    OnlyOneOptionSpecifiedNot(Vec<String>),
    /// The list of children is empty.
    EmptySelectableChildren,
    /// The list of values is empty.
    EmptySelectValues,
    /// There is neither a child nor a value to choose from.
    EmptySelectable,
    /// No child is without a condition.
    NotExistDefaultCase,
    /// All weights are zero.
    AllWeightsZero,
    /// A file could not be read: the reason and the path.
    FileError(String, String),
    /// A distribution could not be built: its name and the reason.
    FailBuildDistribution(String, String),
}

/// The text `Debug` gives for a list of strings: each string quoted and
/// escaped, between brackets and separated by commas.
pub uninterp spec fn debug_list_text(items: Seq<Seq<char>>) -> Seq<char>;

/// `format!("{:?}", items)`, whose text depends on the strings alone.
#[verifier::external_body]
fn debug_list(items: &Vec<String>) -> (r: String)
    ensures
        r@ == debug_list_text(items.deep_view()),
{
    format!("{:?}", items)
}

/// The message of a build error.
pub open spec fn build_error_text(e: BuildError) -> Seq<char> {
    match e {
        BuildError::SpecifiedKeyNotUnique(keys) => "Not Unique Specified Keys: "@ + debug_list_text(keys.deep_view()),
        BuildError::NotExistSpecifiedKey(key, keys) => "Not Exist Key \""@ + key@ + "\" in "@ + debug_list_text(
            keys.deep_view(),
        ),
        BuildError::AlreadyExistKey(k) => "Already Exist Key: "@ + k@,
        BuildError::InvalidType(t) => "Invalid Type: "@ + ("---\n"@ + kind_name(t) + "\n"@),
        BuildError::InvalidValue(v) => "Invalid Value: "@ + v@,
        BuildError::NotExistValueOf(n) => "Not Exist Value for "@ + n@,
        BuildError::FailParseValue(v, t, m) => "Fail Parse "@ + v@ + " as "@ + t@ + " with error: "@ + m@,
        BuildError::RangeEmpty(range) => "Empty Range: "@ + range.bound_text(),
        BuildError::OnlyOneOptionSpecifiedNot(options) => "Available option is only one in "@ + debug_list_text(
            options.deep_view(),
        ),
        BuildError::EmptySelectableChildren => "Selectable children is empty"@,
        BuildError::EmptySelectValues => "Selectable values is empty"@,
        BuildError::EmptySelectable => "Selectable children or values is empty"@,
        BuildError::NotExistDefaultCase => "Not Exist default case condition"@,
        BuildError::AllWeightsZero => "All weights are zero"@,
        BuildError::FileError(m, path) => "File Error: "@ + m@ + " at filepath `"@ + path@ + "`"@,
        BuildError::FailBuildDistribution(d, m) => "Fail build "@ + d@ + " distribution with error: "@ + m@,
    }
}

/// Builds the concatenation of `parts`.
fn concat_parts(parts: &Vec<&str>) -> (r: String)
    ensures
        r@ == parts_text(parts@),
{
    let mut out: Vec<char> = Vec::new();
    let mut i: usize = 0;
    while i < parts.len()
        invariant
            i <= parts@.len(),
            out@ == parts_text(parts@.take(i as int)),
        decreases parts@.len() - i,
    {
        push_chars(&mut out, parts[i]);
        assert(parts@.take(i + 1).drop_last() =~= parts@.take(i as int));
        i = i + 1;
    }
    assert(parts@.take(i as int) =~= parts@);
    string_of(out.as_slice())
}

/// The concatenation of the texts of `parts`.
pub open spec fn parts_text(parts: Seq<&str>) -> Seq<char>
    decreases parts.len(),
{
    if parts.len() == 0 {
        Seq::empty()
    } else {
        parts_text(parts.drop_last()) + parts.last()@
    }
}

impl BuildError {
    /// The message of this error.
    pub fn to_display_string(&self) -> (r: String)
        ensures
            r@ == build_error_text(*self),
    {
        match self {
            BuildError::SpecifiedKeyNotUnique(keys) => {
                let list = debug_list(keys);
                let r = concat_parts(&vec!["Not Unique Specified Keys: ", list.as_str()]);
                proof { reveal_with_fuel(parts_text, 3); }
                r
            },
            BuildError::NotExistSpecifiedKey(key, keys) => {
                let list = debug_list(keys);
                let r = concat_parts(&vec!["Not Exist Key \"", key.as_str(), "\" in ", list.as_str()]);
                proof { reveal_with_fuel(parts_text, 5); }
                r
            },
            BuildError::AlreadyExistKey(k) => {
                let r = concat_parts(&vec!["Already Exist Key: ", k.as_str()]);
                proof { reveal_with_fuel(parts_text, 3); }
                r
            },
            BuildError::InvalidType(t) => {
                let shown = t.to_display_string();
                let r = concat_parts(&vec!["Invalid Type: ", shown.as_str()]);
                proof { reveal_with_fuel(parts_text, 3); }
                r
            },
            BuildError::InvalidValue(v) => {
                let r = concat_parts(&vec!["Invalid Value: ", v.as_str()]);
                proof { reveal_with_fuel(parts_text, 3); }
                r
            },
            BuildError::NotExistValueOf(n) => {
                let r = concat_parts(&vec!["Not Exist Value for ", n.as_str()]);
                proof { reveal_with_fuel(parts_text, 3); }
                r
            },
            BuildError::FailParseValue(v, t, m) => {
                let r = concat_parts(&vec!["Fail Parse ", v.as_str(), " as ", t.as_str(), " with error: ", m.as_str()]);
                proof { reveal_with_fuel(parts_text, 7); }
                r
            },
            BuildError::RangeEmpty(range) => {
                let shown = range.to_display_string();
                let r = concat_parts(&vec!["Empty Range: ", shown.as_str()]);
                proof { reveal_with_fuel(parts_text, 3); }
                r
            },
            BuildError::OnlyOneOptionSpecifiedNot(options) => {
                let list = debug_list(options);
                let r = concat_parts(&vec!["Available option is only one in ", list.as_str()]);
                proof { reveal_with_fuel(parts_text, 3); }
                r
            },
            BuildError::EmptySelectableChildren => String::from_str("Selectable children is empty"),
            BuildError::EmptySelectValues => String::from_str("Selectable values is empty"),
            BuildError::EmptySelectable => String::from_str("Selectable children or values is empty"),
            BuildError::NotExistDefaultCase => String::from_str("Not Exist default case condition"),
            BuildError::AllWeightsZero => String::from_str("All weights are zero"),
            BuildError::FileError(m, path) => {
                let r = concat_parts(&vec!["File Error: ", m.as_str(), " at filepath `", path.as_str(), "`"]);
                proof { reveal_with_fuel(parts_text, 6); }
                r
            },
            BuildError::FailBuildDistribution(d, m) => {
                let r = concat_parts(&vec!["Fail build ", d.as_str(), " distribution with error: ", m.as_str()]);
                proof { reveal_with_fuel(parts_text, 5); }
                r
            },
        }
    }
}

/// Why a value could not be generated.
#[derive(Debug)]
pub enum GenerateError {
    /// A script or format failed: the error, the script and the context.
    FailEval(EvalError, String, DataValueMap),
    /// No valid value could be generated; the reason.
    FailGenerate(String),
    /// A key to output has no generated value: the key and the values.
    NotExistGeneratedKey(String, DataValueMap),
}

/// The stage at which a schema failed.
#[derive(Debug, PartialEq, Eq, Structural, Clone, Copy)]
pub enum SchemaErrorKind {
    /// The schema could not be parsed.
    ParseError,
    /// The schema could not be built.
    BuildError,
    /// Values could not be generated.
    GenerateError,
    /// Values could not be written.
    OutputError,
}

impl SchemaErrorKind {
    /// The words that lead the message of an error of this stage.
    pub fn label(&self) -> (r: &'static str)
        ensures
            r@ == kind_label_text(*self),
    {
        match self {
            SchemaErrorKind::ParseError => "Parse error",
            SchemaErrorKind::BuildError => "Build error",
            SchemaErrorKind::GenerateError => "Generate error",
            SchemaErrorKind::OutputError => "Output error",
        }
    }
}

/// The error beneath a schema error.
#[derive(Debug)]
pub enum SchemaErrorInfo {
    /// An error of building.
    Build(BuildError),
    /// An error of generating.
    Generate(GenerateError),
    /// An error described by its message, such as one of parsing or writing.
    Message(String),
}

/// An error of a schema, with the stage at which it happened.
#[derive(Debug)]
pub struct SchemaError {
    kind: SchemaErrorKind,
    info: SchemaErrorInfo,
}

/// Result of the operations on schemas.
pub type SchemaResult<T> = Result<T, SchemaError>;

impl SchemaError {
    /// The stage of this error.
    pub closed spec fn kind_of(&self) -> SchemaErrorKind {
        self.kind
    }

    /// The error beneath this one.
    pub closed spec fn info_of(&self) -> SchemaErrorInfo {
        self.info
    }

    /// An error of stage `kind` caused by `info`.
    pub fn new(kind: SchemaErrorKind, info: SchemaErrorInfo) -> (r: Self)
        ensures
            r.kind_of() == kind,
            r.info_of() == info,
    {
        SchemaError { kind, info }
    }

    /// Whether this error happened at stage `kind`.
    pub fn is_kind_of(&self, kind: SchemaErrorKind) -> (r: bool)
        ensures
            r == (self.kind_of() == kind),
    {
        self.kind == kind
    }

    /// The stage of this error.
    pub fn get_kind(&self) -> (r: SchemaErrorKind)
        ensures
            r == self.kind_of(),
    {
        self.kind
    }

    /// The error beneath this one.
    pub fn get_error_info(&self) -> (r: &SchemaErrorInfo)
        ensures
            *r == self.info_of(),
    {
        &self.info
    }
}

/// Errors that can become schema errors.
pub trait IntoSbrdError: Sized {
    /// The information a schema error keeps of this error.
    spec fn error_info(self) -> SchemaErrorInfo;

    /// This error as a schema error of stage `kind`.
    fn into_sbrd_gen_error(self, kind: SchemaErrorKind) -> (r: SchemaError)
        ensures
            r.kind_of() == kind,
            r.info_of() == self.error_info(),
    ;
}

impl IntoSbrdError for BuildError {
    open spec fn error_info(self) -> SchemaErrorInfo {
        SchemaErrorInfo::Build(self)
    }

    fn into_sbrd_gen_error(self, kind: SchemaErrorKind) -> (r: SchemaError) {
        SchemaError::new(kind, SchemaErrorInfo::Build(self))
    }
}

impl IntoSbrdError for GenerateError {
    open spec fn error_info(self) -> SchemaErrorInfo {
        SchemaErrorInfo::Generate(self)
    }

    fn into_sbrd_gen_error(self, kind: SchemaErrorKind) -> (r: SchemaError) {
        SchemaError::new(kind, SchemaErrorInfo::Generate(self))
    }
}

impl IntoSbrdError for String {
    open spec fn error_info(self) -> SchemaErrorInfo {
        SchemaErrorInfo::Message(self)
    }

    fn into_sbrd_gen_error(self, kind: SchemaErrorKind) -> (r: SchemaError) {
        SchemaError::new(kind, SchemaErrorInfo::Message(self))
    }
}

/// The text `Debug` gives for a string: quoted, with its special characters
/// escaped.
pub uninterp spec fn debug_str_text(s: Seq<char>) -> Seq<char>;

/// `format!("{:?}", s)`, whose text depends on the string alone.
#[verifier::external_body]
fn debug_str(s: &str) -> (r: String)
    ensures
        r@ == debug_str_text(s@),
{
    format!("{:?}", s)
}

/// The text an error of the expression evaluator displays. What it holds is
/// left unsaid: the error is opaque here.
#[verifier::external_body]
fn evalexpr_error_display(e: &EvalexprError) -> (r: String) {
    e.to_string()
}

/// The text of a value in a message: its variant with its text.
pub open spec fn value_debug_text(v: DataValue) -> Seq<char> {
    match v {
        DataValue::Int(i) => "Int("@ + int_text(i as int) + ")"@,
        DataValue::Real(s) => "Real("@ + s@ + ")"@,
        DataValue::Bool(b) => "Bool("@ + bool_text(b) + ")"@,
        DataValue::String(s) => "String("@ + debug_str_text(s@) + ")"@,
        DataValue::Null => "Null"@,
    }
}

/// The texts of `entries` in a message, each key quoted before its value,
/// separated by commas.
pub open spec fn entries_debug_text(entries: Seq<(String, DataValue)>) -> Seq<char>
    decreases entries.len(),
{
    if entries.len() == 0 {
        Seq::empty()
    } else {
        let last = debug_str_text(entries.last().0@) + ": "@ + value_debug_text(entries.last().1);
        if entries.len() == 1 {
            last
        } else {
            entries_debug_text(entries.drop_last()) + ", "@ + last
        }
    }
}

/// Whether `t` is the text of the value context `values` in a message: its
/// entries in the order of their keys, each key quoted before its value,
/// between braces.
pub open spec fn is_context_text(values: DataValueMap, t: Seq<char>) -> bool {
    exists|order: Seq<usize>|
        in_key_order(values.entry_seq(), order) && t == "{"@ + entries_debug_text(
            order.map_values(|p: usize| values.entry_seq()[p as int]),
        ) + "}"@
}

/// The message of an evaluation error, where `shown` is the text that the
/// expression evaluator displays for its own error.
pub open spec fn eval_error_text(e: EvalError, shown: Seq<char>) -> Seq<char> {
    match e {
        EvalError::FailEval(_) => "Fail eval with error: "@ + shown,
        EvalError::FailApplyValueContext(m) => "Fail apply value context with error: "@ + m@,
    }
}

/// The message of a generation error, where `context` is the text of its
/// value context and `shown` the text that the expression evaluator
/// displays for its own error.
pub open spec fn generate_error_text(e: GenerateError, context: Seq<char>, shown: Seq<char>) -> Seq<char> {
    match e {
        GenerateError::FailEval(ev, script, _) => "Fail Evaluate Script \""@ + script@ + "\" in context "@ + context
            + " with error: "@ + eval_error_text(ev, shown),
        GenerateError::FailGenerate(m) => "Fail Generate valid data. Because "@ + m@,
        GenerateError::NotExistGeneratedKey(k, _) => "Not exist key \""@ + k@ + "\" in "@ + context,
    }
}

/// Whether `context` is the text of the value context of `e`, where it has
/// one.
pub open spec fn context_text_fits(e: GenerateError, context: Seq<char>) -> bool {
    match e {
        GenerateError::FailEval(_, _, values) => is_context_text(values, context),
        GenerateError::FailGenerate(_) => true,
        GenerateError::NotExistGeneratedKey(_, values) => is_context_text(values, context),
    }
}

/// The label of a stage, as it leads a message.
pub open spec fn kind_label_text(k: SchemaErrorKind) -> Seq<char> {
    match k {
        SchemaErrorKind::ParseError => "Parse error"@,
        SchemaErrorKind::BuildError => "Build error"@,
        SchemaErrorKind::GenerateError => "Generate error"@,
        SchemaErrorKind::OutputError => "Output error"@,
    }
}

/// The text of the error beneath a schema error, where `context` and
/// `shown` are as for [`generate_error_text`].
pub open spec fn info_text(info: SchemaErrorInfo, context: Seq<char>, shown: Seq<char>) -> Seq<char> {
    match info {
        SchemaErrorInfo::Build(b) => build_error_text(b),
        SchemaErrorInfo::Generate(g) => generate_error_text(g, context, shown),
        SchemaErrorInfo::Message(m) => m@,
    }
}

/// Whether `context` is the text of the value context beneath `info`, where
/// there is one.
pub open spec fn info_context_fits(info: SchemaErrorInfo, context: Seq<char>) -> bool {
    match info {
        SchemaErrorInfo::Generate(g) => context_text_fits(g, context),
        _ => true,
    }
}

impl DataValue {
    /// The text of this value in a message: its variant with its text.
    pub fn to_debug_string(&self) -> (r: String)
        ensures
            r@ == value_debug_text(*self),
    {
        match self {
            DataValue::Int(i) => {
                let t = int_to_string(*i);
                let r = concat_parts(&vec!["Int(", t.as_str(), ")"]);
                proof { reveal_with_fuel(parts_text, 4); }
                r
            },
            DataValue::Real(s) => {
                let r = concat_parts(&vec!["Real(", s.as_str(), ")"]);
                proof { reveal_with_fuel(parts_text, 4); }
                r
            },
            DataValue::Bool(b) => {
                let t = if *b { "true" } else { "false" };
                let r = concat_parts(&vec!["Bool(", t, ")"]);
                proof { reveal_with_fuel(parts_text, 4); reveal_strlit("true"); reveal_strlit("false"); }
                r
            },
            DataValue::String(s) => {
                let t = debug_str(s.as_str());
                let r = concat_parts(&vec!["String(", t.as_str(), ")"]);
                proof { reveal_with_fuel(parts_text, 4); }
                r
            },
            DataValue::Null => String::from_str("Null"),
        }
    }
}

impl DataValueMap {
    /// The text of this context in a message: its entries in the order of
    /// their keys, each key quoted before its value, between braces.
    pub fn to_debug_string(&self) -> (r: String)
        ensures
            is_context_text(*self, r@),
    {
        let order = self.key_order();
        let ghost es = self.entry_seq();
        let ghost listed = order@.map_values(|p: usize| es[p as int]);
        let mut out: Vec<char> = Vec::new();
        push_chars(&mut out, "{");
        let n = order.len();
        let mut i: usize = 0;
        while i < n
            invariant
                n == order@.len(),
                in_key_order(es, order@),
                es == self.entry_seq(),
                listed == order@.map_values(|p: usize| es[p as int]),
                i <= n,
                out@ == "{"@ + entries_debug_text(listed.take(i as int)),
            decreases n - i,
        {
            let (k, v) = self.entry_at(order[i]);
            if i > 0 {
                push_chars(&mut out, ", ");
            }
            let kt = debug_str(k.as_str());
            push_chars(&mut out, kt.as_str());
            push_chars(&mut out, ": ");
            let vt = v.to_debug_string();
            push_chars(&mut out, vt.as_str());
            proof {
                assert(listed.take(i + 1).drop_last() =~= listed.take(i as int));
                assert(listed.take(i + 1).last() == listed[i as int]);
                assert(listed[i as int] == es[order@[i as int] as int]);
            }
            i = i + 1;
        }
        push_chars(&mut out, "}");
        assert(listed.take(n as int) =~= listed);
        let r = string_of(out.as_slice());
        assert(r@ == "{"@ + entries_debug_text(order@.map_values(|p: usize| self.entry_seq()[p as int])) + "}"@);
        r
    }
}

impl EvalError {
    /// The message of this error.
    pub fn to_display_string(&self) -> (r: String)
        ensures
            exists|shown: Seq<char>| r@ == eval_error_text(*self, shown),
    {
        match self {
            EvalError::FailEval(x) => {
                let shown = evalexpr_error_display(x);
                let r = concat_parts(&vec!["Fail eval with error: ", shown.as_str()]);
                proof { reveal_with_fuel(parts_text, 3); assert(r@ == eval_error_text(*self, shown@)); }
                r
            },
            EvalError::FailApplyValueContext(m) => {
                let r = concat_parts(&vec!["Fail apply value context with error: ", m.as_str()]);
                proof { reveal_with_fuel(parts_text, 3); assert(r@ == eval_error_text(*self, Seq::empty())); }
                r
            },
        }
    }
}

impl GenerateError {
    /// The message of this error.
    pub fn to_display_string(&self) -> (r: String)
        ensures
            exists|context: Seq<char>, shown: Seq<char>|
                context_text_fits(*self, context) && r@ == generate_error_text(*self, context, shown),
    {
        match self {
            GenerateError::FailEval(ev, script, values) => {
                let c = values.to_debug_string();
                let t = ev.to_display_string();
                let ghost shown = choose|shown: Seq<char>| t@ == eval_error_text(*ev, shown);
                let r = concat_parts(
                    &vec!["Fail Evaluate Script \"", script.as_str(), "\" in context ", c.as_str(), " with error: ", t.as_str()],
                );
                proof {
                    reveal_with_fuel(parts_text, 7);
                    assert(context_text_fits(*self, c@) && r@ == generate_error_text(*self, c@, shown));
                }
                r
            },
            GenerateError::FailGenerate(m) => {
                let r = concat_parts(&vec!["Fail Generate valid data. Because ", m.as_str()]);
                proof {
                    reveal_with_fuel(parts_text, 3);
                    assert(context_text_fits(*self, Seq::empty()) && r@ == generate_error_text(*self, Seq::empty(), Seq::empty()));
                }
                r
            },
            GenerateError::NotExistGeneratedKey(k, values) => {
                let c = values.to_debug_string();
                let r = concat_parts(&vec!["Not exist key \"", k.as_str(), "\" in ", c.as_str()]);
                proof {
                    reveal_with_fuel(parts_text, 5);
                    assert(context_text_fits(*self, c@) && r@ == generate_error_text(*self, c@, Seq::empty()));
                }
                r
            },
        }
    }
}

impl SchemaError {
    /// The message of this error: the label of its stage, a colon, and the
    /// message of the error beneath it.
    pub fn to_display_string(&self) -> (r: String)
        ensures
            exists|context: Seq<char>, shown: Seq<char>|
                info_context_fits(self.info_of(), context) && r@ == kind_label_text(self.kind_of()) + ": "@ + info_text(
                    self.info_of(),
                    context,
                    shown,
                ),
    {
        let label = self.kind.label();
        let (t, Ghost(context), Ghost(shown)) = match &self.info {
            SchemaErrorInfo::Build(b) => (b.to_display_string(), Ghost(Seq::empty()), Ghost(Seq::empty())),
            SchemaErrorInfo::Generate(g) => {
                let t = g.to_display_string();
                let ghost (context, shown) = choose|context: Seq<char>, shown: Seq<char>|
                    context_text_fits(*g, context) && t@ == generate_error_text(*g, context, shown);
                (t, Ghost(context), Ghost(shown))
            },
            SchemaErrorInfo::Message(m) => (m.clone(), Ghost(Seq::empty()), Ghost(Seq::empty())),
        };
        let r = concat_parts(&vec![label, ": ", t.as_str()]);
        proof {
            reveal_with_fuel(parts_text, 4);
            assert(info_context_fits(self.info_of(), context) && r@ == kind_label_text(self.kind_of()) + ": "@ + info_text(
                self.info_of(),
                context,
                shown,
            ));
        }
        r
    }
}

} // verus!
