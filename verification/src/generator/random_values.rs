//! Generators that choose among listed values: characters, values and the
//! lines of a file.

use vstd::prelude::*;
use crate::builder::{GeneratorBuilder, Nullable};
use crate::context::DataValueMap;
use crate::error::{BuildError, GenerateError};
use crate::eval::{EvalError, Evaluator, ValueFormatter, int_eval_exact};
use crate::generator::Randomizer;
use crate::generator_type::GeneratorType;
use crate::text::{chars_of, push_chars, string_of};
use crate::value::{
    DataValue, SbrdInt, int_parse_error_text, nat_text, nat_to_string, parse_int, parse_int_spec,
    value_text,
};

verus! {

/// Types of values read from texts and chosen among.
pub trait SelectValue: Sized {
    /// Whether `text` reads as `v`.
    spec fn reads_as(text: Seq<char>, v: Self) -> bool;

    /// Whether `text` reads as no value.
    spec fn unreadable(text: Seq<char>) -> bool;

    /// Whether `e` reports that `text` reads as no value.
    spec fn read_failure(text: Seq<char>, e: BuildError) -> bool;

    /// The generated value for `v`.
    spec fn value_of(v: Self) -> DataValue;

    /// The kind of the generators that choose one of these values at random.
    spec fn select_kind() -> GeneratorType;

    /// The kind of the generators that take one of these values at an index.
    spec fn value_at_kind() -> GeneratorType;

    /// The value `text` reads as.
    fn read(text: &str) -> (r: Result<Self, BuildError>)
        ensures
            match r {
                Ok(v) => Self::reads_as(text@, v) && !Self::unreadable(text@),
                Err(e) => Self::unreadable(text@) && Self::read_failure(text@, e),
            },
    ;

    /// The generated value for this one.
    fn to_data_value(&self) -> (r: DataValue)
        ensures
            r == Self::value_of(*self),
    ;

    /// The kind of the generators that choose one of these values at random.
    fn select_type() -> (r: GeneratorType)
        ensures
            r == Self::select_kind(),
    ;

    /// The kind of the generators that take one of these values at an index.
    fn value_at_type() -> (r: GeneratorType)
        ensures
            r == Self::value_at_kind(),
    ;
}

impl SelectValue for SbrdInt {
    open spec fn reads_as(text: Seq<char>, v: Self) -> bool {
        parse_int_spec(text) == Ok::<int, crate::value::IntParseError>(v as int)
    }

    open spec fn unreadable(text: Seq<char>) -> bool {
        parse_int_spec(text) is Err
    }

    open spec fn read_failure(text: Seq<char>, e: BuildError) -> bool {
        &&& e matches BuildError::FailParseValue(t, ty, m)
        &&& t@ == text
        &&& ty@ == "Int"@
        &&& m@ == int_parse_error_text(parse_int_spec(text)->Err_0)
    }

    open spec fn value_of(v: Self) -> DataValue {
        DataValue::Int(v)
    }

    open spec fn select_kind() -> GeneratorType {
        GeneratorType::SelectInt
    }

    open spec fn value_at_kind() -> GeneratorType {
        GeneratorType::GetIntValueAt
    }

    fn read(text: &str) -> (r: Result<Self, BuildError>) {
        match parse_int(text) {
            Ok(v) => Ok(v),
            Err(e) => Err(BuildError::FailParseValue(String::from_str(text), String::from_str("Int"), e.message())),
        }
    }

    fn to_data_value(&self) -> (r: DataValue) {
        DataValue::Int(*self)
    }

    fn select_type() -> (r: GeneratorType) {
        GeneratorType::SelectInt
    }

    fn value_at_type() -> (r: GeneratorType) {
        GeneratorType::GetIntValueAt
    }
}

impl SelectValue for String {
    open spec fn reads_as(text: Seq<char>, v: Self) -> bool {
        v@ == text
    }

    open spec fn unreadable(text: Seq<char>) -> bool {
        false
    }

    open spec fn read_failure(text: Seq<char>, e: BuildError) -> bool {
        false
    }

    open spec fn value_of(v: Self) -> DataValue {
        DataValue::String(v)
    }

    open spec fn select_kind() -> GeneratorType {
        GeneratorType::SelectString
    }

    open spec fn value_at_kind() -> GeneratorType {
        GeneratorType::GetStringValueAt
    }

    fn read(text: &str) -> (r: Result<Self, BuildError>) {
        Ok(String::from_str(text))
    }

    fn to_data_value(&self) -> (r: DataValue) {
        DataValue::String(self.clone())
    }

    fn select_type() -> (r: GeneratorType) {
        GeneratorType::SelectString
    }

    fn value_at_type() -> (r: GeneratorType) {
        GeneratorType::GetStringValueAt
    }
}

/// Each character of `chars` as a text of its own.
pub open spec fn char_texts(chars: Seq<char>) -> Seq<Seq<char>> {
    chars.map_values(|c: char| seq![c])
}

/// The texts of `values`.
pub open spec fn value_texts(values: Seq<DataValue>) -> Seq<Seq<char>> {
    values.map_values(|v: DataValue| value_text(v))
}

/// The texts that the characters and values of a builder list, in order.
pub open spec fn listed_texts(chars: Option<String>, values: Option<Vec<DataValue>>) -> Seq<Seq<char>> {
    (match chars {
        Some(c) => char_texts(c@),
        None => Seq::empty(),
    }) + (match values {
        Some(v) => value_texts(v@),
        None => Seq::empty(),
    })
}

/// The number of characters of `chars`, none when it is absent.
pub open spec fn char_count(chars: Option<String>) -> int {
    match chars {
        Some(c) => c@.len() as int,
        None => 0,
    }
}

/// The number of values of `values`, none when they are absent.
pub open spec fn value_count(values: Option<Vec<DataValue>>) -> int {
    match values {
        Some(v) => v@.len() as int,
        None => 0,
    }
}

/// The listed texts are the characters first, one text of one character
/// each and in their order, then the texts of the values in their order.
pub proof fn law_listed_characters_then_values(chars: Option<String>, values: Option<Vec<DataValue>>)
    ensures
        listed_texts(chars, values).len() == char_count(chars) + value_count(values),
        forall|i: int| 0 <= i < char_count(chars) ==> #[trigger] listed_texts(chars, values)[i] == seq![chars->0@[i]],
        forall|j: int|
            0 <= j < value_count(values) ==> #[trigger] listed_texts(chars, values)[char_count(chars) + j] == value_text(
                values->0@[j],
            ),
{
}

/// The views of strings.
pub open spec fn string_views(lines: Seq<String>) -> Seq<Seq<char>> {
    lines.map_values(|s: String| s@)
}

/// Whether `vals` is what `texts` read as, one for one.
pub open spec fn all_read<T: SelectValue>(texts: Seq<Seq<char>>, vals: Seq<T>) -> bool {
    &&& vals.len() == texts.len()
    &&& forall|i: int| 0 <= i < texts.len() ==> T::reads_as(#[trigger] texts[i], vals[i])
}

/// Whether some text of `texts` is unreadable, and `e` reports the first one.
pub open spec fn first_unreadable<T: SelectValue>(texts: Seq<Seq<char>>, e: BuildError) -> bool {
    exists|i: int|
        0 <= i < texts.len() && T::unreadable(#[trigger] texts[i]) && T::read_failure(texts[i], e) && forall|
            j: int,
        |
            0 <= j < i ==> !T::unreadable(#[trigger] texts[j])
}

/// Whether no text of `texts` is unreadable.
pub open spec fn all_readable<T: SelectValue>(texts: Seq<Seq<char>>) -> bool {
    forall|i: int| 0 <= i < texts.len() ==> !T::unreadable(#[trigger] texts[i])
}

/// Reads each of `texts`, appending to `out`; the first unreadable text
/// gives the error.
fn read_all<T: SelectValue>(texts: &Vec<String>, out: &mut Vec<T>) -> (r: Result<(), BuildError>)
    ensures
        match r {
            Ok(()) => all_readable::<T>(string_views(texts@)) && final(out)@.len() == old(out)@.len()
                + texts@.len() && final(out)@.take(old(out)@.len() as int) == old(out)@ && all_read::<T>(
                string_views(texts@),
                final(out)@.skip(old(out)@.len() as int),
            ),
            Err(e) => first_unreadable::<T>(string_views(texts@), e),
        },
{
    let ghost start = out@;
    let ghost views = string_views(texts@);
    let mut i: usize = 0;
    while i < texts.len()
        invariant
            i <= texts@.len(),
            views == string_views(texts@),
            out@.len() == start.len() + i,
            out@.take(start.len() as int) == start,
            forall|j: int| 0 <= j < i ==> !T::unreadable(#[trigger] views[j]),
            forall|j: int| 0 <= j < i ==> T::reads_as(#[trigger] views[j], out@[start.len() + j]),
        decreases texts@.len() - i,
    {
        match T::read(texts[i].as_str()) {
            Ok(v) => {
                out.push(v);
                assert(out@.take(start.len() as int) =~= start);
            },
            Err(e) => {
                assert(views[i as int] == texts@[i as int]@);
                return Err(e);
            },
        }
        i = i + 1;
    }
    assert(out@.skip(start.len() as int).len() == views.len());
    assert forall|j: int| 0 <= j < views.len() implies T::reads_as(
        #[trigger] views[j],
        out@.skip(start.len() as int)[j],
    ) by {
        assert(out@.skip(start.len() as int)[j] == out@[start.len() + j]);
    }
    Ok(())
}

/// The texts that the characters and values list, in order.
pub fn listed_strings(chars: &Option<String>, values: &Option<Vec<DataValue>>) -> (r: Vec<String>)
    ensures
        string_views(r@) == listed_texts(*chars, *values),
{
    let mut out: Vec<String> = Vec::new();
    let ghost char_part: Seq<Seq<char>> = match chars {
        Some(c) => char_texts(c@),
        None => Seq::empty(),
    };
    if let Some(c) = chars {
        let cs = chars_of(c.as_str());
        let mut i: usize = 0;
        while i < cs.len()
            invariant
                i <= cs@.len(),
                cs@ == c@,
                char_part == char_texts(c@),
                out@.len() == i,
                string_views(out@) == char_texts(cs@).take(i as int),
            decreases cs@.len() - i,
        {
            let ghost before = out@;
            let one: Vec<char> = vec![cs[i]];
            assert(one@ =~= seq![cs@[i as int]]);
            let text = string_of(one.as_slice());
            assert(text@ == seq![cs@[i as int]]);
            out.push(text);
            assert(out@ == before.push(text));
            assert(string_views(out@)[i as int] == text@);
            i = i + 1;
            assert forall|k: int| 0 <= k < i implies #[trigger] string_views(out@)[k] == char_texts(cs@)[k] by {
                if k < i - 1 {
                    assert(string_views(before)[k] == char_texts(cs@).take(i - 1)[k]);
                }
            }
            assert(string_views(out@) =~= char_texts(cs@).take(i as int));
        }
        assert(char_texts(cs@).take(i as int) =~= char_part);
    } else {
        assert(string_views(out@) =~= char_part);
    }
    let ghost mid = out@.len();
    assert(mid == char_part.len());
    if let Some(vs) = values {
        let mut i: usize = 0;
        while i < vs.len()
            invariant
                i <= vs@.len(),
                mid == char_part.len(),
                out@.len() == mid + i,
                string_views(out@) == char_part + value_texts(vs@).take(i as int),
            decreases vs@.len() - i,
        {
            let ghost before = out@;
            let text = vs[i].to_parse_string();
            out.push(text);
            assert(out@ == before.push(text));
            assert(string_views(out@)[out@.len() - 1] == value_text(vs@[i as int]));
            i = i + 1;
            assert forall|k: int| 0 <= k < out@.len() implies #[trigger] string_views(out@)[k] == (char_part
                + value_texts(vs@).take(i as int))[k] by {
                if k < out@.len() - 1 {
                    assert(string_views(before)[k] == (char_part + value_texts(vs@).take(i - 1))[k]);
                }
            }
            assert(string_views(out@) =~= char_part + value_texts(vs@).take(i as int));
        }
        assert(value_texts(vs@).take(i as int) =~= value_texts(vs@));
    } else {
        assert(char_part + Seq::<Seq<char>>::empty() =~= char_part);
    }
    out
}

/// Reason given for a file whose lines were not supplied.
pub open spec fn unread_file_message() -> Seq<char> {
    "The file was not read"@
}

/// Whether `e` reports that the file at `path` could not be used, given
/// what was read of it.
pub open spec fn file_failure(path: String, lines: Option<Result<Vec<String>, String>>, e: BuildError) -> bool {
    &&& e matches BuildError::FileError(m, p)
    &&& p == path
    &&& match lines {
        Some(Err(reason)) => m == reason,
        None => m@ == unread_file_message(),
        Some(Ok(_)) => false,
    }
}

/// The texts that a builder lists, when its file was read: its characters,
/// values and file lines.
pub open spec fn all_texts(
    chars: Option<String>,
    values: Option<Vec<DataValue>>,
    filepath: Option<String>,
    lines: Option<Result<Vec<String>, String>>,
) -> Seq<Seq<char>> {
    listed_texts(chars, values) + (match (filepath, lines) {
        (Some(_), Some(Ok(l))) => string_views(l@),
        _ => Seq::empty(),
    })
}

/// Whether the file of a builder is named but its lines are missing.
pub open spec fn file_missing(filepath: Option<String>, lines: Option<Result<Vec<String>, String>>) -> bool {
    filepath is Some && !(lines matches Some(Ok(_)))
}

/// Whether `r` is what reading the choices of a builder gives: the
/// characters and values are read first, then the lines of the file; there
/// must be at least one choice.
pub open spec fn select_outcome<T: SelectValue>(
    chars: Option<String>,
    values: Option<Vec<DataValue>>,
    filepath: Option<String>,
    lines: Option<Result<Vec<String>, String>>,
    r: Result<Vec<T>, BuildError>,
) -> bool {
    let listed = listed_texts(chars, values);
    if !all_readable::<T>(listed) {
        r matches Err(e) && first_unreadable::<T>(listed, e)
    } else if file_missing(filepath, lines) {
        r matches Err(e) && file_failure(filepath->0, lines, e)
    } else {
        let texts = all_texts(chars, values, filepath, lines);
        if !all_readable::<T>(texts) {
            r matches Err(e) && first_unreadable::<T>(string_views(lines->0->Ok_0@), e)
        } else if texts.len() == 0 {
            r == Err::<Vec<T>, BuildError>(BuildError::EmptySelectValues)
        } else {
            r matches Ok(vals) && all_read::<T>(texts, vals@)
        }
    }
}

/// Texts that are each readable, joined, are readable; and values read
/// from each part, joined, are read from the joined texts.
proof fn lemma_read_join<T: SelectValue>(a: Seq<Seq<char>>, b: Seq<Seq<char>>, va: Seq<T>, vb: Seq<T>)
    requires
        all_read::<T>(a, va),
        all_read::<T>(b, vb),
    ensures
        all_read::<T>(a + b, va + vb),
{
    assert forall|i: int| 0 <= i < (a + b).len() implies T::reads_as(#[trigger] (a + b)[i], (va + vb)[i]) by {
        if i < a.len() {
            assert((a + b)[i] == a[i]);
            assert((va + vb)[i] == va[i]);
        } else {
            assert((a + b)[i] == b[i - a.len()]);
            assert((va + vb)[i] == vb[i - a.len()]);
        }
    }
}

/// Reads the choices of a builder: its characters, its values, then the
/// lines of its file.
pub fn build_select_values<T: SelectValue>(
    chars: Option<String>,
    values: Option<Vec<DataValue>>,
    filepath: Option<String>,
    lines: Option<Result<Vec<String>, String>>,
) -> (r: Result<Vec<T>, BuildError>)
    ensures
        select_outcome::<T>(chars, values, filepath, lines, r),
{
    let listed = listed_strings(&chars, &values);
    let mut out: Vec<T> = Vec::new();
    match read_all::<T>(&listed, &mut out) {
        Err(e) => return Err(e),
        Ok(()) => {},
    }
    let ghost first = out@;
    assert(out@.skip(0) =~= out@);
    let ghost listed_views = listed_texts(chars, values);
    match &filepath {
        Some(path) => match lines {
            Some(Ok(ls)) => {
                let ghost line_views = string_views(ls@);
                match read_all::<T>(&ls, &mut out) {
                    Err(e) => {
                        proof {
                            let texts = all_texts(chars, values, filepath, lines);
                            assert(texts == listed_views + line_views);
                            let i = choose|i: int|
                                0 <= i < line_views.len() && T::unreadable(#[trigger] line_views[i]) && T::read_failure(
                                    line_views[i],
                                    e,
                                ) && forall|j: int| 0 <= j < i ==> !T::unreadable(#[trigger] line_views[j]);
                            assert(texts[listed_views.len() + i] == line_views[i]);
                        }
                        return Err(e);
                    },
                    Ok(()) => {
                        proof {
                            let texts = all_texts(chars, values, filepath, lines);
                            assert(texts == listed_views + line_views);
                            assert(out@ =~= first + out@.skip(first.len() as int));
                            lemma_read_join::<T>(listed_views, line_views, first, out@.skip(first.len() as int));
                            assert forall|i: int| 0 <= i < texts.len() implies !T::unreadable(#[trigger] texts[i]) by {
                                if i < listed_views.len() {
                                    assert(texts[i] == listed_views[i]);
                                } else {
                                    assert(texts[i] == line_views[i - listed_views.len()]);
                                }
                            }
                        }
                    },
                }
            },
            Some(Err(m)) => return Err(BuildError::FileError(m, path.clone())),
            None => return Err(BuildError::FileError(String::from_str("The file was not read"), path.clone())),
        },
        None => {
            proof {
                let texts = all_texts(chars, values, filepath, lines);
                assert(texts =~= listed_views);
            }
        },
    }
    if out.len() == 0 {
        return Err(BuildError::EmptySelectValues);
    }
    Ok(out)
}

/// Whether `r` may come from the generator `g`: one of its values.
pub open spec fn select_generator_outcome<T: SelectValue>(g: SelectGenerator<T>, r: Result<DataValue, GenerateError>) -> bool {
    r matches Ok(v) && exists|i: int| 0 <= i < g.values_of().len() && v == T::value_of(g.values_of()[i])
}

/// Whether `r` may come from the generator `g` in `ctx`: the value at the
/// index its script evaluates to, the failure to evaluate it, or a failure
/// when no value lies at that index.
pub open spec fn value_at_outcome<T: SelectValue, F: ValueFormatter>(g: GetValueAtGenerator<T>, ctx: Map<Seq<char>, DataValue>, r: Result<DataValue, GenerateError>) -> bool {
    match r {
        Ok(v) => exists|k: SbrdInt|
            int_eval_exact::<F>(g.script_of()@, ctx, Ok::<SbrdInt, EvalError>(k)) && 0 <= k < g.values_of().len() && v
                == T::value_of(g.values_of()[k as int]),
        Err(GenerateError::FailEval(e, s, c)) => s == g.script_of() && c@ == ctx && int_eval_exact::<F>(
            g.script_of()@,
            ctx,
            Err::<SbrdInt, EvalError>(e),
        ),
        Err(GenerateError::FailGenerate(_)) => exists|k: SbrdInt|
            int_eval_exact::<F>(g.script_of()@, ctx, Ok::<SbrdInt, EvalError>(k)) && !(0 <= k < g.values_of().len()),
        Err(_) => false,
    }
}

/// Whether `r` may come from the generator `g`: an index below its count of
/// values, or a failure when the count exceeds `i32`.
pub open spec fn value_index_outcome(g: GetValueIndexGenerator, r: Result<DataValue, GenerateError>) -> bool {
    match r {
        Ok(v) => v matches DataValue::Int(i) && 0 <= i < g.count_of(),
        Err(e) => e is FailGenerate && g.count_of() > i32::MAX,
    }
}

/// Generator of values chosen at random among listed ones.
#[derive(Debug)]
pub struct SelectGenerator<T: SelectValue> {
    nullable: Nullable,
    selectable_values: Vec<T>,
}

/// Whether `r` is what building the generator that `builder` describes gives.
pub open spec fn select_create_outcome<T: SelectValue>(builder: GeneratorBuilder, r: Result<SelectGenerator<T>, BuildError>) -> bool {
    &&& builder.generator_type != T::select_kind() ==> r == Err::<SelectGenerator<T>, BuildError>(
                BuildError::InvalidType(builder.generator_type)
    )
    &&& builder.generator_type == T::select_kind() ==> match r {
                Ok(g) => exists|vals: Vec<T>|
                    select_outcome::<T>(builder.chars, builder.values, builder.filepath, builder.file_lines, Ok(vals))
                        && g.values_of() == vals@ && g.nullable_of() == builder.nullable,
                Err(e) => select_outcome::<T>(
                    builder.chars,
                    builder.values,
                    builder.filepath,
                    builder.file_lines,
                    Err(e),
                )
    }
}

impl<T: SelectValue> SelectGenerator<T> {
    /// There is a value to choose.
    #[verifier::type_invariant]
    spec fn inv(&self) -> bool {
        self.selectable_values@.len() > 0
    }

    /// Whether this generator may produce null.
    pub closed spec fn nullable_of(&self) -> Nullable {
        self.nullable
    }

    /// The values chosen among.
    pub closed spec fn values_of(&self) -> Seq<T> {
        self.selectable_values@
    }

    /// The generator `builder` describes: its choices are read as
    /// [`build_select_values`] reads them.
    pub fn create(builder: GeneratorBuilder) -> (r: Result<Self, BuildError>)
        ensures
            select_create_outcome::<T>(builder, r),
    {
        if builder.generator_type != T::select_type() {
            return Err(BuildError::InvalidType(builder.generator_type));
        }
        match build_select_values::<T>(builder.chars, builder.values, builder.filepath, builder.file_lines) {
            Ok(vals) => Ok(SelectGenerator { nullable: builder.nullable, selectable_values: vals }),
            Err(e) => Err(e),
        }
    }

    /// Whether this generator may produce null.
    pub fn is_nullable(&self) -> (r: bool)
        ensures
            r == self.nullable_of().allows_null(),
    {
        self.nullable.is_nullable()
    }

    /// One of the values, chosen at random.
    pub fn generate_without_null<R: Randomizer>(&self, rng: &mut R) -> (r: Result<DataValue, GenerateError>)
        ensures
            select_generator_outcome(*self, r),
    {
        proof {
            use_type_invariant(self);
        }
        let i = rng.gen_index(self.selectable_values.len());
        let v = self.selectable_values[i].to_data_value();
        assert(v == T::value_of(self.values_of()[i as int]));
        Ok(v)
    }
}

/// Generator of the listed value at the index that a script gives.
#[derive(Debug)]
pub struct GetValueAtGenerator<T> {
    nullable: Nullable,
    script: String,
    selectable_values: Vec<T>,
}

/// Whether `r` is what building the generator that `builder` describes gives.
pub open spec fn value_at_create_outcome<T: SelectValue>(builder: GeneratorBuilder, r: Result<GetValueAtGenerator<T>, BuildError>) -> bool {
    &&& builder.generator_type != T::value_at_kind() ==> r == Err::<GetValueAtGenerator<T>, BuildError>(
                BuildError::InvalidType(builder.generator_type)
    )
    &&& builder.generator_type == T::value_at_kind() ==> match r {
                Ok(g) => exists|vals: Vec<T>|
                    select_outcome::<T>(builder.chars, builder.values, builder.filepath, builder.file_lines, Ok(vals))
                        && g.values_of() == vals@ && builder.script == Some(g.script_of()) && g.nullable_of()
                        == builder.nullable,
                Err(e) => select_outcome::<T>(
                    builder.chars,
                    builder.values,
                    builder.filepath,
                    builder.file_lines,
                    Err(e),
                ) || (builder.script is None && (e matches BuildError::NotExistValueOf(n) && n@ == "script"@)
                    && exists|vals: Vec<T>|
                    select_outcome::<T>(builder.chars, builder.values, builder.filepath, builder.file_lines, Ok(vals)))
    }
}

impl<T: SelectValue> GetValueAtGenerator<T> {
    /// Whether this generator may produce null.
    pub closed spec fn nullable_of(&self) -> Nullable {
        self.nullable
    }

    /// The script that gives the index.
    pub closed spec fn script_of(&self) -> String {
        self.script
    }

    /// The listed values.
    pub closed spec fn values_of(&self) -> Seq<T> {
        self.selectable_values@
    }

    /// The generator `builder` describes: its choices are read as
    /// [`build_select_values`] reads them, and it needs a script.
    pub fn create(builder: GeneratorBuilder) -> (r: Result<Self, BuildError>)
        ensures
            value_at_create_outcome::<T>(builder, r),
    {
        if builder.generator_type != T::value_at_type() {
            return Err(BuildError::InvalidType(builder.generator_type));
        }
        let vals = match build_select_values::<T>(builder.chars, builder.values, builder.filepath, builder.file_lines) {
            Ok(vals) => vals,
            Err(e) => return Err(e),
        };
        match builder.script {
            None => Err(BuildError::NotExistValueOf(String::from_str("script"))),
            Some(script) => Ok(GetValueAtGenerator { nullable: builder.nullable, script, selectable_values: vals }),
        }
    }

    /// Whether this generator may produce null.
    pub fn is_nullable(&self) -> (r: bool)
        ensures
            r == self.nullable_of().allows_null(),
    {
        self.nullable.is_nullable()
    }

    /// The value at the index the script evaluates to in `context`.
    pub fn generate_without_null<F: ValueFormatter>(&self, context: &DataValueMap) -> (r: Result<DataValue, GenerateError>)
        ensures
            value_at_outcome::<T, F>(*self, context@, r),
    {
        let evaluator = Evaluator::new(context);
        let outcome = evaluator.eval_int::<F>(self.script.as_str());
        let k = match outcome {
            Ok(k) => k,
            Err(e) => return Err(GenerateError::FailEval(e, self.script.clone(), context.duplicate())),
        };
        assert(int_eval_exact::<F>(self.script_of()@, context@, Ok::<SbrdInt, EvalError>(k)));
        let index = k as usize;
        if k >= 0 && index < self.selectable_values.len() {
            assert(index as int == k as int);
            let v = self.selectable_values[index].to_data_value();
            assert(v == T::value_of(self.values_of()[k as int]));
            Ok(v)
        } else {
            let mut out: Vec<char> = Vec::new();
            push_chars(&mut out, "Not found value at index ");
            let digits = nat_to_string(index as u128);
            push_chars(&mut out, digits.as_str());
            Err(GenerateError::FailGenerate(string_of(out.as_slice())))
        }
    }
}

/// Generator of random indexes into listed values.
#[derive(Debug)]
pub struct GetValueIndexGenerator {
    nullable: Nullable,
    values_count: usize,
}

/// Whether `r` is what building the generator that `builder` describes gives.
pub open spec fn value_index_create_outcome(builder: GeneratorBuilder, r: Result<GetValueIndexGenerator, BuildError>) -> bool {
    &&& builder.generator_type != GeneratorType::GetValueIndex ==> r == Err::<GetValueIndexGenerator, BuildError>(
                BuildError::InvalidType(builder.generator_type)
    )
    &&& builder.generator_type == GeneratorType::GetValueIndex ==> match r {
                Ok(g) => exists|vals: Vec<String>|
                    select_outcome::<String>(builder.chars, builder.values, builder.filepath, builder.file_lines, Ok(vals))
                        && g.count_of() == vals@.len() && g.nullable_of() == builder.nullable,
                Err(e) => select_outcome::<String>(
                    builder.chars,
                    builder.values,
                    builder.filepath,
                    builder.file_lines,
                    Err(e),
                )
    }
}

impl GetValueIndexGenerator {
    /// There is an index to choose.
    #[verifier::type_invariant]
    spec fn inv(&self) -> bool {
        self.values_count > 0
    }

    /// Whether this generator may produce null.
    pub closed spec fn nullable_of(&self) -> Nullable {
        self.nullable
    }

    /// The number of listed values.
    pub closed spec fn count_of(&self) -> nat {
        self.values_count as nat
    }

    /// The generator `builder` describes: it counts the choices as
    /// [`build_select_values`] lists them.
    pub fn create(builder: GeneratorBuilder) -> (r: Result<Self, BuildError>)
        ensures
            value_index_create_outcome(builder, r),
    {
        if builder.generator_type != GeneratorType::GetValueIndex {
            return Err(BuildError::InvalidType(builder.generator_type));
        }
        match build_select_values::<String>(builder.chars, builder.values, builder.filepath, builder.file_lines) {
            Ok(vals) => Ok(GetValueIndexGenerator { nullable: builder.nullable, values_count: vals.len() }),
            Err(e) => Err(e),
        }
    }

    /// Whether this generator may produce null.
    pub fn is_nullable(&self) -> (r: bool)
        ensures
            r == self.nullable_of().allows_null(),
    {
        self.nullable.is_nullable()
    }

    /// An index below the number of values; fails when the index does not
    /// fit in `i32`.
    pub fn generate_without_null<R: Randomizer>(&self, rng: &mut R) -> (r: Result<DataValue, GenerateError>)
        ensures
            value_index_outcome(*self, r),
    {
        proof {
            use_type_invariant(self);
        }
        let n = rng.gen_index(self.values_count);
        if n <= i32::MAX as usize {
            Ok(DataValue::Int(n as i32))
        } else {
            Err(GenerateError::FailGenerate(String::from_str("Generated value is too big")))
        }
    }
}

} // verus!
