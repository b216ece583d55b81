//! Generators with children, and the generator of any kind.

use vstd::prelude::*;
use crate::builder::{ChildGeneratorBuilder, GeneratorBuilder, Nullable, ValueBound, Weight};
use crate::builder::generator_builder::int_bound_values;
use crate::error::BuildError;
use crate::generator::{int_bound_failure, int_bound_parses, parse_int_bound, parsed_int_bound};
use crate::generator::build_string::{eval_create_outcome, format_create_outcome};
use crate::generator::calendar::{CalendarUnit, calendar_create_outcome};
use crate::generator::primitive::{
    IncrementIdGenerator, always_null_create_outcome, bool_create_outcome, increment_id_create_outcome,
    int_create_outcome,
};
use crate::generator::random_values::{
    file_failure, file_missing, select_create_outcome, string_views, value_at_create_outcome,
    value_index_create_outcome, char_count, value_count,
};
use crate::generator_type::{GeneratorType, produces_real};
use crate::value::display_text;
use crate::context::DataValueMap;
use crate::error::GenerateError;
use crate::eval::{EvalError, Evaluator, ValueFormatter, bool_eval_exact};
use crate::generator::{Extension, Randomizer, parsed_int_value, weight_sum};
use crate::generator::build_string::{
    EvalGenerator, FormatGenerator, eval_generator_outcome, format_generator_outcome,
};
use crate::generator::calendar::{DateGenerator, DateTimeGenerator, TimeGenerator, calendar_outcome};
use crate::generator::primitive::{
    AlwaysNullGenerator, BoolGenerator, IntGenerator, int_outcome,
};
use crate::generator::random_values::{
    GetValueAtGenerator, GetValueIndexGenerator, SelectGenerator, select_generator_outcome,
    value_at_outcome, value_index_outcome,
};
use crate::value::{DataValue, SbrdInt, SbrdString, value_text};

verus! {

/// A choice of a random selection: a fixed string or a child generator.
#[derive(Debug)]
pub enum Selectable<X> {
    /// A fixed string.
    Value(String),
    /// A child generator.
    Child(Box<GeneratorNode<X>>),
}

/// Generator that uses the first child whose condition holds; a child
/// without condition always holds.
#[derive(Debug)]
pub struct CaseWhenGenerator<X> {
    /// Whether this generator may produce null.
    pub nullable: Nullable,
    /// The children with their conditions, in order.
    pub children: Vec<(Option<String>, Box<GeneratorNode<X>>)>,
}

/// Generator that uses a child chosen at random by weight.
#[derive(Debug)]
pub struct RandomChildGenerator<X> {
    /// Whether this generator may produce null.
    pub nullable: Nullable,
    /// The children with their weights.
    pub children: Vec<(Weight, Box<GeneratorNode<X>>)>,
}

/// Generator of a string or a child's value, chosen at random by weight.
#[derive(Debug)]
pub struct RandomizeGenerator<X> {
    /// Whether this generator may produce null.
    pub nullable: Nullable,
    /// The choices with their weights.
    pub selectable: Vec<(Weight, Selectable<X>)>,
}

/// Generator of strings joined from a count of choices taken at random by
/// weight; empty texts are left out, and the separator stands between the others.
#[derive(Debug)]
pub struct DuplicatePermutationGenerator<X> {
    /// Whether this generator may produce null.
    pub nullable: Nullable,
    /// Range of the count of choices taken.
    pub count_range: ValueBound<SbrdInt>,
    /// Text between joined texts.
    pub separator: String,
    /// The choices with their weights.
    pub selectable: Vec<(Weight, Selectable<X>)>,
}

/// A sequential identifier in a tree of generators: the identifier itself
/// is kept among the counters of the tree, at `slot`.
#[derive(Debug)]
pub struct IncrementSlot {
    /// Whether this generator may produce null.
    pub nullable: Nullable,
    /// Position of the identifier among the counters of the tree.
    pub slot: usize,
    /// Difference between successive identifiers.
    pub step: SbrdInt,
}

/// A generator of any kind within a tree of generators; `X` supplies the
/// generators of real numbers.
#[derive(Debug)]
pub enum GeneratorNode<X> {
    /// Joined choices.
    DuplicatePermutation(DuplicatePermutationGenerator<X>),
    /// Filled format.
    Format(FormatGenerator),
    /// Result of a script.
    Eval(EvalGenerator),
    /// Integer in a range.
    Int(IntGenerator),
    /// Boolean.
    Bool(BoolGenerator),
    /// Date-time in a range.
    DateTime(DateTimeGenerator),
    /// Date in a range.
    Date(DateGenerator),
    /// Time of day in a range.
    Time(TimeGenerator),
    /// Null.
    AlwaysNull(AlwaysNullGenerator),
    /// Sequential identifiers.
    IncrementId(IncrementSlot),
    /// First child whose condition holds.
    CaseWhen(CaseWhenGenerator<X>),
    /// Child chosen by weight.
    RandomChild(RandomChildGenerator<X>),
    /// Integer chosen from a list.
    SelectInt(SelectGenerator<SbrdInt>),
    /// String chosen from a list.
    SelectString(SelectGenerator<SbrdString>),
    /// Integer at the index a script gives.
    GetIntValueAt(GetValueAtGenerator<SbrdInt>),
    /// String at the index a script gives.
    GetStringValueAt(GetValueAtGenerator<SbrdString>),
    /// Random index into a list.
    GetValueIndex(GetValueIndexGenerator),
    /// String or child's value chosen by weight.
    Randomize(RandomizeGenerator<X>),
    /// Generator of real numbers from outside this crate.
    Extension(X),
}

/// A generator gives null only where it allows null; otherwise it gives
/// exactly what it yields without the chance of null. So the outcomes of
/// `generate` (those that `produces` admits) are the outcomes of
/// `generate_without_null` (those that `yields` admits), with null added
/// where the generator is nullable, and no other when it is not.
pub proof fn law_null_or_yield<X: Extension>(node: GeneratorNode<X>, ctx: Map<Seq<char>, DataValue>, r: Result<DataValue, GenerateError>)
    ensures
        node.produces(ctx, r) <==> ((node.allows_null() && r == Ok::<DataValue, GenerateError>(DataValue::Null))
            || node.yields(ctx, r)),
        !node.allows_null() ==> (node.produces(ctx, r) <==> node.yields(ctx, r)),
{
}

/// Whether the condition `c` of a child evaluates to `b` in `ctx`; a child
/// without a condition always holds.
pub open spec fn condition_is<F: ValueFormatter>(c: Option<String>, ctx: Map<Seq<char>, DataValue>, b: bool) -> bool {
    match c {
        None => b,
        Some(s) => bool_eval_exact::<F>(s@, ctx, Ok::<bool, EvalError>(b)),
    }
}

/// The weights of weighted items.
pub open spec fn weights_of<T>(items: Seq<(Weight, T)>) -> Seq<u128> {
    items.map_values(|it: (Weight, T)| it.0 as u128)
}

/// The non-empty texts of `parts` joined with `sep` between them.
pub open spec fn join_nonempty(parts: Seq<Seq<char>>, sep: Seq<char>) -> Seq<char>
    decreases parts.len(),
{
    if parts.len() == 0 {
        Seq::empty()
    } else {
        let head = join_nonempty(parts.drop_last(), sep);
        let p = parts.last();
        if p.len() == 0 {
            head
        } else if head.len() == 0 {
            p
        } else {
            head + sep + p
        }
    }
}

/// Joined choices keep the order in which they were chosen: a non-empty
/// text chosen after others comes after their joined text, behind the
/// separator.
pub proof fn law_join_appends_part(parts: Seq<Seq<char>>, p: Seq<char>, sep: Seq<char>)
    requires
        join_nonempty(parts, sep).len() > 0,
        p.len() > 0,
    ensures
        join_nonempty(parts.push(p), sep) == join_nonempty(parts, sep) + sep + p,
{
    assert(parts.push(p).drop_last() =~= parts);
}

/// An empty text chosen changes nothing of the joined text.
pub proof fn law_join_skips_empty_part(parts: Seq<Seq<char>>, sep: Seq<char>)
    ensures
        join_nonempty(parts.push(Seq::empty()), sep) == join_nonempty(parts, sep),
{
    assert(parts.push(Seq::empty()).drop_last() =~= parts);
}

/// The first text chosen, when it is not empty, begins the joined text.
pub proof fn law_join_begins_with_first_part(parts: Seq<Seq<char>>, sep: Seq<char>)
    requires
        parts.len() > 0,
        parts[0].len() > 0,
    ensures
        join_nonempty(parts, sep).len() >= parts[0].len(),
        join_nonempty(parts, sep).take(parts[0].len() as int) == parts[0],
    decreases parts.len(),
{
    let j = join_nonempty(parts, sep);
    if parts.len() == 1 {
        assert(parts.drop_last() =~= Seq::<Seq<char>>::empty());
        assert(join_nonempty(parts.drop_last(), sep) == Seq::<char>::empty());
        assert(j == parts[0]);
        assert(j.take(parts[0].len() as int) =~= parts[0]);
    } else {
        let init = parts.drop_last();
        assert(init[0] == parts[0]);
        law_join_begins_with_first_part(init, sep);
        let head = join_nonempty(init, sep);
        let p = parts.last();
        if p.len() == 0 {
            assert(j == head);
        } else {
            assert(j == head + sep + p);
            assert((head + sep + p).take(parts[0].len() as int) =~= head.take(parts[0].len() as int));
        }
    }
}

impl<X: Extension> GeneratorNode<X> {
    /// Whether this generator may produce null; unknown for generators from outside.
    pub open spec fn allows_null(self) -> bool {
        match self {
            GeneratorNode::DuplicatePermutation(g) => g.nullable.allows_null(),
            GeneratorNode::Format(g) => g.nullable_of().allows_null(),
            GeneratorNode::Eval(g) => g.nullable_of().allows_null(),
            GeneratorNode::Int(g) => g.nullable_of().allows_null(),
            GeneratorNode::Bool(g) => g.nullable_of().allows_null(),
            GeneratorNode::DateTime(g) => g.calendar_of().nullable_of().allows_null(),
            GeneratorNode::Date(g) => g.calendar_of().nullable_of().allows_null(),
            GeneratorNode::Time(g) => g.calendar_of().nullable_of().allows_null(),
            GeneratorNode::AlwaysNull(_) => true,
            GeneratorNode::IncrementId(g) => g.nullable.allows_null(),
            GeneratorNode::CaseWhen(g) => g.nullable.allows_null(),
            GeneratorNode::RandomChild(g) => g.nullable.allows_null(),
            GeneratorNode::SelectInt(g) => g.nullable_of().allows_null(),
            GeneratorNode::SelectString(g) => g.nullable_of().allows_null(),
            GeneratorNode::GetIntValueAt(g) => g.nullable_of().allows_null(),
            GeneratorNode::GetStringValueAt(g) => g.nullable_of().allows_null(),
            GeneratorNode::GetValueIndex(g) => g.nullable_of().allows_null(),
            GeneratorNode::Randomize(g) => g.nullable.allows_null(),
            GeneratorNode::Extension(_) => false,
        }
    }

    /// Whether this generator may give `r` in `ctx` without the chance of
    /// null. A sequential identifier is any integer here, since the
    /// identifier moves on with each use (`moves_without_null` says which);
    /// generators from outside may give anything.
    pub open spec fn yields(self, ctx: Map<Seq<char>, DataValue>, r: Result<DataValue, GenerateError>) -> bool
        decreases self,
    {
        match self {
            GeneratorNode::DuplicatePermutation(g) => match r {
                Ok(v) => v is String && exists|count: SbrdInt, parts: Seq<Seq<char>>|
                    #![trigger g.count_range.admits(count), join_nonempty(parts, g.separator@)]
                    g.count_range.admits(count) && parts.len() == (if count < 0 {
                        0
                    } else {
                        count as int
                    }) && v->String_0@ == join_nonempty(parts, g.separator@) && forall|k: int|
                        #![trigger parts[k]]
                        0 <= k < parts.len() ==> exists|i: int|
                            0 <= i < g.selectable@.len() && g.selectable@[i].0 > 0 && match #[trigger] g.selectable@[i].1 {
                                Selectable::Value(s) => parts[k] == s@,
                                Selectable::Child(c) => exists|w: DataValue|
                                    ((c.allows_null() && w == DataValue::Null) || c.yields(ctx, Ok(w))) && parts[k]
                                        == value_text(w),
                            },
                Err(e) => (exists|i: int|
                    0 <= i < g.selectable@.len() && g.selectable@[i].0 > 0 && (#[trigger] g.selectable@[i].1 matches Selectable::Child(c)
                        && c.yields(ctx, Err(e)))) || (e is FailGenerate && (weight_sum(
                    weights_of(g.selectable@),
                ) == 0 || forall|count: SbrdInt| !g.count_range.admits(count))),
            },
            GeneratorNode::Format(g) => format_generator_outcome::<X>(g, ctx, r),
            GeneratorNode::Eval(g) => eval_generator_outcome::<X>(g, ctx, r),
            GeneratorNode::Int(g) => int_outcome(g, r),
            GeneratorNode::Bool(_) => r matches Ok(DataValue::Bool(_)),
            GeneratorNode::DateTime(g) => calendar_outcome::<X>(g.calendar_of(), ctx, r),
            GeneratorNode::Date(g) => calendar_outcome::<X>(g.calendar_of(), ctx, r),
            GeneratorNode::Time(g) => calendar_outcome::<X>(g.calendar_of(), ctx, r),
            GeneratorNode::AlwaysNull(_) => r == Ok::<DataValue, GenerateError>(DataValue::Null),
            GeneratorNode::IncrementId(_) => r matches Ok(DataValue::Int(_)) || r matches Err(GenerateError::FailGenerate(_)),
            GeneratorNode::CaseWhen(g) => (exists|i: int|
                0 <= i < g.children@.len() && (forall|j: int|
                    0 <= j < i ==> condition_is::<X>((#[trigger] g.children@[j]).0, ctx, false)) && condition_is::<X>(
                    (#[trigger] g.children@[i]).0,
                    ctx,
                    true,
                ) && ((g.children@[i].1.allows_null() && r == Ok::<DataValue, GenerateError>(DataValue::Null))
                    || g.children@[i].1.yields(ctx, r))) || (r matches Err(GenerateError::FailEval(e, s, c)) && c@
                == ctx && exists|i: int|
                0 <= i < g.children@.len() && (forall|j: int|
                    0 <= j < i ==> condition_is::<X>((#[trigger] g.children@[j]).0, ctx, false)) && (#[trigger] g.children@[i]).0
                    == Some(s) && bool_eval_exact::<X>(s@, ctx, Err::<bool, EvalError>(e))) || (r matches Err(
                GenerateError::FailGenerate(_),
            ) && (r matches Err(GenerateError::FailGenerate(m)) && m@ == "No match case condition"@) && forall|j: int|
                0 <= j < g.children@.len() ==> condition_is::<X>((#[trigger] g.children@[j]).0, ctx, false)),
            GeneratorNode::RandomChild(g) => (exists|i: int|
                0 <= i < g.children@.len() && (#[trigger] g.children@[i]).0 > 0 && ((g.children@[i].1.allows_null()
                    && r == Ok::<DataValue, GenerateError>(DataValue::Null)) || g.children@[i].1.yields(ctx, r)))
                || (r matches Err(GenerateError::FailGenerate(_)) && weight_sum(weights_of(g.children@)) == 0),
            GeneratorNode::SelectInt(g) => select_generator_outcome(g, r),
            GeneratorNode::SelectString(g) => select_generator_outcome(g, r),
            GeneratorNode::GetIntValueAt(g) => value_at_outcome::<_, X>(g, ctx, r),
            GeneratorNode::GetStringValueAt(g) => value_at_outcome::<_, X>(g, ctx, r),
            GeneratorNode::GetValueIndex(g) => value_index_outcome(g, r),
            GeneratorNode::Randomize(g) => (exists|i: int|
                0 <= i < g.selectable@.len() && g.selectable@[i].0 > 0 && match #[trigger] g.selectable@[i].1 {
                    Selectable::Value(s) => r == Ok::<DataValue, GenerateError>(DataValue::String(s)),
                    Selectable::Child(c) => (c.allows_null() && r == Ok::<DataValue, GenerateError>(DataValue::Null))
                        || c.yields(ctx, r),
                }) || (r matches Err(GenerateError::FailGenerate(_)) && weight_sum(weights_of(g.selectable@)) == 0),
            GeneratorNode::Extension(_) => true,
        }
    }

    /// Whether this generator may give `r` in `ctx`: null when it allows
    /// null, or what it yields.
    pub open spec fn produces(self, ctx: Map<Seq<char>, DataValue>, r: Result<DataValue, GenerateError>) -> bool {
        (self.allows_null() && r == Ok::<DataValue, GenerateError>(DataValue::Null)) || self.yields(ctx, r)
    }

    /// Whether one use of this generator in `ctx`, without the chance of
    /// null, may give `r` when the identifiers of the sequential-identifier
    /// generators in it are `before`, leaving them at `after`. Each of them
    /// that runs gives its current identifier and moves it on by its step;
    /// nothing else changes them. Joined choices run their choices one after
    /// the other, each from the identifiers the one before left.
    pub open spec fn moves_without_null(
        self,
        ctx: Map<Seq<char>, DataValue>,
        before: Seq<SbrdInt>,
        r: Result<DataValue, GenerateError>,
        after: Seq<SbrdInt>,
    ) -> bool
        decreases self, 0int,
    {
        match self {
            GeneratorNode::IncrementId(s) => increment_outcome(s, before, r, after),
            GeneratorNode::CaseWhen(g) => (exists|i: int|
                0 <= i < g.children@.len() && (forall|j: int|
                    0 <= j < i ==> condition_is::<X>((#[trigger] g.children@[j]).0, ctx, false)) && condition_is::<X>(
                    (#[trigger] g.children@[i]).0,
                    ctx,
                    true,
                ) && ((g.children@[i].1.allows_null() && r == Ok::<DataValue, GenerateError>(DataValue::Null) && after
                    == before) || g.children@[i].1.moves_without_null(ctx, before, r, after))) || (after == before && (
            (r matches Err(GenerateError::FailEval(e, s, c)) && c@ == ctx && exists|i: int|
                0 <= i < g.children@.len() && (forall|j: int|
                    0 <= j < i ==> condition_is::<X>((#[trigger] g.children@[j]).0, ctx, false)) && (#[trigger] g.children@[i]).0
                    == Some(s) && bool_eval_exact::<X>(s@, ctx, Err::<bool, EvalError>(e))) || ((r matches Err(
                GenerateError::FailGenerate(m),
            ) && m@ == "No match case condition"@) && forall|j: int|
                0 <= j < g.children@.len() ==> condition_is::<X>((#[trigger] g.children@[j]).0, ctx, false)))),
            GeneratorNode::RandomChild(g) => (exists|i: int|
                0 <= i < g.children@.len() && (#[trigger] g.children@[i]).0 > 0 && ((g.children@[i].1.allows_null()
                    && r == Ok::<DataValue, GenerateError>(DataValue::Null) && after == before)
                    || g.children@[i].1.moves_without_null(ctx, before, r, after))) || (r matches Err(
                GenerateError::FailGenerate(_),
            ) && weight_sum(weights_of(g.children@)) == 0 && after == before),
            GeneratorNode::Randomize(g) => (exists|i: int|
                0 <= i < g.selectable@.len() && g.selectable@[i].0 > 0 && selectable_moves(
                    #[trigger] g.selectable@[i].1,
                    ctx,
                    before,
                    r,
                    after,
                )) || (r matches Err(GenerateError::FailGenerate(_)) && weight_sum(weights_of(g.selectable@)) == 0
                && after == before),
            GeneratorNode::DuplicatePermutation(g) => match r {
                Ok(v) => v is String && exists|
                    parts: Seq<Seq<char>>,
                    states: Seq<Seq<SbrdInt>>,
                    picks: Seq<int>,
                    ws: Seq<DataValue>,
                |
                    #![trigger parts.len(), states.len(), picks.len(), ws.len()]
                    v->String_0@ == join_nonempty(parts, g.separator@) && states.len() == parts.len() + 1
                        && picks.len() == parts.len() && ws.len() == parts.len() && states[0] == before
                        && states[parts.len() as int] == after && pick_chain(
                        g.selectable@,
                        ctx,
                        parts,
                        states,
                        picks,
                        ws,
                        parts.len() as int,
                    ),
                Err(e) => exists|parts: Seq<Seq<char>>, states: Seq<Seq<SbrdInt>>, picks: Seq<int>, ws: Seq<DataValue>|
                    #![trigger parts.len(), states.len(), picks.len(), ws.len()]
                    states.len() == parts.len() + 1 && picks.len() == parts.len() && ws.len() == parts.len()
                        && states[0] == before && pick_chain(g.selectable@, ctx, parts, states, picks, ws, parts.len() as int)
                        && ((exists|i: int|
                        0 <= i < g.selectable@.len() && g.selectable@[i].0 > 0 && selectable_moves(
                            #[trigger] g.selectable@[i].1,
                            ctx,
                            states[parts.len() as int],
                            Err(e),
                            after,
                        )) || (e is FailGenerate && after == states[parts.len() as int] && (weight_sum(
                        weights_of(g.selectable@),
                    ) == 0 || forall|count: SbrdInt| !g.count_range.admits(count)))),
            },
            _ => self.yields(ctx, r) && after == before,
        }
    }

    /// Whether one use of this generator may give `r`, moving the
    /// identifiers of its sequential-identifier generators from `before` to
    /// `after`: null, changing nothing, when it allows null, or what it gives
    /// without the chance of null.
    pub open spec fn moves(
        self,
        ctx: Map<Seq<char>, DataValue>,
        before: Seq<SbrdInt>,
        r: Result<DataValue, GenerateError>,
        after: Seq<SbrdInt>,
    ) -> bool {
        (self.allows_null() && r == Ok::<DataValue, GenerateError>(DataValue::Null) && after == before)
            || self.moves_without_null(ctx, before, r, after)
    }
}

/// Whether the first `k` of choices of `items` taken one after the other
/// each took the choice `picks[j]`, of positive weight, which gave `ws[j]`,
/// whose text is `parts[j]`, and moved the identifiers from `states[j]` to
/// `states[j + 1]`.
pub open spec fn pick_chain<X: Extension>(
    items: Seq<(Weight, Selectable<X>)>,
    ctx: Map<Seq<char>, DataValue>,
    parts: Seq<Seq<char>>,
    states: Seq<Seq<SbrdInt>>,
    picks: Seq<int>,
    ws: Seq<DataValue>,
    k: int,
) -> bool
    decreases items, k,
{
    if k <= 0 {
        true
    } else {
        &&& pick_chain(items, ctx, parts, states, picks, ws, k - 1)
        &&& 0 <= picks[k - 1] < items.len()
        &&& items[picks[k - 1]].0 > 0
        &&& selectable_moves(items[picks[k - 1]].1, ctx, states[k - 1], Ok::<DataValue, GenerateError>(ws[k - 1]), states[k])
        &&& parts[k - 1] == value_text(ws[k - 1])
    }
}

/// A chain of choices depends only on its first `k` steps.
proof fn lemma_pick_chain_prefix<X: Extension>(
    items: Seq<(Weight, Selectable<X>)>,
    ctx: Map<Seq<char>, DataValue>,
    parts: Seq<Seq<char>>,
    states: Seq<Seq<SbrdInt>>,
    picks: Seq<int>,
    ws: Seq<DataValue>,
    parts2: Seq<Seq<char>>,
    states2: Seq<Seq<SbrdInt>>,
    picks2: Seq<int>,
    ws2: Seq<DataValue>,
    k: int,
)
    requires
        0 <= k,
        k <= parts.len(),
        k <= parts2.len(),
        k <= picks.len(),
        k <= picks2.len(),
        k <= ws.len(),
        k <= ws2.len(),
        k < states.len(),
        k < states2.len(),
        forall|j: int| 0 <= j < k ==> parts[j] == parts2[j] && picks[j] == picks2[j] && ws[j] == ws2[j],
        forall|j: int| 0 <= j <= k ==> states[j] == states2[j],
    ensures
        pick_chain(items, ctx, parts, states, picks, ws, k) == pick_chain(items, ctx, parts2, states2, picks2, ws2, k),
    decreases k,
{
    if k > 0 {
        lemma_pick_chain_prefix(items, ctx, parts, states, picks, ws, parts2, states2, picks2, ws2, k - 1);
    }
}

/// Whether taking the choice `c` may give `r`, moving the identifiers from
/// `before` to `after`: a string gives itself and changes nothing; a child
/// generates.
pub open spec fn selectable_moves<X: Extension>(
    c: Selectable<X>,
    ctx: Map<Seq<char>, DataValue>,
    before: Seq<SbrdInt>,
    r: Result<DataValue, GenerateError>,
    after: Seq<SbrdInt>,
) -> bool
    decreases c, 0int,
{
    match c {
        Selectable::Value(s) => r == Ok::<DataValue, GenerateError>(DataValue::String(s)) && after == before,
        Selectable::Child(n) => (n.allows_null() && r == Ok::<DataValue, GenerateError>(DataValue::Null) && after == before)
            || n.moves_without_null(ctx, before, r, after),
    }
}

/// Weights as wide integers, the first of the pair, with their sum.
fn item_weights<T>(items: &Vec<(Weight, T)>) -> (r: (Vec<u128>, u128))
    ensures
        r.0@ == weights_of(items@),
        r.1 == weight_sum(r.0@),
{
    let mut weights: Vec<u128> = Vec::new();
    let mut total: u128 = 0;
    let mut i: usize = 0;
    while i < items.len()
        invariant
            i <= items@.len(),
            weights@ == weights_of(items@).take(i as int),
            total == weight_sum(weights@),
            total <= 255 * i,
        decreases items@.len() - i,
    {
        let w = items[i].0 as u128;
        assert(total + w <= 255 * (i + 1)) by (nonlinear_arith)
            requires
                total <= 255 * i,
                w <= 255,
        ;
        assert(255 * (i + 1) <= 255 * 0x1_0000_0000_0000_0000u128) by (nonlinear_arith)
            requires
                i < 0x1_0000_0000_0000_0000u128,
        ;
        let ghost before = weights@;
        weights.push(w);
        total = total + w;
        assert(weights@.drop_last() =~= before);
        i = i + 1;
        assert(weights@ =~= weights_of(items@).take(i as int));
    }
    assert(weights_of(items@).take(i as int) =~= weights_of(items@));
    (weights, total)
}

/// What one use of the sequential identifier `s` does, with `before` the
/// identifiers before and `after` those after: it gives the current one and
/// moves it on by the step, or fails, changing nothing, when the slot is
/// missing or the next identifier would leave `i32`.
pub open spec fn increment_outcome(
    s: IncrementSlot,
    before: Seq<SbrdInt>,
    r: Result<DataValue, GenerateError>,
    after: Seq<SbrdInt>,
) -> bool {
    if s.slot < before.len() && i32::MIN <= before[s.slot as int] + s.step <= i32::MAX {
        &&& r == Ok::<DataValue, GenerateError>(DataValue::Int(before[s.slot as int]))
        &&& after == before.update(s.slot as int, (before[s.slot as int] + s.step) as i32)
    } else {
        &&& r matches Err(GenerateError::FailGenerate(_))
        &&& after == before
    }
}

/// The next identifier of `slot`, moving it on by its step; fails when the
/// slot is missing or the identifier after would leave `i32`.
fn next_increment(slot: &IncrementSlot, counters: &mut Vec<SbrdInt>) -> (r: Result<DataValue, GenerateError>)
    ensures
        increment_outcome(*slot, old(counters)@, r, final(counters)@),
        final(counters)@.len() == old(counters)@.len(),
{
    if slot.slot >= counters.len() {
        return Err(GenerateError::FailGenerate(String::from_str("The identifier is missing")));
    }
    let id = counters[slot.slot];
    match id.checked_add(slot.step) {
        Some(next) => {
            counters.set(slot.slot, next);
            Ok(DataValue::Int(id))
        },
        None => Err(GenerateError::FailGenerate(String::from_str("The next identifier is beyond the range of i32"))),
    }
}

impl<X: Extension> GeneratorNode<X> {
    /// Whether this generator may produce null.
    pub fn is_nullable(&self) -> (r: bool)
        ensures
            !(self is Extension) ==> r == self.allows_null(),
    {
        match self {
            GeneratorNode::DuplicatePermutation(g) => g.nullable.is_nullable(),
            GeneratorNode::Format(g) => g.is_nullable(),
            GeneratorNode::Eval(g) => g.is_nullable(),
            GeneratorNode::Int(g) => g.is_nullable(),
            GeneratorNode::Bool(g) => g.is_nullable(),
            GeneratorNode::DateTime(g) => g.is_nullable(),
            GeneratorNode::Date(g) => g.is_nullable(),
            GeneratorNode::Time(g) => g.is_nullable(),
            GeneratorNode::AlwaysNull(g) => g.is_nullable(),
            GeneratorNode::IncrementId(g) => g.nullable.is_nullable(),
            GeneratorNode::CaseWhen(g) => g.nullable.is_nullable(),
            GeneratorNode::RandomChild(g) => g.nullable.is_nullable(),
            GeneratorNode::SelectInt(g) => g.is_nullable(),
            GeneratorNode::SelectString(g) => g.is_nullable(),
            GeneratorNode::GetIntValueAt(g) => g.is_nullable(),
            GeneratorNode::GetStringValueAt(g) => g.is_nullable(),
            GeneratorNode::GetValueIndex(g) => g.is_nullable(),
            GeneratorNode::Randomize(g) => g.nullable.is_nullable(),
            GeneratorNode::Extension(x) => x.is_nullable(),
        }
    }

    /// A value: null with probability one tenth when this generator allows
    /// null, and otherwise what it yields.
    pub fn generate<R: Randomizer>(&self, counters: &mut Vec<SbrdInt>, rng: &mut R, context: &DataValueMap) -> (r: Result<DataValue, GenerateError>)
        ensures
            self.produces(context@, r),
            self.moves(context@, old(counters)@, r, final(counters)@),
            final(counters)@.len() == old(counters)@.len(),
            self matches GeneratorNode::IncrementId(s) ==> (s.nullable.allows_null() && r == Ok::<
                DataValue,
                GenerateError,
            >(DataValue::Null) && final(counters)@ == old(counters)@) || increment_outcome(
                *s,
                old(counters)@,
                r,
                final(counters)@,
            ),
        decreases self, 2int,
    {
        if self.is_nullable() {
            if rng.gen_ratio(1, 10) {
                return Ok(DataValue::Null);
            }
        }
        self.generate_without_null(counters, rng, context)
    }

    /// A value produced without the chance of null.
    pub fn generate_without_null<R: Randomizer>(&self, counters: &mut Vec<SbrdInt>, rng: &mut R, context: &DataValueMap) -> (r: Result<DataValue, GenerateError>)
        ensures
            self.yields(context@, r),
            self.moves_without_null(context@, old(counters)@, r, final(counters)@),
            final(counters)@.len() == old(counters)@.len(),
            self matches GeneratorNode::IncrementId(s) ==> increment_outcome(*s, old(counters)@, r, final(counters)@),
        decreases self, 1int,
    {
        match self {
            GeneratorNode::DuplicatePermutation(g) => generate_permutation(g, counters, rng, context),
            GeneratorNode::Format(g) => g.generate_without_null::<X>(context),
            GeneratorNode::Eval(g) => g.generate_without_null::<X>(context),
            GeneratorNode::Int(g) => g.generate_without_null(rng),
            GeneratorNode::Bool(g) => g.generate_without_null(rng),
            GeneratorNode::DateTime(g) => g.generate_without_null::<R, X>(rng, context),
            GeneratorNode::Date(g) => g.generate_without_null::<R, X>(rng, context),
            GeneratorNode::Time(g) => g.generate_without_null::<R, X>(rng, context),
            GeneratorNode::AlwaysNull(g) => g.generate_without_null(),
            GeneratorNode::IncrementId(g) => next_increment(g, counters),
            GeneratorNode::CaseWhen(g) => generate_case_when(g, counters, rng, context),
            GeneratorNode::RandomChild(g) => generate_random_child(g, counters, rng, context),
            GeneratorNode::SelectInt(g) => g.generate_without_null(rng),
            GeneratorNode::SelectString(g) => g.generate_without_null(rng),
            GeneratorNode::GetIntValueAt(g) => g.generate_without_null::<X>(context),
            GeneratorNode::GetStringValueAt(g) => g.generate_without_null::<X>(context),
            GeneratorNode::GetValueIndex(g) => g.generate_without_null(rng),
            GeneratorNode::Randomize(g) => choose_selectable(&g.selectable, counters, rng, context),
            GeneratorNode::Extension(x) => x.generate_without_null(context),
        }
    }
}

/// The first child whose condition holds generates.
fn generate_case_when<X: Extension, R: Randomizer>(
    g: &CaseWhenGenerator<X>,
    counters: &mut Vec<SbrdInt>,
    rng: &mut R,
    context: &DataValueMap,
) -> (r: Result<DataValue, GenerateError>)
    ensures
        GeneratorNode::CaseWhen(*g).yields(context@, r),
        GeneratorNode::CaseWhen(*g).moves_without_null(context@, old(counters)@, r, final(counters)@),
        final(counters)@.len() == old(counters)@.len(),
    decreases g, 0int,
{
    let ghost node = GeneratorNode::CaseWhen(*g);
    let ghost start = counters@;
    let mut i: usize = 0;
    while i < g.children.len()
        invariant
            i <= g.children@.len(),
            forall|j: int| 0 <= j < i ==> condition_is::<X>((#[trigger] g.children@[j]).0, context@, false),
            counters@ == old(counters)@,
            start == old(counters)@,
            node == GeneratorNode::CaseWhen(*g),
        decreases g.children@.len() - i,
    {
        let child = &g.children[i];
        match &child.0 {
            None => {
                let r = child.1.generate(counters, rng, context);
                proof {
                    assert(condition_is::<X>(g.children@[i as int].0, context@, true));
                    assert(g.children@[i as int].1.moves(context@, start, r, counters@));
                    assert(node.moves_without_null(context@, start, r, counters@));
                }
                return r;
            },
            Some(condition) => {
                match Evaluator::new(context).eval_bool::<X>(condition.as_str()) {
                    Err(e) => {
                        let r = Err(GenerateError::FailEval(e, condition.clone(), context.duplicate()));
                        proof {
                            assert(node.moves_without_null(context@, start, r, counters@));
                        }
                        return r;
                    },
                    Ok(holds) => {
                        if holds {
                            let r = child.1.generate(counters, rng, context);
                            proof {
                                assert(condition_is::<X>(g.children@[i as int].0, context@, true));
                                assert(g.children@[i as int].1.moves(context@, start, r, counters@));
                                assert(node.moves_without_null(context@, start, r, counters@));
                            }
                            return r;
                        }
                    },
                }
            },
        }
        i = i + 1;
    }
    let r = Err(GenerateError::FailGenerate(String::from_str("No match case condition")));
    proof {
        assert(node.moves_without_null(context@, start, r, counters@));
    }
    return r;
}

/// A child chosen at random by weight generates.
fn generate_random_child<X: Extension, R: Randomizer>(
    g: &RandomChildGenerator<X>,
    counters: &mut Vec<SbrdInt>,
    rng: &mut R,
    context: &DataValueMap,
) -> (r: Result<DataValue, GenerateError>)
    ensures
        GeneratorNode::RandomChild(*g).yields(context@, r),
        GeneratorNode::RandomChild(*g).moves_without_null(context@, old(counters)@, r, final(counters)@),
        final(counters)@.len() == old(counters)@.len(),
    decreases g, 0int,
{
    let (weights, total) = item_weights(&g.children);
    if g.children.len() == 0 {
        return Err(GenerateError::FailGenerate(String::from_str("No weights provided in distribution")));
    }
    if total == 0 {
        return Err(GenerateError::FailGenerate(String::from_str("All weights are zero in distribution")));
    }
    let i = rng.gen_weighted_index(&weights);
    assert(weights@[i as int] == g.children@[i as int].0 as u128);
    let r = g.children[i].1.generate(counters, rng, context);
    assert(g.children@[i as int].1.produces(context@, r));
    assert(0 <= i < g.children@.len() && g.children@[i as int].0 > 0 && ((g.children@[i as int].1.allows_null()
        && r == Ok::<DataValue, GenerateError>(DataValue::Null)) || g.children@[i as int].1.yields(context@, r)));
    let ghost node = GeneratorNode::RandomChild(*g);
    assert(node matches GeneratorNode::RandomChild(h) && h == *g);
    assert(node.yields(context@, r));
    r
}

/// A choice taken at random by weight: a string gives itself, a child generates.
fn choose_selectable<X: Extension, R: Randomizer>(
    items: &Vec<(Weight, Selectable<X>)>,
    counters: &mut Vec<SbrdInt>,
    rng: &mut R,
    context: &DataValueMap,
) -> (r: Result<DataValue, GenerateError>)
    ensures
        (exists|i: int|
            0 <= i < items@.len() && items@[i].0 > 0 && match #[trigger] items@[i].1 {
                Selectable::Value(s) => r == Ok::<DataValue, GenerateError>(DataValue::String(s)),
                Selectable::Child(c) => c.produces(context@, r),
            }) || (r matches Err(GenerateError::FailGenerate(_)) && weight_sum(weights_of(items@)) == 0),
        (exists|i: int|
            0 <= i < items@.len() && items@[i].0 > 0 && selectable_moves(
                #[trigger] items@[i].1,
                context@,
                old(counters)@,
                r,
                final(counters)@,
            )) || (r matches Err(GenerateError::FailGenerate(_)) && weight_sum(weights_of(items@)) == 0 && final(counters)@ == old(counters)@),
        final(counters)@.len() == old(counters)@.len(),
    decreases items, 0int,
{
    let (weights, total) = item_weights(items);
    if items.len() == 0 {
        return Err(GenerateError::FailGenerate(String::from_str("No weights provided in distribution")));
    }
    if total == 0 {
        return Err(GenerateError::FailGenerate(String::from_str("All weights are zero in distribution")));
    }
    let i = rng.gen_weighted_index(&weights);
    match &items[i].1 {
        Selectable::Value(s) => Ok(DataValue::String(s.clone())),
        Selectable::Child(c) => c.generate(counters, rng, context),
    }
}

/// A count of choices in the range, their texts joined.
fn generate_permutation<X: Extension, R: Randomizer>(
    g: &DuplicatePermutationGenerator<X>,
    counters: &mut Vec<SbrdInt>,
    rng: &mut R,
    context: &DataValueMap,
) -> (r: Result<DataValue, GenerateError>)
    ensures
        GeneratorNode::DuplicatePermutation(*g).yields(context@, r),
        GeneratorNode::DuplicatePermutation(*g).moves_without_null(context@, old(counters)@, r, final(counters)@),
        final(counters)@.len() == old(counters)@.len(),
    decreases g, 0int,
{
    let ghost node = GeneratorNode::DuplicatePermutation(*g);
    let ghost start = counters@;
    let low: SbrdInt = match g.count_range.get_start() {
        Some(s) => *s,
        None => i32::MIN,
    };
    let high: SbrdInt = match g.count_range.get_end() {
        Some(e) => {
            if g.count_range.is_include_end() {
                *e
            } else if *e == i32::MIN {
                let r = Err(GenerateError::FailGenerate(String::from_str("No count lies in the range")));
                proof {
                    let parts: Seq<Seq<char>> = Seq::empty();
                    let states = seq![start];
                    let picks: Seq<int> = Seq::empty();
                    let ws: Seq<DataValue> = Seq::empty();
                    assert(parts.len() == 0 && states.len() == 1 && picks.len() == 0 && ws.len() == 0);
                    assert(pick_chain(g.selectable@, context@, parts, states, picks, ws, 0));
                    assert(node.moves_without_null(context@, start, r, counters@));
                }
                return r;
            } else {
                *e - 1
            }
        },
        None => i32::MAX,
    };
    if low > high {
        let r = Err(GenerateError::FailGenerate(String::from_str("No count lies in the range")));
        proof {
            let parts: Seq<Seq<char>> = Seq::empty();
            let states = seq![start];
            let picks: Seq<int> = Seq::empty();
            let ws: Seq<DataValue> = Seq::empty();
            assert(parts.len() == 0 && states.len() == 1 && picks.len() == 0 && ws.len() == 0);
            assert(pick_chain(g.selectable@, context@, parts, states, picks, ws, 0));
            assert(node.moves_without_null(context@, start, r, counters@));
        }
        return r;
    }
    let count = rng.gen_i32_between(low, high);
    assert(g.count_range.admits(count));
    let n: i32 = if count < 0 {
        0
    } else {
        count
    };
    let mut out: Vec<char> = Vec::new();
    let ghost mut parts: Seq<Seq<char>> = Seq::empty();
    let ghost mut states: Seq<Seq<SbrdInt>> = seq![start];
    let ghost mut picks: Seq<int> = Seq::empty();
    let ghost mut ws: Seq<DataValue> = Seq::empty();
    let mut k: i32 = 0;
    while k < n
        invariant
            node == GeneratorNode::DuplicatePermutation(*g),
            start == old(counters)@,
            states.len() == parts.len() + 1,
            states[0] == start,
            states[parts.len() as int] == counters@,
            picks.len() == parts.len(),
            ws.len() == parts.len(),
            pick_chain(g.selectable@, context@, parts, states, picks, ws, parts.len() as int),
            0 <= k <= n,
            n == (if count < 0 { 0 } else { count }),
            g.count_range.admits(count),
            parts.len() == k,
            out@ == join_nonempty(parts, g.separator@),
            forall|j: int|
                #![trigger parts[j]]
                0 <= j < parts.len() ==> exists|i: int|
                    0 <= i < g.selectable@.len() && g.selectable@[i].0 > 0 && match #[trigger] g.selectable@[i].1 {
                        Selectable::Value(s) => parts[j] == s@,
                        Selectable::Child(c) => exists|w: DataValue|
                            ((c.allows_null() && w == DataValue::Null) || c.yields(context@, Ok(w))) && parts[j]
                                == value_text(w),
                    },
            counters@.len() == old(counters)@.len(),
        decreases n - k,
    {
        let ghost before_pick = counters@;
        let chosen = choose_selectable(&g.selectable, counters, rng, context);
        let value = match chosen {
            Ok(v) => v,
            Err(e) => {
                proof {
                    let r = Err::<DataValue, GenerateError>(e);
                    assert(states[states.len() - 1] == before_pick);
                    assert(states.len() == parts.len() + 1 && picks.len() == parts.len() && ws.len() == parts.len());
                    assert(node.moves_without_null(context@, start, r, counters@));
                }
                return Err(e);
            },
        };
        let text = value.to_permutation_string();
        let text_chars = crate::text::chars_of(text.as_str());
        let ghost old_parts = parts;
        let ghost old_out = out@;
        if text_chars.len() > 0 {
            if out.len() > 0 {
                crate::text::push_chars(&mut out, g.separator.as_str());
            }
            crate::text::push_chars(&mut out, text.as_str());
        }
        proof {
            let old_states = states;
            let old_picks = picks;
            let old_ws = ws;
            let picked = choose|i: int|
                0 <= i < g.selectable@.len() && g.selectable@[i].0 > 0 && selectable_moves(
                    #[trigger] g.selectable@[i].1,
                    context@,
                    before_pick,
                    Ok::<DataValue, GenerateError>(value),
                    counters@,
                );
            states = states.push(counters@);
            picks = picks.push(picked);
            ws = ws.push(value);
            parts = parts.push(text@);
            assert(parts.drop_last() =~= old_parts);
            lemma_pick_chain_prefix(
                g.selectable@,
                context@,
                parts,
                states,
                picks,
                ws,
                old_parts,
                old_states,
                old_picks,
                old_ws,
                old_parts.len() as int,
            );
            assert(parts[old_parts.len() as int] == value_text(value));
            assert(states[old_parts.len() as int] == before_pick);
            assert(states[old_parts.len() as int + 1] == counters@);
            assert(pick_chain(g.selectable@, context@, parts, states, picks, ws, parts.len() as int));
            if text@.len() > 0 && old_out.len() > 0 {
                assert(out@ =~= old_out + g.separator@ + text@);
            }
            let i = choose|i: int|
                0 <= i < g.selectable@.len() && g.selectable@[i].0 > 0 && match #[trigger] g.selectable@[i].1 {
                    Selectable::Value(s) => Ok::<DataValue, GenerateError>(value) == Ok::<DataValue, GenerateError>(DataValue::String(s)),
                    Selectable::Child(c) => c.produces(context@, Ok(value)),
                };
            assert forall|j: int|
                #![trigger parts[j]]
                0 <= j < parts.len() implies exists|i: int|
                    0 <= i < g.selectable@.len() && g.selectable@[i].0 > 0 && match #[trigger] g.selectable@[i].1 {
                        Selectable::Value(s) => parts[j] == s@,
                        Selectable::Child(c) => exists|w: DataValue|
                            ((c.allows_null() && w == DataValue::Null) || c.yields(context@, Ok(w))) && parts[j]
                                == value_text(w),
                    } by {
                if j < old_parts.len() {
                    assert(parts[j] == old_parts[j]);
                } else {
                    assert(parts[j] == value_text(value));
                    assert(0 <= i < g.selectable@.len() && g.selectable@[i].0 > 0);
                }
            }
        }
        k = k + 1;
    }
    let r = Ok(DataValue::String(crate::text::string_of(out.as_slice())));
    proof {
        assert(g.count_range.admits(count) && parts.len() == (if count < 0 { 0 } else { count as int }));
        assert(states.len() == parts.len() + 1);
        let v = r->Ok_0;
        assert(v->String_0@ == join_nonempty(parts, g.separator@));
        assert(states[0] == start && states[parts.len() as int] == counters@);
        assert(picks.len() == parts.len() && ws.len() == parts.len());
        assert(g.count_range.admits(count) && parts.len() == (if count < 0 { 0 } else { count as int })
            && v->String_0@ == join_nonempty(parts, g.separator@) && states.len() == parts.len() + 1 && states[0]
            == start && states[parts.len() as int] == counters@);
        assert(GeneratorNode::DuplicatePermutation(*g).moves_without_null(context@, start, r, counters@));
    }
    r
}

/// The weight of a child: the given one, or 1.
pub open spec fn weight_or_one(w: Option<Weight>) -> Weight {
    match w {
        Some(v) => v,
        None => 1,
    }
}

/// The fixed strings a builder offers besides its children: each character,
/// the display text of each value, and each line of its file.
pub open spec fn fixed_choice_texts(b: GeneratorBuilder) -> Seq<Seq<char>> {
    (match b.chars {
        Some(c) => c@.map_values(|ch: char| seq![ch]),
        None => Seq::empty(),
    }) + (match b.values {
        Some(v) => v@.map_values(|d: DataValue| display_text(d)),
        None => Seq::empty(),
    }) + (match (b.filepath, b.file_lines) {
        (Some(_), Some(Ok(l))) => string_views(l@),
        _ => Seq::empty(),
    })
}

/// The fixed strings of a builder are its characters first, one text of
/// one character each and in their order, then the display texts of its
/// values in their order, then the lines of its file.
pub proof fn law_fixed_choices_in_order(b: GeneratorBuilder)
    ensures
        forall|i: int|
            0 <= i < char_count(b.chars) ==> #[trigger] fixed_choice_texts(b)[i] == seq![b.chars->0@[i]],
        forall|j: int|
            0 <= j < value_count(b.values) ==> #[trigger] fixed_choice_texts(b)[char_count(b.chars) + j]
                == display_text(b.values->0@[j]),
        (b.filepath, b.file_lines) matches (Some(_), Some(Ok(l))) ==> forall|k: int|
            0 <= k < l@.len() ==> #[trigger] fixed_choice_texts(b)[char_count(b.chars) + value_count(b.values) + k]
                == l@[k]@,
{
}

/// Whether a builder offers children or fixed strings as its rule asks:
/// the error comes when children come with all of characters, values and a
/// file, or when none of children, characters, values and a file is given.
pub open spec fn choices_allowed(b: GeneratorBuilder) -> bool {
    (b.children is Some && (b.chars is None || b.values is None || b.filepath is None)) || (b.children is None && (
    b.chars is Some || b.values is Some || b.filepath is Some))
}

/// Whether `b` offers no choice at all: no child and no fixed string.
pub open spec fn offers_nothing(b: GeneratorBuilder) -> bool {
    child_builders(b).len() + fixed_choice_texts(b).len() == 0
}

/// Whether `b` has children and each of them weighs zero.
pub open spec fn children_weigh_zero(b: GeneratorBuilder) -> bool {
    &&& child_builders(b).len() > 0
    &&& forall|k: int| 0 <= k < child_builders(b).len() ==> weight_or_one((#[trigger] child_builders(b)[k]).weight) == 0
}

/// Whether every choice `b` offers weighs zero: it has children, each
/// weighing zero, and no fixed string, which would weigh one.
pub open spec fn choices_weigh_zero(b: GeneratorBuilder) -> bool {
    children_weigh_zero(b) && fixed_choice_texts(b).len() == 0
}

/// A sum of weights is never negative.
proof fn lemma_weight_sum_nonneg(ws: Seq<u128>)
    ensures
        weight_sum(ws) >= 0,
    decreases ws.len(),
{
    if ws.len() > 0 {
        lemma_weight_sum_nonneg(ws.drop_last());
    }
}

/// Weights that are all zero sum to zero.
proof fn lemma_zero_weights_sum(ws: Seq<u128>)
    requires
        forall|k: int| 0 <= k < ws.len() ==> ws[k] == 0,
    ensures
        weight_sum(ws) == 0,
    decreases ws.len(),
{
    if ws.len() > 0 {
        lemma_zero_weights_sum(ws.drop_last());
    }
}

/// Weights that sum to zero are all zero.
proof fn lemma_zero_weight_sum(ws: Seq<u128>)
    requires
        weight_sum(ws) == 0,
    ensures
        forall|k: int| 0 <= k < ws.len() ==> ws[k] == 0,
    decreases ws.len(),
{
    if ws.len() > 0 {
        lemma_weight_sum_nonneg(ws.drop_last());
        lemma_zero_weight_sum(ws.drop_last());
        assert forall|k: int| 0 <= k < ws.len() implies ws[k] == 0 by {
            if k < ws.len() - 1 {
                assert(ws[k] == ws.drop_last()[k]);
            }
        }
    }
}

/// The children builders of a builder.
pub open spec fn child_builders(b: GeneratorBuilder) -> Seq<ChildGeneratorBuilder> {
    match b.children {
        Some(c) => c@,
        None => Seq::empty(),
    }
}

/// The count range of joined choices when none is given: 1 to 15.
pub open spec fn default_count_range() -> ValueBound<SbrdInt> {
    ValueBound::spec_new(Some(1i32), true, Some(15i32))
}

/// The count range a builder of joined choices gives: its range read as
/// integers, starting at 0 when it has no start; 1 to 15 without a range.
pub open spec fn count_range_of(b: GeneratorBuilder) -> ValueBound<SbrdInt> {
    match b.range {
        None => default_count_range(),
        Some(r) => parsed_int_bound(r).filled_from(ValueBound::spec_new(Some(0i32), false, None)),
    }
}

/// Whether `node` is a generator built from `b`.
pub open spec fn built_from<X>(b: GeneratorBuilder, node: GeneratorNode<X>) -> bool
    decreases b,
{
    match node {
        GeneratorNode::DuplicatePermutation(g) => {
            &&& b.generator_type == GeneratorType::DuplicatePermutation
            &&& g.nullable == b.nullable
            &&& g.count_range == count_range_of(b)
            &&& (count_range_of(b).lower() matches Some(s) ==> s >= 0)
            &&& !count_range_of(b).spec_is_empty()
            &&& !offers_nothing(b)
            &&& !choices_weigh_zero(b)
            &&& g.separator@ == (match b.separator {
                Some(s) => s@,
                None => Seq::<char>::empty(),
            })
            &&& g.selectable@.len() == child_builders(b).len() + fixed_choice_texts(b).len()
            &&& forall|k: int|
                0 <= k < child_builders(b).len() ==> (#[trigger] g.selectable@[k]).0 == weight_or_one(
                    child_builders(b)[k].weight,
                ) && (g.selectable@[k].1 matches Selectable::Child(c) && built_from(child_builders(b)[k].builder, *c))
            &&& forall|k: int|
                0 <= k < fixed_choice_texts(b).len() ==> (#[trigger] g.selectable@[child_builders(b).len() + k]).0
                    == 1 && (g.selectable@[child_builders(b).len() + k].1 matches Selectable::Value(s) && s@
                    == fixed_choice_texts(b)[k])
        },
        GeneratorNode::Format(g) => format_create_outcome(b, Ok(g)),
        GeneratorNode::Eval(g) => eval_create_outcome(b, Ok(g)),
        GeneratorNode::Int(g) => int_create_outcome(b, Ok(g)),
        GeneratorNode::Bool(g) => bool_create_outcome(b, Ok(g)),
        GeneratorNode::DateTime(g) => calendar_create_outcome(CalendarUnit::DateTime, b, Ok(g.calendar_of())),
        GeneratorNode::Date(g) => calendar_create_outcome(CalendarUnit::Date, b, Ok(g.calendar_of())),
        GeneratorNode::Time(g) => calendar_create_outcome(CalendarUnit::Time, b, Ok(g.calendar_of())),
        GeneratorNode::AlwaysNull(g) => always_null_create_outcome(b, Ok(g)),
        GeneratorNode::IncrementId(s) => exists|g: IncrementIdGenerator|
            increment_id_create_outcome(b, Ok(g)) && s.step == g.step_of() && s.nullable == g.nullable_of(),
        GeneratorNode::CaseWhen(g) => {
            &&& b.generator_type == GeneratorType::CaseWhen
            &&& g.nullable == b.nullable
            &&& b.children is Some
            &&& child_builders(b).len() > 0
            &&& exists|k: int| 0 <= k < child_builders(b).len() && (#[trigger] child_builders(b)[k]).condition is None
            &&& g.children@.len() == child_builders(b).len()
            &&& forall|k: int|
                0 <= k < child_builders(b).len() ==> (#[trigger] g.children@[k]).0 == child_builders(b)[k].condition
                    && built_from(child_builders(b)[k].builder, *g.children@[k].1)
        },
        GeneratorNode::RandomChild(g) => {
            &&& b.generator_type == GeneratorType::RandomChild
            &&& g.nullable == b.nullable
            &&& b.children is Some
            &&& child_builders(b).len() > 0
            &&& !children_weigh_zero(b)
            &&& g.children@.len() == child_builders(b).len()
            &&& forall|k: int|
                0 <= k < child_builders(b).len() ==> (#[trigger] g.children@[k]).0 == weight_or_one(
                    child_builders(b)[k].weight,
                ) && built_from(child_builders(b)[k].builder, *g.children@[k].1)
        },
        GeneratorNode::SelectInt(g) => select_create_outcome::<SbrdInt>(b, Ok(g)),
        GeneratorNode::SelectString(g) => select_create_outcome::<SbrdString>(b, Ok(g)),
        GeneratorNode::GetIntValueAt(g) => value_at_create_outcome::<SbrdInt>(b, Ok(g)),
        GeneratorNode::GetStringValueAt(g) => value_at_create_outcome::<SbrdString>(b, Ok(g)),
        GeneratorNode::GetValueIndex(g) => value_index_create_outcome(b, Ok(g)),
        GeneratorNode::Randomize(g) => {
            &&& b.generator_type == GeneratorType::Randomize
            &&& g.nullable == b.nullable
            &&& !offers_nothing(b)
            &&& !choices_weigh_zero(b)
            &&& g.selectable@.len() == child_builders(b).len() + fixed_choice_texts(b).len()
            &&& forall|k: int|
                0 <= k < child_builders(b).len() ==> (#[trigger] g.selectable@[k]).0 == weight_or_one(
                    child_builders(b)[k].weight,
                ) && (g.selectable@[k].1 matches Selectable::Child(c) && built_from(child_builders(b)[k].builder, *c))
            &&& forall|k: int|
                0 <= k < fixed_choice_texts(b).len() ==> (#[trigger] g.selectable@[child_builders(b).len() + k]).0
                    == 1 && (g.selectable@[child_builders(b).len() + k].1 matches Selectable::Value(s) && s@
                    == fixed_choice_texts(b)[k])
        },
        GeneratorNode::Extension(_) => produces_real(b.generator_type),
    }
}

/// Whether `b` builds into some generator.
#[verifier::opaque]
pub open spec fn buildable<X>(b: GeneratorBuilder) -> bool {
    exists|n: GeneratorNode<X>| built_from(b, n)
}

/// Whether each child of `b` builds into some generator.
pub open spec fn children_buildable<X>(b: GeneratorBuilder) -> bool {
    forall|k: int| 0 <= k < child_builders(b).len() ==> buildable::<X>(#[trigger] child_builders(b)[k].builder)
}

/// Whether `e` is the error of building from `b`. Children are built first,
/// in order, and the first that fails gives its error; then the rules of
/// the kind are checked in order. A real-number kind fails as the extension
/// `X` says.
pub open spec fn build_failure<X: Extension>(b: GeneratorBuilder, e: BuildError) -> bool
    decreases b, 2int,
{
    match b.generator_type {
        GeneratorType::DuplicatePermutation => if b.range is Some && !int_bound_parses(b.range->0) {
            int_bound_failure(b.range->0, e)
        } else if count_range_of(b).lower() matches Some(s) && s < 0 {
            e matches BuildError::InvalidValue(t) && t@ == count_range_of(b).bound_text()
        } else if count_range_of(b).spec_is_empty() {
            e == BuildError::RangeEmpty(int_bound_values(count_range_of(b)))
        } else {
            choices_failure::<X>(b, e)
        },
        GeneratorType::Format => format_create_outcome(b, Err(e)),
        GeneratorType::EvalInt | GeneratorType::EvalBool | GeneratorType::EvalString => eval_create_outcome(b, Err(e)),
        GeneratorType::Int => int_create_outcome(b, Err(e)),
        GeneratorType::Bool => bool_create_outcome(b, Err(e)),
        GeneratorType::DateTime => calendar_create_outcome(CalendarUnit::DateTime, b, Err(e)),
        GeneratorType::Date => calendar_create_outcome(CalendarUnit::Date, b, Err(e)),
        GeneratorType::Time => calendar_create_outcome(CalendarUnit::Time, b, Err(e)),
        GeneratorType::AlwaysNull => always_null_create_outcome(b, Err(e)),
        GeneratorType::IncrementId => increment_id_create_outcome(b, Err(e)),
        GeneratorType::CaseWhen | GeneratorType::RandomChild => children_failure::<X>(b, e),
        GeneratorType::SelectInt => select_create_outcome::<SbrdInt>(b, Err(e)),
        GeneratorType::SelectString => select_create_outcome::<SbrdString>(b, Err(e)),
        GeneratorType::GetIntValueAt => value_at_create_outcome::<SbrdInt>(b, Err(e)),
        GeneratorType::GetStringValueAt => value_at_create_outcome::<SbrdString>(b, Err(e)),
        GeneratorType::GetValueIndex => value_index_create_outcome(b, Err(e)),
        GeneratorType::Randomize => choices_failure::<X>(b, e),
        GeneratorType::DistNormal | GeneratorType::EvalReal | GeneratorType::Real | GeneratorType::SelectReal
        | GeneratorType::GetRealValueAt => X::create_failure(b, e),
    }
}

/// Whether `e` is the error of building the first child of `b` that fails,
/// those before it building.
pub open spec fn first_child_failure<X: Extension>(b: GeneratorBuilder, e: BuildError) -> bool
    decreases b, 0int,
{
    exists|k: int|
        0 <= k < child_builders(b).len() && (forall|j: int|
            0 <= j < k ==> buildable::<X>(#[trigger] child_builders(b)[j].builder)) && build_failure::<X>(
            #[trigger] child_builders(b)[k].builder,
            e,
        )
}

/// Whether `e` is the error of building the first of `cs` that fails, those
/// before it building.
pub open spec fn first_failing_child<X: Extension>(cs: Seq<ChildGeneratorBuilder>, e: BuildError) -> bool {
    exists|k: int|
        0 <= k < cs.len() && (forall|j: int| 0 <= j < k ==> buildable::<X>(#[trigger] cs[j].builder))
            && build_failure::<X>(#[trigger] cs[k].builder, e)
}

/// Whether `e` is the error of building the children of a case-when or
/// weighted-child builder `b`: children must be given; they are built in
/// order, the first failure giving its error; there must be one; a case-when
/// needs a default case, and some weighted child must weigh more than zero.
pub open spec fn children_failure<X: Extension>(b: GeneratorBuilder, e: BuildError) -> bool
    decreases b, 1int,
{
    match b.children {
        None => e matches BuildError::NotExistValueOf(n) && n@ == "children"@,
        Some(_) => first_child_failure::<X>(b, e) || (children_buildable::<X>(b) && if child_builders(b).len() == 0 {
            e == BuildError::EmptySelectableChildren
        } else if b.generator_type == GeneratorType::CaseWhen {
            e == BuildError::NotExistDefaultCase && forall|k: int|
                0 <= k < child_builders(b).len() ==> (#[trigger] child_builders(b)[k]).condition is Some
        } else {
            children_weigh_zero(b) && e == BuildError::AllWeightsZero
        }),
    }
}

/// Whether `e` is the error of building the choices of `b`: children
/// must come without all of characters, values and a file, or some choice
/// must be given; then the children are built in order, the first failure
/// giving its error; then the file must have been read, some choice must be
/// offered, and some choice must weigh more than zero.
pub open spec fn choices_failure<X: Extension>(b: GeneratorBuilder, e: BuildError) -> bool
    decreases b, 1int,
{
    if !choices_allowed(b) {
        e matches BuildError::NotExistValueOf(n) && n@ == "children xor (chars, values, file)"@
    } else {
        first_child_failure::<X>(b, e) || (children_buildable::<X>(b) && if file_missing(b.filepath, b.file_lines) {
            file_failure(b.filepath->0, b.file_lines, e)
        } else if offers_nothing(b) {
            e == BuildError::EmptySelectable
        } else {
            choices_weigh_zero(b) && e == BuildError::AllWeightsZero
        })
    }
}

/// Appends each of `texts` to `items` as a string of weight 1.
fn push_value_items<X>(items: &mut Vec<(Weight, Selectable<X>)>, texts: &Vec<String>)
    ensures
        final(items)@.len() == old(items)@.len() + texts@.len(),
        forall|k: int| 0 <= k < old(items)@.len() ==> final(items)@[k] == old(items)@[k],
        forall|k: int|
            0 <= k < texts@.len() ==> (#[trigger] final(items)@[old(items)@.len() + k]).0 == 1
                && (final(items)@[old(items)@.len() + k].1 matches Selectable::Value(s) && s@ == texts@[k]@),
{
    let ghost start = items@;
    let mut i: usize = 0;
    while i < texts.len()
        invariant
            i <= texts@.len(),
            items@.len() == start.len() + i,
            forall|k: int| 0 <= k < start.len() ==> items@[k] == start[k],
            forall|k: int|
                0 <= k < i ==> (#[trigger] items@[start.len() + k]).0 == 1 && (items@[start.len() + k].1 matches Selectable::Value(
                    s,
                ) && s@ == texts@[k]@),
        decreases texts@.len() - i,
    {
        items.push((1, Selectable::Value(texts[i].clone())));
        i = i + 1;
    }
}

/// The display texts of the characters and values of a builder, in order.
fn display_texts(chars: &Option<String>, values: &Option<Vec<DataValue>>) -> (r: Vec<String>)
    ensures
        string_views(r@) == (match *chars {
            Some(c) => c@.map_values(|ch: char| seq![ch]),
            None => Seq::empty(),
        }) + (match *values {
            Some(v) => v@.map_values(|d: DataValue| display_text(d)),
            None => Seq::<Seq<char>>::empty(),
        }),
{
    let mut out: Vec<String> = Vec::new();
    let ghost char_part: Seq<Seq<char>> = match chars {
        Some(c) => c@.map_values(|ch: char| seq![ch]),
        None => Seq::empty(),
    };
    if let Some(c) = chars {
        let cs = crate::text::chars_of(c.as_str());
        let mut i: usize = 0;
        while i < cs.len()
            invariant
                i <= cs@.len(),
                cs@ == c@,
                char_part == c@.map_values(|ch: char| seq![ch]),
                out@.len() == i,
                string_views(out@) == char_part.take(i as int),
            decreases cs@.len() - i,
        {
            let ghost before = out@;
            let one: Vec<char> = vec![cs[i]];
            assert(one@ =~= seq![cs@[i as int]]);
            let text = crate::text::string_of(one.as_slice());
            out.push(text);
            assert(out@ == before.push(text));
            assert(string_views(out@)[i as int] == text@);
            i = i + 1;
            assert forall|k: int| 0 <= k < i implies #[trigger] string_views(out@)[k] == char_part[k] by {
                if k < i - 1 {
                    assert(string_views(before)[k] == char_part.take(i - 1)[k]);
                }
            }
            assert(string_views(out@) =~= char_part.take(i as int));
        }
        assert(char_part.take(i as int) =~= char_part);
    } else {
        assert(string_views(out@) =~= char_part);
    }
    let ghost mid = out@.len();
    if let Some(vs) = values {
        let ghost value_part = vs@.map_values(|d: DataValue| display_text(d));
        let mut i: usize = 0;
        while i < vs.len()
            invariant
                i <= vs@.len(),
                value_part == vs@.map_values(|d: DataValue| display_text(d)),
                mid == char_part.len(),
                out@.len() == mid + i,
                string_views(out@) == char_part + value_part.take(i as int),
            decreases vs@.len() - i,
        {
            let ghost before = out@;
            let text = vs[i].to_display_string();
            out.push(text);
            assert(out@ == before.push(text));
            assert(string_views(out@)[out@.len() - 1] == display_text(vs@[i as int]));
            i = i + 1;
            assert forall|k: int| 0 <= k < out@.len() implies #[trigger] string_views(out@)[k] == (char_part
                + value_part.take(i as int))[k] by {
                if k < out@.len() - 1 {
                    assert(string_views(before)[k] == (char_part + value_part.take(i - 1))[k]);
                }
            }
            assert(string_views(out@) =~= char_part + value_part.take(i as int));
        }
        assert(value_part.take(i as int) =~= value_part);
    } else {
        assert(char_part + Seq::<Seq<char>>::empty() =~= char_part);
    }
    out
}

/// Builds each child with its condition, in order.
fn build_cased_children<X: Extension>(
    children: Vec<ChildGeneratorBuilder>,
    counters: &mut Vec<SbrdInt>,
) -> (r: Result<Vec<(Option<String>, Box<GeneratorNode<X>>)>, BuildError>)
    ensures
        match r {
            Ok(v) => v@.len() == children@.len() && forall|k: int|
                0 <= k < children@.len() ==> (#[trigger] v@[k]).0 == children@[k].condition && built_from(
                    children@[k].builder,
                    *v@[k].1,
                ),
            Err(e) => first_failing_child::<X>(children@, e),
        },
    decreases children, 0int,
{
    let ghost all = children@;
    let total_children = children.len();
    let mut rest = children;
    let mut out: Vec<(Option<String>, Box<GeneratorNode<X>>)> = Vec::new();
    let mut k: usize = 0;
    while rest.len() > 0
        invariant
            k <= all.len(),
            all.len() == total_children,
            all == children@,
            rest@ == all.skip(k as int),
            out@.len() == k,
            forall|j: int|
                0 <= j < k ==> (#[trigger] out@[j]).0 == all[j].condition && built_from(all[j].builder, *out@[j].1),
        decreases rest@.len(),
    {
        let child = rest.remove(0);
        assert(child == all[k as int]);
        assert(rest@ =~= all.skip(k + 1));
        let ChildGeneratorBuilder { condition, weight, builder } = child;
        assert(decreases_to!(children => builder));
        let node = match build_node::<X>(builder, counters) {
            Ok(n) => n,
            Err(e) => {
                proof {
                    assert forall|j: int| 0 <= j < k implies buildable::<X>(#[trigger] all[j].builder) by {
                        reveal(buildable);
                        assert(built_from(all[j].builder, *out@[j].1));
                    }
                    assert(build_failure::<X>(all[k as int].builder, e));
                }
                return Err(e);
            },
        };
        out.push((condition, Box::new(node)));
        k = k + 1;
    }
    Ok(out)
}

/// Builds each child with its weight (1 when absent), in order.
fn build_weighted_children<X: Extension>(
    children: Vec<ChildGeneratorBuilder>,
    counters: &mut Vec<SbrdInt>,
) -> (r: Result<Vec<(Weight, Box<GeneratorNode<X>>)>, BuildError>)
    ensures
        match r {
            Ok(v) => v@.len() == children@.len() && forall|k: int|
                0 <= k < children@.len() ==> (#[trigger] v@[k]).0 == weight_or_one(children@[k].weight) && built_from(
                    children@[k].builder,
                    *v@[k].1,
                ),
            Err(e) => first_failing_child::<X>(children@, e),
        },
    decreases children, 0int,
{
    let ghost all = children@;
    let total_children = children.len();
    let mut rest = children;
    let mut out: Vec<(Weight, Box<GeneratorNode<X>>)> = Vec::new();
    let mut k: usize = 0;
    while rest.len() > 0
        invariant
            k <= all.len(),
            all.len() == total_children,
            all == children@,
            rest@ == all.skip(k as int),
            out@.len() == k,
            forall|j: int|
                0 <= j < k ==> (#[trigger] out@[j]).0 == weight_or_one(all[j].weight) && built_from(
                    all[j].builder,
                    *out@[j].1,
                ),
        decreases rest@.len(),
    {
        let child = rest.remove(0);
        assert(child == all[k as int]);
        assert(rest@ =~= all.skip(k + 1));
        let ChildGeneratorBuilder { condition, weight, builder } = child;
        assert(decreases_to!(children => builder));
        let node = match build_node::<X>(builder, counters) {
            Ok(n) => n,
            Err(e) => {
                proof {
                    assert forall|j: int| 0 <= j < k implies buildable::<X>(#[trigger] all[j].builder) by {
                        reveal(buildable);
                        assert(built_from(all[j].builder, *out@[j].1));
                    }
                    assert(build_failure::<X>(all[k as int].builder, e));
                }
                return Err(e);
            },
        };
        let w: Weight = match weight {
            Some(v) => v,
            None => 1,
        };
        out.push((w, Box::new(node)));
        assert(k < all.len());
        k = k + 1;
    }
    Ok(out)
}

/// Builds the generator that `b` describes; sequential identifiers keep
/// their first value in `counters`.
fn build_node<X: Extension>(b: GeneratorBuilder, counters: &mut Vec<SbrdInt>) -> (r: Result<GeneratorNode<X>, BuildError>)
    ensures
        match r {
            Ok(n) => built_from(b, n),
            Err(e) => build_failure::<X>(b, e),
        },
        r matches Ok(GeneratorNode::IncrementId(s)) ==> s.slot == old(counters)@.len() && final(counters)@ == old(
            counters,
        )@.push(first_identifier(b)),
    decreases b, 2int,
{
    match b.generator_type {
        GeneratorType::Format => match FormatGenerator::create(b) {
            Ok(g) => Ok(GeneratorNode::Format(g)),
            Err(e) => Err(e),
        },
        GeneratorType::EvalInt | GeneratorType::EvalBool | GeneratorType::EvalString => match EvalGenerator::create(b) {
            Ok(g) => Ok(GeneratorNode::Eval(g)),
            Err(e) => Err(e),
        },
        GeneratorType::Int => match IntGenerator::create(b) {
            Ok(g) => Ok(GeneratorNode::Int(g)),
            Err(e) => Err(e),
        },
        GeneratorType::Bool => match BoolGenerator::create(b) {
            Ok(g) => Ok(GeneratorNode::Bool(g)),
            Err(e) => Err(e),
        },
        GeneratorType::DateTime => match DateTimeGenerator::create(b) {
            Ok(g) => Ok(GeneratorNode::DateTime(g)),
            Err(e) => Err(e),
        },
        GeneratorType::Date => match DateGenerator::create(b) {
            Ok(g) => Ok(GeneratorNode::Date(g)),
            Err(e) => Err(e),
        },
        GeneratorType::Time => match TimeGenerator::create(b) {
            Ok(g) => Ok(GeneratorNode::Time(g)),
            Err(e) => Err(e),
        },
        GeneratorType::AlwaysNull => match AlwaysNullGenerator::create(b) {
            Ok(g) => Ok(GeneratorNode::AlwaysNull(g)),
            Err(e) => Err(e),
        },
        GeneratorType::IncrementId => {
            let ghost bb = b;
            match IncrementIdGenerator::create(b) {
                Ok(g) => {
                    let slot = counters.len();
                    counters.push(g.get_next_id());
                    let node = GeneratorNode::IncrementId(IncrementSlot { nullable: g.nullable(), slot, step: g.get_step() });
                    assert(increment_id_create_outcome(bb, Ok(g)));
                    assert(built_from(bb, node));
                    Ok(node)
                },
                Err(e) => Err(e),
            }
        },
        GeneratorType::DuplicatePermutation => build_permutation::<X>(b, counters),
        GeneratorType::Randomize => {
            let nullable = b.nullable;
            let ghost bb = b;
            match build_choices::<X>(b, counters) {
                Ok(selectable) => {
                    let node = GeneratorNode::Randomize(RandomizeGenerator { nullable, selectable });
                    assert(built_from(bb, node));
                    Ok(node)
                },
                Err(e) => Err(e),
            }
        },
        GeneratorType::SelectInt => match SelectGenerator::<SbrdInt>::create(b) {
            Ok(g) => Ok(GeneratorNode::SelectInt(g)),
            Err(e) => Err(e),
        },
        GeneratorType::SelectString => match SelectGenerator::<SbrdString>::create(b) {
            Ok(g) => Ok(GeneratorNode::SelectString(g)),
            Err(e) => Err(e),
        },
        GeneratorType::GetIntValueAt => match GetValueAtGenerator::<SbrdInt>::create(b) {
            Ok(g) => Ok(GeneratorNode::GetIntValueAt(g)),
            Err(e) => Err(e),
        },
        GeneratorType::GetStringValueAt => match GetValueAtGenerator::<SbrdString>::create(b) {
            Ok(g) => Ok(GeneratorNode::GetStringValueAt(g)),
            Err(e) => Err(e),
        },
        GeneratorType::GetValueIndex => match GetValueIndexGenerator::create(b) {
            Ok(g) => Ok(GeneratorNode::GetValueIndex(g)),
            Err(e) => Err(e),
        },
        GeneratorType::CaseWhen => {
            let nullable = b.nullable;
            let ghost bb = b;
            match b.children {
                None => Err(BuildError::NotExistValueOf(String::from_str("children"))),
                Some(children) => {
                    assert(children@ == child_builders(bb));
                    let built = match build_cased_children::<X>(children, counters) {
                        Ok(v) => v,
                        Err(e) => return Err(e),
                    };
                    proof {
                        assert forall|k: int| 0 <= k < child_builders(bb).len() implies buildable::<X>(
                            #[trigger] child_builders(bb)[k].builder,
                        ) by {
                            reveal(buildable);
                            assert(built_from(child_builders(bb)[k].builder, *built@[k].1));
                        }
                    }
                    if built.len() == 0 {
                        return Err(BuildError::EmptySelectableChildren);
                    }
                    let mut has_default = false;
                    let mut i: usize = 0;
                    while i < built.len()
                        invariant
                            i <= built@.len(),
                            has_default <==> exists|j: int| 0 <= j < i && (#[trigger] built@[j]).0 is None,
                        decreases built@.len() - i,
                    {
                        if built[i].0.is_none() {
                            has_default = true;
                        }
                        i = i + 1;
                    }
                    if !has_default {
                        assert forall|k: int| 0 <= k < child_builders(bb).len() implies (#[trigger] child_builders(
                            bb,
                        )[k]).condition is Some by {
                            assert(built@[k].0 == child_builders(bb)[k].condition);
                        }
                        return Err(BuildError::NotExistDefaultCase);
                    }
                    let node = GeneratorNode::CaseWhen(CaseWhenGenerator { nullable, children: built });
                    assert(built_from(bb, node));
                    Ok(node)
                },
            }
        },
        GeneratorType::RandomChild => {
            let nullable = b.nullable;
            let ghost bb = b;
            match b.children {
                None => Err(BuildError::NotExistValueOf(String::from_str("children"))),
                Some(children) => {
                    assert(children@ == child_builders(bb));
                    let built = match build_weighted_children::<X>(children, counters) {
                        Ok(v) => v,
                        Err(e) => return Err(e),
                    };
                    proof {
                        assert forall|k: int| 0 <= k < child_builders(bb).len() implies buildable::<X>(
                            #[trigger] child_builders(bb)[k].builder,
                        ) by {
                            reveal(buildable);
                            assert(built_from(child_builders(bb)[k].builder, *built@[k].1));
                        }
                    }
                    if built.len() == 0 {
                        return Err(BuildError::EmptySelectableChildren);
                    }
                    let (weights, total) = item_weights(&built);
                    if total == 0 {
                        proof {
                            lemma_zero_weight_sum(weights@);
                            assert forall|k: int| 0 <= k < child_builders(bb).len() implies weight_or_one(
                                (#[trigger] child_builders(bb)[k]).weight,
                            ) == 0 by {
                                assert(weights@[k] == built@[k].0 as u128);
                            }
                        }
                        return Err(BuildError::AllWeightsZero);
                    }
                    proof {
                        if children_weigh_zero(bb) {
                            assert forall|k: int| 0 <= k < weights@.len() implies weights@[k] == 0 by {
                                assert(weights@[k] == built@[k].0 as u128);
                                assert(weight_or_one(child_builders(bb)[k].weight) == 0);
                            }
                            lemma_zero_weights_sum(weights@);
                        }
                    }
                    let node = GeneratorNode::RandomChild(RandomChildGenerator { nullable, children: built });
                    assert(built_from(bb, node));
                    Ok(node)
                },
            }
        },
        GeneratorType::DistNormal | GeneratorType::EvalReal | GeneratorType::Real | GeneratorType::SelectReal
        | GeneratorType::GetRealValueAt => match X::create(b) {
            Ok(x) => Ok(GeneratorNode::Extension(x)),
            Err(e) => Err(e),
        },
    }
}

/// Whether `v` holds the choices that `b` describes: its children, each of
/// its weight, then its fixed strings, each of weight 1.
pub open spec fn choices_built<X>(b: GeneratorBuilder, v: Seq<(Weight, Selectable<X>)>) -> bool {
    &&& v.len() == child_builders(b).len() + fixed_choice_texts(b).len()
    &&& forall|k: int|
        0 <= k < child_builders(b).len() ==> (#[trigger] v[k]).0 == weight_or_one(child_builders(b)[k].weight) && (
        v[k].1 matches Selectable::Child(c) && built_from(child_builders(b)[k].builder, *c))
    &&& forall|k: int|
        0 <= k < fixed_choice_texts(b).len() ==> (#[trigger] v[child_builders(b).len() + k]).0 == 1 && (v[child_builders(
            b,
        ).len() + k].1 matches Selectable::Value(s) && s@ == fixed_choice_texts(b)[k])
}

/// Builds the choices of `b`: its children with their weights, then each
/// character, the display text of each value and each line of its file,
/// each of weight 1. Children must come without all of characters, values
/// and a file, or some choice must be given; there must be a choice of
/// positive weight.
fn build_choices<X: Extension>(b: GeneratorBuilder, counters: &mut Vec<SbrdInt>) -> (r: Result<Vec<(Weight, Selectable<X>)>, BuildError>)
    ensures
        match r {
            Ok(v) => choices_built(b, v@) && !offers_nothing(b) && !choices_weigh_zero(b),
            Err(e) => choices_failure::<X>(b, e),
        },
    decreases b, 0int,
{
    let ghost bb = b;
    let allowed = (b.children.is_some() && (b.chars.is_none() || b.values.is_none() || b.filepath.is_none())) || (
    b.children.is_none() && (b.chars.is_some() || b.values.is_some() || b.filepath.is_some()));
    if !allowed {
        return Err(BuildError::NotExistValueOf(String::from_str("children xor (chars, values, file)")));
    }
    let GeneratorBuilder { children, chars, values, filepath, file_lines, .. } = b;
    let mut items: Vec<(Weight, Selectable<X>)> = Vec::new();
    if let Some(cs) = children {
        assert(cs@ == child_builders(bb));
        let built = match build_weighted_children::<X>(cs, counters) {
            Ok(v) => v,
            Err(e) => return Err(e),
        };
        let mut i: usize = 0;
        let total_built = built.len();
        let mut rest = built;
        let ghost all = rest@;
        while rest.len() > 0
            invariant
                i <= all.len(),
                all.len() == total_built,
                rest@ == all.skip(i as int),
                items@.len() == i,
                all.len() == child_builders(bb).len(),
                forall|k: int|
                    0 <= k < all.len() ==> (#[trigger] all[k]).0 == weight_or_one(child_builders(bb)[k].weight)
                        && built_from(child_builders(bb)[k].builder, *all[k].1),
                forall|k: int|
                    0 <= k < i ==> (#[trigger] items@[k]).0 == weight_or_one(child_builders(bb)[k].weight) && (
                    items@[k].1 matches Selectable::Child(c) && built_from(child_builders(bb)[k].builder, *c)),
            decreases rest@.len(),
        {
            let (w, node) = rest.remove(0);
            assert((w, node) == all[i as int]);
            assert(rest@ =~= all.skip(i + 1));
            items.push((w, Selectable::Child(node)));
            i = i + 1;
        }
    } else {
        assert(child_builders(bb).len() == 0);
    }
    proof {
        assert forall|k: int| 0 <= k < child_builders(bb).len() implies buildable::<X>(
            #[trigger] child_builders(bb)[k].builder,
        ) by {
            reveal(buildable);
            assert(items@[k].1 matches Selectable::Child(c) && built_from(child_builders(bb)[k].builder, *c));
        }
    }
    let ghost child_count = items@.len();
    let texts = display_texts(&chars, &values);
    push_value_items(&mut items, &texts);
    let ghost after_listed = items@.len();
    match &filepath {
        Some(path) => match &file_lines {
            Some(Ok(lines)) => {
                push_value_items(&mut items, lines);
            },
            Some(Err(m)) => return Err(BuildError::FileError(m.clone(), path.clone())),
            None => return Err(BuildError::FileError(String::from_str("The file was not read"), path.clone())),
        },
        None => {},
    }
    proof {
        let fixed = fixed_choice_texts(bb);
        assert forall|k: int| 0 <= k < fixed.len() implies (#[trigger] items@[child_count + k]).0 == 1 && (items@[child_count
            + k].1 matches Selectable::Value(s) && s@ == fixed[k]) by {
            if k < texts@.len() {
                assert(fixed[k] == string_views(texts@)[k]);
            } else {
                let l = file_lines->0->Ok_0;
                assert(fixed[k] == string_views(l@)[k - texts@.len()]);
                assert(items@[child_count + k] == items@[after_listed + (k - texts@.len())]);
            }
        }
    }
    assert(choices_built(bb, items@));
    if items.len() == 0 {
        return Err(BuildError::EmptySelectable);
    }
    let (weights, total) = item_weights(&items);
    if total == 0 {
        proof {
            lemma_zero_weight_sum(weights@);
            let cs = child_builders(bb);
            let fixed = fixed_choice_texts(bb);
            if fixed.len() > 0 {
                assert(items@[cs.len() + 0int].0 == 1);
                assert(weights@[cs.len() as int] == items@[cs.len() as int].0 as u128);
                assert(false);
            }
            assert forall|k: int| 0 <= k < cs.len() implies weight_or_one((#[trigger] cs[k]).weight) == 0 by {
                assert(weights@[k] == items@[k].0 as u128);
            }
            assert(choices_weigh_zero(bb));
        }
        return Err(BuildError::AllWeightsZero);
    }
    proof {
        let cs = child_builders(bb);
        if choices_weigh_zero(bb) {
            assert forall|k: int| 0 <= k < weights@.len() implies weights@[k] == 0 by {
                assert(weights@[k] == items@[k].0 as u128);
                assert(items@[k].0 == weight_or_one(cs[k].weight));
            }
            lemma_zero_weights_sum(weights@);
        }
    }
    Ok(items)
}

/// Builds the generator of joined choices that `b` describes.
fn build_permutation<X: Extension>(b: GeneratorBuilder, counters: &mut Vec<SbrdInt>) -> (r: Result<GeneratorNode<X>, BuildError>)
    requires
        b.generator_type == GeneratorType::DuplicatePermutation,
    ensures
        match r {
            Ok(n) => built_from(b, n),
            Err(e) => build_failure::<X>(b, e),
        },
    decreases b, 1int,
{
    let ghost bb = b;
    let count_range = match &b.range {
        None => {
            let d = ValueBound::new(Some(1i32), Some((true, 15i32)));
            proof {
                ValueBound::<SbrdInt>::lemma_spec_new(Some(1i32), true, Some(15i32));
                ValueBound::<SbrdInt>::lemma_eq(d, default_count_range());
            }
            d
        },
        Some(r) => match parse_int_bound(r.duplicate()) {
            Ok(p) => {
                let from_zero = ValueBound::new(Some(0i32), None);
                proof {
                    ValueBound::<SbrdInt>::lemma_spec_new(Some(0i32), false, None);
                    ValueBound::<SbrdInt>::lemma_eq(from_zero, ValueBound::spec_new(Some(0i32), false, None));
                }
                p.without_no_bound_from_other(from_zero)
            },
            Err(e) => return Err(e),
        },
    };
    assert(count_range == count_range_of(bb));
    if let Some(s) = count_range.get_start() {
        if *s < 0 {
            return Err(BuildError::InvalidValue(count_range.to_display_string()));
        }
    }
    if count_range.is_empty() {
        return Err(BuildError::RangeEmpty(crate::generator::primitive::int_bound_to_data(count_range)));
    }
    let separator = match &b.separator {
        Some(s) => s.clone(),
        None => String::new(),
    };
    let nullable = b.nullable;
    let selectable = match build_choices::<X>(b, counters) {
        Ok(v) => v,
        Err(e) => return Err(e),
    };
    let node = GeneratorNode::DuplicatePermutation(
        DuplicatePermutationGenerator { nullable, count_range, separator, selectable },
    );
    assert(built_from(bb, node));
    Ok(node)
}

/// A generator built from a builder, with the current values of its
/// sequential identifiers.
#[derive(Debug)]
pub struct AnyGenerator<X> {
    root: GeneratorNode<X>,
    counters: Vec<SbrdInt>,
}

/// The first identifier of the sequential identifiers `b` describes: the
/// first value of its increment, or 1.
pub open spec fn first_identifier(b: GeneratorBuilder) -> SbrdInt {
    match b.increment {
        None => 1,
        Some(s) => match parsed_int_value(s.first()) {
            Some(v) => v,
            None => 1,
        },
    }
}

/// What one use of a sequential identifier with step `step` and current
/// identifier `id` gives, with `next` the identifier after: `id`, then
/// `id + step`; or a failure, keeping `id`, when `id + step` leaves `i32`.
pub open spec fn identifier_step(step: SbrdInt, id: SbrdInt, r: Result<DataValue, GenerateError>, next: SbrdInt) -> bool {
    if i32::MIN <= id + step <= i32::MAX {
        r == Ok::<DataValue, GenerateError>(DataValue::Int(id)) && next == id + step
    } else {
        r matches Err(GenerateError::FailGenerate(_)) && next == id
    }
}

impl<X> AnyGenerator<X> {
    /// The tree of generators.
    pub closed spec fn node(&self) -> GeneratorNode<X> {
        self.root
    }

    /// The identifiers the sequential-identifier generators in the tree give
    /// next, each at the slot its node names.
    pub closed spec fn identifiers(&self) -> Seq<SbrdInt> {
        self.counters@
    }

    /// The identifier a sequential-identifier generator gives next.
    pub closed spec fn next_id(&self) -> SbrdInt {
        match self.root {
            GeneratorNode::IncrementId(s) => self.counters@[s.slot as int],
            _ => 0,
        }
    }

    /// The identifier of a sequential-identifier root is kept.
    #[verifier::type_invariant]
    spec fn root_slot_kept(&self) -> bool {
        self.root matches GeneratorNode::IncrementId(s) ==> s.slot < self.counters@.len()
    }
}

/// Whether `after`, giving `r`, may follow one use of `before` in `ctx`:
/// the tree stays, the value is one the tree produces, each sequential
/// identifier in the tree that runs gives its current identifier and moves
/// on by its step (the others keep theirs), and one at the root does so
/// unless it gave null.
pub open spec fn generation_step<X: Extension>(
    before: AnyGenerator<X>,
    ctx: Map<Seq<char>, DataValue>,
    r: Result<DataValue, GenerateError>,
    after: AnyGenerator<X>,
) -> bool {
    &&& before.node().produces(ctx, r)
    &&& before.node().moves(ctx, before.identifiers(), r, after.identifiers())
    &&& after.node() == before.node()
    &&& before.node() matches GeneratorNode::IncrementId(s) ==> (s.nullable.allows_null() && r == Ok::<
        DataValue,
        GenerateError,
    >(DataValue::Null) && after.next_id() == before.next_id()) || identifier_step(
        s.step,
        before.next_id(),
        r,
        after.next_id(),
    )
}

/// Sequential identifiers: of two identifiers given one after the other by
/// a generator of sequential identifiers, the second is the first plus the
/// step.
pub proof fn law_identifiers_advance_by_step<X: Extension>(
    g0: AnyGenerator<X>,
    g1: AnyGenerator<X>,
    g2: AnyGenerator<X>,
    ctx1: Map<Seq<char>, DataValue>,
    ctx2: Map<Seq<char>, DataValue>,
    a: SbrdInt,
    b: SbrdInt,
)
    requires
        g0.node() is IncrementId,
        generation_step(g0, ctx1, Ok(DataValue::Int(a)), g1),
        generation_step(g1, ctx2, Ok(DataValue::Int(b)), g2),
    ensures
        b == a + g0.node()->IncrementId_0.step,
{
}

impl<X: Extension> AnyGenerator<X> {
    /// Whether this generator may produce null.
    pub fn is_nullable(&self) -> (r: bool)
        ensures
            !(self.node() is Extension) ==> r == self.node().allows_null(),
    {
        self.root.is_nullable()
    }

    /// A value: null with probability one tenth when the generator allows
    /// null, and otherwise what it yields in `context`.
    pub fn generate<R: Randomizer>(&mut self, rng: &mut R, context: &DataValueMap) -> (r: Result<DataValue, GenerateError>)
        ensures
            generation_step(*old(self), context@, r, *final(self)),
    {
        proof {
            use_type_invariant(&*self);
        }
        let mut counters = self.counters.clone();
        assert(counters@ =~= self.counters@);
        let r = self.root.generate(&mut counters, rng, context);
        self.counters = counters;
        r
    }
}

impl GeneratorBuilder {
    /// The generator this builder describes; generators of real numbers
    /// come from `X`.
    pub fn build<X: Extension>(self) -> (r: Result<AnyGenerator<X>, BuildError>)
        ensures
            match r {
                Ok(g) => built_from(self, g.node()),
                Err(e) => build_failure::<X>(self, e),
            },
            r matches Ok(g) ==> (g.node() is IncrementId ==> g.next_id() == first_identifier(self)),
    {
        let mut counters: Vec<SbrdInt> = Vec::new();
        match build_node::<X>(self, &mut counters) {
            Ok(root) => Ok(AnyGenerator { root, counters }),
            Err(e) => Err(e),
        }
    }
}

} // verus!
