//! Schemas: the keys to output and the generators that produce them, run
//! from the first to the last.

use vstd::prelude::*;
use crate::builder::ParentGeneratorBuilder;
use crate::context::DataValueMap;
use crate::error::{BuildError, GenerateError, IntoSbrdError, SchemaError, SchemaErrorInfo, SchemaErrorKind, SchemaResult};
use crate::generator::{Extension, Randomizer};
use crate::generator::any_generator::{
    AnyGenerator, GeneratorNode, build_failure, built_from, first_identifier, generation_step,
};
use crate::generator::random_values::string_views;
use crate::text::str_eq;
use crate::value::DataValue;

verus! {

/// Whether the texts of `s` are pairwise distinct.
pub open spec fn distinct_texts(s: Seq<Seq<char>>) -> bool {
    forall|i: int, j: int| 0 <= i < s.len() && 0 <= j < s.len() && i != j ==> s[i] != s[j]
}

/// The keys of parent builders, in order.
pub open spec fn parent_keys(builders: Seq<ParentGeneratorBuilder>) -> Seq<Seq<char>> {
    builders.map_values(|p: ParentGeneratorBuilder| p.key@)
}

/// Whether `e` is a build error of stage [`SchemaErrorKind::BuildError`]
/// whose cause satisfies `f`.
pub open spec fn build_error_with(e: SchemaError, f: spec_fn(BuildError) -> bool) -> bool {
    &&& e.kind_of() == SchemaErrorKind::BuildError
    &&& e.info_of() matches SchemaErrorInfo::Build(be)
    &&& f(be)
}

/// Whether `s` is the schema built from `keys` and `builders`: the keys to
/// output are distinct, the keys of the builders too, each key to output has
/// a builder, and each generator is built from its builder.
pub open spec fn schema_built<X>(keys: Seq<String>, builders: Seq<ParentGeneratorBuilder>, s: Schema<X>) -> bool {
    &&& distinct_texts(string_views(keys))
    &&& distinct_texts(parent_keys(builders))
    &&& forall|i: int| 0 <= i < keys.len() ==> parent_keys(builders).contains(#[trigger] keys[i]@)
    &&& s.keys_of() == keys
    &&& s.generator_keys() == parent_keys(builders)
    &&& s.nodes().len() == builders.len()
    &&& forall|i: int| 0 <= i < builders.len() ==> built_from(#[trigger] builders[i].builder, s.nodes()[i])
    &&& s.generators_of().len() == builders.len()
    &&& forall|i: int|
        0 <= i < builders.len() && (#[trigger] s.generators_of()[i]).node() is IncrementId ==> s.generators_of()[i].next_id()
            == first_identifier(builders[i].builder)
}

/// Whether the first `i` builders pass: their keys are distinct and each
/// of them builds.
pub open spec fn builders_pass<X>(builders: Seq<ParentGeneratorBuilder>, i: int) -> bool {
    &&& distinct_texts(parent_keys(builders).take(i))
    &&& forall|j: int| 0 <= j < i ==> exists|n: GeneratorNode<X>| built_from(#[trigger] builders[j].builder, n)
}

/// Whether key `i` of `keys` is the first key to output that names no
/// builder.
pub open spec fn first_unnamed(keys: Seq<String>, builders: Seq<ParentGeneratorBuilder>, i: int) -> bool {
    &&& 0 <= i < keys.len()
    &&& !parent_keys(builders).contains(keys[i]@)
    &&& forall|j: int| 0 <= j < i ==> parent_keys(builders).contains(#[trigger] keys[j]@)
}

/// Whether `e` is the error of building a schema from `keys` and
/// `builders`: repeated keys to output are reported first; then, in the
/// order of the builders, the first builder whose key repeats an earlier
/// one, or that fails to build, gives the error; last, the first key to
/// output without a builder.
pub open spec fn schema_build_failure<X: Extension>(keys: Seq<String>, builders: Seq<ParentGeneratorBuilder>, e: SchemaError) -> bool {
    &&& e.kind_of() == SchemaErrorKind::BuildError
    &&& e.info_of() matches SchemaErrorInfo::Build(be)
    &&& if !distinct_texts(string_views(keys)) {
        be matches BuildError::SpecifiedKeyNotUnique(ks) && ks@ == keys
    } else {
        ||| exists|i: int|
            0 <= i < builders.len() && builders_pass::<X>(builders, i) && if parent_keys(builders).take(i).contains(
                parent_keys(builders)[i],
            ) {
                be matches BuildError::AlreadyExistKey(k) && k@ == parent_keys(builders)[i]
            } else {
                build_failure::<X>(#[trigger] builders[i].builder, be)
            }
        ||| (builders_pass::<X>(builders, builders.len() as int) && (be matches BuildError::NotExistSpecifiedKey(k, ks)
            && string_views(ks@) == parent_keys(builders) && exists|i: int|
            first_unnamed(keys, builders, i) && k@ == keys[i]@))
    }
}

/// A description of a schema: the keys to output and the builders of the
/// generators, in the order they run.
#[derive(Debug)]
pub struct SchemaBuilder {
    keys: Vec<String>,
    builders: Vec<ParentGeneratorBuilder>,
}

impl SchemaBuilder {
    /// The keys to output.
    pub closed spec fn keys_of(&self) -> Seq<String> {
        self.keys@
    }

    /// The builders with their keys.
    pub closed spec fn builders_of(&self) -> Seq<ParentGeneratorBuilder> {
        self.builders@
    }

    /// A schema description with these keys and builders.
    pub fn new(keys: Vec<String>, builders: Vec<ParentGeneratorBuilder>) -> (r: Self)
        ensures
            r.keys_of() == keys@,
            r.builders_of() == builders@,
    {
        SchemaBuilder { keys, builders }
    }

    /// The schema this description describes. The keys to output must be
    /// distinct, the keys of the builders too, each key to output must have
    /// a builder, and each builder must build.
    #[verifier::loop_isolation(false)]
    pub fn build<X: Extension>(self) -> (r: SchemaResult<Schema<X>>)
        ensures
            r matches Ok(s) ==> schema_built(self.keys_of(), self.builders_of(), s),
            r matches Err(e) ==> schema_build_failure::<X>(self.keys_of(), self.builders_of(), e),
    {
        let ghost keys0 = self.keys@;
        let ghost builders0 = self.builders@;
        let SchemaBuilder { keys, builders } = self;
        let mut i: usize = 0;
        while i < keys.len()
            invariant
                i <= keys@.len(),
                keys@ == keys0,
                forall|a: int, b: int| 0 <= a < i && 0 <= b < keys@.len() && a != b ==> keys@[a]@ != keys@[b]@,
            decreases keys@.len() - i,
        {
            let mut j: usize = 0;
            while j < keys.len()
                invariant
                    i < keys@.len(),
                    j <= keys@.len(),
                    keys@ == keys0,
                    forall|a: int, b: int| 0 <= a < i && 0 <= b < keys@.len() && a != b ==> keys@[a]@ != keys@[b]@,
                    forall|b: int| 0 <= b < j && b != i ==> keys@[i as int]@ != keys@[b]@,
                decreases keys@.len() - j,
            {
                if j != i && str_eq(keys[i].as_str(), keys[j].as_str()) {
                    proof {
                        assert(string_views(keys@)[i as int] == string_views(keys@)[j as int]);
                        assert(!distinct_texts(string_views(keys0)));
                    }
                    let err = SchemaError::new(SchemaErrorKind::BuildError, SchemaErrorInfo::Build(BuildError::SpecifiedKeyNotUnique(keys)));
                    assert(err.info_of() matches SchemaErrorInfo::Build(be) && (be matches BuildError::SpecifiedKeyNotUnique(ks) && ks@ == keys0));
                    assert(err.kind_of() == SchemaErrorKind::BuildError);
                    assert(schema_build_failure::<X>(keys0, builders0, err));
                    return Err(err);
                }
                j = j + 1;
            }
            i = i + 1;
        }
        assert(distinct_texts(string_views(keys@))) by {
            assert forall|a: int, b: int|
                0 <= a < string_views(keys@).len() && 0 <= b < string_views(keys@).len() && a != b implies string_views(
                keys@,
            )[a] != string_views(keys@)[b] by {
                assert(string_views(keys@)[a] == keys@[a]@);
                assert(string_views(keys@)[b] == keys@[b]@);
            }
        }
        let mut generators: Vec<(String, AnyGenerator<X>)> = Vec::new();
        let mut checked: Vec<String> = Vec::new();
        let total = builders.len();
        let mut rest = builders;
        let mut k: usize = 0;
        while rest.len() > 0
            invariant
                k <= builders0.len(),
                builders0.len() == total,
                rest@ == builders0.skip(k as int),
                generators@.len() == k,
                checked@.len() == k,
                string_views(checked@) == parent_keys(builders0).take(k as int),
                distinct_texts(string_views(checked@)),
                forall|j: int| 0 <= j < k ==> (#[trigger] generators@[j]).0@ == parent_keys(builders0)[j],
                forall|j: int|
                    0 <= j < k ==> built_from(#[trigger] builders0[j].builder, generators@[j].1.node()),
                forall|j: int|
                    0 <= j < k && (#[trigger] generators@[j]).1.node() is IncrementId ==> generators@[j].1.next_id()
                        == first_identifier(builders0[j].builder),
            decreases rest@.len(),
        {
            let parent = rest.remove(0);
            assert(parent == builders0[k as int]);
            assert(rest@ =~= builders0.skip(k + 1));
            let (key, builder) = parent.split_key();
            assert(key@ == parent_keys(builders0)[k as int]);
            assert(builder == builders0[k as int].builder);
            let mut c: usize = 0;
            while c < checked.len()
                invariant
                    c <= checked@.len(),
                    k < builders0.len(),
                    checked@.len() == k,
                    string_views(checked@) == parent_keys(builders0).take(k as int),
                    key@ == parent_keys(builders0)[k as int],
                    forall|j: int| 0 <= j < c ==> checked@[j]@ != key@,
                decreases checked@.len() - c,
            {
                if str_eq(checked[c].as_str(), key.as_str()) {
                    proof {
                        assert(string_views(checked@)[c as int] == parent_keys(builders0).take(k as int)[c as int]);
                        assert(parent_keys(builders0)[c as int] == key@);
                    }
                    return Err(SchemaError::new(SchemaErrorKind::BuildError, SchemaErrorInfo::Build(BuildError::AlreadyExistKey(key))));
                }
                c = c + 1;
            }
            let generator = match builder.build::<X>() {
                Ok(g) => g,
                Err(e) => {
                    assert(build_failure::<X>(builders0[k as int].builder, e));
                    return Err(SchemaError::new(SchemaErrorKind::BuildError, SchemaErrorInfo::Build(e)));
                },
            };
            let ghost old_checked = checked@;
            generators.push((key.clone(), generator));
            checked.push(key);
            proof {
                assert(string_views(checked@) =~= parent_keys(builders0).take(k + 1)) by {
                    assert forall|j: int| 0 <= j < k + 1 implies #[trigger] string_views(checked@)[j] == parent_keys(
                        builders0,
                    ).take(k + 1)[j] by {
                        if j < k {
                            assert(string_views(old_checked)[j] == parent_keys(builders0).take(k as int)[j]);
                        }
                    }
                }
                assert forall|a: int, b: int|
                    0 <= a < string_views(checked@).len() && 0 <= b < string_views(checked@).len() && a != b implies string_views(
                    checked@,
                )[a] != string_views(checked@)[b] by {
                    if a < k && b < k {
                        assert(string_views(old_checked)[a] == string_views(checked@)[a]);
                        assert(string_views(old_checked)[b] == string_views(checked@)[b]);
                    } else if a == k {
                        assert(string_views(checked@)[b] == old_checked[b]@);
                    } else {
                        assert(string_views(checked@)[a] == old_checked[a]@);
                    }
                }
            }
            k = k + 1;
        }
        assert(parent_keys(builders0).take(k as int) =~= parent_keys(builders0));
        proof {
            assert forall|j: int| 0 <= j < builders0.len() implies exists|n: GeneratorNode<X>| built_from(
                #[trigger] builders0[j].builder,
                n,
            ) by {
                assert(built_from(builders0[j].builder, generators@[j].1.node()));
            }
            assert(builders_pass::<X>(builders0, builders0.len() as int));
        }
        let mut s: usize = 0;
        while s < keys.len()
            invariant
                s <= keys@.len(),
                keys@ == keys0,
                string_views(checked@) == parent_keys(builders0),
                forall|j: int| 0 <= j < s ==> parent_keys(builders0).contains(#[trigger] keys@[j]@),
            decreases keys@.len() - s,
        {
            let mut found = false;
            let mut c: usize = 0;
            while c < checked.len()
                invariant
                    c <= checked@.len(),
                    s < keys@.len(),
                    found ==> parent_keys(builders0).contains(keys@[s as int]@),
                    !found ==> forall|j: int| 0 <= j < c ==> checked@[j]@ != keys@[s as int]@,
                    string_views(checked@) == parent_keys(builders0),
                decreases checked@.len() - c,
            {
                if str_eq(checked[c].as_str(), keys[s].as_str()) {
                    assert(string_views(checked@)[c as int] == keys@[s as int]@);
                    found = true;
                }
                c = c + 1;
            }
            if !found {
                proof {
                    assert forall|j: int| 0 <= j < parent_keys(builders0).len() implies parent_keys(builders0)[j]
                        != keys@[s as int]@ by {
                        assert(string_views(checked@)[j] == checked@[j]@);
                    }
                }
                let missing = keys[s].clone();
                assert(keys0[s as int]@ == missing@);
                assert(!parent_keys(builders0).contains(missing@));
                assert(first_unnamed(keys0, builders0, s as int));
                return Err(
                    SchemaError::new(SchemaErrorKind::BuildError, SchemaErrorInfo::Build(BuildError::NotExistSpecifiedKey(missing, checked))),
                );
            }
            s = s + 1;
        }
        let schema = Schema { keys, generators };
        proof {
            assert(schema.generator_keys() =~= parent_keys(builders0));
        }
        Ok(schema)
    }
}

/// A schema: the keys to output and the generators with their keys.
#[derive(Debug)]
pub struct Schema<X> {
    keys: Vec<String>,
    generators: Vec<(String, AnyGenerator<X>)>,
}

/// The context after the first `n` generators ran: each key at its value,
/// a later one replacing an earlier one.
pub open spec fn context_after(keys: Seq<Seq<char>>, values: Seq<DataValue>, n: int) -> Map<Seq<char>, DataValue>
    decreases n,
{
    if n <= 0 {
        Map::empty()
    } else {
        context_after(keys, values, n - 1).insert(keys[n - 1], values[n - 1])
    }
}

impl<X> Schema<X> {
    /// The keys to output.
    pub closed spec fn keys_of(&self) -> Seq<String> {
        self.keys@
    }

    /// The keys of the generators, in the order they run.
    pub closed spec fn generator_keys(&self) -> Seq<Seq<char>> {
        self.generators@.map_values(|g: (String, AnyGenerator<X>)| g.0@)
    }

    /// The generators, in the order they run.
    pub closed spec fn nodes(&self) -> Seq<GeneratorNode<X>> {
        self.generators@.map_values(|g: (String, AnyGenerator<X>)| g.1.node())
    }

    /// The generators with their state, in the order they run.
    pub closed spec fn generators_of(&self) -> Seq<AnyGenerator<X>> {
        self.generators@.map_values(|g: (String, AnyGenerator<X>)| g.1)
    }
}

impl<X: Extension> Schema<X> {
    /// The keys to output.
    pub fn get_keys(&self) -> (r: &[String])
        ensures
            r@ == self.keys_of(),
    {
        self.keys.as_slice()
    }

    /// Runs the generators in order, each in the context of the values
    /// generated before it; the first failure stops the run.
    #[verifier::loop_isolation(false)]
    pub fn generate<R: Randomizer>(&mut self, rng: &mut R) -> (r: SchemaResult<GeneratedValues>)
        ensures
            final(self).keys_of() == old(self).keys_of(),
            final(self).generator_keys() == old(self).generator_keys(),
            final(self).nodes() == old(self).nodes(),
            final(self).generators_of().len() == old(self).generators_of().len(),
            match r {
                Ok(gv) => gv.keys_of() == old(self).keys_of() && exists|values: Seq<DataValue>|
                    values.len() == old(self).nodes().len() && gv.values_of() == context_after(
                        old(self).generator_keys(),
                        values,
                        values.len() as int,
                    ) && forall|i: int|
                        0 <= i < values.len() ==> generation_step(
                            #[trigger] old(self).generators_of()[i],
                            context_after(old(self).generator_keys(), values, i),
                            Ok(values[i]),
                            final(self).generators_of()[i],
                        ),
                Err(e) => e.kind_of() == SchemaErrorKind::GenerateError && (e.info_of() matches SchemaErrorInfo::Generate(
                    ge,
                ) && exists|values: Seq<DataValue>|
                    values.len() < old(self).nodes().len() && (forall|i: int|
                        0 <= i < values.len() ==> generation_step(
                            #[trigger] old(self).generators_of()[i],
                            context_after(old(self).generator_keys(), values, i),
                            Ok(values[i]),
                            final(self).generators_of()[i],
                        )) && generation_step(
                        old(self).generators_of()[values.len() as int],
                        context_after(old(self).generator_keys(), values, values.len() as int),
                        Err(ge),
                        final(self).generators_of()[values.len() as int],
                    ) && forall|i: int|
                        values.len() < i < old(self).generators_of().len() ==> #[trigger] final(self).generators_of()[i]
                            == old(self).generators_of()[i]),
            },
    {
        let ghost keys0 = self.generator_keys();
        let ghost nodes0 = self.nodes();
        let ghost gens0 = self.generators_of();
        let mut values = DataValueMap::new();
        let ghost mut produced: Seq<DataValue> = Seq::empty();
        let mut i: usize = 0;
        while i < self.generators.len()
            invariant
                i <= self.generators@.len(),
                self.keys_of() == old(self).keys_of(),
                self.generator_keys() == keys0,
                self.nodes() == nodes0,
                self.generators_of().len() == gens0.len(),
                produced.len() == i,
                values@ == context_after(keys0, produced, i as int),
                forall|j: int|
                    0 <= j < i ==> generation_step(
                        #[trigger] gens0[j],
                        context_after(keys0, produced, j),
                        Ok(produced[j]),
                        self.generators_of()[j],
                    ),
                forall|j: int| i <= j < gens0.len() ==> #[trigger] self.generators_of()[j] == gens0[j],
            decreases self.generators@.len() - i,
        {
            assert(self.generators@[i as int].0@ == keys0[i as int]);
            assert(self.generators@[i as int].1.node() == nodes0[i as int]);
            assert(self.generators_of()[i as int] == gens0[i as int]);
            let ghost gens_before = self.generators_of();
            let entry = &mut self.generators[i];
            let outcome = entry.1.generate(rng, &values);
            let key = entry.0.clone();
            proof {
                assert(self.generator_keys() =~= keys0);
                assert(self.nodes() =~= nodes0);
                assert(self.generators_of() =~= gens_before.update(i as int, self.generators@[i as int].1));
            }
            match outcome {
                Ok(v) => {
                    let ghost before = produced;
                    proof {
                        produced = produced.push(v);
                        assert forall|j: int| 0 <= j <= i implies context_after(keys0, produced, j) == context_after(
                            keys0,
                            before,
                            j,
                        ) by {
                            lemma_context_prefix(keys0, before, produced, j);
                        }
                    }
                    values.insert(key, v);
                },
                Err(e) => {
                    proof {
                        assert(produced.len() < nodes0.len());
                    }
                    return Err(SchemaError::new(SchemaErrorKind::GenerateError, SchemaErrorInfo::Generate(e)));
                },
            }
            i = i + 1;
        }
        let keys = self.keys.clone();
        Ok(GeneratedValues { keys, generated_values: values })
    }
}

/// The context after `n` generators depends only on the first `n` values.
proof fn lemma_context_prefix(keys: Seq<Seq<char>>, a: Seq<DataValue>, b: Seq<DataValue>, n: int)
    requires
        0 <= n <= a.len(),
        n <= b.len(),
        forall|j: int| 0 <= j < n ==> a[j] == b[j],
    ensures
        context_after(keys, a, n) == context_after(keys, b, n),
    decreases n,
{
    if n > 0 {
        lemma_context_prefix(keys, a, b, n - 1);
    }
}

/// Whether `row` holds, for each key of `keys`, the value that one run of
/// `nodes`, whose keys are `gkeys`, gave.
pub open spec fn run_row<X: Extension>(
    keys: Seq<String>,
    gkeys: Seq<Seq<char>>,
    nodes: Seq<GeneratorNode<X>>,
    row: Seq<DataValue>,
) -> bool {
    exists|values: Seq<DataValue>|
        #![trigger context_after(gkeys, values, values.len() as int)]
        {
            &&& values.len() == nodes.len()
            &&& forall|j: int|
                0 <= j < values.len() ==> (#[trigger] nodes[j]).produces(context_after(gkeys, values, j), Ok(values[j]))
            &&& row.len() == keys.len()
            &&& forall|k: int|
                0 <= k < row.len() ==> row[k] == context_after(gkeys, values, values.len() as int)[#[trigger] keys[k]@]
        }
}

/// Whether `e` is how one run of `nodes`, whose keys are `gkeys`, failed:
/// the generators before some generator produced their values and that one
/// failed, or all of them produced values and a key of `keys` had none.
pub open spec fn run_failure<X: Extension>(
    keys: Seq<String>,
    gkeys: Seq<Seq<char>>,
    nodes: Seq<GeneratorNode<X>>,
    e: SchemaError,
) -> bool {
    &&& e.kind_of() == SchemaErrorKind::GenerateError
    &&& e.info_of() matches SchemaErrorInfo::Generate(ge)
    &&& exists|values: Seq<DataValue>|
        #![trigger context_after(gkeys, values, values.len() as int)]
        {
            &&& values.len() <= nodes.len()
            &&& forall|j: int|
                0 <= j < values.len() ==> (#[trigger] nodes[j]).produces(context_after(gkeys, values, j), Ok(values[j]))
            &&& if values.len() < nodes.len() {
                nodes[values.len() as int].produces(context_after(gkeys, values, values.len() as int), Err(ge))
            } else {
                missing_key_error(keys, context_after(gkeys, values, values.len() as int), e)
            }
        }
}

impl<X: Extension> Schema<X> {
    /// `count` runs of the schema, each giving the values of the keys to
    /// output, in order; the first failure stops.
    pub fn generate_rows<R: Randomizer>(&mut self, rng: &mut R, count: u64) -> (r: SchemaResult<Vec<Vec<DataValue>>>)
        ensures
            final(self).keys_of() == old(self).keys_of(),
            final(self).generator_keys() == old(self).generator_keys(),
            final(self).nodes() == old(self).nodes(),
            r matches Ok(rows) ==> rows@.len() == count && forall|i: int|
                0 <= i < rows@.len() ==> run_row(
                    old(self).keys_of(),
                    old(self).generator_keys(),
                    old(self).nodes(),
                    #[trigger] rows@[i]@,
                ),
            count == 0 ==> r is Ok,
            r matches Err(e) ==> count > 0 && run_failure(
                old(self).keys_of(),
                old(self).generator_keys(),
                old(self).nodes(),
                e,
            ),
    {
        let ghost keys0 = self.keys_of();
        let ghost gkeys0 = self.generator_keys();
        let ghost nodes0 = self.nodes();
        let mut rows: Vec<Vec<DataValue>> = Vec::new();
        let mut n: u64 = 0;
        while n < count
            invariant
                n <= count,
                rows@.len() == n,
                keys0 == old(self).keys_of(),
                gkeys0 == old(self).generator_keys(),
                nodes0 == old(self).nodes(),
                self.keys_of() == keys0,
                self.generator_keys() == gkeys0,
                self.nodes() == nodes0,
                forall|i: int| 0 <= i < rows@.len() ==> run_row(keys0, gkeys0, nodes0, #[trigger] rows@[i]@),
            decreases count - n,
        {
            let ghost before = *self;
            let generated = match self.generate(rng) {
                Ok(g) => g,
                Err(e) => {
                    proof {
                        let ge = e.info_of()->Generate_0;
                        let values = choose|values: Seq<DataValue>|
                            values.len() < before.nodes().len() && (forall|i: int|
                                0 <= i < values.len() ==> generation_step(
                                    #[trigger] before.generators_of()[i],
                                    context_after(before.generator_keys(), values, i),
                                    Ok(values[i]),
                                    self.generators_of()[i],
                                )) && generation_step(
                                before.generators_of()[values.len() as int],
                                context_after(before.generator_keys(), values, values.len() as int),
                                Err(ge),
                                self.generators_of()[values.len() as int],
                            ) && forall|i: int|
                                values.len() < i < before.generators_of().len() ==> #[trigger] self.generators_of()[i]
                                    == before.generators_of()[i];
                        assert forall|j: int| 0 <= j < values.len() implies (#[trigger] nodes0[j]).produces(
                            context_after(gkeys0, values, j),
                            Ok(values[j]),
                        ) by {
                            assert(generation_step(
                                before.generators_of()[j],
                                context_after(before.generator_keys(), values, j),
                                Ok(values[j]),
                                self.generators_of()[j],
                            ));
                            assert(before.generators_of()[j].node() == nodes0[j]);
                        }
                        assert(before.generators_of()[values.len() as int].node() == nodes0[values.len() as int]);
                        assert(nodes0[values.len() as int].produces(
                            context_after(gkeys0, values, values.len() as int),
                            Err(ge),
                        ));
                        assert(run_failure(keys0, gkeys0, nodes0, e));
                    }
                    return Err(e);
                },
            };
            let ghost gv = generated;
            let ghost values = choose|values: Seq<DataValue>|
                values.len() == before.nodes().len() && gv.values_of() == context_after(
                    before.generator_keys(),
                    values,
                    values.len() as int,
                ) && forall|i: int|
                    0 <= i < values.len() ==> generation_step(
                        #[trigger] before.generators_of()[i],
                        context_after(before.generator_keys(), values, i),
                        Ok(values[i]),
                        self.generators_of()[i],
                    );
            proof {
                assert forall|j: int| 0 <= j < values.len() implies (#[trigger] nodes0[j]).produces(
                    context_after(gkeys0, values, j),
                    Ok(values[j]),
                ) by {
                    assert(generation_step(
                        before.generators_of()[j],
                        context_after(before.generator_keys(), values, j),
                        Ok(values[j]),
                        self.generators_of()[j],
                    ));
                    assert(before.generators_of()[j].node() == nodes0[j]);
                }
            }
            let row = match generated.into_values() {
                Ok(vs) => vs,
                Err(e) => {
                    proof {
                        assert(run_failure(keys0, gkeys0, nodes0, e));
                    }
                    return Err(e);
                },
            };
            proof {
                let values = choose|values: Seq<DataValue>|
                    values.len() == before.nodes().len() && gv.values_of() == context_after(
                        before.generator_keys(),
                        values,
                        values.len() as int,
                    ) && forall|i: int|
                        0 <= i < values.len() ==> generation_step(
                            #[trigger] before.generators_of()[i],
                            context_after(before.generator_keys(), values, i),
                            Ok(values[i]),
                            self.generators_of()[i],
                        );
                assert forall|j: int| 0 <= j < values.len() implies (#[trigger] nodes0[j]).produces(
                    context_after(gkeys0, values, j),
                    Ok(values[j]),
                ) by {
                    assert(generation_step(
                        before.generators_of()[j],
                        context_after(before.generator_keys(), values, j),
                        Ok(values[j]),
                        self.generators_of()[j],
                    ));
                    assert(before.generators_of()[j].node() == nodes0[j]);
                }
                assert(run_row(keys0, gkeys0, nodes0, row@));
            }
            rows.push(row);
            n = n + 1;
        }
        Ok(rows)
    }
}

/// The context after `n` generators holds the key of each of them.
proof fn lemma_context_has_keys(keys: Seq<Seq<char>>, values: Seq<DataValue>, n: int, j: int)
    requires
        0 <= j < n,
    ensures
        context_after(keys, values, n).contains_key(keys[j]),
    decreases n,
{
    if j < n - 1 {
        lemma_context_has_keys(keys, values, n - 1, j);
    }
}

/// A run never lacks a key to output: a schema is built only when each key
/// to output is the key of one of its generators, and a run that succeeds
/// gives a value to the key of every generator, so every key to output
/// has a value.
pub proof fn law_every_output_key_has_a_value(
    keys: Seq<String>,
    generator_keys: Seq<Seq<char>>,
    values: Seq<DataValue>,
)
    requires
        forall|i: int| 0 <= i < keys.len() ==> generator_keys.contains(#[trigger] keys[i]@),
        values.len() == generator_keys.len(),
    ensures
        all_present(keys, context_after(generator_keys, values, values.len() as int)),
{
    assert forall|i: int| 0 <= i < keys.len() implies context_after(generator_keys, values, values.len() as int).contains_key(
        #[trigger] keys[i]@,
    ) by {
        let j = choose|j: int| 0 <= j < generator_keys.len() && generator_keys[j] == keys[i]@;
        lemma_context_has_keys(generator_keys, values, values.len() as int, j);
    }
}

/// The values one run of a schema generated, with the keys to output.
#[derive(Debug)]
pub struct GeneratedValues {
    keys: Vec<String>,
    generated_values: DataValueMap,
}

impl GeneratedValues {
    /// The keys to output.
    pub closed spec fn keys_of(&self) -> Seq<String> {
        self.keys@
    }

    /// All generated values, by the keys of their generators.
    pub closed spec fn values_of(&self) -> Map<Seq<char>, DataValue> {
        self.generated_values@
    }

    /// All generated values, by the keys of their generators.
    pub fn get_all_values(&self) -> (r: &DataValueMap)
        ensures
            r@ == self.values_of(),
    {
        &self.generated_values
    }
}

/// Whether key `i` is the first key of `keys` without a value in `values`.
pub open spec fn first_missing(keys: Seq<String>, values: Map<Seq<char>, DataValue>, i: int) -> bool {
    &&& 0 <= i < keys.len()
    &&& !values.contains_key(keys[i]@)
    &&& forall|j: int| 0 <= j < i ==> values.contains_key(#[trigger] keys[j]@)
}

/// Whether `e` reports the first key of `keys` without a value in `values`.
pub open spec fn missing_key_error(keys: Seq<String>, values: Map<Seq<char>, DataValue>, e: SchemaError) -> bool {
    &&& e.kind_of() == SchemaErrorKind::GenerateError
    &&& e.info_of() matches SchemaErrorInfo::Generate(ge)
    &&& ge matches GenerateError::NotExistGeneratedKey(k, m)
    &&& m@ == values
    &&& exists|i: int| first_missing(keys, values, i) && k@ == keys[i]@
}

/// Whether every key of `keys` has a value in `values`.
pub open spec fn all_present(keys: Seq<String>, values: Map<Seq<char>, DataValue>) -> bool {
    forall|i: int| 0 <= i < keys.len() ==> values.contains_key(#[trigger] keys[i]@)
}

impl GeneratedValues {
    /// The position of the first key to output without a value.
    fn find_missing(&self) -> (r: Option<usize>)
        ensures
            match r {
                Some(i) => first_missing(self.keys_of(), self.values_of(), i as int),
                None => all_present(self.keys_of(), self.values_of()),
            },
    {
        let mut i: usize = 0;
        while i < self.keys.len()
            invariant
                i <= self.keys@.len(),
                forall|j: int| 0 <= j < i ==> self.values_of().contains_key(#[trigger] self.keys@[j]@),
            decreases self.keys@.len() - i,
        {
            if !self.generated_values.contains_key(self.keys[i].as_str()) {
                return Some(i);
            }
            i = i + 1;
        }
        None
    }

    /// The error for the missing key at `i`.
    fn missing_error(&self, i: usize) -> (e: SchemaError)
        requires
            first_missing(self.keys_of(), self.values_of(), i as int),
        ensures
            missing_key_error(self.keys_of(), self.values_of(), e),
    {
        let ge = GenerateError::NotExistGeneratedKey(self.keys[i].clone(), self.generated_values.duplicate());
        SchemaError::new(SchemaErrorKind::GenerateError, SchemaErrorInfo::Generate(ge))
    }

    /// The value of each key to output, in order; the first key without a
    /// value gives the error.
    pub fn filter_values(&self) -> (r: SchemaResult<Vec<&DataValue>>)
        ensures
            match r {
                Ok(vs) => all_present(self.keys_of(), self.values_of()) && vs@.len() == self.keys_of().len()
                    && forall|i: int|
                    0 <= i < vs@.len() ==> *vs@[i] == self.values_of()[#[trigger] self.keys_of()[i]@],
                Err(e) => missing_key_error(self.keys_of(), self.values_of(), e),
            },
    {
        let mut result: Vec<&DataValue> = Vec::new();
        let mut i: usize = 0;
        while i < self.keys.len()
            invariant
                i <= self.keys@.len(),
                result@.len() == i,
                forall|j: int| 0 <= j < i ==> self.values_of().contains_key(#[trigger] self.keys@[j]@),
                forall|j: int| 0 <= j < i ==> *result@[j] == self.values_of()[#[trigger] self.keys@[j]@],
            decreases self.keys@.len() - i,
        {
            match self.generated_values.get(self.keys[i].as_str()) {
                Some(v) => result.push(v),
                None => return Err(self.missing_error(i)),
            }
            i = i + 1;
        }
        Ok(result)
    }

    /// Each key to output with its value, in order; the first key without a
    /// value gives the error.
    pub fn filter_values_with_key(&self) -> (r: SchemaResult<Vec<(&str, &DataValue)>>)
        ensures
            match r {
                Ok(vs) => all_present(self.keys_of(), self.values_of()) && vs@.len() == self.keys_of().len()
                    && forall|i: int|
                    0 <= i < vs@.len() ==> vs@[i].0@ == (#[trigger] self.keys_of()[i])@ && *vs@[i].1
                        == self.values_of()[self.keys_of()[i]@],
                Err(e) => missing_key_error(self.keys_of(), self.values_of(), e),
            },
    {
        let mut result: Vec<(&str, &DataValue)> = Vec::new();
        let mut i: usize = 0;
        while i < self.keys.len()
            invariant
                i <= self.keys@.len(),
                result@.len() == i,
                forall|j: int| 0 <= j < i ==> self.values_of().contains_key(#[trigger] self.keys@[j]@),
                forall|j: int|
                    0 <= j < i ==> result@[j].0@ == (#[trigger] self.keys@[j])@ && *result@[j].1
                        == self.values_of()[self.keys@[j]@],
            decreases self.keys@.len() - i,
        {
            match self.generated_values.get(self.keys[i].as_str()) {
                Some(v) => result.push((self.keys[i].as_str(), v)),
                None => return Err(self.missing_error(i)),
            }
            i = i + 1;
        }
        Ok(result)
    }

    /// The value of each key to output, in order; the first key without a
    /// value gives the error.
    pub fn into_values(self) -> (r: SchemaResult<Vec<DataValue>>)
        ensures
            match r {
                Ok(vs) => all_present(self.keys_of(), self.values_of()) && vs@.len() == self.keys_of().len()
                    && forall|i: int|
                    0 <= i < vs@.len() ==> vs@[i] == self.values_of()[#[trigger] self.keys_of()[i]@],
                Err(e) => missing_key_error(self.keys_of(), self.values_of(), e),
            },
    {
        if let Some(i) = self.find_missing() {
            return Err(self.missing_error(i));
        }
        let mut result: Vec<DataValue> = Vec::new();
        let mut i: usize = 0;
        while i < self.keys.len()
            invariant
                i <= self.keys@.len(),
                result@.len() == i,
                all_present(self.keys_of(), self.values_of()),
                forall|j: int| 0 <= j < i ==> result@[j] == self.values_of()[#[trigger] self.keys@[j]@],
            decreases self.keys@.len() - i,
        {
            match self.generated_values.get(self.keys[i].as_str()) {
                Some(v) => result.push(v.duplicate()),
                None => {
                    assert(self.values_of().contains_key(self.keys@[i as int]@));
                    return Err(self.missing_error(i));
                },
            }
            i = i + 1;
        }
        Ok(result)
    }

    /// Each key to output with its value, in order; the first key without a
    /// value gives the error.
    pub fn into_values_with_key(self) -> (r: SchemaResult<Vec<(String, DataValue)>>)
        ensures
            match r {
                Ok(vs) => all_present(self.keys_of(), self.values_of()) && vs@.len() == self.keys_of().len()
                    && forall|i: int|
                    0 <= i < vs@.len() ==> vs@[i].0 == #[trigger] self.keys_of()[i] && vs@[i].1
                        == self.values_of()[self.keys_of()[i]@],
                Err(e) => missing_key_error(self.keys_of(), self.values_of(), e),
            },
    {
        if let Some(i) = self.find_missing() {
            return Err(self.missing_error(i));
        }
        let mut result: Vec<(String, DataValue)> = Vec::new();
        let mut i: usize = 0;
        while i < self.keys.len()
            invariant
                i <= self.keys@.len(),
                result@.len() == i,
                all_present(self.keys_of(), self.values_of()),
                forall|j: int|
                    0 <= j < i ==> result@[j].0 == #[trigger] self.keys@[j] && result@[j].1
                        == self.values_of()[self.keys@[j]@],
            decreases self.keys@.len() - i,
        {
            match self.generated_values.get(self.keys[i].as_str()) {
                Some(v) => result.push((self.keys[i].clone(), v.duplicate())),
                None => {
                    assert(self.values_of().contains_key(self.keys@[i as int]@));
                    return Err(self.missing_error(i));
                },
            }
            i = i + 1;
        }
        Ok(result)
    }
}

} // verus!
