use rand::rngs::StdRng;
use rand::SeedableRng;
use sbrd_gen::builder::{GeneratorBuilder, ParentGeneratorBuilder, ValueStep};
use sbrd_gen::context::DataValueMap;
use sbrd_gen::error::{BuildError, GenerateError, SchemaErrorInfo, SchemaErrorKind};
use sbrd_gen::eval::{tuple_index, EvalError, Evaluator, IndexFault};
use sbrd_gen::generator::NoExtension;
use sbrd_gen::schema::{Schema, SchemaBuilder};
use sbrd_gen::value::DataValue;

fn keys(names: &[&str]) -> Vec<String> {
    names.iter().map(|s| s.to_string()).collect()
}

fn user_builders() -> Vec<ParentGeneratorBuilder> {
    vec![
        GeneratorBuilder::new_increment_id(Some(ValueStep::new(1, Some(1)))).into_parent("id".to_string()),
        GeneratorBuilder::new_format("user-{id}".to_string()).into_parent("name".to_string()),
        GeneratorBuilder::new_eval_bool("{id} % 2 == 0".to_string()).into_parent("even".to_string()),
    ]
}

fn build(keys: Vec<String>, builders: Vec<ParentGeneratorBuilder>) -> Schema<NoExtension> {
    SchemaBuilder::new(keys, builders).build::<NoExtension>().unwrap()
}

#[test]
fn schema_generates_rows_in_key_order() {
    let mut schema = build(keys(&["name", "id"]), user_builders());
    assert_eq!(schema.get_keys(), &["name".to_string(), "id".to_string()][..]);
    let mut rng = StdRng::seed_from_u64(1);
    let first = schema.generate(&mut rng).unwrap();
    let row = first.into_values_with_key().unwrap();
    assert_eq!(row.len(), 2);
    assert_eq!(row[0].0, "name");
    assert!(matches!(&row[0].1, DataValue::String(s) if s == "user-1"));
    assert_eq!(row[1].0, "id");
    assert!(matches!(row[1].1, DataValue::Int(1)));
    let second = schema.generate(&mut rng).unwrap();
    assert!(matches!(second.get_all_values().get("even"), Some(DataValue::Bool(true))));
    let values = second.into_values().unwrap();
    assert!(matches!(&values[0], DataValue::String(s) if s == "user-2"));
    assert!(matches!(values[1], DataValue::Int(2)));
}

#[test]
fn generated_values_filter_by_keys() {
    let mut schema = build(keys(&["id"]), user_builders());
    let mut rng = StdRng::seed_from_u64(2);
    let generated = schema.generate(&mut rng).unwrap();
    assert_eq!(generated.get_all_values().len(), 3);
    let only = generated.filter_values().unwrap();
    assert_eq!(only.len(), 1);
    assert!(matches!(only[0], DataValue::Int(1)));
    let with_key = generated.filter_values_with_key().unwrap();
    assert_eq!(with_key[0].0, "id");
}

#[test]
fn keys_must_be_unique() {
    let e = SchemaBuilder::new(keys(&["id", "id"]), user_builders()).build::<NoExtension>().unwrap_err();
    assert!(e.is_kind_of(SchemaErrorKind::BuildError));
    assert_eq!(e.get_kind(), SchemaErrorKind::BuildError);
    match e.get_error_info() {
        SchemaErrorInfo::Build(BuildError::SpecifiedKeyNotUnique(ks)) => assert_eq!(ks, &keys(&["id", "id"])),
        other => panic!("unexpected {:?}", other),
    }
}

#[test]
fn generator_keys_must_be_unique() {
    let builders = vec![
        GeneratorBuilder::new_bool().into_parent("a".to_string()),
        GeneratorBuilder::new_bool().into_parent("a".to_string()),
    ];
    let e = SchemaBuilder::new(keys(&["a"]), builders).build::<NoExtension>().unwrap_err();
    match e.get_error_info() {
        SchemaErrorInfo::Build(BuildError::AlreadyExistKey(k)) => assert_eq!(k, "a"),
        other => panic!("unexpected {:?}", other),
    }
}

#[test]
fn output_keys_must_have_generators() {
    let e = SchemaBuilder::new(keys(&["id", "missing"]), user_builders()).build::<NoExtension>().unwrap_err();
    match e.get_error_info() {
        SchemaErrorInfo::Build(BuildError::NotExistSpecifiedKey(k, all)) => {
            assert_eq!(k, "missing");
            assert_eq!(all, &keys(&["id", "name", "even"]));
        }
        other => panic!("unexpected {:?}", other),
    }
}

#[test]
fn a_failing_child_fails_the_schema() {
    let builders = vec![GeneratorBuilder::new_case_when(vec![]).into_parent("c".to_string())];
    let e = SchemaBuilder::new(keys(&["c"]), builders).build::<NoExtension>().unwrap_err();
    assert!(matches!(e.get_error_info(), SchemaErrorInfo::Build(BuildError::EmptySelectableChildren)));
}

#[test]
fn generation_errors_are_reported() {
    let builders = vec![GeneratorBuilder::new_format("{later}".to_string()).into_parent("early".to_string())];
    let mut schema = build(keys(&["early"]), builders);
    let mut rng = StdRng::seed_from_u64(3);
    let e = schema.generate(&mut rng).unwrap_err();
    assert!(e.is_kind_of(SchemaErrorKind::GenerateError));
    assert!(matches!(
        e.get_error_info(),
        SchemaErrorInfo::Generate(GenerateError::FailEval(EvalError::FailApplyValueContext(_), _, _))
    ));
}

#[test]
fn evaluator_fills_and_evaluates() {
    let mut ctx = DataValueMap::new();
    ctx.insert("a".to_string(), DataValue::Int(6));
    ctx.insert("s".to_string(), DataValue::String("hi".to_string()));
    ctx.insert("n".to_string(), DataValue::Null);
    let ev = Evaluator::new(&ctx);
    assert_eq!(ev.format_script::<NoExtension>("{a}-{s}-{n}-{{a}}").unwrap(), "6-hi--{a}");
    assert_eq!(ev.eval_int::<NoExtension>("{a} * 7").unwrap(), 42);
    assert!(ev.eval_bool::<NoExtension>("{a} > 5 && {a} < 7").unwrap());
    assert_eq!(ev.eval_string::<NoExtension>("\"{s}\" + \"!\"").unwrap(), "hi!");
    assert_eq!(ev.eval_int::<NoExtension>("get((5, 6, 7), {a} - 5)").unwrap(), 6);
}

#[test]
fn evaluator_reports_template_faults() {
    let ctx = DataValueMap::new();
    let ev = Evaluator::new(&ctx);
    assert!(matches!(ev.format_script::<NoExtension>("{x}"), Err(EvalError::FailApplyValueContext(_))));
    assert!(matches!(ev.format_script::<NoExtension>("a } b"), Err(EvalError::FailApplyValueContext(_))));
    assert!(matches!(ev.format_script::<NoExtension>("a { b"), Err(EvalError::FailApplyValueContext(_))));
    assert!(matches!(ev.eval_int::<NoExtension>("{x} + 1"), Err(EvalError::FailApplyValueContext(_))));
    assert!(matches!(ev.eval_int::<NoExtension>("\"text\""), Err(EvalError::FailEval(_))));
}

#[test]
fn format_specifications_need_an_extension() {
    let mut ctx = DataValueMap::new();
    ctx.insert("a".to_string(), DataValue::Int(6));
    let ev = Evaluator::new(&ctx);
    assert!(matches!(ev.format_script::<NoExtension>("{a:>5}"), Err(EvalError::FailApplyValueContext(_))));
}

#[test]
fn get_rejects_bad_indexes() {
    let ctx = DataValueMap::new();
    let ev = Evaluator::new(&ctx);
    assert!(matches!(ev.eval_int::<NoExtension>("get((1, 2), 2)"), Err(EvalError::FailEval(_))));
    assert!(matches!(ev.eval_int::<NoExtension>("get((1, 2), -1)"), Err(EvalError::FailEval(_))));
    assert_eq!(tuple_index(2, -1), Err(IndexFault::Negative));
    assert_eq!(tuple_index(2, 2), Err(IndexFault::Missing));
    assert_eq!(tuple_index(2, 1), Ok(1));
}

#[test]
fn rows_come_from_successive_runs() {
    let mut schema = build(keys(&["id", "name"]), user_builders());
    let mut rng = StdRng::seed_from_u64(4);
    let rows = schema.generate_rows(&mut rng, 3).unwrap();
    assert_eq!(rows.len(), 3);
    for (i, row) in rows.iter().enumerate() {
        let id = (i + 1) as i32;
        assert!(matches!(row[0], DataValue::Int(v) if v == id));
        assert!(matches!(&row[1], DataValue::String(s) if *s == format!("user-{}", id)));
    }
}

#[test]
fn error_stage_labels() {
    assert_eq!(SchemaErrorKind::ParseError.label(), "Parse error");
    assert_eq!(SchemaErrorKind::GenerateError.label(), "Generate error");
}

#[test]
fn build_errors_come_in_builder_order() {
    let builders = vec![
        GeneratorBuilder::new_bool().into_parent("a".to_string()),
        GeneratorBuilder::new_case_when(vec![]).into_parent("b".to_string()),
        GeneratorBuilder::new_bool().into_parent("a".to_string()),
    ];
    let e = SchemaBuilder::new(keys(&["a", "missing"]), builders).build::<NoExtension>().unwrap_err();
    assert!(matches!(e.get_error_info(), SchemaErrorInfo::Build(BuildError::EmptySelectableChildren)));
}

#[test]
fn schema_build_error_message() {
    let builders = vec![GeneratorBuilder::new_int(None).into_parent("a".to_string())];
    let e = SchemaBuilder::new(keys(&["b"]), builders).build::<NoExtension>().unwrap_err();
    assert_eq!(e.get_kind(), SchemaErrorKind::BuildError);
    assert_eq!(e.to_display_string(), r#"Build error: Not Exist Key "b" in ["a"]"#);
}

#[test]
fn generation_error_messages() {
    let mut values = DataValueMap::new();
    values.insert("k".to_string(), DataValue::Int(-3));
    values.insert("s".to_string(), DataValue::String("x\"y".to_string()));
    values.insert("n".to_string(), DataValue::Null);
    let e = GenerateError::NotExistGeneratedKey("z".to_string(), values);
    assert_eq!(e.to_display_string(), r#"Not exist key "z" in {"k": Int(-3), "n": Null, "s": String("x\"y")}"#);
    let e = GenerateError::FailGenerate("no room".to_string());
    assert_eq!(e.to_display_string(), "Fail Generate valid data. Because no room");
    let e = SchemaErrorKind::GenerateError;
    let err = sbrd_gen::error::SchemaError::new(e, SchemaErrorInfo::Generate(GenerateError::FailGenerate("x".to_string())));
    assert_eq!(err.to_display_string(), "Generate error: Fail Generate valid data. Because x");
    let msg = sbrd_gen::error::SchemaError::new(SchemaErrorKind::OutputError, SchemaErrorInfo::Message("disk".to_string()));
    assert_eq!(msg.to_display_string(), "Output error: disk");
}

#[test]
fn no_rows_asked_gives_no_rows() {
    let mut schema = build(keys(&["name", "id"]), user_builders());
    let mut rng = StdRng::seed_from_u64(7);
    let rows = schema.generate_rows(&mut rng, 0).unwrap();
    assert!(rows.is_empty());
}
