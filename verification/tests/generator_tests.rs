use rand::rngs::StdRng;
use chrono::{Datelike, Timelike};
use rand::SeedableRng;
use sbrd_gen::builder::{GeneratorBuilder, ValueBound, ValueStep};
use sbrd_gen::context::DataValueMap;
use sbrd_gen::error::{BuildError, GenerateError};
use sbrd_gen::eval::EvalError;
use sbrd_gen::generator::any_generator::AnyGenerator;
use sbrd_gen::generator::NoExtension;
use sbrd_gen::generator_type::GeneratorType;
use sbrd_gen::value::DataValue;

fn rng() -> StdRng {
    StdRng::seed_from_u64(7)
}

fn build(builder: GeneratorBuilder) -> AnyGenerator<NoExtension> {
    builder.build::<NoExtension>().unwrap()
}

fn build_err(builder: GeneratorBuilder) -> BuildError {
    match builder.build::<NoExtension>() {
        Ok(_) => panic!("the builder was expected to fail"),
        Err(e) => e,
    }
}

fn gen(g: &mut AnyGenerator<NoExtension>, ctx: &DataValueMap) -> DataValue {
    let mut r = rng();
    g.generate(&mut r, ctx).unwrap()
}

fn int_of(v: DataValue) -> i32 {
    match v {
        DataValue::Int(i) => i,
        other => panic!("not an int: {:?}", other),
    }
}

fn string_of(v: DataValue) -> String {
    match v {
        DataValue::String(s) => s,
        other => panic!("not a string: {:?}", other),
    }
}

#[test]
fn int_stays_in_its_range() {
    let mut g = build(GeneratorBuilder::new_int(Some(ValueBound::new(Some(0), Some((true, 100))))).nullable());
    assert!(g.is_nullable());
    let mut r = rng();
    let ctx = DataValueMap::new();
    for _ in 0..200 {
        match g.generate(&mut r, &ctx).unwrap() {
            DataValue::Int(i) => assert!((0..=100).contains(&i)),
            DataValue::Null => {}
            other => panic!("unexpected {:?}", other),
        }
    }
}

#[test]
fn int_of_one_value_gives_that_value() {
    let mut g = build(GeneratorBuilder::new_int(Some(ValueBound::new(Some(5), Some((false, 6))))));
    assert!(!g.is_nullable());
    assert_eq!(int_of(gen(&mut g, &DataValueMap::new())), 5);
}

#[test]
fn int_without_range_stays_within_i16() {
    let mut g = build(GeneratorBuilder::new_int(None));
    let mut r = rng();
    let ctx = DataValueMap::new();
    for _ in 0..100 {
        let i = int_of(g.generate(&mut r, &ctx).unwrap());
        assert!((-32768..=32767).contains(&i));
    }
}

#[test]
fn empty_int_range_is_refused() {
    let e = build_err(GeneratorBuilder::new_int(Some(ValueBound::new(Some(3), Some((false, 3))))));
    assert!(matches!(e, BuildError::RangeEmpty(_)));
}

#[test]
fn bool_and_null() {
    let mut b = build(GeneratorBuilder::new_bool());
    assert!(matches!(gen(&mut b, &DataValueMap::new()), DataValue::Bool(_)));
    let mut n = build(GeneratorBuilder::new_always_null());
    assert!(n.is_nullable());
    assert!(matches!(gen(&mut n, &DataValueMap::new()), DataValue::Null));
}

#[test]
fn increment_id_counts_by_its_step() {
    let mut g = build(GeneratorBuilder::new_increment_id(Some(ValueStep::new(10, Some(5)))));
    let mut r = rng();
    let ctx = DataValueMap::new();
    let got: Vec<i32> = (0..3).map(|_| int_of(g.generate(&mut r, &ctx).unwrap())).collect();
    assert_eq!(got, vec![10, 15, 20]);
}

#[test]
fn increment_id_defaults_to_one_by_one() {
    let mut g = build(GeneratorBuilder::new_increment_id(None));
    let mut r = rng();
    let ctx = DataValueMap::new();
    let got: Vec<i32> = (0..3).map(|_| int_of(g.generate(&mut r, &ctx).unwrap())).collect();
    assert_eq!(got, vec![1, 2, 3]);
}

#[test]
fn format_fills_keys() {
    let mut ctx = DataValueMap::new();
    ctx.insert("id".to_string(), DataValue::Int(3));
    ctx.insert("ok".to_string(), DataValue::Bool(false));
    let mut g = build(GeneratorBuilder::new_format("user-{id} {ok} {{x}}".to_string()));
    assert_eq!(string_of(gen(&mut g, &ctx)), "user-3 false {x}");
}

#[test]
fn format_with_missing_key_fails() {
    let mut g = build(GeneratorBuilder::new_format("user-{nope}".to_string()));
    let mut r = rng();
    match g.generate(&mut r, &DataValueMap::new()) {
        Err(GenerateError::FailEval(EvalError::FailApplyValueContext(_), script, _)) => {
            assert_eq!(script, "user-{nope}")
        }
        other => panic!("unexpected {:?}", other),
    }
}

#[test]
fn eval_scripts() {
    let mut ctx = DataValueMap::new();
    ctx.insert("x".to_string(), DataValue::Int(40));
    let mut i = build(GeneratorBuilder::new_eval_int("10 * 10".to_string()));
    assert_eq!(int_of(gen(&mut i, &ctx)), 100);
    let mut b = build(GeneratorBuilder::new_eval_bool("{x} < 50".to_string()));
    assert!(matches!(gen(&mut b, &ctx), DataValue::Bool(true)));
    let mut s = build(GeneratorBuilder::new_eval_string("\"string: {x}\"".to_string()));
    assert_eq!(string_of(gen(&mut s, &ctx)), "string: 40");
}

#[test]
fn eval_of_bad_expression_fails() {
    let mut g = build(GeneratorBuilder::new_eval_int("1 +".to_string()));
    let mut r = rng();
    assert!(matches!(
        g.generate(&mut r, &DataValueMap::new()),
        Err(GenerateError::FailEval(EvalError::FailEval(_), _, _))
    ));
}

#[test]
fn real_is_left_to_an_extension() {
    let e = build_err(GeneratorBuilder::new_eval_real("1.5".to_string()));
    assert!(matches!(e, BuildError::InvalidType(GeneratorType::EvalReal)));
}

#[test]
fn case_when_takes_first_true_condition() {
    let mut ctx = DataValueMap::new();
    ctx.insert("n".to_string(), DataValue::Int(12));
    let mut g = build(GeneratorBuilder::new_case_when(vec![
        GeneratorBuilder::new_format("small".to_string()).into_child().condition("{n} < 10".to_string()),
        GeneratorBuilder::new_format("middle".to_string()).into_child().condition("{n} < 25".to_string()),
        GeneratorBuilder::new_format("large".to_string()).into_child(),
    ]));
    assert_eq!(string_of(gen(&mut g, &ctx)), "middle");
    let mut big = DataValueMap::new();
    big.insert("n".to_string(), DataValue::Int(99));
    assert_eq!(string_of(gen(&mut g, &big)), "large");
}

#[test]
fn case_when_needs_a_default() {
    let e = build_err(GeneratorBuilder::new_case_when(vec![GeneratorBuilder::new_bool()
        .into_child()
        .condition("true".to_string())]));
    assert!(matches!(e, BuildError::NotExistDefaultCase));
    let e = build_err(GeneratorBuilder::new_case_when(vec![]));
    assert!(matches!(e, BuildError::EmptySelectableChildren));
}

#[test]
fn random_child_skips_zero_weights() {
    let mut g = build(GeneratorBuilder::new_random_child(vec![
        GeneratorBuilder::new_format("never".to_string()).into_child().weight(0),
        GeneratorBuilder::new_format("always".to_string()).into_child().weight(3),
    ]));
    let mut r = rng();
    let ctx = DataValueMap::new();
    for _ in 0..20 {
        assert_eq!(string_of(g.generate(&mut r, &ctx).unwrap()), "always");
    }
}

#[test]
fn random_child_with_all_weights_zero_is_refused() {
    let e = build_err(GeneratorBuilder::new_random_child(vec![
        GeneratorBuilder::new_bool().into_child().weight(0),
        GeneratorBuilder::new_bool().into_child().weight(0),
    ]));
    assert!(matches!(e, BuildError::AllWeightsZero));
}

#[test]
fn duplicate_permutation_joins_choices() {
    let mut g = build(GeneratorBuilder::new_duplicate_permutation_with_select_list(
        Some(ValueBound::new(Some(3), Some((true, 3)))),
        "-".to_string(),
        Some("a".to_string()),
        None,
        None,
    ));
    assert_eq!(string_of(gen(&mut g, &DataValueMap::new())), "a-a-a");
}

#[test]
fn duplicate_permutation_of_children() {
    let mut g = build(GeneratorBuilder::new_duplicate_permutation_with_children(
        Some(ValueBound::new(Some(2), Some((true, 2)))),
        ", ".to_string(),
        vec![GeneratorBuilder::new_format("x".to_string()).into_child()],
    ));
    assert_eq!(string_of(gen(&mut g, &DataValueMap::new())), "x, x");
}

#[test]
fn randomize_picks_a_listed_value() {
    let mut g = build(GeneratorBuilder::new_randomize_with_select_list(
        Some("ab".to_string()),
        Some(vec!["cd".to_string()]),
        None,
    ));
    let mut r = rng();
    let ctx = DataValueMap::new();
    for _ in 0..30 {
        let s = string_of(g.generate(&mut r, &ctx).unwrap());
        assert!(s == "a" || s == "b" || s == "cd", "{}", s);
    }
}

#[test]
fn select_takes_a_listed_value() {
    let mut g = build(GeneratorBuilder::new_select_int(Some("7".to_string()), Some(vec![7, 7]), None));
    assert_eq!(int_of(gen(&mut g, &DataValueMap::new())), 7);
    let mut s = build(GeneratorBuilder::new_select_string(None, Some(vec!["only".to_string()]), None));
    assert_eq!(string_of(gen(&mut s, &DataValueMap::new())), "only");
}

#[test]
fn select_with_bad_int_is_refused() {
    let e = build_err(GeneratorBuilder::new_select_int(Some("7x".to_string()), None, None));
    match e {
        BuildError::FailParseValue(text, ty, _) => {
            assert_eq!(text, "x");
            assert_eq!(ty, "Int");
        }
        other => panic!("unexpected {:?}", other),
    }
}

#[test]
fn select_with_nothing_is_refused() {
    let e = build_err(GeneratorBuilder::new_select_string(None, None, None));
    assert!(matches!(e, BuildError::EmptySelectValues));
    let e = build_err(GeneratorBuilder::new_randomize_with_select_list(None, None, None));
    assert!(matches!(e, BuildError::EmptySelectable));
}

#[test]
fn select_from_a_file_not_read_is_refused() {
    let e = build_err(GeneratorBuilder::new_select_string(None, None, Some("list.txt".to_string())));
    match e {
        BuildError::FileError(m, p) => {
            assert_eq!(m, "The file was not read");
            assert_eq!(p, "list.txt");
        }
        other => panic!("unexpected {:?}", other),
    }
}

#[test]
fn select_from_file_lines() {
    let builder = GeneratorBuilder::new_select_string(None, None, Some("list.txt".to_string()))
        .file_lines(Ok(vec!["line".to_string()]));
    let mut g = build(builder);
    assert_eq!(string_of(gen(&mut g, &DataValueMap::new())), "line");
    let failed = GeneratorBuilder::new_select_string(None, None, Some("list.txt".to_string()))
        .file_lines(Err("no such file".to_string()));
    assert!(matches!(build_err(failed), BuildError::FileError(m, _) if m == "no such file"));
}

#[test]
fn get_value_at_reads_the_index() {
    let mut ctx = DataValueMap::new();
    ctx.insert("i".to_string(), DataValue::Int(1));
    let mut g = build(GeneratorBuilder::new_get_int_value_at_from_values("{i}".to_string(), vec![10, 20, 30]));
    assert_eq!(int_of(gen(&mut g, &ctx)), 20);
    let mut s = build(GeneratorBuilder::new_get_string_value_at_from_chars("2".to_string(), "xyz".to_string()));
    assert_eq!(string_of(gen(&mut s, &ctx)), "z");
}

#[test]
fn get_value_at_out_of_range_fails() {
    let mut g = build(GeneratorBuilder::new_get_int_value_at_from_values("3".to_string(), vec![10, 20, 30]));
    let mut r = rng();
    assert!(matches!(g.generate(&mut r, &DataValueMap::new()), Err(GenerateError::FailGenerate(_))));
}

#[test]
fn get_value_index_is_an_index() {
    let mut g = build(GeneratorBuilder::new_get_value_index_from_values(vec![
        DataValue::Int(1),
        DataValue::Int(2),
        DataValue::Int(3),
    ]));
    let mut r = rng();
    let ctx = DataValueMap::new();
    for _ in 0..30 {
        let i = int_of(g.generate(&mut r, &ctx).unwrap());
        assert!((0..3).contains(&i));
    }
    let mut c = build(GeneratorBuilder::new_get_value_index_from_chars("q".to_string()));
    assert_eq!(int_of(gen(&mut c, &ctx)), 0);
}

#[test]
fn date_of_a_single_day() {
    let day = chrono::NaiveDate::from_ymd_opt(2020, 2, 29).unwrap().num_days_from_ce() as i64;
    let mut g = build(GeneratorBuilder::new_date(
        Some(ValueBound::new(Some(day), Some((true, day)))),
        Some("%Y/%m/%d".to_string()),
    ));
    assert_eq!(string_of(gen(&mut g, &DataValueMap::new())), "2020/02/29");
    let mut plain = build(GeneratorBuilder::new_date(Some(ValueBound::new(Some(day), Some((true, day)))), None));
    assert_eq!(string_of(gen(&mut plain, &DataValueMap::new())), "2020-02-29");
}

#[test]
fn time_and_date_time_of_a_single_instant() {
    let t = chrono::NaiveTime::from_hms_opt(13, 5, 9).unwrap().num_seconds_from_midnight() as i64;
    let mut g = build(GeneratorBuilder::new_time(Some(ValueBound::new(Some(t), Some((true, t)))), None));
    assert_eq!(string_of(gen(&mut g, &DataValueMap::new())), "13:05:09");
    let dt = chrono::NaiveDate::from_ymd_opt(1999, 12, 31).unwrap().and_hms_opt(23, 59, 58).unwrap().and_utc().timestamp();
    let mut d = build(GeneratorBuilder::new_date_time(
        Some(ValueBound::new(Some(dt), Some((true, dt)))),
        Some("%H:%M %Y/%m/%d".to_string()),
    ));
    assert_eq!(string_of(gen(&mut d, &DataValueMap::new())), "23:59 1999/12/31");
}

#[test]
fn date_in_default_range() {
    let mut g = build(GeneratorBuilder::new_date(None, None));
    let mut r = rng();
    let ctx = DataValueMap::new();
    for _ in 0..20 {
        let s = string_of(g.generate(&mut r, &ctx).unwrap());
        let d = chrono::NaiveDate::parse_from_str(&s, "%Y-%m-%d").unwrap();
        assert!(d >= chrono::NaiveDate::from_ymd_opt(1900, 1, 1).unwrap());
        assert!(d < chrono::NaiveDate::from_ymd_opt(2151, 1, 1).unwrap());
    }
}

#[test]
fn empty_date_range_is_refused() {
    let day = chrono::NaiveDate::from_ymd_opt(2020, 1, 2).unwrap().num_days_from_ce() as i64;
    let e = build_err(GeneratorBuilder::new_date(Some(ValueBound::new(Some(day), Some((false, day)))), None));
    assert!(matches!(e, BuildError::RangeEmpty(_)));
}

#[test]
fn negative_count_is_refused() {
    let e = build_err(GeneratorBuilder::new_duplicate_permutation_with_select_list(
        Some(ValueBound::new(Some(-1), Some((true, 2)))),
        "".to_string(),
        Some("a".to_string()),
        None,
        None,
    ));
    match e {
        BuildError::InvalidValue(text) => assert_eq!(text, "-1..=2"),
        other => panic!("unexpected {:?}", other),
    }
}

#[test]
fn children_with_every_list_are_refused() {
    let mut b = GeneratorBuilder::new_randomize_with_children(vec![GeneratorBuilder::new_bool().into_child()]);
    b.chars = Some("a".to_string());
    b.values = Some(vec![DataValue::Int(1)]);
    b.filepath = Some("f.txt".to_string());
    match build_err(b) {
        BuildError::NotExistValueOf(n) => assert_eq!(n, "children xor (chars, values, file)"),
        other => panic!("unexpected {:?}", other),
    }
}

#[test]
fn missing_script_and_unreadable_range_are_refused() {
    let mut b = GeneratorBuilder::new_eval_int("1".to_string());
    b.script = None;
    match build_err(b) {
        BuildError::NotExistValueOf(n) => assert_eq!(n, "script"),
        other => panic!("unexpected {:?}", other),
    }
    let mut r = GeneratorBuilder::new_int(None);
    r.range = Some(ValueBound::new(Some(DataValue::String("x".to_string())), None));
    match build_err(r) {
        BuildError::FailParseValue(text, ty, m) => {
            assert_eq!(text, "x");
            assert_eq!(ty, "Int");
            assert_eq!(m, "invalid digit found in string");
        }
        other => panic!("unexpected {:?}", other),
    }
}

#[test]
fn first_identifier_comes_from_a_text() {
    let mut b = GeneratorBuilder::new_increment_id(None);
    b.increment = Some(ValueStep::new(DataValue::String("7".to_string()), Some(DataValue::Int(-2))));
    let mut g = build(b);
    let mut r = rng();
    let ctx = DataValueMap::new();
    let got: Vec<i32> = (0..3).map(|_| int_of(g.generate(&mut r, &ctx).unwrap())).collect();
    assert_eq!(got, vec![7, 5, 3]);
}

#[test]
fn identifier_stops_before_overflow() {
    let mut g = build(GeneratorBuilder::new_increment_id(Some(ValueStep::new(i32::MAX - 1, Some(1)))));
    let mut r = rng();
    let ctx = DataValueMap::new();
    assert_eq!(int_of(g.generate(&mut r, &ctx).unwrap()), i32::MAX - 1);
    assert!(matches!(g.generate(&mut r, &ctx), Err(GenerateError::FailGenerate(_))));
}

#[test]
fn time_excludes_an_open_end() {
    let ten = chrono::NaiveTime::from_hms_opt(10, 0, 0).unwrap().num_seconds_from_midnight() as i64;
    let mut g = build(GeneratorBuilder::new_time(Some(ValueBound::new(Some(ten), Some((false, ten + 1)))), None));
    let mut r = rng();
    let ctx = DataValueMap::new();
    for _ in 0..20 {
        assert_eq!(string_of(g.generate(&mut r, &ctx).unwrap()), "10:00:00");
    }
}

#[test]
fn a_bound_beyond_chrono_is_kept_as_digits() {
    let e = build_err(GeneratorBuilder::new_date(Some(ValueBound::new(Some(i64::MAX), None)), None));
    match e {
        BuildError::FailParseValue(text, ty, _) => {
            assert_eq!(text, i64::MAX.to_string());
            assert_eq!(ty, "Date");
        }
        other => panic!("unexpected {:?}", other),
    }
}

#[test]
fn empty_values_are_refused() {
    let e = build_err(GeneratorBuilder::new_select_int(None, Some(vec![]), None));
    assert!(matches!(e, BuildError::EmptySelectValues));
}

#[test]
fn shifts_are_checked() {
    let mut ok = build(GeneratorBuilder::new_eval_int("shl(1, 4) + shr(-8, 1)".to_string()));
    assert_eq!(int_of(gen(&mut ok, &DataValueMap::new())), 12);
    let mut bad = build(GeneratorBuilder::new_eval_int("shl(1, 64)".to_string()));
    let mut r = rng();
    assert!(matches!(
        bad.generate(&mut r, &DataValueMap::new()),
        Err(GenerateError::FailEval(EvalError::FailEval(_), _, _))
    ));
}

#[test]
fn choices_that_weigh_nothing_are_refused() {
    let e = build_err(GeneratorBuilder::new_randomize_with_children(vec![
        GeneratorBuilder::new_bool().into_child().weight(0),
    ]));
    assert!(matches!(e, BuildError::AllWeightsZero));
    let e = build_err(GeneratorBuilder::new_random_child(vec![]));
    assert!(matches!(e, BuildError::EmptySelectableChildren));
}

#[test]
fn the_first_failing_child_gives_the_error() {
    let empty_range = || GeneratorBuilder::new_int(Some(ValueBound::new(Some(3), Some((false, 3)))));
    let e = build_err(GeneratorBuilder::new_case_when(vec![
        GeneratorBuilder::new_case_when(vec![]).into_child().condition("true".to_string()),
        empty_range().into_child(),
    ]));
    assert!(matches!(e, BuildError::EmptySelectableChildren));
    let e = build_err(GeneratorBuilder::new_case_when(vec![
        empty_range().into_child().condition("true".to_string()),
        GeneratorBuilder::new_case_when(vec![]).into_child(),
    ]));
    assert!(matches!(e, BuildError::RangeEmpty(_)));
    let e = build_err(GeneratorBuilder::new_random_child(vec![
        GeneratorBuilder::new_bool().into_child().weight(0),
        empty_range().into_child().weight(0),
    ]));
    assert!(matches!(e, BuildError::RangeEmpty(_)));
}

#[test]
fn a_child_error_comes_before_a_missing_default_case() {
    let e = build_err(GeneratorBuilder::new_case_when(vec![
        GeneratorBuilder::new_bool().into_child().condition("true".to_string()),
        GeneratorBuilder::new_random_child(vec![]).into_child().condition("false".to_string()),
    ]));
    assert!(matches!(e, BuildError::EmptySelectableChildren));
}

#[test]
fn real_kinds_need_an_extension() {
    let e = build_err(GeneratorBuilder::new_eval_real("1.5".to_string()));
    assert!(matches!(e, BuildError::InvalidType(GeneratorType::EvalReal)));
    let e = build_err(GeneratorBuilder::new_random_child(vec![
        GeneratorBuilder::new_eval_real("1.5".to_string()).into_child(),
    ]));
    assert!(matches!(e, BuildError::InvalidType(GeneratorType::EvalReal)));
}

#[test]
fn nested_identifiers_advance_by_their_step() {
    let mut g = build(GeneratorBuilder::new_case_when(vec![GeneratorBuilder::new_increment_id(Some(ValueStep::new(
        5,
        Some(3),
    )))
    .into_child()]));
    let mut rng = StdRng::seed_from_u64(3);
    let ctx = DataValueMap::new();
    let got: Vec<DataValue> = (0..3).map(|_| g.generate(&mut rng, &ctx).unwrap()).collect();
    assert!(matches!(got[0], DataValue::Int(5)));
    assert!(matches!(got[1], DataValue::Int(8)));
    assert!(matches!(got[2], DataValue::Int(11)));
    let mut w = build(GeneratorBuilder::new_random_child(vec![GeneratorBuilder::new_increment_id(None).into_child()]));
    assert!(matches!(w.generate(&mut rng, &ctx).unwrap(), DataValue::Int(1)));
    assert!(matches!(w.generate(&mut rng, &ctx).unwrap(), DataValue::Int(2)));
}
