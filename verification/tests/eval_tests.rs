use evalexpr::Value;
use sbrd_gen::eval::{get_function, shl_function, shr_function};
use sbrd_gen::context::DataValueMap;
use sbrd_gen::eval::{EvalError, Evaluator, FormatText, ValueFormatter};
use sbrd_gen::value::DataValue;

/// Shows what it was asked to format.
struct Echo;

impl ValueFormatter for Echo {
    fn format_spec(_value: DataValue, _format: FormatText) -> Option<FormatText> {
        unreachable!("a member for the specification alone")
    }

    fn format(value: &DataValue, format: &str) -> Option<String> {
        if format == "{:bad}" {
            None
        } else {
            Some(format!("<{}|{}>", value.to_parse_string(), format))
        }
    }
}

fn doc_context() -> DataValueMap {
    let mut ctx = DataValueMap::new();
    ctx.insert("Key-Int".to_string(), DataValue::Int(12));
    ctx.insert("キー Real".to_string(), DataValue::Real("12.345".to_string()));
    ctx.insert("Key:String".to_string(), DataValue::String("aiueoあいうえお".to_string()));
    ctx.insert("Key Bool:".to_string(), DataValue::Bool(true));
    ctx.insert("key Null ".to_string(), DataValue::Null);
    ctx
}

#[test]
fn keys_are_replaced_by_their_text() {
    let ctx = doc_context();
    let ev = Evaluator::new(&ctx);
    assert_eq!(ev.format_script::<Echo>("no key").unwrap(), "no key");
    assert_eq!(ev.format_script::<Echo>("{Key-Int}").unwrap(), "12");
    assert_eq!(ev.format_script::<Echo>("{key Null }").unwrap(), "");
    assert_eq!(ev.format_script::<Echo>("{Key:String}").unwrap(), "aiueoあいうえお");
    assert_eq!(ev.format_script::<Echo>("{Key Bool:}").unwrap(), "true");
}

#[test]
fn format_specifications_go_to_the_formatter() {
    let ctx = doc_context();
    let ev = Evaluator::new(&ctx);
    assert_eq!(ev.format_script::<Echo>("Rate={キー Real:+7.2}").unwrap(), "Rate=<12.345|{:+7.2}>");
    assert_eq!(ev.format_script::<Echo>("{Key:String:^12}").unwrap(), "<aiueoあいうえお|{:^12}>");
    assert_eq!(ev.format_script::<Echo>("{Key Bool::<8}").unwrap(), "<true|{:<8}>");
    match ev.format_script::<Echo>("{Key-Int:bad}") {
        Err(EvalError::FailApplyValueContext(m)) => assert_eq!(m, "Error in template string at \"{Key-Int:bad}\": Fail apply key \"Key-Int\"."),
        other => panic!("unexpected {:?}", other),
    }
    match ev.format_script::<Echo>("{missing:x}") {
        Err(EvalError::FailApplyValueContext(m)) => {
            assert_eq!(m, "Error in template string at \"{missing:x}\": Not found key \"missing\" at the value context.")
        }
        other => panic!("unexpected {:?}", other),
    }
    match ev.format_script::<Echo>("{missing}") {
        Err(EvalError::FailApplyValueContext(m)) => {
            assert_eq!(m, "Error in template string at \"{missing}\": Not found key \"missing\" at the value context.")
        }
        other => panic!("unexpected {:?}", other),
    }
}

#[test]
fn braces_and_evaluation() {
    let ctx = doc_context();
    let ev = Evaluator::new(&ctx);
    assert_eq!(ev.format_script::<Echo>("{{}}").unwrap(), "{}");
    assert_eq!(ev.eval_int::<Echo>("{Key-Int} + 1").unwrap(), 13);
    assert!(!ev.eval_bool::<Echo>("{Key Bool:} && false").unwrap());
    assert_eq!(ev.eval_string::<Echo>("\"{Key:String}\"").unwrap(), "aiueoあいうえお");
}

#[test]
fn get_gives_the_item_at_the_index() {
    let items = Value::Tuple(vec![Value::Int(10), Value::String("b".to_string()), Value::Boolean(true)]);
    let arg = |i: i64| Value::Tuple(vec![items.clone(), Value::Int(i)]);
    assert_eq!(get_function(&arg(0)).unwrap(), Value::Int(10));
    assert_eq!(get_function(&arg(1)).unwrap(), Value::String("b".to_string()));
    assert_eq!(get_function(&arg(2)).unwrap(), Value::Boolean(true));
    assert!(get_function(&arg(3)).is_err());
    assert!(get_function(&arg(-1)).is_err());
    assert!(get_function(&Value::Tuple(vec![Value::Int(1), Value::Int(0)])).is_err());
    assert!(get_function(&Value::Tuple(vec![items.clone()])).is_err());
    assert!(get_function(&Value::Int(4)).is_err());
}

#[test]
fn checked_shifts() {
    let pair = |a: i64, b: i64| Value::Tuple(vec![Value::Int(a), Value::Int(b)]);
    assert_eq!(shl_function(&pair(3, 4)).unwrap(), Value::Int(48));
    assert_eq!(shr_function(&pair(-64, 3)).unwrap(), Value::Int(-8));
    assert!(shl_function(&pair(1, 64)).is_err());
    assert!(shr_function(&pair(1, -1)).is_err());
    assert!(shl_function(&Value::Int(1)).is_err());
}
