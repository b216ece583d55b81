use sbrd_gen::cli::{OutputType, ParserType, SbrdGenApp};
use sbrd_gen::error::BuildError;
use sbrd_gen::builder::{Nullable, ValueBound, ValueStep};
use sbrd_gen::context::DataValueMap;
use sbrd_gen::generator_type::GeneratorType;
use sbrd_gen::value::{int64_to_string, int_to_string, nat_to_string, parse_int, DataValue, IntParseError};
use sbrd_gen::writer::{display_fields, join_fields};

#[test]
fn int_text_of_negative_and_extremes() {
    assert_eq!(int_to_string(-123), "-123");
    assert_eq!(int_to_string(0), "0");
    assert_eq!(int_to_string(i32::MIN), "-2147483648");
    assert_eq!(int_to_string(i32::MAX), "2147483647");
    assert_eq!(int64_to_string(i64::MIN), "-9223372036854775808");
    assert_eq!(nat_to_string(18446744073709551615u128), "18446744073709551615");
}

#[test]
fn parse_int_accepts_signs_and_rejects_bad_texts() {
    assert_eq!(parse_int("+42"), Ok(42));
    assert_eq!(parse_int("-7"), Ok(-7));
    assert_eq!(parse_int("007"), Ok(7));
    assert_eq!(parse_int(""), Err(IntParseError::Empty));
    assert_eq!(parse_int("-"), Err(IntParseError::InvalidDigit));
    assert_eq!(parse_int("12a"), Err(IntParseError::InvalidDigit));
    assert_eq!(parse_int("2147483648"), Err(IntParseError::PosOverflow));
    assert_eq!(parse_int("-2147483649"), Err(IntParseError::NegOverflow));
    assert_eq!(parse_int("-2147483648"), Ok(i32::MIN));
}

#[test]
fn parse_int_agrees_with_std() {
    for text in ["0", "-0", "+0", "99", "-99", " 1", "1 ", "++1", "--1", "2147483647", "-2147483648", "abc"] {
        let ours = parse_int(text).ok();
        let std = text.parse::<i32>().ok();
        assert_eq!(ours, std, "text {:?}", text);
    }
}

#[test]
fn int_text_reads_back() {
    for v in [0, 1, -1, 10, -10, 12345, i32::MIN, i32::MAX] {
        assert_eq!(parse_int(&int_to_string(v)), Ok(v));
    }
}

#[test]
fn parse_error_messages_match_std() {
    assert_eq!(IntParseError::Empty.message(), "".parse::<i32>().unwrap_err().to_string());
    assert_eq!(IntParseError::InvalidDigit.message(), "x".parse::<i32>().unwrap_err().to_string());
    assert_eq!(IntParseError::PosOverflow.message(), "9999999999".parse::<i32>().unwrap_err().to_string());
    assert_eq!(IntParseError::NegOverflow.message(), "-9999999999".parse::<i32>().unwrap_err().to_string());
}

#[test]
fn value_texts() {
    assert_eq!(DataValue::Null.to_display_string(), "null");
    assert_eq!(DataValue::Null.to_permutation_string(), "");
    assert_eq!(DataValue::Null.to_parse_string(), "");
    assert_eq!(DataValue::Bool(true).to_display_string(), "true");
    assert_eq!(DataValue::Int(-5).to_parse_string(), "-5");
    assert_eq!(DataValue::Real("12.345".to_string()).to_display_string(), "12.345");
    assert_eq!(DataValue::String("abc".to_string()).to_permutation_string(), "abc");
    assert!(DataValue::Null.is_null());
    assert!(!DataValue::Int(0).is_null());
    assert!(matches!(DataValue::from(3), DataValue::Int(3)));
    assert!(matches!(DataValue::from(false), DataValue::Bool(false)));
}

#[test]
fn map_reads_back_what_was_written() {
    let mut m = DataValueMap::new();
    assert_eq!(m.len(), 0);
    m.insert("a".to_string(), DataValue::Int(1));
    m.insert("b".to_string(), DataValue::Bool(true));
    m.insert("a".to_string(), DataValue::Int(2));
    assert_eq!(m.len(), 2);
    assert!(matches!(m.get("a"), Some(DataValue::Int(2))));
    assert!(matches!(m.get("b"), Some(DataValue::Bool(true))));
    assert!(m.get("c").is_none());
    assert!(m.contains_key("b"));
    assert!(!m.contains_key("c"));
    let (k, v) = m.entry_at(0);
    assert_eq!(k, "a");
    assert!(matches!(v, DataValue::Int(2)));
    let copy = m.duplicate();
    assert!(matches!(copy.get("a"), Some(DataValue::Int(2))));
}

#[test]
fn bound_text_and_membership() {
    let b = ValueBound::new(Some(1), Some((true, 15)));
    assert_eq!(b.to_display_string(), "1..=15");
    assert!(b.contains(&15));
    assert!(!b.contains(&16));
    assert!(!b.is_empty());
    let open = ValueBound::new(Some(3), Some((false, 3)));
    assert!(open.is_empty());
    assert_eq!(open.to_display_string(), "3..3");
    let half: ValueBound<i32> = ValueBound::new(None, Some((false, 0)));
    assert_eq!(half.to_display_string(), "..0");
    assert!(!half.is_empty());
    assert!(half.contains(&-1));
    assert!(!half.contains(&0));
    let full: ValueBound<i32> = ValueBound::new_full();
    assert_eq!(full.to_display_string(), "..");
    assert!(full.contains(&i32::MIN));
}

#[test]
fn bound_filled_from_other() {
    let given: ValueBound<i32> = ValueBound::new(Some(5), None);
    let other = ValueBound::new(Some(0), Some((false, 10)));
    let filled = given.without_no_bound_from_other(other);
    assert_eq!(*filled.get_start(), Some(5));
    assert_eq!(*filled.get_end(), Some(10));
    assert!(!filled.is_include_end());
    let converted = filled.convert_with(|v| v * 2);
    assert_eq!(*converted.get_start(), Some(10));
    assert_eq!(*converted.get_end(), Some(20));
    let tried: Result<ValueBound<i32>, String> =
        ValueBound::new(Some(1), Some((true, 2))).try_convert_with(|v| if v > 1 { Err(format!("bad {}", v)) } else { Ok(v) });
    assert_eq!(tried, Err("bad 2".to_string()));
}

#[test]
fn step_text_and_conversion() {
    let s = ValueStep::new(1, Some(2));
    assert_eq!(s.to_display_string(), "1..(/2)");
    assert_eq!(ValueStep::new(7, None).to_display_string(), "7..");
    let t = s.convert_with(|v| v + 1);
    assert_eq!(*t.get_initial(), 2);
    assert_eq!(*t.get_step(), Some(3));
    let failed: Result<ValueStep<i32>, i32> = ValueStep::new(1, Some(2)).try_convert_with(|v| Err(v));
    assert_eq!(failed, Err(2));
}

#[test]
fn nullable_status() {
    assert!(Nullable::new_required().is_required());
    assert!(Nullable::new_nullable().is_nullable());
    assert!(Nullable::new_as_required().is_nullable());
    assert!(Nullable::new_as_nullable().is_required());
}

#[test]
fn generator_type_names() {
    assert_eq!(GeneratorType::Int.name(), "int");
    assert_eq!(GeneratorType::DuplicatePermutation.name(), "duplicate-permutation");
    assert_eq!(GeneratorType::GetStringValueAt.name(), "get-string-value-at");
    assert!(GeneratorType::Real.is_real_number());
    assert!(!GeneratorType::Int.is_real_number());
}

#[test]
fn rows_join_fields() {
    let fields = display_fields(&vec![DataValue::Int(1), DataValue::Null, DataValue::String("x".to_string())]);
    assert_eq!(fields, vec!["1".to_string(), "null".to_string(), "x".to_string()]);
    assert_eq!(join_fields(&fields, ','), "1,null,x");
    assert_eq!(join_fields(&Vec::new(), ','), "");
    assert_eq!(join_fields(&vec!["a".to_string()], '\t'), "a");
}

#[test]
fn build_error_messages() {
    assert_eq!(
        BuildError::SpecifiedKeyNotUnique(vec!["a".to_string(), "a".to_string()]).to_display_string(),
        "Not Unique Specified Keys: [\"a\", \"a\"]"
    );
    assert_eq!(
        BuildError::NotExistSpecifiedKey("k".to_string(), vec!["x".to_string()]).to_display_string(),
        "Not Exist Key \"k\" in [\"x\"]"
    );
    assert_eq!(BuildError::InvalidType(GeneratorType::Int).to_display_string(), "Invalid Type: ---\nint\n");
    assert_eq!(
        BuildError::FailParseValue("x".to_string(), "Int".to_string(), "bad".to_string()).to_display_string(),
        "Fail Parse x as Int with error: bad"
    );
    assert_eq!(
        BuildError::RangeEmpty(ValueBound::new(Some(DataValue::Int(3)), Some((false, DataValue::Int(3)))))
            .to_display_string(),
        "Empty Range: 3..3"
    );
    assert_eq!(BuildError::AllWeightsZero.to_display_string(), "All weights are zero");
    assert_eq!(
        BuildError::FileError("gone".to_string(), "a.txt".to_string()).to_display_string(),
        "File Error: gone at filepath `a.txt`"
    );
    assert_eq!(GeneratorType::CaseWhen.to_display_string(), "---\ncase-when\n");
}

#[test]
fn command_options() {
    let app = SbrdGenApp {
        schema_file_path: "schema.yaml".to_string(),
        parser_type: ParserType::Yaml,
        output_type: OutputType::Csv,
        count: 3,
        no_header: true,
        dry_run: false,
    };
    assert!(!app.with_key_header());
    assert_eq!(app.output_type.field_separator(), Some(','));
    assert_eq!(OutputType::Tsv.field_separator(), Some('\t'));
    assert_eq!(OutputType::Json.field_separator(), None);
}

#[test]
fn ranges_become_bounds() {
    let open: ValueBound<i32> = (1..5).into();
    assert_eq!(open.to_display_string(), "1..5");
    let closed: ValueBound<i32> = (0..=100).into();
    assert_eq!(closed.to_display_string(), "0..=100");
    assert!(closed.contains(&100));
    assert!(!open.contains(&5));
}

#[test]
fn default_bound_is_full() {
    let d: ValueBound<i32> = ValueBound::default();
    assert_eq!(d, ValueBound::new_full());
    assert!(d.contains(&i32::MIN) && d.contains(&i32::MAX));
}
