use balsa::balsa_types::{BalsaExpression, BalsaFloat, BalsaType, BalsaValue};
use balsa::errors::{
    BalsaCompileError, BalsaError, BalsaRenderError, InvalidParameter, InvalidTypeCast,
    MissingParameter, TemplateErrorContext, TemplateParseFail,
};
use balsa::string_map::{same_text, tuple_vec_to_map, StringMap};
use balsa::text::{digits_to_i64, i64_to_decimal};

fn string(s: &str) -> BalsaValue {
    BalsaValue::String(s.to_string())
}

fn color(s: &str) -> BalsaValue {
    BalsaValue::Color(s.to_string())
}

fn float(s: &str) -> BalsaValue {
    BalsaValue::Float(BalsaFloat::from_text(s).unwrap())
}

#[test]
fn cast_integer_to_float_in_range() {
    let cast = BalsaValue::Integer(80000).try_cast(BalsaType::Float).unwrap();
    assert_eq!(cast, float(&80000.0_f64.to_string()));
    assert_eq!(cast, float("80000"));
}

#[test]
fn cast_integer_to_float_at_the_limits() {
    assert_eq!(
        BalsaValue::Integer(2147483647).try_cast(BalsaType::Float).unwrap(),
        float(&f64::from(i32::MAX).to_string())
    );
    assert_eq!(
        BalsaValue::Integer(-2147483648).try_cast(BalsaType::Float).unwrap(),
        float(&f64::from(i32::MIN).to_string())
    );
    assert!(BalsaValue::Integer(2147483648).try_cast(BalsaType::Float).is_err());
    assert!(BalsaValue::Integer(-2147483649).try_cast(BalsaType::Float).is_err());
}

#[test]
fn cast_integer_to_float_out_of_range() {
    let err = BalsaValue::Integer(3_000_000_000)
        .try_cast(BalsaType::Float)
        .unwrap_err();
    assert_eq!(
        err,
        InvalidTypeCast {
            value: BalsaValue::Integer(3_000_000_000),
            from: BalsaType::Integer,
            to: BalsaType::Float,
        }
    );
}

#[test]
fn cast_string_to_color_checks_the_color() {
    assert_eq!(
        string("purple").try_cast(BalsaType::Color).unwrap(),
        color("purple")
    );
    assert_eq!(
        string("#ff0000").try_cast(BalsaType::Color).unwrap(),
        color("#ff0000")
    );
    assert_eq!(
        string("not-a-color").try_cast(BalsaType::Color).unwrap_err(),
        InvalidTypeCast {
            value: string("not-a-color"),
            from: BalsaType::String,
            to: BalsaType::Color,
        }
    );
}

#[test]
fn cast_with_takes_the_validity_as_given() {
    assert_eq!(
        string("not-a-color").cast_with(BalsaType::Color, true).unwrap(),
        color("not-a-color")
    );
    assert!(string("purple").cast_with(BalsaType::Color, false).is_err());
    assert_eq!(
        color("x").cast_with(BalsaType::Color, false).unwrap(),
        color("x")
    );
}

#[test]
fn cast_to_own_type_is_identity() {
    assert_eq!(string("a").try_cast(BalsaType::String).unwrap(), string("a"));
    assert_eq!(color("zzz").try_cast(BalsaType::Color).unwrap(), color("zzz"));
    assert_eq!(
        BalsaValue::Integer(-7).try_cast(BalsaType::Integer).unwrap(),
        BalsaValue::Integer(-7)
    );
    assert_eq!(float("1.5").try_cast(BalsaType::Float).unwrap(), float("1.5"));
}

#[test]
fn cast_color_to_string_unwraps_the_text() {
    assert_eq!(color("zzz").try_cast(BalsaType::String).unwrap(), string("zzz"));
}

#[test]
fn no_cast_across_kinds() {
    assert!(BalsaValue::Integer(1).try_cast(BalsaType::String).is_err());
    assert!(BalsaValue::Integer(1).try_cast(BalsaType::Color).is_err());
    assert!(float("1").try_cast(BalsaType::String).is_err());
    assert!(float("1").try_cast(BalsaType::Color).is_err());
    assert!(float("1").try_cast(BalsaType::Integer).is_err());
    assert!(string("1").try_cast(BalsaType::Integer).is_err());
    assert!(string("1").try_cast(BalsaType::Float).is_err());
    assert!(color("red").try_cast(BalsaType::Integer).is_err());
    assert!(color("red").try_cast(BalsaType::Float).is_err());
    assert_eq!(
        float("1").try_cast(BalsaType::Integer).unwrap_err(),
        InvalidTypeCast { value: float("1"), from: BalsaType::Float, to: BalsaType::Integer }
    );
}

#[test]
fn get_type_and_is_type() {
    assert_eq!(string("a").get_type(), BalsaType::String);
    assert_eq!(color("a").get_type(), BalsaType::Color);
    assert_eq!(BalsaValue::Integer(1).get_type(), BalsaType::Integer);
    assert_eq!(float("1").get_type(), BalsaType::Float);
    assert!(string("a").is_type(BalsaType::String));
    assert!(!string("a").is_type(BalsaType::Color));
}

#[test]
fn expression_narrowing() {
    let id = BalsaExpression::Identifier("x".to_string());
    let ty = BalsaExpression::Type(BalsaType::Float);
    let val = BalsaExpression::Value(BalsaValue::Integer(3));
    assert_eq!(id.as_identifier(), Some("x".to_string()));
    assert_eq!(id.as_type(), None);
    assert_eq!(id.as_value(), None);
    assert_eq!(ty.as_identifier(), None);
    assert_eq!(ty.as_type(), Some(BalsaType::Float));
    assert_eq!(ty.as_value(), None);
    assert_eq!(val.as_identifier(), None);
    assert_eq!(val.as_type(), None);
    assert_eq!(val.as_value(), Some(BalsaValue::Integer(3)));
}

#[test]
fn float_text_accepts_renderings_of_floats() {
    for value in [0.0_f64, -0.0, 1.0, -1.5, 20.23, 1e21, 1e-7, f64::MAX, f64::MIN_POSITIVE] {
        let text = value.to_string();
        let float = BalsaFloat::from_text(&text);
        assert!(float.is_some(), "`{}` should be accepted", text);
        assert_eq!(float.unwrap().as_str(), text);
    }
    for value in [f64::NAN, f64::INFINITY, f64::NEG_INFINITY] {
        let text = value.to_string();
        assert!(BalsaFloat::from_text(&text).is_some(), "`{}` should be accepted", text);
    }
}

#[test]
fn float_text_rejects_other_text() {
    for text in [
        "", ".", "-", "1.", ".5", "1..2", "1.2.3", "abc", "+1", "1e5", "--1", "-.5", " 1", "1 ",
        "nan", "Inf", "-NaN", "1,5", "١",
    ] {
        assert!(BalsaFloat::from_text(text).is_none(), "`{}` should be rejected", text);
    }
}

#[test]
fn float_from_i32_is_the_decimal_numeral() {
    for n in [0, 1, -1, 80000, i32::MAX, i32::MIN] {
        assert_eq!(BalsaFloat::from_i32(n).as_str(), f64::from(n).to_string());
    }
    assert_eq!(BalsaFloat::from_i32(i32::MIN).as_str(), "-2147483648");
}

#[test]
fn digits_to_i64_reads_digits() {
    assert_eq!(digits_to_i64("0"), Some(0));
    assert_eq!(digits_to_i64("007"), Some(7));
    assert_eq!(digits_to_i64("1234567890"), Some(1234567890));
    assert_eq!(digits_to_i64("9223372036854775807"), Some(i64::MAX));
    assert_eq!(digits_to_i64("0009223372036854775807"), Some(i64::MAX));
}

#[test]
fn digits_to_i64_rejects_what_does_not_fit_or_is_no_number() {
    assert_eq!(digits_to_i64("9223372036854775808"), None);
    assert_eq!(digits_to_i64("99999999999999999999"), None);
    assert_eq!(digits_to_i64(""), None);
    assert_eq!(digits_to_i64("12a"), None);
    assert_eq!(digits_to_i64("-1"), None);
    assert_eq!(digits_to_i64("+1"), None);
}

#[test]
fn i64_to_decimal_writes_the_numeral() {
    for n in [0_i64, 7, -7, 10, 100, -100, 1234567890, i64::MAX, i64::MIN] {
        assert_eq!(i64_to_decimal(n), n.to_string());
    }
    assert_eq!(i64_to_decimal(i64::MIN), "-9223372036854775808");
}

#[test]
fn string_map_keeps_order_of_first_insertion() {
    let map = StringMap::new()
        .insert("b".to_string(), 1)
        .insert("a".to_string(), 2)
        .insert("b".to_string(), 3);
    assert_eq!(map.len(), 2);
    assert_eq!(map.get("a"), Some(&2));
    assert_eq!(map.get("b"), Some(&3));
    assert_eq!(map.get("c"), None);
    assert_eq!(map.entry(0), (&"b".to_string(), &3));
    assert_eq!(map.entry(1), (&"a".to_string(), &2));
}

#[test]
fn string_map_starts_empty() {
    let map: StringMap<i64> = StringMap::new();
    assert_eq!(map.len(), 0);
    assert_eq!(map.get(""), None);
}

#[test]
fn tuple_vec_to_map_keeps_the_last_value() {
    let map = tuple_vec_to_map(vec![
        ("x".to_string(), 1),
        ("y".to_string(), 2),
        ("x".to_string(), 3),
    ]);
    assert_eq!(map.len(), 2);
    assert_eq!(map.get("x"), Some(&3));
    assert_eq!(map.get("y"), Some(&2));
    assert_eq!(map.entry(0).0, "x");
    let empty: StringMap<i64> = tuple_vec_to_map(vec![]);
    assert_eq!(empty.len(), 0);
}

#[test]
fn same_text_compares_texts() {
    assert!(same_text("defaultValue", "defaultValue"));
    assert!(!same_text("defaultValue", "defaultvalue"));
    assert!(!same_text("a", "ab"));
    assert!(same_text("", ""));
}

#[test]
fn error_constructors_build_the_errors() {
    assert_eq!(
        BalsaError::generic_template_parse_fail(3),
        BalsaError::CompileError(BalsaCompileError::TemplateParseFail(TemplateErrorContext {
            pos: 3,
            error: TemplateParseFail::Generic,
        }))
    );
    assert_eq!(
        BalsaError::invalid_parameter(4, "bogus".to_string()),
        BalsaError::CompileError(BalsaCompileError::InvalidParameter(TemplateErrorContext {
            pos: 4,
            error: InvalidParameter { parameter_name: "bogus".to_string() },
        }))
    );
    assert_eq!(
        BalsaError::invalid_type_cast(
            5,
            BalsaValue::Integer(1),
            BalsaType::Integer,
            BalsaType::String
        ),
        BalsaError::CompileError(BalsaCompileError::InvalidTypeCast(TemplateErrorContext {
            pos: 5,
            error: InvalidTypeCast {
                value: BalsaValue::Integer(1),
                from: BalsaType::Integer,
                to: BalsaType::String,
            },
        }))
    );
    assert_eq!(
        BalsaError::missing_parameter("x".to_string()),
        BalsaError::RenderError(BalsaRenderError::MissingParameter(MissingParameter {
            parameter_name: "x".to_string(),
        }))
    );
}
