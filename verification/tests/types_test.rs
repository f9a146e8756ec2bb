use balsa::balsa_types::{BalsaFloat, BalsaType, BalsaValue};
use balsa::parameters_builder::{AsParameters, BalsaParameters};
use balsa::validators::is_valid_color;

#[test]
fn test_balsa_integer_to_float_cast() {
    let integer = BalsaValue::Integer(80000);

    integer.try_cast(BalsaType::Float).expect(&format!(
        "`BalsaValue::try_cast` should correctly cast value `{:?}` from type `{:?}` to type `{:?}`",
        integer,
        integer.get_type(),
        BalsaType::Float
    ));
}

#[test]
fn simple_parameters() {
    let params = BalsaParameters::new()
        .string("hello", "world")
        .color("red", "#ff0000")
        .integer("currentYear", 2022)
        .float(
            "floatyFloat",
            BalsaFloat::from_text(&20.23_f64.to_string()).unwrap(),
        );

    assert_eq!(
        params.get("hello"),
        Some(BalsaValue::String("world".to_string())),
        "String parameter `hello` does not equal `world`"
    );

    assert_eq!(
        params.get("red"),
        Some(BalsaValue::Color("#ff0000".to_string())),
        "Color parameter `red` does not equal `#ff0000`"
    );

    assert_eq!(
        params.get("currentYear"),
        Some(BalsaValue::Integer(2022)),
        "Integer parameter `currentYear` does not equal `2022`"
    );

    assert_eq!(
        params.get("floatyFloat"),
        Some(BalsaValue::Float(
            BalsaFloat::from_text(&20.23_f64.to_string()).unwrap()
        )),
        "Integer parameter `currentYear` does not equal `2022`"
    );
}

struct ParameterTestStruct {
    header_text: String,
    red: String,
    small_int: i32,
}

impl AsParameters for ParameterTestStruct {
    fn as_parameters(&self) -> BalsaParameters {
        BalsaParameters::new()
            .string("headerText", &self.header_text)
            .color("red", &self.red)
            .integer("smallInt", self.small_int.into())
    }
}

#[test]
fn struct_parameters() {
    let params = ParameterTestStruct {
        header_text: "Hello world!".to_string(),
        red: "#ff0000".to_string(),
        small_int: 123,
    };

    let balsa_params = params.as_parameters();

    assert_eq!(
        balsa_params.get("headerText"),
        Some(BalsaValue::String(params.header_text.clone())),
        "String parameter `headerText` does not equal `{}`",
        params.header_text
    );

    assert_eq!(
        balsa_params.get("red"),
        Some(BalsaValue::Color(params.red.clone())),
        "Color parameter `red` does not equal `{}`",
        params.red
    );

    assert_eq!(
        balsa_params.get("smallInt"),
        Some(BalsaValue::Integer(params.small_int.into())),
        "Integer parameter `smallInt` does not equal `{}`",
        params.small_int
    );
}

#[test]
fn test_validate_color() {
    let valid_colors = vec![
        "#ffffff",
        "orange",
        "rgb(0 , 0,2)",
        "rgba(12, 255, 183 , 0.8)",
        "#ffffffff",
        "hsl(0,0,0)",
        "hsla(0,123,244,0.2)",
        "purple",
    ];
    let invalid_colors = vec![
        "#lololl",
        "#fffffffff",
        "a  rgb(255,255,255)",
        "rustcolor",
        "rbg(0,0,0)",
    ];

    for color in valid_colors {
        assert!(
            is_valid_color(color),
            "`is_valid_color` incorrectly returned `false` for valid color `{}`",
            color
        );
    }

    for color in invalid_colors {
        assert!(
            !is_valid_color(color),
            "`is_valid_color` incorrectly returned `true` for invalid color `{}`",
            color
        );
    }
}
