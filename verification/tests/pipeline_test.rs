use balsa::balsa_compiler::{
    CompiledTemplate, ParameterDescription, ReplaceWith, ReplacementInstruction, Scope,
};
use balsa::balsa_types::{BalsaExpression, BalsaFloat, BalsaType, BalsaValue};
use balsa::errors::{
    BalsaCompileError, BalsaError, BalsaRenderError, InvalidExpression,
    InvalidIdentifierForDeclarationBlock, InvalidIdentifierForParameterBlock, InvalidParameter,
    InvalidParameterType, InvalidTypeCast, InvalidTypeExpression, MissingParameter,
    TemplateErrorContext, TemplateParseFail,
};
use balsa::parameters_builder::BalsaParameters;
use balsa::string_map::StringMap;
use balsa::template::{compile, render, Balsa};

fn failure_of(text: &str) -> BalsaCompileError {
    match compile(text) {
        Err(BalsaError::CompileError(e)) => e,
        other => panic!("`{}` should fail to compile, got {:?}", text, other),
    }
}

fn render_failure(text: &str, parameters: &BalsaParameters) -> BalsaRenderError {
    let compiled = compile(text).unwrap();
    match render(text, &compiled, parameters) {
        Err(BalsaError::RenderError(e)) => e,
        other => panic!("`{}` should fail to render, got {:?}", text, other),
    }
}

fn rendered(text: &str, parameters: &BalsaParameters) -> String {
    let compiled = compile(text).unwrap();
    render(text, &compiled, parameters).unwrap()
}

fn spans(compiled: &CompiledTemplate) -> Vec<(usize, usize)> {
    compiled
        .replacements
        .iter()
        .map(|r| (r.start_pos, r.end_pos))
        .collect()
}

#[test]
fn literal_text_passes_through() {
    let parameters = BalsaParameters::new().string("name", "World");
    assert_eq!(rendered("Hello {{ name : string }}!", &parameters), "Hello World!");
}

#[test]
fn default_value_is_used_without_parameter() {
    let text = "{{ city : string, defaultValue: \"Unknown\" }}";
    assert_eq!(rendered(text, &BalsaParameters::new()), "Unknown");
}

#[test]
fn parameter_is_preferred_to_default_value() {
    let text = "{{ city : string, defaultValue: \"Unknown\" }}";
    let parameters = BalsaParameters::new().string("city", "Paris");
    assert_eq!(rendered(text, &parameters), "Paris");
}

#[test]
fn missing_parameter_is_named() {
    assert_eq!(
        render_failure("{{ x : int }}", &BalsaParameters::new()),
        BalsaRenderError::MissingParameter(MissingParameter { parameter_name: "x".to_string() })
    );
}

#[test]
fn parameter_of_wrong_type_is_reported() {
    let parameters = BalsaParameters::new().string("x", "seven");
    assert_eq!(
        render_failure("{{ x : int }}", &parameters),
        BalsaRenderError::InvalidParameterType(InvalidParameterType {
            parameter_name: "x".to_string(),
            received_value: BalsaValue::String("seven".to_string()),
            received_type: BalsaType::String,
            expected_type: BalsaType::Integer,
        })
    );
}

#[test]
fn failed_render_leaves_template_usable() {
    let text = "{{ x : int }}";
    let compiled = compile(text).unwrap();
    assert!(render(text, &compiled, &BalsaParameters::new()).is_err());
    let parameters = BalsaParameters::new().integer("x", 3);
    assert_eq!(render(text, &compiled, &parameters).unwrap(), "3");
}

#[test]
fn unknown_option_is_named() {
    assert_eq!(
        failure_of("{{ x : string, bogus: \"y\" }}"),
        BalsaCompileError::InvalidParameter(TemplateErrorContext {
            pos: 0,
            error: InvalidParameter { parameter_name: "bogus".to_string() },
        })
    );
}

#[test]
fn rendering_twice_gives_the_same() {
    let text = "<p>{{ a : string }} and {{ b : int, defaultValue: 4 }}</p>";
    let compiled = compile(text).unwrap();
    let parameters = BalsaParameters::new().string("a", "x");
    let first = render(text, &compiled, &parameters);
    let second = render(text, &compiled, &parameters);
    assert_eq!(first, second);
    assert_eq!(first.unwrap(), "<p>x and 4</p>");

    let none = BalsaParameters::new();
    assert_eq!(render(text, &compiled, &none), render(text, &compiled, &none));
}

#[test]
fn text_without_blocks_is_unchanged() {
    for text in [
        "",
        "plain",
        "<html>\n<body>text</body>\n</html>",
        "a { b } c",
        "{",
        "{{",
        "{{{{",
        "{{ not a block",
        "{{ x }}",
        "{{@ }}",
        "}} {{",
        "héllo wörld {",
    ] {
        let compiled = compile(text).unwrap();
        assert!(compiled.replacements.is_empty(), "`{}` holds no block", text);
        assert_eq!(compiled.global_scope.variables.len(), 0);
        let parameters = BalsaParameters::new().string("x", "y").integer("n", 1);
        assert_eq!(render(text, &compiled, &parameters).unwrap(), text);
        assert_eq!(render(text, &compiled, &BalsaParameters::new()).unwrap(), text);
    }
}

#[test]
fn instructions_are_in_source_order() {
    let text = "{{ a : int }}-{{@ k : int = 1 }}-{{ b : int }}{{ c : string }} {{ a : int }}";
    let compiled = compile(text).unwrap();
    assert_eq!(spans(&compiled), vec![(0, 13), (33, 46), (46, 62), (63, 76)]);
    let found = spans(&compiled);
    for pair in found.windows(2) {
        assert!(pair[0].0 < pair[1].0);
        assert!(pair[0].1 <= pair[1].0);
    }
    let names: Vec<String> = compiled
        .replacements
        .iter()
        .map(|r| match &r.replace_with {
            ReplaceWith::Parameter(p) => p.variable_name.clone(),
            ReplaceWith::Nothing => String::new(),
        })
        .collect();
    assert_eq!(names, vec!["a", "b", "c", "a"]);
}

#[test]
fn adjacent_blocks_are_both_replaced() {
    let parameters = BalsaParameters::new().integer("a", 1).integer("b", 2);
    assert_eq!(rendered("{{ a : int }}{{ b : int }}", &parameters), "12");
}

#[test]
fn lone_brace_before_block_is_text() {
    let parameters = BalsaParameters::new().integer("x", 7);
    assert_eq!(rendered("{{{ x : int }}", &parameters), "{7");
    assert_eq!(rendered("{ {{ x : int }} }", &parameters), "{ 7 }");
}

#[test]
fn positions_count_characters() {
    let text = "héllo {{ n : string }} wörld";
    let compiled = compile(text).unwrap();
    assert_eq!(spans(&compiled), vec![(6, 22)]);
    let parameters = BalsaParameters::new().string("n", "ünïcode");
    assert_eq!(render(text, &compiled, &parameters).unwrap(), "héllo ünïcode wörld");
}

#[test]
fn whitespace_in_blocks_is_not_significant() {
    let parameters = BalsaParameters::new().integer("x", 7);
    for text in [
        "{{x:int}}",
        "{{ x : int }}",
        "{{\n\tx\n:\n\tint\n}}",
        "{{   x   :   int   }}",
        "{{x:int,defaultValue:5}}",
        "{{ x : int , defaultValue : 5 }}",
    ] {
        assert_eq!(rendered(text, &parameters), "7", "in `{}`", text);
    }
}

#[test]
fn declarations_fill_the_scope_and_stay_in_the_text() {
    let text = "a{{@ title : string = \"T\", n : int = 5, c : color = \"red\" }}b";
    let compiled = compile(text).unwrap();
    assert!(compiled.replacements.is_empty());
    let scope = &compiled.global_scope.variables;
    assert_eq!(scope.len(), 3);
    assert_eq!(scope.get("title"), Some(&BalsaValue::String("T".to_string())));
    assert_eq!(scope.get("n"), Some(&BalsaValue::Integer(5)));
    assert_eq!(scope.get("c"), Some(&BalsaValue::Color("red".to_string())));
    assert_eq!(render(text, &compiled, &BalsaParameters::new()).unwrap(), text);
}

#[test]
fn later_declaration_overwrites_earlier() {
    let text = "{{@ a : int = 1, b : int = 2, a : int = 3 }}{{@ b : string = \"x\" }}";
    let compiled = compile(text).unwrap();
    let scope = &compiled.global_scope.variables;
    assert_eq!(scope.len(), 2);
    assert_eq!(scope.get("a"), Some(&BalsaValue::Integer(3)));
    assert_eq!(scope.get("b"), Some(&BalsaValue::String("x".to_string())));
}

#[test]
fn scope_is_not_read_when_rendering() {
    let text = "{{@ x : int = 1 }}{{ x : int }}";
    assert_eq!(
        render_failure(text, &BalsaParameters::new()),
        BalsaRenderError::MissingParameter(MissingParameter { parameter_name: "x".to_string() })
    );
}

#[test]
fn integer_default_is_cast_to_float() {
    let text = "{{ f : float, defaultValue: 80000 }}";
    let compiled = compile(text).unwrap();
    assert_eq!(
        compiled.replacements,
        vec![ReplacementInstruction {
            start_pos: 0,
            end_pos: 36,
            replace_with: ReplaceWith::Parameter(ParameterDescription {
                variable_name: "f".to_string(),
                variable_type: BalsaType::Float,
                default_value: Some(BalsaValue::Float(
                    BalsaFloat::from_text(&80000.0_f64.to_string()).unwrap()
                )),
            }),
        }]
    );
    assert_eq!(render(text, &compiled, &BalsaParameters::new()).unwrap(), "80000");
}

#[test]
fn values_are_rendered_in_their_text_form() {
    let text = "{{ s : string }}|{{ c : color }}|{{ i : int }}|{{ f : float }}|{{ g : float }}";
    let parameters = BalsaParameters::new()
        .string("s", "<b>&")
        .color("c", "#fff")
        .integer("i", -42)
        .float("f", BalsaFloat::from_text(&20.23_f64.to_string()).unwrap())
        .integer("g", -3);
    assert_eq!(rendered(text, &parameters), "<b>&|#fff|-42|20.23|-3");
}

#[test]
fn extreme_integers_are_rendered() {
    let parameters = BalsaParameters::new().integer("i", i64::MIN);
    assert_eq!(rendered("{{ i : int }}", &parameters), "-9223372036854775808");
    let parameters = BalsaParameters::new().integer("i", i64::MAX);
    assert_eq!(rendered("{{ i : int }}", &parameters), "9223372036854775807");
    assert_eq!(
        rendered("{{ i : int, defaultValue: 9223372036854775807 }}", &BalsaParameters::new()),
        "9223372036854775807"
    );
}

#[test]
fn color_parameter_is_checked_when_cast_from_string() {
    let parameters = BalsaParameters::new().string("c", "purple");
    assert_eq!(rendered("{{ c : color }}", &parameters), "purple");
    let parameters = BalsaParameters::new().string("c", "not-a-color");
    assert_eq!(
        render_failure("{{ c : color }}", &parameters),
        BalsaRenderError::InvalidParameterType(InvalidParameterType {
            parameter_name: "c".to_string(),
            received_value: BalsaValue::String("not-a-color".to_string()),
            received_type: BalsaType::String,
            expected_type: BalsaType::Color,
        })
    );
    let parameters = BalsaParameters::new().color("c", "anything");
    assert_eq!(rendered("{{ c : string }}", &parameters), "anything");
}

#[test]
fn malformed_literal_fails_the_parse() {
    assert_eq!(
        failure_of("text {{ x : int, defaultValue: 99999999999999999999 }}"),
        BalsaCompileError::TemplateParseFail(TemplateErrorContext {
            pos: 0,
            error: TemplateParseFail::Generic,
        })
    );
}

#[test]
fn default_value_that_cannot_be_cast_is_reported() {
    assert_eq!(
        failure_of("ab {{ x : int, defaultValue: \"seven\" }}"),
        BalsaCompileError::InvalidTypeCast(TemplateErrorContext {
            pos: 3,
            error: InvalidTypeCast {
                value: BalsaValue::String("seven".to_string()),
                from: BalsaType::String,
                to: BalsaType::Integer,
            },
        })
    );
    assert_eq!(
        failure_of("{{ x : color, defaultValue: \"not-a-color\" }}"),
        BalsaCompileError::InvalidTypeCast(TemplateErrorContext {
            pos: 0,
            error: InvalidTypeCast {
                value: BalsaValue::String("not-a-color".to_string()),
                from: BalsaType::String,
                to: BalsaType::Color,
            },
        })
    );
    assert_eq!(
        failure_of("{{@ big : float = 3000000000 }}"),
        BalsaCompileError::InvalidTypeCast(TemplateErrorContext {
            pos: 0,
            error: InvalidTypeCast {
                value: BalsaValue::Integer(3000000000),
                from: BalsaType::Integer,
                to: BalsaType::Float,
            },
        })
    );
}

#[test]
fn type_that_is_no_type_is_reported() {
    assert_eq!(
        failure_of("{{ x : y }}"),
        BalsaCompileError::InvalidTypeExpression(TemplateErrorContext {
            pos: 0,
            error: InvalidTypeExpression {
                expression: BalsaExpression::Identifier("y".to_string()),
            },
        })
    );
    assert_eq!(
        failure_of("..{{@ x : 5 = 5 }}"),
        BalsaCompileError::InvalidTypeExpression(TemplateErrorContext {
            pos: 2,
            error: InvalidTypeExpression {
                expression: BalsaExpression::Value(BalsaValue::Integer(5)),
            },
        })
    );
}

#[test]
fn default_value_that_is_no_value_is_reported() {
    assert_eq!(
        failure_of("{{ x : int, defaultValue: string }}"),
        BalsaCompileError::InvalidExpression(TemplateErrorContext {
            pos: 0,
            error: InvalidExpression { expression: BalsaExpression::Type(BalsaType::String) },
        })
    );
    assert_eq!(
        failure_of("{{@ x : int = y }}"),
        BalsaCompileError::InvalidExpression(TemplateErrorContext {
            pos: 0,
            error: InvalidExpression {
                expression: BalsaExpression::Identifier("y".to_string()),
            },
        })
    );
}

#[test]
fn name_that_is_no_identifier_is_reported() {
    assert_eq!(
        failure_of("{{ 5 : int }}"),
        BalsaCompileError::InvalidIdentifierForParameterBlock(TemplateErrorContext {
            pos: 0,
            error: InvalidIdentifierForParameterBlock {
                expression: BalsaExpression::Value(BalsaValue::Integer(5)),
            },
        })
    );
    assert_eq!(
        failure_of("x{{@ \"a\" : int = 5 }}"),
        BalsaCompileError::InvalidIdentifierForDeclarationBlock(TemplateErrorContext {
            pos: 1,
            error: InvalidIdentifierForDeclarationBlock {
                expression: BalsaExpression::Value(BalsaValue::String("a".to_string())),
            },
        })
    );
}

#[test]
fn first_error_wins() {
    // The first block is in order, the second has a bad type, the third a bad option.
    assert_eq!(
        failure_of("{{ a : int }} {{ b : c }} {{ d : int, e: 1 }}"),
        BalsaCompileError::InvalidTypeExpression(TemplateErrorContext {
            pos: 14,
            error: InvalidTypeExpression {
                expression: BalsaExpression::Identifier("c".to_string()),
            },
        })
    );
    // Within a block the name is checked before the type and the options.
    assert_eq!(
        failure_of("{{ 1 : c, e: 1 }}"),
        BalsaCompileError::InvalidIdentifierForParameterBlock(TemplateErrorContext {
            pos: 0,
            error: InvalidIdentifierForParameterBlock {
                expression: BalsaExpression::Value(BalsaValue::Integer(1)),
            },
        })
    );
    // Options are checked in order.
    assert_eq!(
        failure_of("{{ a : int, defaultValue: string, e: 1 }}"),
        BalsaCompileError::InvalidExpression(TemplateErrorContext {
            pos: 0,
            error: InvalidExpression { expression: BalsaExpression::Type(BalsaType::String) },
        })
    );
    assert_eq!(
        failure_of("{{ a : int, e: 1, defaultValue: string }}"),
        BalsaCompileError::InvalidParameter(TemplateErrorContext {
            pos: 0,
            error: InvalidParameter { parameter_name: "e".to_string() },
        })
    );
}

#[test]
fn render_handles_instructions_built_by_hand() {
    let nothing = |start_pos, end_pos| ReplacementInstruction {
        start_pos,
        end_pos,
        replace_with: ReplaceWith::Nothing,
    };
    let template = |replacements| CompiledTemplate {
        global_scope: Scope { variables: StringMap::new() },
        replacements,
    };
    let none = BalsaParameters::new();
    // A span is dropped.
    assert_eq!(render("abcdef", &template(vec![nothing(1, 3)]), &none).unwrap(), "adef");
    // A span past the end of the text drops nothing.
    assert_eq!(render("abc", &template(vec![nothing(10, 12)]), &none).unwrap(), "abc");
    // A span that reaches past the end drops the rest.
    assert_eq!(render("abc", &template(vec![nothing(1, 12)]), &none).unwrap(), "a");
    // Text that was read is not read again.
    assert_eq!(
        render("abcd", &template(vec![nothing(2, 3), nothing(0, 1)]), &none).unwrap(),
        "abd"
    );
    // An empty span drops nothing.
    assert_eq!(render("abcd", &template(vec![nothing(2, 2)]), &none).unwrap(), "abcd");
}

#[test]
fn builder_compiles_and_template_renders() {
    let template = Balsa::from_string("{{ a : int }}!").build().unwrap();
    assert_eq!(template.raw_template, "{{ a : int }}!");
    let parameters = BalsaParameters::new().integer("a", 5);
    assert_eq!(template.render(&parameters).unwrap(), "5!");
    assert!(Balsa::from_string("{{ a : b }}").build().is_err());
}
