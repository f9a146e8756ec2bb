use balsa::balsa_parser::{
    balsa_expr_p, balsa_p, balsa_type_p, closing_bracket_p, declaration_block_p,
    declaration_delimiter_p, declaration_open_bracket_p, key_value_delimiter_p, list_delimeter,
    parameter_block_p, parameter_open_bracket_p, variable_name_p, ws_p, ws_padded_p, BalsaToken,
    Block, Declaration, ParameterBlockIntermediate,
};
use balsa::balsa_types::{BalsaExpression, BalsaType, BalsaValue};
use balsa::parser::{char_parser, Parser};
use balsa::string_map::StringMap;

#[test]
fn test_parameter_block_p() {
    let valid_input = r#"{{ helloWorld: color, defaultValue: "hello world" }}"#;
    let valid_options = StringMap::new().insert(
        "defaultValue".to_string(),
        BalsaExpression::Value(BalsaValue::String("hello world".to_string())),
    );
    let valid_output = BalsaToken::ParameterBlock(Block {
        start_pos: 0,
        end_pos: 52,
        token: ParameterBlockIntermediate {
            variable_name: BalsaExpression::Identifier("helloWorld".to_string()),
            variable_type: BalsaExpression::Type(BalsaType::Color),
            options: Some(valid_options),
        },
    });

    let p = parameter_block_p();

    let (_, parsed) = p.parse(0, valid_input).expect(&format!(
        "Parameter block parser should successfully parse input `{}`",
        valid_input
    ));

    assert!(
        PartialEq::eq(&parsed.token, &valid_output),
        "Parameter block parser failed to parse `{}`.\n\tExpected: `{:?}`\n\tGot: `{:?}`",
        valid_input,
        valid_output,
        parsed.token
    );
}

#[test]
fn test_declaration_block_p() {
    let valid_input = r#"{{@ hello: string     = "world" }}"#;
    let mut valid_declarations = Vec::new();
    valid_declarations.push(Declaration {
        identifier: BalsaExpression::Identifier("hello".to_string()),
        variable_type: BalsaExpression::Type(BalsaType::String),
        value: BalsaExpression::Value(BalsaValue::String("world".to_string())),
    });
    let valid_output = BalsaToken::DeclarationBlock(Block {
        start_pos: 0,
        end_pos: valid_input.len() as i32,
        token: valid_declarations,
    });
    let p = declaration_block_p();

    let (_, parsed) = p.parse(0, valid_input).expect(&format!(
        "Declaration block parser should successfully parse input `{}`",
        valid_input
    ));

    assert!(
        PartialEq::eq(&parsed.token, &valid_output),
        "Declaration block parser failed to parse `{}`.\n\tExpected: `{:?}`\n\tGot: `{:?}`",
        valid_input,
        valid_output,
        parsed.token
    );
}

#[test]
fn test_balsa_p() {
    let valid_input = r#"
        <html>
            <head>
                {{@
                    test: string = "hello"
                }}
            </head>
            <body>
                <span>{{ helloWorld: string, defaultValue: "test" }}</span>
            </body>
        </html>
        "#;

    let mut valid_declarations = Vec::new();
    valid_declarations.push(Declaration {
        identifier: BalsaExpression::Identifier("test".to_string()),
        variable_type: BalsaExpression::Type(BalsaType::String),
        value: BalsaExpression::Value(BalsaValue::String("hello".to_string())),
    });

    let valid_declaration_output = BalsaToken::DeclarationBlock(Block {
        start_pos: 51,
        end_pos: 116,
        token: valid_declarations,
    });

    let valid_parameter_options = StringMap::new().insert(
        "defaultValue".to_string(),
        BalsaExpression::Value(BalsaValue::String("test".to_string())),
    );

    let valid_parameter_output = BalsaToken::ParameterBlock(Block {
        start_pos: 178,
        end_pos: 224,
        token: ParameterBlockIntermediate {
            variable_name: BalsaExpression::Identifier("helloWorld".to_string()),
            variable_type: BalsaExpression::Type(BalsaType::String),
            options: Some(valid_parameter_options),
        },
    });

    let valid_output = vec![valid_declaration_output, valid_parameter_output];

    let p = balsa_p();

    let (_, parsed) = p.parse(0, valid_input).expect(&format!(
        "Balsa parser should successfully parse input `{}`",
        valid_input
    ));

    assert!(
        PartialEq::eq(&parsed.token, &valid_output),
        "Balsa parser failed to parse `{}`.\n\tExpected: `{:?}`\n\tGot: `{:?}`",
        valid_input,
        valid_output,
        parsed.token
    );
}

#[test]
fn type_keywords_are_tried_in_order() {
    let p = balsa_type_p();
    assert_eq!(p.parse(0, "string").unwrap().1.token, BalsaType::String);
    assert_eq!(p.parse(0, "color").unwrap().1.token, BalsaType::Color);
    assert_eq!(p.parse(0, "int").unwrap().1.token, BalsaType::Integer);
    assert_eq!(p.parse(0, "float").unwrap().1.token, BalsaType::Float);
    let (rest, parsed) = p.parse(0, "stringy").unwrap();
    assert_eq!((rest, parsed.token, parsed.end_pos), ("y", BalsaType::String, 6));
    assert!(p.parse(0, "str").is_err());
    assert!(p.parse(0, "String").is_err());
}

#[test]
fn expressions_are_classified() {
    let p = balsa_expr_p();
    assert_eq!(
        p.parse(0, "\"x y\"").unwrap().1.token,
        BalsaExpression::Value(BalsaValue::String("x y".to_string()))
    );
    assert_eq!(
        p.parse(0, "12").unwrap().1.token,
        BalsaExpression::Value(BalsaValue::Integer(12))
    );
    assert_eq!(p.parse(0, "color").unwrap().1.token, BalsaExpression::Type(BalsaType::Color));
    assert_eq!(
        p.parse(0, "colr").unwrap().1.token,
        BalsaExpression::Identifier("colr".to_string())
    );
    assert_eq!(
        p.parse(0, "a0-b_C rest").unwrap().1.token,
        BalsaExpression::Identifier("a0-b_C".to_string())
    );
    // Digits come first: what follows them is left.
    let (rest, parsed) = p.parse(0, "12ab").unwrap();
    assert_eq!(rest, "ab");
    assert_eq!(parsed.token, BalsaExpression::Value(BalsaValue::Integer(12)));
    assert!(p.parse(0, "").is_err());
    assert!(p.parse(0, "@").is_err());
    // An empty string literal is no expression.
    assert!(p.parse(0, "\"\"").is_err());
    // A string literal that is not closed is no expression.
    assert!(p.parse(0, "\"abc").is_err());
}

#[test]
fn identifiers_hold_letters_digits_underscore_and_hyphen() {
    let p = variable_name_p();
    let all = "abcdefghijklmnopqrstuvwxyzABCDEFGHIJKLMNOPQRSTUVWXYZ0123456789-_";
    let (rest, parsed) = p.parse(0, all).unwrap();
    assert_eq!(rest, "");
    assert_eq!(parsed.token, all);
    for other in [" ", ":", ".", "é", "{", "@", "\"", "/", "[", "`"] {
        assert!(p.parse(0, other).is_err(), "`{}` starts no identifier", other);
    }
}

#[test]
fn whitespace_and_delimiters() {
    let (rest, parsed) = ws_p().parse(0, " \t\n x").unwrap();
    assert_eq!((rest, parsed.end_pos), ("x", 4));
    let (rest, parsed) = ws_p().parse(0, "x").unwrap();
    assert_eq!((rest, parsed.end_pos), ("x", 0));
    // A carriage return is no whitespace.
    assert_eq!(ws_p().parse(0, "\r").unwrap().0, "\r");

    let (rest, parsed) = key_value_delimiter_p().parse(0, " : x").unwrap();
    assert_eq!((rest, parsed.end_pos), ("x", 3));
    assert!(key_value_delimiter_p().parse(0, " , ").is_err());
    assert_eq!(list_delimeter().parse(0, ",x").unwrap().0, "x");
    assert_eq!(declaration_delimiter_p().parse(0, "\n=\nx").unwrap().0, "x");

    let (rest, parsed) = ws_padded_p(char_parser('a')).parse(1, "  a  b").unwrap();
    assert_eq!((rest, parsed.token, parsed.start_pos, parsed.end_pos), ("b", 'a', 1, 6));

    assert_eq!(parameter_open_bracket_p().parse(0, "{{x").unwrap().0, "x");
    assert_eq!(declaration_open_bracket_p().parse(0, "{{@x").unwrap().0, "x");
    assert!(declaration_open_bracket_p().parse(0, "{{x").is_err());
    assert_eq!(closing_bracket_p().parse(0, "}}x").unwrap().0, "x");
    assert!(closing_bracket_p().parse(0, "}x").is_err());
}

#[test]
fn parameter_block_options() {
    let p = parameter_block_p();
    let options = |text: &str| match p.parse(0, text).unwrap().1.token {
        BalsaToken::ParameterBlock(block) => block.token.options,
        other => panic!("not a parameter block: {:?}", other),
    };
    assert_eq!(options("{{ x : int }}"), None);
    // A comma without options gives options that are empty.
    assert_eq!(options("{{ x : int, }}"), Some(StringMap::new()));
    // Of two options with the same name the later one stays.
    assert_eq!(
        options("{{ x : int, a: 1, b: 2, a: 3 }}"),
        Some(
            StringMap::new()
                .insert("a".to_string(), BalsaExpression::Value(BalsaValue::Integer(3)))
                .insert("b".to_string(), BalsaExpression::Value(BalsaValue::Integer(2)))
        )
    );
    assert!(p.parse(0, "{{ x : int").is_err());
    assert!(p.parse(0, "{{ x int }}").is_err());
    assert!(p.parse(0, "{{ x : int ; }}").is_err());
    assert!(p.parse(0, "{ { x : int }}").is_err());
}

#[test]
fn declaration_block_holds_one_or_more_declarations() {
    let p = declaration_block_p();
    let count = |text: &str| match p.parse(0, text).unwrap().1.token {
        BalsaToken::DeclarationBlock(block) => block.token.len(),
        other => panic!("not a declaration block: {:?}", other),
    };
    assert_eq!(count("{{@ a : int = 1 }}"), 1);
    assert_eq!(count("{{@a:int=1,b:string=\"x\",c:color=\"red\"}}"), 3);
    assert!(p.parse(0, "{{@ }}").is_err());
    assert!(p.parse(0, "{{@ a : int }}").is_err());
    assert!(p.parse(0, "{{@ a : int = 1, }}").is_err());
    assert!(p.parse(0, "{{ a : int = 1 }}").is_err());
}

#[test]
fn block_span_starts_at_given_position() {
    let (rest, parsed) = parameter_block_p().parse(100, "{{ x : int }} rest").unwrap();
    assert_eq!(rest, " rest");
    assert_eq!((parsed.start_pos, parsed.end_pos), (100, 113));
    match parsed.token {
        BalsaToken::ParameterBlock(block) => {
            assert_eq!((block.start_pos, block.end_pos), (100, 113))
        }
        other => panic!("not a parameter block: {:?}", other),
    }
}

#[test]
fn document_parser_reads_to_the_last_block() {
    let (rest, parsed) = balsa_p().parse(0, "a {{ x : int }} b { c").unwrap();
    assert_eq!(parsed.token.len(), 1);
    // The text after the last brace is left unread.
    assert_eq!(rest, " c");
    assert_eq!((parsed.start_pos, parsed.end_pos), (0, 19));
}
