use balsa::balsa_compiler::{
    Compiler, ParameterDescription, ReplaceWith, ReplacementInstruction,
};
use balsa::balsa_parser::{
    BalsaToken, Block, Declaration, ParameterBlockIntermediate,
};
use balsa::balsa_types::{BalsaExpression, BalsaType, BalsaValue};
use balsa::string_map::StringMap;

/// Makes a declaration block of a list of names with their types and values.
fn list_to_declaration_block(
    start_pos: i32,
    end_pos: i32,
    list: Vec<(String, (BalsaType, BalsaValue))>,
) -> BalsaToken {
    let ds = list
        .into_iter()
        .map(|(identifier, (variable_type, value))| Declaration {
            identifier: BalsaExpression::Identifier(identifier),
            variable_type: BalsaExpression::Type(variable_type),
            value: BalsaExpression::Value(value),
        })
        .collect::<Vec<Declaration>>();

    BalsaToken::DeclarationBlock(Block {
        start_pos,
        end_pos,
        token: ds,
    })
}

#[test]
fn test_compiler() {
    let dec_block = list_to_declaration_block(
        0,
        30,
        vec![
            (
                "helloWorld".to_string(),
                (BalsaType::String, BalsaValue::String("goodbye".to_string())),
            ),
            (
                "favoriteNumber".to_string(),
                (BalsaType::Integer, BalsaValue::Integer(1)),
            ),
        ],
    );

    let param_block = BalsaToken::ParameterBlock(Block {
        start_pos: 40,
        end_pos: 80,
        token: ParameterBlockIntermediate {
            variable_name: BalsaExpression::Identifier("testInt".to_string()),
            variable_type: BalsaExpression::Type(BalsaType::Integer),
            options: Some(StringMap::new().insert(
                "defaultValue".to_string(),
                BalsaExpression::Value(BalsaValue::Integer(1)),
            )),
        },
    });

    let tokens = vec![dec_block, param_block];

    let output =
        Compiler::compile_from_tokens(&tokens).expect("failed to compile from token list");

    let values = [
        (
            "helloWorld",
            Some(BalsaValue::String("goodbye".to_string())),
        ),
        ("favoriteNumber", Some(BalsaValue::Integer(1))),
    ];

    for (id, val) in values {
        let item = output
            .global_scope
            .variables
            .get("helloWorld")
            .map(|x| x.clone());

        assert_eq!(
            item,
            Some(BalsaValue::String("goodbye".to_string())),
            "Global scope variable `{}` set incorrectly.\n\tExpected: `{:?}`\n\tGot: `{:?}`",
            id,
            val,
            item
        );
    }

    let params = vec![ReplacementInstruction {
        start_pos: 40,
        end_pos: 80,
        replace_with: ReplaceWith::Parameter(ParameterDescription {
            variable_name: "testInt".to_string(),
            variable_type: BalsaType::Integer,
            default_value: Some(BalsaValue::Integer(1)),
        }),
    }];

    assert_eq!(
        output.replacements, params,
        "Global scope replacements not generated correctly.\n\tExpected: `{:?}`\n\tGot: `{:?}`",
        params, output.replacements
    );
}
