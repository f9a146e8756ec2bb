use balsa::balsa_parser::{balsa_expr_p, ToStringValue};
use balsa::balsa_types::BalsaValue;
use balsa::combinators::{
    chain, fmap, fmap_chain, fmap_result_chain, left, middle, optional, or, right, MakePair,
    Total,
};
use balsa::parser::{
    char_parser, string_parser, take_until_char_parser, take_while_chars_parser, ParseError,
    Parser, ParserB,
};
use balsa::repetition::{delimited_list, many, one_to_many};

#[test]
fn char_parser_reports_span_from_given_position() {
    let (rest, parsed) = char_parser('x').parse(10, "xyz").unwrap();
    assert_eq!(rest, "yz");
    assert_eq!(parsed.start_pos, 10);
    assert_eq!(parsed.end_pos, 11);
    assert_eq!(parsed.token, 'x');
}

#[test]
fn char_parser_fails_on_empty_input() {
    assert_eq!(char_parser('x').parse(0, "").unwrap_err(), ParseError::NotMatched);
}

#[test]
fn char_parser_counts_characters_not_bytes() {
    let (rest, parsed) = char_parser('é').parse(0, "éa").unwrap();
    assert_eq!(rest, "a");
    assert_eq!(parsed.end_pos, 1);
}

#[test]
fn string_parser_needs_the_whole_string() {
    assert_eq!(
        string_parser("Hello").parse(0, "Hel").unwrap_err(),
        ParseError::NotMatched
    );
    assert_eq!(
        string_parser("Hello").parse(0, "Help!").unwrap_err(),
        ParseError::NotMatched
    );
    let (rest, parsed) = string_parser("Hello").parse(3, "Hello").unwrap();
    assert_eq!(rest, "");
    assert_eq!((parsed.start_pos, parsed.end_pos), (3, 8));
    assert_eq!(parsed.token, "Hello");
}

#[test]
fn take_until_takes_everything_without_terminator() {
    let (rest, parsed) = take_until_char_parser('{').parse(0, "plain text").unwrap();
    assert_eq!(rest, "");
    assert_eq!(parsed.token, "plain text");
    assert_eq!(parsed.end_pos, 10);
}

#[test]
fn take_until_stops_before_terminator() {
    let (rest, parsed) = take_until_char_parser('{').parse(2, "ab{cd").unwrap();
    assert_eq!(rest, "{cd");
    assert_eq!(parsed.token, "ab");
    assert_eq!((parsed.start_pos, parsed.end_pos), (2, 4));
}

#[test]
fn take_until_does_not_match_nothing() {
    assert_eq!(
        take_until_char_parser('{').parse(0, "{x").unwrap_err(),
        ParseError::NotMatched
    );
    assert_eq!(
        take_until_char_parser('{').parse(0, "").unwrap_err(),
        ParseError::NotMatched
    );
}

#[test]
fn take_while_does_not_match_nothing() {
    let p = take_while_chars_parser(vec!['a', 'b']);
    assert_eq!(p.parse(0, "cab").unwrap_err(), ParseError::NotMatched);
    let (rest, parsed) = p.parse(0, "abbac").unwrap();
    assert_eq!(rest, "c");
    assert_eq!(parsed.token, "abba");
    assert_eq!(parsed.end_pos, 4);
}

#[test]
fn chain_combines_tokens_and_merges_spans() {
    let p = chain(char_parser('a'), char_parser('b'));
    let (rest, parsed) = p.parse(5, "abc").unwrap();
    assert_eq!(rest, "c");
    assert_eq!(parsed.token, "ab");
    assert_eq!((parsed.start_pos, parsed.end_pos), (5, 7));

    let p = chain(string_parser("ab"), char_parser('c'));
    assert_eq!(p.parse(0, "abc").unwrap().1.token, "abc");

    let p = chain(string_parser("ab"), string_parser("cd"));
    assert_eq!(p.parse(0, "abcd").unwrap().1.token, "abcd");
}

#[test]
fn chain_fails_where_either_side_fails() {
    let p = chain(char_parser('a'), char_parser('b'));
    assert_eq!(p.parse(0, "xb").unwrap_err(), ParseError::NotMatched);
    assert_eq!(p.parse(0, "ax").unwrap_err(), ParseError::NotMatched);
}

#[test]
fn chain_puts_element_in_front_of_list() {
    let p = chain(char_parser('a'), many(char_parser('b')));
    assert_eq!(p.parse(0, "abb").unwrap().1.token, vec!['a', 'b', 'b']);
    assert_eq!(p.parse(0, "a").unwrap().1.token, vec!['a']);

    let p = chain(char_parser('a'), optional(many(char_parser('b'))));
    assert_eq!(p.parse(0, "abb").unwrap().1.token, vec!['a', 'b', 'b']);
}

#[test]
fn left_right_middle_keep_one_token_and_cover_all() {
    let (rest, parsed) = left(char_parser('a'), char_parser('b'))
        .parse(0, "abc")
        .unwrap();
    assert_eq!((rest, parsed.token, parsed.start_pos, parsed.end_pos), ("c", 'a', 0, 2));

    let (rest, parsed) = right(char_parser('a'), char_parser('b'))
        .parse(0, "abc")
        .unwrap();
    assert_eq!((rest, parsed.token, parsed.start_pos, parsed.end_pos), ("c", 'b', 0, 2));

    let (rest, parsed) = middle(char_parser('a'), char_parser('b'), char_parser('c'))
        .parse(4, "abcd")
        .unwrap();
    assert_eq!((rest, parsed.token, parsed.start_pos, parsed.end_pos), ("d", 'b', 4, 7));
}

#[test]
fn or_takes_the_first_alternative_that_matches() {
    let p = or(string_parser("ab"), string_parser("a"));
    assert_eq!(p.parse(0, "abc").unwrap().1.token, "ab");
    assert_eq!(p.parse(0, "ac").unwrap().1.token, "a");
    assert_eq!(p.parse(0, "c").unwrap_err(), ParseError::NotMatched);
}

#[test]
fn or_does_not_fall_through_on_malformed_input() {
    // The digits are an integer literal too large for 64 bits: the expression
    // is malformed, and is not read as an identifier instead.
    let p = balsa_expr_p();
    assert_eq!(
        p.parse(5, "99999999999999999999").unwrap_err(),
        ParseError::MalformedInput(5)
    );
}

#[test]
fn optional_turns_not_matched_into_none() {
    let p = optional(char_parser('a'));
    let (rest, parsed) = p.parse(7, "b").unwrap();
    assert_eq!(rest, "b");
    assert_eq!(parsed.token, None);
    assert_eq!((parsed.start_pos, parsed.end_pos), (7, 7));

    let (rest, parsed) = p.parse(7, "ab").unwrap();
    assert_eq!(rest, "b");
    assert_eq!(parsed.token, Some('a'));
    assert_eq!((parsed.start_pos, parsed.end_pos), (7, 8));
}

#[test]
fn optional_keeps_malformed_input() {
    let p = optional(balsa_expr_p());
    assert_eq!(
        p.parse(0, "99999999999999999999").unwrap_err(),
        ParseError::MalformedInput(0)
    );
}

#[test]
fn many_collects_until_not_matched() {
    let p = many(char_parser('a'));
    let (rest, parsed) = p.parse(1, "aaab").unwrap();
    assert_eq!(rest, "b");
    assert_eq!(parsed.token, vec!['a', 'a', 'a']);
    assert_eq!((parsed.start_pos, parsed.end_pos), (1, 4));
}

#[test]
fn many_matches_nothing() {
    let p = many(char_parser('a'));
    let (rest, parsed) = p.parse(1, "b").unwrap();
    assert_eq!(rest, "b");
    assert!(parsed.token.is_empty());
    assert_eq!((parsed.start_pos, parsed.end_pos), (1, 1));
}

#[test]
fn many_fails_on_malformed_item() {
    let p = many(left(balsa_expr_p(), char_parser(';')));
    assert_eq!(
        p.parse(0, "1;2;99999999999999999999;").unwrap_err(),
        ParseError::MalformedInput(4)
    );
}

#[test]
fn one_to_many_needs_one() {
    let p = one_to_many(char_parser('a'));
    assert_eq!(p.parse(0, "b").unwrap_err(), ParseError::NotMatched);
    assert_eq!(p.parse(0, "aab").unwrap().1.token, vec!['a', 'a']);
}

#[test]
fn delimited_list_may_be_empty() {
    let p = delimited_list(char_parser('a'), char_parser(','));
    let (rest, parsed) = p.parse(3, "b").unwrap();
    assert_eq!(rest, "b");
    assert!(parsed.token.is_empty());
    assert_eq!((parsed.start_pos, parsed.end_pos), (3, 3));
}

#[test]
fn delimited_list_leaves_trailing_delimiter() {
    let p = delimited_list(char_parser('a'), char_parser(','));
    let (rest, parsed) = p.parse(0, "a,a,b").unwrap();
    assert_eq!(rest, ",b");
    assert_eq!(parsed.token, vec!['a', 'a']);
    assert_eq!(parsed.end_pos, 3);

    let (rest, parsed) = p.parse(0, "a").unwrap();
    assert_eq!(rest, "");
    assert_eq!(parsed.token, vec!['a']);
}

#[test]
fn fmap_keeps_the_span() {
    let p = fmap(take_while_chars_parser(vec!['a']), ToStringValue);
    let (rest, parsed) = p.parse(2, "aab").unwrap();
    assert_eq!(rest, "b");
    assert_eq!(parsed.token, BalsaValue::String("aa".to_string()));
    assert_eq!((parsed.start_pos, parsed.end_pos), (2, 4));
}

#[test]
fn fmap_chain_merges_with_function() {
    let p = fmap_chain(char_parser('a'), char_parser('b'), MakePair);
    let (rest, parsed) = p.parse(0, "ab").unwrap();
    assert_eq!(rest, "");
    assert_eq!(parsed.token, ('a', 'b'));
    assert_eq!((parsed.start_pos, parsed.end_pos), (0, 2));

    let p = fmap_result_chain(char_parser('a'), char_parser('b'), Total { function: MakePair });
    assert_eq!(p.parse(0, "ab").unwrap().1.token, ('a', 'b'));
    assert_eq!(p.parse(0, "aa").unwrap_err(), ParseError::NotMatched);
}

#[test]
fn boxed_parser_parses_as_the_parser() {
    let p = ParserB::new(string_parser("ab"));
    let (rest, parsed) = p.parse(0, "abc").unwrap();
    assert_eq!(rest, "c");
    assert_eq!(parsed.token, "ab");
    assert_eq!(p.parse(0, "b").unwrap_err(), ParseError::NotMatched);
}

#[test]
fn borrowed_parser_parses_as_the_parser() {
    let inner = char_parser('a');
    let p = many(&inner);
    assert_eq!(p.parse(0, "aa").unwrap().1.token, vec!['a', 'a']);
}
