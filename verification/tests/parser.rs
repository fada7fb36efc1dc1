use egl::ast::EGLAst;
use egl::error::Expected;
use egl::error::ParseError;
use egl::parser::is_whitespace;
use egl::parser::parse_block;
use egl::parser::parse_egl;
use egl::parser::parse_expr;
use egl::parser::skip_ws;

fn start(child: EGLAst) -> EGLAst {
    EGLAst::ExprStart(Box::new(child))
}

fn block(child: EGLAst) -> EGLAst {
    EGLAst::ExprBlock(Box::new(child))
}

#[test]
fn empty_expression() {
    assert_eq!(parse_egl("HI!"), Ok(start(EGLAst::ExprEnd)));
}

#[test]
fn empty_expression_with_spaces() {
    assert_eq!(parse_egl("HI    !"), Ok(start(EGLAst::ExprEnd)));
}

#[test]
fn empty_expression_with_newlines() {
    assert_eq!(parse_egl("HI\n\n    !"), Ok(start(EGLAst::ExprEnd)));
}

#[test]
fn three_nested_expressions() {
    let expected = start(block(start(block(start(block(EGLAst::Blank))))));
    assert_eq!(parse_egl("HI{HI{HI{}!}!}!"), Ok(expected));
}

#[test]
fn nested_with_trailing_whitespace_absorbed() {
    let expected = start(block(start(block(EGLAst::Blank))));
    assert_eq!(parse_egl("HI { HI{  }! } !  "), Ok(expected));
}

#[test]
fn unclosed_block_is_grammar_failure() {
    assert_eq!(
        parse_egl("HI {"),
        Err(ParseError::GrammarFailure { offset: 4, expected: Expected::StartKeyword })
    );
}

#[test]
fn trailing_input_is_reported() {
    assert_eq!(
        parse_egl("HI! extra"),
        Err(ParseError::TrailingInput { remainder: String::from("extra") })
    );
}

#[test]
fn empty_input_is_grammar_failure() {
    assert_eq!(
        parse_egl(""),
        Err(ParseError::GrammarFailure { offset: 0, expected: Expected::StartKeyword })
    );
}

#[test]
fn malformed_block_content_is_grammar_failure() {
    assert_eq!(
        parse_egl("HI{X}!"),
        Err(ParseError::GrammarFailure { offset: 3, expected: Expected::StartKeyword })
    );
}

#[test]
fn whitespace_variants_parse_to_the_same_tree() {
    let compact = parse_egl("HI{HI!}!").unwrap();
    let spread = parse_egl("HI \t{\n  HI ! } \n!").unwrap();
    assert_eq!(compact, spread);
    assert_eq!(compact, start(block(start(EGLAst::ExprEnd))));
}

#[test]
fn whitespace_only_input_is_grammar_failure() {
    assert_eq!(
        parse_egl("   "),
        Err(ParseError::GrammarFailure { offset: 3, expected: Expected::StartKeyword })
    );
}

#[test]
fn missing_end_marker_after_block() {
    assert_eq!(
        parse_egl("HI{}"),
        Err(ParseError::GrammarFailure { offset: 4, expected: Expected::EndMarker })
    );
}

#[test]
fn neither_end_marker_nor_block_after_keyword() {
    assert_eq!(
        parse_egl("HI?"),
        Err(ParseError::GrammarFailure { offset: 2, expected: Expected::OpenDelimiter })
    );
}

#[test]
fn missing_close_delimiter() {
    assert_eq!(
        parse_egl("HI{HI!"),
        Err(ParseError::GrammarFailure { offset: 6, expected: Expected::CloseDelimiter })
    );
}

#[test]
fn keyword_is_case_sensitive_and_unbroken() {
    assert!(matches!(
        parse_egl("hi!"),
        Err(ParseError::GrammarFailure { expected: Expected::StartKeyword, .. })
    ));
    assert!(matches!(
        parse_egl("H I!"),
        Err(ParseError::GrammarFailure { expected: Expected::StartKeyword, .. })
    ));
}

#[test]
fn trailing_input_keeps_raw_remainder_after_whitespace() {
    // the end marker's rule absorbs the whitespace that follows it, so the
    // reported remainder starts at the first non-whitespace character
    assert_eq!(
        parse_egl("HI!  }x"),
        Err(ParseError::TrailingInput { remainder: String::from("}x") })
    );
}

#[test]
fn description_renders_trailing_input() {
    let err = parse_egl("HI! extra").unwrap_err();
    assert_eq!(err.description(), "Expected end of input, but found 'extra'");
}

#[test]
fn description_renders_grammar_failure() {
    let err = parse_egl("").unwrap_err();
    assert_eq!(err.description(), "Expected the start keyword 'HI'");
    let err = parse_egl("HI{}").unwrap_err();
    assert_eq!(err.description(), "Expected an end marker '!'");
    let err = parse_egl("HI{HI!").unwrap_err();
    assert_eq!(err.description(), "Expected a close delimiter '}'");
    let err = parse_egl("HI?").unwrap_err();
    assert_eq!(err.description(), "Expected an end marker '!' or an open delimiter '{'");
}

#[test]
fn is_whitespace_matches_unicode_white_space() {
    assert!(is_whitespace(' '));
    assert!(is_whitespace('\t'));
    assert!(is_whitespace('\n'));
    assert!(is_whitespace('\r'));
    assert!(is_whitespace('\u{2028}'));
    assert!(is_whitespace('\u{3000}'));
    assert!(!is_whitespace('H'));
    assert!(!is_whitespace('!'));
    assert!(!is_whitespace('{'));
    assert!(!is_whitespace('\u{200b}'));
}

#[test]
fn is_whitespace_agrees_with_std() {
    for u in 0u32..0x11000 {
        if let Some(c) = char::from_u32(u) {
            assert_eq!(is_whitespace(c), c.is_whitespace());
        }
    }
}

#[test]
fn skip_ws_consumes_maximal_run() {
    assert_eq!(skip_ws("  \n\tHI!", 0), 4);
    assert_eq!(skip_ws("HI!", 0), 0);
    assert_eq!(skip_ws("ab   ", 2), 5);
}

#[test]
fn parse_expr_reports_consumed_region() {
    assert_eq!(parse_expr("HI! x", 0), Ok((start(EGLAst::ExprEnd), 4)));
    assert_eq!(parse_expr("  HI !", 0), Ok((start(EGLAst::ExprEnd), 6)));
    assert_eq!(parse_expr("no", 0), Err((0, Expected::StartKeyword)));
}

#[test]
fn parse_block_parses_delimited_region() {
    assert_eq!(parse_block("{ } rest", 0), Ok((block(EGLAst::Blank), 4)));
    assert_eq!(parse_block("{HI!}", 0), Ok((block(start(EGLAst::ExprEnd)), 5)));
    assert_eq!(parse_block("x", 0), Err((0, Expected::OpenDelimiter)));
}
