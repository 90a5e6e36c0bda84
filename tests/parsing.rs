use shadower::{eval, parse_math, read_expression, read_operand, read_term, Expected, Expr, ParseError};

fn num(t: &str) -> Box<Expr> {
    Box::new(Expr::Number(t.to_string()))
}

fn chars(s: &str) -> Vec<char> {
    s.chars().collect()
}

#[test]
fn literal_sum_is_an_addition_node() {
    assert_eq!(eval("3 + 4.5"), Ok(Expr::Add(num("3"), num("4.5"))));
    assert_eq!(eval("3 - 4"), Ok(Expr::Sub(num("3"), num("4"))));
    assert_eq!(eval("3 * 4"), Ok(Expr::Mul(num("3"), num("4"))));
    assert_eq!(eval("3 / 4"), Ok(Expr::Div(num("3"), num("4"))));
}

#[test]
fn multiplication_binds_tighter() {
    assert_eq!(
        eval("2 + 2 * 2"),
        Ok(Expr::Add(num("2"), Box::new(Expr::Mul(num("2"), num("2")))))
    );
}

#[test]
fn same_level_folds_left() {
    assert_eq!(
        eval("8 - 4 - 2"),
        Ok(Expr::Sub(Box::new(Expr::Sub(num("8"), num("4"))), num("2")))
    );
    assert_eq!(
        eval("8 / 4 * 2"),
        Ok(Expr::Mul(Box::new(Expr::Div(num("8"), num("4"))), num("2")))
    );
}

#[test]
fn parentheses_group() {
    assert_eq!(
        eval("2 * (20 + 10)"),
        Ok(Expr::Mul(num("2"), Box::new(Expr::Add(num("20"), num("10")))))
    );
}

#[test]
fn clamp_with_open_bounds() {
    assert_eq!(
        eval("clamp(_, -8, -10)"),
        Ok(Expr::Clamp(None, num("-8"), Some(num("-10"))))
    );
    assert_eq!(
        eval("clamp(1, 2, _)"),
        Ok(Expr::Clamp(Some(num("1")), num("2"), None))
    );
}

#[test]
fn white_space_is_ignored_everywhere() {
    assert_eq!(eval(" 1\t+\n2 "), Ok(Expr::Add(num("1"), num("2"))));
    assert_eq!(eval("1 2 + 3"), Ok(Expr::Add(num("12"), num("3"))));
}

#[test]
fn missing_operand_is_end_of_input() {
    assert_eq!(parse_math("2 +".to_owned(), 100, 200), Err(ParseError::UnexpectedEndOfInput));
    assert_eq!(eval(""), Err(ParseError::UnexpectedEndOfInput));
}

#[test]
fn trailing_character_is_reported() {
    assert_eq!(
        parse_math("2 + 2)".to_owned(), 100, 200),
        Err(ParseError::UnexpectedCharacter(')'))
    );
}

#[test]
fn unclosed_clamp_expects_paren() {
    assert_eq!(
        parse_math("clamp(1,2,3".to_owned(), 100, 200),
        Err(ParseError::ExpectedCharacter(Expected::CloseParen))
    );
    assert_eq!(
        eval("(1 + 2"),
        Err(ParseError::ExpectedCharacter(Expected::CloseParen))
    );
}

#[test]
fn malformed_clamp_calls() {
    assert_eq!(eval("clam(1, 2, 3)"), Err(ParseError::ExpectedCharacter(Expected::Clamp)));
    assert_eq!(eval("cl"), Err(ParseError::ExpectedCharacter(Expected::Clamp)));
    assert_eq!(eval("clamp 1"), Err(ParseError::ExpectedCharacter(Expected::OpenParen)));
    assert_eq!(eval("clamp(1; 2, 3)"), Err(ParseError::ExpectedCharacter(Expected::Comma)));
    assert_eq!(eval("clamp(;, 2, 3)"), Err(ParseError::InvalidNumber(";".to_string())));
    assert_eq!(eval("clamp(1)"), Err(ParseError::ExpectedCharacter(Expected::Comma)));
    assert_eq!(eval("clamp(1, 2)"), Err(ParseError::ExpectedCharacter(Expected::Comma)));
    assert_eq!(eval("clamp("), Err(ParseError::UnexpectedEndOfInput));
    assert_eq!(eval("clamp(1, 2,"), Err(ParseError::UnexpectedEndOfInput));
    assert_eq!(eval("clamp(_ + 1, 2, 3)"), Err(ParseError::ExpectedCharacter(Expected::Comma)));
}

#[test]
fn malformed_numbers() {
    assert_eq!(eval("1.2.3"), Err(ParseError::InvalidNumber("1.2.3".to_string())));
    assert_eq!(eval("1."), Err(ParseError::InvalidNumber("1.".to_string())));
    assert_eq!(eval(".5"), Err(ParseError::InvalidNumber(".5".to_string())));
    assert_eq!(eval("x7"), Err(ParseError::InvalidNumber("x7".to_string())));
    assert_eq!(eval("2 + -"), Err(ParseError::InvalidNumber("-".to_string())));
    assert_eq!(eval("width"), Err(ParseError::InvalidNumber("w".to_string())));
}

#[test]
fn signed_literals() {
    assert_eq!(eval("-8"), Ok(Expr::Number("-8".to_string())));
    assert_eq!(eval("2 - -3"), Ok(Expr::Sub(num("2"), num("-3"))));
    assert_eq!(eval("+1.25"), Ok(Expr::Number("+1.25".to_string())));
}

#[test]
fn keywords_take_their_values() {
    assert_eq!(
        parse_math("width + height".to_owned(), 100, 200),
        Ok(Expr::Add(num("100"), num("200")))
    );
    assert_eq!(
        parse_math("max - min".to_owned(), 100, 200),
        Ok(Expr::Sub(num("200"), num("100")))
    );
    assert_eq!(
        parse_math("max - min".to_owned(), 300, 20),
        Ok(Expr::Sub(num("300"), num("20")))
    );
}

#[test]
fn repeated_parses_agree() {
    let text = "(5 + 1) * 2 + 2 * 2 / clamp(width, 300 / min, height) - max";
    assert_eq!(parse_math(text.to_owned(), 100, 200), parse_math(text.to_owned(), 100, 200));
    assert_eq!(parse_math("2 +".to_owned(), 1, 2), parse_math("2 +".to_owned(), 1, 2));
}

#[test]
fn readers_report_the_position_after() {
    let t = chars("1+2*3)");
    let (e, p) = read_expression(&t, 0).unwrap();
    assert_eq!(e, Expr::Add(num("1"), Box::new(Expr::Mul(num("2"), num("3")))));
    assert_eq!(p, 5);
    let (e, p) = read_term(&t, 2).unwrap();
    assert_eq!(e, Expr::Mul(num("2"), num("3")));
    assert_eq!(p, 5);
    let (e, p) = read_operand(&t, 4).unwrap();
    assert_eq!(e, Expr::Number("3".to_string()));
    assert_eq!(p, 5);
    assert_eq!(read_operand(&t, 6), Err(ParseError::UnexpectedEndOfInput));
}
