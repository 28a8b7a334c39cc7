use logo::lexer::Token;
use logo::number::Number;
use logo::parser::{ListType, ParseError, Parser, SyntaxError, AST};

fn test_line_ok(input: &str, expected: Vec<AST>) {
    let ast = Parser::new().parse(input).unwrap();
    assert_eq!(AST::ExprLine(ListType::from(expected)), ast, "\ninput: {}", input);
}

fn test_line_err(input: &str, expected: SyntaxError) {
    assert_eq!(Err(ParseError::Syntax(expected)), Parser::new().parse(input), "\ninput: {}", input);
}

#[allow(non_snake_case)]
fn Negation(operand: AST) -> AST {
    AST::Negation(Box::new(operand))
}

#[allow(non_snake_case)]
fn F(float: f32, text: &str) -> AST {
    assert_eq!(Ok(float), text.parse::<f32>());
    AST::Num(Number::Decimal(text.to_string()))
}

#[allow(non_snake_case)]
fn I(int: i32) -> AST {
    AST::Num(Number::Int(int))
}

#[allow(non_snake_case)]
fn Nary(token: Token, expr_list: Vec<AST>) -> AST {
    AST::Nary(token, ListType::from(expr_list))
}

#[allow(non_snake_case)]
fn PPlus(expr_list: Vec<AST>) -> AST {
    Nary(Token::Plus, expr_list)
}

#[allow(non_snake_case)]
fn Binary(token: Token, left: AST, right: AST) -> AST {
    AST::Binary(token, Box::new(left), Box::new(right))
}

#[allow(non_snake_case)]
fn Plus(left: AST, right: AST) -> AST {
    Binary(Token::Plus, left, right)
}

#[allow(non_snake_case)]
fn Minus(left: AST, right: AST) -> AST {
    Binary(Token::Minus, left, right)
}

#[allow(non_snake_case)]
fn Multiply(left: AST, right: AST) -> AST {
    Binary(Token::Multiply, left, right)
}

#[allow(non_snake_case)]
fn Divide(left: AST, right: AST) -> AST {
    Binary(Token::Divide, left, right)
}

#[allow(non_snake_case)]
fn Call(name: &str) -> AST {
    AST::Function(name.to_string())
}

#[test]
fn batch_tests() {
    // A bare operator in front takes exactly two operands.
    test_line_ok("+ 1 2", vec![Plus(I(1), I(2))]);
    test_line_ok("1 + 2 - 3", vec![Minus(Plus(I(1), I(2)), I(3))]);
    test_line_ok("1+2-3", vec![Minus(Plus(I(1), I(2)), I(3))]);
    test_line_ok("1 + 2 -3", vec![Plus(I(1), I(2)), Negation(I(3))]);
    test_line_ok(
        "1 + (2 * (3 + 4 * -5) + -6 * -(-7 + -8)) * 9",
        vec![Plus(
            I(1),
            Multiply(
                AST::Parens(ListType::from(vec![Plus(
                    Multiply(
                        I(2),
                        AST::Parens(ListType::from(vec![Plus(I(3), Multiply(I(4), Negation(I(5))))])),
                    ),
                    Multiply(
                        Negation(I(6)),
                        Negation(AST::Parens(ListType::from(vec![Plus(
                            Negation(I(7)),
                            Negation(I(8)),
                        )]))),
                    ),
                )])),
                I(9),
            ),
        )],
    );
}

#[test]
fn parser_line_cont() {
    let mut parser = Parser::new();
    assert_eq!(AST::Empty, parser.parse("1 2\\\n").unwrap());
    assert_eq!(
        AST::ExprLine(ListType::from(vec![I(1), I(2), I(3)])),
        parser.parse("3").unwrap()
    );
}

#[test]
fn line_cont_keeps_tokens_over_several_lines() {
    let mut parser = Parser::new();
    assert_eq!(AST::Empty, parser.parse("repeat 4 [\\").unwrap());
    assert_eq!(AST::Empty, parser.parse("fd 1 \\").unwrap());
    assert_eq!(
        AST::ExprLine(ListType::from(vec![Call("REPEAT"), I(4), AST::List(ListType::from(vec![Call("FD"), I(1), Call("RT"), I(2)]))])),
        parser.parse("rt 2]").unwrap()
    );
    // nothing is left over
    assert_eq!(AST::ExprLine(ListType::from(vec![I(7)])), parser.parse("7").unwrap());
}

#[test]
fn lex_error_keeps_saved_tokens() {
    let mut parser = Parser::new();
    assert_eq!(AST::Empty, parser.parse("1 \\").unwrap());
    match parser.parse("~") {
        Err(ParseError::Lex(e)) => {
            assert_eq!(0, e.pos);
            assert_eq!('~', e.ch);
        }
        other => panic!("{:?}", other),
    }
    assert_eq!(AST::ExprLine(ListType::from(vec![I(1), I(2)])), parser.parse("2").unwrap());
}

#[test]
fn precedence_climbing() {
    test_line_ok("1 + 2 * 3", vec![Plus(I(1), Multiply(I(2), I(3)))]);
    test_line_ok("1 * 2 + 3", vec![Plus(Multiply(I(1), I(2)), I(3))]);
    test_line_ok("(1 + 2) * 3", vec![Multiply(AST::Parens(ListType::from(vec![Plus(I(1), I(2))])), I(3))]);
    test_line_ok("8 / 4 / 2", vec![Divide(Divide(I(8), I(4)), I(2))]);
    test_line_ok(
        "1 + 2 < 3 * 4",
        vec![Binary(Token::Less, Plus(I(1), I(2)), Multiply(I(3), I(4)))],
    );
    test_line_ok("7 % 4 - 1", vec![Minus(Binary(Token::Modulo, I(7), I(4)), I(1))]);
    test_line_ok(
        "1 = 2 >= 3",
        vec![Binary(Token::GreaterEq, Binary(Token::Equal, I(1), I(2)), I(3))],
    );
}

#[test]
fn unary_and_binary_minus() {
    test_line_ok("1 - 2", vec![Minus(I(1), I(2))]);
    test_line_ok("1 -2", vec![I(1), Negation(I(2))]);
    test_line_ok("1-2", vec![Minus(I(1), I(2))]);
    test_line_ok("1 - -2", vec![Minus(I(1), Negation(I(2)))]);
    test_line_ok("-(1 + 2)", vec![Negation(AST::Parens(ListType::from(vec![Plus(I(1), I(2))])))]);
    test_line_ok("-2.5", vec![Negation(F(2.5, "2.5"))]);
    test_line_ok("- 5 3", vec![Minus(I(5), I(3))]);
    test_line_ok("fd -5", vec![Call("FD"), Negation(I(5))]);
    test_line_err("-:x", SyntaxError::BadMinus);
    test_line_err("-", SyntaxError::BadMinus);
}

#[test]
fn variadic_prefix() {
    test_line_ok("(+ 1 2 3 4)", vec![AST::Parens(ListType::from(vec![PPlus(vec![I(1), I(2), I(3), I(4)])]))]);
    test_line_ok("(* 2 3 4)", vec![AST::Parens(ListType::from(vec![Nary(Token::Multiply, vec![I(2), I(3), I(4)])]))]);
    test_line_ok("(+)", vec![AST::Parens(ListType::from(vec![PPlus(vec![])]))]);
    test_line_ok("+ 1 2 3", vec![Plus(I(1), I(2)), I(3)]);
    test_line_ok("(- 5 3)", vec![AST::Parens(ListType::from(vec![Minus(I(5), I(3))]))]);
    test_line_ok("[+ 1 2 3]", vec![AST::List(ListType::from(vec![Plus(I(1), I(2)), I(3)]))]);
    test_line_ok("(1 + 2 3)", vec![AST::Parens(ListType::from(vec![Plus(I(1), I(2)), I(3)]))]);
    test_line_ok("* 2 + 3 4", vec![Multiply(Plus(I(2), I(3)), I(4))]);
}

#[test]
fn calls_take_no_arguments() {
    test_line_ok(
        "repeat 4 [fd :size rt 90]",
        vec![
            Call("REPEAT"),
            I(4),
            AST::List(ListType::from(vec![Call("FD"), AST::Var("SIZE".to_string()), Call("RT"), I(90)])),
        ],
    );
    test_line_ok("make \"a 5", vec![Call("MAKE"), AST::Word("A".to_string()), I(5)]);
    test_line_ok("xcor + 1", vec![Plus(Call("XCOR"), I(1))]);
    test_line_ok("fd 1.5", vec![Call("FD"), F(1.5, "1.5")]);
}

#[test]
fn empty_lines_and_brackets() {
    test_line_ok("", vec![]);
    test_line_ok("   ", vec![]);
    test_line_ok("()", vec![AST::Parens(ListType::from(vec![]))]);
    test_line_ok("[]", vec![AST::List(ListType::from(vec![]))]);
    test_line_ok("[[] ()]", vec![AST::List(ListType::from(vec![AST::List(ListType::from(vec![])), AST::Parens(ListType::from(vec![]))]))]);
    test_line_ok("fd 50 ", vec![Call("FD"), I(50)]);
}

#[test]
fn syntax_errors() {
    test_line_err("(1 2", SyntaxError::UnmatchedParen);
    test_line_err("[1 2", SyntaxError::UnmatchedBracket);
    test_line_err("(1 2]", SyntaxError::UnmatchedParen);
    test_line_err("[1 2)", SyntaxError::UnmatchedBracket);
    test_line_err("1 )", SyntaxError::UnmatchedCloser);
    test_line_err("1 ]", SyntaxError::UnmatchedCloser);
    test_line_err(")", SyntaxError::MissingOperand);
    test_line_err("1 +", SyntaxError::MissingOperand);
    test_line_err("+ 1", SyntaxError::MissingOperand);
    test_line_err("( )", SyntaxError::MissingOperand);
    test_line_err("1 {", SyntaxError::UnknownToken);
    test_line_err("{", SyntaxError::MissingOperand);
    test_line_err("fd 1\nfd 2", SyntaxError::TrailingTokens);
}

#[test]
fn error_messages() {
    assert_eq!("unmatched left paren", SyntaxError::UnmatchedParen.message());
    assert_eq!("unmatched left bracket", SyntaxError::UnmatchedBracket.message());
    assert_eq!("unmatched right bracket", SyntaxError::UnmatchedCloser.message());
    assert_eq!("bad token after Minus", SyntaxError::BadMinus.message());
    assert_eq!("missing operand or not an operand", SyntaxError::MissingOperand.message());
    assert_eq!("unknown token", SyntaxError::UnknownToken.message());
    assert_eq!("parse should get only one line of input!", SyntaxError::TrailingTokens.message());
    assert_eq!(
        "unmatched left paren",
        ParseError::Syntax(SyntaxError::UnmatchedParen).message()
    );
    let e = Parser::new().parse("fd `").unwrap_err();
    assert_eq!("Error at pos 3 (fd `\n): unknown char `", e.message());
}

#[test]
fn copy_is_equal() {
    let ast = Parser::new().parse("repeat 3 [fd -(1 + :x) (* 2 3) \"w] 1.5 < 2").unwrap();
    assert_eq!(ast, ast.copy());
}
