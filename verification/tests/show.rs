use logo::number::Number;
use logo::parser::{ListType, Parser, AST};
use logo::show::{rek_print, render, Piece};

fn text_of(pieces: Vec<Piece>) -> String {
    let mut text = String::new();
    for piece in pieces {
        match piece {
            Piece::Text(s) => text.push_str(&s),
            Piece::Value(Number::Int(i)) => text.push_str(&format!("{:?}", i as f32)),
            Piece::Value(Number::Decimal(t)) => {
                text.push_str(&format!("{:?}", t.parse::<f32>().unwrap()))
            }
            Piece::Value(Number::Real(b)) => text.push_str(&format!("{:?}", f32::from_bits(b))),
        }
    }
    text
}

fn parse(line: &str) -> AST {
    Parser::new().parse(line).unwrap()
}

#[test]
fn render_values() {
    assert_eq!(vec![Piece::Value(Number::Int(5))], render(&AST::Num(Number::Int(5))));
    assert_eq!(vec![Piece::Text("HI".to_string())], render(&AST::Word("HI".to_string())));
    assert_eq!(Vec::<Piece>::new(), render(&AST::Empty));
    assert_eq!(
        vec![
            Piece::Text("[".to_string()),
            Piece::Value(Number::Int(1)),
            Piece::Text(" ".to_string()),
            Piece::Text("A".to_string()),
            Piece::Text("]".to_string()),
        ],
        render(&AST::List(ListType::from(vec![AST::Num(Number::Int(1)), AST::Word("A".to_string())])))
    );
    assert_eq!("[]", text_of(render(&AST::List(ListType::from(vec![])))));
    assert_eq!("[1.0]", text_of(render(&AST::List(ListType::from(vec![AST::Num(Number::Real(1.0f32.to_bits()))])))));
}

#[test]
fn render_what_was_not_evaluated() {
    let line = parse("repeat 4 [fd :size * 2 rt -90 (+ 1 2) [a \"b] (1 < 2)] op 1.5");
    assert_eq!(
        "REPEAT 4.0 [FD :SIZE * 2.0 RT -90.0 (+ 1.0 2.0) [A B] (1.0 < 2.0)] OP 1.5",
        text_of(render(&line))
    );
    assert_eq!(
        "7.0",
        text_of(render(&AST::FunctionReturn(Box::new(AST::Num(Number::Int(7))))))
    );
    assert_eq!("1.0 % 2.0 >= 3.0 / 4.0 - 5.0", text_of(render(&parse("1 % 2 >= 3 / 4 - 5"))));
    assert_eq!("1.0 <= 2.0 = 3.0 > 4.0", text_of(render(&parse("1 <= 2 = 3 > 4"))));
}

#[test]
fn rek_print_of_a_line() {
    let line = parse("fd 1 + 2 * -3");
    assert_eq!(
        "Expression line\n\
         +- FD\n\
         +- Plus\n\
         \x20 +- 1.0\n\
         \x20 +- Multiply\n\
         \x20   +- 2.0\n\
         \x20   +- Negation\n\
         \x20     +- 3.0\n",
        text_of(rek_print(&line, "".to_string()))
    );
}

#[test]
fn rek_print_of_lists() {
    let line = parse("make \"a [1 :b] (+ 1 2) ()");
    assert_eq!(
        "Expression line\n\
         +- MAKE\n\
         +- \"A\n\
         +- \"LIST\"\n\
         | +- 1.0\n\
         | +- :B\n\
         +- PARENS\n\
         | +- Prefix Plus\n\
         |   +- 1.0\n\
         |   +- 2.0\n\
         +- PARENS\n",
        text_of(rek_print(&line, "".to_string()))
    );
}

#[test]
fn rek_print_with_a_prefix() {
    assert_eq!("ab+- None\n", text_of(rek_print(&AST::Empty, "abcd".to_string())));
    assert_eq!("+- None\n", text_of(rek_print(&AST::Empty, "  ".to_string())));
    assert_eq!("None\n", text_of(rek_print(&AST::Empty, "x".to_string())));
    let comparison = match parse("1 < 2") {
        AST::ExprLine(mut list) => list.pop_front().unwrap(),
        other => panic!("{:?}", other),
    };
    assert_eq!(
        "x +- Less\nx   +- 1.0\nx   +- 2.0\n",
        text_of(rek_print(&comparison, "x   ".to_string()))
    );
    assert_eq!(
        "Return\n+- 1.0\n",
        text_of(rek_print(&AST::FunctionReturn(Box::new(AST::Num(Number::Int(1)))), "".to_string()))
    );
}
