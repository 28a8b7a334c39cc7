use logo::builtin::{reserved, Builtin, Kind};
use logo::host::{truth, value_of, Operator, Reply, Request};
use logo::lexer::Token;
use logo::number::{is_decimal_word, parse_int, parse_number, Number};
use logo::parser::{ListType, AST};
use logo::table::Table;
use logo::text::{
    chars_of, comes_before, decimal_text, ends_with, push_all, same_text, upper, with_extension,
};

fn chars(s: &str) -> Vec<char> {
    s.chars().collect()
}

/// Every text over `alphabet` of at most `longest` characters.
fn texts(alphabet: &[char], longest: usize) -> Vec<String> {
    let mut all = vec![String::new()];
    let mut last = vec![String::new()];
    for _ in 0..longest {
        let mut next = Vec::new();
        for text in &last {
            for c in alphabet {
                let mut longer = text.clone();
                longer.push(*c);
                next.push(longer);
            }
        }
        all.extend(next.iter().cloned());
        last = next;
    }
    all
}

#[test]
fn integers_are_read_as_the_standard_library_reads_them() {
    for text in texts(&['0', '1', '9', '+', '-', ' ', 'a'], 5) {
        assert_eq!(text.parse::<i32>().ok(), parse_int(&chars(&text)), "{:?}", text);
    }
    for text in [
        "2147483647",
        "2147483648",
        "-2147483648",
        "-2147483649",
        "+2147483647",
        "+2147483648",
        "00000000000000000000001",
        "99999999999999999999999",
        "-99999999999999999999999",
        "4294967296",
        "18446744073709551616",
    ] {
        assert_eq!(text.parse::<i32>().ok(), parse_int(&chars(text)), "{:?}", text);
    }
}

/// What the decimal grammar accepts: what the standard library reads as a
/// single-precision literal, but for the special names, which hold no digit.
fn reads_as_number(text: &str) -> bool {
    text.parse::<f32>().is_ok() && text.chars().any(|c| c.is_ascii_digit())
}

#[test]
fn decimals_are_the_numbers_that_the_standard_library_reads() {
    let alphabet = ['0', '7', '.', '+', '-', 'e', 'E', 'i', 'n', 'f', 'a', 'N'];
    for text in texts(&alphabet, 5) {
        assert_eq!(reads_as_number(&text), is_decimal_word(&chars(&text)), "{:?}", text);
    }
    for text in [
        "infinit",
        "infinityy",
        "nan0",
        "1e10",
        "1e+10",
        "1e-10",
        "1e1.0",
        "12345.67890e+12",
        "0.000000000000000000000000000000000000000000001",
        "340282350000000000000000000000000000000",
        "1e400",
        "1.5.5",
        "--1",
        "1 ",
        " 1",
        "",
    ] {
        assert_eq!(reads_as_number(text), is_decimal_word(&chars(text)), "{:?}", text);
    }
}

#[test]
fn special_names_are_no_decimals() {
    for text in [
        "inf", "INF", "Inf", "+inf", "-inf", "infinity", "INFINITY", "Infinity", "+infinity",
        "-infinity", "nan", "NAN", "NaN", "+nan", "-nan",
    ] {
        assert!(text.parse::<f32>().is_ok(), "{:?}", text);
        assert!(!is_decimal_word(&chars(text)), "{:?}", text);
        assert_eq!(None, parse_number(&chars(text)), "{:?}", text);
    }
}

#[test]
fn a_number_is_an_integer_before_it_is_a_decimal() {
    assert_eq!(Some(Number::Int(12)), parse_number(&chars("12")));
    assert_eq!(Some(Number::Int(-12)), parse_number(&chars("-12")));
    assert_eq!(Some(Number::Decimal("12.".to_string())), parse_number(&chars("12.")));
    assert_eq!(
        Some(Number::Decimal("3000000000".to_string())),
        parse_number(&chars("3000000000"))
    );
    assert_eq!(None, parse_number(&chars("12a")));
    assert_eq!(None, parse_number(&chars("")));
    let n = Number::Decimal("1.5".to_string());
    assert_eq!(n, n.copy());
    assert_eq!(Number::Int(3), Number::Int(3).copy());
    assert_eq!(Number::Real(7), Number::Real(7).copy());
    assert_eq!(0.0f32.to_bits(), Number::ZERO_BITS);
    assert_eq!(1.0f32.to_bits(), Number::ONE_BITS);
}

#[test]
fn text_helpers() {
    assert_eq!('A', upper('a'));
    assert_eq!('Z', upper('z'));
    assert_eq!('A', upper('A'));
    assert_eq!('1', upper('1'));
    assert_eq!('é', upper('é'));
    assert_eq!('{', upper('{'));
    assert_eq!('`', upper('`'));
    for c in 'a'..='z' {
        assert_eq!(c.to_ascii_uppercase(), upper(c));
    }
    assert_eq!(vec!['a', 'é', '1'], chars_of("aé1"));
    assert_eq!(Vec::<char>::new(), chars_of(""));
    assert!(same_text("abc", "abc"));
    assert!(!same_text("abc", "abd"));
    assert!(!same_text("abc", "ab"));
    assert!(same_text("", ""));
    for (a, b) in [("a", "b"), ("b", "a"), ("", "a"), ("a", ""), ("", ""), ("ab", "abc"), ("abc", "ab"), ("é", "z"), ("B", "a")] {
        assert_eq!(a < b, comes_before(a, b), "{:?} {:?}", a, b);
    }
    assert!(ends_with(&chars("a.lgo"), &chars(".lgo")));
    assert!(ends_with(&chars(".lgo"), &chars(".lgo")));
    assert!(!ends_with(&chars("lgo"), &chars(".lgo")));
    assert!(!ends_with(&chars("a.lgo "), &chars(".lgo")));
    assert!(ends_with(&chars("abc"), &chars("")));
    let mut v = chars("ab");
    push_all(&mut v, &chars("cd"));
    assert_eq!(chars("abcd"), v);
    for n in [0usize, 1, 9, 10, 11, 99, 100, 12345, usize::MAX] {
        assert_eq!(chars(&n.to_string()), decimal_text(n));
    }
}

#[test]
fn tables() {
    let mut t: Table<AST> = Table::new();
    assert_eq!(0, t.len());
    assert_eq!(None, t.find(&"A".to_string()));
    t.set("A".to_string(), AST::Num(Number::Int(1)));
    t.set("B".to_string(), AST::Num(Number::Int(2)));
    assert_eq!(Some(0), t.find(&"A".to_string()));
    assert_eq!(Some(1), t.find(&"B".to_string()));
    assert_eq!(None, t.find(&"a".to_string()));
    // a name stands once: a new value takes the place of the old one
    t.set("A".to_string(), AST::Num(Number::Int(3)));
    assert_eq!(2, t.len());
    assert_eq!(Some(0), t.find(&"A".to_string()));
    assert_eq!("A", t.name_at(0));
    assert_eq!(AST::Num(Number::Int(3)), *t.value_at(0));
    assert_eq!(AST::Num(Number::Int(2)), *t.value_at(1));
}

#[test]
fn builtins() {
    let names = [
        ("PR", Builtin::Print),
        ("PRINT", Builtin::Print),
        ("POPS", Builtin::Pops),
        ("PONS", Builtin::Pons),
        ("OP", Builtin::Output),
        ("OUTPUT", Builtin::Output),
        ("LOAD", Builtin::Load),
        ("MAKE", Builtin::Make),
        ("LPUT", Builtin::Lput),
        ("ITEM", Builtin::Item),
        ("LIST", Builtin::List),
        ("REPEAT", Builtin::Repeat),
        ("FOR", Builtin::For),
        ("SETXY", Builtin::SetXY),
        ("GETXY", Builtin::GetXY),
        ("SETH", Builtin::SetHeading),
        ("SETHEADING", Builtin::SetHeading),
        ("SETX", Builtin::SetX),
        ("SETY", Builtin::SetY),
        ("HEADING", Builtin::Heading),
        ("XCOR", Builtin::XCor),
        ("YCOR", Builtin::YCor),
        ("FD", Builtin::Forward),
        ("FORWARD", Builtin::Forward),
        ("BK", Builtin::Back),
        ("BACK", Builtin::Back),
        ("RT", Builtin::Right),
        ("RIGHT", Builtin::Right),
        ("LT", Builtin::Left),
        ("LEFT", Builtin::Left),
        ("CS", Builtin::ClearScreen),
        ("CLEARSCREEN", Builtin::ClearScreen),
        ("CLEAN", Builtin::Clean),
        ("HOME", Builtin::Home),
        ("PD", Builtin::PenDown),
        ("PENDOWN", Builtin::PenDown),
        ("PU", Builtin::PenUp),
        ("PENUP", Builtin::PenUp),
    ];
    for (name, builtin) in names {
        assert_eq!(Some(builtin), Builtin::lookup(name), "{}", name);
        assert!(reserved(name));
    }
    for name in ["", "fd", "F", "FDD", "TO", "END", "PLACE", "SQUARE"] {
        assert_eq!(None, Builtin::lookup(name), "{}", name);
    }
    assert!(reserved("TO"));
    assert!(reserved("END"));
    assert!(!reserved("SQUARE"));
    assert!(!reserved("to"));
    let kinds = |b: Builtin| (0..b.arity()).map(|i| b.kind_at(i)).collect::<Vec<_>>();
    assert_eq!(vec![Kind::Any], kinds(Builtin::Print));
    assert_eq!(vec![Kind::Any], kinds(Builtin::Output));
    assert_eq!(vec![Kind::Word], kinds(Builtin::Load));
    assert_eq!(vec![Kind::Word, Kind::Any], kinds(Builtin::Make));
    assert_eq!(vec![Kind::List, Kind::List], kinds(Builtin::Lput));
    assert_eq!(vec![Kind::Number, Kind::List], kinds(Builtin::Item));
    assert_eq!(vec![Kind::Any, Kind::Any], kinds(Builtin::List));
    assert_eq!(vec![Kind::Number, Kind::List], kinds(Builtin::Repeat));
    assert_eq!(vec![Kind::Word, Kind::Number, Kind::Number, Kind::List], kinds(Builtin::For));
    assert_eq!(vec![Kind::List], kinds(Builtin::SetXY));
    assert_eq!(vec![Kind::Number, Kind::Number], kinds(Builtin::Place));
    for b in [
        Builtin::SetHeading,
        Builtin::SetX,
        Builtin::SetY,
        Builtin::Forward,
        Builtin::Back,
        Builtin::Right,
        Builtin::Left,
    ] {
        assert_eq!(vec![Kind::Number], kinds(b));
    }
    for b in [
        Builtin::GetXY,
        Builtin::Heading,
        Builtin::XCor,
        Builtin::YCor,
        Builtin::ClearScreen,
        Builtin::Clean,
        Builtin::Home,
        Builtin::PenDown,
        Builtin::PenUp,
        Builtin::Pops,
        Builtin::Pons,
    ] {
        assert_eq!(0, b.arity());
    }
}

#[test]
fn operators() {
    let all = [
        (Token::Plus, Operator::Plus, false),
        (Token::Minus, Operator::Minus, false),
        (Token::Multiply, Operator::Multiply, false),
        (Token::Divide, Operator::Divide, false),
        (Token::Modulo, Operator::Modulo, false),
        (Token::Less, Operator::Less, true),
        (Token::LessEq, Operator::LessEq, true),
        (Token::Greater, Operator::Greater, true),
        (Token::GreaterEq, Operator::GreaterEq, true),
        (Token::Equal, Operator::Equal, true),
    ];
    for (token, operator, compares) in all {
        assert_eq!(Some(operator), Operator::from_token(&token));
        assert_eq!(compares, operator.compares());
        assert_eq!(token, token.copy());
    }
    for token in [
        Token::LineEnd,
        Token::LineCont,
        Token::Whitespace,
        Token::Function("A".to_string()),
        Token::Var("A".to_string()),
        Token::Word("A".to_string()),
        Token::Num(1),
        Token::Float("1.5".to_string()),
        Token::Negation,
        Token::Prefix,
        Token::LParen,
        Token::RParen,
        Token::LBracket,
        Token::RBracket,
        Token::LBrace,
        Token::RBrace,
    ] {
        assert_eq!(None, Operator::from_token(&token));
        assert_eq!(token, token.copy());
    }
}

#[test]
fn replies_become_values() {
    let one = Number::Int(1);
    let arithmetic = Request::Arithmetic(Operator::Plus, one.copy(), one.copy());
    let compare = Request::Compare(Operator::Less, one.copy(), one.copy());
    let advance =
        Request::Advance { x: one.copy(), y: one.copy(), heading: one.copy(), distance: one.copy() };
    assert_eq!(Some(AST::Num(Number::Real(5))), value_of(&arithmetic, Reply::Number(5)));
    assert_eq!(Some(AST::Num(Number::Real(5))), value_of(&Request::Negate(one.copy()), Reply::Number(5)));
    assert_eq!(Some(AST::Word("TRUE".to_string())), value_of(&compare, Reply::Truth(true)));
    assert_eq!(Some(AST::Word("FALSE".to_string())), value_of(&compare, Reply::Truth(false)));
    assert_eq!(
        Some(AST::Word("1.5".to_string())),
        value_of(&Request::Spell(one.copy()), Reply::Text("1.5".to_string()))
    );
    assert_eq!(
        Some(AST::Num(Number::Int(-3))),
        value_of(&Request::Truncate(one.copy()), Reply::Integer(-3))
    );
    assert_eq!(
        Some(AST::List(ListType::from(vec![AST::Num(Number::Real(1)), AST::Num(Number::Real(2))]))),
        value_of(&advance, Reply::Point(1, 2))
    );
    assert_eq!(Some(AST::Empty), value_of(&Request::Print(AST::Empty), Reply::Done));
    assert_eq!(Some(AST::Empty), value_of(&Request::Pause, Reply::Done));
    assert_eq!(
        Some(AST::List(ListType::from(vec![AST::Word("a b".to_string()), AST::Word("".to_string())]))),
        value_of(
            &Request::Load("x".to_string()),
            Reply::Lines(vec!["a b".to_string(), "".to_string()])
        )
    );
    // a reply that is no answer gives no value
    assert_eq!(None, value_of(&arithmetic, Reply::Truth(true)));
    assert_eq!(None, value_of(&arithmetic, Reply::Done));
    assert_eq!(None, value_of(&compare, Reply::Number(1)));
    assert_eq!(None, value_of(&advance, Reply::Number(1)));
    assert_eq!(None, value_of(&Request::Pause, Reply::Number(1)));
    assert_eq!(None, value_of(&Request::Print(AST::Empty), Reply::Text("x".to_string())));
    assert_eq!(None, value_of(&Request::Load("x".to_string()), Reply::Failure("no".to_string())));
    assert_eq!(None, value_of(&Request::Load("x".to_string()), Reply::Done));
    assert_eq!(AST::Word("TRUE".to_string()), truth(true));
    assert_eq!(AST::Word("FALSE".to_string()), truth(false));
    for request in [
        arithmetic,
        compare,
        advance,
        Request::Negate(Number::Real(1)),
        Request::Spell(Number::Decimal("1.5".to_string())),
        Request::Truncate(Number::Int(2)),
        Request::Print(AST::List(ListType::from(vec![AST::Empty]))),
        Request::Load("f".to_string()),
        Request::Pause,
    ] {
        assert_eq!(request, request.copy());
    }
}

#[test]
fn extension_is_added_unless_it_is_there() {
    assert_eq!("shapes.lgo", with_extension("shapes"));
    assert_eq!("shapes.lgo", with_extension("shapes.lgo"));
    assert_eq!(".lgo", with_extension(""));
    assert_eq!(".lgo", with_extension(".lgo"));
    assert_eq!("lgo.lgo", with_extension("lgo"));
    assert_eq!("a.lgo.txt.lgo", with_extension("a.lgo.txt"));
    assert_eq!("a.LGO.lgo", with_extension("a.LGO"));
    assert_eq!("é.lgo", with_extension("é"));
}
