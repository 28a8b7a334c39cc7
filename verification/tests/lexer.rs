use logo::lexer::{process, Token};

fn test_ok(input: &str, expected: &[Token]) {
    let lexed = process(input);
    let expected = Ok(expected.to_vec());
    assert_eq!(expected, lexed, "'''{}'''", input);
}

fn test_err(input: &str, expected: &str) {
    let lexed = process(input).map_err(|e| e.message());
    let expected = Err(expected.to_string());
    assert_eq!(expected, lexed, "'''{}'''", input);
}

/// A decimal token, with the value that its text must read as.
fn float(value: f32, text: &str) -> Token {
    assert_eq!(Ok(value), text.parse::<f32>());
    Token::Float(text.to_string())
}

fn name(text: &str) -> Token {
    Token::Function(text.to_string())
}

#[test]
fn unknown_char() {
    test_err("fd 20`~\n", "Error at pos 5 (fd 20`~\n): unknown char `");
}

#[test]
fn unknown_char_fields() {
    let e = process("fd 20`~").unwrap_err();
    assert_eq!(5, e.pos);
    assert_eq!('`', e.ch);
    assert_eq!("fd 20`~\n", e.line);
    let e = process("1 + #").unwrap_err();
    assert_eq!(4, e.pos);
    assert_eq!('#', e.ch);
    assert_eq!("Error at pos 4 (1 + #\n): unknown char #", e.message());
}

#[test]
fn unknown_char_far_right() {
    let e = process("fd 1 fd 2 fd 3 ~").unwrap_err();
    assert_eq!(15, e.pos);
    assert_eq!("Error at pos 15 (fd 1 fd 2 fd 3 ~\n): unknown char ~", e.message());
}

#[test]
fn var() {
    test_ok(
        "TO FOO :A\nFD :A\nEND\n",
        &[
            name("TO"),
            Token::Whitespace,
            name("FOO"),
            Token::Whitespace,
            Token::Var("A".to_string()),
            Token::LineEnd,
            name("FD"),
            Token::Whitespace,
            Token::Var("A".to_string()),
            Token::LineEnd,
            name("END"),
            Token::LineEnd,
        ],
    );
}

#[test]
fn word() {
    test_ok(
        "MAKE \"ASD \"SOMETHING\n",
        &[
            name("MAKE"),
            Token::Whitespace,
            Token::Word("ASD".to_string()),
            Token::Whitespace,
            Token::Word("SOMETHING".to_string()),
            Token::LineEnd,
        ],
    );
}

#[test]
fn function() {
    test_ok(
        "shown? []\n",
        &[name("SHOWN?"), Token::Whitespace, Token::LBracket, Token::RBracket, Token::LineEnd],
    );
}

#[test]
fn number_float() {
    test_ok(
        "bk 50.5 rt  .5 fd 19.\n",
        &[
            name("BK"),
            Token::Whitespace,
            float(50.5, "50.5"),
            Token::Whitespace,
            name("RT"),
            Token::Whitespace,
            float(0.5, ".5"),
            Token::Whitespace,
            name("FD"),
            Token::Whitespace,
            float(19., "19."),
            Token::LineEnd,
        ],
    );
}

#[test]
fn number_num() {
    test_ok(
        "repeat \n50[\n",
        &[
            name("REPEAT"),
            Token::Whitespace,
            Token::LineEnd,
            Token::Num(50),
            Token::LBracket,
            Token::LineEnd,
        ],
    );
}

#[test]
fn lexer_line_cont() {
    test_ok(
        "REPEAT 4 [FD 40\\\nRT 90]fd 50\n",
        &[
            name("REPEAT"),
            Token::Whitespace,
            Token::Num(4),
            Token::Whitespace,
            Token::LBracket,
            name("FD"),
            Token::Whitespace,
            Token::Num(40),
            Token::LineCont,
            name("RT"),
            Token::Whitespace,
            Token::Num(90),
            Token::RBracket,
            name("FD"),
            Token::Whitespace,
            Token::Num(50),
            Token::LineEnd,
        ],
    );
}

#[test]
fn add_line_end() {
    test_ok("4", &[Token::Num(4), Token::LineEnd]);
}

#[test]
fn add_line_cont() {
    test_ok("4\\", &[Token::Num(4), Token::LineCont]);
}

#[test]
fn dont_skip_whitespace_line_begin() {
    // Whitespace at the very start of the text gives no token; at the start
    // of a later line it does.
    test_ok(
        "  4 5 \n 6\n",
        &[
            Token::Num(4),
            Token::Whitespace,
            Token::Num(5),
            Token::Whitespace,
            Token::LineEnd,
            Token::Whitespace,
            Token::Num(6),
            Token::LineEnd,
        ],
    );
}

#[test]
fn empty_text_is_one_line_end() {
    test_ok("", &[Token::LineEnd]);
    test_ok("\n", &[Token::LineEnd]);
    test_ok("   \t ", &[Token::LineEnd]);
}

#[test]
fn whitespace_runs_collapse() {
    test_ok(
        "fd \t  1",
        &[name("FD"), Token::Whitespace, Token::Num(1), Token::LineEnd],
    );
}

#[test]
fn operators_and_brackets() {
    test_ok(
        "+-*/%()[]{}<<=>>==",
        &[
            Token::Plus,
            Token::Minus,
            Token::Multiply,
            Token::Divide,
            Token::Modulo,
            Token::LParen,
            Token::RParen,
            Token::LBracket,
            Token::RBracket,
            Token::LBrace,
            Token::RBrace,
            Token::Less,
            Token::LessEq,
            Token::Greater,
            Token::GreaterEq,
            Token::Equal,
            Token::LineEnd,
        ],
    );
}

#[test]
fn names_are_upper_cased() {
    test_ok("make \"x.y_z?", &[name("MAKE"), Token::Whitespace, Token::Word("X.Y_Z?".to_string()), Token::LineEnd]);
}

#[test]
fn escape_puts_any_character_into_a_word() {
    test_ok("\"a\\ b", &[Token::Word("A B".to_string()), Token::LineEnd]);
    test_ok("\"a\\[", &[Token::Word("A[".to_string()), Token::LineEnd]);
    test_ok("\\-5", &[Token::Num(-5), Token::LineEnd]);
}

#[test]
fn empty_variable_and_word() {
    test_ok(": \"", &[Token::Var(String::new()), Token::Whitespace, Token::Word(String::new()), Token::LineEnd]);
}

#[test]
fn integer_limits() {
    test_ok("2147483647", &[Token::Num(2147483647), Token::LineEnd]);
    test_ok("\\-2147483648", &[Token::Num(-2147483648), Token::LineEnd]);
    test_ok("2147483648", &[float(2147483648.0, "2147483648"), Token::LineEnd]);
    test_ok("007", &[Token::Num(7), Token::LineEnd]);
}

#[test]
fn decimal_forms() {
    test_ok("1e3", &[float(1000.0, "1E3"), Token::LineEnd]);
    test_ok("1.5e\\-1", &[float(0.15, "1.5E-1"), Token::LineEnd]);
    test_ok("1.e2", &[float(100.0, "1.E2"), Token::LineEnd]);
    test_ok("\\+.5", &[float(0.5, "+.5"), Token::LineEnd]);
    test_ok("0.0", &[float(0.0, "0.0"), Token::LineEnd]);
}

#[test]
fn words_of_letters_are_names() {
    // whatever they spell: these are no numbers
    for word in ["inf", "INF", "infinity", "Infinity", "nan", "NaN", "e", "E", "fd"] {
        test_ok(word, &[name(&word.to_uppercase()), Token::LineEnd]);
    }
    test_ok("\\+inf", &[name("+INF"), Token::LineEnd]);
    test_ok("\\-nan", &[name("-NAN"), Token::LineEnd]);
    test_ok("fd inf", &[name("FD"), Token::Whitespace, name("INF"), Token::LineEnd]);
}

#[test]
fn words_that_are_no_numbers_are_names() {
    test_ok("1e\\+", &[name("1E+"), Token::LineEnd]);
    assert!("1E+".parse::<f32>().is_err());
    for word in ["e5", ".", "1e", "1.2.3", "infinit", "na", "1_0", "5?"] {
        assert!(word.parse::<f32>().is_err(), "{}", word);
        assert!(word.parse::<i32>().is_err(), "{}", word);
        test_ok(word, &[name(&word.to_uppercase()), Token::LineEnd]);
    }
}

#[test]
fn every_decimal_token_reads_as_a_value() {
    for line in ["1.5 2. .25 1e10 1E\\+2 99999999999 0.0", "fd 3.25e2"] {
        for token in process(line).unwrap() {
            if let Token::Float(text) = token {
                assert!(text.parse::<f32>().is_ok(), "{}", text);
            }
        }
    }
}

#[test]
fn last_token_closes_the_line() {
    for line in ["", "fd 50", "fd 50\n", "fd 50\\", "fd 50\\\n", "a\nb", "\"x\\"] {
        let tokens = process(line).unwrap();
        let last = tokens.last().unwrap();
        assert!(*last == Token::LineEnd || *last == Token::LineCont, "{:?}", line);
    }
}
