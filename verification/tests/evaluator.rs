use logo::evaluator::{EvalError, Evaluator, Status, SLICE};
use logo::host::{Operator, Reply, Request};
use logo::machine::{Category, ErrorKind};
use logo::number::Number;
use logo::parser::{ListType, SyntaxError, AST};
use logo::turtle::{points_to_line_commands, Command, GraphicsStub};

fn float(n: &Number) -> f32 {
    match n {
        Number::Int(i) => *i as f32,
        Number::Decimal(text) => text.parse().unwrap(),
        Number::Real(bits) => f32::from_bits(*bits),
    }
}

fn num(value: f32) -> AST {
    AST::Num(Number::Real(value.to_bits()))
}

fn word(text: &str) -> AST {
    AST::Word(text.to_string())
}

fn feq(a: f32, b: f32) -> bool {
    (a - b).abs() < (f32::EPSILON * 100.0)
}

fn same(a: &Command, b: &Command) -> bool {
    match (a, b) {
        (Command::Line(s1, s2), Command::Line(o1, o2)) => {
            feq(float(&s1.0), float(&o1.0))
                && feq(float(&s1.1), float(&o1.1))
                && feq(float(&s2.0), float(&o2.0))
                && feq(float(&s2.1), float(&o2.1))
        }
        (Command::Clear, Command::Clear) => true,
        _ => false,
    }
}

fn con(points: &[(f32, f32)]) -> Vec<Command> {
    let points: Vec<(Number, Number)> = points
        .iter()
        .map(|p| (Number::Real(p.0.to_bits()), Number::Real(p.1.to_bits())))
        .collect();
    points_to_line_commands(&points)
}

fn show(value: &AST) -> String {
    match value {
        AST::Num(n) => format!("{}", float(n)),
        AST::Word(w) => w.clone(),
        AST::List(l) => format!("[{}]", l.iter().map(show).collect::<Vec<_>>().join(" ")),
        other => format!("{:?}", other),
    }
}

/// A host: it does the arithmetic, keeps what was printed, and has files.
struct Host {
    printed: Vec<String>,
    files: Vec<(String, Vec<String>)>,
    asked: Vec<Request>,
    pauses: usize,
}

impl Host {
    fn new() -> Host {
        Host { printed: Vec::new(), files: Vec::new(), asked: Vec::new(), pauses: 0 }
    }

    fn perform(&mut self, request: Request) -> Reply {
        self.asked.push(request.copy());
        match request {
            Request::Arithmetic(op, a, b) => {
                let (a, b) = (float(&a), float(&b));
                let r = match op {
                    Operator::Plus => a + b,
                    Operator::Minus => a - b,
                    Operator::Multiply => a * b,
                    Operator::Divide => a / b,
                    Operator::Modulo => a % b,
                    _ => f32::NAN,
                };
                Reply::Number(r.to_bits())
            }
            Request::Negate(a) => Reply::Number((-float(&a)).to_bits()),
            Request::Compare(op, a, b) => {
                let (a, b) = (float(&a), float(&b));
                Reply::Truth(match op {
                    Operator::Less => a < b,
                    Operator::LessEq => a <= b,
                    Operator::Greater => a > b,
                    Operator::GreaterEq => a >= b,
                    Operator::Equal => a == b,
                    _ => false,
                })
            }
            Request::Spell(a) => Reply::Text(format!("{}", float(&a))),
            Request::Truncate(a) => Reply::Integer(float(&a) as i32),
            Request::Advance { x, y, heading, distance } => {
                let phi = (float(&heading) + 90.0) * std::f32::consts::PI / 180.0;
                let new_x = float(&x) + float(&distance) * phi.cos();
                let new_y = float(&y) + float(&distance) * phi.sin();
                Reply::Point(new_x.to_bits(), new_y.to_bits())
            }
            Request::Print(value) => {
                self.printed.push(show(&value));
                Reply::Done
            }
            Request::Load(name) => match self.files.iter().find(|f| f.0 == name) {
                Some(f) => Reply::Lines(f.1.clone()),
                None => Reply::Failure(format!("Unable to open file {}", name)),
            },
            Request::Pause => {
                self.pauses += 1;
                Reply::Done
            }
        }
    }
}

struct Logo {
    evaluator: Evaluator<GraphicsStub>,
    host: Host,
}

impl Logo {
    fn new() -> Logo {
        Logo { evaluator: Evaluator::new(GraphicsStub::new()), host: Host::new() }
    }

    fn feed(&mut self, line: &str) -> Result<AST, EvalError> {
        let mut status = self.evaluator.feed(line);
        loop {
            match status {
                Status::Done(result) => {
                    assert!(self.evaluator.is_idle());
                    return result;
                }
                Status::Ask(request) => {
                    let reply = self.host.perform(request);
                    status = self.evaluator.resume(reply);
                }
            }
        }
    }

    fn value(&mut self, line: &str) -> f32 {
        match self.feed(line) {
            Ok(AST::Num(n)) => float(&n),
            other => panic!("{}: {:?}", line, other),
        }
    }

    fn ok(&mut self, line: &str) {
        assert_eq!(Ok(AST::Empty), self.feed(line), "{}", line);
    }

    fn error(&mut self, line: &str) -> ErrorKind {
        match self.feed(line) {
            Err(e) => e.kind,
            other => panic!("{}: {:?}", line, other),
        }
    }

    fn drawn(&self) -> &Vec<Command> {
        &self.evaluator.turtle().graphics().invocations
    }

    fn assert_drawn(&self, expected: &[Command]) {
        let actual = self.drawn();
        assert_eq!(expected.len(), actual.len(), "{:?} != {:?}", expected, actual);
        for (e, a) in expected.iter().zip(actual.iter()) {
            assert!(same(e, a), "{:?} != {:?}", expected, actual);
        }
    }

    fn global(&self, name: &str) -> Option<AST> {
        self.evaluator.global(&name.to_string())
    }
}

fn run_test(input: &str, expected: Vec<Command>) {
    let mut logo = Logo::new();
    logo.ok(input);
    logo.assert_drawn(&expected);
}

#[test]
fn evaluator_test_fd() {
    run_test("FD 50", con(&[(0.0, 0.0), (0.0, 50.0)]));
}

#[test]
fn operator_precedence() {
    let mut logo = Logo::new();
    assert_eq!(7.0, logo.value("1 + 2 * 3"));
    assert_eq!(9.0, logo.value("(1 + 2) * 3"));
    assert_eq!(0.0, logo.value("1 + 2 - 3"));
    assert_eq!(1.0, logo.value("8 / 4 / 2"));
    assert_eq!(1.0, logo.value("7 % 3"));
    assert_eq!(2.5, logo.value("5 / 2"));
    assert_eq!(-14.0, logo.value("-2 * (3 + 4)"));
}

#[test]
fn minus_disambiguation() {
    let mut logo = Logo::new();
    assert_eq!(-1.0, logo.value("1 - 2"));
    // two expressions: the first gives the value of the line
    assert_eq!(3.0, logo.value("1 + 2 -3"));
    assert_eq!(-3.0, logo.value("-3"));
    assert_eq!(3.0, logo.value("-(1 - 4)"));
    assert_eq!(2.0, logo.value("- 5 3"));
    assert_eq!(-2.5, logo.value("-2.5"));
    let zero = logo.feed("-0").unwrap();
    assert_eq!(AST::Num(Number::Real((-0.0f32).to_bits())), zero);
}

#[test]
fn variadic_prefix_values() {
    let mut logo = Logo::new();
    assert_eq!(10.0, logo.value("(+ 1 2 3 4)"));
    assert_eq!(24.0, logo.value("(* 1 2 3 4)"));
    assert_eq!(0.0, logo.value("(+)"));
    assert_eq!(1.0, logo.value("(*)"));
    assert_eq!(3.0, logo.value("+ 1 2"));
    assert_eq!(3.0, logo.value("+ 1 2 5"));
    assert_eq!(6.0, logo.value("* 2 3"));
    assert_eq!(ErrorKind::NotANumber, logo.error("(+ 1 \"a)"));
}

#[test]
fn values_evaluate_to_themselves() {
    let mut logo = Logo::new();
    assert_eq!(Ok(AST::Num(Number::Int(5))), logo.feed("5"));
    assert_eq!(Ok(AST::Num(Number::Decimal("1.5".to_string()))), logo.feed("1.5"));
    assert_eq!(Ok(word("HELLO")), logo.feed("\"hello"));
    assert_eq!(
        Ok(AST::List(ListType::from(vec![AST::Function("FD".to_string()), AST::Num(Number::Int(1))]))),
        logo.feed("[fd 1]")
    );
    assert_eq!(Ok(AST::List(ListType::from(vec![]))), logo.feed("()"));
    assert_eq!(Ok(AST::Empty), logo.feed(""));
    assert_eq!(Ok(AST::Num(Number::Int(4))), logo.feed("(4 5 6)"));
}

#[test]
fn comparison() {
    let mut logo = Logo::new();
    assert_eq!(Ok(word("TRUE")), logo.feed("1 < 2"));
    assert_eq!(Ok(word("FALSE")), logo.feed("2 < 1"));
    assert_eq!(Ok(word("TRUE")), logo.feed("2 <= 2"));
    assert_eq!(Ok(word("TRUE")), logo.feed("3 > 2"));
    assert_eq!(Ok(word("FALSE")), logo.feed("1 >= 2"));
    assert_eq!(Ok(word("TRUE")), logo.feed("1 + 1 = 2"));
    assert_eq!(Ok(word("TRUE")), logo.feed("\"a < \"b"));
    assert_eq!(Ok(word("FALSE")), logo.feed("\"b < \"a"));
    assert_eq!(Ok(word("TRUE")), logo.feed("\"abc = \"ABC"));
    assert_eq!(Ok(word("TRUE")), logo.feed("\"ab < \"abc"));
    assert_eq!(Ok(word("FALSE")), logo.feed("\"abc < \"ab"));
    assert_eq!(Ok(word("TRUE")), logo.feed("\"abc >= \"ab"));
    assert_eq!(Ok(word("TRUE")), logo.feed("\"b > \"a"));
    assert_eq!(Ok(word("TRUE")), logo.feed("\"a <= \"a"));
    // a number beside a word is compared as text
    assert_eq!(Ok(word("TRUE")), logo.feed("12 = \"12"));
    assert_eq!(Ok(word("TRUE")), logo.feed("\"12 = 12"));
    assert_eq!(Ok(word("TRUE")), logo.feed("100 < \"2"));
    assert_eq!(Ok(word("TRUE")), logo.feed("\"10 < 9"));
    assert_eq!(ErrorKind::NotComparable, logo.error("[1] = 1"));
    assert_eq!(ErrorKind::NotComparable, logo.error("1 = [1]"));
}

#[test]
fn arity_laziness() {
    let needs = [
        ("FD", 1),
        ("FORWARD", 1),
        ("BK", 1),
        ("BACK", 1),
        ("RT", 1),
        ("RIGHT", 1),
        ("LT", 1),
        ("LEFT", 1),
        ("SETX", 1),
        ("SETY", 1),
        ("SETH", 1),
        ("SETHEADING", 1),
        ("PR", 1),
        ("PRINT", 1),
        ("OP", 1),
        ("OUTPUT", 1),
        ("SETXY", 1),
        ("LOAD", 1),
        ("MAKE", 2),
        ("LIST", 2),
        ("LPUT", 2),
        ("ITEM", 2),
        ("REPEAT", 2),
        ("FOR", 4),
    ];
    let operands = |name: &str, i: usize| -> &'static str {
        match (name, i) {
            ("MAKE", 0) | ("FOR", 0) | ("LOAD", 0) => "\"v",
            ("LPUT", _) | ("SETXY", _) | ("ITEM", 1) | ("REPEAT", 1) | ("FOR", 3) => "[]",
            _ => "1",
        }
    };
    for (name, arity) in needs {
        for given in 0..arity {
            let mut logo = Logo::new();
            let mut line = name.to_string();
            for i in 0..given {
                line.push(' ');
                line.push_str(operands(name, i));
            }
            let e = logo.feed(&line).unwrap_err();
            assert_eq!(ErrorKind::NeedMoreInput, e.kind, "{}", line);
            assert_eq!(Category::Arity, e.kind.category(), "{}", line);
            assert!(logo.evaluator.is_idle());
        }
    }
    let mut logo = Logo::new();
    for name in ["HOME", "CLEAN", "CS", "CLEARSCREEN", "PD", "PENDOWN", "PU", "PENUP"] {
        logo.ok(name);
    }
    assert_eq!(0.0, logo.value("HEADING"));
    assert_eq!(0.0, logo.value("XCOR"));
    assert_eq!(0.0, logo.value("YCOR"));
    assert_eq!(Ok(AST::List(ListType::from(vec![num(0.0), num(0.0)]))), logo.feed("GETXY"));
}

#[test]
fn need_more_input_names_the_procedure() {
    let mut logo = Logo::new();
    let e = logo.feed("fd").unwrap_err();
    assert_eq!("FD", e.subject);
    assert_eq!("FD needs more input(s).", e.message());
    let e = logo.feed("to").unwrap_err();
    assert_eq!("TO needs more input(s).", e.message());
    // SETXY takes its two numbers from the list
    let e = logo.feed("setxy [1]").unwrap_err();
    assert_eq!("SETXY needs more input(s).", e.message());
}

#[test]
fn a_procedure_takes_exactly_its_operands() {
    let mut logo = Logo::new();
    // FD takes 10; 20 is the value of the line
    assert_eq!(Ok(AST::Num(Number::Int(20))), logo.feed("fd 10 20"));
    logo.assert_drawn(&con(&[(0.0, 0.0), (0.0, 10.0)]));
    // an operand may itself take operands from the line
    logo.ok("fd item 2 [5 7]");
    logo.assert_drawn(&con(&[(0.0, 0.0), (0.0, 10.0), (0.0, 17.0)]));
    logo.ok("fd xcor + 1 rt 90 fd ycor");
    logo.assert_drawn(&con(&[(0.0, 0.0), (0.0, 10.0), (0.0, 17.0), (0.0, 18.0), (18.0, 18.0)]));
}

#[test]
fn operands_are_checked() {
    let mut logo = Logo::new();
    assert_eq!(ErrorKind::NotANumber, logo.error("fd \"a"));
    assert_eq!(ErrorKind::NotANumber, logo.error("fd [1]"));
    assert_eq!(ErrorKind::NotAWord, logo.error("make 1 2"));
    assert_eq!(ErrorKind::NotAList, logo.error("repeat 2 3"));
    assert_eq!(ErrorKind::NotAList, logo.error("lput 1 [2]"));
    assert_eq!(ErrorKind::NotANumber, logo.error("1 + \"a"));
    assert_eq!(ErrorKind::NotANumber, logo.error("\"a + 1"));
    assert_eq!(ErrorKind::NotANumber, logo.error("-(\"a)"));
    assert_eq!(ErrorKind::NotANumber, logo.error("fd op 5"));
    assert_eq!(Category::Type, ErrorKind::NotANumber.category());
    assert_eq!(Category::Type, ErrorKind::NotAWord.category());
    assert_eq!(Category::Type, ErrorKind::NotAList.category());
    assert!(logo.drawn().is_empty());
}

#[test]
fn unknown_names() {
    let mut logo = Logo::new();
    let e = logo.feed("frobnicate 1").unwrap_err();
    assert_eq!(ErrorKind::UnknownProcedure, e.kind);
    assert_eq!("FROBNICATE", e.subject);
    assert_eq!("Unknown function FROBNICATE", e.message());
    assert_eq!(Category::Name, e.kind.category());
    let e = logo.feed("fd :nothing").unwrap_err();
    assert_eq!(ErrorKind::UnknownVariable, e.kind);
    assert_eq!(":NOTHING is not a Logo name.", e.message());
    assert_eq!(Category::Name, e.kind.category());
}

#[test]
fn parse_errors_come_out_of_feed() {
    let mut logo = Logo::new();
    let e = logo.feed("fd `").unwrap_err();
    assert_eq!(ErrorKind::Lex, e.kind);
    assert_eq!(Category::Lex, e.kind.category());
    assert_eq!("Error at pos 3 (fd `\n): unknown char `", e.message());
    let e = logo.feed("(1 2").unwrap_err();
    assert_eq!(ErrorKind::Syntax(SyntaxError::UnmatchedParen), e.kind);
    assert_eq!(Category::Parse, e.kind.category());
    assert_eq!("unmatched left paren", e.message());
    assert_eq!(3.0, logo.value("1 + 2"));
}

#[test]
fn line_continuation() {
    let mut logo = Logo::new();
    logo.ok("repeat 2 [fd 1 \\");
    assert!(logo.drawn().is_empty());
    logo.ok("rt 90]");
    logo.assert_drawn(&con(&[(0.0, 0.0), (0.0, 1.0), (1.0, 1.0)]));
}

#[test]
fn make_and_variables() {
    let mut logo = Logo::new();
    logo.ok("make \"a 5");
    assert_eq!(Some(AST::Num(Number::Int(5))), logo.global("A"));
    assert_eq!(Ok(AST::Num(Number::Int(5))), logo.feed(":a"));
    logo.ok("make \"a :a + 1");
    assert_eq!(Some(num(6.0)), logo.global("A"));
    logo.ok("make \"b \"word");
    assert_eq!(Some(word("WORD")), logo.global("B"));
    logo.ok("make \"c [1 2]");
    assert_eq!(Ok(AST::Num(Number::Int(2))), logo.feed("item 2 :c"));
    assert_eq!(None, logo.global("D"));
}

#[test]
fn scoping() {
    let mut logo = Logo::new();
    logo.ok("make \"a 1");
    logo.ok("to setlocal :a");
    logo.ok("make \"a 5");
    logo.ok("op :a");
    logo.ok("end");
    // the formal is changed, the global of the same name is not
    assert_eq!(Ok(AST::Num(Number::Int(5))), logo.feed("setlocal 3"));
    assert_eq!(Some(AST::Num(Number::Int(1))), logo.global("A"));
    // without a local of that name the global is changed
    logo.ok("to setglobal :x");
    logo.ok("make \"a :x");
    logo.ok("end");
    logo.ok("setglobal 9");
    assert_eq!(Some(AST::Num(Number::Int(9))), logo.global("A"));
    assert_eq!(None, logo.global("X"));
    // a local is gone when its procedure is over
    assert_eq!(ErrorKind::UnknownVariable, logo.error(":x"));
    // a procedure sees the globals, not the locals of its caller
    logo.ok("to inner");
    logo.ok("op :y");
    logo.ok("end");
    logo.ok("to outer :y");
    logo.ok("op inner");
    logo.ok("end");
    assert_eq!(ErrorKind::UnknownVariable, logo.error("outer 1"));
    logo.ok("make \"y 2");
    assert_eq!(Ok(AST::Num(Number::Int(2))), logo.feed("outer 1"));
}

#[test]
fn definition_round_trip() {
    let mut logo = Logo::new();
    logo.ok("TO DOUBLE :X");
    assert!(logo.evaluator.is_defining());
    logo.ok("OP :X * 2");
    logo.ok("END");
    assert!(!logo.evaluator.is_defining());
    logo.ok("PRINT DOUBLE 21");
    assert_eq!(vec!["42".to_string()], logo.host.printed);
    assert_eq!(84.0, logo.value("double double 21"));
    let p = logo.evaluator.procedure(&"DOUBLE".to_string()).unwrap();
    assert_eq!(vec!["X".to_string()], p.args);
    assert_eq!(1, p.lines.len());
    assert!(logo.evaluator.procedure(&"TRIPLE".to_string()).is_none());
}

#[test]
fn lines_of_a_definition_are_not_evaluated() {
    let mut logo = Logo::new();
    logo.ok("to square :size");
    logo.ok("repeat 4 [fd :size rt 90]");
    logo.ok("frobnicate");
    logo.ok("1 + 2");
    assert!(logo.drawn().is_empty());
    assert!(logo.host.asked.is_empty());
    logo.ok("end");
    assert_eq!(ErrorKind::UnknownProcedure, logo.error("square 10"));
    logo.assert_drawn(&con(&[(0.0, 0.0), (0.0, 10.0), (10.0, 10.0), (10.0, 0.0), (0.0, 0.0)]));
}

#[test]
fn procedures() {
    let mut logo = Logo::new();
    logo.ok("to square :size");
    logo.ok("repeat 4 [fd :size rt 90]");
    logo.ok("end");
    logo.ok("square 10");
    logo.assert_drawn(&con(&[(0.0, 0.0), (0.0, 10.0), (10.0, 10.0), (10.0, 0.0), (0.0, 0.0)]));
    logo.ok("to add :a :b");
    logo.ok("op :a + :b");
    logo.ok("fd 1000");
    logo.ok("end");
    assert_eq!(5.0, logo.value("add 2 3"));
    assert_eq!(4, logo.drawn().len());
    assert_eq!(ErrorKind::NeedMoreInput, logo.error("add 2"));
    // a line of a procedure that gives a value nobody takes
    logo.ok("to wrong");
    logo.ok("1 + 2");
    logo.ok("end");
    let e = logo.feed("wrong").unwrap_err();
    assert_eq!(ErrorKind::UnusedValue, e.kind);
    assert_eq!(Category::Arity, e.kind.category());
    // recursion
    logo.ok("to count :n");
    logo.ok("make \"total :total + :n");
    logo.ok("repeat :n > 0 = \"TRUE [op 0]");
    logo.ok("end");
    // a procedure without formals and without lines
    logo.ok("to nothing");
    logo.ok("end");
    logo.ok("nothing");
    // redefinition replaces
    logo.ok("to add :a :b");
    logo.ok("op :a * :b");
    logo.ok("end");
    assert_eq!(6.0, logo.value("add 2 3"));
}

#[test]
fn definition_errors() {
    let mut logo = Logo::new();
    let e = logo.feed("to fd :x").unwrap_err();
    assert_eq!(ErrorKind::NameInUse, e.kind);
    assert_eq!("FD is already in use. Try a different name.", e.message());
    assert_eq!(Category::Definition, e.kind.category());
    assert!(!logo.evaluator.is_defining());
    assert_eq!(ErrorKind::NameInUse, logo.error("to to"));
    assert_eq!(ErrorKind::NameInUse, logo.error("to end"));
    assert_eq!(ErrorKind::NameMissing, logo.error("to 5"));
    assert_eq!(ErrorKind::NameMissing, logo.error("to :x"));
    assert_eq!(ErrorKind::BadFormal, logo.error("to foo 5"));
    assert_eq!(ErrorKind::BadFormal, logo.error("to foo :a b"));
    assert_eq!(ErrorKind::NeedMoreInput, logo.error("to"));
    assert_eq!(ErrorKind::EndWithoutTo, logo.error("end"));
    assert!(!logo.evaluator.is_defining());
    logo.ok("to foo :a");
    let e = logo.feed("to bar").unwrap_err();
    assert_eq!(ErrorKind::NestedDefinition, e.kind);
    assert_eq!("TO inside of function definition FOO", e.message());
    // the definition is still open
    assert!(logo.evaluator.is_defining());
    logo.ok("op :a");
    logo.ok("end");
    assert_eq!(Ok(AST::Num(Number::Int(7))), logo.feed("foo 7"));
}

#[test]
fn repeat() {
    let mut logo = Logo::new();
    logo.ok("make \"n 0");
    logo.ok("repeat 5 [make \"n :n + 1]");
    assert_eq!(Some(num(5.0)), logo.global("N"));
    logo.ok("repeat 0 [make \"n 100]");
    logo.ok("repeat -3 [make \"n 100]");
    logo.ok("repeat 2.9 [make \"n :n + 1]");
    assert_eq!(Some(num(7.0)), logo.global("N"));
    logo.ok("repeat 2 [repeat 3 [make \"n :n + 1]]");
    assert_eq!(Some(num(13.0)), logo.global("N"));
    logo.ok("repeat 3 []");
    // a value that nobody takes
    assert_eq!(ErrorKind::UnusedValue, logo.error("repeat 4 [4]"));
    assert_eq!(ErrorKind::UnknownProcedure, logo.error("repeat 4 [frobnicate]"));
    assert!(logo.evaluator.is_idle());
}

#[test]
fn for_loop() {
    let mut logo = Logo::new();
    logo.ok("make \"sum 0");
    logo.ok("for \"i 1 4 [make \"sum :sum + :i]");
    assert_eq!(Some(num(10.0)), logo.global("SUM"));
    assert_eq!(Some(num(4.0)), logo.global("I"));
    logo.ok("for \"j 3 2 [make \"sum 0]");
    assert_eq!(Some(num(10.0)), logo.global("SUM"));
    assert_eq!(None, logo.global("J"));
    logo.ok("for \"k 0.5 2 [make \"sum :sum + :k]");
    assert_eq!(Some(num(12.0)), logo.global("SUM"));
    assert_eq!(ErrorKind::UnusedValue, logo.error("for \"i 1 2 [:i]"));
}

#[test]
fn lists() {
    let mut logo = Logo::new();
    assert_eq!(
        Ok(AST::List(ListType::from(vec![AST::Num(Number::Int(1)), word("A")]))),
        logo.feed("list 1 \"a")
    );
    assert_eq!(Ok(AST::List(ListType::from(vec![num(3.0), num(12.0)]))), logo.feed("list 1 + 2 3 * 4"));
    assert_eq!(
        Ok(AST::List(ListType::from(vec![
            AST::Num(Number::Int(2)),
            AST::Num(Number::Int(3)),
            AST::List(ListType::from(vec![AST::Num(Number::Int(1))]))
        ]))),
        logo.feed("lput [1] [2 3]")
    );
    assert_eq!(Ok(AST::Num(Number::Int(10))), logo.feed("item 1 [10 20 30]"));
    assert_eq!(Ok(AST::Num(Number::Int(30))), logo.feed("item 3 [10 20 30]"));
    assert_eq!(Ok(AST::Num(Number::Int(20))), logo.feed("item 2.7 [10 20 30]"));
    for line in ["item 0 [10 20 30]", "item 4 [10 20 30]", "item -1 [10 20 30]", "item 1 []"] {
        let e = logo.feed(line).unwrap_err();
        assert_eq!(ErrorKind::ItemOutOfRange, e.kind, "{}", line);
    }
    let e = logo.feed("item 4 [10 20 30]").unwrap_err();
    assert_eq!("ITEM needs a number between 1 and 3 as its first input.", e.message());
    let e = logo.feed("item 12 [1 2 3 4 5 6 7 8 9 10 11]").unwrap_err();
    assert_eq!("ITEM needs a number between 1 and 11 as its first input.", e.message());
}

#[test]
fn turtle_geometry() {
    let mut logo = Logo::new();
    logo.ok("FD 50");
    logo.assert_drawn(&con(&[(0.0, 0.0), (0.0, 50.0)]));
    assert_eq!(1, logo.drawn().len());
    let (x, y) = logo.evaluator.turtle().getxy();
    assert!(feq(0.0, float(&x)));
    assert!(feq(50.0, float(&y)));
    logo.ok("RT 90");
    logo.ok("FD 10");
    logo.assert_drawn(&con(&[(0.0, 0.0), (0.0, 50.0), (10.0, 50.0)]));
}

#[test]
fn turtle_procedures() {
    let mut logo = Logo::new();
    logo.ok("bk 10");
    logo.ok("lt 90 fd 5");
    logo.assert_drawn(&con(&[(0.0, 0.0), (0.0, -10.0), (-5.0, -10.0)]));
    assert_eq!(90.0, logo.value("heading"));
    logo.ok("seth 180");
    assert_eq!(180.0, logo.value("heading"));
    logo.ok("setheading 0");
    logo.ok("pu setxy [3 4] pd");
    assert_eq!(2, logo.drawn().len());
    assert_eq!(3.0, logo.value("xcor"));
    assert_eq!(4.0, logo.value("ycor"));
    assert_eq!(
        Ok(AST::List(ListType::from(vec![AST::Num(Number::Int(3)), AST::Num(Number::Int(4))]))),
        logo.feed("getxy")
    );
    logo.ok("setx 10");
    logo.ok("sety 20");
    logo.ok("setxy [1 + 1 xcor * 2]");
    logo.ok("home");
    logo.ok("clean");
    logo.ok("penup");
    logo.ok("forward 5 back 5 right 90 left 90");
    logo.ok("pendown");
    logo.ok("cs");
    logo.ok("clearscreen");
    let mut expected = con(&[(0.0, 0.0), (0.0, -10.0), (-5.0, -10.0)]);
    expected.extend(con(&[(3.0, 4.0), (10.0, 4.0), (10.0, 20.0), (2.0, 20.0), (0.0, 0.0)]));
    expected.push(Command::Clear);
    expected.extend(con(&[(0.0, 0.0), (0.0, 0.0)]));
    expected.push(Command::Clear);
    expected.extend(con(&[(0.0, 0.0), (0.0, 0.0)]));
    expected.push(Command::Clear);
    logo.assert_drawn(&expected);
    // the list of SETXY is a line of its own: what is left of it is dropped
    logo.ok("setxy [1 2 3]");
    assert_eq!(ErrorKind::NotANumber, logo.error("setxy [\"a 2]"));
    assert!(logo.evaluator.is_idle());
}

#[test]
fn print_and_output() {
    let mut logo = Logo::new();
    logo.ok("print 1 + 2");
    logo.ok("pr \"hello");
    logo.ok("pr [1 2]");
    logo.ok("pr list 1.5 \"x");
    assert_eq!(vec!["3", "HELLO", "[1 2]", "[1.5 X]"], logo.host.printed);
    assert_eq!(
        Ok(AST::FunctionReturn(Box::new(AST::Num(Number::Int(5))))),
        logo.feed("op 5")
    );
    assert_eq!(
        Ok(AST::FunctionReturn(Box::new(AST::Num(Number::Int(5))))),
        logo.feed("output 5")
    );
}

#[test]
fn load() {
    let mut logo = Logo::new();
    logo.host.files.push((
        "shapes.lgo".to_string(),
        vec![
            "to square :size".to_string(),
            "repeat 4 [fd :size rt 90]".to_string(),
            "end".to_string(),
            "frobnicate".to_string(),
            "fd `".to_string(),
            "1 + 2".to_string(),
            "make \"loaded \"yes".to_string(),
        ],
    ));
    logo.ok("load \"shapes fd 1");
    // the name of the file is the word in lower case, with .lgo at its end
    assert!(logo.host.asked.contains(&Request::Load("shapes.lgo".to_string())));
    // errors and values of the lines are shown, and the file goes on
    assert_eq!(
        vec!["Unknown function FROBNICATE", "Error at pos 3 (fd `\n): unknown char `", "3"],
        logo.host.printed
    );
    assert_eq!(Some(word("YES")), logo.global("LOADED"));
    // the line goes on behind LOAD
    logo.assert_drawn(&con(&[(0.0, 0.0), (0.0, 1.0)]));
    logo.ok("pu home pd square 2");
    assert_eq!(5, logo.drawn().len());
    logo.ok("load \"Shapes.LGO");
    let loads = logo.host.asked.iter().filter(|r| **r == Request::Load("shapes.lgo".to_string()));
    assert_eq!(2, loads.count());
    let e = logo.feed("load \"nothing").unwrap_err();
    assert_eq!(ErrorKind::Host, e.kind);
    assert_eq!("Unable to open file nothing.lgo", e.message());
    assert_eq!(Category::Host, e.kind.category());
    assert_eq!(ErrorKind::NotAWord, logo.error("load 5"));
}

#[test]
fn load_inside_a_procedure_keeps_the_stacks() {
    let mut logo = Logo::new();
    logo.host.files.push((
        "bad.lgo".to_string(),
        vec!["repeat 2 [fd (frobnicate)]".to_string(), "make \"seen :x".to_string()],
    ));
    logo.ok("to run :x");
    logo.ok("load \"bad");
    logo.ok("op :x + 1");
    logo.ok("end");
    // the error in the file ends its line only; the local of the caller is
    // still there for the next line of the file and for the caller
    assert_eq!(5.0, logo.value("run 4"));
    assert_eq!(Some(AST::Num(Number::Int(4))), logo.global("SEEN"));
    assert_eq!(vec!["Unknown function FROBNICATE"], logo.host.printed);
}

#[test]
fn an_error_does_not_undo_what_was_done() {
    let mut logo = Logo::new();
    assert_eq!(ErrorKind::UnknownProcedure, logo.error("make \"a 1 fd 10 frobnicate make \"a 2"));
    assert_eq!(Some(AST::Num(Number::Int(1))), logo.global("A"));
    assert_eq!(1, logo.drawn().len());
    assert!(logo.evaluator.is_idle());
    // the next line runs as if nothing had happened
    assert_eq!(Ok(AST::Num(Number::Int(1))), logo.feed(":a"));
}

#[test]
fn stacks_are_empty_after_every_line() {
    let mut logo = Logo::new();
    logo.ok("to deep :n");
    logo.ok("repeat 2 [fd (frobnicate :n)]");
    logo.ok("end");
    for line in [
        "fd 10",
        "repeat 3 [fd 1 rt 1]",
        "deep 1",
        "(1 + (2 * 3))",
        "fd",
        "repeat 2 [5]",
        "setxy [1]",
        "to fd",
        "1 2 3",
    ] {
        let _ = logo.feed(line);
        assert!(logo.evaluator.is_idle(), "{}", line);
        // at rest a line can be fed and runs in the global scope
        logo.ok("make \"probe 1");
        assert_eq!(Some(AST::Num(Number::Int(1))), logo.global("PROBE"));
    }
}

#[test]
fn pause_hands_control_back() {
    let mut logo = Logo::new();
    logo.ok("to forever");
    logo.ok("forever");
    logo.ok("end");
    let mut status = logo.evaluator.feed("forever");
    for _ in 0..3 {
        assert_eq!(Status::Ask(Request::Pause), status);
        status = logo.evaluator.resume(Reply::Done);
    }
    assert!(!logo.evaluator.is_idle());
    assert!(SLICE > 0);
    // a long loop is done after some pauses
    let mut logo = Logo::new();
    logo.ok("make \"n 0");
    logo.ok("repeat 20000 [make \"n 1]");
    assert!(logo.host.pauses > 0);
    assert_eq!(Some(AST::Num(Number::Int(1))), logo.global("N"));
}

#[test]
fn feed_while_waiting_is_refused() {
    let mut logo = Logo::new();
    let status = logo.evaluator.feed("fd 1 + 2");
    assert_eq!(
        Status::Ask(Request::Arithmetic(Operator::Plus, Number::Int(1), Number::Int(2))),
        status
    );
    match logo.evaluator.feed("fd 5") {
        Status::Done(Err(e)) => assert_eq!(ErrorKind::Busy, e.kind),
        other => panic!("{:?}", other),
    }
    // the first line goes on
    let status = logo.evaluator.resume(Reply::Number(3.0f32.to_bits()));
    assert_eq!(
        Status::Ask(Request::Advance {
            x: Number::Real(0),
            y: Number::Real(0),
            heading: Number::Real(0),
            distance: Number::Real(3.0f32.to_bits()),
        }),
        status
    );
    let status = logo.evaluator.resume(Reply::Point(0, 3.0f32.to_bits()));
    assert_eq!(Status::Done(Ok(AST::Empty)), status);
    assert_eq!(
        vec![Command::Line(
            (Number::Real(0), Number::Real(0)),
            (Number::Real(0), Number::Real(3.0f32.to_bits()))
        )],
        *logo.drawn()
    );
}

#[test]
fn a_reply_that_is_no_answer_ends_the_line() {
    let mut logo = Logo::new();
    let _ = logo.evaluator.feed("fd 1 + 2");
    match logo.evaluator.resume(Reply::Truth(true)) {
        Status::Done(Err(e)) => {
            assert_eq!(ErrorKind::Protocol, e.kind);
            assert_eq!(Category::Host, e.kind.category());
        }
        other => panic!("{:?}", other),
    }
    assert!(logo.evaluator.is_idle());
    // nothing was asked
    match logo.evaluator.resume(Reply::Done) {
        Status::Done(Err(e)) => assert_eq!(ErrorKind::Protocol, e.kind),
        other => panic!("{:?}", other),
    }
    assert_eq!(3.0, logo.value("1 + 2"));
}

#[test]
fn requests_carry_the_operands_as_written() {
    let mut logo = Logo::new();
    assert_eq!(
        Status::Ask(Request::Arithmetic(
            Operator::Multiply,
            Number::Decimal("1.5".to_string()),
            Number::Int(2)
        )),
        logo.evaluator.feed("1.5 * 2")
    );
    assert_eq!(Status::Done(Ok(num(3.0))), logo.evaluator.resume(Reply::Number(3.0f32.to_bits())));
    assert_eq!(Status::Ask(Request::Negate(Number::Int(4))), logo.evaluator.feed("-4"));
    let _ = logo.evaluator.resume(Reply::Number(0));
    assert_eq!(
        Status::Ask(Request::Compare(Operator::Less, Number::Int(1), Number::Int(2))),
        logo.evaluator.feed("1 < 2")
    );
    assert_eq!(Status::Done(Ok(word("TRUE"))), logo.evaluator.resume(Reply::Truth(true)));
    assert_eq!(Status::Ask(Request::Spell(Number::Int(1))), logo.evaluator.feed("1 < \"a"));
    assert_eq!(
        Status::Done(Ok(word("TRUE"))),
        logo.evaluator.resume(Reply::Text("1".to_string()))
    );
    assert_eq!(
        Status::Ask(Request::Truncate(Number::Decimal("2.5".to_string()))),
        logo.evaluator.feed("item 2.5 [1 2 3]")
    );
    assert_eq!(
        Status::Done(Ok(AST::Num(Number::Int(2)))),
        logo.evaluator.resume(Reply::Integer(2))
    );
    assert_eq!(Status::Ask(Request::Print(word("X"))), logo.evaluator.feed("pr \"x"));
    assert_eq!(Status::Done(Ok(AST::Empty)), logo.evaluator.resume(Reply::Done));
    assert_eq!(
        Status::Ask(Request::Load("a.lgo".to_string())),
        logo.evaluator.feed("load \"a")
    );
    assert_eq!(
        Status::Done(Ok(AST::Empty)),
        logo.evaluator.resume(Reply::Lines(vec![]))
    );
}

#[test]
fn evaluator_error_messages() {
    let message = |kind: ErrorKind, subject: &str| {
        EvalError { kind, subject: subject.to_string() }.message()
    };
    assert_eq!("You don't say what to do with the output", message(ErrorKind::UnusedValue, ""));
    assert_eq!("Expr doesn't evaluate to a number", message(ErrorKind::NotANumber, ""));
    assert_eq!("Expr doesn't evaluate to a word", message(ErrorKind::NotAWord, ""));
    assert_eq!("Expr doesn't evaluate to a list", message(ErrorKind::NotAList, ""));
    assert_eq!(
        "The comparison procedure needs a name or number.",
        message(ErrorKind::NotComparable, "")
    );
    assert_eq!("Unknown operator", message(ErrorKind::BadOperator, ""));
    assert_eq!("END without TO", message(ErrorKind::EndWithoutTo, ""));
    assert_eq!(
        "The procedure TO needs a name as its first input.",
        message(ErrorKind::NameMissing, "")
    );
    assert_eq!(
        "The procedure TO does not like an input of FOO",
        message(ErrorKind::BadFormal, "FOO")
    );
    assert_eq!("The host gave no answer to what was asked.", message(ErrorKind::Protocol, ""));
    assert_eq!("The interpreter is waiting for an answer.", message(ErrorKind::Busy, ""));
    assert_eq!("no such file", message(ErrorKind::Host, "no such file"));
    let e = EvalError { kind: ErrorKind::Host, subject: "x".to_string() };
    assert_eq!(e, e.copy());
}

#[test]
fn pons_shows_the_variables() {
    let mut logo = Logo::new();
    logo.ok("make \"a 1");
    logo.ok("make \"b [2 3]");
    assert_eq!(
        Status::Ask(Request::Print(AST::List(ListType::from(vec![
            word("Locals:"),
            word("Globals:"),
            AST::List(ListType::from(vec![word("A"), word("is"), AST::Num(Number::Int(1))])),
            AST::List(ListType::from(vec![
                word("B"),
                word("is"),
                AST::List(ListType::from(vec![AST::Num(Number::Int(2)), AST::Num(Number::Int(3))]))
            ])),
        ])))),
        logo.evaluator.feed("pons")
    );
    assert_eq!(Status::Done(Ok(AST::Empty)), logo.evaluator.resume(Reply::Done));
    logo.ok("to show :x :y");
    logo.ok("make \"x 7");
    logo.ok("pons");
    logo.ok("end");
    logo.ok("show 5 6");
    assert_eq!(vec!["[Locals: [X is 7] [Y is 6] Globals: [A is 1] [B is [2 3]]]"], logo.host.printed);
}

#[test]
fn pops_shows_the_procedures() {
    let mut logo = Logo::new();
    logo.ok("pops");
    assert_eq!(vec!["[]"], logo.host.printed);
    logo.ok("to double :x");
    logo.ok("op :x * 2");
    logo.ok("end");
    logo.ok("to nothing");
    logo.ok("end");
    assert_eq!(
        Status::Ask(Request::Print(AST::List(ListType::from(vec![
            AST::List(ListType::from(vec![
                word("TO"),
                word("DOUBLE"),
                AST::Var("X".to_string()),
                AST::ExprLine(ListType::from(vec![
                    AST::Function("OP".to_string()),
                    AST::Binary(
                        logo::lexer::Token::Multiply,
                        Box::new(AST::Var("X".to_string())),
                        Box::new(AST::Num(Number::Int(2)))
                    ),
                ])),
                word("END"),
            ])),
            AST::List(ListType::from(vec![word("TO"), word("NOTHING"), word("END")])),
        ])))),
        logo.evaluator.feed("pops")
    );
    assert_eq!(Status::Done(Ok(AST::Empty)), logo.evaluator.resume(Reply::Done));
}

#[test]
fn special_names_can_be_procedures() {
    let mut logo = Logo::new();
    assert_eq!(ErrorKind::UnknownProcedure, logo.error("inf"));
    logo.ok("to nan :x");
    logo.ok("op :x + 1");
    logo.ok("end");
    assert_eq!(3.0, logo.value("nan 2"));
    logo.ok("to infinity");
    logo.ok("op 7");
    logo.ok("end");
    assert_eq!(Ok(AST::Num(Number::Int(7))), logo.feed("infinity"));
}

#[test]
fn set_gives_a_variable_a_value() {
    let mut logo = Logo::new();
    // no procedure runs: the global variable gets the value
    logo.evaluator.set("A".to_string(), AST::Num(Number::Int(1)));
    assert_eq!(Some(AST::Num(Number::Int(1))), logo.global("A"));
    logo.evaluator.set("A".to_string(), word("X"));
    assert_eq!(Some(word("X")), logo.global("A"));
    assert_eq!(Ok(word("X")), logo.feed(":a"));
    // inside a procedure the formal of the name gets the value, a name
    // that is no formal goes to the global variables
    logo.ok("to both :a");
    logo.ok("pr :a");
    logo.ok("end");
    let status = logo.evaluator.feed("both 5");
    assert_eq!(Status::Ask(Request::Print(AST::Num(Number::Int(5)))), status);
    logo.evaluator.set("A".to_string(), AST::Num(Number::Int(9)));
    logo.evaluator.set("B".to_string(), AST::Num(Number::Int(8)));
    assert_eq!(Some(word("X")), logo.global("A"));
    assert_eq!(Some(AST::Num(Number::Int(8))), logo.global("B"));
    assert_eq!(Status::Done(Ok(AST::Empty)), logo.evaluator.resume(Reply::Done));
    assert_eq!(Some(word("X")), logo.global("A"));
}
