//! What the interpreter does, as mathematics: its state, and the function
//! from a state to the next.
//!
//! The interpreter is a machine that runs in steps. It holds the node or
//! value in hand (the focus), a stack of frames that say what is to be done
//! with a value once it is there, the queues of expressions that procedures
//! take their operands from, and the variables. A step never computes with
//! numbers, prints or reads a file: where a program needs that, the focus
//! becomes a request, and the machine rests until the host has answered.
use vstd::prelude::*;
use crate::builtin::{is_reserved, Builtin, Kind};
use crate::host::{answer, Operator, ReplyModel, RequestModel};
use crate::lexer::{lex_message, terminated, tokens_of, TokenModel};
use crate::number::NumberModel;
use crate::parser::{line_of, AstModel, SyntaxError};
use crate::table::{assign, lookup};
use crate::text::{decimal_of, has_suffix, lowercase_of, text_before};
use crate::turtle::TurtleModel;

verus! {

/// In what way a line failed.
#[derive(Debug, Clone, Copy, PartialEq, Eq)]
pub enum ErrorKind {
    /// A character that starts no token. The subject is the full text of
    /// the error.
    Lex,
    /// The tokens make no line of expressions.
    Syntax(SyntaxError),
    /// No procedure has the name in the subject.
    UnknownProcedure,
    /// No variable has the name in the subject.
    UnknownVariable,
    /// The procedure in the subject found the rest of the line used up
    /// before it had all its operands.
    NeedMoreInput,
    /// A statement in a procedure or in a list gave a value that nothing
    /// takes.
    UnusedValue,
    /// An operand is no number.
    NotANumber,
    /// An operand is no word.
    NotAWord,
    /// An operand is no list.
    NotAList,
    /// A comparison of something that is neither a number nor a word.
    NotComparable,
    /// A node that holds something else in the place of its operator.
    BadOperator,
    /// `ITEM` with a number that is no place in the list. The subject is
    /// the length of the list.
    ItemOutOfRange,
    /// `TO` with a name that is reserved. The subject is the name.
    NameInUse,
    /// `TO` inside a definition. The subject is the name being defined.
    NestedDefinition,
    /// `END` outside a definition.
    EndWithoutTo,
    /// `TO` followed by something that is no name.
    NameMissing,
    /// `TO` with a formal that is no variable. The subject is the name.
    BadFormal,
    /// The host could not do what was asked. The subject is its text.
    Host,
    /// The host answered something that was not asked.
    Protocol,
    /// A line was fed while the interpreter waits for an answer.
    Busy,
}

/// The families of errors.
#[derive(Debug, Clone, Copy, PartialEq, Eq)]
pub enum Category {
    Lex,
    Parse,
    Name,
    Arity,
    Type,
    Definition,
    Host,
}

impl ErrorKind {
    /// The family of the error.
    pub open spec fn category_of(self) -> Category {
        match self {
            ErrorKind::Lex => Category::Lex,
            ErrorKind::Syntax(_) => Category::Parse,
            ErrorKind::UnknownProcedure | ErrorKind::UnknownVariable => Category::Name,
            ErrorKind::NeedMoreInput | ErrorKind::UnusedValue => Category::Arity,
            ErrorKind::NotANumber | ErrorKind::NotAWord | ErrorKind::NotAList
            | ErrorKind::NotComparable | ErrorKind::BadOperator | ErrorKind::ItemOutOfRange => Category::Type,
            ErrorKind::NameInUse | ErrorKind::NestedDefinition | ErrorKind::EndWithoutTo
            | ErrorKind::NameMissing | ErrorKind::BadFormal => Category::Definition,
            ErrorKind::Host | ErrorKind::Protocol | ErrorKind::Busy => Category::Host,
        }
    }

    /// What the text of the error says before its subject.
    pub open spec fn prefix_of(self) -> Seq<char> {
        match self {
            ErrorKind::Syntax(e) => e.message_of(),
            ErrorKind::UnknownProcedure => "Unknown function "@,
            ErrorKind::UnknownVariable => ":"@,
            ErrorKind::UnusedValue => "You don't say what to do with the output"@,
            ErrorKind::NotANumber => "Expr doesn't evaluate to a number"@,
            ErrorKind::NotAWord => "Expr doesn't evaluate to a word"@,
            ErrorKind::NotAList => "Expr doesn't evaluate to a list"@,
            ErrorKind::NotComparable => "The comparison procedure needs a name or number."@,
            ErrorKind::BadOperator => "Unknown operator"@,
            ErrorKind::ItemOutOfRange => "ITEM needs a number between 1 and "@,
            ErrorKind::NestedDefinition => "TO inside of function definition "@,
            ErrorKind::EndWithoutTo => "END without TO"@,
            ErrorKind::NameMissing => "The procedure TO needs a name as its first input."@,
            ErrorKind::BadFormal => "The procedure TO does not like an input of "@,
            ErrorKind::Protocol => "The host gave no answer to what was asked."@,
            ErrorKind::Busy => "The interpreter is waiting for an answer."@,
            ErrorKind::Lex | ErrorKind::NeedMoreInput | ErrorKind::NameInUse | ErrorKind::Host => ""@,
        }
    }

    /// What the text of the error says behind its subject.
    pub open spec fn suffix_of(self) -> Seq<char> {
        match self {
            ErrorKind::UnknownVariable => " is not a Logo name."@,
            ErrorKind::NeedMoreInput => " needs more input(s)."@,
            ErrorKind::ItemOutOfRange => " as its first input."@,
            ErrorKind::NameInUse => " is already in use. Try a different name."@,
            _ => ""@,
        }
    }
}

/// The mathematical picture of an error: its kind and its subject.
pub struct ErrorModel {
    pub kind: ErrorKind,
    pub subject: Seq<char>,
}

impl ErrorModel {
    /// The text of the error.
    pub open spec fn message_of(self) -> Seq<char> {
        self.kind.prefix_of() + self.subject + self.kind.suffix_of()
    }
}

/// The mathematical picture of a procedure of the user.
pub struct ProcedureModel {
    pub args: Seq<Seq<char>>,
    pub lines: Seq<AstModel>,
}

/// The mathematical picture of a procedure that is being called: its name,
/// and which built-in procedure it is, if it is one.
pub struct CalleeModel {
    pub name: Seq<char>,
    pub builtin: Option<Builtin>,
}

/// What is to be done with a value once it is there.
pub enum FrameModel {
    /// Go on with the statements in the top queue. A value ends them: as
    /// their result, or as an error where `strict`.
    Statements { strict: bool },
    /// The value is that of a parenthesis: drop what is left in it.
    Group,
    /// The value is an operand of which a kind is expected: evaluate it
    /// once more, then check it.
    Coerce(Kind),
    /// The value must be of the kind.
    Check(Kind),
    /// The value is the next operand of a call.
    Operands { callee: CalleeModel, collected: Seq<AstModel> },
    /// The value is that of a line of a procedure; `next` is the line to
    /// run next.
    Body { lines: Seq<AstModel>, next: int },
    /// The value is to be negated.
    Negate,
    /// The value is the left operand.
    BinaryLeft { op: Operator, right: AstModel },
    /// The value is the right operand.
    BinaryRight { op: Operator, left: AstModel },
    /// The value is the text of a number that is compared with a word.
    Respell { op: Operator, other: AstModel, first: bool },
    /// The value is the sum or product so far; `next` is the operand to
    /// take in next.
    NaryNext { op: Operator, list: Seq<AstModel>, next: int },
    /// The value is the operand number `next`.
    NaryFold { op: Operator, list: Seq<AstModel>, next: int, acc: AstModel },
    /// The value is the whole number of rounds of a `REPEAT`.
    RepeatCount { body: Seq<AstModel> },
    /// A round of a `REPEAT` is over.
    Repeat { remaining: i32, body: Seq<AstModel> },
    /// The value says whether a `FOR` goes on.
    ForTest { var: Seq<char>, current: AstModel, end: AstModel, body: Seq<AstModel> },
    /// A round of a `FOR` is over.
    ForStep { var: Seq<char>, current: AstModel, end: AstModel, body: Seq<AstModel> },
    /// The value is the next number of a `FOR`.
    ForNext { var: Seq<char>, end: AstModel, body: Seq<AstModel> },
    /// The value is where the turtle arrives.
    Arrive,
    /// The value is the distance of a move back, negated.
    Back,
    /// The value is the new heading.
    Head,
    /// The value is the whole number of an `ITEM`.
    Pick { list: Seq<AstModel> },
    /// The value is the lines of a file.
    Loaded,
    /// A line of a file is done; `next` is the line to run next. An error
    /// in a line ends that line only: the stacks are cut back to `queues`
    /// and `locals`.
    Feed { lines: Seq<AstModel>, next: int, queues: int, locals: int },
}

/// What the machine has in hand.
pub enum FocusModel {
    /// Nothing: the machine is at rest between two lines.
    Idle,
    /// A node to evaluate.
    Eval(AstModel),
    /// A value for the top frame.
    Value(AstModel),
    /// An error on its way up.
    Raise(ErrorModel),
    /// A request that the host has not answered yet.
    Ask(RequestModel),
    /// A call that gathers its operands.
    Call { callee: CalleeModel, collected: Seq<AstModel> },
}

/// How a line ended, or what the host is asked.
pub enum StatusModel {
    /// The line is done, with its value or an error.
    Done(Result<AstModel, ErrorModel>),
    /// The host is asked; evaluation goes on with its reply.
    Ask(RequestModel),
}

/// The state of the interpreter.
pub struct MachineModel {
    /// The tokens kept from lines that ended in a continuation.
    pub saved: Seq<TokenModel>,
    pub turtle: TurtleModel,
    /// The global variables.
    pub vars: Seq<(Seq<char>, AstModel)>,
    /// The local variables of the procedures that run, innermost last.
    pub locals: Seq<Seq<(Seq<char>, AstModel)>>,
    /// The expressions still to come of the lines, lists and parentheses
    /// that run, innermost last.
    pub queues: Seq<Seq<AstModel>>,
    /// The procedures of the user.
    pub procedures: Seq<(Seq<char>, ProcedureModel)>,
    /// The procedure that is being defined, between `TO` and `END`.
    pub definition: Option<(Seq<char>, ProcedureModel)>,
    pub control: Seq<FrameModel>,
    pub focus: FocusModel,
}

/// The word that stands for true.
pub open spec fn is_true(v: AstModel) -> bool {
    v == AstModel::Word("TRUE"@)
}

/// The single-precision value one, the start of a product.
pub open spec fn one() -> NumberModel {
    NumberModel::Real(0x3f80_0000)
}

/// The value is of the kind.
pub open spec fn fits(kind: Kind, v: AstModel) -> bool {
    match kind {
        Kind::Any => true,
        Kind::Number => v is Num,
        Kind::Word => v is Word,
        Kind::List => v is List,
    }
}

/// The error for a value that is not of the kind.
pub open spec fn mismatch(kind: Kind) -> ErrorKind {
    match kind {
        Kind::Word => ErrorKind::NotAWord,
        Kind::List => ErrorKind::NotAList,
        _ => ErrorKind::NotANumber,
    }
}

/// Whether the comparison holds of two texts, in the order of a dictionary.
pub open spec fn texts_compare(op: Operator, a: Seq<char>, b: Seq<char>) -> bool {
    match op {
        Operator::Less => text_before(a, b),
        Operator::LessEq => !text_before(b, a),
        Operator::Greater => text_before(b, a),
        Operator::GreaterEq => !text_before(a, b),
        _ => a == b,
    }
}

/// The name of the file that `LOAD` reads for a word: the word in lower
/// case, with `.lgo` at its end unless it is there.
pub open spec fn file_name(word: Seq<char>) -> Seq<char> {
    let lower = lowercase_of(word);
    if has_suffix(lower, ".lgo"@) {
        lower
    } else {
        lower + ".lgo"@
    }
}

/// The variables of a call: each formal with its value, in order; where a
/// formal stands twice, the later value stays.
pub open spec fn bind(formals: Seq<Seq<char>>, values: Seq<AstModel>, upto: int) -> Seq<
    (Seq<char>, AstModel),
>
    decreases upto,
{
    if upto <= 0 {
        Seq::empty()
    } else {
        assign(bind(formals, values, upto - 1), formals[upto - 1], values[upto - 1])
    }
}

/// A variable as `PONS` shows it: the list `[NAME is value]`.
pub open spec fn binding_shown(name: Seq<char>, v: AstModel) -> AstModel {
    AstModel::List(seq![AstModel::Word(name), AstModel::Word("is"@), v])
}

/// The variables of a table as `PONS` shows them.
pub open spec fn bindings_shown(t: Seq<(Seq<char>, AstModel)>) -> Seq<AstModel> {
    Seq::new(t.len(), |i: int| binding_shown(t[i].0, t[i].1))
}

/// The names as variables.
pub open spec fn as_vars(names: Seq<Seq<char>>) -> Seq<AstModel> {
    Seq::new(names.len(), |i: int| AstModel::Var(names[i]))
}

/// A procedure as `POPS` shows it: the list of `TO`, its name and its
/// formals, its lines, and `END`.
pub open spec fn procedure_shown(name: Seq<char>, p: ProcedureModel) -> AstModel {
    AstModel::List(
        seq![AstModel::Word("TO"@), AstModel::Word(name)] + as_vars(p.args) + p.lines
            + seq![AstModel::Word("END"@)],
    )
}

/// The procedures of a table as `POPS` shows them.
pub open spec fn procedures_shown(t: Seq<(Seq<char>, ProcedureModel)>) -> Seq<AstModel> {
    Seq::new(t.len(), |i: int| procedure_shown(t[i].0, t[i].1))
}

/// Every node is a variable.
pub open spec fn all_vars(q: Seq<AstModel>) -> bool {
    forall|i: int| 0 <= i < q.len() ==> (#[trigger] q[i]) is Var
}

/// The names of a sequence of variables.
pub open spec fn var_names(q: Seq<AstModel>) -> Seq<Seq<char>> {
    Seq::new(q.len(), |i: int| q[i]->Var_0)
}

/// The line starts with a call of `name`.
pub open spec fn starts_with(ast: AstModel, name: Seq<char>) -> bool {
    ast matches AstModel::ExprLine(l) && l.len() > 0 && l[0] == AstModel::Function(name)
}

/// The line is a call of `name` and nothing else.
pub open spec fn is_just(ast: AstModel, name: Seq<char>) -> bool {
    ast matches AstModel::ExprLine(l) && l.len() == 1 && l[0] == AstModel::Function(name)
}

/// What the parser makes of a line of text, given the tokens it has kept:
/// the tokens it keeps then, and the tree or the error.
pub open spec fn parsed(saved: Seq<TokenModel>, input: Seq<char>) -> (
    Seq<TokenModel>,
    Result<AstModel, ErrorModel>,
) {
    match tokens_of(input) {
        Err(at) => (
            saved,
            Err(
                ErrorModel {
                    kind: ErrorKind::Lex,
                    subject: lex_message(
                        at as nat,
                        terminated(input)[at],
                        terminated(input),
                    ),
                },
            ),
        ),
        Ok(ts) => if ts.last() is LineCont {
            (saved + ts.drop_last(), Ok(AstModel::Empty))
        } else {
            (
                Seq::empty(),
                match line_of(saved + ts) {
                    Ok(m) => Ok(m),
                    Err(e) => Err(ErrorModel { kind: ErrorKind::Syntax(e), subject: Seq::empty() }),
                },
            )
        },
    }
}

impl MachineModel {
    /// The machine with another focus.
    pub open spec fn with_focus(self, focus: FocusModel) -> MachineModel {
        MachineModel { focus, ..self }
    }

    /// The machine with nothing in hand.
    pub open spec fn idle(self) -> MachineModel {
        self.with_focus(FocusModel::Idle)
    }

    pub open spec fn value(self, v: AstModel) -> MachineModel {
        self.with_focus(FocusModel::Value(v))
    }

    pub open spec fn eval(self, a: AstModel) -> MachineModel {
        self.with_focus(FocusModel::Eval(a))
    }

    pub open spec fn raise(self, kind: ErrorKind, subject: Seq<char>) -> MachineModel {
        self.with_focus(FocusModel::Raise(ErrorModel { kind, subject }))
    }

    pub open spec fn ask(self, request: RequestModel) -> MachineModel {
        self.with_focus(FocusModel::Ask(request))
    }

    pub open spec fn call(self, callee: CalleeModel, collected: Seq<AstModel>) -> MachineModel {
        self.with_focus(FocusModel::Call { callee, collected })
    }

    pub open spec fn push(self, frame: FrameModel) -> MachineModel {
        MachineModel { control: self.control.push(frame), ..self }
    }

    /// The machine without its top frame.
    pub open spec fn pop(self) -> MachineModel {
        if self.control.len() > 0 {
            MachineModel { control: self.control.drop_last(), ..self }
        } else {
            self
        }
    }

    pub open spec fn push_queue(self, queue: Seq<AstModel>) -> MachineModel {
        MachineModel { queues: self.queues.push(queue), ..self }
    }

    pub open spec fn pop_queue(self) -> MachineModel {
        if self.queues.len() > 0 {
            MachineModel { queues: self.queues.drop_last(), ..self }
        } else {
            self
        }
    }

    /// The next expression of the top queue, if there is one.
    pub open spec fn next_expr(self) -> Option<AstModel> {
        if self.queues.len() > 0 && self.queues.last().len() > 0 {
            Some(self.queues.last()[0])
        } else {
            None
        }
    }

    /// The machine without the next expression of the top queue.
    pub open spec fn drop_expr(self) -> MachineModel {
        if self.queues.len() > 0 && self.queues.last().len() > 0 {
            MachineModel {
                queues: self.queues.update(
                    self.queues.len() - 1,
                    self.queues.last().drop_first(),
                ),
                ..self
            }
        } else {
            self
        }
    }

    pub open spec fn push_locals(self, table: Seq<(Seq<char>, AstModel)>) -> MachineModel {
        MachineModel { locals: self.locals.push(table), ..self }
    }

    pub open spec fn pop_locals(self) -> MachineModel {
        if self.locals.len() > 0 {
            MachineModel { locals: self.locals.drop_last(), ..self }
        } else {
            self
        }
    }

    pub open spec fn with_turtle(self, turtle: TurtleModel) -> MachineModel {
        MachineModel { turtle, ..self }
    }

    /// The stacks cut back to the given heights.
    pub open spec fn cut(self, queues: int, locals: int) -> MachineModel {
        MachineModel {
            queues: if 0 <= queues < self.queues.len() {
                self.queues.take(queues)
            } else {
                self.queues
            },
            locals: if 0 <= locals < self.locals.len() {
                self.locals.take(locals)
            } else {
                self.locals
            },
            ..self
        }
    }

    /// The variables as `PONS` shows them: those of the innermost procedure
    /// that runs, then the global ones.
    pub open spec fn variables_shown(self) -> AstModel {
        AstModel::List(
            seq![AstModel::Word("Locals:"@)] + bindings_shown(
                if self.locals.len() > 0 {
                    self.locals.last()
                } else {
                    Seq::empty()
                },
            ) + seq![AstModel::Word("Globals:"@)] + bindings_shown(self.vars),
        )
    }

    /// The value of a variable: that of the innermost procedure that runs,
    /// if it has the name, else the global one.
    pub open spec fn variable(self, name: Seq<char>) -> Option<AstModel> {
        if self.locals.len() > 0 && lookup(self.locals.last(), name) is Some {
            lookup(self.locals.last(), name)
        } else {
            lookup(self.vars, name)
        }
    }

    /// The machine after `name` was given a value: the variable of the
    /// innermost procedure that runs, if it has the name, else the global
    /// one.
    pub open spec fn assign_var(self, name: Seq<char>, v: AstModel) -> MachineModel {
        if self.locals.len() > 0 && lookup(self.locals.last(), name) is Some {
            MachineModel {
                locals: self.locals.update(
                    self.locals.len() - 1,
                    assign(self.locals.last(), name, v),
                ),
                ..self
            }
        } else {
            MachineModel { vars: assign(self.vars, name, v), ..self }
        }
    }

    /// How many operands the callee takes.
    pub open spec fn arity(self, callee: CalleeModel) -> int {
        match callee.builtin {
            Some(b) => b.kinds().len() as int,
            None => match lookup(self.procedures, callee.name) {
                Some(p) => p.args.len() as int,
                None => 0,
            },
        }
    }

    /// A definition starts: `TO` takes the name behind it and the formals
    /// behind that, which is all that is left of the line.
    pub open spec fn define_step(self) -> MachineModel {
        match self.next_expr() {
            None => self.raise(ErrorKind::NeedMoreInput, "TO"@),
            Some(AstModel::Function(name)) => {
                let rest = self.queues.last().drop_first();
                if is_reserved(name) {
                    self.raise(ErrorKind::NameInUse, name)
                } else if !all_vars(rest) {
                    self.raise(ErrorKind::BadFormal, name)
                } else {
                    MachineModel {
                        definition: Some(
                            (name, ProcedureModel { args: var_names(rest), lines: Seq::empty() }),
                        ),
                        queues: self.queues.update(self.queues.len() - 1, Seq::empty()),
                        ..self
                    }.value(AstModel::Empty)
                }
            },
            Some(_) => self.raise(ErrorKind::NameMissing, Seq::empty()),
        }
    }

    /// A line arrives. Inside a definition it is kept unless it ends the
    /// definition or starts another; outside it is evaluated.
    pub open spec fn accept(self, ast: AstModel) -> MachineModel {
        if ast is Empty {
            self.value(AstModel::Empty)
        } else {
            match self.definition {
                Some((name, p)) => if starts_with(ast, "TO"@) {
                    self.raise(ErrorKind::NestedDefinition, name)
                } else if is_just(ast, "END"@) {
                    MachineModel {
                        procedures: assign(self.procedures, name, p),
                        definition: None,
                        ..self
                    }.value(AstModel::Empty)
                } else {
                    MachineModel {
                        definition: Some(
                            (name, ProcedureModel { lines: p.lines.push(ast), ..p }),
                        ),
                        ..self
                    }.value(AstModel::Empty)
                },
                None => self.eval(ast),
            }
        }
    }

    /// A node is evaluated.
    pub open spec fn eval_step(self, node: AstModel) -> MachineModel {
        match node {
            AstModel::Num(_) | AstModel::Word(_) | AstModel::List(_) => self.value(node),
            AstModel::Var(name) => match self.variable(name) {
                Some(v) => self.value(v),
                None => self.raise(ErrorKind::UnknownVariable, name),
            },
            AstModel::Function(name) => {
                if name == "TO"@ {
                    self.define_step()
                } else if name == "END"@ {
                    self.raise(ErrorKind::EndWithoutTo, Seq::empty())
                } else if Builtin::named(name) is Some {
                    self.call(CalleeModel { name, builtin: Builtin::named(name) }, Seq::empty())
                } else if lookup(self.procedures, name) is Some {
                    self.call(CalleeModel { name, builtin: None }, Seq::empty())
                } else {
                    self.raise(ErrorKind::UnknownProcedure, name)
                }
            },
            AstModel::ExprLine(list) => self.push_queue(list).push(
                FrameModel::Statements { strict: false },
            ).value(AstModel::Empty),
            AstModel::Parens(list) => if list.len() == 0 {
                self.value(AstModel::List(Seq::empty()))
            } else {
                self.push_queue(list.drop_first()).push(FrameModel::Group).eval(list[0])
            },
            AstModel::Negation(operand) => self.push(FrameModel::Negate).push(
                FrameModel::Check(Kind::Number),
            ).eval(*operand),
            AstModel::Binary(t, l, r) => match Operator::of(t) {
                None => self.raise(ErrorKind::BadOperator, Seq::empty()),
                Some(op) => self.operand(FrameModel::BinaryLeft { op, right: *r }, op, *l),
            },
            AstModel::Nary(t, list) => match Operator::of(t) {
                Some(Operator::Plus) => self.push(
                    FrameModel::NaryNext { op: Operator::Plus, list, next: 0 },
                ).value(AstModel::Num(NumberModel::Real(0))),
                Some(Operator::Multiply) => self.push(
                    FrameModel::NaryNext { op: Operator::Multiply, list, next: 0 },
                ).value(AstModel::Num(one())),
                _ => self.raise(ErrorKind::BadOperator, Seq::empty()),
            },
            AstModel::FunctionReturn(_) | AstModel::Empty => self.value(AstModel::Empty),
        }
    }

    /// An operand of `op` is evaluated, with `frame` to take its value. An
    /// operand of arithmetic must be a number.
    pub open spec fn operand(self, frame: FrameModel, op: Operator, node: AstModel) -> MachineModel {
        if op.is_comparison() {
            self.push(frame).eval(node)
        } else {
            self.push(frame).push(FrameModel::Check(Kind::Number)).eval(node)
        }
    }

    /// A call goes on: with all its operands it is applied, else it takes
    /// the next expression of the line as its next operand. Where the line
    /// is used up, that is an error.
    pub open spec fn gather_step(self, callee: CalleeModel, collected: Seq<AstModel>) -> MachineModel {
        if collected.len() >= self.arity(callee) {
            match callee.builtin {
                Some(b) => self.apply(b, collected),
                None => self.enter(callee.name, collected),
            }
        } else {
            match self.next_expr() {
                None => self.raise(ErrorKind::NeedMoreInput, callee.name),
                Some(e) => {
                    let m = self.drop_expr().push(FrameModel::Operands { callee, collected });
                    let kind = match callee.builtin {
                        Some(b) => b.kinds()[collected.len() as int],
                        None => Kind::Any,
                    };
                    if kind is Any {
                        m.eval(e)
                    } else {
                        m.push(FrameModel::Coerce(kind)).eval(e)
                    }
                },
            }
        }
    }

    /// A procedure of the user is entered: its formals become the
    /// variables of a new scope, and its lines run in a new queue.
    pub open spec fn enter(self, name: Seq<char>, args: Seq<AstModel>) -> MachineModel {
        match lookup(self.procedures, name) {
            None => self.raise(ErrorKind::UnknownProcedure, name),
            Some(p) => self.push_locals(bind(p.args, args, p.args.len() as int)).push_queue(
                Seq::empty(),
            ).push(FrameModel::Body { lines: p.lines, next: 0 }).value(AstModel::Empty),
        }
    }

    /// A list of statements starts, with `frame` to go on behind it.
    pub open spec fn block(self, frame: FrameModel, body: Seq<AstModel>) -> MachineModel {
        self.push(frame).push_queue(body).push(FrameModel::Statements { strict: true }).value(
            AstModel::Empty,
        )
    }

    /// Two values are compared: numbers by the host, words here, and a
    /// number with a word as two words, once the host has spelled the
    /// number.
    pub open spec fn compare(self, op: Operator, l: AstModel, r: AstModel) -> MachineModel {
        match (l, r) {
            (AstModel::Num(a), AstModel::Num(b)) => self.ask(RequestModel::Compare(op, a, b)),
            (AstModel::Num(a), AstModel::Word(_)) => self.push(
                FrameModel::Respell { op, other: r, first: true },
            ).ask(RequestModel::Spell(a)),
            (AstModel::Word(_), AstModel::Num(b)) => self.push(
                FrameModel::Respell { op, other: l, first: false },
            ).ask(RequestModel::Spell(b)),
            (AstModel::Word(a), AstModel::Word(b)) => self.value(
                crate::host::truth_word(texts_compare(op, a, b)),
            ),
            _ => self.raise(ErrorKind::NotComparable, Seq::empty()),
        }
    }

    /// The turtle is asked where it stands after `distance` steps.
    pub open spec fn advance(self, distance: NumberModel) -> MachineModel {
        self.push(FrameModel::Arrive).ask(self.turtle.ahead(distance))
    }

    /// A built-in procedure is applied to its operands.
    pub open spec fn apply(self, b: Builtin, args: Seq<AstModel>) -> MachineModel {
        match b {
            Builtin::Print => self.ask(RequestModel::Print(args[0])),
            Builtin::Pops => self.ask(
                RequestModel::Print(AstModel::List(procedures_shown(self.procedures))),
            ),
            Builtin::Pons => self.ask(RequestModel::Print(self.variables_shown())),
            Builtin::Output => self.value(AstModel::FunctionReturn(Box::new(args[0]))),
            Builtin::Load => match args[0] {
                AstModel::Word(w) => self.push(FrameModel::Loaded).ask(
                    RequestModel::Load(file_name(w)),
                ),
                _ => self.raise(ErrorKind::NotAWord, Seq::empty()),
            },
            Builtin::Make => match args[0] {
                AstModel::Word(w) => self.assign_var(w, args[1]).value(AstModel::Empty),
                _ => self.raise(ErrorKind::NotAWord, Seq::empty()),
            },
            Builtin::Lput => match (args[0], args[1]) {
                (AstModel::List(item), AstModel::List(list)) => self.value(
                    AstModel::List(list.push(args[0])),
                ),
                _ => self.raise(ErrorKind::NotAList, Seq::empty()),
            },
            Builtin::Item => match (args[0], args[1]) {
                (AstModel::Num(n), AstModel::List(list)) => self.push(
                    FrameModel::Pick { list },
                ).ask(RequestModel::Truncate(n)),
                _ => self.raise(ErrorKind::NotANumber, Seq::empty()),
            },
            Builtin::List => self.value(AstModel::List(seq![args[0], args[1]])),
            Builtin::Repeat => match (args[0], args[1]) {
                (AstModel::Num(n), AstModel::List(body)) => self.push(
                    FrameModel::RepeatCount { body },
                ).ask(RequestModel::Truncate(n)),
                _ => self.raise(ErrorKind::NotANumber, Seq::empty()),
            },
            Builtin::For => match (args[0], args[1], args[2], args[3]) {
                (
                    AstModel::Word(var),
                    AstModel::Num(a),
                    AstModel::Num(b),
                    AstModel::List(body),
                ) => self.push(
                    FrameModel::ForTest { var, current: args[1], end: args[2], body },
                ).ask(RequestModel::Compare(Operator::LessEq, a, b)),
                _ => self.raise(ErrorKind::NotANumber, Seq::empty()),
            },
            Builtin::SetXY => match args[0] {
                AstModel::List(list) => self.push_queue(list).call(
                    CalleeModel { name: "SETXY"@, builtin: Some(Builtin::Place) },
                    Seq::empty(),
                ),
                _ => self.raise(ErrorKind::NotAList, Seq::empty()),
            },
            Builtin::Place => match (args[0], args[1]) {
                (AstModel::Num(x), AstModel::Num(y)) => self.pop_queue().with_turtle(
                    self.turtle.moved_to(x, y),
                ).value(AstModel::Empty),
                _ => self.raise(ErrorKind::NotANumber, Seq::empty()),
            },
            Builtin::GetXY => self.value(
                AstModel::List(seq![AstModel::Num(self.turtle.x), AstModel::Num(self.turtle.y)]),
            ),
            Builtin::SetHeading => match args[0] {
                AstModel::Num(h) => self.with_turtle(self.turtle.turned_to(h)).value(
                    AstModel::Empty,
                ),
                _ => self.raise(ErrorKind::NotANumber, Seq::empty()),
            },
            Builtin::SetX => match args[0] {
                AstModel::Num(x) => self.with_turtle(self.turtle.moved_to(x, self.turtle.y)).value(
                    AstModel::Empty,
                ),
                _ => self.raise(ErrorKind::NotANumber, Seq::empty()),
            },
            Builtin::SetY => match args[0] {
                AstModel::Num(y) => self.with_turtle(self.turtle.moved_to(self.turtle.x, y)).value(
                    AstModel::Empty,
                ),
                _ => self.raise(ErrorKind::NotANumber, Seq::empty()),
            },
            Builtin::Heading => self.value(AstModel::Num(self.turtle.heading)),
            Builtin::XCor => self.value(AstModel::Num(self.turtle.x)),
            Builtin::YCor => self.value(AstModel::Num(self.turtle.y)),
            Builtin::Forward => match args[0] {
                AstModel::Num(d) => self.advance(d),
                _ => self.raise(ErrorKind::NotANumber, Seq::empty()),
            },
            Builtin::Back => match args[0] {
                AstModel::Num(d) => self.push(FrameModel::Back).ask(RequestModel::Negate(d)),
                _ => self.raise(ErrorKind::NotANumber, Seq::empty()),
            },
            Builtin::Right => match args[0] {
                AstModel::Num(a) => self.push(FrameModel::Head).ask(self.turtle.right(a)),
                _ => self.raise(ErrorKind::NotANumber, Seq::empty()),
            },
            Builtin::Left => match args[0] {
                AstModel::Num(a) => self.push(FrameModel::Head).ask(self.turtle.left(a)),
                _ => self.raise(ErrorKind::NotANumber, Seq::empty()),
            },
            Builtin::ClearScreen => self.with_turtle(self.turtle.at_home().wiped()).value(
                AstModel::Empty,
            ),
            Builtin::Clean => self.with_turtle(self.turtle.wiped()).value(AstModel::Empty),
            Builtin::Home => self.with_turtle(self.turtle.at_home()).value(AstModel::Empty),
            Builtin::PenDown => self.with_turtle(self.turtle.with_pen(true)).value(
                AstModel::Empty,
            ),
            Builtin::PenUp => self.with_turtle(self.turtle.with_pen(false)).value(
                AstModel::Empty,
            ),
        }
    }

    /// The next line of a file is taken: parsed, then kept or evaluated as
    /// any line. What is wrong with it is shown to the user, and the file
    /// goes on.
    pub open spec fn feed_step(self, lines: Seq<AstModel>, next: int, queues: int, locals: int) -> MachineModel {
        let frame = FrameModel::Feed { lines, next: next + 1, queues, locals };
        match lines[next] {
            AstModel::Word(text) => {
                let (saved, r) = parsed(self.saved, text);
                let m = MachineModel { saved, ..self }.push(frame);
                match r {
                    Err(e) => m.ask(RequestModel::Print(AstModel::Word(e.message_of()))),
                    Ok(ast) => m.accept(ast),
                }
            },
            _ => self.push(frame).value(AstModel::Empty),
        }
    }

    /// The top frame, already taken off, takes the value `v`.
    pub open spec fn resume_step(self, frame: FrameModel, v: AstModel) -> MachineModel {
        match frame {
            FrameModel::Statements { strict } => {
                if !(v is Empty) {
                    if strict {
                        self.pop_queue().raise(ErrorKind::UnusedValue, Seq::empty())
                    } else {
                        self.pop_queue().value(v)
                    }
                } else {
                    match self.next_expr() {
                        None => self.pop_queue().value(AstModel::Empty),
                        Some(e) => self.drop_expr().push(frame).eval(e),
                    }
                }
            },
            FrameModel::Group => self.pop_queue().value(v),
            FrameModel::Coerce(kind) => self.push(FrameModel::Check(kind)).eval(v),
            FrameModel::Check(kind) => if fits(kind, v) {
                self.value(v)
            } else {
                self.raise(mismatch(kind), Seq::empty())
            },
            FrameModel::Operands { callee, collected } => self.call(callee, collected.push(v)),
            FrameModel::Body { lines, next } => match v {
                AstModel::FunctionReturn(x) => self.pop_locals().pop_queue().value(*x),
                AstModel::Empty => if 0 <= next < lines.len() {
                    self.push(FrameModel::Body { lines, next: next + 1 }).eval(lines[next])
                } else {
                    self.pop_locals().pop_queue().value(AstModel::Empty)
                },
                _ => self.pop_locals().pop_queue().raise(ErrorKind::UnusedValue, Seq::empty()),
            },
            FrameModel::Negate => match v {
                AstModel::Num(n) => self.ask(RequestModel::Negate(n)),
                _ => self.raise(ErrorKind::NotANumber, Seq::empty()),
            },
            FrameModel::BinaryLeft { op, right } => self.operand(
                FrameModel::BinaryRight { op, left: v },
                op,
                right,
            ),
            FrameModel::BinaryRight { op, left } => if op.is_comparison() {
                self.compare(op, left, v)
            } else {
                match (left, v) {
                    (AstModel::Num(a), AstModel::Num(b)) => self.ask(
                        RequestModel::Arithmetic(op, a, b),
                    ),
                    _ => self.raise(ErrorKind::NotANumber, Seq::empty()),
                }
            },
            FrameModel::Respell { op, other, first } => if first {
                self.compare(op, v, other)
            } else {
                self.compare(op, other, v)
            },
            FrameModel::NaryNext { op, list, next } => if 0 <= next < list.len() {
                self.push(FrameModel::NaryFold { op, list, next, acc: v }).push(
                    FrameModel::Check(Kind::Number),
                ).eval(list[next])
            } else {
                self.value(v)
            },
            FrameModel::NaryFold { op, list, next, acc } => match (acc, v) {
                (AstModel::Num(a), AstModel::Num(b)) => if 0 <= next < list.len() {
                    self.push(FrameModel::NaryNext { op, list, next: next + 1 }).ask(
                        RequestModel::Arithmetic(op, a, b),
                    )
                } else {
                    self.raise(ErrorKind::NotANumber, Seq::empty())
                },
                _ => self.raise(ErrorKind::NotANumber, Seq::empty()),
            },
            FrameModel::RepeatCount { body } => match v {
                AstModel::Num(NumberModel::Int(n)) => self.push(
                    FrameModel::Repeat { remaining: n, body },
                ).value(AstModel::Empty),
                _ => self.raise(ErrorKind::Protocol, Seq::empty()),
            },
            FrameModel::Repeat { remaining, body } => if remaining > 0 {
                self.block(FrameModel::Repeat { remaining: (remaining - 1) as i32, body }, body)
            } else {
                self.value(AstModel::Empty)
            },
            FrameModel::ForTest { var, current, end, body } => if is_true(v) {
                self.assign_var(var, current).block(
                    FrameModel::ForStep { var, current, end, body },
                    body,
                )
            } else {
                self.value(AstModel::Empty)
            },
            FrameModel::ForStep { var, current, end, body } => match current {
                AstModel::Num(c) => self.push(FrameModel::ForNext { var, end, body }).ask(
                    RequestModel::Arithmetic(Operator::Plus, c, one()),
                ),
                _ => self.raise(ErrorKind::NotANumber, Seq::empty()),
            },
            FrameModel::ForNext { var, end, body } => match (v, end) {
                (AstModel::Num(c), AstModel::Num(e)) => self.push(
                    FrameModel::ForTest { var, current: v, end, body },
                ).ask(RequestModel::Compare(Operator::LessEq, c, e)),
                _ => self.raise(ErrorKind::NotANumber, Seq::empty()),
            },
            FrameModel::Arrive => match v {
                AstModel::List(p) => if p.len() == 2 && p[0] is Num && p[1] is Num {
                    self.with_turtle(self.turtle.moved_to(p[0]->Num_0, p[1]->Num_0)).value(
                        AstModel::Empty,
                    )
                } else {
                    self.raise(ErrorKind::Protocol, Seq::empty())
                },
                _ => self.raise(ErrorKind::Protocol, Seq::empty()),
            },
            FrameModel::Back => match v {
                AstModel::Num(d) => self.advance(d),
                _ => self.raise(ErrorKind::Protocol, Seq::empty()),
            },
            FrameModel::Head => match v {
                AstModel::Num(h) => self.with_turtle(self.turtle.turned_to(h)).value(
                    AstModel::Empty,
                ),
                _ => self.raise(ErrorKind::Protocol, Seq::empty()),
            },
            FrameModel::Pick { list } => match v {
                AstModel::Num(NumberModel::Int(i)) => if 1 <= i <= list.len() {
                    self.value(list[i - 1])
                } else {
                    self.raise(ErrorKind::ItemOutOfRange, decimal_of(list.len()))
                },
                _ => self.raise(ErrorKind::Protocol, Seq::empty()),
            },
            FrameModel::Loaded => match v {
                AstModel::List(lines) => self.push(
                    FrameModel::Feed {
                        lines,
                        next: 0,
                        queues: self.queues.len() as int,
                        locals: self.locals.len() as int,
                    },
                ).value(AstModel::Empty),
                _ => self.raise(ErrorKind::Protocol, Seq::empty()),
            },
            FrameModel::Feed { lines, next, queues, locals } => if !(v is Empty) {
                self.push(frame).ask(RequestModel::Print(v))
            } else if 0 <= next < lines.len() {
                self.feed_step(lines, next, queues, locals)
            } else {
                self.value(AstModel::Empty)
            },
        }
    }

    /// The top frame, already taken off, meets an error. Only the frame of
    /// a file stops it: the line of the file ends there, the error is shown
    /// to the user, and the file goes on.
    pub open spec fn unwind_step(self, frame: FrameModel, e: ErrorModel) -> MachineModel {
        match frame {
            FrameModel::Feed { lines, next, queues, locals } => self.cut(queues, locals).push(
                frame,
            ).ask(RequestModel::Print(AstModel::Word(e.message_of()))),
            _ => self.with_focus(FocusModel::Raise(e)),
        }
    }

    /// There is a step to take: the machine neither rests nor waits.
    pub open spec fn active(self) -> bool {
        match self.focus {
            FocusModel::Eval(_) | FocusModel::Call { .. } => true,
            FocusModel::Value(_) | FocusModel::Raise(_) => self.control.len() > 0,
            FocusModel::Idle | FocusModel::Ask(_) => false,
        }
    }

    /// One step of the machine.
    pub open spec fn step(self) -> MachineModel {
        let m = self.idle();
        match self.focus {
            FocusModel::Eval(node) => m.eval_step(node),
            FocusModel::Call { callee, collected } => m.gather_step(callee, collected),
            FocusModel::Value(v) => if self.control.len() > 0 {
                m.pop().resume_step(self.control.last(), v)
            } else {
                self
            },
            FocusModel::Raise(e) => if self.control.len() > 0 {
                m.pop().unwind_step(self.control.last(), e)
            } else {
                self
            },
            FocusModel::Idle | FocusModel::Ask(_) => self,
        }
    }

    /// At most `budget` steps of the machine.
    pub open spec fn run(self, budget: nat) -> MachineModel
        decreases budget,
    {
        if budget == 0 || !self.active() {
            self
        } else {
            self.step().run((budget - 1) as nat)
        }
    }

    /// The machine at rest between two lines: nothing in hand, and nothing
    /// on its stacks.
    pub open spec fn rest(self) -> MachineModel {
        MachineModel {
            focus: FocusModel::Idle,
            queues: Seq::empty(),
            locals: Seq::empty(),
            control: Seq::empty(),
            ..self
        }
    }

    /// The machine is at rest.
    pub open spec fn at_rest(self) -> bool {
        self.focus is Idle && self.queues.len() == 0 && self.locals.len() == 0
            && self.control.len() == 0
    }

    /// What the host is told when the machine stops running, and the
    /// machine then: with a value or an error and no frame left the line is
    /// done and the machine comes to rest; with a request the host is
    /// asked; with steps still to take the host is asked to pause.
    pub open spec fn settled(self) -> (MachineModel, StatusModel) {
        match self.focus {
            FocusModel::Ask(r) => (self, StatusModel::Ask(r)),
            FocusModel::Value(v) => if self.control.len() == 0 {
                (self.rest(), StatusModel::Done(Ok(v)))
            } else {
                (self, StatusModel::Ask(RequestModel::Pause))
            },
            FocusModel::Raise(e) => if self.control.len() == 0 {
                (self.rest(), StatusModel::Done(Err(e)))
            } else {
                (self, StatusModel::Ask(RequestModel::Pause))
            },
            FocusModel::Idle => (self.rest(), StatusModel::Done(Ok(AstModel::Empty))),
            _ => (self, StatusModel::Ask(RequestModel::Pause)),
        }
    }

    /// The machine after a line of text was handed to it, before it runs.
    pub open spec fn fed(self, input: Seq<char>) -> MachineModel {
        let (saved, r) = parsed(self.saved, input);
        let m = MachineModel { saved, ..self };
        match r {
            Err(e) => m.with_focus(FocusModel::Raise(e)),
            Ok(ast) => m.accept(ast),
        }
    }

    /// The machine after the host has answered, before it runs on. A reply
    /// that answers the request gives its value; that a file cannot be read
    /// is an error of the program; any other reply is an error of the
    /// host. A machine that paused goes on whatever the reply.
    pub open spec fn answered(self, reply: ReplyModel) -> MachineModel {
        match self.focus {
            FocusModel::Ask(request) => match answer(request, reply) {
                Some(v) => self.value(v),
                None => match (request, reply) {
                    (RequestModel::Load(_), ReplyModel::Failure(text)) => self.raise(
                        ErrorKind::Host,
                        text,
                    ),
                    _ => self.raise(ErrorKind::Protocol, Seq::empty()),
                },
            },
            _ => self,
        }
    }
}

/// A built-in procedure that finds the line used up before it has all its
/// operands fails: it needs more input.
pub proof fn lemma_too_few_operands(m: MachineModel, name: Seq<char>, b: Builtin, collected: Seq<AstModel>)
    requires
        collected.len() < b.kinds().len(),
        m.next_expr() is None,
    ensures
        m.gather_step(CalleeModel { name, builtin: Some(b) }, collected).focus == FocusModel::Raise(
            ErrorModel { kind: ErrorKind::NeedMoreInput, subject: name },
        ),
{
}

/// A built-in procedure takes no more from the line than it has operands:
/// with all of them it is applied, and the line is left as it is.
pub proof fn lemma_enough_operands(m: MachineModel, name: Seq<char>, b: Builtin, collected: Seq<AstModel>)
    requires
        collected.len() == b.kinds().len(),
    ensures
        m.gather_step(CalleeModel { name, builtin: Some(b) }, collected) == m.apply(b, collected),
{
}

/// `MAKE` inside a procedure that has the name as a variable changes that
/// variable and leaves the global variables alone.
pub proof fn lemma_make_local(m: MachineModel, name: Seq<char>, v: AstModel)
    requires
        m.locals.len() > 0,
        lookup(m.locals.last(), name) is Some,
    ensures
        m.apply(Builtin::Make, seq![AstModel::Word(name), v]) == m.assign_var(name, v).value(
            AstModel::Empty,
        ),
        m.assign_var(name, v).vars == m.vars,
        m.assign_var(name, v).variable(name) == Some(v),
        m.assign_var(name, v).locals.len() == m.locals.len(),
        forall|other: Seq<char>|
            other != name ==> #[trigger] m.assign_var(name, v).variable(other) == m.variable(
                other,
            ),
{
    crate::table::lemma_assign_same(m.locals.last(), name, v);
    assert forall|other: Seq<char>| other != name implies #[trigger] m.assign_var(
        name,
        v,
    ).variable(other) == m.variable(other) by {
        crate::table::lemma_assign_other(m.locals.last(), name, v, other);
    }
}

/// `MAKE` where no procedure runs, or where the innermost one does not have
/// the name, changes the global variable and leaves the local ones alone.
pub proof fn lemma_make_global(m: MachineModel, name: Seq<char>, v: AstModel)
    requires
        m.locals.len() == 0 || lookup(m.locals.last(), name) is None,
    ensures
        m.apply(Builtin::Make, seq![AstModel::Word(name), v]) == m.assign_var(name, v).value(
            AstModel::Empty,
        ),
        m.assign_var(name, v).locals == m.locals,
        lookup(m.assign_var(name, v).vars, name) == Some(v),
        m.assign_var(name, v).variable(name) == Some(v),
        forall|other: Seq<char>|
            other != name ==> #[trigger] lookup(m.assign_var(name, v).vars, other) == lookup(
                m.vars,
                other,
            ),
{
    crate::table::lemma_assign_same(m.vars, name, v);
    assert forall|other: Seq<char>| other != name implies #[trigger] lookup(
        m.assign_var(name, v).vars,
        other,
    ) == lookup(m.vars, other) by {
        crate::table::lemma_assign_other(m.vars, name, v, other);
    }
}

/// When a line is done the machine is at rest: nothing is left on its
/// stacks.
pub proof fn lemma_done_at_rest(m: MachineModel)
    ensures
        m.settled().1 is Done ==> m.settled().0.at_rest(),
{
}

} // verus!
