//! The evaluator: the machine of [`crate::machine`], made to run.
//!
//! A host feeds it one line of text at a time. Each call runs the machine
//! until the line is done or the host is asked for something, and says
//! which. The host does what is asked and hands the reply to `resume`.
use std::collections::VecDeque;
use vstd::prelude::*;
use crate::balance::{balanced, lemma_answered, lemma_fed, lemma_run, lemma_settled};
use crate::builtin::{reserved, Builtin, Kind};
use crate::host::{texts, truth, value_of, Operator, Reply, Request};
use crate::machine::{
    all_vars, as_vars, bind, binding_shown, bindings_shown, file_name, fits, is_just, mismatch,
    parsed, procedure_shown, procedures_shown, starts_with, texts_compare, var_names,
    CalleeModel, Category, ErrorKind, ErrorModel, FocusModel, FrameModel, MachineModel,
    ProcedureModel, StatusModel,
};
use crate::number::Number;
use crate::parser::{
    ast_models, copy_list, lemma_models, lemma_models_push, AstModel, ListType, ParseError,
    Parser, AST,
};
use crate::sound::{drawing_sound, lemma_assign_var, request_sound, sound};
use crate::table::{assign, lemma_assign_same, lookup, Table};
use crate::text::{
    chars_of, comes_before, decimal_text, lowercase, push_all, same_text, string_of,
    with_extension,
};
use crate::turtle::{Graphics, Turtle, TurtleModel};

verus! {

broadcast use {vstd::std_specs::vecdeque::group_vec_dequeue_axioms, crate::parser::group_ast_models};

/// Why a line failed: the kind of the error, and the name or text that it
/// is about.
#[derive(Debug, Clone, PartialEq)]
pub struct EvalError {
    pub kind: ErrorKind,
    pub subject: String,
}

impl View for EvalError {
    type V = ErrorModel;

    open spec fn view(&self) -> ErrorModel {
        ErrorModel { kind: self.kind, subject: self.subject@ }
    }
}

impl ErrorKind {
    /// The family of the error.
    pub fn category(self) -> (c: Category)
        ensures
            c == self.category_of(),
    {
        match self {
            ErrorKind::Lex => Category::Lex,
            ErrorKind::Syntax(_) => Category::Parse,
            ErrorKind::UnknownProcedure | ErrorKind::UnknownVariable => Category::Name,
            ErrorKind::NeedMoreInput | ErrorKind::UnusedValue => Category::Arity,
            ErrorKind::NotANumber | ErrorKind::NotAWord | ErrorKind::NotAList
            | ErrorKind::NotComparable | ErrorKind::BadOperator | ErrorKind::ItemOutOfRange => Category::Type,
            ErrorKind::NameInUse | ErrorKind::NestedDefinition | ErrorKind::EndWithoutTo
            | ErrorKind::NameMissing | ErrorKind::BadFormal => Category::Definition,
            ErrorKind::Host | ErrorKind::Protocol | ErrorKind::Busy => Category::Host,
        }
    }

    fn prefix(self) -> (s: String)
        ensures
            s@ == self.prefix_of(),
    {
        match self {
            ErrorKind::Syntax(e) => e.message(),
            ErrorKind::UnknownProcedure => "Unknown function ".to_string(),
            ErrorKind::UnknownVariable => ":".to_string(),
            ErrorKind::UnusedValue => "You don't say what to do with the output".to_string(),
            ErrorKind::NotANumber => "Expr doesn't evaluate to a number".to_string(),
            ErrorKind::NotAWord => "Expr doesn't evaluate to a word".to_string(),
            ErrorKind::NotAList => "Expr doesn't evaluate to a list".to_string(),
            ErrorKind::NotComparable => "The comparison procedure needs a name or number.".to_string(),
            ErrorKind::BadOperator => "Unknown operator".to_string(),
            ErrorKind::ItemOutOfRange => "ITEM needs a number between 1 and ".to_string(),
            ErrorKind::NestedDefinition => "TO inside of function definition ".to_string(),
            ErrorKind::EndWithoutTo => "END without TO".to_string(),
            ErrorKind::NameMissing => "The procedure TO needs a name as its first input.".to_string(),
            ErrorKind::BadFormal => "The procedure TO does not like an input of ".to_string(),
            ErrorKind::Protocol => "The host gave no answer to what was asked.".to_string(),
            ErrorKind::Busy => "The interpreter is waiting for an answer.".to_string(),
            ErrorKind::Lex | ErrorKind::NeedMoreInput | ErrorKind::NameInUse | ErrorKind::Host => "".to_string(),
        }
    }

    fn suffix(self) -> (s: String)
        ensures
            s@ == self.suffix_of(),
    {
        match self {
            ErrorKind::UnknownVariable => " is not a Logo name.".to_string(),
            ErrorKind::NeedMoreInput => " needs more input(s).".to_string(),
            ErrorKind::ItemOutOfRange => " as its first input.".to_string(),
            ErrorKind::NameInUse => " is already in use. Try a different name.".to_string(),
            _ => "".to_string(),
        }
    }
}

impl EvalError {
    /// The error as a line of text for the user.
    pub fn message(&self) -> (s: String)
        ensures
            s@ == self@.message_of(),
    {
        let mut out = chars_of(self.kind.prefix().as_str());
        let subject = chars_of(self.subject.as_str());
        push_all(&mut out, &subject);
        let tail = chars_of(self.kind.suffix().as_str());
        push_all(&mut out, &tail);
        string_of(&out)
    }

    /// A copy of this error.
    pub fn copy(&self) -> (r: EvalError)
        ensures
            r@ == self@,
    {
        EvalError { kind: self.kind, subject: self.subject.clone() }
    }
}

/// A procedure of the user: its formals and its lines.
#[derive(Debug, PartialEq)]
pub struct Procedure {
    pub args: Vec<String>,
    pub lines: ListType,
}

impl View for Procedure {
    type V = ProcedureModel;

    open spec fn view(&self) -> ProcedureModel {
        ProcedureModel { args: texts(self.args@), lines: ast_models(self.lines@) }
    }
}

/// A procedure that is being called.
#[derive(Debug, PartialEq)]
pub struct Callee {
    pub name: String,
    pub builtin: Option<Builtin>,
}

impl View for Callee {
    type V = CalleeModel;

    open spec fn view(&self) -> CalleeModel {
        CalleeModel { name: self.name@, builtin: self.builtin }
    }
}

/// What is to be done with a value once it is there. The variants are
/// those of [`FrameModel`].
#[derive(Debug, PartialEq)]
pub enum Frame {
    Statements { strict: bool },
    Group,
    Coerce(Kind),
    Check(Kind),
    Operands { callee: Callee, collected: ListType },
    Body { lines: ListType, next: usize },
    Negate,
    BinaryLeft { op: Operator, right: AST },
    BinaryRight { op: Operator, left: AST },
    Respell { op: Operator, other: AST, first: bool },
    NaryNext { op: Operator, list: ListType, next: usize },
    NaryFold { op: Operator, list: ListType, next: usize, acc: AST },
    RepeatCount { body: ListType },
    Repeat { remaining: i32, body: ListType },
    ForTest { var: String, current: AST, end: AST, body: ListType },
    ForStep { var: String, current: AST, end: AST, body: ListType },
    ForNext { var: String, end: AST, body: ListType },
    Arrive,
    Back,
    Head,
    Pick { list: ListType },
    Loaded,
    Feed { lines: ListType, next: usize, queues: usize, locals: usize },
}

impl View for Frame {
    type V = FrameModel;

    open spec fn view(&self) -> FrameModel {
        match self {
            Frame::Statements { strict } => FrameModel::Statements { strict: *strict },
            Frame::Group => FrameModel::Group,
            Frame::Coerce(k) => FrameModel::Coerce(*k),
            Frame::Check(k) => FrameModel::Check(*k),
            Frame::Operands { callee, collected } => FrameModel::Operands {
                callee: callee@,
                collected: ast_models(collected@),
            },
            Frame::Body { lines, next } => FrameModel::Body {
                lines: ast_models(lines@),
                next: *next as int,
            },
            Frame::Negate => FrameModel::Negate,
            Frame::BinaryLeft { op, right } => FrameModel::BinaryLeft { op: *op, right: right@ },
            Frame::BinaryRight { op, left } => FrameModel::BinaryRight { op: *op, left: left@ },
            Frame::Respell { op, other, first } => FrameModel::Respell {
                op: *op,
                other: other@,
                first: *first,
            },
            Frame::NaryNext { op, list, next } => FrameModel::NaryNext {
                op: *op,
                list: ast_models(list@),
                next: *next as int,
            },
            Frame::NaryFold { op, list, next, acc } => FrameModel::NaryFold {
                op: *op,
                list: ast_models(list@),
                next: *next as int,
                acc: acc@,
            },
            Frame::RepeatCount { body } => FrameModel::RepeatCount { body: ast_models(body@) },
            Frame::Repeat { remaining, body } => FrameModel::Repeat {
                remaining: *remaining,
                body: ast_models(body@),
            },
            Frame::ForTest { var, current, end, body } => FrameModel::ForTest {
                var: var@,
                current: current@,
                end: end@,
                body: ast_models(body@),
            },
            Frame::ForStep { var, current, end, body } => FrameModel::ForStep {
                var: var@,
                current: current@,
                end: end@,
                body: ast_models(body@),
            },
            Frame::ForNext { var, end, body } => FrameModel::ForNext {
                var: var@,
                end: end@,
                body: ast_models(body@),
            },
            Frame::Arrive => FrameModel::Arrive,
            Frame::Back => FrameModel::Back,
            Frame::Head => FrameModel::Head,
            Frame::Pick { list } => FrameModel::Pick { list: ast_models(list@) },
            Frame::Loaded => FrameModel::Loaded,
            Frame::Feed { lines, next, queues, locals } => FrameModel::Feed {
                lines: ast_models(lines@),
                next: *next as int,
                queues: *queues as int,
                locals: *locals as int,
            },
        }
    }
}

/// What the machine has in hand. The variants are those of
/// [`FocusModel`].
#[derive(Debug, PartialEq)]
pub enum Focus {
    Idle,
    Eval(AST),
    Value(AST),
    Raise(EvalError),
    Ask(Request),
    Call { callee: Callee, collected: ListType },
}

impl View for Focus {
    type V = FocusModel;

    open spec fn view(&self) -> FocusModel {
        match self {
            Focus::Idle => FocusModel::Idle,
            Focus::Eval(a) => FocusModel::Eval(a@),
            Focus::Value(a) => FocusModel::Value(a@),
            Focus::Raise(e) => FocusModel::Raise(e@),
            Focus::Ask(r) => FocusModel::Ask(r@),
            Focus::Call { callee, collected } => FocusModel::Call {
                callee: callee@,
                collected: ast_models(collected@),
            },
        }
    }
}

/// How a line ended, or what the host is asked.
#[derive(Debug, PartialEq)]
pub enum Status {
    /// The line is done, with its value or an error. A line that gives no
    /// value gives `Empty`.
    Done(Result<AST, EvalError>),
    /// The host is asked; evaluation goes on when `resume` gets its reply.
    Ask(Request),
}

impl View for Status {
    type V = StatusModel;

    open spec fn view(&self) -> StatusModel {
        match self {
            Status::Done(Ok(a)) => StatusModel::Done(Ok(a@)),
            Status::Done(Err(e)) => StatusModel::Done(Err(e@)),
            Status::Ask(r) => StatusModel::Ask(r@),
        }
    }
}

/// The pictures of the scopes of the procedures that run.
pub open spec fn locals_model(v: Seq<Table<AST>>) -> Seq<Seq<(Seq<char>, AstModel)>> {
    Seq::new(v.len(), |i: int| v[i]@)
}

/// The pictures of the queues.
pub open spec fn queues_model(v: Seq<ListType>) -> Seq<Seq<AstModel>> {
    Seq::new(v.len(), |i: int| ast_models(v[i]@))
}

/// The pictures of the frames.
pub open spec fn frames_model(v: Seq<Frame>) -> Seq<FrameModel> {
    Seq::new(v.len(), |i: int| v[i]@)
}

/// A procedure between its `TO` and its `END`.
struct Definition {
    name: String,
    procedure: Procedure,
}

/// How many steps the machine takes before it hands control back to its
/// host for a moment.
pub const SLICE: usize = 10000;

/// The evaluator. It keeps the variables, the procedures and the turtle
/// from line to line.
pub struct Evaluator<G: Graphics> {
    parser: Parser,
    turtle: Turtle<G>,
    vars: Table<AST>,
    stack_vars: Vec<Table<AST>>,
    stack_expr: Vec<ListType>,
    user_functions: Table<Procedure>,
    definition: Option<Definition>,
    control: Vec<Frame>,
    focus: Focus,
}

impl<G: Graphics> View for Evaluator<G> {
    type V = MachineModel;

    closed spec fn view(&self) -> MachineModel {
        MachineModel {
            saved: self.parser.saved(),
            turtle: self.turtle@,
            vars: self.vars@,
            locals: locals_model(self.stack_vars@),
            queues: queues_model(self.stack_expr@),
            procedures: self.user_functions@,
            definition: match self.definition {
                Some(d) => Some((d.name@, d.procedure@)),
                None => None,
            },
            control: frames_model(self.control@),
            focus: self.focus@,
        }
    }
}

/// The last node of a list, taken off it.
fn take_last(args: &mut ListType) -> (a: AST)
    requires
        old(args).len() > 0,
    ensures
        a@ == ast_models(old(args)@).last(),
        ast_models(final(args)@) == ast_models(old(args)@).drop_last(),
        final(args).len() == old(args).len() - 1,
{
    let a = args.pop_back().unwrap();
    proof {
        lemma_models(old(args)@);
        assert(ast_models(args@) =~= ast_models(old(args)@).drop_last());
    }
    a
}

/// A list of two nodes.
fn pair_of(a: AST, b: AST) -> (r: ListType)
    ensures
        ast_models(r@) == seq![a@, b@],
{
    let mut list: ListType = VecDeque::new();
    list.push_back(a);
    list.push_back(b);
    proof {
        lemma_models(list@);
        assert(ast_models(list@) =~= seq![a@, b@]);
    }
    list
}

/// The name of the file that `LOAD` reads for a word.
fn file_of(word: &String) -> (s: String)
    ensures
        s@ == file_name(word@),
{
    let lower = lowercase(word.as_str());
    with_extension(lower.as_str())
}

/// Whether the comparison holds of two texts.
fn compare_texts(op: Operator, a: &String, b: &String) -> (r: bool)
    ensures
        r == texts_compare(op, a@, b@),
{
    match op {
        Operator::Less => comes_before(a.as_str(), b.as_str()),
        Operator::LessEq => !comes_before(b.as_str(), a.as_str()),
        Operator::Greater => comes_before(b.as_str(), a.as_str()),
        Operator::GreaterEq => !comes_before(a.as_str(), b.as_str()),
        _ => same_text(a.as_str(), b.as_str()),
    }
}

/// Says whether a value is of a kind.
fn is_of(kind: Kind, v: &AST) -> (r: bool)
    ensures
        r == fits(kind, v@),
{
    match kind {
        Kind::Any => true,
        Kind::Number => matches!(v, AST::Num(_)),
        Kind::Word => matches!(v, AST::Word(_)),
        Kind::List => matches!(v, AST::List(_)),
    }
}

/// The error for a value that is not of a kind.
fn mismatch_of(kind: Kind) -> (r: ErrorKind)
    ensures
        r == mismatch(kind),
{
    match kind {
        Kind::Word => ErrorKind::NotAWord,
        Kind::List => ErrorKind::NotAList,
        _ => ErrorKind::NotANumber,
    }
}

/// Says whether a line starts with a call of `name`.
fn line_starts_with(ast: &AST, name: &str) -> (r: bool)
    ensures
        r == starts_with(ast@, name@),
{
    match ast {
        AST::ExprLine(l) => {
            proof {
                lemma_models(l@);
            }
            if l.len() > 0 {
                match &l[0] {
                    AST::Function(n) => same_text(n.as_str(), name),
                    _ => false,
                }
            } else {
                false
            }
        },
        _ => false,
    }
}

/// Says whether a line is a call of `name` and nothing else.
fn line_is_just(ast: &AST, name: &str) -> (r: bool)
    ensures
        r == is_just(ast@, name@),
{
    match ast {
        AST::ExprLine(l) => {
            proof {
                lemma_models(l@);
            }
            if l.len() == 1 {
                match &l[0] {
                    AST::Function(n) => same_text(n.as_str(), name),
                    _ => false,
                }
            } else {
                false
            }
        },
        _ => false,
    }
}

/// The names of the variables from place `from` on; none if a node among
/// them is no variable.
fn names_from(q: &ListType, from: usize) -> (r: Option<Vec<String>>)
    requires
        from <= q.len(),
    ensures
        match r {
            Some(names) => all_vars(ast_models(q@).skip(from as int)) && texts(names@)
                == var_names(ast_models(q@).skip(from as int)),
            None => !all_vars(ast_models(q@).skip(from as int)),
        },
{
    let mut names: Vec<String> = Vec::new();
    let mut i: usize = from;
    let ghost rest = ast_models(q@).skip(from as int);
    proof {
        lemma_models(q@);
    }
    while i < q.len()
        invariant
            from <= i <= q.len(),
            names.len() == i - from,
            rest == ast_models(q@).skip(from as int),
            forall|j: int| 0 <= j < i - from ==> (#[trigger] rest[j]) is Var,
            forall|j: int| 0 <= j < i - from ==> (#[trigger] names@[j])@ == rest[j]->Var_0,
            forall|j: int| 0 <= j < q.len() ==> (#[trigger] ast_models(q@)[j]) == q@[j]@,
            ast_models(q@).len() == q.len(),
        decreases q.len() - i,
    {
        assert(rest[i - from] == q@[i as int]@);
        match &q[i] {
            AST::Var(name) => {
                names.push(name.clone());
            },
            _ => {
                assert(!(rest[i - from] is Var));
                return None;
            },
        }
        i = i + 1;
    }
    assert(texts(names@) =~= var_names(rest));
    Some(names)
}

/// The first node of a list, taken off it.
fn take_first(args: &mut ListType) -> (a: AST)
    requires
        old(args).len() > 0,
    ensures
        a@ == ast_models(old(args)@)[0],
        ast_models(final(args)@) == ast_models(old(args)@).drop_first(),
        final(args).len() == old(args).len() - 1,
{
    let a = args.pop_front().unwrap();
    proof {
        lemma_models(old(args)@);
        assert(ast_models(args@) =~= ast_models(old(args)@).drop_first());
    }
    a
}

/// The error of the evaluator that an error of the parser is.
fn error_of(e: ParseError) -> (r: EvalError)
    ensures
        r@ == match e {
            ParseError::Lex(x) => ErrorModel { kind: ErrorKind::Lex, subject: x.message_of() },
            ParseError::Syntax(x) => ErrorModel {
                kind: ErrorKind::Syntax(x),
                subject: Seq::empty(),
            },
        },
{
    match e {
        ParseError::Lex(x) => EvalError { kind: ErrorKind::Lex, subject: x.message() },
        ParseError::Syntax(x) => EvalError { kind: ErrorKind::Syntax(x), subject: String::new() },
    }
}

/// The variables of a call.
fn bind_all(formals: &Vec<String>, mut values: ListType) -> (t: Table<AST>)
    requires
        values.len() >= formals.len(),
    ensures
        t@ == bind(texts(formals@), ast_models(values@), formals.len() as int),
{
    let ghost all = ast_models(values@);
    proof {
        lemma_models(values@);
    }
    // the values are taken from the end, so they are put in order first
    let mut reversed: ListType = VecDeque::new();
    while values.len() > 0
        invariant
            values.len() + reversed.len() == all.len(),
            ast_models(values@) == all.take(values.len() as int),
            ast_models(reversed@).len() == reversed.len(),
            forall|j: int|
                0 <= j < reversed.len() ==> (#[trigger] ast_models(reversed@)[j]) == all[all.len()
                    - 1 - j],
        decreases values.len(),
    {
        let ghost before = ast_models(reversed@);
        let v = take_last(&mut values);
        proof {
            lemma_models_push(reversed@, v);
            assert(all.take(values.len() + 1).drop_last() =~= all.take(values.len() as int));
        }
        reversed.push_back(v);
        assert(ast_models(reversed@) == before.push(v@));
    }
    let mut table: Table<AST> = Table::new();
    let mut i: usize = 0;
    while i < formals.len()
        invariant
            i <= formals.len(),
            formals.len() <= all.len(),
            reversed.len() == all.len() - i,
            ast_models(reversed@).len() == reversed.len(),
            forall|j: int|
                0 <= j < reversed.len() ==> (#[trigger] ast_models(reversed@)[j]) == all[all.len()
                    - 1 - j],
            table@ == bind(texts(formals@), all, i as int),
        decreases formals.len() - i,
    {
        let v = take_last(&mut reversed);
        assert(v@ == all[i as int]);
        assert(texts(formals@)[i as int] == formals@[i as int]@);
        table.set(formals[i].clone(), v);
        i = i + 1;
    }
    table
}

impl<G: Graphics> Evaluator<G> {
    /// An evaluator at rest, with no variables and no procedures of the
    /// user, and a turtle at the origin on the given surface.
    pub fn new(graphics: G) -> (e: Evaluator<G>)
        ensures
            e@ == (MachineModel {
                saved: Seq::empty(),
                turtle: TurtleModel::fresh(graphics.drawn()),
                vars: Seq::empty(),
                locals: Seq::empty(),
                queues: Seq::empty(),
                procedures: Seq::empty(),
                definition: None,
                control: Seq::empty(),
                focus: FocusModel::Idle,
            }),
            balanced(e@),
            drawing_sound(graphics.drawn()) ==> sound(e@),
    {
        let e = Evaluator {
            parser: Parser::new(),
            turtle: Turtle::new(graphics),
            vars: Table::new(),
            stack_vars: Vec::new(),
            stack_expr: Vec::new(),
            user_functions: Table::new(),
            definition: None,
            control: Vec::new(),
            focus: Focus::Idle,
        };
        proof {
            assert(e@.locals =~= Seq::empty());
            assert(e@.queues =~= Seq::empty());
            assert(e@.control =~= Seq::empty());
        }
        e
    }

    /// The turtle.
    pub fn turtle(&self) -> (t: &Turtle<G>)
        ensures
            t@ == self@.turtle,
    {
        &self.turtle
    }

    /// Gives the turtle another surface, and hands back the one it had.
    pub fn replace_graphics(&mut self, graphics: G) -> (g: G)
        ensures
            g.drawn() == old(self)@.turtle.drawn,
            final(self)@ == old(self)@.with_turtle(
                TurtleModel { drawn: graphics.drawn(), ..old(self)@.turtle },
            ),
            balanced(old(self)@) ==> balanced(final(self)@),
            sound(old(self)@) && drawing_sound(graphics.drawn()) ==> sound(final(self)@),
    {
        self.turtle.replace_graphics(graphics)
    }

    /// Says whether a definition is open: a `TO` was taken and its `END`
    /// was not.
    pub fn is_defining(&self) -> (r: bool)
        ensures
            r == self@.definition is Some,
    {
        self.definition.is_some()
    }

    /// Says whether the evaluator is at rest: a line can be fed.
    pub fn is_idle(&self) -> (r: bool)
        ensures
            r == self@.focus is Idle,
    {
        matches!(self.focus, Focus::Idle)
    }

    /// The value of a global variable.
    pub fn global(&self, name: &String) -> (r: Option<AST>)
        ensures
            match lookup(self@.vars, name@) {
                Some(v) => r matches Some(a) && a@ == v,
                None => r is None,
            },
    {
        match self.vars.find(name) {
            Some(i) => Some(self.vars.value_at(i).copy()),
            None => None,
        }
    }

    /// The formals and lines of a procedure of the user.
    pub fn procedure(&self, name: &String) -> (r: Option<Procedure>)
        ensures
            match lookup(self@.procedures, name@) {
                Some(p) => r matches Some(q) && q@ == p,
                None => r is None,
            },
    {
        match self.user_functions.find(name) {
            Some(i) => {
                let p = self.user_functions.value_at(i);
                Some(Procedure { args: copy_names(&p.args), lines: copy_list(&p.lines) })
            },
            None => None,
        }
    }

    fn set_focus(&mut self, focus: Focus)
        ensures
            final(self)@ == old(self)@.with_focus(focus@),
    {
        self.focus = focus;
    }

    fn take_focus(&mut self) -> (focus: Focus)
        ensures
            focus@ == old(self)@.focus,
            final(self)@ == old(self)@.idle(),
    {
        let mut focus = Focus::Idle;
        std::mem::swap(&mut self.focus, &mut focus);
        focus
    }

    fn value(&mut self, v: AST)
        ensures
            final(self)@ == old(self)@.value(v@),
    {
        self.focus = Focus::Value(v);
    }

    fn eval(&mut self, a: AST)
        ensures
            final(self)@ == old(self)@.eval(a@),
    {
        self.focus = Focus::Eval(a);
    }

    fn raise(&mut self, kind: ErrorKind, subject: String)
        ensures
            final(self)@ == old(self)@.raise(kind, subject@),
    {
        self.focus = Focus::Raise(EvalError { kind, subject });
    }

    fn fail(&mut self, kind: ErrorKind)
        ensures
            final(self)@ == old(self)@.raise(kind, Seq::empty()),
    {
        self.focus = Focus::Raise(EvalError { kind, subject: String::new() });
    }

    fn ask(&mut self, request: Request)
        ensures
            final(self)@ == old(self)@.ask(request@),
    {
        self.focus = Focus::Ask(request);
    }

    fn call(&mut self, callee: Callee, collected: ListType)
        ensures
            final(self)@ == old(self)@.call(callee@, ast_models(collected@)),
    {
        self.focus = Focus::Call { callee, collected };
    }

    fn push(&mut self, frame: Frame)
        ensures
            final(self)@ == old(self)@.push(frame@),
    {
        self.control.push(frame);
        assert(self@.control =~= old(self)@.control.push(frame@));
    }

    fn pop(&mut self) -> (r: Option<Frame>)
        ensures
            match r {
                Some(f) => old(self)@.control.len() > 0 && f@ == old(self)@.control.last()
                    && final(self)@ == old(self)@.pop(),
                None => old(self)@.control.len() == 0 && final(self)@ == old(self)@,
            },
    {
        let r = self.control.pop();
        proof {
            if r is Some {
                assert(self@.control =~= old(self)@.control.drop_last());
            } else {
                assert(self@.control =~= old(self)@.control);
            }
        }
        r
    }

    fn push_queue(&mut self, queue: ListType)
        ensures
            final(self)@ == old(self)@.push_queue(ast_models(queue@)),
    {
        self.stack_expr.push(queue);
        assert(self@.queues =~= old(self)@.queues.push(ast_models(queue@)));
    }

    fn pop_queue(&mut self)
        ensures
            final(self)@ == old(self)@.pop_queue(),
    {
        let r = self.stack_expr.pop();
        proof {
            if r is Some {
                assert(self@.queues =~= old(self)@.queues.drop_last());
            } else {
                assert(self@.queues =~= old(self)@.queues);
            }
        }
    }

    /// Takes the next expression off the top queue.
    fn next_expr(&mut self) -> (r: Option<AST>)
        ensures
            match old(self)@.next_expr() {
                Some(e) => r matches Some(a) && a@ == e && final(self)@ == old(self)@.drop_expr(),
                None => r is None && final(self)@ == old(self)@,
            },
    {
        match self.stack_expr.pop() {
            None => {
                assert(self@.queues =~= old(self)@.queues);
                None
            },
            Some(mut queue) => {
                let ghost before = ast_models(queue@);
                proof {
                    lemma_models(queue@);
                    assert(old(self)@.queues.last() == before);
                }
                if queue.len() == 0 {
                    self.stack_expr.push(queue);
                    assert(self.stack_expr@ =~= old(self).stack_expr@);
                    None
                } else {
                    let e = queue.pop_front().unwrap();
                    assert(ast_models(queue@) =~= before.drop_first());
                    self.stack_expr.push(queue);
                    assert(self@.queues =~= old(self)@.queues.update(
                        old(self)@.queues.len() - 1,
                        before.drop_first(),
                    ));
                    Some(e)
                }
            },
        }
    }

    fn push_locals(&mut self, table: Table<AST>)
        ensures
            final(self)@ == old(self)@.push_locals(table@),
    {
        self.stack_vars.push(table);
        assert(self@.locals =~= old(self)@.locals.push(table@));
    }

    fn pop_locals(&mut self)
        ensures
            final(self)@ == old(self)@.pop_locals(),
    {
        let r = self.stack_vars.pop();
        proof {
            if r is Some {
                assert(self@.locals =~= old(self)@.locals.drop_last());
            } else {
                assert(self@.locals =~= old(self)@.locals);
            }
        }
    }

    fn cut(&mut self, queues: usize, locals: usize)
        ensures
            final(self)@ == old(self)@.cut(queues as int, locals as int),
    {
        if queues < self.stack_expr.len() {
            self.stack_expr.truncate(queues);
            assert(self@.queues =~= old(self)@.queues.take(queues as int));
        }
        if locals < self.stack_vars.len() {
            self.stack_vars.truncate(locals);
            assert(self@.locals =~= old(self)@.locals.take(locals as int));
        }
    }

    fn variable(&self, name: &String) -> (r: Option<AST>)
        ensures
            match self@.variable(name@) {
                Some(v) => r matches Some(a) && a@ == v,
                None => r is None,
            },
    {
        let n = self.stack_vars.len();
        if n > 0 {
            assert(self@.locals.last() == self.stack_vars@[n - 1]@);
            let top = &self.stack_vars[n - 1];
            if let Some(i) = top.find(name) {
                return Some(top.value_at(i).copy());
            }
        }
        match self.vars.find(name) {
            Some(i) => Some(self.vars.value_at(i).copy()),
            None => None,
        }
    }

    /// Gives a variable a value, as `MAKE` does.
    ///
    /// Where a procedure runs and the innermost one has a variable of the
    /// name, that variable gets the value: the scopes below it and the
    /// global variables stay as they are, also a global one of the same
    /// name. Else the global variable gets the value, and no scope
    /// changes: a local variable is never made here.
    pub fn set(&mut self, var: String, expr: AST)
        ensures
            final(self)@ == old(self)@.assign_var(var@, expr@),
            old(self)@.locals.len() > 0 && lookup(old(self)@.locals.last(), var@) is Some ==> {
                &&& final(self)@.vars == old(self)@.vars
                &&& final(self)@.locals == old(self)@.locals.update(
                    old(self)@.locals.len() - 1,
                    assign(old(self)@.locals.last(), var@, expr@),
                )
                &&& lookup(final(self)@.locals.last(), var@) == Some(expr@)
            },
            !(old(self)@.locals.len() > 0 && lookup(old(self)@.locals.last(), var@) is Some) ==> {
                &&& final(self)@.locals == old(self)@.locals
                &&& final(self)@.vars == assign(old(self)@.vars, var@, expr@)
                &&& lookup(final(self)@.vars, var@) == Some(expr@)
            },
            balanced(old(self)@) ==> balanced(final(self)@),
            sound(old(self)@) && expr@.well_formed() ==> sound(final(self)@),
    {
        proof {
            lemma_assign_same(self@.vars, var@, expr@);
            if self@.locals.len() > 0 {
                lemma_assign_same(self@.locals.last(), var@, expr@);
            }
            if sound(self@) && expr@.well_formed() {
                lemma_assign_var(self@, var@, expr@);
            }
        }
        let name = var;
        let v = expr;
        let n = self.stack_vars.len();
        if n > 0 {
            assert(self@.locals.last() == self.stack_vars@[n - 1]@);
            if self.stack_vars[n - 1].find(&name).is_some() {
                let mut top = self.stack_vars.pop().unwrap();
                top.set(name, v);
                self.stack_vars.push(top);
                assert(self@.locals =~= old(self)@.locals.update(
                    old(self)@.locals.len() - 1,
                    top@,
                ));
                return ;
            }
        }
        self.vars.set(name, v);
    }
}

impl<G: Graphics> Evaluator<G> {
    /// Hands a line of text to the parser.
    fn parse(&mut self, text: &str) -> (r: Result<AST, EvalError>)
        ensures
            final(self)@ == (MachineModel {
                saved: parsed(old(self)@.saved, text@).0,
                ..old(self)@
            }),
            match parsed(old(self)@.saved, text@).1 {
                Ok(m) => r matches Ok(a) && a@ == m,
                Err(e) => r matches Err(x) && x@ == e,
            },
    {
        match self.parser.parse(text) {
            Ok(a) => Ok(a),
            Err(e) => Err(error_of(e)),
        }
    }

    /// A definition starts.
    fn define(&mut self)
        ensures
            final(self)@ == old(self)@.define_step(),
    {
        let n = self.stack_expr.len();
        if n == 0 || self.stack_expr[n - 1].len() == 0 {
            proof {
                if n > 0 {
                    lemma_models(self.stack_expr@[n - 1]@);
                }
            }
            self.raise(ErrorKind::NeedMoreInput, "TO".to_string());
            return ;
        }
        let top = &self.stack_expr[n - 1];
        proof {
            lemma_models(top@);
            assert(self@.queues.last() == ast_models(top@));
            assert(ast_models(top@).drop_first() =~= ast_models(top@).skip(1));
        }
        let name = match &top[0] {
            AST::Function(name) => Some(name.clone()),
            _ => None,
        };
        match name {
            None => {
                self.fail(ErrorKind::NameMissing);
            },
            Some(name) => {
                if reserved(name.as_str()) {
                    self.raise(ErrorKind::NameInUse, name);
                } else {
                    match names_from(top, 1) {
                        None => {
                            self.raise(ErrorKind::BadFormal, name);
                        },
                        Some(args) => {
                            self.stack_expr.pop();
                            self.stack_expr.push(VecDeque::new());
                            self.definition = Some(
                                Definition {
                                    name,
                                    procedure: Procedure { args, lines: VecDeque::new() },
                                },
                            );
                            self.focus = Focus::Value(AST::Empty);
                            proof {
                                let last = self.stack_expr@[n - 1];
                                lemma_models(last@);
                                assert(ast_models(last@) =~= Seq::<AstModel>::empty());
                                assert(self.stack_expr@.len() == n);
                                assert(self@.queues =~= old(self)@.queues.update(
                                    old(self)@.queues.len() - 1,
                                    Seq::empty(),
                                ));
                            }
                        },
                    }
                }
            },
        }
    }

    /// A line arrives.
    fn accept(&mut self, ast: AST)
        ensures
            final(self)@ == old(self)@.accept(ast@),
    {
        if matches!(ast, AST::Empty) {
            self.value(AST::Empty);
            return ;
        }
        let mut definition: Option<Definition> = None;
        std::mem::swap(&mut self.definition, &mut definition);
        match definition {
            None => {
                self.eval(ast);
            },
            Some(mut d) => {
                if line_starts_with(&ast, "TO") {
                    let name = d.name.clone();
                    self.definition = Some(d);
                    self.raise(ErrorKind::NestedDefinition, name);
                } else if line_is_just(&ast, "END") {
                    self.user_functions.set(d.name, d.procedure);
                    self.value(AST::Empty);
                } else {
                    proof {
                        lemma_models_push(d.procedure.lines@, ast);
                    }
                    d.procedure.lines.push_back(ast);
                    self.definition = Some(d);
                    self.value(AST::Empty);
                }
            },
        }
    }

    /// An operand of `op` is evaluated.
    fn operand(&mut self, frame: Frame, op: Operator, node: AST)
        ensures
            final(self)@ == old(self)@.operand(frame@, op, node@),
    {
        self.push(frame);
        if !op.compares() {
            self.push(Frame::Check(Kind::Number));
        }
        self.eval(node);
    }

    /// A node is evaluated.
    fn eval_node(&mut self, node: AST)
        ensures
            final(self)@ == old(self)@.eval_step(node@),
    {
        match node {
            AST::Num(n) => self.value(AST::Num(n)),
            AST::Word(w) => self.value(AST::Word(w)),
            AST::List(l) => self.value(AST::List(l)),
            AST::Var(name) => match self.variable(&name) {
                Some(v) => self.value(v),
                None => self.raise(ErrorKind::UnknownVariable, name),
            },
            AST::Function(name) => {
                if same_text(name.as_str(), "TO") {
                    self.define();
                } else if same_text(name.as_str(), "END") {
                    self.fail(ErrorKind::EndWithoutTo);
                } else {
                    match Builtin::lookup(name.as_str()) {
                        Some(b) => {
                            let list: ListType = VecDeque::new();
                            proof {
                                lemma_models(list@);
                                assert(ast_models(list@) =~= Seq::<AstModel>::empty());
                            }
                            self.call(Callee { name, builtin: Some(b) }, list);
                        },
                        None => {
                            if self.user_functions.find(&name).is_some() {
                                let list: ListType = VecDeque::new();
                                proof {
                                    lemma_models(list@);
                                    assert(ast_models(list@) =~= Seq::<AstModel>::empty());
                                }
                                self.call(Callee { name, builtin: None }, list);
                            } else {
                                self.raise(ErrorKind::UnknownProcedure, name);
                            }
                        },
                    }
                }
            },
            AST::ExprLine(list) => {
                self.push_queue(list);
                self.push(Frame::Statements { strict: false });
                self.value(AST::Empty);
            },
            AST::Parens(mut list) => {
                proof {
                    lemma_models(list@);
                }
                if list.len() == 0 {
                    proof {
                        assert(ast_models(list@) =~= Seq::<AstModel>::empty());
                    }
                    self.value(AST::List(list));
                } else {
                    let first = take_first(&mut list);
                    self.push_queue(list);
                    self.push(Frame::Group);
                    self.eval(first);
                }
            },
            AST::Negation(operand) => {
                self.push(Frame::Negate);
                self.push(Frame::Check(Kind::Number));
                self.eval(*operand);
            },
            AST::Binary(t, l, r) => match Operator::from_token(&t) {
                None => self.fail(ErrorKind::BadOperator),
                Some(op) => self.operand(Frame::BinaryLeft { op, right: *r }, op, *l),
            },
            AST::Nary(t, list) => match Operator::from_token(&t) {
                Some(Operator::Plus) => {
                    self.push(Frame::NaryNext { op: Operator::Plus, list, next: 0 });
                    self.value(AST::Num(Number::Real(Number::ZERO_BITS)));
                },
                Some(Operator::Multiply) => {
                    self.push(Frame::NaryNext { op: Operator::Multiply, list, next: 0 });
                    self.value(AST::Num(Number::Real(Number::ONE_BITS)));
                },
                _ => self.fail(ErrorKind::BadOperator),
            },
            AST::FunctionReturn(_) => self.value(AST::Empty),
            AST::Empty => self.value(AST::Empty),
        }
    }

    /// How many operands a callee takes.
    fn arity(&self, callee: &Callee) -> (n: usize)
        ensures
            n == self@.arity(callee@),
    {
        match callee.builtin {
            Some(b) => b.arity(),
            None => match self.user_functions.find(&callee.name) {
                Some(i) => self.user_functions.value_at(i).args.len(),
                None => 0,
            },
        }
    }

    /// A call goes on.
    fn gather(&mut self, callee: Callee, collected: ListType)
        ensures
            final(self)@ == old(self)@.gather_step(callee@, ast_models(collected@)),
    {
        proof {
            lemma_models(collected@);
        }
        let arity = self.arity(&callee);
        if collected.len() >= arity {
            match callee.builtin {
                Some(b) => self.apply(b, collected),
                None => self.enter(callee.name, collected),
            }
        } else {
            match self.next_expr() {
                None => self.raise(ErrorKind::NeedMoreInput, callee.name),
                Some(e) => {
                    let kind = match callee.builtin {
                        Some(b) => b.kind_at(collected.len()),
                        None => Kind::Any,
                    };
                    self.push(Frame::Operands { callee, collected });
                    if !matches!(kind, Kind::Any) {
                        self.push(Frame::Coerce(kind));
                    }
                    self.eval(e);
                },
            }
        }
    }

    /// A procedure of the user is entered.
    fn enter(&mut self, name: String, args: ListType)
        requires
            args.len() >= old(self)@.arity(CalleeModel { name: name@, builtin: None }),
        ensures
            final(self)@ == old(self)@.enter(name@, ast_models(args@)),
    {
        match self.user_functions.find(&name) {
            None => self.raise(ErrorKind::UnknownProcedure, name),
            Some(i) => {
                let p = self.user_functions.value_at(i);
                let formals = copy_names(&p.args);
                let lines = copy_list(&p.lines);
                let table = bind_all(&formals, args);
                let queue: ListType = VecDeque::new();
                proof {
                    lemma_models(queue@);
                    assert(ast_models(queue@) =~= Seq::<AstModel>::empty());
                }
                self.push_locals(table);
                self.push_queue(queue);
                self.push(Frame::Body { lines, next: 0 });
                self.value(AST::Empty);
            },
        }
    }

    /// A list of statements starts.
    fn block(&mut self, frame: Frame, body: ListType)
        ensures
            final(self)@ == old(self)@.block(frame@, ast_models(body@)),
    {
        self.push(frame);
        self.push_queue(body);
        self.push(Frame::Statements { strict: true });
        self.value(AST::Empty);
    }

    /// Two values are compared.
    fn compare(&mut self, op: Operator, l: AST, r: AST)
        ensures
            final(self)@ == old(self)@.compare(op, l@, r@),
    {
        match (l, r) {
            (AST::Num(a), AST::Num(b)) => self.ask(Request::Compare(op, a, b)),
            (AST::Num(a), AST::Word(w)) => {
                self.push(Frame::Respell { op, other: AST::Word(w), first: true });
                self.ask(Request::Spell(a));
            },
            (AST::Word(w), AST::Num(b)) => {
                self.push(Frame::Respell { op, other: AST::Word(w), first: false });
                self.ask(Request::Spell(b));
            },
            (AST::Word(a), AST::Word(b)) => {
                let t = compare_texts(op, &a, &b);
                self.value(truth(t));
            },
            _ => self.fail(ErrorKind::NotComparable),
        }
    }

    /// The turtle is asked where it stands after `distance` steps.
    fn advance(&mut self, distance: Number)
        ensures
            final(self)@ == old(self)@.advance(distance@),
    {
        let request = self.turtle.fd(distance);
        self.push(Frame::Arrive);
        self.ask(request);
    }

    /// A built-in procedure is applied to its operands.
    fn apply(&mut self, b: Builtin, args: ListType)
        requires
            args.len() >= b.kinds().len(),
        ensures
            final(self)@ == old(self)@.apply(b, ast_models(args@)),
    {
        match b {
            Builtin::Print | Builtin::Output | Builtin::Load | Builtin::SetXY => self.apply_one(
                b,
                args,
            ),
            Builtin::Make | Builtin::Lput | Builtin::Item | Builtin::List | Builtin::Repeat => self.apply_two(
                b,
                args,
            ),
            Builtin::For => self.apply_for(args),
            Builtin::Place | Builtin::SetHeading | Builtin::SetX | Builtin::SetY
            | Builtin::Forward | Builtin::Back | Builtin::Right | Builtin::Left => self.apply_move(b, args),
            Builtin::Pops | Builtin::Pons => self.apply_show(b),
            _ => self.apply_plain(b),
        }
    }

    /// The procedures that show what the interpreter holds.
    fn apply_show(&mut self, b: Builtin)
        requires
            b is Pops || b is Pons,
        ensures
            forall|args: Seq<AstModel>| final(self)@ == #[trigger] old(self)@.apply(b, args),
    {
        match b {
            Builtin::Pops => {
                let mut list: ListType = VecDeque::new();
                let mut i: usize = 0;
                proof {
                    lemma_models(list@);
                }
                while i < self.user_functions.len()
                    invariant
                        i <= self.user_functions@.len(),
                        list.len() == i,
                        forall|j: int|
                            0 <= j < i ==> (#[trigger] list@[j])@ == procedure_shown(
                                self.user_functions@[j].0,
                                self.user_functions@[j].1,
                            ),
                    decreases self.user_functions@.len() - i,
                {
                    let entry = show_procedure(
                        self.user_functions.name_at(i),
                        self.user_functions.value_at(i),
                    );
                    list.push_back(entry);
                    i = i + 1;
                }
                proof {
                    lemma_models(list@);
                    assert(ast_models(list@) =~= procedures_shown(self.user_functions@));
                }
                self.ask(Request::Print(AST::List(list)));
            },
            _ => {
                let mut list: ListType = VecDeque::new();
                proof {
                    lemma_models(list@);
                    assert(ast_models(list@) =~= Seq::<AstModel>::empty());
                }
                push_word(&mut list, "Locals:");
                let n = self.stack_vars.len();
                let ghost top: Seq<(Seq<char>, AstModel)> = if n > 0 {
                    self@.locals.last()
                } else {
                    Seq::empty()
                };
                if n > 0 {
                    assert(self@.locals.last() == self.stack_vars@[n - 1]@);
                    show_bindings(&self.stack_vars[n - 1], &mut list);
                } else {
                    assert(ast_models(list@) + bindings_shown(top) =~= ast_models(list@));
                }
                push_word(&mut list, "Globals:");
                show_bindings(&self.vars, &mut list);
                proof {
                    assert(ast_models(list@) =~= seq![AstModel::Word("Locals:"@)] + bindings_shown(
                        top,
                    ) + seq![AstModel::Word("Globals:"@)] + bindings_shown(self@.vars));
                }
                self.ask(Request::Print(AST::List(list)));
            },
        }
    }

    /// The procedures that take one value.
    fn apply_one(&mut self, b: Builtin, mut args: ListType)
        requires
            args.len() >= 1,
            b is Print || b is Output || b is Load || b is SetXY,
        ensures
            final(self)@ == old(self)@.apply(b, ast_models(args@)),
    {
        let ghost all = ast_models(args@);
        let a0 = take_first(&mut args);
        assert(a0@ == all[0]);
        match b {
            Builtin::Print => self.ask(Request::Print(a0)),
            Builtin::Output => self.value(AST::FunctionReturn(Box::new(a0))),
            Builtin::Load => match a0 {
                AST::Word(w) => {
                    let file = file_of(&w);
                    self.push(Frame::Loaded);
                    self.ask(Request::Load(file));
                },
                _ => self.fail(ErrorKind::NotAWord),
            },
            _ => match a0 {
                AST::List(list) => {
                    let none: ListType = VecDeque::new();
                    proof {
                        lemma_models(none@);
                        assert(ast_models(none@) =~= Seq::<AstModel>::empty());
                    }
                    self.push_queue(list);
                    self.call(
                        Callee { name: "SETXY".to_string(), builtin: Some(Builtin::Place) },
                        none,
                    );
                },
                _ => self.fail(ErrorKind::NotAList),
            },
        }
    }

    /// `FOR`: a variable, the first and the last number, and the list to
    /// run for each.
    fn apply_for(&mut self, mut args: ListType)
        requires
            args.len() >= 4,
        ensures
            final(self)@ == old(self)@.apply(Builtin::For, ast_models(args@)),
    {
        let ghost all = ast_models(args@);
        let a0 = take_first(&mut args);
        let a1 = take_first(&mut args);
        let a2 = take_first(&mut args);
        let a3 = take_first(&mut args);
        assert(a0@ == all[0] && a1@ == all[1] && a2@ == all[2] && a3@ == all[3]);
        match (a0, a3) {
            (AST::Word(var), AST::List(body)) => {
                let request = match (&a1, &a2) {
                    (AST::Num(a), AST::Num(b)) => Some(
                        Request::Compare(Operator::LessEq, a.copy(), b.copy()),
                    ),
                    _ => None,
                };
                match request {
                    Some(request) => {
                        self.push(Frame::ForTest { var, current: a1, end: a2, body });
                        self.ask(request);
                    },
                    None => self.fail(ErrorKind::NotANumber),
                }
            },
            _ => self.fail(ErrorKind::NotANumber),
        }
    }

    /// The procedures that take two values.
    fn apply_two(&mut self, b: Builtin, mut args: ListType)
        requires
            args.len() >= 2,
            b is Make || b is Lput || b is Item || b is List || b is Repeat,
        ensures
            final(self)@ == old(self)@.apply(b, ast_models(args@)),
    {
        let ghost all = ast_models(args@);
        let a0 = take_first(&mut args);
        let a1 = take_first(&mut args);
        assert(a0@ == all[0] && a1@ == all[1]);
        match b {
            Builtin::Make => match a0 {
                AST::Word(w) => {
                    self.set(w, a1);
                    self.value(AST::Empty);
                },
                _ => self.fail(ErrorKind::NotAWord),
            },
            Builtin::Lput => match (a0, a1) {
                (AST::List(item), AST::List(mut list)) => {
                    let element = AST::List(item);
                    proof {
                        lemma_models_push(list@, element);
                    }
                    list.push_back(element);
                    self.value(AST::List(list));
                },
                _ => self.fail(ErrorKind::NotAList),
            },
            Builtin::Item => match (a0, a1) {
                (AST::Num(n), AST::List(list)) => {
                    self.push(Frame::Pick { list });
                    self.ask(Request::Truncate(n));
                },
                _ => self.fail(ErrorKind::NotANumber),
            },
            Builtin::Repeat => match (a0, a1) {
                (AST::Num(n), AST::List(body)) => {
                    self.push(Frame::RepeatCount { body });
                    self.ask(Request::Truncate(n));
                },
                _ => self.fail(ErrorKind::NotANumber),
            },
            _ => {
                let list = pair_of(a0, a1);
                self.value(AST::List(list));
            },
        }
    }

    /// The procedures that move or turn the turtle by a number.
    fn apply_move(&mut self, b: Builtin, mut args: ListType)
        requires
            args.len() >= b.kinds().len(),
            b is Place || b is SetHeading || b is SetX || b is SetY || b is Forward || b is Back
                || b is Right || b is Left,
        ensures
            final(self)@ == old(self)@.apply(b, ast_models(args@)),
    {
        let ghost all = ast_models(args@);
        let a0 = take_first(&mut args);
        assert(a0@ == all[0]);
        match a0 {
            AST::Num(n) => match b {
                Builtin::Place => {
                    let a1 = take_first(&mut args);
                    assert(a1@ == all[1]);
                    match a1 {
                        AST::Num(y) => {
                            self.pop_queue();
                            self.turtle.setxy(n, y);
                            self.value(AST::Empty);
                        },
                        _ => self.fail(ErrorKind::NotANumber),
                    }
                },
                Builtin::SetHeading => {
                    self.turtle.setheading(n);
                    self.value(AST::Empty);
                },
                Builtin::SetX => {
                    self.turtle.setx(n);
                    self.value(AST::Empty);
                },
                Builtin::SetY => {
                    self.turtle.sety(n);
                    self.value(AST::Empty);
                },
                Builtin::Forward => self.advance(n),
                Builtin::Back => {
                    let request = self.turtle.bk(n);
                    self.push(Frame::Back);
                    self.ask(request);
                },
                Builtin::Right => {
                    let request = self.turtle.rt(n);
                    self.push(Frame::Head);
                    self.ask(request);
                },
                _ => {
                    let request = self.turtle.lt(n);
                    self.push(Frame::Head);
                    self.ask(request);
                },
            },
            _ => self.fail(ErrorKind::NotANumber),
        }
    }

    /// The procedures without operands.
    fn apply_plain(&mut self, b: Builtin)
        requires
            b is GetXY || b is Heading || b is XCor || b is YCor || b is ClearScreen || b is Clean
                || b is Home || b is PenDown || b is PenUp,
        ensures
            forall|args: Seq<AstModel>| final(self)@ == #[trigger] old(self)@.apply(b, args),
    {
        match b {
            Builtin::GetXY => {
                let list = pair_of(AST::Num(self.turtle.xcor()), AST::Num(self.turtle.ycor()));
                self.value(AST::List(list));
            },
            Builtin::Heading => {
                let h = self.turtle.heading();
                self.value(AST::Num(h));
            },
            Builtin::XCor => {
                let x = self.turtle.xcor();
                self.value(AST::Num(x));
            },
            Builtin::YCor => {
                let y = self.turtle.ycor();
                self.value(AST::Num(y));
            },
            Builtin::ClearScreen => {
                self.turtle.clearscreen();
                self.value(AST::Empty);
            },
            Builtin::Clean => {
                self.turtle.clean();
                self.value(AST::Empty);
            },
            Builtin::Home => {
                self.turtle.home();
                self.value(AST::Empty);
            },
            Builtin::PenDown => {
                self.turtle.pendown();
                self.value(AST::Empty);
            },
            _ => {
                self.turtle.penup();
                self.value(AST::Empty);
            },
        }
    }

    /// The next line of a file is taken.
    fn feed_line(&mut self, lines: ListType, next: usize, queues: usize, locals: usize)
        requires
            next < lines.len(),
        ensures
            final(self)@ == old(self)@.feed_step(
                ast_models(lines@),
                next as int,
                queues as int,
                locals as int,
            ),
    {
        proof {
            lemma_models(lines@);
        }
        let text = match &lines[next] {
            AST::Word(t) => Some(t.clone()),
            _ => None,
        };
        let frame = Frame::Feed { lines, next: next + 1, queues, locals };
        match text {
            None => {
                self.push(frame);
                self.value(AST::Empty);
            },
            Some(text) => {
                let r = self.parse(text.as_str());
                self.push(frame);
                match r {
                    Err(e) => {
                        let shown = AST::Word(e.message());
                        self.ask(Request::Print(shown));
                    },
                    Ok(ast) => self.accept(ast),
                }
            },
        }
    }

    /// The frames of the flow of a program.
    fn resume_flow(&mut self, frame: Frame, v: AST)
        requires
            frame is Statements || frame is Group || frame is Coerce || frame is Check
                || frame is Operands || frame is Body,
        ensures
            final(self)@ == old(self)@.resume_step(frame@, v@),
    {
        match frame {
            Frame::Statements { strict } => {
                if !matches!(v, AST::Empty) {
                    self.pop_queue();
                    if strict {
                        self.fail(ErrorKind::UnusedValue);
                    } else {
                        self.value(v);
                    }
                } else {
                    match self.next_expr() {
                        None => {
                            self.pop_queue();
                            self.value(AST::Empty);
                        },
                        Some(e) => {
                            self.push(Frame::Statements { strict });
                            self.eval(e);
                        },
                    }
                }
            },
            Frame::Group => {
                self.pop_queue();
                self.value(v);
            },
            Frame::Coerce(kind) => {
                self.push(Frame::Check(kind));
                self.eval(v);
            },
            Frame::Check(kind) => {
                if is_of(kind, &v) {
                    self.value(v);
                } else {
                    self.fail(mismatch_of(kind));
                }
            },
            Frame::Operands { callee, mut collected } => {
                proof {
                    lemma_models_push(collected@, v);
                }
                collected.push_back(v);
                self.call(callee, collected);
            },
            Frame::Body { lines, next } => match v {
                AST::FunctionReturn(x) => {
                    self.pop_locals();
                    self.pop_queue();
                    self.value(*x);
                },
                AST::Empty => {
                    proof {
                        lemma_models(lines@);
                    }
                    if next < lines.len() {
                        let line = lines[next].copy();
                        self.push(Frame::Body { lines, next: next + 1 });
                        self.eval(line);
                    } else {
                        self.pop_locals();
                        self.pop_queue();
                        self.value(AST::Empty);
                    }
                },
                _ => {
                    self.pop_locals();
                    self.pop_queue();
                    self.fail(ErrorKind::UnusedValue);
                },
            },
            _ => {},
        }
    }

    /// The frames of the operators with one or two operands.
    fn resume_binary(&mut self, frame: Frame, v: AST)
        requires
            frame is Negate || frame is BinaryLeft || frame is BinaryRight || frame is Respell,
        ensures
            final(self)@ == old(self)@.resume_step(frame@, v@),
    {
        match frame {
            Frame::Negate => match v {
                AST::Num(n) => self.ask(Request::Negate(n)),
                _ => self.fail(ErrorKind::NotANumber),
            },
            Frame::BinaryLeft { op, right } => {
                self.operand(Frame::BinaryRight { op, left: v }, op, right);
            },
            Frame::BinaryRight { op, left } => {
                if op.compares() {
                    self.compare(op, left, v);
                } else {
                    match (left, v) {
                        (AST::Num(a), AST::Num(b)) => self.ask(Request::Arithmetic(op, a, b)),
                        _ => self.fail(ErrorKind::NotANumber),
                    }
                }
            },
            Frame::Respell { op, other, first } => {
                if first {
                    self.compare(op, v, other);
                } else {
                    self.compare(op, other, v);
                }
            },
            _ => {},
        }
    }

    /// The frames of a sum or product of many operands.
    fn resume_nary(&mut self, frame: Frame, v: AST)
        requires
            frame is NaryNext || frame is NaryFold,
        ensures
            final(self)@ == old(self)@.resume_step(frame@, v@),
    {
        match frame {
            Frame::NaryNext { op, list, next } => {
                proof {
                    lemma_models(list@);
                }
                if next < list.len() {
                    let node = list[next].copy();
                    self.push(Frame::NaryFold { op, list, next, acc: v });
                    self.push(Frame::Check(Kind::Number));
                    self.eval(node);
                } else {
                    self.value(v);
                }
            },
            Frame::NaryFold { op, list, next, acc } => match (acc, v) {
                (AST::Num(a), AST::Num(b)) => {
                    proof {
                        lemma_models(list@);
                    }
                    if next < list.len() {
                        self.push(Frame::NaryNext { op, list, next: next + 1 });
                        self.ask(Request::Arithmetic(op, a, b));
                    } else {
                        self.fail(ErrorKind::NotANumber);
                    }
                },
                _ => self.fail(ErrorKind::NotANumber),
            },
            _ => {},
        }
    }

    /// The frames of the loops.
    fn resume_loop(&mut self, frame: Frame, v: AST)
        requires
            frame is RepeatCount || frame is Repeat || frame is ForTest || frame is ForStep
                || frame is ForNext,
        ensures
            final(self)@ == old(self)@.resume_step(frame@, v@),
    {
        match frame {
            Frame::RepeatCount { body } => match v {
                AST::Num(Number::Int(n)) => {
                    self.push(Frame::Repeat { remaining: n, body });
                    self.value(AST::Empty);
                },
                _ => self.fail(ErrorKind::Protocol),
            },
            Frame::Repeat { remaining, body } => {
                if remaining > 0 {
                    let round = copy_list(&body);
                    self.block(Frame::Repeat { remaining: remaining - 1, body }, round);
                } else {
                    self.value(AST::Empty);
                }
            },
            Frame::ForTest { var, current, end, body } => {
                let go = match &v {
                    AST::Word(w) => same_text(w.as_str(), "TRUE"),
                    _ => false,
                };
                if go {
                    let round = copy_list(&body);
                    self.set(var.clone(), current.copy());
                    self.block(Frame::ForStep { var, current, end, body }, round);
                } else {
                    self.value(AST::Empty);
                }
            },
            Frame::ForStep { var, current, end, body } => match current {
                AST::Num(c) => {
                    self.push(Frame::ForNext { var, end, body });
                    self.ask(
                        Request::Arithmetic(Operator::Plus, c, Number::Real(Number::ONE_BITS)),
                    );
                },
                _ => self.fail(ErrorKind::NotANumber),
            },
            Frame::ForNext { var, end, body } => {
                let request = match (&v, &end) {
                    (AST::Num(c), AST::Num(e)) => Some(
                        Request::Compare(Operator::LessEq, c.copy(), e.copy()),
                    ),
                    _ => None,
                };
                match request {
                    Some(request) => {
                        self.push(Frame::ForTest { var, current: v, end, body });
                        self.ask(request);
                    },
                    None => self.fail(ErrorKind::NotANumber),
                }
            },
            _ => {},
        }
    }

    /// The frames that take an answer of the host.
    fn resume_host(&mut self, frame: Frame, v: AST)
        requires
            frame is Arrive || frame is Back || frame is Head || frame is Pick || frame is Loaded
                || frame is Feed,
        ensures
            final(self)@ == old(self)@.resume_step(frame@, v@),
    {
        match frame {
            Frame::Arrive => match v {
                AST::List(mut p) => {
                    proof {
                        lemma_models(p@);
                    }
                    if p.len() == 2 {
                        let y = p.pop_back().unwrap();
                        let x = p.pop_back().unwrap();
                        match (x, y) {
                            (AST::Num(x), AST::Num(y)) => {
                                self.turtle.setxy(x, y);
                                self.value(AST::Empty);
                            },
                            _ => self.fail(ErrorKind::Protocol),
                        }
                    } else {
                        self.fail(ErrorKind::Protocol);
                    }
                },
                _ => self.fail(ErrorKind::Protocol),
            },
            Frame::Back => match v {
                AST::Num(d) => self.advance(d),
                _ => self.fail(ErrorKind::Protocol),
            },
            Frame::Head => match v {
                AST::Num(h) => {
                    self.turtle.setheading(h);
                    self.value(AST::Empty);
                },
                _ => self.fail(ErrorKind::Protocol),
            },
            Frame::Pick { mut list } => match v {
                AST::Num(Number::Int(i)) => {
                    proof {
                        lemma_models(list@);
                    }
                    if i >= 1 && (i as usize) <= list.len() {
                        let item = list.remove((i - 1) as usize).unwrap();
                        self.value(item);
                    } else {
                        let length = string_of(&decimal_text(list.len()));
                        self.raise(ErrorKind::ItemOutOfRange, length);
                    }
                },
                _ => self.fail(ErrorKind::Protocol),
            },
            Frame::Loaded => match v {
                AST::List(lines) => {
                    let queues = self.stack_expr.len();
                    let locals = self.stack_vars.len();
                    self.push(Frame::Feed { lines, next: 0, queues, locals });
                    self.value(AST::Empty);
                },
                _ => self.fail(ErrorKind::Protocol),
            },
            Frame::Feed { lines, next, queues, locals } => {
                proof {
                    lemma_models(lines@);
                }
                if !matches!(v, AST::Empty) {
                    self.push(Frame::Feed { lines, next, queues, locals });
                    self.ask(Request::Print(v));
                } else if next < lines.len() {
                    self.feed_line(lines, next, queues, locals);
                } else {
                    self.value(AST::Empty);
                }
            },
            _ => {},
        }
    }

    /// The top frame, already taken off, takes a value.
    fn resume_frame(&mut self, frame: Frame, v: AST)
        ensures
            final(self)@ == old(self)@.resume_step(frame@, v@),
    {
        match frame {
            Frame::Statements { .. } | Frame::Group | Frame::Coerce(_) | Frame::Check(_)
            | Frame::Operands { .. } | Frame::Body { .. } => self.resume_flow(frame, v),
            Frame::Negate | Frame::BinaryLeft { .. } | Frame::BinaryRight { .. }
            | Frame::Respell { .. } => self.resume_binary(frame, v),
            Frame::NaryNext { .. } | Frame::NaryFold { .. } => self.resume_nary(frame, v),
            Frame::RepeatCount { .. } | Frame::Repeat { .. } | Frame::ForTest { .. }
            | Frame::ForStep { .. } | Frame::ForNext { .. } => self.resume_loop(frame, v),
            _ => self.resume_host(frame, v),
        }
    }

    /// The top frame, already taken off, meets an error.
    fn unwind(&mut self, frame: Frame, e: EvalError)
        ensures
            final(self)@ == old(self)@.unwind_step(frame@, e@),
    {
        match frame {
            Frame::Feed { lines, next, queues, locals } => {
                self.cut(queues, locals);
                self.push(Frame::Feed { lines, next, queues, locals });
                let shown = AST::Word(e.message());
                self.ask(Request::Print(shown));
            },
            _ => self.set_focus(Focus::Raise(e)),
        }
    }

    /// Says whether there is a step to take.
    fn is_active(&self) -> (r: bool)
        ensures
            r == self@.active(),
    {
        match &self.focus {
            Focus::Eval(_) | Focus::Call { .. } => true,
            Focus::Value(_) | Focus::Raise(_) => self.control.len() > 0,
            _ => false,
        }
    }

    /// One step of the machine.
    fn step(&mut self)
        ensures
            final(self)@ == old(self)@.step(),
    {
        let focus = self.take_focus();
        match focus {
            Focus::Eval(node) => self.eval_node(node),
            Focus::Call { callee, collected } => self.gather(callee, collected),
            Focus::Value(v) => match self.pop() {
                Some(frame) => self.resume_frame(frame, v),
                None => self.value(v),
            },
            Focus::Raise(e) => match self.pop() {
                Some(frame) => self.unwind(frame, e),
                None => self.set_focus(Focus::Raise(e)),
            },
            Focus::Idle => {},
            Focus::Ask(r) => self.ask(r),
        }
    }

    /// At most `budget` steps of the machine.
    fn run(&mut self, budget: usize)
        ensures
            final(self)@ == old(self)@.run(budget as nat),
    {
        let mut left = budget;
        let ghost start = self@;
        while left > 0 && self.is_active()
            invariant
                self@.run(left as nat) == start.run(budget as nat),
            decreases left,
        {
            self.step();
            left = left - 1;
        }
    }

    /// The machine comes to rest.
    fn rest(&mut self)
        ensures
            final(self)@ == old(self)@.rest(),
    {
        self.focus = Focus::Idle;
        self.stack_expr = Vec::new();
        self.stack_vars = Vec::new();
        self.control = Vec::new();
        proof {
            assert(self@.queues =~= Seq::empty());
            assert(self@.locals =~= Seq::empty());
            assert(self@.control =~= Seq::empty());
        }
    }

    /// Says how the machine stopped.
    fn settle(&mut self) -> (r: Status)
        ensures
            (final(self)@, r@) == old(self)@.settled(),
    {
        let focus = self.take_focus();
        match focus {
            Focus::Ask(request) => {
                let copy = request.copy();
                self.ask(request);
                Status::Ask(copy)
            },
            Focus::Value(v) => {
                if self.control.len() == 0 {
                    self.rest();
                    Status::Done(Ok(v))
                } else {
                    self.value(v);
                    Status::Ask(Request::Pause)
                }
            },
            Focus::Raise(e) => {
                if self.control.len() == 0 {
                    self.rest();
                    Status::Done(Err(e))
                } else {
                    self.set_focus(Focus::Raise(e));
                    Status::Ask(Request::Pause)
                }
            },
            Focus::Idle => {
                self.rest();
                Status::Done(Ok(AST::Empty))
            },
            other => {
                self.set_focus(other);
                Status::Ask(Request::Pause)
            },
        }
    }

    /// Takes one line of text and runs it.
    ///
    /// The line is parsed. Inside a definition it is kept as a line of the
    /// procedure, unless it is `END`, which closes the definition, or
    /// starts with `TO`, which is an error. Outside it is evaluated:
    /// its statements run from left to right, and the first that gives a
    /// value ends the line with that value. A procedure takes its operands
    /// from what follows it on the line.
    ///
    /// The result is `Done` with the value of the line (`Empty` for none)
    /// or with the error that ended it, or `Ask` with what the host must do
    /// before evaluation can go on with `resume`. When the line is done
    /// the evaluator is at rest: nothing is left on its stacks, whether
    /// the line failed or not. An error does not undo what the line did
    /// before it.
    ///
    /// A line that is fed while the evaluator waits for an answer is
    /// refused, and changes nothing.
    pub fn feed(&mut self, input: &str) -> (r: Status)
        ensures
            old(self)@.focus is Idle ==> (final(self)@, r@) == old(self)@.fed(input@).run(
                SLICE as nat,
            ).settled(),
            !(old(self)@.focus is Idle) ==> final(self)@ == old(self)@ && r@ == StatusModel::Done(
                Err(ErrorModel { kind: ErrorKind::Busy, subject: Seq::empty() }),
            ),
            r matches Status::Done(Ok(_)) ==> final(self)@.at_rest(),
            balanced(old(self)@) ==> balanced(final(self)@),
            sound(old(self)@) ==> sound(final(self)@) && (r matches Status::Ask(request)
                ==> request_sound(request@)) && (r matches Status::Done(Ok(v))
                ==> v@.well_formed()),
    {
        if !self.is_idle() {
            return Status::Done(Err(EvalError { kind: ErrorKind::Busy, subject: String::new() }));
        }
        let ghost start = self@;
        match self.parse(input) {
            Err(e) => self.set_focus(Focus::Raise(e)),
            Ok(ast) => self.accept(ast),
        }
        proof {
            assert(self@ == start.fed(input@));
            if balanced(start) {
                lemma_fed(start, input@);
                lemma_run(start.fed(input@), SLICE as nat);
            }
            if sound(start) {
                crate::sound::lemma_fed(start, input@);
                crate::sound::lemma_run(start.fed(input@), SLICE as nat);
            }
        }
        self.run(SLICE);
        proof {
            if balanced(start) {
                lemma_settled(self@);
            }
            if sound(start) {
                crate::sound::lemma_settled(self@);
            }
        }
        self.settle()
    }

    /// Takes the reply of the host and runs on.
    ///
    /// A reply that answers the request gives the value that evaluation
    /// goes on with. `Failure` in answer to `Load` is an error of the
    /// program; any other reply that does not answer the request is an
    /// error of the host, and ends the line. After `Pause` every reply
    /// lets the evaluator go on. The result is as that of `feed`.
    ///
    /// Where nothing was asked, nothing changes and the result is an
    /// error.
    pub fn resume(&mut self, reply: Reply) -> (r: Status)
        ensures
            !(old(self)@.focus is Idle) ==> (final(self)@, r@) == old(self)@.answered(reply@).run(
                SLICE as nat,
            ).settled(),
            old(self)@.focus is Idle ==> final(self)@ == old(self)@ && r@ == StatusModel::Done(
                Err(ErrorModel { kind: ErrorKind::Protocol, subject: Seq::empty() }),
            ),
            r matches Status::Done(Ok(_)) ==> final(self)@.at_rest(),
            balanced(old(self)@) ==> balanced(final(self)@),
            sound(old(self)@) ==> sound(final(self)@) && (r matches Status::Ask(request)
                ==> request_sound(request@)) && (r matches Status::Done(Ok(v))
                ==> v@.well_formed()),
    {
        if self.is_idle() {
            return Status::Done(
                Err(EvalError { kind: ErrorKind::Protocol, subject: String::new() }),
            );
        }
        let ghost start = self@;
        let focus = self.take_focus();
        match focus {
            Focus::Ask(request) => {
                let failure = match (&request, &reply) {
                    (Request::Load(_), Reply::Failure(text)) => Some(text.clone()),
                    _ => None,
                };
                match value_of(&request, reply) {
                    Some(v) => self.value(v),
                    None => match failure {
                        Some(text) => self.raise(ErrorKind::Host, text),
                        None => self.fail(ErrorKind::Protocol),
                    },
                }
            },
            other => self.set_focus(other),
        }
        proof {
            assert(self@ == start.answered(reply@));
            if balanced(start) {
                lemma_answered(start, reply@);
                lemma_run(start.answered(reply@), SLICE as nat);
            }
            if sound(start) {
                crate::sound::lemma_answered(start, reply@);
                crate::sound::lemma_run(start.answered(reply@), SLICE as nat);
            }
        }
        self.run(SLICE);
        proof {
            if balanced(start) {
                lemma_settled(self@);
            }
            if sound(start) {
                crate::sound::lemma_settled(self@);
            }
        }
        self.settle()
    }
}

/// Adds a word to a list.
fn push_word(list: &mut ListType, text: &str)
    ensures
        ast_models(final(list)@) == ast_models(old(list)@) + seq![AstModel::Word(text@)],
{
    let word = AST::Word(text.to_string());
    proof {
        lemma_models_push(list@, word);
    }
    list.push_back(word);
    assert(ast_models(old(list)@).push(word@) =~= ast_models(old(list)@) + seq![
        AstModel::Word(text@),
    ]);
}

/// Adds the variables of a table, each as `PONS` shows it.
fn show_bindings(t: &Table<AST>, list: &mut ListType)
    ensures
        ast_models(final(list)@) == ast_models(old(list)@) + bindings_shown(t@),
{
    let ghost start = ast_models(list@);
    let mut i: usize = 0;
    assert(start + bindings_shown(t@).take(0) =~= start);
    while i < t.len()
        invariant
            i <= t@.len(),
            ast_models(list@) == start + bindings_shown(t@).take(i as int),
        decreases t@.len() - i,
    {
        let mut entry: ListType = VecDeque::new();
        entry.push_back(AST::Word(t.name_at(i).clone()));
        entry.push_back(AST::Word("is".to_string()));
        entry.push_back(t.value_at(i).copy());
        let shown = AST::List(entry);
        proof {
            lemma_models(entry@);
            assert(ast_models(entry@) =~= seq![
                AstModel::Word(t@[i as int].0),
                AstModel::Word("is"@),
                t@[i as int].1,
            ]);
            assert(shown@ == binding_shown(t@[i as int].0, t@[i as int].1));
            lemma_models_push(list@, shown);
            assert(bindings_shown(t@).take(i + 1) =~= bindings_shown(t@).take(i as int).push(
                shown@,
            ));
            assert((start + bindings_shown(t@).take(i as int)).push(shown@) =~= start
                + bindings_shown(t@).take(i + 1));
        }
        list.push_back(shown);
        i = i + 1;
    }
    assert(bindings_shown(t@).take(t@.len() as int) =~= bindings_shown(t@));
}

/// A procedure as `POPS` shows it.
fn show_procedure(name: &String, p: &Procedure) -> (r: AST)
    ensures
        r@ == procedure_shown(name@, p@),
{
    let mut list: ListType = VecDeque::new();
    proof {
        lemma_models(list@);
        assert(ast_models(list@) =~= Seq::<AstModel>::empty());
    }
    push_word(&mut list, "TO");
    push_word(&mut list, name.as_str());
    let ghost head = ast_models(list@);
    assert(head =~= seq![AstModel::Word("TO"@), AstModel::Word(name@)]);
    let mut i: usize = 0;
    assert(head + as_vars(p@.args).take(0) =~= head);
    while i < p.args.len()
        invariant
            i <= p.args.len(),
            p@.args.len() == p.args.len(),
            ast_models(list@) == head + as_vars(p@.args).take(i as int),
        decreases p.args.len() - i,
    {
        let var = AST::Var(p.args[i].clone());
        proof {
            lemma_models_push(list@, var);
            assert(var@ == as_vars(p@.args)[i as int]);
            assert((head + as_vars(p@.args).take(i as int)).push(var@) =~= head + as_vars(
                p@.args,
            ).take(i + 1));
        }
        list.push_back(var);
        i = i + 1;
    }
    assert(as_vars(p@.args).take(p.args.len() as int) =~= as_vars(p@.args));
    let ghost headed = ast_models(list@);
    let mut k: usize = 0;
    proof {
        lemma_models(p.lines@);
        assert(headed + p@.lines.take(0) =~= headed);
    }
    while k < p.lines.len()
        invariant
            k <= p.lines.len(),
            p@.lines.len() == p.lines.len(),
            forall|j: int| 0 <= j < p.lines.len() ==> (#[trigger] p@.lines[j]) == p.lines@[j]@,
            ast_models(list@) == headed + p@.lines.take(k as int),
        decreases p.lines.len() - k,
    {
        let line = p.lines[k].copy();
        proof {
            lemma_models_push(list@, line);
            assert((headed + p@.lines.take(k as int)).push(line@) =~= headed + p@.lines.take(
                k + 1,
            ));
        }
        list.push_back(line);
        k = k + 1;
    }
    assert(p@.lines.take(p.lines.len() as int) =~= p@.lines);
    push_word(&mut list, "END");
    AST::List(list)
}

/// A copy of a sequence of names.
fn copy_names(v: &Vec<String>) -> (r: Vec<String>)
    ensures
        texts(r@) == texts(v@),
{
    let mut out: Vec<String> = Vec::new();
    let mut i: usize = 0;
    while i < v.len()
        invariant
            i <= v.len(),
            out.len() == i,
            forall|j: int| 0 <= j < i ==> (#[trigger] out@[j])@ == v@[j]@,
        decreases v.len() - i,
    {
        out.push(v[i].clone());
        i = i + 1;
    }
    assert(texts(out@) =~= texts(v@));
    out
}

} // verus!
