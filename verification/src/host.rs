//! What the interpreter asks of its host, and what the host answers.
//!
//! The interpreter decides; it does not compute with numbers, print or read
//! files. Where a program needs one of these, evaluation stops with a
//! [`Request`], and goes on when the host hands in its [`Reply`].
use std::collections::VecDeque;
use vstd::prelude::*;
use crate::lexer::{Token, TokenModel};
use crate::number::{Number, NumberModel};
use crate::parser::{ast_models, lemma_models, AstModel, ListType, AST};

verus! {

broadcast use {vstd::std_specs::vecdeque::group_vec_dequeue_axioms, crate::parser::group_ast_models};

/// An operator with two operands.
#[derive(Debug, Clone, Copy, PartialEq, Eq)]
pub enum Operator {
    Plus,
    Minus,
    Multiply,
    Divide,
    Modulo,
    Less,
    LessEq,
    Greater,
    GreaterEq,
    Equal,
}

impl Operator {
    /// The operator that a token stands for, if it stands for one.
    pub open spec fn of(t: TokenModel) -> Option<Operator> {
        match t {
            TokenModel::Plus => Some(Operator::Plus),
            TokenModel::Minus => Some(Operator::Minus),
            TokenModel::Multiply => Some(Operator::Multiply),
            TokenModel::Divide => Some(Operator::Divide),
            TokenModel::Modulo => Some(Operator::Modulo),
            TokenModel::Less => Some(Operator::Less),
            TokenModel::LessEq => Some(Operator::LessEq),
            TokenModel::Greater => Some(Operator::Greater),
            TokenModel::GreaterEq => Some(Operator::GreaterEq),
            TokenModel::Equal => Some(Operator::Equal),
            _ => None,
        }
    }

    /// The operator of a token.
    pub fn from_token(t: &Token) -> (r: Option<Operator>)
        ensures
            r == Operator::of(t@),
    {
        match t {
            Token::Plus => Some(Operator::Plus),
            Token::Minus => Some(Operator::Minus),
            Token::Multiply => Some(Operator::Multiply),
            Token::Divide => Some(Operator::Divide),
            Token::Modulo => Some(Operator::Modulo),
            Token::Less => Some(Operator::Less),
            Token::LessEq => Some(Operator::LessEq),
            Token::Greater => Some(Operator::Greater),
            Token::GreaterEq => Some(Operator::GreaterEq),
            Token::Equal => Some(Operator::Equal),
            _ => None,
        }
    }

    /// The operator compares; the others compute.
    pub open spec fn is_comparison(self) -> bool {
        self is Less || self is LessEq || self is Greater || self is GreaterEq || self is Equal
    }

    /// Says whether the operator compares.
    pub fn compares(self) -> (r: bool)
        ensures
            r == self.is_comparison(),
    {
        matches!(
            self,
            Operator::Less | Operator::LessEq | Operator::Greater | Operator::GreaterEq
                | Operator::Equal
        )
    }
}

/// What the interpreter asks of its host.
#[derive(Debug, PartialEq)]
pub enum Request {
    /// The sum, difference, product, quotient or remainder of two numbers.
    /// Answered by `Reply::Number`.
    Arithmetic(Operator, Number, Number),
    /// The number with its sign turned. Answered by `Reply::Number`.
    Negate(Number),
    /// Whether the comparison holds of two numbers. Answered by
    /// `Reply::Truth`.
    Compare(Operator, Number, Number),
    /// The number as text. Answered by `Reply::Text`.
    Spell(Number),
    /// The whole part of the number, within 32 bits. Answered by
    /// `Reply::Integer`.
    Truncate(Number),
    /// Where a turtle at `(x, y)` with the given heading, in degrees to the
    /// left of straight up, stands after `distance` steps ahead.
    /// Answered by `Reply::Point`.
    Advance { x: Number, y: Number, heading: Number, distance: Number },
    /// Show the value to the user. Answered by `Reply::Done`.
    Print(AST),
    /// The lines of the named file. Answered by `Reply::Lines`, or by
    /// `Reply::Failure` where the file cannot be read.
    Load(String),
    /// Nothing is asked: the interpreter hands control back for a moment.
    /// Answered by `Reply::Done`.
    Pause,
}

/// The mathematical picture of a [`Request`].
pub enum RequestModel {
    Arithmetic(Operator, NumberModel, NumberModel),
    Negate(NumberModel),
    Compare(Operator, NumberModel, NumberModel),
    Spell(NumberModel),
    Truncate(NumberModel),
    Advance { x: NumberModel, y: NumberModel, heading: NumberModel, distance: NumberModel },
    Print(AstModel),
    Load(Seq<char>),
    Pause,
}

impl View for Request {
    type V = RequestModel;

    open spec fn view(&self) -> RequestModel {
        match self {
            Request::Arithmetic(op, a, b) => RequestModel::Arithmetic(*op, a@, b@),
            Request::Negate(a) => RequestModel::Negate(a@),
            Request::Compare(op, a, b) => RequestModel::Compare(*op, a@, b@),
            Request::Spell(a) => RequestModel::Spell(a@),
            Request::Truncate(a) => RequestModel::Truncate(a@),
            Request::Advance { x, y, heading, distance } => RequestModel::Advance {
                x: x@,
                y: y@,
                heading: heading@,
                distance: distance@,
            },
            Request::Print(v) => RequestModel::Print(v@),
            Request::Load(name) => RequestModel::Load(name@),
            Request::Pause => RequestModel::Pause,
        }
    }
}

impl Request {
    /// A copy of this request.
    pub fn copy(&self) -> (r: Request)
        ensures
            r@ == self@,
    {
        match self {
            Request::Arithmetic(op, a, b) => Request::Arithmetic(*op, a.copy(), b.copy()),
            Request::Negate(a) => Request::Negate(a.copy()),
            Request::Compare(op, a, b) => Request::Compare(*op, a.copy(), b.copy()),
            Request::Spell(a) => Request::Spell(a.copy()),
            Request::Truncate(a) => Request::Truncate(a.copy()),
            Request::Advance { x, y, heading, distance } => Request::Advance {
                x: x.copy(),
                y: y.copy(),
                heading: heading.copy(),
                distance: distance.copy(),
            },
            Request::Print(v) => Request::Print(v.copy()),
            Request::Load(name) => Request::Load(name.clone()),
            Request::Pause => Request::Pause,
        }
    }
}

/// What the host answers.
#[derive(Debug, Clone, PartialEq)]
pub enum Reply {
    /// A computed number: the bits of a single-precision value.
    Number(u32),
    /// Whether a comparison holds.
    Truth(bool),
    /// A text.
    Text(String),
    /// A whole number.
    Integer(i32),
    /// A position: the bits of its two coordinates.
    Point(u32, u32),
    /// The lines of a file.
    Lines(Vec<String>),
    /// What was asked could not be done; the text says why.
    Failure(String),
    /// What was asked is done.
    Done,
}

/// The mathematical picture of a [`Reply`].
pub enum ReplyModel {
    Number(u32),
    Truth(bool),
    Text(Seq<char>),
    Integer(i32),
    Point(u32, u32),
    Lines(Seq<Seq<char>>),
    Failure(Seq<char>),
    Done,
}

/// The texts of a sequence of strings.
pub open spec fn texts(v: Seq<String>) -> Seq<Seq<char>> {
    Seq::new(v.len(), |i: int| v[i]@)
}

impl View for Reply {
    type V = ReplyModel;

    open spec fn view(&self) -> ReplyModel {
        match self {
            Reply::Number(b) => ReplyModel::Number(*b),
            Reply::Truth(t) => ReplyModel::Truth(*t),
            Reply::Text(s) => ReplyModel::Text(s@),
            Reply::Integer(i) => ReplyModel::Integer(*i),
            Reply::Point(x, y) => ReplyModel::Point(*x, *y),
            Reply::Lines(v) => ReplyModel::Lines(texts(v@)),
            Reply::Failure(s) => ReplyModel::Failure(s@),
            Reply::Done => ReplyModel::Done,
        }
    }
}

/// The word for a truth value.
pub open spec fn truth_word(t: bool) -> AstModel {
    if t {
        AstModel::Word("TRUE"@)
    } else {
        AstModel::Word("FALSE"@)
    }
}

/// A computed number as a value.
pub open spec fn computed(bits: u32) -> AstModel {
    AstModel::Num(NumberModel::Real(bits))
}

/// The value that a reply gives to the request it answers; none where the
/// reply is no answer to the request. The lines of a file come as a list of
/// words, a position as a list of its two coordinates.
pub open spec fn answer(request: RequestModel, reply: ReplyModel) -> Option<AstModel> {
    match (request, reply) {
        (RequestModel::Arithmetic(_, _, _), ReplyModel::Number(b)) => Some(computed(b)),
        (RequestModel::Negate(_), ReplyModel::Number(b)) => Some(computed(b)),
        (RequestModel::Compare(_, _, _), ReplyModel::Truth(t)) => Some(truth_word(t)),
        (RequestModel::Spell(_), ReplyModel::Text(s)) => Some(AstModel::Word(s)),
        (RequestModel::Truncate(_), ReplyModel::Integer(i)) => Some(
            AstModel::Num(NumberModel::Int(i)),
        ),
        (RequestModel::Advance { .. }, ReplyModel::Point(x, y)) => Some(
            AstModel::List(seq![computed(x), computed(y)]),
        ),
        (RequestModel::Print(_), ReplyModel::Done) => Some(AstModel::Empty),
        (RequestModel::Pause, ReplyModel::Done) => Some(AstModel::Empty),
        (RequestModel::Load(_), ReplyModel::Lines(lines)) => Some(
            AstModel::List(Seq::new(lines.len(), |i: int| AstModel::Word(lines[i]))),
        ),
        _ => None,
    }
}

/// The word for a truth value.
pub fn truth(t: bool) -> (r: AST)
    ensures
        r@ == truth_word(t),
{
    if t {
        AST::Word("TRUE".to_string())
    } else {
        AST::Word("FALSE".to_string())
    }
}

/// Turns a reply into the value that it gives to a request.
pub fn value_of(request: &Request, reply: Reply) -> (r: Option<AST>)
    ensures
        match answer(request@, reply@) {
            Some(m) => r matches Some(a) && a@ == m,
            None => r is None,
        },
{
    match (request, reply) {
        (Request::Arithmetic(_, _, _), Reply::Number(b)) => Some(AST::Num(Number::Real(b))),
        (Request::Negate(_), Reply::Number(b)) => Some(AST::Num(Number::Real(b))),
        (Request::Compare(_, _, _), Reply::Truth(t)) => Some(truth(t)),
        (Request::Spell(_), Reply::Text(s)) => Some(AST::Word(s)),
        (Request::Truncate(_), Reply::Integer(i)) => Some(AST::Num(Number::Int(i))),
        (Request::Advance { .. }, Reply::Point(x, y)) => {
            let mut list: ListType = VecDeque::new();
            list.push_back(AST::Num(Number::Real(x)));
            list.push_back(AST::Num(Number::Real(y)));
            proof {
                lemma_models(list@);
                assert(list@[0]@ == computed(x));
                assert(list@[1]@ == computed(y));
                assert(ast_models(list@) =~= seq![computed(x), computed(y)]);
            }
            Some(AST::List(list))
        },
        (Request::Print(_), Reply::Done) => Some(AST::Empty),
        (Request::Pause, Reply::Done) => Some(AST::Empty),
        (Request::Load(_), Reply::Lines(lines)) => {
            let mut list: ListType = VecDeque::new();
            let mut i: usize = 0;
            while i < lines.len()
                invariant
                    i <= lines.len(),
                    list.len() == i,
                    forall|j: int| 0 <= j < i ==> (#[trigger] list@[j])@ == AstModel::Word(lines@[j]@),
                decreases lines.len() - i,
            {
                list.push_back(AST::Word(lines[i].clone()));
                i = i + 1;
            }
            proof {
                lemma_models(list@);
                assert(ast_models(list@) =~= Seq::new(
                    texts(lines@).len(),
                    |i: int| AstModel::Word(texts(lines@)[i]),
                ));
            }
            Some(AST::List(list))
        },
        _ => None,
    }
}

} // verus!
