//! The parser: the tokens of one line to a tree, by precedence climbing.
//!
//! A call is parsed as a bare name. How many of the expressions behind it a
//! procedure takes is not known here: the evaluator finds out when it runs
//! the procedure.
use std::collections::VecDeque;
use vstd::prelude::*;
use vstd::std_specs::vecdeque::VecDequeAdditionalSpecFns;
use crate::lexer::{models, process, terminated, tokens_of, LexError, Token, TokenModel};
use crate::number::{Number, NumberModel};
use crate::text::chars_of;
use crate::text::string_of;

verus! {

broadcast use vstd::std_specs::vecdeque::group_vec_dequeue_axioms;

/// A sequence of nodes: what stands in a bracket or on a line. Expressions
/// are taken from its front.
pub type ListType = VecDeque<AST>;

pub type WordType = String;

pub type NumType = Number;

/// A node of the tree.
#[derive(Debug, PartialEq)]
pub enum AST {
    /// Unary minus.
    Negation(Box<AST>),
    /// An arithmetic or comparison operator with its two operands.
    Binary(Token, Box<AST>, Box<AST>),
    /// `+` or `*` at the head of a parenthesis, with all its operands.
    Nary(Token, ListType),
    /// A number.
    Num(NumType),
    /// A call of a procedure, by name; its arguments are not attached.
    Function(WordType),
    /// The value that a procedure hands back.
    FunctionReturn(Box<AST>),
    /// `:NAME`.
    Var(WordType),
    /// `"NAME`.
    Word(WordType),
    /// `[ .. ]`, its elements not evaluated.
    List(ListType),
    /// `( .. )`.
    Parens(ListType),
    /// One line of statements.
    ExprLine(ListType),
    /// No node: the line was no complete statement, or a statement gave no
    /// value.
    Empty,
}

/// The mathematical picture of an [`AST`].
pub enum AstModel {
    Negation(Box<AstModel>),
    Binary(TokenModel, Box<AstModel>, Box<AstModel>),
    Nary(TokenModel, Seq<AstModel>),
    Num(NumberModel),
    Function(Seq<char>),
    FunctionReturn(Box<AstModel>),
    Var(Seq<char>),
    Word(Seq<char>),
    List(Seq<AstModel>),
    Parens(Seq<AstModel>),
    ExprLine(Seq<AstModel>),
    Empty,
}

/// The picture of a node.
pub open spec fn ast_model(a: AST) -> AstModel
    decreases a,
{
    match a {
        AST::Negation(b) => AstModel::Negation(Box::new(ast_model(*b))),
        AST::Binary(t, l, r) => AstModel::Binary(
            t@,
            Box::new(ast_model(*l)),
            Box::new(ast_model(*r)),
        ),
        AST::Nary(t, v) => AstModel::Nary(
            t@,
            Seq::new(
            v@.len(),
            |i: int|
                if 0 <= i < v@.len() {
                    ast_model(v[i])
                } else {
                    AstModel::Empty
                },
        ),
        ),
        AST::Num(n) => AstModel::Num(n@),
        AST::Function(s) => AstModel::Function(s@),
        AST::FunctionReturn(b) => AstModel::FunctionReturn(Box::new(ast_model(*b))),
        AST::Var(s) => AstModel::Var(s@),
        AST::Word(s) => AstModel::Word(s@),
        AST::List(v) => AstModel::List(
            Seq::new(
            v@.len(),
            |i: int|
                if 0 <= i < v@.len() {
                    ast_model(v[i])
                } else {
                    AstModel::Empty
                },
        ),
        ),
        AST::Parens(v) => AstModel::Parens(
            Seq::new(
            v@.len(),
            |i: int|
                if 0 <= i < v@.len() {
                    ast_model(v[i])
                } else {
                    AstModel::Empty
                },
        ),
        ),
        AST::ExprLine(v) => AstModel::ExprLine(
            Seq::new(
            v@.len(),
            |i: int|
                if 0 <= i < v@.len() {
                    ast_model(v[i])
                } else {
                    AstModel::Empty
                },
        ),
        ),
        AST::Empty => AstModel::Empty,
    }
}

/// The pictures of a sequence of nodes.
pub open spec fn ast_models(v: Seq<AST>) -> Seq<AstModel> {
    Seq::new(
        v.len(),
        |i: int|
            if 0 <= i < v.len() {
                ast_model(v[i])
            } else {
                AstModel::Empty
            },
    )
}

/// The picture of a list is the list of the pictures.
pub broadcast proof fn lemma_list_model(v: ListType)
    ensures
        #[trigger] ast_model(AST::List(v)) == AstModel::List(ast_models(v@)),
{
    assert(ast_model(AST::List(v))->List_0 =~= ast_models(v@));
}

/// The picture of a parenthesis is the parenthesis of the pictures.
pub broadcast proof fn lemma_parens_model(v: ListType)
    ensures
        #[trigger] ast_model(AST::Parens(v)) == AstModel::Parens(ast_models(v@)),
{
    assert(ast_model(AST::Parens(v))->Parens_0 =~= ast_models(v@));
}

/// The picture of a line is the line of the pictures.
pub broadcast proof fn lemma_line_model(v: ListType)
    ensures
        #[trigger] ast_model(AST::ExprLine(v)) == AstModel::ExprLine(ast_models(v@)),
{
    assert(ast_model(AST::ExprLine(v))->ExprLine_0 =~= ast_models(v@));
}

/// The picture of an operator with many operands holds the pictures of
/// the operands.
pub broadcast proof fn lemma_nary_model(t: Token, v: ListType)
    ensures
        #[trigger] ast_model(AST::Nary(t, v)) == AstModel::Nary(t@, ast_models(v@)),
{
    assert(ast_model(AST::Nary(t, v))->Nary_1 =~= ast_models(v@));
}

/// What the picture of a node with a list in it is.
pub broadcast group group_ast_models {
    lemma_list_model,
    lemma_parens_model,
    lemma_line_model,
    lemma_nary_model,
}

/// The picture of a sequence is the sequence of the pictures.
pub proof fn lemma_models(v: Seq<AST>)
    ensures
        ast_models(v).len() == v.len(),
        forall|i: int| 0 <= i < v.len() ==> (#[trigger] ast_models(v)[i]) == ast_model(v[i]),
{
}

/// The picture of a sequence with one more node at its end.
pub proof fn lemma_models_push(v: Seq<AST>, a: AST)
    ensures
        ast_models(v.push(a)) == ast_models(v).push(ast_model(a)),
{
    assert(ast_models(v.push(a)) =~= ast_models(v).push(ast_model(a)));
}

impl View for AST {
    type V = AstModel;

    open spec fn view(&self) -> AstModel {
        ast_model(*self)
    }
}

/// A copy of a sequence of nodes.
pub fn copy_list(v: &ListType) -> (r: ListType)
    ensures
        ast_models(r@) == ast_models(v@),
    decreases v,
{
    let mut out: ListType = VecDeque::new();
    let mut i: usize = 0;
    while i < v.len()
        invariant
            i <= v.len(),
            out.len() == i,
            forall|j: int| 0 <= j < i ==> (#[trigger] out@[j])@ == v@[j]@,
        decreases v.len() - i,
    {
        assert(decreases_to!(*v => v[i as int]));
        out.push_back(v[i].copy());
        i = i + 1;
    }
    assert(ast_models(out@) =~= ast_models(v@));
    out
}

impl AST {
    /// A copy of this node and all below it.
    pub fn copy(&self) -> (r: AST)
        ensures
            r@ == self@,
        decreases self,
    {
        broadcast use group_ast_models;

        match self {
            AST::Negation(b) => AST::Negation(Box::new(b.copy())),
            AST::Binary(t, l, r) => AST::Binary(t.copy(), Box::new(l.copy()), Box::new(r.copy())),
            AST::Nary(t, v) => AST::Nary(t.copy(), copy_list(v)),
            AST::Num(n) => AST::Num(n.copy()),
            AST::Function(s) => AST::Function(s.clone()),
            AST::FunctionReturn(b) => AST::FunctionReturn(Box::new(b.copy())),
            AST::Var(s) => AST::Var(s.clone()),
            AST::Word(s) => AST::Word(s.clone()),
            AST::List(v) => AST::List(copy_list(v)),
            AST::Parens(v) => AST::Parens(copy_list(v)),
            AST::ExprLine(v) => AST::ExprLine(copy_list(v)),
            AST::Empty => AST::Empty,
        }
    }
}

/// What is wrong with the tokens of a line.
#[derive(Debug, Clone, Copy, PartialEq, Eq)]
pub enum SyntaxError {
    /// A `(` whose `)` does not come before the line ends.
    UnmatchedParen,
    /// A `[` whose `]` does not come before the line ends.
    UnmatchedBracket,
    /// A `)` or `]` that closes nothing.
    UnmatchedCloser,
    /// A minus sign directly before something that cannot be negated.
    BadMinus,
    /// An operand was due and none stands there.
    MissingOperand,
    /// A token that can stand neither in nor after an expression.
    UnknownToken,
    /// Tokens behind the end of the line.
    TrailingTokens,
}

impl SyntaxError {
    /// The text of the error.
    pub open spec fn message_of(self) -> Seq<char> {
        match self {
            SyntaxError::UnmatchedParen => "unmatched left paren"@,
            SyntaxError::UnmatchedBracket => "unmatched left bracket"@,
            SyntaxError::UnmatchedCloser => "unmatched right bracket"@,
            SyntaxError::BadMinus => "bad token after Minus"@,
            SyntaxError::MissingOperand => "missing operand or not an operand"@,
            SyntaxError::UnknownToken => "unknown token"@,
            SyntaxError::TrailingTokens => "parse should get only one line of input!"@,
        }
    }

    /// The error as a line of text for the user.
    pub fn message(&self) -> (s: String)
        ensures
            s@ == self.message_of(),
    {
        let text = match self {
            SyntaxError::UnmatchedParen => "unmatched left paren",
            SyntaxError::UnmatchedBracket => "unmatched left bracket",
            SyntaxError::UnmatchedCloser => "unmatched right bracket",
            SyntaxError::BadMinus => "bad token after Minus",
            SyntaxError::MissingOperand => "missing operand or not an operand",
            SyntaxError::UnknownToken => "unknown token",
            SyntaxError::TrailingTokens => "parse should get only one line of input!",
        };
        string_of(&chars_of(text))
    }
}

/// Why a line of text gave no tree.
#[derive(Debug, Clone, PartialEq)]
pub enum ParseError {
    /// The text holds a character that starts no token.
    Lex(LexError),
    /// The tokens do not make a line of expressions.
    Syntax(SyntaxError),
}

impl ParseError {
    /// The error as a line of text for the user.
    pub fn message(&self) -> (s: String)
        ensures
            s@ == match *self {
                ParseError::Lex(e) => e.message_of(),
                ParseError::Syntax(e) => e.message_of(),
            },
    {
        match self {
            ParseError::Lex(e) => e.message(),
            ParseError::Syntax(e) => e.message(),
        }
    }
}

/// The token at `pos`, if there is one.
pub open spec fn peek(ts: Seq<TokenModel>, pos: int) -> Option<TokenModel> {
    if 0 <= pos < ts.len() {
        Some(ts[pos])
    } else {
        None
    }
}

/// The position behind one `Whitespace` token at `pos`, if one stands there.
pub open spec fn skip_space(ts: Seq<TokenModel>, pos: int) -> int {
    if peek(ts, pos) == Some(TokenModel::Whitespace) {
        pos + 1
    } else {
        pos
    }
}

/// The arithmetic and comparison operators.
pub open spec fn is_operator(t: TokenModel) -> bool {
    t is Plus || t is Minus || t is Multiply || t is Divide || t is Modulo || t is Less
        || t is LessEq || t is Greater || t is GreaterEq || t is Equal
}

/// The tokens that an expression starts with, operators aside: where one
/// follows an expression, a new expression begins.
pub open spec fn starts_primary(t: TokenModel) -> bool {
    t is Num || t is Float || t is Function || t is Var || t is Word || t is LParen
        || t is LBracket
}

/// How tightly the context `last` binds: comparison below sum below
/// product below negation. An open bracket, the inside of a prefix operator
/// and the top of a line bind nothing, so an operator behind an operand is
/// always taken there.
pub open spec fn precedence_of(last: Option<TokenModel>) -> int {
    match last {
        Some(TokenModel::Less) | Some(TokenModel::LessEq) | Some(TokenModel::Greater) | Some(
            TokenModel::GreaterEq,
        ) | Some(TokenModel::Equal) => 0,
        Some(TokenModel::Plus) | Some(TokenModel::Minus) => 1,
        Some(TokenModel::Multiply) | Some(TokenModel::Divide) | Some(TokenModel::Modulo) => 2,
        Some(TokenModel::Negation) => 3,
        _ => -1,
    }
}

/// The node that a single token is, if it is one by itself.
pub open spec fn leaf(t: TokenModel) -> Option<AstModel> {
    match t {
        TokenModel::Num(i) => Some(AstModel::Num(NumberModel::Int(i))),
        TokenModel::Float(s) => Some(AstModel::Num(NumberModel::Decimal(s))),
        TokenModel::Function(s) => Some(AstModel::Function(s)),
        TokenModel::Var(s) => Some(AstModel::Var(s)),
        TokenModel::Word(s) => Some(AstModel::Word(s)),
        _ => None,
    }
}

/// The bracket whose opener stands just before `pos`: the expressions up to
/// its closer, which must be there. A parenthesis gives `Parens`, a square
/// bracket gives `List`.
pub open spec fn bracket_at(ts: Seq<TokenModel>, pos: int, paren: bool) -> Result<
    (AstModel, int),
    SyntaxError,
>
    decreases ts.len() - pos, 4int,
{
    let opener = if paren { TokenModel::LParen } else { TokenModel::LBracket };
    let closer = if paren { TokenModel::RParen } else { TokenModel::RBracket };
    match capture_at(ts, pos, Some(opener), true) {
        Err(e) => Err(e),
        Ok((list, q)) => if peek(ts, q) == Some(closer) {
            Ok((if paren { AstModel::Parens(list) } else { AstModel::List(list) }, q + 1))
        } else if paren {
            Err(SyntaxError::UnmatchedParen)
        } else {
            Err(SyntaxError::UnmatchedBracket)
        },
    }
}

/// The operator `t` in prefix form, its operands starting at `pos`: `+` or
/// `*` directly inside a parenthesis takes every expression up to the
/// closer, any other operator takes two.
pub open spec fn prefix_at(ts: Seq<TokenModel>, pos: int, t: TokenModel, last: Option<TokenModel>) -> Result<
    (AstModel, int),
    SyntaxError,
>
    decreases ts.len() - pos, 4int,
{
    if last == Some(TokenModel::LParen) && (t is Plus || t is Multiply) {
        match capture_at(ts, pos, Some(TokenModel::Prefix), true) {
            Err(e) => Err(e),
            Ok((list, q)) => Ok((AstModel::Nary(t, list), q)),
        }
    } else {
        match parse_one_at(ts, pos, Some(TokenModel::Prefix)) {
            Err(e) => Err(e),
            Ok((l, q1)) => if q1 <= pos || q1 > ts.len() {
                // never taken: an expression holds at least one token
                Err(SyntaxError::MissingOperand)
            } else {
                match parse_one_at(ts, q1, Some(TokenModel::Prefix)) {
                    Err(e) => Err(e),
                    Ok((r, q2)) => Ok((AstModel::Binary(t, Box::new(l), Box::new(r)), q2)),
                }
            },
        }
    }
}

/// The token at `pos` can be negated: a number or an open parenthesis.
pub open spec fn negatable_at(ts: Seq<TokenModel>, pos: int) -> bool {
    match peek(ts, pos) {
        Some(t) => t is Num || t is Float || t is LParen,
        None => false,
    }
}

/// An operand that starts at `pos`, and the position behind it.
///
/// A number, a word, a variable or a name is a leaf. A bracket takes the
/// expressions up to its closer. A minus sign with no space behind it, before
/// a number or a parenthesis, negates the operand that follows; before
/// anything else it is an error. Any other operator in front stands in
/// prefix form.
pub open spec fn parse_left_at(ts: Seq<TokenModel>, pos: int, last: Option<TokenModel>) -> Result<
    (AstModel, int),
    SyntaxError,
>
    decreases ts.len() - pos, 0int,
{
    let p = skip_space(ts, pos);
    match peek(ts, p) {
        None => Err(SyntaxError::MissingOperand),
        Some(t) => {
            if leaf(t) is Some {
                Ok((leaf(t)->Some_0, p + 1))
            } else if t is LParen {
                bracket_at(ts, p + 1, true)
            } else if t is LBracket {
                bracket_at(ts, p + 1, false)
            } else if t is Minus && peek(ts, p + 1) != Some(TokenModel::Whitespace) {
                if negatable_at(ts, p + 1) {
                    match parse_left_at(ts, p + 1, Some(TokenModel::Negation)) {
                        Err(e) => Err(e),
                        Ok((operand, q)) => Ok((AstModel::Negation(Box::new(operand)), q)),
                    }
                } else {
                    Err(SyntaxError::BadMinus)
                }
            } else if is_operator(t) {
                prefix_at(ts, p + 1, t, last)
            } else {
                Err(SyntaxError::MissingOperand)
            }
        },
    }
}

/// The infix operators behind the operand `left`, which ends at `pos`.
///
/// A space, a minus sign and then no space announce a negative operand: the
/// expression ends before them. It also ends at the end of the line and
/// before a token that starts an operand. A closer ends it too, and is an
/// error where nothing is open. An operator that binds tighter than the
/// context takes `left` and the expression behind it; one that does not
/// leaves `left` to the context.
pub open spec fn climb_at(
    ts: Seq<TokenModel>,
    left: AstModel,
    pos: int,
    last: Option<TokenModel>,
) -> Result<(AstModel, int), SyntaxError>
    decreases ts.len() - pos, 1int,
{
    if peek(ts, pos) == Some(TokenModel::Whitespace) && peek(ts, pos + 1) == Some(
        TokenModel::Minus,
    ) && peek(ts, pos + 2) is Some && peek(ts, pos + 2) != Some(TokenModel::Whitespace) {
        Ok((left, pos))
    } else {
        let p = skip_space(ts, pos);
        match peek(ts, p) {
            None => Ok((left, p)),
            Some(t) => {
                if t is LineEnd || starts_primary(t) {
                    Ok((left, p))
                } else if t is RParen || t is RBracket {
                    if last is None {
                        Err(SyntaxError::UnmatchedCloser)
                    } else {
                        Ok((left, p))
                    }
                } else if is_operator(t) {
                    if precedence_of(last) >= precedence_of(Some(t)) {
                        Ok((left, p))
                    } else {
                        match parse_one_at(ts, p + 1, Some(t)) {
                            Err(e) => Err(e),
                            Ok((right, q)) => if q <= p || q > ts.len() {
                                // never taken: an expression holds at least one token
                                Err(SyntaxError::MissingOperand)
                            } else {
                                climb_at(
                                    ts,
                                    AstModel::Binary(t, Box::new(left), Box::new(right)),
                                    q,
                                    last,
                                )
                            },
                        }
                    }
                } else {
                    Err(SyntaxError::UnknownToken)
                }
            },
        }
    }
}

/// One expression that starts at `pos`: an operand and the infix operators
/// behind it.
pub open spec fn parse_one_at(ts: Seq<TokenModel>, pos: int, last: Option<TokenModel>) -> Result<
    (AstModel, int),
    SyntaxError,
>
    decreases ts.len() - pos, 2int,
{
    match parse_left_at(ts, pos, last) {
        Err(e) => Err(e),
        Ok((left, q)) => if q <= pos || q > ts.len() {
            // never taken: an operand holds at least one token
            Err(SyntaxError::MissingOperand)
        } else {
            climb_at(ts, left, q, last)
        },
    }
}

/// The list ends at `pos`: at the end of the tokens, at the end of the line
/// and, inside a bracket, at a closer.
pub open spec fn list_ends(ts: Seq<TokenModel>, pos: int, nested: bool) -> bool {
    match peek(ts, pos) {
        None => true,
        Some(t) => t is LineEnd || (nested && (t is RParen || t is RBracket)),
    }
}

/// The expressions from `pos` to the end of the list, and where it ends.
pub open spec fn capture_at(
    ts: Seq<TokenModel>,
    pos: int,
    last: Option<TokenModel>,
    nested: bool,
) -> Result<(Seq<AstModel>, int), SyntaxError>
    decreases ts.len() - pos, 3int,
{
    if list_ends(ts, pos, nested) {
        Ok((Seq::empty(), pos))
    } else {
        match parse_one_at(ts, pos, last) {
            Err(e) => Err(e),
            Ok((first, q)) => if q <= pos || q > ts.len() {
                // never taken: an expression holds at least one token
                Err(SyntaxError::MissingOperand)
            } else {
                match capture_at(ts, q, last, nested) {
                    Err(e) => Err(e),
                    Ok((rest, end)) => Ok((seq![first] + rest, end)),
                }
            },
        }
    }
}

/// The tree of one line of tokens: its expressions up to the end of the
/// line, behind which nothing may follow.
pub open spec fn line_of(ts: Seq<TokenModel>) -> Result<AstModel, SyntaxError> {
    match capture_at(ts, 0, None, false) {
        Err(e) => Err(e),
        Ok((list, q)) => {
            let end = if peek(ts, q) == Some(TokenModel::LineEnd) { q + 1 } else { q };
            if end < ts.len() {
                Err(SyntaxError::TrailingTokens)
            } else {
                Ok(AstModel::ExprLine(list))
            }
        },
    }
}

impl AstModel {
    /// Every decimal literal in the tree follows the decimal grammar.
    pub open spec fn well_formed(self) -> bool
        decreases self,
    {
        match self {
            AstModel::Num(n) => n.well_formed(),
            AstModel::Negation(x) => x.well_formed(),
            AstModel::FunctionReturn(x) => x.well_formed(),
            AstModel::Binary(_, l, r) => l.well_formed() && r.well_formed(),
            AstModel::Nary(_, l) => all_well_formed(l),
            AstModel::List(l) => all_well_formed(l),
            AstModel::Parens(l) => all_well_formed(l),
            AstModel::ExprLine(l) => all_well_formed(l),
            _ => true,
        }
    }
}

/// Every tree of the sequence is well formed.
pub open spec fn all_well_formed(l: Seq<AstModel>) -> bool
    decreases l,
{
    forall|i: int| 0 <= i < l.len() ==> (#[trigger] l[i]).well_formed()
}

/// Every token of the sequence is well formed.
pub open spec fn tokens_well_formed(ts: Seq<TokenModel>) -> bool {
    forall|i: int| 0 <= i < ts.len() ==> (#[trigger] ts[i]).well_formed()
}

/// A result of the grammar ends behind `pos` (at `pos` or behind it where
/// `strict` is not set) and within the tokens, and its tree is well
/// formed.
pub open spec fn sound(
    r: Result<(AstModel, int), SyntaxError>,
    pos: int,
    len: int,
    strict: bool,
) -> bool {
    r matches Ok((a, q)) ==> (if strict {
        pos < q
    } else {
        pos <= q
    }) && q <= len && a.well_formed()
}

/// The same of a list.
pub open spec fn list_sound(r: Result<(Seq<AstModel>, int), SyntaxError>, pos: int, len: int) -> bool {
    r matches Ok((l, q)) ==> pos <= q <= len && all_well_formed(l)
}

/// An operand takes at least one token, ends within the tokens, and is
/// well formed where the tokens are. So the branches of the grammar that
/// turn a result away for its position are never taken.
pub proof fn lemma_parse_left(ts: Seq<TokenModel>, pos: int, last: Option<TokenModel>)
    requires
        0 <= pos <= ts.len(),
        tokens_well_formed(ts),
    ensures
        sound(parse_left_at(ts, pos, last), pos, ts.len() as int, true),
    decreases ts.len() - pos, 0int,
{
    let p = skip_space(ts, pos);
    if p < ts.len() {
        let t = ts[p];
        assert(t.well_formed());
        if leaf(t) is Some {
        } else if t is LParen {
            lemma_bracket(ts, p + 1, true);
        } else if t is LBracket {
            lemma_bracket(ts, p + 1, false);
        } else if t is Minus && peek(ts, p + 1) != Some(TokenModel::Whitespace) {
            if negatable_at(ts, p + 1) {
                lemma_parse_left(ts, p + 1, Some(TokenModel::Negation));
            }
        } else if is_operator(t) {
            lemma_prefix(ts, p + 1, t, last);
        }
    }
}

/// The same of a bracket.
pub proof fn lemma_bracket(ts: Seq<TokenModel>, pos: int, paren: bool)
    requires
        0 <= pos <= ts.len(),
        tokens_well_formed(ts),
    ensures
        sound(bracket_at(ts, pos, paren), pos, ts.len() as int, true),
    decreases ts.len() - pos, 4int,
{
    let opener = if paren { TokenModel::LParen } else { TokenModel::LBracket };
    lemma_capture(ts, pos, Some(opener), true);
}

/// The same of an operator in prefix form.
pub proof fn lemma_prefix(ts: Seq<TokenModel>, pos: int, t: TokenModel, last: Option<TokenModel>)
    requires
        0 <= pos <= ts.len(),
        tokens_well_formed(ts),
    ensures
        sound(prefix_at(ts, pos, t, last), pos, ts.len() as int, false),
    decreases ts.len() - pos, 4int,
{
    if last == Some(TokenModel::LParen) && (t is Plus || t is Multiply) {
        lemma_capture(ts, pos, Some(TokenModel::Prefix), true);
    } else {
        lemma_parse_one(ts, pos, Some(TokenModel::Prefix));
        match parse_one_at(ts, pos, Some(TokenModel::Prefix)) {
            Ok((l, q1)) => {
                lemma_parse_one(ts, q1, Some(TokenModel::Prefix));
            },
            Err(_) => {},
        }
    }
}

/// The same of the operators behind an operand.
pub proof fn lemma_climb(ts: Seq<TokenModel>, left: AstModel, pos: int, last: Option<TokenModel>)
    requires
        0 <= pos <= ts.len(),
        tokens_well_formed(ts),
        left.well_formed(),
    ensures
        sound(climb_at(ts, left, pos, last), pos, ts.len() as int, false),
    decreases ts.len() - pos, 1int,
{
    if peek(ts, pos) == Some(TokenModel::Whitespace) && peek(ts, pos + 1) == Some(
        TokenModel::Minus,
    ) && peek(ts, pos + 2) is Some && peek(ts, pos + 2) != Some(TokenModel::Whitespace) {
    } else {
        let p = skip_space(ts, pos);
        if p < ts.len() {
            let t = ts[p];
            if is_operator(t) && !(t is LineEnd || starts_primary(t)) && !(t is RParen
                || t is RBracket) && precedence_of(last) < precedence_of(Some(t)) {
                lemma_parse_one(ts, p + 1, Some(t));
                match parse_one_at(ts, p + 1, Some(t)) {
                    Ok((right, q)) => {
                        lemma_climb(
                            ts,
                            AstModel::Binary(t, Box::new(left), Box::new(right)),
                            q,
                            last,
                        );
                    },
                    Err(_) => {},
                }
            }
        }
    }
}

/// The same of an expression.
pub proof fn lemma_parse_one(ts: Seq<TokenModel>, pos: int, last: Option<TokenModel>)
    requires
        0 <= pos <= ts.len(),
        tokens_well_formed(ts),
    ensures
        sound(parse_one_at(ts, pos, last), pos, ts.len() as int, true),
    decreases ts.len() - pos, 2int,
{
    lemma_parse_left(ts, pos, last);
    match parse_left_at(ts, pos, last) {
        Ok((left, q)) => {
            lemma_climb(ts, left, q, last);
        },
        Err(_) => {},
    }
}

/// The same of a list of expressions.
pub proof fn lemma_capture(ts: Seq<TokenModel>, pos: int, last: Option<TokenModel>, nested: bool)
    requires
        0 <= pos <= ts.len(),
        tokens_well_formed(ts),
    ensures
        list_sound(capture_at(ts, pos, last, nested), pos, ts.len() as int),
    decreases ts.len() - pos, 3int,
{
    if !list_ends(ts, pos, nested) {
        lemma_parse_one(ts, pos, last);
        match parse_one_at(ts, pos, last) {
            Ok((first, q)) => {
                lemma_capture(ts, q, last, nested);
                match capture_at(ts, q, last, nested) {
                    Ok((rest, end)) => {
                        let all = seq![first] + rest;
                        assert forall|i: int| 0 <= i < all.len() implies (
                        #[trigger] all[i]).well_formed() by {
                            if i > 0 {
                                assert(all[i] == rest[i - 1]);
                            }
                        }
                    },
                    Err(_) => {},
                }
            },
            Err(_) => {},
        }
    }
}

/// The tree of well-formed tokens is well formed.
pub proof fn lemma_line(ts: Seq<TokenModel>)
    requires
        tokens_well_formed(ts),
    ensures
        line_of(ts) matches Ok(a) ==> a.well_formed(),
{
    lemma_capture(ts, 0, None, false);
}

/// The picture of a context.
pub open spec fn context(last: Option<Token>) -> Option<TokenModel> {
    match last {
        Some(t) => Some(t@),
        None => None,
    }
}

/// The result of a parsing function is the one that the grammar gives.
pub open spec fn agrees(
    r: Result<(AST, usize), SyntaxError>,
    m: Result<(AstModel, int), SyntaxError>,
) -> bool {
    match m {
        Ok((a, q)) => r matches Ok((x, p)) && x@ == a && p == q,
        Err(e) => r matches Err(f) && f == e,
    }
}

/// The result of gathering a list is the one that the grammar gives.
pub open spec fn list_agrees(
    r: Result<(ListType, usize), SyntaxError>,
    m: Result<(Seq<AstModel>, int), SyntaxError>,
) -> bool {
    match m {
        Ok((a, q)) => r matches Ok((x, p)) && ast_models(x@) == a && p == q,
        Err(e) => r matches Err(f) && f == e,
    }
}

fn precedence(token: &Option<Token>) -> (r: i32)
    ensures
        r == precedence_of(context(*token)),
{
    match token {
        Some(Token::Less) | Some(Token::LessEq) | Some(Token::Greater) | Some(Token::GreaterEq)
        | Some(Token::Equal) => 0,
        Some(Token::Plus) | Some(Token::Minus) => 1,
        Some(Token::Multiply) | Some(Token::Divide) | Some(Token::Modulo) => 2,
        Some(Token::Negation) => 3,
        _ => -1,
    }
}

fn is_operator_token(t: &Token) -> (r: bool)
    ensures
        r == is_operator(t@),
{
    matches!(
        t,
        Token::Plus | Token::Minus | Token::Multiply | Token::Divide | Token::Modulo | Token::Less
            | Token::LessEq | Token::Greater | Token::GreaterEq | Token::Equal
    )
}

fn is_space_at(tokens: &Vec<Token>, pos: usize) -> (r: bool)
    ensures
        r == (peek(models(tokens@), pos as int) == Some(TokenModel::Whitespace)),
{
    pos < tokens.len() && matches!(tokens[pos], Token::Whitespace)
}

fn capture_list(tokens: &Vec<Token>, pos: usize, last: &Option<Token>, nested: bool) -> (r: Result<
    (ListType, usize),
    SyntaxError,
>)
    requires
        pos <= tokens.len(),
    ensures
        list_agrees(r, capture_at(models(tokens@), pos as int, context(*last), nested)),
        r matches Ok((_, q)) ==> pos <= q <= tokens.len(),
    decreases tokens.len() - pos, 3int,
{
    let ghost ts = models(tokens@);
    let ghost ctx = context(*last);
    let mut list: ListType = VecDeque::new();
    let mut p = pos;
    loop
        invariant
            pos <= p <= tokens.len(),
            ts == models(tokens@),
            ctx == context(*last),
            match capture_at(ts, p as int, ctx, nested) {
                Ok((rest, end)) => capture_at(ts, pos as int, ctx, nested) == Ok::<
                    (Seq<AstModel>, int),
                    SyntaxError,
                >((ast_models(list@) + rest, end)),
                Err(e) => capture_at(ts, pos as int, ctx, nested) == Err::<
                    (Seq<AstModel>, int),
                    SyntaxError,
                >(e),
            },
        ensures
            list_ends(ts, p as int, nested),
            pos <= p <= tokens.len(),
            capture_at(ts, pos as int, ctx, nested) == Ok::<(Seq<AstModel>, int), SyntaxError>(
                (ast_models(list@), p as int),
            ),
        decreases tokens.len() - p,
    {
        let ends = if p >= tokens.len() {
            true
        } else {
            match &tokens[p] {
                Token::LineEnd => true,
                Token::RParen | Token::RBracket => nested,
                _ => false,
            }
        };
        if ends {
            assert(ast_models(list@) + Seq::<AstModel>::empty() =~= ast_models(list@));
            break ;
        }
        match parse_one(tokens, p, last) {
            Err(e) => {
                return Err(e);
            },
            Ok((first, q)) => {
                proof {
                    match capture_at(ts, q as int, ctx, nested) {
                        Ok((rest, end)) => {
                            assert(ast_models(list@) + (seq![first@] + rest) =~= ast_models(
                                list@.push(first),
                            ) + rest);
                        },
                        Err(_) => {},
                    }
                }
                list.push_back(first);
                p = q;
            },
        }
    }
    Ok((list, p))
}

fn bracket(tokens: &Vec<Token>, pos: usize, paren: bool) -> (r: Result<(AST, usize), SyntaxError>)
    requires
        pos <= tokens.len(),
    ensures
        agrees(r, bracket_at(models(tokens@), pos as int, paren)),
        r matches Ok((_, q)) ==> pos < q <= tokens.len(),
    decreases tokens.len() - pos, 4int,
{
    broadcast use group_ast_models;

    let open = if paren { Some(Token::LParen) } else { Some(Token::LBracket) };
    match capture_list(tokens, pos, &open, true) {
        Err(e) => Err(e),
        Ok((list, q)) => {
            let closed = q < tokens.len() && if paren {
                matches!(tokens[q], Token::RParen)
            } else {
                matches!(tokens[q], Token::RBracket)
            };
            if !closed {
                if paren {
                    Err(SyntaxError::UnmatchedParen)
                } else {
                    Err(SyntaxError::UnmatchedBracket)
                }
            } else if paren {
                Ok((AST::Parens(list), q + 1))
            } else {
                Ok((AST::List(list), q + 1))
            }
        },
    }
}

fn prefix(tokens: &Vec<Token>, pos: usize, token: &Token, last: &Option<Token>) -> (r: Result<
    (AST, usize),
    SyntaxError,
>)
    requires
        pos <= tokens.len(),
    ensures
        agrees(r, prefix_at(models(tokens@), pos as int, token@, context(*last))),
        r matches Ok((_, q)) ==> pos <= q <= tokens.len(),
    decreases tokens.len() - pos, 4int,
{
    broadcast use group_ast_models;

    let inside = Some(Token::Prefix);
    let variadic = matches!(last, Some(Token::LParen)) && matches!(
        token,
        Token::Plus | Token::Multiply
    );
    if variadic {
        match capture_list(tokens, pos, &inside, true) {
            Err(e) => Err(e),
            Ok((list, q)) => Ok((AST::Nary(token.copy(), list), q)),
        }
    } else {
        match parse_one(tokens, pos, &inside) {
            Err(e) => Err(e),
            Ok((l, q1)) => {
                match parse_one(tokens, q1, &inside) {
                    Err(e) => Err(e),
                    Ok((r, q2)) => Ok((AST::Binary(token.copy(), Box::new(l), Box::new(r)), q2)),
                }
            },
        }
    }
}

fn negatable(tokens: &Vec<Token>, pos: usize) -> (r: bool)
    ensures
        r == negatable_at(models(tokens@), pos as int),
{
    pos < tokens.len() && matches!(tokens[pos], Token::Num(_) | Token::Float(_) | Token::LParen)
}

fn leaf_of(token: &Token) -> (r: Option<AST>)
    ensures
        match leaf(token@) {
            Some(m) => r matches Some(a) && a@ == m,
            None => r is None,
        },
{
    match token {
        Token::Num(i) => Some(AST::Num(Number::Int(*i))),
        Token::Float(s) => Some(AST::Num(Number::Decimal(s.clone()))),
        Token::Function(s) => Some(AST::Function(s.clone())),
        Token::Var(s) => Some(AST::Var(s.clone())),
        Token::Word(s) => Some(AST::Word(s.clone())),
        _ => None,
    }
}

fn parse_left(tokens: &Vec<Token>, pos: usize, last: &Option<Token>) -> (r: Result<
    (AST, usize),
    SyntaxError,
>)
    requires
        pos <= tokens.len(),
    ensures
        agrees(r, parse_left_at(models(tokens@), pos as int, context(*last))),
        r matches Ok((_, q)) ==> pos < q <= tokens.len(),
    decreases tokens.len() - pos, 0int,
{
    let ghost ts = models(tokens@);
    let p = if is_space_at(tokens, pos) { pos + 1 } else { pos };
    if p >= tokens.len() {
        return Err(SyntaxError::MissingOperand);
    }
    assert(peek(ts, p as int) == Some(tokens@[p as int]@));
    let token = &tokens[p];
    if let Some(node) = leaf_of(token) {
        return Ok((node, p + 1));
    }
    if matches!(token, Token::LParen) {
        bracket(tokens, p + 1, true)
    } else if matches!(token, Token::LBracket) {
        bracket(tokens, p + 1, false)
    } else if matches!(token, Token::Minus) && !is_space_at(tokens, p + 1) {
        if negatable(tokens, p + 1) {
            let negation = Some(Token::Negation);
            match parse_left(tokens, p + 1, &negation) {
                Err(e) => Err(e),
                Ok((operand, q)) => Ok((AST::Negation(Box::new(operand)), q)),
            }
        } else {
            Err(SyntaxError::BadMinus)
        }
    } else if is_operator_token(token) {
        prefix(tokens, p + 1, token, last)
    } else {
        Err(SyntaxError::MissingOperand)
    }
}

fn climb(tokens: &Vec<Token>, left: AST, pos: usize, last: &Option<Token>) -> (r: Result<
    (AST, usize),
    SyntaxError,
>)
    requires
        pos <= tokens.len(),
    ensures
        agrees(r, climb_at(models(tokens@), left@, pos as int, context(*last))),
        r matches Ok((_, q)) ==> pos <= q <= tokens.len(),
    decreases tokens.len() - pos, 1int,
{
    let ghost ts = models(tokens@);
    let n = tokens.len();
    if is_space_at(tokens, pos) && n - pos > 2 && matches!(tokens[pos + 1], Token::Minus)
        && !matches!(tokens[pos + 2], Token::Whitespace) {
        return Ok((left, pos));
    }
    let p = if is_space_at(tokens, pos) { pos + 1 } else { pos };
    if p >= n {
        return Ok((left, p));
    }
    assert(peek(ts, p as int) == Some(tokens@[p as int]@));
    match &tokens[p] {
        Token::LineEnd | Token::Num(_) | Token::Float(_) | Token::Function(_) | Token::Var(_)
        | Token::Word(_) | Token::LParen | Token::LBracket => Ok((left, p)),
        Token::RParen | Token::RBracket => {
            if last.is_none() {
                Err(SyntaxError::UnmatchedCloser)
            } else {
                Ok((left, p))
            }
        },
        token => {
            if is_operator_token(token) {
                let operator = Some(token.copy());
                if precedence(last) >= precedence(&operator) {
                    Ok((left, p))
                } else {
                    match parse_one(tokens, p + 1, &operator) {
                        Err(e) => Err(e),
                        Ok((right, q)) => {
                            let node = AST::Binary(token.copy(), Box::new(left), Box::new(right));
                            climb(tokens, node, q, last)
                        },
                    }
                }
            } else {
                Err(SyntaxError::UnknownToken)
            }
        },
    }
}

fn parse_one(tokens: &Vec<Token>, pos: usize, last: &Option<Token>) -> (r: Result<
    (AST, usize),
    SyntaxError,
>)
    requires
        pos <= tokens.len(),
    ensures
        agrees(r, parse_one_at(models(tokens@), pos as int, context(*last))),
        r matches Ok((_, q)) ==> pos < q <= tokens.len(),
    decreases tokens.len() - pos, 2int,
{
    match parse_left(tokens, pos, last) {
        Err(e) => Err(e),
        Ok((left, q)) => climb(tokens, left, q, last),
    }
}

/// Parses the tokens of one line.
///
/// The result is an `ExprLine` with the line's expressions in order. A call
/// is a bare `Function` node with no arguments. Tokens behind the end of
/// the line are an error, and so are a bracket that is not closed on the
/// line, a closer that closes nothing and an operator without its operand.
pub fn parse_line(tokens: &Vec<Token>) -> (r: Result<AST, SyntaxError>)
    ensures
        match line_of(models(tokens@)) {
            Ok(m) => r matches Ok(a) && a@ == m,
            Err(e) => r matches Err(f) && f == e,
        },
        tokens_well_formed(models(tokens@)) ==> (r matches Ok(a) ==> a@.well_formed()),
{
    broadcast use group_ast_models;

    proof {
        if tokens_well_formed(models(tokens@)) {
            lemma_line(models(tokens@));
        }
    }
    let top: Option<Token> = None;
    match capture_list(tokens, 0, &top, false) {
        Err(e) => Err(e),
        Ok((list, q)) => {
            let end = if q < tokens.len() && matches!(tokens[q], Token::LineEnd) {
                q + 1
            } else {
                q
            };
            if end < tokens.len() {
                Err(SyntaxError::TrailingTokens)
            } else {
                Ok(AST::ExprLine(list))
            }
        },
    }
}

/// A parser of lines. It keeps the tokens of a line that ends in a
/// continuation until the line that completes the statement arrives.
pub struct Parser {
    saved_tokens: Vec<Token>,
}

impl Parser {
    /// The tokens kept from lines that ended in a continuation.
    pub closed spec fn saved(&self) -> Seq<TokenModel> {
        models(self.saved_tokens@)
    }

    /// A parser that has kept nothing.
    pub fn new() -> (p: Parser)
        ensures
            p.saved() == Seq::<TokenModel>::empty(),
    {
        let p = Parser { saved_tokens: Vec::new() };
        assert(p.saved() =~= Seq::<TokenModel>::empty());
        p
    }

    /// Takes one line of text.
    ///
    /// A character that starts no token is an error and changes nothing. A
    /// line that ends in a continuation gives `Empty`, and its tokens but the
    /// last are kept. Any other line is parsed together with the tokens
    /// kept so far, in front of its own, and nothing is kept.
    pub fn parse(&mut self, input: &str) -> (r: Result<AST, ParseError>)
        ensures
            match tokens_of(input@) {
                Err(at) => final(self).saved() == old(self).saved() && (r matches Err(
                    ParseError::Lex(e),
                ) && e.pos == at && e.ch == terminated(input@)[at] && e.line@ == terminated(
                    input@,
                )),
                Ok(ts) => if ts.last() is LineCont {
                    &&& final(self).saved() == old(self).saved() + ts.drop_last()
                    &&& r matches Ok(a) && a@ == AstModel::Empty
                } else {
                    &&& final(self).saved() == Seq::<TokenModel>::empty()
                    &&& match line_of(old(self).saved() + ts) {
                        Ok(m) => r matches Ok(a) && a@ == m,
                        Err(e) => r matches Err(ParseError::Syntax(f)) && f == e,
                    }
                },
            },
            tokens_well_formed(old(self).saved()) ==> tokens_well_formed(final(self).saved()) && (
            r matches Ok(a) ==> a@.well_formed()),
    {
        let mut tokens = match process(input) {
            Ok(tokens) => tokens,
            Err(e) => {
                return Err(ParseError::Lex(e));
            },
        };
        let ghost ts = models(tokens@);
        let n = tokens.len();
        assert(ts.last() == tokens@[n - 1]@);
        assert(tokens_well_formed(ts));
        if matches!(tokens[n - 1], Token::LineCont) {
            tokens.pop();
            assert(models(tokens@) =~= ts.drop_last());
            let ghost kept = self.saved_tokens@;
            let ghost added = tokens@;
            self.saved_tokens.append(&mut tokens);
            assert(models(kept + added) =~= models(kept) + models(added));
            return Ok(AST::Empty);
        }
        let ghost kept = self.saved_tokens@;
        let ghost fresh = tokens@;
        let mut line: Vec<Token> = Vec::new();
        line.append(&mut self.saved_tokens);
        line.append(&mut tokens);
        assert(line@ =~= kept + fresh);
        assert(models(line@) =~= models(kept) + ts);
        assert(self.saved() =~= Seq::<TokenModel>::empty());
        match parse_line(&line) {
            Ok(a) => Ok(a),
            Err(e) => Err(ParseError::Syntax(e)),
        }
    }
}

} // verus!
