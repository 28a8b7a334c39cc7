//! Trees and values as text.
//!
//! The text comes in pieces: what the interpreter can spell itself, and the
//! numbers, which its host spells.
use vstd::prelude::*;
use crate::lexer::{Token, TokenModel};
use crate::number::{Number, NumberModel};
use crate::parser::{ast_models, lemma_models, AstModel, ListType, AST};
use crate::text::{chars_of, push_all, string_of};

verus! {

broadcast use {vstd::std_specs::vecdeque::group_vec_dequeue_axioms, crate::parser::group_ast_models};

/// A piece of text.
#[derive(Debug, Clone, PartialEq)]
pub enum Piece {
    /// The text itself.
    Text(String),
    /// A number, for the host to spell.
    Value(Number),
}

/// The mathematical picture of a [`Piece`].
pub enum PieceModel {
    Text(Seq<char>),
    Value(NumberModel),
}

impl View for Piece {
    type V = PieceModel;

    open spec fn view(&self) -> PieceModel {
        match self {
            Piece::Text(s) => PieceModel::Text(s@),
            Piece::Value(n) => PieceModel::Value(n@),
        }
    }
}

/// The pictures of a sequence of pieces.
pub open spec fn piece_models(v: Seq<Piece>) -> Seq<PieceModel> {
    Seq::new(v.len(), |i: int| v[i]@)
}

/// The sign of an operator; `?` for a token that is none.
pub open spec fn symbol_of(t: TokenModel) -> Seq<char> {
    match t {
        TokenModel::Plus => "+"@,
        TokenModel::Minus => "-"@,
        TokenModel::Multiply => "*"@,
        TokenModel::Divide => "/"@,
        TokenModel::Modulo => "%"@,
        TokenModel::Less => "<"@,
        TokenModel::LessEq => "<="@,
        TokenModel::Greater => ">"@,
        TokenModel::GreaterEq => ">="@,
        TokenModel::Equal => "="@,
        _ => "?"@,
    }
}

/// The name of the kind of a token.
pub open spec fn name_of(t: TokenModel) -> Seq<char> {
    match t {
        TokenModel::LineEnd => "LineEnd"@,
        TokenModel::LineCont => "LineCont"@,
        TokenModel::Whitespace => "Whitespace"@,
        TokenModel::Function(_) => "Function"@,
        TokenModel::Var(_) => "Var"@,
        TokenModel::Word(_) => "Word"@,
        TokenModel::Num(_) => "Num"@,
        TokenModel::Float(_) => "Float"@,
        TokenModel::Plus => "Plus"@,
        TokenModel::Minus => "Minus"@,
        TokenModel::Multiply => "Multiply"@,
        TokenModel::Divide => "Divide"@,
        TokenModel::Modulo => "Modulo"@,
        TokenModel::Negation => "Negation"@,
        TokenModel::Prefix => "Prefix"@,
        TokenModel::LParen => "LParen"@,
        TokenModel::RParen => "RParen"@,
        TokenModel::LBracket => "LBracket"@,
        TokenModel::RBracket => "RBracket"@,
        TokenModel::LBrace => "LBrace"@,
        TokenModel::RBrace => "RBrace"@,
        TokenModel::Less => "Less"@,
        TokenModel::LessEq => "LessEq"@,
        TokenModel::Greater => "Greater"@,
        TokenModel::GreaterEq => "GreaterEq"@,
        TokenModel::Equal => "Equal"@,
    }
}

/// One piece of text.
pub open spec fn text(s: Seq<char>) -> Seq<PieceModel> {
    seq![PieceModel::Text(s)]
}

/// A value as the user writes it: a number, a word without its quote, a
/// list in square brackets with spaces between its elements. What is
/// inside a list was not evaluated and is shown as it was written: a
/// variable with its colon, an operator between its operands.
pub open spec fn shown(a: AstModel) -> Seq<PieceModel>
    decreases a,
{
    match a {
        AstModel::Num(n) => seq![PieceModel::Value(n)],
        AstModel::Word(s) => text(s),
        AstModel::Function(s) => text(s),
        AstModel::Var(s) => text(":"@) + text(s),
        AstModel::List(l) => text("["@) + shown_items(l, l.len()) + text("]"@),
        AstModel::Parens(l) => text("("@) + shown_items(l, l.len()) + text(")"@),
        AstModel::ExprLine(l) => shown_items(l, l.len()),
        AstModel::Negation(x) => text("-"@) + shown(*x),
        AstModel::Binary(t, l, r) => shown(*l) + text(" "@) + text(symbol_of(t)) + text(" "@)
            + shown(*r),
        AstModel::Nary(t, l) => text(symbol_of(t)) + text(" "@) + shown_items(l, l.len()),
        AstModel::FunctionReturn(x) => shown(*x),
        AstModel::Empty => Seq::empty(),
    }
}

/// The first `n` nodes of a list, with a space between each two.
pub open spec fn shown_items(l: Seq<AstModel>, n: nat) -> Seq<PieceModel>
    decreases l, n,
{
    if n == 0 || n > l.len() {
        Seq::empty()
    } else if n == 1 {
        shown(l[0])
    } else {
        shown_items(l, (n - 1) as nat) + text(" "@) + shown(l[n - 1])
    }
}

/// The sign of an operator.
fn symbol(t: &Token) -> (s: &'static str)
    ensures
        s@ == symbol_of(t@),
{
    match t {
        Token::Plus => "+",
        Token::Minus => "-",
        Token::Multiply => "*",
        Token::Divide => "/",
        Token::Modulo => "%",
        Token::Less => "<",
        Token::LessEq => "<=",
        Token::Greater => ">",
        Token::GreaterEq => ">=",
        Token::Equal => "=",
        _ => "?",
    }
}

/// The name of the kind of a token.
fn name(t: &Token) -> (s: &'static str)
    ensures
        s@ == name_of(t@),
{
    match t {
        Token::LineEnd => "LineEnd",
        Token::LineCont => "LineCont",
        Token::Whitespace => "Whitespace",
        Token::Function(_) => "Function",
        Token::Var(_) => "Var",
        Token::Word(_) => "Word",
        Token::Num(_) => "Num",
        Token::Float(_) => "Float",
        Token::Plus => "Plus",
        Token::Minus => "Minus",
        Token::Multiply => "Multiply",
        Token::Divide => "Divide",
        Token::Modulo => "Modulo",
        Token::Negation => "Negation",
        Token::Prefix => "Prefix",
        Token::LParen => "LParen",
        Token::RParen => "RParen",
        Token::LBracket => "LBracket",
        Token::RBracket => "RBracket",
        Token::LBrace => "LBrace",
        Token::RBrace => "RBrace",
        Token::Less => "Less",
        Token::LessEq => "LessEq",
        Token::Greater => "Greater",
        Token::GreaterEq => "GreaterEq",
        Token::Equal => "Equal",
    }
}

/// Adds one piece of text.
fn put(out: &mut Vec<Piece>, s: &str)
    ensures
        piece_models(final(out)@) == piece_models(old(out)@) + text(s@),
{
    out.push(Piece::Text(s.to_string()));
    assert(piece_models(out@) =~= piece_models(old(out)@) + text(s@));
}

/// Adds a list, with a space between each two nodes.
fn render_items(l: &ListType, out: &mut Vec<Piece>)
    ensures
        piece_models(final(out)@) == piece_models(old(out)@) + shown_items(
            ast_models(l@),
            l.len() as nat,
        ),
    decreases l, 0nat,
{
    let ghost start = piece_models(out@);
    let ghost models = ast_models(l@);
    proof {
        lemma_models(l@);
        assert(start + shown_items(models, 0) =~= start);
    }
    let mut i: usize = 0;
    while i < l.len()
        invariant
            i <= l.len(),
            models == ast_models(l@),
            models.len() == l.len(),
            forall|j: int| 0 <= j < l.len() ==> (#[trigger] models[j]) == l@[j]@,
            piece_models(out@) == start + shown_items(models, i as nat),
        decreases l.len() - i,
    {
        let ghost before = piece_models(out@);
        if i > 0 {
            put(out, " ");
        }
        render_into(&l[i], out);
        proof {
            let item = shown(models[i as int]);
            if i > 0 {
                assert(piece_models(out@) == before + text(" "@) + item);
                assert(shown_items(models, (i + 1) as nat) == shown_items(models, i as nat) + text(
                    " "@,
                ) + item);
                assert(start + shown_items(models, i as nat) + text(" "@) + item =~= start + (
                shown_items(models, i as nat) + text(" "@) + item));
            } else {
                assert(shown_items(models, 1) == item);
                assert(before =~= start);
            }
        }
        i = i + 1;
    }
}

/// Adds a node.
fn render_into(a: &AST, out: &mut Vec<Piece>)
    ensures
        piece_models(final(out)@) == piece_models(old(out)@) + shown(a@),
    decreases a, 1nat,
{
    let ghost start = piece_models(out@);
    match a {
        AST::Num(n) => {
            out.push(Piece::Value(n.copy()));
            assert(piece_models(out@) =~= start + shown(a@));
        },
        AST::Word(s) => put(out, s.as_str()),
        AST::Function(s) => put(out, s.as_str()),
        AST::Var(s) => {
            put(out, ":");
            put(out, s.as_str());
            assert(start + text(":"@) + text(s@) =~= start + (text(":"@) + text(s@)));
        },
        AST::List(l) => {
            put(out, "[");
            render_items(l, out);
            put(out, "]");
            proof {
                let inner = shown_items(ast_models(l@), l.len() as nat);
                lemma_models(l@);
                assert(start + text("["@) + inner + text("]"@) =~= start + (text("["@) + inner
                    + text("]"@)));
            }
        },
        AST::Parens(l) => {
            put(out, "(");
            render_items(l, out);
            put(out, ")");
            proof {
                let inner = shown_items(ast_models(l@), l.len() as nat);
                lemma_models(l@);
                assert(start + text("("@) + inner + text(")"@) =~= start + (text("("@) + inner
                    + text(")"@)));
            }
        },
        AST::ExprLine(l) => {
            proof {
                lemma_models(l@);
            }
            render_items(l, out);
        },
        AST::Negation(x) => {
            put(out, "-");
            render_into(x, out);
            assert(start + text("-"@) + shown(x@) =~= start + (text("-"@) + shown(x@)));
        },
        AST::Binary(t, l, r) => {
            render_into(l, out);
            put(out, " ");
            put(out, symbol(t));
            put(out, " ");
            render_into(r, out);
            assert(start + shown(l@) + text(" "@) + text(symbol_of(t@)) + text(" "@) + shown(r@)
                =~= start + (shown(l@) + text(" "@) + text(symbol_of(t@)) + text(" "@) + shown(
                r@,
            )));
        },
        AST::Nary(t, l) => {
            put(out, symbol(t));
            put(out, " ");
            render_items(l, out);
            proof {
                let inner = shown_items(ast_models(l@), l.len() as nat);
                lemma_models(l@);
                assert(start + text(symbol_of(t@)) + text(" "@) + inner =~= start + (text(
                    symbol_of(t@),
                ) + text(" "@) + inner));
            }
        },
        AST::FunctionReturn(x) => render_into(x, out),
        AST::Empty => {
            assert(start + shown(a@) =~= start);
        },
    }
}

/// A value as the user writes it, in pieces.
pub fn render(a: &AST) -> (out: Vec<Piece>)
    ensures
        piece_models(out@) == shown(a@),
{
    let mut out: Vec<Piece> = Vec::new();
    assert(piece_models(out@) =~= Seq::<PieceModel>::empty());
    render_into(a, &mut out);
    assert(Seq::<PieceModel>::empty() + shown(a@) =~= shown(a@));
    out
}

/// The head of a line of the picture of a tree: the indentation but its
/// last two characters, then `+- `; nothing at the root.
pub open spec fn head_of(prefix: Seq<char>) -> Seq<PieceModel> {
    if prefix.len() >= 2 {
        text(prefix.take(prefix.len() - 2) + "+- "@)
    } else {
        Seq::empty()
    }
}

/// The picture of a tree, one node to a line, each below its parent and
/// tied to it by the indentation.
pub open spec fn pictured(a: AstModel, prefix: Seq<char>) -> Seq<PieceModel>
    decreases a, 1nat,
{
    head_of(prefix) + pictured_node(a, prefix)
}

/// The line of a node, and below it the pictures of its children.
pub open spec fn pictured_node(a: AstModel, prefix: Seq<char>) -> Seq<PieceModel>
    decreases a, 0nat,
{
    match a {
        AstModel::Num(n) => seq![PieceModel::Value(n)] + text("\n"@),
        AstModel::Var(s) => text(":"@) + text(s) + text("\n"@),
        AstModel::Word(s) => text("\""@) + text(s) + text("\n"@),
        AstModel::Function(s) => text(s) + text("\n"@),
        AstModel::Empty => text("None\n"@),
        AstModel::Nary(t, l) => text("Prefix "@) + text(name_of(t)) + text("\n"@)
            + pictured_items(l, prefix, l.len()),
        AstModel::List(l) => text("\"LIST\"\n"@) + pictured_items(l, prefix, l.len()),
        AstModel::Parens(l) => text("PARENS\n"@) + pictured_items(l, prefix, l.len()),
        AstModel::ExprLine(l) => text("Expression line\n"@) + pictured_items(
            l,
            prefix,
            l.len(),
        ),
        AstModel::Negation(x) => text("Negation\n"@) + pictured(*x, prefix + "  "@),
        AstModel::FunctionReturn(x) => text("Return\n"@) + pictured(*x, prefix + "  "@),
        AstModel::Binary(t, l, r) => text(name_of(t)) + text("\n"@) + pictured(
            *l,
            prefix + "| "@,
        ) + pictured(*r, prefix + "  "@),
    }
}

/// The pictures of the first `n` nodes of a list; the last node of the
/// list is indented by blanks, the others by a bar.
pub open spec fn pictured_items(l: Seq<AstModel>, prefix: Seq<char>, n: nat) -> Seq<PieceModel>
    decreases l, n,
{
    if n == 0 || n > l.len() {
        Seq::empty()
    } else {
        pictured_items(l, prefix, (n - 1) as nat) + pictured(
            l[n - 1],
            prefix + (if n < l.len() { "| "@ } else { "  "@ }),
        )
    }
}

/// The indentation with two more characters.
fn deeper(prefix: &Vec<char>, more: &str) -> (r: Vec<char>)
    ensures
        r@ == prefix@ + more@,
{
    let mut r: Vec<char> = Vec::new();
    push_all(&mut r, prefix);
    let tail = chars_of(more);
    push_all(&mut r, &tail);
    assert(Seq::<char>::empty() + prefix@ + more@ =~= prefix@ + more@);
    r
}

fn picture_items(l: &ListType, prefix: &Vec<char>, out: &mut Vec<Piece>)
    ensures
        piece_models(final(out)@) == piece_models(old(out)@) + pictured_items(
            ast_models(l@),
            prefix@,
            l.len() as nat,
        ),
    decreases l, 0nat,
{
    let ghost start = piece_models(out@);
    let ghost models = ast_models(l@);
    proof {
        lemma_models(l@);
        assert(start + pictured_items(models, prefix@, 0) =~= start);
    }
    let mut i: usize = 0;
    while i < l.len()
        invariant
            i <= l.len(),
            models == ast_models(l@),
            models.len() == l.len(),
            forall|j: int| 0 <= j < l.len() ==> (#[trigger] models[j]) == l@[j]@,
            piece_models(out@) == start + pictured_items(models, prefix@, i as nat),
        decreases l.len() - i,
    {
        let inner = if i + 1 < l.len() { deeper(prefix, "| ") } else { deeper(prefix, "  ") };
        picture_into(&l[i], &inner, out);
        proof {
            let item = pictured(models[i as int], inner@);
            assert(start + pictured_items(models, prefix@, i as nat) + item =~= start + (
            pictured_items(models, prefix@, i as nat) + item));
        }
        i = i + 1;
    }
}

/// Adds the head of a line.
fn picture_head(prefix: &Vec<char>, out: &mut Vec<Piece>)
    ensures
        piece_models(final(out)@) == piece_models(old(out)@) + head_of(prefix@),
{
    let n = prefix.len();
    if n >= 2 {
        let mut head: Vec<char> = Vec::new();
        let mut i: usize = 0;
        while i < n - 2
            invariant
                n == prefix.len(),
                n >= 2,
                i <= n - 2,
                head@ == prefix@.take(i as int),
            decreases n - i,
        {
            head.push(prefix[i]);
            i = i + 1;
            assert(head@ =~= prefix@.take(i as int));
        }
        let tail = chars_of("+- ");
        push_all(&mut head, &tail);
        let s = string_of(&head);
        put(out, s.as_str());
    } else {
        assert(piece_models(out@) + head_of(prefix@) =~= piece_models(out@));
    }
}

/// Adds the line of a node that has no children.
fn picture_leaf(a: &AST, out: &mut Vec<Piece>)
    requires
        a is Num || a is Var || a is Word || a is Function || a is Empty,
    ensures
        forall|prefix: Seq<char>|
            piece_models(final(out)@) == piece_models(old(out)@) + #[trigger] pictured_node(
                a@,
                prefix,
            ),
{
    let ghost start = piece_models(out@);
    match a {
        AST::Num(v) => {
            out.push(Piece::Value(v.copy()));
            assert(piece_models(out@) =~= start + seq![PieceModel::Value(v@)]);
            put(out, "\n");
            assert(start + seq![PieceModel::Value(v@)] + text("\n"@) =~= start + (
            seq![PieceModel::Value(v@)] + text("\n"@)));
        },
        AST::Var(s) => {
            put(out, ":");
            put(out, s.as_str());
            put(out, "\n");
            assert(start + text(":"@) + text(s@) + text("\n"@) =~= start + (text(":"@) + text(s@)
                + text("\n"@)));
        },
        AST::Word(s) => {
            put(out, "\"");
            put(out, s.as_str());
            put(out, "\n");
            assert(start + text("\""@) + text(s@) + text("\n"@) =~= start + (text("\""@) + text(
                s@,
            ) + text("\n"@)));
        },
        AST::Function(s) => {
            put(out, s.as_str());
            put(out, "\n");
            assert(start + text(s@) + text("\n"@) =~= start + (text(s@) + text("\n"@)));
        },
        _ => {
            put(out, "None\n");
        },
    }
}

/// Adds the line of a node that holds a list, and the pictures of the
/// nodes of the list.
fn picture_list(a: &AST, prefix: &Vec<char>, out: &mut Vec<Piece>)
    requires
        a is Nary || a is List || a is Parens || a is ExprLine,
    ensures
        piece_models(final(out)@) == piece_models(old(out)@) + pictured_node(a@, prefix@),
    decreases a, 0nat,
{
    let ghost start = piece_models(out@);
    match a {
        AST::Nary(t, l) => {
            put(out, "Prefix ");
            put(out, name(t));
            put(out, "\n");
            picture_items(l, prefix, out);
            proof {
                lemma_models(l@);
                let inner = pictured_items(ast_models(l@), prefix@, l.len() as nat);
                assert(start + text("Prefix "@) + text(name_of(t@)) + text("\n"@) + inner
                    =~= start + (text("Prefix "@) + text(name_of(t@)) + text("\n"@) + inner));
            }
        },
        AST::List(l) => {
            put(out, "\"LIST\"\n");
            picture_items(l, prefix, out);
            proof {
                lemma_models(l@);
                let inner = pictured_items(ast_models(l@), prefix@, l.len() as nat);
                assert(start + text("\"LIST\"\n"@) + inner =~= start + (text("\"LIST\"\n"@)
                    + inner));
            }
        },
        AST::Parens(l) => {
            put(out, "PARENS\n");
            picture_items(l, prefix, out);
            proof {
                lemma_models(l@);
                let inner = pictured_items(ast_models(l@), prefix@, l.len() as nat);
                assert(start + text("PARENS\n"@) + inner =~= start + (text("PARENS\n"@) + inner));
            }
        },
        AST::ExprLine(l) => {
            put(out, "Expression line\n");
            picture_items(l, prefix, out);
            proof {
                lemma_models(l@);
                let inner = pictured_items(ast_models(l@), prefix@, l.len() as nat);
                assert(start + text("Expression line\n"@) + inner =~= start + (text(
                    "Expression line\n"@,
                ) + inner));
            }
        },
        _ => {},
    }
}

/// Adds the line of a node with one or two operands, and their pictures.
fn picture_branch(a: &AST, prefix: &Vec<char>, out: &mut Vec<Piece>)
    requires
        a is Negation || a is FunctionReturn || a is Binary,
    ensures
        piece_models(final(out)@) == piece_models(old(out)@) + pictured_node(a@, prefix@),
    decreases a, 0nat,
{
    let ghost start = piece_models(out@);
    match a {
        AST::Negation(x) => {
            put(out, "Negation\n");
            let inner = deeper(prefix, "  ");
            picture_into(x, &inner, out);
            assert(start + text("Negation\n"@) + pictured(x@, inner@) =~= start + (text(
                "Negation\n"@,
            ) + pictured(x@, inner@)));
        },
        AST::FunctionReturn(x) => {
            put(out, "Return\n");
            let inner = deeper(prefix, "  ");
            picture_into(x, &inner, out);
            assert(start + text("Return\n"@) + pictured(x@, inner@) =~= start + (text(
                "Return\n"@,
            ) + pictured(x@, inner@)));
        },
        AST::Binary(t, l, r) => {
            put(out, name(t));
            put(out, "\n");
            let left = deeper(prefix, "| ");
            picture_into(l, &left, out);
            let right = deeper(prefix, "  ");
            picture_into(r, &right, out);
            assert(start + text(name_of(t@)) + text("\n"@) + pictured(l@, left@) + pictured(
                r@,
                right@,
            ) =~= start + (text(name_of(t@)) + text("\n"@) + pictured(l@, left@) + pictured(
                r@,
                right@,
            )));
        },
        _ => {},
    }
}

fn picture_into(a: &AST, prefix: &Vec<char>, out: &mut Vec<Piece>)
    ensures
        piece_models(final(out)@) == piece_models(old(out)@) + pictured(a@, prefix@),
    decreases a, 1nat,
{
    let ghost start = piece_models(out@);
    picture_head(prefix, out);
    match a {
        AST::Num(_) | AST::Var(_) | AST::Word(_) | AST::Function(_) | AST::Empty => picture_leaf(
            a,
            out,
        ),
        AST::Nary(_, _) | AST::List(_) | AST::Parens(_) | AST::ExprLine(_) => picture_list(
            a,
            prefix,
            out,
        ),
        _ => picture_branch(a, prefix, out),
    }
    assert(start + head_of(prefix@) + pictured_node(a@, prefix@) =~= start + (head_of(prefix@)
        + pictured_node(a@, prefix@)));
}

/// The picture of a tree as text, in pieces, for the host to print. Each
/// node stands on a line of its own; `prefix` is the indentation of the
/// root, empty for a whole tree.
pub fn rek_print(item: &AST, prefix: String) -> (out: Vec<Piece>)
    ensures
        piece_models(out@) == pictured(item@, prefix@),
{
    let mut out: Vec<Piece> = Vec::new();
    assert(piece_models(out@) =~= Seq::<PieceModel>::empty());
    let indent = chars_of(prefix.as_str());
    picture_into(item, &indent, &mut out);
    assert(Seq::<PieceModel>::empty() + pictured(item@, prefix@) =~= pictured(item@, prefix@));
    out
}

} // verus!
