//! The lexer: one line of source text to a flat sequence of tokens.
use vstd::prelude::*;
use crate::number::{
    is_decimal, lemma_decimal_nonempty, number_of, parse_number, Number, NumberModel,
};
use crate::text::{chars_of, decimal_of, decimal_text, push_all, string_of, upper, upper_of};

verus! {

/// A token of the language. Names are kept in upper case.
#[derive(Debug, Clone, PartialEq)]
pub enum Token {
    /// The end of a line.
    LineEnd,
    /// A backslash at the end of a line: the statement goes on.
    LineCont,
    /// A run of spaces and tabs.
    Whitespace,
    /// A bare name: a procedure, built in or defined.
    Function(String),
    /// `:NAME`, a variable.
    Var(String),
    /// `"NAME`, a literal word.
    Word(String),
    /// An integer literal.
    Num(i32),
    /// A decimal literal, as written.
    Float(String),
    Plus,
    Minus,
    Multiply,
    Divide,
    Modulo,
    /// Unary minus. The lexer never produces it; the parser uses it as a
    /// context.
    Negation,
    /// The context inside a prefix operator. The lexer never produces it.
    Prefix,
    LParen,
    RParen,
    LBracket,
    RBracket,
    LBrace,
    RBrace,
    Less,
    LessEq,
    Greater,
    GreaterEq,
    Equal,
}

/// The mathematical picture of a [`Token`].
pub enum TokenModel {
    LineEnd,
    LineCont,
    Whitespace,
    Function(Seq<char>),
    Var(Seq<char>),
    Word(Seq<char>),
    Num(i32),
    Float(Seq<char>),
    Plus,
    Minus,
    Multiply,
    Divide,
    Modulo,
    Negation,
    Prefix,
    LParen,
    RParen,
    LBracket,
    RBracket,
    LBrace,
    RBrace,
    Less,
    LessEq,
    Greater,
    GreaterEq,
    Equal,
}

impl View for Token {
    type V = TokenModel;

    open spec fn view(&self) -> TokenModel {
        match self {
            Token::LineEnd => TokenModel::LineEnd,
            Token::LineCont => TokenModel::LineCont,
            Token::Whitespace => TokenModel::Whitespace,
            Token::Function(s) => TokenModel::Function(s@),
            Token::Var(s) => TokenModel::Var(s@),
            Token::Word(s) => TokenModel::Word(s@),
            Token::Num(i) => TokenModel::Num(*i),
            Token::Float(s) => TokenModel::Float(s@),
            Token::Plus => TokenModel::Plus,
            Token::Minus => TokenModel::Minus,
            Token::Multiply => TokenModel::Multiply,
            Token::Divide => TokenModel::Divide,
            Token::Modulo => TokenModel::Modulo,
            Token::Negation => TokenModel::Negation,
            Token::Prefix => TokenModel::Prefix,
            Token::LParen => TokenModel::LParen,
            Token::RParen => TokenModel::RParen,
            Token::LBracket => TokenModel::LBracket,
            Token::RBracket => TokenModel::RBracket,
            Token::LBrace => TokenModel::LBrace,
            Token::RBrace => TokenModel::RBrace,
            Token::Less => TokenModel::Less,
            Token::LessEq => TokenModel::LessEq,
            Token::Greater => TokenModel::Greater,
            Token::GreaterEq => TokenModel::GreaterEq,
            Token::Equal => TokenModel::Equal,
        }
    }
}

impl TokenModel {
    /// A decimal literal follows the decimal grammar.
    pub open spec fn well_formed(self) -> bool {
        self matches TokenModel::Float(s) ==> is_decimal(s)
    }

    /// The token is one that the lexer gives: its name is in upper case,
    /// and it is neither of the two that only the parser uses.
    pub open spec fn normalized(self) -> bool {
        match self {
            TokenModel::Function(s) | TokenModel::Var(s) | TokenModel::Word(s) | TokenModel::Float(
                s,
            ) => is_upper(s),
            TokenModel::Negation | TokenModel::Prefix => false,
            _ => true,
        }
    }

    /// The token ends a line or carries it on.
    pub open spec fn closes_line(self) -> bool {
        self is LineEnd || self is LineCont
    }
}

impl Token {
    /// A copy of this token.
    pub fn copy(&self) -> (r: Token)
        ensures
            r@ == self@,
    {
        match self {
            Token::LineEnd => Token::LineEnd,
            Token::LineCont => Token::LineCont,
            Token::Whitespace => Token::Whitespace,
            Token::Function(s) => Token::Function(s.clone()),
            Token::Var(s) => Token::Var(s.clone()),
            Token::Word(s) => Token::Word(s.clone()),
            Token::Num(i) => Token::Num(*i),
            Token::Float(s) => Token::Float(s.clone()),
            Token::Plus => Token::Plus,
            Token::Minus => Token::Minus,
            Token::Multiply => Token::Multiply,
            Token::Divide => Token::Divide,
            Token::Modulo => Token::Modulo,
            Token::Negation => Token::Negation,
            Token::Prefix => Token::Prefix,
            Token::LParen => Token::LParen,
            Token::RParen => Token::RParen,
            Token::LBracket => Token::LBracket,
            Token::RBracket => Token::RBracket,
            Token::LBrace => Token::LBrace,
            Token::RBrace => Token::RBrace,
            Token::Less => Token::Less,
            Token::LessEq => Token::LessEq,
            Token::Greater => Token::Greater,
            Token::GreaterEq => Token::GreaterEq,
            Token::Equal => Token::Equal,
        }
    }
}

/// No character of the text is a lower-case ASCII letter.
pub open spec fn is_upper(s: Seq<char>) -> bool {
    forall|k: int| 0 <= k < s.len() ==> upper_of(#[trigger] s[k]) == s[k]
}

/// The tokens are as the lexer gives them: each is normalized and well
/// formed, no two `Whitespace` tokens stand side by side, and the first is
/// none where `after_space` is set.
pub open spec fn tidy(ts: Seq<TokenModel>, after_space: bool) -> bool {
    &&& forall|i: int| 0 <= i < ts.len() ==> (#[trigger] ts[i]).normalized()
    &&& forall|i: int| 0 <= i < ts.len() ==> (#[trigger] ts[i]).well_formed()
    &&& forall|i: int|
        0 <= i && i + 1 < ts.len() ==> !((#[trigger] ts[i]) is Whitespace && ts[i + 1] is Whitespace)
    &&& after_space && ts.len() > 0 ==> !(ts[0] is Whitespace)
}

/// The pictures of a sequence of tokens.
pub open spec fn models(tokens: Seq<Token>) -> Seq<TokenModel> {
    tokens.map_values(|t: Token| t@)
}

/// A character that no token starts with.
#[derive(Debug, Clone, PartialEq)]
pub struct LexError {
    /// Where the character stands in the line, counted from zero.
    pub pos: usize,
    /// The character.
    pub ch: char,
    /// The line, with the terminator that the lexer works on.
    pub line: String,
}

/// The text of the error that the character `ch` at `pos` of `line` is.
pub open spec fn lex_message(pos: nat, ch: char, line: Seq<char>) -> Seq<char> {
    "Error at pos "@ + decimal_of(pos) + " ("@ + line + "): unknown char "@ + seq![ch]
}

impl LexError {
    /// The text of the error.
    pub open spec fn message_of(self) -> Seq<char> {
        lex_message(self.pos as nat, self.ch, self.line@)
    }

    /// The error as a line of text for the user.
    pub fn message(&self) -> (s: String)
        ensures
            s@ == self.message_of(),
    {
        let mut out = chars_of("Error at pos ");
        let digits = decimal_text(self.pos);
        push_all(&mut out, &digits);
        let open = chars_of(" (");
        push_all(&mut out, &open);
        let line = chars_of(self.line.as_str());
        push_all(&mut out, &line);
        let close = chars_of("): unknown char ");
        push_all(&mut out, &close);
        out.push(self.ch);
        string_of(&out)
    }
}

/// The characters that a name is made of.
pub open spec fn is_word_char(c: char) -> bool {
    ('a' <= c <= 'z') || ('A' <= c <= 'Z') || ('0' <= c <= '9') || c == '_' || c == '.' || c == '?'
}

/// At `at` stands a backslash that escapes the next character: any but the
/// end of the line.
pub open spec fn is_escape(s: Seq<char>, at: int) -> bool {
    0 <= at && at + 1 < s.len() && s[at] == '\\' && s[at + 1] != '\n'
}

/// Where the word that starts at `from` ends.
pub open spec fn word_end(s: Seq<char>, from: int) -> int
    decreases s.len() - from,
{
    if is_escape(s, from) {
        word_end(s, from + 2)
    } else if 0 <= from < s.len() && is_word_char(s[from]) {
        word_end(s, from + 1)
    } else {
        from
    }
}

/// The word that starts at `from`: its characters in upper case, an escaped
/// character standing for itself.
pub open spec fn word_at(s: Seq<char>, from: int) -> Seq<char>
    decreases s.len() - from,
{
    if is_escape(s, from) {
        seq![upper_of(s[from + 1])] + word_at(s, from + 2)
    } else if 0 <= from < s.len() && is_word_char(s[from]) {
        seq![upper_of(s[from])] + word_at(s, from + 1)
    } else {
        Seq::empty()
    }
}

/// The token that a pair of characters spells, if any.
pub open spec fn pair_token(c1: char, c2: char) -> Option<TokenModel> {
    if c1 == '\\' && c2 == '\n' {
        Some(TokenModel::LineCont)
    } else if c1 == '<' && c2 == '=' {
        Some(TokenModel::LessEq)
    } else if c1 == '>' && c2 == '=' {
        Some(TokenModel::GreaterEq)
    } else {
        None
    }
}

/// The token that a single character spells, if any.
pub open spec fn single_token(c: char) -> Option<TokenModel> {
    if c == ' ' || c == '\t' {
        Some(TokenModel::Whitespace)
    } else if c == '\n' {
        Some(TokenModel::LineEnd)
    } else if c == '<' {
        Some(TokenModel::Less)
    } else if c == '>' {
        Some(TokenModel::Greater)
    } else if c == '+' {
        Some(TokenModel::Plus)
    } else if c == '-' {
        Some(TokenModel::Minus)
    } else if c == '*' {
        Some(TokenModel::Multiply)
    } else if c == '%' {
        Some(TokenModel::Modulo)
    } else if c == '/' {
        Some(TokenModel::Divide)
    } else if c == '(' {
        Some(TokenModel::LParen)
    } else if c == ')' {
        Some(TokenModel::RParen)
    } else if c == '[' {
        Some(TokenModel::LBracket)
    } else if c == ']' {
        Some(TokenModel::RBracket)
    } else if c == '{' {
        Some(TokenModel::LBrace)
    } else if c == '}' {
        Some(TokenModel::RBrace)
    } else if c == '=' {
        Some(TokenModel::Equal)
    } else {
        None
    }
}

/// The token that a bare word is: a number where it reads as one, else a
/// name; the empty word is none.
pub open spec fn bare_token(w: Seq<char>) -> Option<TokenModel> {
    match number_of(w) {
        Some(NumberModel::Int(i)) => Some(TokenModel::Num(i)),
        Some(NumberModel::Decimal(t)) => Some(TokenModel::Float(t)),
        Some(NumberModel::Real(_)) => None,
        None => if w.len() > 0 {
            Some(TokenModel::Function(w))
        } else {
            None
        },
    }
}

/// The token that starts at `pos` and the position after it, or none where
/// no token starts with the character there. A pair of characters is tried
/// before a single one; `:` and `"` take the word behind them, which may be
/// empty.
pub open spec fn token_at(s: Seq<char>, pos: int) -> Option<(TokenModel, int)> {
    let c = s[pos];
    if pos + 1 < s.len() && pair_token(c, s[pos + 1]) is Some {
        Some((pair_token(c, s[pos + 1])->Some_0, pos + 2))
    } else if single_token(c) is Some {
        Some((single_token(c)->Some_0, pos + 1))
    } else if c == ':' {
        Some((TokenModel::Var(word_at(s, pos + 1)), word_end(s, pos + 1)))
    } else if c == '"' {
        Some((TokenModel::Word(word_at(s, pos + 1)), word_end(s, pos + 1)))
    } else {
        match bare_token(word_at(s, pos)) {
            Some(t) => Some((t, word_end(s, pos))),
            None => None,
        }
    }
}

/// The tokens from `pos` to the end of the text, or the position of the
/// first character that starts none. A run of whitespace gives one token;
/// with `after_space` set, whitespace at `pos` gives none.
pub open spec fn scan(s: Seq<char>, pos: int, after_space: bool) -> Result<Seq<TokenModel>, int>
    decreases s.len() - pos,
{
    if pos < 0 || pos >= s.len() {
        Ok(Seq::empty())
    } else {
        match token_at(s, pos) {
            None => Err(pos),
            Some((t, next)) => {
                if next <= pos || next > s.len() {
                    // never taken: a token holds at least one character of the text
                    Err(pos)
                } else {
                    match scan(s, next, t is Whitespace) {
                        Err(at) => Err(at),
                        Ok(rest) => if t is Whitespace && after_space {
                            Ok(rest)
                        } else {
                            Ok(seq![t] + rest)
                        },
                    }
                }
            },
        }
    }
}

/// The line that the lexer works on: the text, closed by a newline if it
/// did not end in one.
pub open spec fn terminated(s: Seq<char>) -> Seq<char> {
    if s.len() > 0 && s.last() == '\n' {
        s
    } else {
        s.push('\n')
    }
}

/// The tokens of a text. Whitespace at the very start gives no token.
pub open spec fn tokens_of(input: Seq<char>) -> Result<Seq<TokenModel>, int> {
    scan(terminated(input), 0, true)
}

proof fn lemma_word_bounds(s: Seq<char>, from: int)
    requires
        0 <= from <= s.len(),
    ensures
        from <= word_end(s, from) <= s.len(),
        word_at(s, from).len() > 0 ==> word_end(s, from) > from,
        s.len() > 0 && s.last() == '\n' && from < s.len() ==> word_end(s, from) < s.len(),
    decreases s.len() - from,
{
    if is_escape(s, from) {
        lemma_word_bounds(s, from + 2);
    } else if from < s.len() && is_word_char(s[from]) {
        lemma_word_bounds(s, from + 1);
    }
}

proof fn lemma_word_upper(s: Seq<char>, from: int)
    ensures
        is_upper(word_at(s, from)),
    decreases s.len() - from,
{
    let w = word_at(s, from);
    if is_escape(s, from) {
        lemma_word_upper(s, from + 2);
        let rest = word_at(s, from + 2);
        assert forall|k: int| 0 <= k < w.len() implies upper_of(#[trigger] w[k]) == w[k] by {
            if k > 0 {
                assert(w[k] == rest[k - 1]);
            }
        }
    } else if 0 <= from < s.len() && is_word_char(s[from]) {
        lemma_word_upper(s, from + 1);
        let rest = word_at(s, from + 1);
        assert forall|k: int| 0 <= k < w.len() implies upper_of(#[trigger] w[k]) == w[k] by {
            if k > 0 {
                assert(w[k] == rest[k - 1]);
            }
        }
    }
}

/// Every token holds at least one character of the text, and none but the
/// two that close a line holds the newline at its end.
proof fn lemma_token_bounds(s: Seq<char>, pos: int)
    requires
        0 <= pos < s.len(),
        token_at(s, pos) is Some,
    ensures
        pos < token_at(s, pos)->Some_0.1 <= s.len(),
        s.last() == '\n' && token_at(s, pos)->Some_0.1 == s.len() ==> token_at(
            s,
            pos,
        )->Some_0.0.closes_line(),
        token_at(s, pos)->Some_0.0.well_formed(),
        token_at(s, pos)->Some_0.0.normalized(),
{
    lemma_word_bounds(s, pos);
    lemma_word_bounds(s, pos + 1);
    lemma_word_upper(s, pos);
    lemma_word_upper(s, pos + 1);
    let w = word_at(s, pos);
    if is_decimal(w) {
        lemma_decimal_nonempty(w);
    }
}

/// What holds of every text that is scanned to the end: the tokens are
/// tidy, and the last token of a text that ends in a newline closes the
/// line.
pub proof fn lemma_scan(s: Seq<char>, pos: int, after_space: bool)
    requires
        0 <= pos <= s.len(),
        scan(s, pos, after_space) is Ok,
    ensures
        tidy(scan(s, pos, after_space)->Ok_0, after_space),
        pos < s.len() && s.last() == '\n' ==> scan(s, pos, after_space)->Ok_0.len() > 0 && scan(
            s,
            pos,
            after_space,
        )->Ok_0.last().closes_line(),
    decreases s.len() - pos,
{
    if pos < s.len() {
        lemma_token_bounds(s, pos);
        let (t, next) = token_at(s, pos)->Some_0;
        lemma_scan(s, next, t is Whitespace);
        let rest = scan(s, next, t is Whitespace)->Ok_0;
        let all = scan(s, pos, after_space)->Ok_0;
        if t is Whitespace && after_space {
            assert(all == rest);
        } else {
            assert(all == seq![t] + rest);
            assert forall|i: int| 0 <= i < all.len() implies (#[trigger] all[i]).well_formed() && (
            #[trigger] all[i]).normalized() by {
                if i > 0 {
                    assert(all[i] == rest[i - 1]);
                }
            }
            assert forall|i: int| 0 <= i && i + 1 < all.len() implies !((
            #[trigger] all[i]) is Whitespace && all[i + 1] is Whitespace) by {
                assert(all[i + 1] == rest[i]);
                if i > 0 {
                    assert(all[i] == rest[i - 1]);
                }
            }
            if rest.len() > 0 {
                assert(all.last() == rest.last());
            }
        }
    }
}

/// Gathers the word that starts at `from`.
fn collect_word(text: &Vec<char>, from: usize) -> (r: (Vec<char>, usize))
    requires
        from <= text.len(),
    ensures
        r.0@ == word_at(text@, from as int),
        r.1 == word_end(text@, from as int),
{
    let mut word: Vec<char> = Vec::new();
    let mut i = from;
    let n = text.len();
    loop
        invariant
            n == text.len(),
            from <= i <= n,
            word_at(text@, from as int) == word@ + word_at(text@, i as int),
            word_end(text@, from as int) == word_end(text@, i as int),
        ensures
            word_at(text@, i as int) =~= Seq::<char>::empty(),
            word_end(text@, i as int) == i,
        decreases n - i,
    {
        if i >= n {
            break ;
        }
        let c = text[i];
        if c == '\\' {
            if i + 1 < n && text[i + 1] != '\n' {
                let e = upper(text[i + 1]);
                proof {
                    assert(is_escape(text@, i as int));
                    assert(word@ + (seq![e] + word_at(text@, i + 2)) =~= word@.push(e) + word_at(
                        text@,
                        i + 2,
                    ));
                }
                word.push(e);
                i = i + 2;
            } else {
                break ;
            }
        } else if ('a' <= c && c <= 'z') || ('A' <= c && c <= 'Z') || ('0' <= c && c <= '9') || c
            == '_' || c == '.' || c == '?' {
            let u = upper(c);
            proof {
                assert(!is_escape(text@, i as int));
                assert(word@ + (seq![u] + word_at(text@, i + 1)) =~= word@.push(u) + word_at(
                    text@,
                    i + 1,
                ));
            }
            word.push(u);
            i = i + 1;
        } else {
            break ;
        }
    }
    assert(word@ + Seq::<char>::empty() =~= word@);
    (word, i)
}

fn pair(c1: char, c2: char) -> (r: Option<Token>)
    ensures
        match pair_token(c1, c2) {
            Some(m) => r is Some && r->Some_0@ == m,
            None => r is None,
        },
{
    if c1 == '\\' && c2 == '\n' {
        Some(Token::LineCont)
    } else if c1 == '<' && c2 == '=' {
        Some(Token::LessEq)
    } else if c1 == '>' && c2 == '=' {
        Some(Token::GreaterEq)
    } else {
        None
    }
}

fn single(c: char) -> (r: Option<Token>)
    ensures
        match single_token(c) {
            Some(m) => r is Some && r->Some_0@ == m,
            None => r is None,
        },
{
    if c == ' ' || c == '\t' {
        Some(Token::Whitespace)
    } else if c == '\n' {
        Some(Token::LineEnd)
    } else if c == '<' {
        Some(Token::Less)
    } else if c == '>' {
        Some(Token::Greater)
    } else if c == '+' {
        Some(Token::Plus)
    } else if c == '-' {
        Some(Token::Minus)
    } else if c == '*' {
        Some(Token::Multiply)
    } else if c == '%' {
        Some(Token::Modulo)
    } else if c == '/' {
        Some(Token::Divide)
    } else if c == '(' {
        Some(Token::LParen)
    } else if c == ')' {
        Some(Token::RParen)
    } else if c == '[' {
        Some(Token::LBracket)
    } else if c == ']' {
        Some(Token::RBracket)
    } else if c == '{' {
        Some(Token::LBrace)
    } else if c == '}' {
        Some(Token::RBrace)
    } else if c == '=' {
        Some(Token::Equal)
    } else {
        None
    }
}

/// The token that starts at `pos`, and where it ends.
fn next_token(text: &Vec<char>, pos: usize) -> (r: Option<(Token, usize)>)
    requires
        pos < text.len(),
    ensures
        match token_at(text@, pos as int) {
            Some((m, next)) => r is Some && r->Some_0.0@ == m && r->Some_0.1 == next,
            None => r is None,
        },
{
    let c = text[pos];
    if pos + 1 < text.len() {
        if let Some(t) = pair(c, text[pos + 1]) {
            return Some((t, pos + 2));
        }
    }
    if let Some(t) = single(c) {
        return Some((t, pos + 1));
    }
    proof {
        lemma_word_bounds(text@, pos as int);
        lemma_word_bounds(text@, pos + 1);
    }
    if c == ':' {
        let (word, end) = collect_word(text, pos + 1);
        Some((Token::Var(string_of(&word)), end))
    } else if c == '"' {
        let (word, end) = collect_word(text, pos + 1);
        Some((Token::Word(string_of(&word)), end))
    } else {
        let (word, end) = collect_word(text, pos);
        match parse_number(&word) {
            Some(Number::Int(i)) => Some((Token::Num(i), end)),
            Some(Number::Decimal(t)) => Some((Token::Float(t), end)),
            Some(Number::Real(_)) => None,
            None => {
                if word.len() > 0 {
                    Some((Token::Function(string_of(&word)), end))
                } else {
                    None
                }
            },
        }
    }
}

/// Splits one line of source text into tokens.
///
/// The line is taken with a newline at its end, added where the text has
/// none. Names come out in upper case. A run of spaces and tabs is one
/// `Whitespace` token, and whitespace at the very start of the text is none.
/// The last token is `LineEnd`, or `LineCont` where a backslash stands before
/// the closing newline. The first character that starts no token ends the
/// scan with an error that carries it and its position.
pub fn process(input: &str) -> (r: Result<Vec<Token>, LexError>)
    ensures
        match tokens_of(input@) {
            Ok(ts) => r is Ok && models(r->Ok_0@) == ts,
            Err(at) => r is Err && r->Err_0.pos == at && r->Err_0.ch == terminated(input@)[at]
                && r->Err_0.line@ == terminated(input@),
        },
        r matches Ok(tokens) ==> tokens.len() > 0 && tokens@.last()@.closes_line() && tidy(
            models(tokens@),
            true,
        ),
{
    let mut text = chars_of(input);
    if text.len() == 0 || text[text.len() - 1] != '\n' {
        text.push('\n');
    }
    assert(text@ == terminated(input@));
    let n = text.len();
    let mut tokens: Vec<Token> = Vec::new();
    let mut pos: usize = 0;
    let mut after_space = true;
    while pos < n
        invariant
            n == text.len(),
            pos <= n,
            text@ == terminated(input@),
            match scan(text@, pos as int, after_space) {
                Ok(rest) => scan(text@, 0, true) == Ok::<Seq<TokenModel>, int>(
                    models(tokens@) + rest,
                ),
                Err(at) => scan(text@, 0, true) == Err::<Seq<TokenModel>, int>(at),
            },
        decreases n - pos,
    {
        match next_token(&text, pos) {
            None => {
                let ch = text[pos];
                return Err(LexError { pos, ch, line: string_of(&text) });
            },
            Some((token, next)) => {
                proof {
                    lemma_token_bounds(text@, pos as int);
                }
                let space = matches!(token, Token::Whitespace);
                proof {
                    let t = token@;
                    match scan(text@, next as int, space) {
                        Ok(rest) => {
                            if !(space && after_space) {
                                assert(models(tokens@) + (seq![t] + rest) =~= models(
                                    tokens@.push(token),
                                ) + rest);
                            }
                        },
                        Err(_) => {},
                    }
                }
                if !(space && after_space) {
                    tokens.push(token);
                }
                after_space = space;
                pos = next;
            },
        }
    }
    proof {
        assert(models(tokens@) + Seq::<TokenModel>::empty() =~= models(tokens@));
        lemma_scan(text@, 0, true);
        let ts = models(tokens@);
        assert(ts.last() == tokens@.last()@);
    }
    Ok(tokens)
}

} // verus!
