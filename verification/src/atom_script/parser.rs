//! From tokens to expression trees, by precedence climbing.
//!
//! Every infix operator has a left and a right binding power. An operator is
//! taken only where its left power is at least the power the enclosing
//! context asks for, and its right operand is parsed asking for its right
//! power. `->` binds tightest, then `*` and `/`, then `+` and `-`; operators
//! of one level group from the left.
use crate::atom_script::ast::{Ast, BinaryOp, Expr};
use crate::atom_script::lexer::{lemma_scan_advances, next_token, scan, Lexeme, Token};
use crate::text::chars_of;
use vstd::prelude::*;

verus! {

/// The tokens of `text` from `pos` on, up to its end. (The comparison of
/// positions serves the termination argument; by `lemma_scan_advances` it
/// holds wherever `pos` is within the text.)
pub open spec fn tokens_from(text: Seq<char>, pos: int) -> Seq<Lexeme>
    decreases text.len() - pos,
{
    let (lexeme, next) = scan(text, pos);
    match lexeme {
        Some(lexeme) => if pos < next <= text.len() {
            seq![lexeme] + tokens_from(text, next)
        } else {
            seq![lexeme]
        },
        None => Seq::empty(),
    }
}

/// The tokens of a formula.
pub open spec fn tokens(text: Seq<char>) -> Seq<Lexeme> {
    tokens_from(text, 0)
}

/// A construct that must be followed by a parenthesised argument list.
#[derive(Debug, Clone, Copy, PartialEq, Eq, Structural)]
pub enum Callee {
    /// A hierarchy function such as `@Children`.
    Hierarchy,
    Lookup,
    XLookup,
    Sum,
    Avg,
    Min,
    Max,
}

/// What stood where an operand was expected.
#[derive(Debug, Clone, Copy, PartialEq, Eq, Structural)]
pub enum Stray {
    Plus,
    Minus,
    Mul,
    Div,
    RParen,
    Comma,
    If,
    Arrow,
    Whitespace,
    Error,
    /// The end of the formula.
    End,
}

/// The kind of a token, without its payload.
#[derive(Debug, Clone, Copy, PartialEq, Eq, Structural)]
pub enum TokenKind {
    Plus,
    Minus,
    Mul,
    Div,
    LParen,
    RParen,
    Comma,
    Sum,
    Avg,
    Min,
    Max,
    If,
    Lookup,
    XLookup,
    Arrow,
    Identifier,
    AtIdentifier,
    DimensionRef,
    Number,
    Whitespace,
    Error,
}

/// Why a formula is not an expression.
#[derive(Debug, Clone, Copy, PartialEq, Eq, Structural)]
pub enum ParseError {
    /// An operand was expected, and this was found.
    UnexpectedToken(Stray),
    /// The construct was not followed by `(`.
    ExpectedOpen(Callee),
    /// A parenthesis or an argument list was not closed by `)`.
    ExpectedClose,
    /// The formula goes on after its expression with a token of this kind.
    TrailingToken(TokenKind),
}

impl TokenKind {
    /// The kind of a token.
    pub open spec fn of(lexeme: Lexeme) -> TokenKind {
        match lexeme {
            Lexeme::Plus => TokenKind::Plus,
            Lexeme::Minus => TokenKind::Minus,
            Lexeme::Mul => TokenKind::Mul,
            Lexeme::Div => TokenKind::Div,
            Lexeme::LParen => TokenKind::LParen,
            Lexeme::RParen => TokenKind::RParen,
            Lexeme::Comma => TokenKind::Comma,
            Lexeme::Sum => TokenKind::Sum,
            Lexeme::Avg => TokenKind::Avg,
            Lexeme::Min => TokenKind::Min,
            Lexeme::Max => TokenKind::Max,
            Lexeme::If => TokenKind::If,
            Lexeme::Lookup => TokenKind::Lookup,
            Lexeme::XLookup => TokenKind::XLookup,
            Lexeme::Arrow => TokenKind::Arrow,
            Lexeme::Identifier(_) => TokenKind::Identifier,
            Lexeme::AtIdentifier(_) => TokenKind::AtIdentifier,
            Lexeme::DimensionRef(_) => TokenKind::DimensionRef,
            Lexeme::Number(_) => TokenKind::Number,
            Lexeme::Whitespace => TokenKind::Whitespace,
            Lexeme::Error => TokenKind::Error,
        }
    }

    /// Tells the kind of a token.
    pub fn of_token(token: &Token) -> (kind: TokenKind)
        ensures
            kind == TokenKind::of(token@),
    {
        match token {
            Token::Plus => TokenKind::Plus,
            Token::Minus => TokenKind::Minus,
            Token::Mul => TokenKind::Mul,
            Token::Div => TokenKind::Div,
            Token::LParen => TokenKind::LParen,
            Token::RParen => TokenKind::RParen,
            Token::Comma => TokenKind::Comma,
            Token::Sum => TokenKind::Sum,
            Token::Avg => TokenKind::Avg,
            Token::Min => TokenKind::Min,
            Token::Max => TokenKind::Max,
            Token::If => TokenKind::If,
            Token::Lookup => TokenKind::Lookup,
            Token::XLookup => TokenKind::XLookup,
            Token::Arrow => TokenKind::Arrow,
            Token::Identifier(_) => TokenKind::Identifier,
            Token::AtIdentifier(_) => TokenKind::AtIdentifier,
            Token::DimensionRef(_) => TokenKind::DimensionRef,
            Token::Number(_) => TokenKind::Number,
            Token::Whitespace => TokenKind::Whitespace,
            Token::Error => TokenKind::Error,
        }
    }
}

impl Callee {
    /// The function name a keyword call is parsed to.
    pub open spec fn function_name(self) -> Seq<char> {
        match self {
            Callee::Hierarchy => Seq::empty(),
            Callee::Lookup => "LOOKUP"@,
            Callee::XLookup => "XLOOKUP"@,
            Callee::Sum => "SUM"@,
            Callee::Avg => "AVG"@,
            Callee::Min => "MIN"@,
            Callee::Max => "MAX"@,
        }
    }
}

impl ParseError {
    /// The text of the error.
    pub open spec fn message(self) -> Seq<char> {
        match self {
            ParseError::UnexpectedToken(stray) => match stray {
                Stray::Plus => "Unexpected token: Some(Plus)"@,
                Stray::Minus => "Unexpected token: Some(Minus)"@,
                Stray::Mul => "Unexpected token: Some(Mul)"@,
                Stray::Div => "Unexpected token: Some(Div)"@,
                Stray::RParen => "Unexpected token: Some(RParen)"@,
                Stray::Comma => "Unexpected token: Some(Comma)"@,
                Stray::If => "Unexpected token: Some(If)"@,
                Stray::Arrow => "Unexpected token: Some(Arrow)"@,
                Stray::Whitespace => "Unexpected token: Some(Whitespace)"@,
                Stray::Error => "Unexpected token: Some(Error)"@,
                Stray::End => "Unexpected token: None"@,
            },
            ParseError::ExpectedOpen(callee) => match callee {
                Callee::Hierarchy => "Expected '(' after hierarchy function"@,
                Callee::Lookup => "Expected '(' after LOOKUP"@,
                Callee::XLookup => "Expected '(' after XLOOKUP"@,
                Callee::Sum => "Expected '(' after SUM"@,
                Callee::Avg => "Expected '(' after AVG"@,
                Callee::Min => "Expected '(' after MIN"@,
                Callee::Max => "Expected '(' after MAX"@,
            },
            ParseError::ExpectedClose => "Expected ')'"@,
            ParseError::TrailingToken(kind) => match kind {
                TokenKind::Plus => "Unexpected token after expression: Plus"@,
                TokenKind::Minus => "Unexpected token after expression: Minus"@,
                TokenKind::Mul => "Unexpected token after expression: Mul"@,
                TokenKind::Div => "Unexpected token after expression: Div"@,
                TokenKind::LParen => "Unexpected token after expression: LParen"@,
                TokenKind::RParen => "Unexpected token after expression: RParen"@,
                TokenKind::Comma => "Unexpected token after expression: Comma"@,
                TokenKind::Sum => "Unexpected token after expression: Sum"@,
                TokenKind::Avg => "Unexpected token after expression: Avg"@,
                TokenKind::Min => "Unexpected token after expression: Min"@,
                TokenKind::Max => "Unexpected token after expression: Max"@,
                TokenKind::If => "Unexpected token after expression: If"@,
                TokenKind::Lookup => "Unexpected token after expression: Lookup"@,
                TokenKind::XLookup => "Unexpected token after expression: XLookup"@,
                TokenKind::Arrow => "Unexpected token after expression: Arrow"@,
                TokenKind::Identifier => "Unexpected token after expression: Identifier"@,
                TokenKind::AtIdentifier => "Unexpected token after expression: AtIdentifier"@,
                TokenKind::DimensionRef => "Unexpected token after expression: DimensionRef"@,
                TokenKind::Number => "Unexpected token after expression: Number"@,
                TokenKind::Whitespace => "Unexpected token after expression: Whitespace"@,
                TokenKind::Error => "Unexpected token after expression: Error"@,
            },
        }
    }

    /// Renders the error as text.
    pub fn to_message(self) -> (text: String)
        ensures
            text@ == self.message(),
    {
        match self {
            ParseError::UnexpectedToken(stray) => match stray {
                Stray::Plus => "Unexpected token: Some(Plus)".to_owned(),
                Stray::Minus => "Unexpected token: Some(Minus)".to_owned(),
                Stray::Mul => "Unexpected token: Some(Mul)".to_owned(),
                Stray::Div => "Unexpected token: Some(Div)".to_owned(),
                Stray::RParen => "Unexpected token: Some(RParen)".to_owned(),
                Stray::Comma => "Unexpected token: Some(Comma)".to_owned(),
                Stray::If => "Unexpected token: Some(If)".to_owned(),
                Stray::Arrow => "Unexpected token: Some(Arrow)".to_owned(),
                Stray::Whitespace => "Unexpected token: Some(Whitespace)".to_owned(),
                Stray::Error => "Unexpected token: Some(Error)".to_owned(),
                Stray::End => "Unexpected token: None".to_owned(),
            },
            ParseError::ExpectedOpen(callee) => match callee {
                Callee::Hierarchy => "Expected '(' after hierarchy function".to_owned(),
                Callee::Lookup => "Expected '(' after LOOKUP".to_owned(),
                Callee::XLookup => "Expected '(' after XLOOKUP".to_owned(),
                Callee::Sum => "Expected '(' after SUM".to_owned(),
                Callee::Avg => "Expected '(' after AVG".to_owned(),
                Callee::Min => "Expected '(' after MIN".to_owned(),
                Callee::Max => "Expected '(' after MAX".to_owned(),
            },
            ParseError::ExpectedClose => "Expected ')'".to_owned(),
            ParseError::TrailingToken(kind) => match kind {
                TokenKind::Plus => "Unexpected token after expression: Plus".to_owned(),
                TokenKind::Minus => "Unexpected token after expression: Minus".to_owned(),
                TokenKind::Mul => "Unexpected token after expression: Mul".to_owned(),
                TokenKind::Div => "Unexpected token after expression: Div".to_owned(),
                TokenKind::LParen => "Unexpected token after expression: LParen".to_owned(),
                TokenKind::RParen => "Unexpected token after expression: RParen".to_owned(),
                TokenKind::Comma => "Unexpected token after expression: Comma".to_owned(),
                TokenKind::Sum => "Unexpected token after expression: Sum".to_owned(),
                TokenKind::Avg => "Unexpected token after expression: Avg".to_owned(),
                TokenKind::Min => "Unexpected token after expression: Min".to_owned(),
                TokenKind::Max => "Unexpected token after expression: Max".to_owned(),
                TokenKind::If => "Unexpected token after expression: If".to_owned(),
                TokenKind::Lookup => "Unexpected token after expression: Lookup".to_owned(),
                TokenKind::XLookup => "Unexpected token after expression: XLookup".to_owned(),
                TokenKind::Arrow => "Unexpected token after expression: Arrow".to_owned(),
                TokenKind::Identifier => "Unexpected token after expression: Identifier".to_owned(),
                TokenKind::AtIdentifier => "Unexpected token after expression: AtIdentifier".to_owned(),
                TokenKind::DimensionRef => "Unexpected token after expression: DimensionRef".to_owned(),
                TokenKind::Number => "Unexpected token after expression: Number".to_owned(),
                TokenKind::Whitespace => "Unexpected token after expression: Whitespace".to_owned(),
                TokenKind::Error => "Unexpected token after expression: Error".to_owned(),
            },
        }
    }
}

/// An infix operator.
#[derive(Debug, Clone, Copy, PartialEq, Eq, Structural)]
pub enum Infix {
    /// One of `+ - * /`.
    Arithmetic(BinaryOp),
    /// The time-travel operator `->`.
    Shift,
}

/// The left and right binding powers of an arithmetic operator.
pub open spec fn binding_power(op: BinaryOp) -> (u8, u8) {
    match op {
        BinaryOp::Add | BinaryOp::Sub => (1, 2),
        BinaryOp::Mul | BinaryOp::Div => (3, 4),
    }
}

impl Infix {
    /// The infix operator a token stands for, if any.
    pub open spec fn of(lexeme: Lexeme) -> Option<Infix> {
        match lexeme {
            Lexeme::Arrow => Some(Infix::Shift),
            Lexeme::Plus => Some(Infix::Arithmetic(BinaryOp::Add)),
            Lexeme::Minus => Some(Infix::Arithmetic(BinaryOp::Sub)),
            Lexeme::Mul => Some(Infix::Arithmetic(BinaryOp::Mul)),
            Lexeme::Div => Some(Infix::Arithmetic(BinaryOp::Div)),
            _ => None,
        }
    }

    /// The left and right binding powers.
    pub open spec fn power(self) -> (u8, u8) {
        match self {
            Infix::Shift => (5, 6),
            Infix::Arithmetic(op) => binding_power(op),
        }
    }

    /// The tree of the operator applied to two operands.
    pub open spec fn join(self, lhs: Ast, rhs: Ast) -> Ast {
        match self {
            Infix::Shift => Ast::TimeTravel { lhs: Box::new(lhs), rhs: Box::new(rhs) },
            Infix::Arithmetic(op) => Ast::Binary { op, lhs: Box::new(lhs), rhs: Box::new(rhs) },
        }
    }
}

/// The outcome of parsing a construct from the front of a token sequence:
/// what was parsed or why not, and the tokens left.
pub type Parsed<T> = (Result<T, ParseError>, Seq<Lexeme>);

/// Whether the first of `ts` is `(`.
pub open spec fn opens(ts: Seq<Lexeme>) -> bool {
    ts.len() > 0 && ts[0] is LParen
}

/// Whether the first of `ts` is `)`.
pub open spec fn closes(ts: Seq<Lexeme>) -> bool {
    ts.len() > 0 && ts[0] is RParen
}

/// Parses an expression from the front of `ts`, taking infix operators whose
/// left binding power is at least `min_bp`.
///
/// Here and below, the comparisons of lengths serve the termination
/// argument alone: parsing never leaves more tokens than it was given, so
/// they always hold.
pub open spec fn parse_expr(ts: Seq<Lexeme>, min_bp: u8) -> Parsed<Ast>
    decreases ts.len(), 3int,
{
    match parse_primary(ts) {
        (Ok(lhs), rest) => if rest.len() <= ts.len() {
            parse_infix(lhs, rest, min_bp)
        } else {
            (Ok(lhs), rest)
        },
        (Err(error), rest) => (Err(error), rest),
    }
}

/// Parses what follows the keyword or hierarchy function `callee`, which has
/// just been consumed: a parenthesised argument list.
pub open spec fn parse_call_args(callee: Callee, ts: Seq<Lexeme>) -> Parsed<Seq<Ast>>
    decreases ts.len(), 5int,
{
    if opens(ts) {
        parse_args(ts.drop_first())
    } else {
        (Err(ParseError::ExpectedOpen(callee)), ts)
    }
}

/// Parses a keyword call whose keyword is the first of `ts`.
pub open spec fn parse_keyword_call(callee: Callee, ts: Seq<Lexeme>) -> Parsed<Ast>
    recommends
        ts.len() > 0,
    decreases ts.len(), 1int,
{
    if ts.len() == 0 {
        (Err(ParseError::UnexpectedToken(Stray::End)), ts)
    } else {
        match parse_call_args(callee, ts.drop_first()) {
            (Ok(args), rest) => (Ok(Ast::FunctionCall { name: callee.function_name(), args }), rest),
            (Err(error), rest) => (Err(error), rest),
        }
    }
}

/// Parses an operand: a number, a coordinate, a name, a call or a
/// parenthesised expression.
pub open spec fn parse_primary(ts: Seq<Lexeme>) -> Parsed<Ast>
    decreases ts.len(), 2int,
{
    if ts.len() == 0 {
        (Err(ParseError::UnexpectedToken(Stray::End)), ts)
    } else {
        let after = ts.drop_first();
        match ts[0] {
            Lexeme::Number(value) => (Ok(Ast::Literal(value)), after),
            Lexeme::DimensionRef(name) => (Ok(Ast::DimensionRef(name)), after),
            Lexeme::Identifier(name) => if opens(after) {
                match parse_args(after.drop_first()) {
                    (Ok(args), rest) => (Ok(Ast::FunctionCall { name, args }), rest),
                    (Err(error), rest) => (Err(error), rest),
                }
            } else {
                (Ok(Ast::Identifier(name)), after)
            },
            Lexeme::AtIdentifier(name) => match parse_call_args(Callee::Hierarchy, after) {
                (Ok(args), rest) => (Ok(Ast::HierarchyCall { name, args }), rest),
                (Err(error), rest) => (Err(error), rest),
            },
            Lexeme::Lookup => parse_keyword_call(Callee::Lookup, ts),
            Lexeme::XLookup => parse_keyword_call(Callee::XLookup, ts),
            Lexeme::Sum => parse_keyword_call(Callee::Sum, ts),
            Lexeme::Avg => parse_keyword_call(Callee::Avg, ts),
            Lexeme::Min => parse_keyword_call(Callee::Min, ts),
            Lexeme::Max => parse_keyword_call(Callee::Max, ts),
            Lexeme::LParen => match parse_expr(after, 0) {
                (Ok(inner), rest) => if closes(rest) {
                    (Ok(inner), rest.drop_first())
                } else {
                    (Err(ParseError::ExpectedClose), rest)
                },
                (Err(error), rest) => (Err(error), rest),
            },
            Lexeme::Plus => (Err(ParseError::UnexpectedToken(Stray::Plus)), ts),
            Lexeme::Minus => (Err(ParseError::UnexpectedToken(Stray::Minus)), ts),
            Lexeme::Mul => (Err(ParseError::UnexpectedToken(Stray::Mul)), ts),
            Lexeme::Div => (Err(ParseError::UnexpectedToken(Stray::Div)), ts),
            Lexeme::RParen => (Err(ParseError::UnexpectedToken(Stray::RParen)), ts),
            Lexeme::Comma => (Err(ParseError::UnexpectedToken(Stray::Comma)), ts),
            Lexeme::If => (Err(ParseError::UnexpectedToken(Stray::If)), ts),
            Lexeme::Arrow => (Err(ParseError::UnexpectedToken(Stray::Arrow)), ts),
            Lexeme::Whitespace => (Err(ParseError::UnexpectedToken(Stray::Whitespace)), ts),
            Lexeme::Error => (Err(ParseError::UnexpectedToken(Stray::Error)), ts),
        }
    }
}

/// Extends the operand `lhs` with the infix operators that follow it in
/// `ts`, as far as their left binding power is at least `min_bp`.
pub open spec fn parse_infix(lhs: Ast, ts: Seq<Lexeme>, min_bp: u8) -> Parsed<Ast>
    decreases ts.len(), 1int,
{
    if ts.len() == 0 {
        (Ok(lhs), ts)
    } else {
        match Infix::of(ts[0]) {
            None => (Ok(lhs), ts),
            Some(infix) => if infix.power().0 < min_bp {
                (Ok(lhs), ts)
            } else {
                match parse_expr(ts.drop_first(), infix.power().1) {
                    (Ok(rhs), rest) => if rest.len() < ts.len() {
                        parse_infix(infix.join(lhs, rhs), rest, min_bp)
                    } else {
                        (Ok(infix.join(lhs, rhs)), rest)
                    },
                    (Err(error), rest) => (Err(error), rest),
                }
            },
        }
    }
}

/// Parses an argument list whose `(` has been consumed: expressions
/// separated by commas, up to and including the closing `)`. The list may
/// be empty.
pub open spec fn parse_args(ts: Seq<Lexeme>) -> Parsed<Seq<Ast>>
    decreases ts.len(), 5int,
{
    if closes(ts) {
        (Ok(Seq::empty()), ts.drop_first())
    } else {
        parse_more_args(Seq::empty(), ts)
    }
}

/// Parses the rest of an argument list after the arguments `done`: one
/// expression, then either a comma and more, or the closing `)`.
pub open spec fn parse_more_args(done: Seq<Ast>, ts: Seq<Lexeme>) -> Parsed<Seq<Ast>>
    decreases ts.len(), 4int,
{
    match parse_expr(ts, 0) {
        (Ok(arg), rest) => if rest.len() > 0 && rest[0] is Comma {
            if rest.len() <= ts.len() {
                parse_more_args(done.push(arg), rest.drop_first())
            } else {
                (Ok(done.push(arg)), rest)
            }
        } else if closes(rest) {
            (Ok(done.push(arg)), rest.drop_first())
        } else {
            (Err(ParseError::ExpectedClose), rest)
        },
        (Err(error), rest) => (Err(error), rest),
    }
}

/// The expression that all of a formula's tokens make up, or why they make
/// up none, and the tokens left where parsing stopped. A formula that goes
/// on after its expression is in error.
pub open spec fn parse_formula(ts: Seq<Lexeme>) -> Parsed<Ast> {
    match parse_expr(ts, 0) {
        (Ok(tree), rest) => if rest.len() == 0 {
            (Ok(tree), rest)
        } else {
            (Err(ParseError::TrailingToken(TokenKind::of(rest[0]))), rest)
        },
        (Err(error), rest) => (Err(error), rest),
    }
}

/// Whether an executable result and the tokens left are what the grammar
/// gives.
pub open spec fn parsed_as(
    result: Result<Expr, ParseError>,
    left: Seq<Lexeme>,
    expected: Parsed<Ast>,
) -> bool {
    &&& left == expected.1
    &&& match expected.0 {
        Ok(tree) => result matches Ok(expr) && expr@ == tree,
        Err(error) => result == Err::<Expr, ParseError>(error),
    }
}

/// Whether an executable argument list and the tokens left are what the
/// grammar gives.
pub open spec fn parsed_args_as(
    result: Result<Vec<Expr>, ParseError>,
    left: Seq<Lexeme>,
    expected: Parsed<Seq<Ast>>,
) -> bool {
    &&& left == expected.1
    &&& match expected.0 {
        Ok(trees) => result matches Ok(exprs) && Expr::ast_list(exprs@) == trees,
        Err(error) => result == Err::<Vec<Expr>, ParseError>(error),
    }
}

/// The left and right binding powers of an arithmetic operator.
pub fn infix_binding_power(op: &BinaryOp) -> (power: (u8, u8))
    ensures
        power == binding_power(*op),
{
    match op {
        BinaryOp::Add | BinaryOp::Sub => (1, 2),
        BinaryOp::Mul | BinaryOp::Div => (3, 4),
    }
}

/// A parser over one formula, one token ahead of what it has consumed.
pub struct Parser<'a> {
    source: &'a str,
    chars: Vec<char>,
    pos: usize,
    current_token: Option<Token>,
}

impl<'a> Parser<'a> {
    /// The scanner's position is within the text, and at its end once the
    /// tokens have run out.
    pub closed spec fn well_formed(&self) -> bool {
        &&& self.chars@ == self.source@
        &&& self.pos <= self.chars.len()
        &&& self.current_token is None ==> self.pos == self.chars.len()
    }

    /// The tokens not yet consumed: the current one and those after it.
    pub closed spec fn stream(&self) -> Seq<Lexeme> {
        match self.current_token {
            Some(token) => seq![token@] + tokens_from(self.source@, self.pos as int),
            None => Seq::empty(),
        }
    }

    /// A parser at the first token of `input`.
    pub fn new(input: &'a str) -> (parser: Self)
        ensures
            parser.well_formed(),
            parser.stream() == tokens(input@),
    {
        let chars = chars_of(input);
        let (first, pos) = next_token(input, &chars, 0);
        proof {
            lemma_scan_advances(input@, 0);
        }
        Parser { source: input, chars, pos, current_token: first }
    }

    /// Moves to the next token.
    fn advance(&mut self)
        requires
            old(self).well_formed(),
        ensures
            final(self).well_formed(),
            old(self).stream().len() > 0 ==> final(self).stream() == old(self).stream().drop_first(),
            old(self).stream().len() == 0 ==> final(self).stream() == old(self).stream(),
    {
        proof {
            lemma_scan_advances(self.source@, self.pos as int);
        }
        let (token, next) = next_token(self.source, &self.chars, self.pos);
        self.pos = next;
        self.current_token = token;
        proof {
            if old(self).stream().len() > 0 {
                assert(old(self).stream().drop_first() =~= tokens_from(
                    self.source@,
                    old(self).pos as int,
                ));
            }
        }
    }

    /// Parses the unconsumed tokens as one expression.
    ///
    /// On success every token has been consumed. On failure the result is
    /// the text of the first error and the parser stands where it met the
    /// error.
    pub fn parse(&mut self) -> (result: Result<Expr, String>)
        requires
            old(self).well_formed(),
        ensures
            final(self).well_formed(),
            final(self).stream() == parse_formula(old(self).stream()).1,
            match parse_formula(old(self).stream()).0 {
                Ok(tree) => result matches Ok(expr) && expr@ == tree,
                Err(error) => result matches Err(text) && text@ == error.message(),
            },
    {
        match self.parse_expr(0) {
            Ok(expr) => match &self.current_token {
                Some(token) => {
                    Err(ParseError::TrailingToken(TokenKind::of_token(token)).to_message())
                },
                None => Ok(expr),
            },
            Err(error) => Err(error.to_message()),
        }
    }

    /// Whether the current token is `(`.
    fn at_open(&self) -> (yes: bool)
        ensures
            yes == opens(self.stream()),
    {
        match &self.current_token {
            Some(Token::LParen) => true,
            _ => false,
        }
    }

    /// Whether the current token is `)`.
    fn at_close(&self) -> (yes: bool)
        ensures
            yes == closes(self.stream()),
    {
        match &self.current_token {
            Some(Token::RParen) => true,
            _ => false,
        }
    }

    /// Whether the current token is `,`.
    fn at_comma(&self) -> (yes: bool)
        ensures
            yes == (self.stream().len() > 0 && self.stream()[0] is Comma),
    {
        match &self.current_token {
            Some(Token::Comma) => true,
            _ => false,
        }
    }

    /// The infix operator the current token stands for, if any.
    fn at_infix(&self) -> (infix: Option<Infix>)
        ensures
            infix == (if self.stream().len() > 0 {
                Infix::of(self.stream()[0])
            } else {
                None
            }),
    {
        match &self.current_token {
            Some(Token::Arrow) => Some(Infix::Shift),
            Some(Token::Plus) => Some(Infix::Arithmetic(BinaryOp::Add)),
            Some(Token::Minus) => Some(Infix::Arithmetic(BinaryOp::Sub)),
            Some(Token::Mul) => Some(Infix::Arithmetic(BinaryOp::Mul)),
            Some(Token::Div) => Some(Infix::Arithmetic(BinaryOp::Div)),
            _ => None,
        }
    }

    fn parse_expr(&mut self, min_bp: u8) -> (result: Result<Expr, ParseError>)
        requires
            old(self).well_formed(),
        ensures
            final(self).well_formed(),
            parsed_as(result, final(self).stream(), parse_expr(old(self).stream(), min_bp)),
            final(self).stream().len() <= old(self).stream().len(),
            result is Ok ==> final(self).stream().len() < old(self).stream().len(),
        decreases old(self).stream().len(), 3int,
    {
        let mut lhs = match self.parse_primary() {
            Ok(expr) => expr,
            Err(error) => {
                return Err(error);
            },
        };
        loop
            invariant
                self.well_formed(),
                self.stream().len() < old(self).stream().len(),
                parse_infix(lhs@, self.stream(), min_bp) == parse_expr(old(self).stream(), min_bp),
            decreases self.stream().len(),
        {
            let infix = match self.at_infix() {
                Some(infix) => infix,
                None => {
                    return Ok(lhs);
                },
            };
            let (l_bp, r_bp) = match infix {
                Infix::Shift => (5, 6),
                Infix::Arithmetic(op) => infix_binding_power(&op),
            };
            if l_bp < min_bp {
                return Ok(lhs);
            }
            self.advance();
            let rhs = match self.parse_expr(r_bp) {
                Ok(expr) => expr,
                Err(error) => {
                    return Err(error);
                },
            };
            lhs = match infix {
                Infix::Shift => Expr::TimeTravel { lhs: Box::new(lhs), rhs: Box::new(rhs) },
                Infix::Arithmetic(op) => Expr::Binary { op, lhs: Box::new(lhs), rhs: Box::new(rhs) },
            };
        }
    }

    /// Parses the argument list of a keyword or hierarchy call whose name
    /// has been consumed.
    fn parse_call_args(&mut self, callee: Callee) -> (result: Result<Vec<Expr>, ParseError>)
        requires
            old(self).well_formed(),
        ensures
            final(self).well_formed(),
            parsed_args_as(
                result,
                final(self).stream(),
                parse_call_args(callee, old(self).stream()),
            ),
            final(self).stream().len() <= old(self).stream().len(),
        decreases old(self).stream().len(), 6int,
    {
        if !self.at_open() {
            return Err(ParseError::ExpectedOpen(callee));
        }
        self.advance();
        self.parse_args()
    }

    /// Parses a keyword call; the keyword is the current token.
    fn parse_keyword_call(&mut self, callee: Callee, name: &str) -> (result: Result<
        Expr,
        ParseError,
    >)
        requires
            old(self).well_formed(),
            old(self).stream().len() > 0,
            name@ == callee.function_name(),
        ensures
            final(self).well_formed(),
            parsed_as(
                result,
                final(self).stream(),
                parse_keyword_call(callee, old(self).stream()),
            ),
            final(self).stream().len() <= old(self).stream().len(),
            result is Ok ==> final(self).stream().len() < old(self).stream().len(),
        decreases old(self).stream().len(), 1int,
    {
        self.advance();
        match self.parse_call_args(callee) {
            Ok(args) => Ok(Expr::FunctionCall { name: name.to_owned(), args }),
            Err(error) => Err(error),
        }
    }

    fn parse_primary(&mut self) -> (result: Result<Expr, ParseError>)
        requires
            old(self).well_formed(),
        ensures
            final(self).well_formed(),
            parsed_as(result, final(self).stream(), parse_primary(old(self).stream())),
            final(self).stream().len() <= old(self).stream().len(),
            result is Ok ==> final(self).stream().len() < old(self).stream().len(),
        decreases old(self).stream().len(), 2int,
    {
        match &self.current_token {
            Some(Token::Number(n)) => {
                let val = *n;
                self.advance();
                Ok(Expr::Literal(val))
            },
            Some(Token::DimensionRef(d)) => {
                let name = d.clone();
                self.advance();
                Ok(Expr::DimensionRef(name))
            },
            Some(Token::Identifier(id)) => {
                let name = id.clone();
                self.advance();
                if self.at_open() {
                    self.advance();
                    match self.parse_args() {
                        Ok(args) => Ok(Expr::FunctionCall { name, args }),
                        Err(error) => Err(error),
                    }
                } else {
                    Ok(Expr::Identifier(name))
                }
            },
            Some(Token::AtIdentifier(id)) => {
                let name = id.clone();
                self.advance();
                match self.parse_call_args(Callee::Hierarchy) {
                    Ok(args) => Ok(Expr::HierarchyCall { name, args }),
                    Err(error) => Err(error),
                }
            },
            Some(Token::Lookup) => self.parse_keyword_call(Callee::Lookup, "LOOKUP"),
            Some(Token::XLookup) => self.parse_keyword_call(Callee::XLookup, "XLOOKUP"),
            Some(Token::Sum) => self.parse_keyword_call(Callee::Sum, "SUM"),
            Some(Token::Avg) => self.parse_keyword_call(Callee::Avg, "AVG"),
            Some(Token::Min) => self.parse_keyword_call(Callee::Min, "MIN"),
            Some(Token::Max) => self.parse_keyword_call(Callee::Max, "MAX"),
            Some(Token::LParen) => {
                self.advance();
                let expr = match self.parse_expr(0) {
                    Ok(expr) => expr,
                    Err(error) => {
                        return Err(error);
                    },
                };
                if !self.at_close() {
                    return Err(ParseError::ExpectedClose);
                }
                self.advance();
                Ok(expr)
            },
            Some(Token::Plus) => Err(ParseError::UnexpectedToken(Stray::Plus)),
            Some(Token::Minus) => Err(ParseError::UnexpectedToken(Stray::Minus)),
            Some(Token::Mul) => Err(ParseError::UnexpectedToken(Stray::Mul)),
            Some(Token::Div) => Err(ParseError::UnexpectedToken(Stray::Div)),
            Some(Token::RParen) => Err(ParseError::UnexpectedToken(Stray::RParen)),
            Some(Token::Comma) => Err(ParseError::UnexpectedToken(Stray::Comma)),
            Some(Token::If) => Err(ParseError::UnexpectedToken(Stray::If)),
            Some(Token::Arrow) => Err(ParseError::UnexpectedToken(Stray::Arrow)),
            Some(Token::Whitespace) => Err(ParseError::UnexpectedToken(Stray::Whitespace)),
            Some(Token::Error) => Err(ParseError::UnexpectedToken(Stray::Error)),
            None => Err(ParseError::UnexpectedToken(Stray::End)),
        }
    }

    /// Parses an argument list whose `(` has been consumed.
    fn parse_args(&mut self) -> (result: Result<Vec<Expr>, ParseError>)
        requires
            old(self).well_formed(),
        ensures
            final(self).well_formed(),
            parsed_args_as(result, final(self).stream(), parse_args(old(self).stream())),
            final(self).stream().len() <= old(self).stream().len(),
        decreases old(self).stream().len(), 5int,
    {
        let mut args: Vec<Expr> = Vec::new();
        if self.at_close() {
            self.advance();
            assert(Expr::ast_list(args@) =~= Seq::<Ast>::empty());
            return Ok(args);
        }
        assert(Expr::ast_list(args@) =~= Seq::<Ast>::empty());
        loop
            invariant
                self.well_formed(),
                self.stream().len() <= old(self).stream().len(),
                parse_more_args(Expr::ast_list(args@), self.stream()) == parse_args(
                    old(self).stream(),
                ),
            decreases self.stream().len(),
        {
            let ghost done = Expr::ast_list(args@);
            let arg = match self.parse_expr(0) {
                Ok(expr) => expr,
                Err(error) => {
                    return Err(error);
                },
            };
            let ghost tree = arg@;
            args.push(arg);
            assert(Expr::ast_list(args@) =~= done.push(tree));
            if self.at_comma() {
                self.advance();
            } else if self.at_close() {
                self.advance();
                return Ok(args);
            } else {
                return Err(ParseError::ExpectedClose);
            }
        }
    }
}

} // verus!
