//! From source text to tokens.
//!
//! At each position the scanner skips white space and takes the longest
//! token that starts there. A word that spells a function keyword is that
//! keyword; any other word is an identifier. Text that starts no token gives
//! an `Error` token one character long.
use crate::scalar::Scalar;
use crate::text::same_text;
use vstd::prelude::*;
use vstd::string::StrSliceExecFns;

verus! {

/// A classified piece of source text.
#[derive(Debug, PartialEq)]
pub enum Token {
    Plus,
    Minus,
    Mul,
    Div,
    LParen,
    RParen,
    Comma,
    Sum,
    Avg,
    Min,
    Max,
    If,
    Lookup,
    XLookup,
    /// The time-travel operator `->`.
    Arrow,
    /// A plain name such as `Revenue`.
    Identifier(String),
    /// A hierarchy function such as `@Children`, without the `@`.
    AtIdentifier(String),
    /// A coordinate such as `[Region]`, without the brackets.
    DimensionRef(String),
    Number(Scalar),
    /// White space; the scanner skips it and never hands it out.
    Whitespace,
    /// Text that starts no token.
    Error,
}

/// The mathematical value of a [`Token`].
pub enum Lexeme {
    Plus,
    Minus,
    Mul,
    Div,
    LParen,
    RParen,
    Comma,
    Sum,
    Avg,
    Min,
    Max,
    If,
    Lookup,
    XLookup,
    Arrow,
    Identifier(Seq<char>),
    AtIdentifier(Seq<char>),
    DimensionRef(Seq<char>),
    Number(Scalar),
    Whitespace,
    Error,
}

impl View for Token {
    type V = Lexeme;

    open spec fn view(&self) -> Lexeme {
        match self {
            Token::Plus => Lexeme::Plus,
            Token::Minus => Lexeme::Minus,
            Token::Mul => Lexeme::Mul,
            Token::Div => Lexeme::Div,
            Token::LParen => Lexeme::LParen,
            Token::RParen => Lexeme::RParen,
            Token::Comma => Lexeme::Comma,
            Token::Sum => Lexeme::Sum,
            Token::Avg => Lexeme::Avg,
            Token::Min => Lexeme::Min,
            Token::Max => Lexeme::Max,
            Token::If => Lexeme::If,
            Token::Lookup => Lexeme::Lookup,
            Token::XLookup => Lexeme::XLookup,
            Token::Arrow => Lexeme::Arrow,
            Token::Identifier(name) => Lexeme::Identifier(name@),
            Token::AtIdentifier(name) => Lexeme::AtIdentifier(name@),
            Token::DimensionRef(name) => Lexeme::DimensionRef(name@),
            Token::Number(value) => Lexeme::Number(*value),
            Token::Whitespace => Lexeme::Whitespace,
            Token::Error => Lexeme::Error,
        }
    }
}

/// Sets of characters the scanner looks for runs of.
#[derive(Debug, Clone, Copy, PartialEq, Eq, Structural)]
pub enum CharClass {
    /// Space, tab, line feed and form feed.
    Space,
    /// `0` to `9`.
    Digit,
    /// Letters without accents and `_`.
    WordStart,
    /// Letters without accents, digits and `_`.
    WordPart,
    /// Everything but `[` and `]`.
    NotBracket,
}

impl CharClass {
    /// Whether `c` belongs to the class.
    pub open spec fn holds(self, c: char) -> bool {
        match self {
            CharClass::Space => c == ' ' || c == '\t' || c == '\n' || c == '\x0C',
            CharClass::Digit => '0' <= c && c <= '9',
            CharClass::WordStart => ('a' <= c && c <= 'z') || ('A' <= c && c <= 'Z') || c == '_',
            CharClass::WordPart => ('a' <= c && c <= 'z') || ('A' <= c && c <= 'Z') || c == '_' || (
            '0' <= c && c <= '9'),
            CharClass::NotBracket => c != '[' && c != ']',
        }
    }

    /// Tests whether `c` belongs to the class.
    pub fn contains(self, c: char) -> (found: bool)
        ensures
            found == self.holds(c),
    {
        match self {
            CharClass::Space => c == ' ' || c == '\t' || c == '\n' || c == '\x0C',
            CharClass::Digit => '0' <= c && c <= '9',
            CharClass::WordStart => ('a' <= c && c <= 'z') || ('A' <= c && c <= 'Z') || c == '_',
            CharClass::WordPart => ('a' <= c && c <= 'z') || ('A' <= c && c <= 'Z') || c == '_' || (
            '0' <= c && c <= '9'),
            CharClass::NotBracket => c != '[' && c != ']',
        }
    }
}

/// Where the longest run of characters of `class` that starts at `pos`
/// ends: the first position from `pos` on that holds a character outside
/// the class, or the end of the text.
pub open spec fn run_end(text: Seq<char>, pos: int, class: CharClass) -> int
    decreases text.len() - pos,
{
    if 0 <= pos < text.len() && class.holds(text[pos]) {
        run_end(text, pos + 1, class)
    } else {
        pos
    }
}

/// The token a word spells: a function keyword, or an identifier.
pub open spec fn word_lexeme(word: Seq<char>) -> Lexeme {
    if word == "SUM"@ {
        Lexeme::Sum
    } else if word == "AVG"@ {
        Lexeme::Avg
    } else if word == "MIN"@ {
        Lexeme::Min
    } else if word == "MAX"@ {
        Lexeme::Max
    } else if word == "IF"@ {
        Lexeme::If
    } else if word == "LOOKUP"@ {
        Lexeme::Lookup
    } else if word == "XLOOKUP"@ {
        Lexeme::XLookup
    } else {
        Lexeme::Identifier(word)
    }
}

/// The token a numeral spells: its number.
pub open spec fn number_lexeme(numeral: Seq<char>) -> Lexeme {
    match Scalar::of_decimal(numeral) {
        Some(value) => Lexeme::Number(value),
        None => Lexeme::Error,
    }
}

/// Where the numeral that starts with the digit at `start` ends: after its
/// digits, and after a `.` with more digits if one follows.
pub open spec fn numeral_end(text: Seq<char>, start: int) -> int {
    let whole_end = run_end(text, start + 1, CharClass::Digit);
    if whole_end + 1 < text.len() && text[whole_end] == '.' && CharClass::Digit.holds(
        text[whole_end + 1],
    ) {
        run_end(text, whole_end + 2, CharClass::Digit)
    } else {
        whole_end
    }
}

/// The token that starts at `start`, where a character other than white
/// space stands, and the position after the token.
///
/// A coordinate is a `[`, a name without brackets and a `]`.
pub open spec fn token_at(text: Seq<char>, start: int) -> (Lexeme, int)
    recommends
        0 <= start < text.len(),
{
    let c = text[start];
    if CharClass::WordStart.holds(c) {
        let end = run_end(text, start + 1, CharClass::WordPart);
        (word_lexeme(text.subrange(start, end)), end)
    } else if c == '@' {
        if start + 1 < text.len() && CharClass::WordStart.holds(text[start + 1]) {
            let end = run_end(text, start + 2, CharClass::WordPart);
            (Lexeme::AtIdentifier(text.subrange(start + 1, end)), end)
        } else {
            (Lexeme::Error, start + 1)
        }
    } else if c == '[' {
        let close = run_end(text, start + 1, CharClass::NotBracket);
        if close < text.len() && text[close] == ']' {
            (Lexeme::DimensionRef(text.subrange(start + 1, close)), close + 1)
        } else {
            (Lexeme::Error, start + 1)
        }
    } else if CharClass::Digit.holds(c) {
        let end = numeral_end(text, start);
        (number_lexeme(text.subrange(start, end)), end)
    } else if c == '-' {
        if start + 1 < text.len() && text[start + 1] == '>' {
            (Lexeme::Arrow, start + 2)
        } else {
            (Lexeme::Minus, start + 1)
        }
    } else if c == '+' {
        (Lexeme::Plus, start + 1)
    } else if c == '*' {
        (Lexeme::Mul, start + 1)
    } else if c == '/' {
        (Lexeme::Div, start + 1)
    } else if c == '(' {
        (Lexeme::LParen, start + 1)
    } else if c == ')' {
        (Lexeme::RParen, start + 1)
    } else if c == ',' {
        (Lexeme::Comma, start + 1)
    } else {
        (Lexeme::Error, start + 1)
    }
}

/// The next token at or after `pos` and the position after it, or `None`
/// and the end of the text where only white space is left.
pub open spec fn scan(text: Seq<char>, pos: int) -> (Option<Lexeme>, int) {
    let start = run_end(text, pos, CharClass::Space);
    if start >= text.len() {
        (None, start)
    } else {
        let (lexeme, end) = token_at(text, start);
        (Some(lexeme), end)
    }
}

/// A run starts where it is asked for and ends within the text, on a
/// character outside the class.
pub proof fn lemma_run_end_bounds(text: Seq<char>, pos: int, class: CharClass)
    requires
        0 <= pos <= text.len(),
    ensures
        pos <= run_end(text, pos, class) <= text.len(),
        run_end(text, pos, class) < text.len() ==> !class.holds(
            text[run_end(text, pos, class)],
        ),
        forall|i: int| pos <= i < run_end(text, pos, class) ==> class.holds(#[trigger] text[i]),
    decreases text.len() - pos,
{
    if pos < text.len() && class.holds(text[pos]) {
        lemma_run_end_bounds(text, pos + 1, class);
    }
}

/// A token is at least one character long and ends within the text.
pub proof fn lemma_token_at_advances(text: Seq<char>, start: int)
    requires
        0 <= start < text.len(),
    ensures
        start < token_at(text, start).1 <= text.len(),
{
    lemma_run_end_bounds(text, start + 1, CharClass::WordPart);
    if start + 1 < text.len() {
        lemma_run_end_bounds(text, start + 2, CharClass::WordPart);
    }
    lemma_run_end_bounds(text, start + 1, CharClass::NotBracket);
    let whole_end = run_end(text, start + 1, CharClass::Digit);
    lemma_run_end_bounds(text, start + 1, CharClass::Digit);
    if whole_end + 1 < text.len() {
        lemma_run_end_bounds(text, whole_end + 2, CharClass::Digit);
    }
}

/// Scanning never moves backwards and stays within the text.
pub proof fn lemma_scan_advances(text: Seq<char>, pos: int)
    requires
        0 <= pos <= text.len(),
    ensures
        pos <= scan(text, pos).1 <= text.len(),
        scan(text, pos).0 is Some ==> pos < scan(text, pos).1,
        scan(text, pos).0 is None ==> scan(text, pos).1 == text.len(),
{
    lemma_run_end_bounds(text, pos, CharClass::Space);
    let start = run_end(text, pos, CharClass::Space);
    if start < text.len() {
        lemma_token_at_advances(text, start);
    }
}

/// White space is dropped: the scanner never hands out a `Whitespace`
/// token, and the token it hands out starts where the white space ends.
pub proof fn lemma_scan_drops_white_space(text: Seq<char>, pos: int)
    requires
        0 <= pos <= text.len(),
    ensures
        scan(text, pos).0 != Some(Lexeme::Whitespace),
        scan(text, pos) == scan(text, run_end(text, pos, CharClass::Space)),
{
    lemma_run_end_bounds(text, pos, CharClass::Space);
    let start = run_end(text, pos, CharClass::Space);
    assert(run_end(text, start, CharClass::Space) == start);
}

/// Finds the end of the run of `class` that starts at `pos`.
pub fn skip_run(chars: &Vec<char>, pos: usize, class: CharClass) -> (end: usize)
    requires
        pos <= chars.len(),
    ensures
        end == run_end(chars@, pos as int, class),
        pos <= end <= chars.len(),
{
    let mut i = pos;
    while i < chars.len() && class.contains(chars[i])
        invariant
            pos <= i <= chars.len(),
            run_end(chars@, i as int, class) == run_end(chars@, pos as int, class),
        decreases chars.len() - i,
    {
        i += 1;
    }
    i
}

/// The value of a token that may be absent.
pub open spec fn lexeme_of(token: Option<Token>) -> Option<Lexeme> {
    match token {
        Some(token) => Some(token@),
        None => None,
    }
}

/// Classifies a word.
fn word_token(word: &str) -> (token: Token)
    ensures
        token@ == word_lexeme(word@),
{
    if same_text(word, "SUM") {
        Token::Sum
    } else if same_text(word, "AVG") {
        Token::Avg
    } else if same_text(word, "MIN") {
        Token::Min
    } else if same_text(word, "MAX") {
        Token::Max
    } else if same_text(word, "IF") {
        Token::If
    } else if same_text(word, "LOOKUP") {
        Token::Lookup
    } else if same_text(word, "XLOOKUP") {
        Token::XLookup
    } else {
        Token::Identifier(word.to_owned())
    }
}

/// Scans the next token of `source` at or after `pos`. Returns the token,
/// or `None` at the end of the text, and the position to go on from.
/// `chars` holds the characters of `source`.
pub fn next_token(source: &str, chars: &Vec<char>, pos: usize) -> (scanned: (Option<Token>, usize))
    requires
        chars@ == source@,
        pos <= chars.len(),
    ensures
        (lexeme_of(scanned.0), scanned.1 as int) == scan(source@, pos as int),
        pos <= scanned.1 <= chars.len(),
{
    proof {
        lemma_scan_advances(chars@, pos as int);
    }
    let len = chars.len();
    let start = skip_run(chars, pos, CharClass::Space);
    if start >= len {
        return (None, start);
    }
    proof {
        lemma_token_at_advances(chars@, start as int);
    }
    let c = chars[start];
    if CharClass::WordStart.contains(c) {
        let end = skip_run(chars, start + 1, CharClass::WordPart);
        (Some(word_token(source.substring_char(start, end))), end)
    } else if c == '@' {
        if len - start > 1 && CharClass::WordStart.contains(chars[start + 1]) {
            let end = skip_run(chars, start + 2, CharClass::WordPart);
            let name = source.substring_char(start + 1, end).to_owned();
            (Some(Token::AtIdentifier(name)), end)
        } else {
            (Some(Token::Error), start + 1)
        }
    } else if c == '[' {
        let close = skip_run(chars, start + 1, CharClass::NotBracket);
        if close < len && chars[close] == ']' {
            let name = source.substring_char(start + 1, close).to_owned();
            (Some(Token::DimensionRef(name)), close + 1)
        } else {
            (Some(Token::Error), start + 1)
        }
    } else if CharClass::Digit.contains(c) {
        let whole_end = skip_run(chars, start + 1, CharClass::Digit);
        let end = if len - whole_end > 1 && chars[whole_end] == '.' && CharClass::Digit.contains(
            chars[whole_end + 1],
        ) {
            skip_run(chars, whole_end + 2, CharClass::Digit)
        } else {
            whole_end
        };
        match Scalar::from_decimal(source.substring_char(start, end)) {
            Some(value) => (Some(Token::Number(value)), end),
            None => (Some(Token::Error), end),
        }
    } else if c == '-' {
        if len - start > 1 && chars[start + 1] == '>' {
            (Some(Token::Arrow), start + 2)
        } else {
            (Some(Token::Minus), start + 1)
        }
    } else if c == '+' {
        (Some(Token::Plus), start + 1)
    } else if c == '*' {
        (Some(Token::Mul), start + 1)
    } else if c == '/' {
        (Some(Token::Div), start + 1)
    } else if c == '(' {
        (Some(Token::LParen), start + 1)
    } else if c == ')' {
        (Some(Token::RParen), start + 1)
    } else if c == ',' {
        (Some(Token::Comma), start + 1)
    } else {
        (Some(Token::Error), start + 1)
    }
}

} // verus!
