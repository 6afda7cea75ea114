use atom_engine::atom_script::lexer::{next_token, skip_run, CharClass, Token};
use atom_engine::scalar::Scalar;
use atom_engine::text::{chars_of, same_text};

fn lex(input: &str) -> Vec<Token> {
    let chars = chars_of(input);
    let mut tokens = Vec::new();
    let mut pos = 0;
    loop {
        let (token, next) = next_token(input, &chars, pos);
        match token {
            Some(token) => tokens.push(token),
            None => {
                assert_eq!(next, chars.len());
                return tokens;
            }
        }
        assert!(next > pos);
        pos = next;
    }
}

fn num(x: f64) -> Token {
    Token::Number(Scalar::from_bits(x.to_bits()))
}

fn id(name: &str) -> Token {
    Token::Identifier(name.to_string())
}

fn dim(name: &str) -> Token {
    Token::DimensionRef(name.to_string())
}

#[test]
fn scans_the_sample_formulas() {
    assert_eq!(
        lex("SUM(@Children([Region],[North America]))"),
        vec![
            Token::Sum,
            Token::LParen,
            Token::AtIdentifier("Children".to_string()),
            Token::LParen,
            dim("Region"),
            Token::Comma,
            dim("North America"),
            Token::RParen,
            Token::RParen
        ]
    );
    assert_eq!(
        lex("LOOKUP(10,[Range],[Return])"),
        vec![
            Token::Lookup,
            Token::LParen,
            num(10.0),
            Token::Comma,
            dim("Range"),
            Token::Comma,
            dim("Return"),
            Token::RParen
        ]
    );
    assert_eq!(lex("[Revenue] -> [PrevMonth]"), vec![dim("Revenue"), Token::Arrow, dim("PrevMonth")]);
    assert_eq!(lex("1 + 2"), vec![num(1.0), Token::Plus, num(2.0)]);
}

#[test]
fn operators_and_punctuation() {
    assert_eq!(
        lex("+-*/(),->"),
        vec![
            Token::Plus,
            Token::Minus,
            Token::Mul,
            Token::Div,
            Token::LParen,
            Token::RParen,
            Token::Comma,
            Token::Arrow
        ]
    );
    assert_eq!(lex("- >"), vec![Token::Minus, Token::Error]);
    assert_eq!(lex("-->"), vec![Token::Minus, Token::Arrow]);
    assert_eq!(lex("-5"), vec![Token::Minus, num(5.0)]);
}

#[test]
fn keywords_are_whole_upper_case_words() {
    assert_eq!(
        lex("SUM AVG MIN MAX IF LOOKUP XLOOKUP"),
        vec![
            Token::Sum,
            Token::Avg,
            Token::Min,
            Token::Max,
            Token::If,
            Token::Lookup,
            Token::XLookup
        ]
    );
    assert_eq!(lex("SUMX sum Sum _SUM SUM1"), vec![id("SUMX"), id("sum"), id("Sum"), id("_SUM"), id("SUM1")]);
    assert_eq!(lex("XLOOKUPS LOOKUP_"), vec![id("XLOOKUPS"), id("LOOKUP_")]);
    assert_eq!(lex("IFF I"), vec![id("IFF"), id("I")]);
}

#[test]
fn identifiers_and_hierarchy_functions() {
    assert_eq!(lex("Revenue _x a1_b2"), vec![id("Revenue"), id("_x"), id("a1_b2")]);
    assert_eq!(
        lex("@Children @_p1"),
        vec![Token::AtIdentifier("Children".to_string()), Token::AtIdentifier("_p1".to_string())]
    );
    assert_eq!(lex("@"), vec![Token::Error]);
    assert_eq!(lex("@1"), vec![Token::Error, num(1.0)]);
    assert_eq!(lex("@SUM"), vec![Token::AtIdentifier("SUM".to_string())]);
}

#[test]
fn numbers_have_no_sign_and_no_exponent() {
    assert_eq!(lex("12"), vec![num(12.0)]);
    assert_eq!(lex("12.5"), vec![num(12.5)]);
    assert_eq!(lex("0.25"), vec![num(0.25)]);
    assert_eq!(lex("1."), vec![num(1.0), Token::Error]);
    assert_eq!(lex(".5"), vec![Token::Error, num(5.0)]);
    assert_eq!(lex("1.5.25"), vec![num(1.5), Token::Error, num(25.0)]);
    assert_eq!(lex("12abc"), vec![num(12.0), id("abc")]);
    assert_eq!(lex("1e5"), vec![num(1.0), id("e5")]);
    assert_eq!(lex("3.14159"), vec![num(3.14159)]);
}

#[test]
fn coordinates_are_names_in_brackets() {
    assert_eq!(lex("[Region]"), vec![dim("Region")]);
    assert_eq!(lex("[]"), vec![dim("")]);
    assert_eq!(lex("[North America]"), vec![dim("North America")]);
    assert_eq!(lex("[a+b, (c)]"), vec![dim("a+b, (c)")]);
    assert_eq!(lex("[Région égale]"), vec![dim("Région égale")]);
    assert_eq!(lex("[a]]"), vec![dim("a"), Token::Error]);
    assert_eq!(lex("[unclosed"), vec![Token::Error, id("unclosed")]);
    // A name holds no bracket.
    assert_eq!(lex("[[a]"), vec![Token::Error, dim("a")]);
    assert_eq!(lex("[a[]"), vec![Token::Error, id("a"), dim("")]);
    assert_eq!(lex("[[a]]"), vec![Token::Error, dim("a"), Token::Error]);
    assert_eq!(lex("[a][b]"), vec![dim("a"), dim("b")]);
}

#[test]
fn white_space_is_dropped() {
    assert_eq!(lex(""), vec![]);
    assert_eq!(lex("  \t\n\x0C "), vec![]);
    assert_eq!(lex(" 1\t+\n2 "), vec![num(1.0), Token::Plus, num(2.0)]);
    // A carriage return is not white space here.
    assert_eq!(lex("1\r\n"), vec![num(1.0), Token::Error]);
}

#[test]
fn unknown_characters_are_error_tokens() {
    assert_eq!(lex("$"), vec![Token::Error]);
    assert_eq!(lex("1 $ 2"), vec![num(1.0), Token::Error, num(2.0)]);
    assert_eq!(lex("é"), vec![Token::Error]);
    assert_eq!(lex("]"), vec![Token::Error]);
    assert_eq!(lex("a.b"), vec![id("a"), Token::Error, id("b")]);
}

#[test]
fn scanning_again_gives_the_same_tokens() {
    let input = "SUM([A], 2.5) -> @Children([B],[C]) * x";
    assert_eq!(lex(input), lex(input));
    let chars = chars_of(input);
    let (first, next) = next_token(input, &chars, 0);
    let (again, next_again) = next_token(input, &chars, 0);
    assert_eq!(first, again);
    assert_eq!(next, next_again);
}

#[test]
fn runs_of_characters() {
    let chars = chars_of("  ab12__ [[x[[");
    assert_eq!(skip_run(&chars, 0, CharClass::Space), 2);
    assert_eq!(skip_run(&chars, 2, CharClass::WordPart), 8);
    assert_eq!(skip_run(&chars, 2, CharClass::Digit), 2);
    assert_eq!(skip_run(&chars, 4, CharClass::Digit), 6);
    assert_eq!(skip_run(&chars, 8, CharClass::NotBracket), 9);
    assert_eq!(skip_run(&chars, 11, CharClass::NotBracket), 12);
    assert_eq!(skip_run(&chars, 14, CharClass::Space), 14);
    assert!(CharClass::NotBracket.contains('x'));
    assert!(!CharClass::NotBracket.contains('['));
    assert!(!CharClass::NotBracket.contains(']'));
    assert!(CharClass::WordStart.contains('_'));
    assert!(!CharClass::WordStart.contains('1'));
    assert!(CharClass::WordPart.contains('1'));
    assert!(!CharClass::WordPart.contains('é'));
}

#[test]
fn text_helpers() {
    assert_eq!(chars_of("aé[").len(), 3);
    assert_eq!(chars_of("aé["), vec!['a', 'é', '[']);
    assert!(same_text("SUM", "SUM"));
    assert!(!same_text("SUM", "SUMS"));
    assert!(!same_text("sum", "SUM"));
    assert!(same_text("", ""));
}
