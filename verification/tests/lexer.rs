use kumi::float::{FloatFacts, FloatQuery};
use kumi::keyword::Keyword;
use kumi::lexer::{get_line_by_char_index, LexError, LexFailure, Lexer};
use kumi::op::Op;
use kumi::token::{NoConversion, Token, Wanted, TT};
use kumi::types::Type;

fn tokens_of(text: &str) -> Result<Vec<Token>, LexFailure> {
    Lexer::new(text).tokenize(&FloatFacts::new())
}

fn kinds_of(text: &str) -> Vec<TT> {
    tokens_of(text).unwrap().iter().map(|t| t.get_tt().clone()).collect()
}

fn error_of(text: &str) -> LexFailure {
    tokens_of(text).unwrap_err()
}

fn chars(text: &str) -> Vec<char> {
    text.chars().collect()
}

#[test]
fn empty_text_is_the_end_token_alone() {
    assert_eq!(tokens_of(""), Ok(vec![Token::new(0, 0, TT::EOF)]));
    assert_eq!(tokens_of("  \t "), Ok(vec![Token::new(4, 4, TT::EOF)]));
}

#[test]
fn one_plus_one() {
    assert_eq!(
        tokens_of("1 + 1"),
        Ok(vec![
            Token::new(0, 1, TT::Type(Type::Int(1))),
            Token::new(2, 3, TT::Op(Op::Add)),
            Token::new(4, 5, TT::Type(Type::Int(1))),
            Token::new(5, 5, TT::EOF),
        ])
    );
}

#[test]
fn tokens_need_no_blanks_between_them() {
    assert_eq!(
        kinds_of("(12+x)*3"),
        vec![
            TT::LPR,
            TT::Type(Type::Int(12)),
            TT::Op(Op::Add),
            TT::Indenifier("x".to_string()),
            TT::RPR,
            TT::Op(Op::Mult),
            TT::Type(Type::Int(3)),
            TT::EOF,
        ]
    );
}

#[test]
fn single_character_operators() {
    assert_eq!(
        kinds_of("+ - / * ^ % ( )"),
        vec![
            TT::Op(Op::Add),
            TT::Op(Op::Sub),
            TT::Op(Op::Devd),
            TT::Op(Op::Mult),
            TT::Op(Op::Pow),
            TT::Op(Op::Remain),
            TT::LPR,
            TT::RPR,
            TT::EOF,
        ]
    );
}

#[test]
fn operators_that_may_take_an_equals_sign() {
    assert_eq!(
        kinds_of("< <= > >= ! != = =="),
        vec![
            TT::Op(Op::LT),
            TT::Op(Op::LTE),
            TT::Op(Op::GT),
            TT::Op(Op::GTE),
            TT::Op(Op::Not),
            TT::Op(Op::NE),
            TT::EQ,
            TT::Op(Op::Eq),
            TT::EOF,
        ]
    );
    assert_eq!(
        tokens_of("a<=b"),
        Ok(vec![
            Token::new(0, 1, TT::Indenifier("a".to_string())),
            Token::new(1, 3, TT::Op(Op::LTE)),
            Token::new(3, 4, TT::Indenifier("b".to_string())),
            Token::new(4, 4, TT::EOF),
        ])
    );
    assert_eq!(kinds_of("==="), vec![TT::Op(Op::Eq), TT::EQ, TT::EOF]);
    assert_eq!(kinds_of("!"), vec![TT::Op(Op::Not), TT::EOF]);
}

#[test]
fn and_or_are_two_characters() {
    assert_eq!(
        kinds_of("a && b || c"),
        vec![
            TT::Indenifier("a".to_string()),
            TT::Op(Op::And),
            TT::Indenifier("b".to_string()),
            TT::Op(Op::Or),
            TT::Indenifier("c".to_string()),
            TT::EOF,
        ]
    );
}

#[test]
fn a_lone_ampersand_or_pipe_is_an_error() {
    let failure = error_of("a & b");
    assert_eq!(failure.error, LexError::ExpectedAmpersand);
    assert_eq!((failure.line, failure.col), (0, 3));
    let failure = error_of("a |");
    assert_eq!(failure.error, LexError::ExpectedPipe);
    assert_eq!((failure.line, failure.col), (0, 3));
    assert_eq!(error_of("|&").error, LexError::ExpectedPipe);
}

#[test]
fn keywords_and_identifiers() {
    assert_eq!(
        kinds_of("let x = 5"),
        vec![
            TT::Keyword(Keyword::Let),
            TT::Indenifier("x".to_string()),
            TT::EQ,
            TT::Type(Type::Int(5)),
            TT::EOF,
        ]
    );
    assert_eq!(
        kinds_of("letter _let let_ le x1 _ true"),
        vec![
            TT::Indenifier("letter".to_string()),
            TT::Indenifier("_let".to_string()),
            TT::Indenifier("let_".to_string()),
            TT::Indenifier("le".to_string()),
            TT::Indenifier("x1".to_string()),
            TT::Indenifier("_".to_string()),
            TT::Indenifier("true".to_string()),
            TT::EOF,
        ]
    );
    assert_eq!(kinds_of("\u{e9}t\u{e9}"), vec![TT::Indenifier("\u{e9}t\u{e9}".to_string()), TT::EOF]);
}

#[test]
fn a_digit_starts_a_number_not_a_name() {
    assert_eq!(
        kinds_of("1x"),
        vec![TT::Type(Type::Int(1)), TT::Indenifier("x".to_string()), TT::EOF]
    );
}

#[test]
fn integer_literals() {
    assert_eq!(kinds_of("0"), vec![TT::Type(Type::Int(0)), TT::EOF]);
    assert_eq!(kinds_of("007"), vec![TT::Type(Type::Int(7)), TT::EOF]);
    assert_eq!(
        kinds_of("170141183460469231731687303715884105727"),
        vec![TT::Type(Type::Int(i128::MAX)), TT::EOF]
    );
}

#[test]
fn an_integer_literal_that_does_not_fit_is_an_error() {
    let text = "170141183460469231731687303715884105728";
    let failure = error_of(text);
    assert_eq!(failure.error, LexError::IntTooLarge(text.to_string()));
    assert_eq!((failure.line, failure.col), (0, 39));
    assert_eq!(
        failure.error.message(),
        format!("can't parse {} as i128 due to number too large to fit in target type", text)
    );
    assert!(tokens_of("99999999999999999999999999999999999999999999999999").is_err());
}

#[test]
fn second_decimal_point_is_an_error() {
    let failure = error_of("1.2.3");
    assert_eq!(failure.error, LexError::SecondDot("1.2".to_string()));
    assert_eq!((failure.line, failure.col), (0, 3));
    assert_eq!(failure.source, chars("1.2.3"));
    assert_eq!(error_of("1..").error, LexError::SecondDot("1.".to_string()));
    assert_eq!(error_of("x + 10.25.").error, LexError::SecondDot("10.25".to_string()));
}

#[test]
fn a_float_literal_asks_for_its_value() {
    let mut facts = FloatFacts::new();
    let failure = Lexer::new("2 * 1.50").tokenize(&facts).unwrap_err();
    assert_eq!(failure.error, LexError::AskFloat("1.50".to_string()));
    assert_eq!(failure.error.query(), Some(FloatQuery::Literal("1.50".to_string())));
    assert_eq!(LexError::ExpectedPipe.query(), None);
    facts.learn_literal("1.50".to_string(), "1.50".parse::<f64>().ok().map(f64::to_bits));
    assert_eq!(
        Lexer::new("2 * 1.50").tokenize(&facts),
        Ok(vec![
            Token::new(0, 1, TT::Type(Type::Int(2))),
            Token::new(2, 3, TT::Op(Op::Mult)),
            Token::new(4, 8, TT::Type(Type::Float(1.5f64.to_bits()))),
            Token::new(8, 8, TT::EOF),
        ])
    );
}

#[test]
fn a_float_literal_that_the_host_cannot_read_is_an_error() {
    let mut facts = FloatFacts::new();
    facts.learn_literal("1.".to_string(), None);
    let failure = Lexer::new("1.").tokenize(&facts).unwrap_err();
    assert_eq!(failure.error, LexError::BadFloat("1.".to_string()));
    assert_eq!(failure.error.message(), "can't parse 1. as f64 due to invalid float literal");
}

#[test]
fn a_point_needs_a_digit_before_it() {
    let failure = error_of(".5");
    assert_eq!(failure.error, LexError::InvalidCharacter('.'));
    assert_eq!((failure.line, failure.col), (0, 0));
}

#[test]
fn other_characters_are_errors() {
    for (text, bad, col) in [("1 # 2", '#', 2), ("a\nb", '\n', 1), ("x $", '$', 2), ("{", '{', 0)] {
        let failure = error_of(text);
        assert_eq!(failure.error, LexError::InvalidCharacter(bad));
        assert_eq!((failure.line, failure.col), (0, col));
    }
}

#[test]
fn letters_outside_ascii_make_names_and_other_characters_do_not() {
    assert_eq!(
        kinds_of("\u{3b1}\u{3b2} + \u{4eac}1"),
        vec![
            TT::Indenifier("\u{3b1}\u{3b2}".to_string()),
            TT::Op(Op::Add),
            TT::Indenifier("\u{4eac}1".to_string()),
            TT::EOF,
        ]
    );
    assert_eq!(error_of("\u{20ac}").error, LexError::InvalidCharacter('\u{20ac}'));
    assert_eq!(error_of("x\u{1f49d}").error, LexError::InvalidCharacter('\u{1f49d}'));
    assert_eq!(error_of("a\u{b2}").error, LexError::InvalidCharacter('\u{b2}'));
    assert_eq!(error_of("@").error, LexError::InvalidCharacter('@'));
    assert_eq!(error_of("[").error, LexError::InvalidCharacter('['));
    assert_eq!(error_of("`").error, LexError::InvalidCharacter('`'));
    assert_eq!(kinds_of("azAZ"), vec![TT::Indenifier("azAZ".to_string()), TT::EOF]);
}

#[test]
fn messages_of_lex_errors() {
    assert_eq!(
        LexError::SecondDot("1.2".to_string()).message(),
        "can't float can have only 1 dot can't add one more to 1.2"
    );
    assert_eq!(LexError::ExpectedPipe.message(), "expected '|'");
    assert_eq!(LexError::ExpectedAmpersand.message(), "expected '&'");
    assert_eq!(LexError::InvalidCharacter('#').message(), "invalid character '#'");
    assert_eq!(
        LexError::AskFloat("1.5".to_string()).message(),
        "the value of 1.5 is not known yet"
    );
}

#[test]
fn a_failure_shows_the_line_and_the_place() {
    let failure = error_of("1 + #");
    assert_eq!(
        failure.message(),
        "...\n1 + #\n^^^^^\nLexer error on line - 1, column - 5: invalid character '#'\n..."
    );
    let failure = error_of("12 & 3");
    assert_eq!(
        failure.message(),
        "...\n12 & 3\n^^^^^^\nLexer error on line - 1, column - 5: expected '&'\n..."
    );
}

#[test]
fn a_failure_at_a_line_break_shows_the_line_before_it() {
    let failure = error_of("ab\ncd");
    assert_eq!(failure.source, chars("ab"));
    assert_eq!(
        failure.message(),
        "...\nab\n^^\nLexer error on line - 1, column - 3: invalid character '\n'\n..."
    );
    let failure = error_of("\n");
    assert_eq!(failure.source, chars(""));
    assert_eq!(
        failure.message(),
        "...\n\n\nLexer error on line - 1, column - 1: invalid character '\n'\n..."
    );
}

#[test]
fn step_walks_over_lines() {
    let facts = FloatFacts::new();
    let mut lexer = Lexer::new("a\n#");
    lexer.step();
    lexer.step();
    let failure = lexer.tokenize(&facts).unwrap_err();
    assert_eq!(failure.error, LexError::InvalidCharacter('#'));
    assert_eq!((failure.line, failure.col), (1, 0));
    assert_eq!(failure.source, chars("#"));
    assert_eq!(
        failure.message(),
        "...\n#\n^\nLexer error on line - 2, column - 1: invalid character '#'\n..."
    );
}

#[test]
fn step_goes_on_behind_the_end() {
    let facts = FloatFacts::new();
    let mut lexer = Lexer::new("7");
    lexer.step();
    assert_eq!(lexer.tokenize(&facts), Ok(vec![Token::new(1, 1, TT::EOF)]));
    let mut lexer = Lexer::new("7");
    lexer.step();
    lexer.step();
    lexer.step();
    assert_eq!(lexer.tokenize(&facts), Ok(vec![Token::new(3, 3, TT::EOF)]));
    let mut lexer = Lexer::new("");
    lexer.step();
    assert_eq!(lexer.tokenize(&facts), Ok(vec![Token::new(1, 1, TT::EOF)]));
}

#[test]
fn tokenize_goes_on_from_the_current_place() {
    let facts = FloatFacts::new();
    let mut lexer = Lexer::new("12 3");
    lexer.step();
    assert_eq!(
        lexer.tokenize(&facts),
        Ok(vec![
            Token::new(1, 2, TT::Type(Type::Int(2))),
            Token::new(3, 4, TT::Type(Type::Int(3))),
            Token::new(4, 4, TT::EOF),
        ])
    );
}

#[test]
fn line_by_char_index() {
    let text = chars("one\ntwo\n\nfour");
    let line = |index: usize| get_line_by_char_index(&text, index).map(|l| l.to_vec());
    assert_eq!(line(0), Some(chars("one")));
    assert_eq!(line(2), Some(chars("one")));
    assert_eq!(line(3), Some(chars("one")));
    assert_eq!(line(4), Some(chars("two")));
    assert_eq!(line(7), Some(chars("two")));
    assert_eq!(line(8), None);
    assert_eq!(line(9), Some(chars("four")));
    assert_eq!(line(13), Some(chars("four")));
    assert_eq!(get_line_by_char_index(&[], 0), None);
}

#[test]
fn keyword_table() {
    assert_eq!(Keyword::keywords(), vec![Keyword::Let]);
    assert_eq!(Keyword::hash_map(), vec![("let".to_string(), Keyword::Let)]);
    assert_eq!(Keyword::lookup(&"let".to_string()), Some(Keyword::Let));
    assert_eq!(Keyword::lookup(&"Let".to_string()), None);
    assert_eq!(Keyword::Let.to_string(), "let");
}

#[test]
fn token_accessors() {
    let token = Token::new(3, 5, TT::Op(Op::GTE));
    assert_eq!(*token.get_start(), 3);
    assert_eq!(*token.get_end(), 5);
    assert_eq!(*token.get_tt(), TT::Op(Op::GTE));
    assert_eq!(token.duplicate(), token);
    let facts = FloatFacts::new();
    assert_eq!(TT::Op(Op::GTE).to_op(), Ok(Op::GTE));
    assert_eq!(TT::Type(Type::Int(4)).to_type(), Ok(Type::Int(4)));
    let e = TT::EQ.to_op().unwrap_err();
    assert_eq!(e, NoConversion { tt: TT::EQ, wanted: Wanted::Operator });
    assert_eq!(e.message(&facts), Ok("can't convert = to operator".to_string()));
    let e = TT::LPR.to_type().unwrap_err();
    assert_eq!(e, NoConversion { tt: TT::LPR, wanted: Wanted::Type });
    assert_eq!(e.message(&facts), Ok("can't convert ( to type".to_string()));
    let e = TT::Type(Type::Int(7)).to_op().unwrap_err();
    assert_eq!(e.message(&facts), Ok("can't convert int(7) to operator".to_string()));
    let e = TT::Type(Type::Float(9)).to_op().unwrap_err();
    assert_eq!(e.message(&facts), Err(FloatQuery::Text(9)));
}

#[test]
fn token_kinds_are_printed() {
    let facts = FloatFacts::new();
    let all = [
        (TT::RPR, ")"),
        (TT::LPR, "("),
        (TT::Op(Op::NE), "!="),
        (TT::Type(Type::Int(12)), "int(12)"),
        (TT::Keyword(Keyword::Let), "let"),
        (TT::Indenifier("name".to_string()), "name"),
        (TT::EQ, "="),
        (TT::EOF, "EOF"),
    ];
    for (tt, text) in all {
        assert_eq!(tt.to_string(&facts), Ok(text.to_string()));
    }
    assert_eq!(TT::Type(Type::Float(7)).to_string(&facts), Err(FloatQuery::Text(7)));
}
