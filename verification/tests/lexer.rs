use alescript::lexer::Lexer;
use alescript::token::{Token, TokenKind, TokenType};

fn lex(source: &str) -> Vec<Token> {
    Lexer::new(source).collect()
}

/// The value of a number or percentage token, as the numeral reads.
fn numeral_value(t: &TokenType) -> f64 {
    match t {
        TokenType::Number(s) | TokenType::Percentage(s) => s.parse::<f64>().unwrap(),
        _ => panic!("not a numeral: {:?}", t),
    }
}

fn kinds(tokens: &[Token]) -> Vec<TokenKind> {
    tokens.iter().map(|t| t.token_type.kind()).collect()
}

#[test]
fn test_simple_brew() {
    let source = "brew lager from water, barley.";
    let lexer = Lexer::new(source);
    let tokens: Vec<Token> = lexer.collect();

    assert_eq!(tokens[0].token_type, TokenType::Brew);
    assert_eq!(tokens[1].token_type, TokenType::Identifier("lager".to_string()));
    assert_eq!(tokens[2].token_type, TokenType::From);
    assert_eq!(tokens[3].token_type, TokenType::Water);
    assert_eq!(tokens[4].token_type, TokenType::Comma);
    assert_eq!(tokens[5].token_type, TokenType::Barley);
    assert_eq!(tokens[6].token_type, TokenType::Period);
}

#[test]
fn test_numbers_and_percentages() {
    let source = "5 3.14 5.2%";
    let lexer = Lexer::new(source);
    let tokens: Vec<Token> = lexer.collect();

    assert!(matches!(tokens[0].token_type, TokenType::Number(_)));
    assert_eq!(numeral_value(&tokens[0].token_type), 5.0);
    assert!(matches!(tokens[1].token_type, TokenType::Number(_)));
    assert_eq!(numeral_value(&tokens[1].token_type), 3.14);
    assert!(matches!(tokens[2].token_type, TokenType::Percentage(_)));
    assert_eq!(numeral_value(&tokens[2].token_type), 5.2);
}

#[test]
fn test_string_literal() {
    let source = r#"toast "hello, world!"."#;
    let lexer = Lexer::new(source);
    let tokens: Vec<Token> = lexer.collect();

    assert_eq!(tokens[0].token_type, TokenType::Toast);
    assert_eq!(tokens[1].token_type, TokenType::String("hello, world!".to_string()));
    assert_eq!(tokens[2].token_type, TokenType::Period);
}

#[test]
fn test_comment() {
    let source = "// this is a comment\ntaste lager.";
    let lexer = Lexer::new(source);
    let tokens: Vec<Token> = lexer.collect();

    assert_eq!(tokens[0].token_type, TokenType::Comment("this is a comment".to_string()));
    assert_eq!(tokens[1].token_type, TokenType::Newline);
    assert_eq!(tokens[2].token_type, TokenType::Taste);
}

#[test]
fn numerals_keep_their_text() {
    let tokens = lex("5 3.14 5.2% 7.");
    assert_eq!(tokens[0].token_type, TokenType::Number("5".to_string()));
    assert_eq!(tokens[1].token_type, TokenType::Number("3.14".to_string()));
    assert_eq!(tokens[2].token_type, TokenType::Percentage("5.2".to_string()));
    assert_eq!(tokens[2].lexeme, "5.2%");
    // a point not followed by a digit ends the number
    assert_eq!(tokens[3].token_type, TokenType::Number("7".to_string()));
    assert_eq!(tokens[4].token_type, TokenType::Period);
}

#[test]
fn stream_ends_with_one_eof() {
    let tokens = lex("taste lager.");
    assert_eq!(
        kinds(&tokens),
        vec![TokenKind::Taste, TokenKind::Identifier, TokenKind::Period, TokenKind::Eof]
    );
    let mut lexer = Lexer::new("");
    assert_eq!(lexer.next().map(|t| t.token_type), Some(TokenType::Eof));
    assert!(lexer.next().is_none());
    assert!(lexer.next().is_none());
}

#[test]
fn indentation_gives_balanced_indents_and_dedents() {
    let source = "judge if n is 0:\n    taste a.\n        taste b.\ntaste c.\n";
    let tokens = lex(source);
    let k = kinds(&tokens);
    let indents = k.iter().filter(|k| **k == TokenKind::Indent).count();
    let dedents = k.iter().filter(|k| **k == TokenKind::Dedent).count();
    assert_eq!(indents, 2);
    assert_eq!(dedents, 2);
    assert_eq!(*k.last().unwrap(), TokenKind::Eof);
    assert_eq!(k.iter().filter(|k| **k == TokenKind::Eof).count(), 1);
    // the indent token's lexeme is the indentation, its column where it began
    let indent = tokens.iter().find(|t| t.token_type == TokenType::Indent).unwrap();
    assert_eq!(indent.lexeme, "    ");
    assert_eq!(indent.line, 2);
    assert_eq!(indent.column, 0);
}

#[test]
fn open_indentation_closes_at_end() {
    let tokens = lex("a\n  b");
    assert_eq!(
        kinds(&tokens),
        vec![
            TokenKind::Identifier,
            TokenKind::Newline,
            TokenKind::Indent,
            TokenKind::Identifier,
            TokenKind::Dedent,
            TokenKind::Eof
        ]
    );
}

#[test]
fn a_tab_counts_four_spaces() {
    let tokens = lex("a\n\tb\n    c\n");
    let k = kinds(&tokens);
    // the tab opens a level of 4, the four spaces stay at it
    assert_eq!(k.iter().filter(|k| **k == TokenKind::Indent).count(), 1);
    assert_eq!(tokens[2].lexeme, "    ");
}

#[test]
fn blank_lines_do_not_change_indentation() {
    let tokens = lex("a\n    \nb");
    let k = kinds(&tokens);
    assert!(!k.contains(&TokenKind::Indent));
    assert!(!k.contains(&TokenKind::Dedent));
}

#[test]
fn lines_and_columns() {
    let tokens = lex("brew x\n  from");
    assert_eq!((tokens[0].line, tokens[0].column), (1, 0));
    assert_eq!((tokens[1].line, tokens[1].column), (1, 5));
    assert_eq!(tokens[2].token_type, TokenType::Newline);
    assert_eq!((tokens[2].line, tokens[2].column), (1, 6));
    assert_eq!(tokens[3].token_type, TokenType::Indent);
    assert_eq!((tokens[4].line, tokens[4].column), (2, 2));
}

#[test]
fn string_escapes() {
    let tokens = lex(r#""a\nb\t\"c\\ \q""#);
    assert_eq!(tokens[0].token_type, TokenType::String("a\nb\t\"c\\ \\q".to_string()));
    assert_eq!(tokens[0].lexeme, r#""a\nb\t\"c\\ \q""#);
}

#[test]
fn unterminated_string_runs_to_the_end() {
    let tokens = lex("\"abc");
    assert_eq!(tokens[0].token_type, TokenType::String("abc".to_string()));
    assert_eq!(tokens[0].lexeme, "\"abc");
    assert_eq!(tokens[1].token_type, TokenType::Eof);
}

#[test]
fn comment_text_is_what_follows_the_slashes() {
    let tokens = lex("//abc\ntaste lager.");
    let types: Vec<TokenType> = tokens.iter().map(|t| t.token_type.clone()).collect();
    assert_eq!(
        types,
        vec![
            TokenType::Comment("abc".to_string()),
            TokenType::Newline,
            TokenType::Taste,
            TokenType::Identifier("lager".to_string()),
            TokenType::Period,
            TokenType::Eof,
        ]
    );
    assert_eq!(tokens[0].lexeme, "//abc");
    assert_eq!(tokens[0].column, 0);
}

#[test]
fn comment_text_is_trimmed() {
    let tokens = lex("a //  spaced out  ");
    assert_eq!(tokens[1].token_type, TokenType::Comment("spaced out".to_string()));
    assert_eq!(tokens[1].lexeme, "//  spaced out  ");
    assert_eq!(tokens[1].column, 2);
}

#[test]
fn empty_comment_ends_at_the_newline() {
    let tokens = lex("//\ntaste lager.");
    assert_eq!(tokens[0].token_type, TokenType::Comment("".to_string()));
    assert_eq!(tokens[1].token_type, TokenType::Newline);
    assert_eq!(tokens[2].token_type, TokenType::Taste);
    let tokens = lex("//");
    assert_eq!(tokens[0].token_type, TokenType::Comment("".to_string()));
    assert_eq!(tokens[1].token_type, TokenType::Eof);
}

#[test]
fn lone_slash_and_unknown_chars() {
    let tokens = lex("a / b $ c");
    assert_eq!(tokens[1].token_type, TokenType::Identifier("/".to_string()));
    assert_eq!(tokens[2].token_type, TokenType::Identifier("b".to_string()));
    // '$' starts no token and is dropped
    assert_eq!(tokens[3].token_type, TokenType::Identifier("c".to_string()));
    assert_eq!(tokens[3].column, 8);
}

#[test]
fn symbols() {
    let tokens = lex(".:,()[]{}=");
    assert_eq!(
        kinds(&tokens),
        vec![
            TokenKind::Period,
            TokenKind::Colon,
            TokenKind::Comma,
            TokenKind::LeftParen,
            TokenKind::RightParen,
            TokenKind::LeftBracket,
            TokenKind::RightBracket,
            TokenKind::LeftBrace,
            TokenKind::RightBrace,
            TokenKind::Equal,
            TokenKind::Eof
        ]
    );
}

#[test]
fn unicode_identifiers() {
    // 'é' is alphabetic, and so continues and starts identifiers
    let tokens = lex("brew café_2 from water.");
    assert_eq!(tokens[1].token_type, TokenType::Identifier("café_2".to_string()));
    let tokens = lex("éclair");
    assert_eq!(tokens[0].token_type, TokenType::Identifier("éclair".to_string()));
}

#[test]
fn keywords() {
    assert_eq!(TokenType::keyword("brew"), Some(TokenType::Brew));
    assert_eq!(TokenType::keyword("end"), Some(TokenType::End));
    assert_eq!(TokenType::keyword("yeast"), Some(TokenType::Yeast));
    assert_eq!(TokenType::keyword("mix"), Some(TokenType::Mix));
    assert_eq!(TokenType::keyword("Brew"), None);
    assert_eq!(TokenType::keyword("lager"), None);
    assert_eq!(TokenType::keyword(""), None);
    assert_eq!(lex("until")[0].token_type, TokenType::Until);
}

#[test]
fn token_display() {
    let tokens = lex("taste \"a'b\"c");
    assert_eq!(tokens[0].display_string(), "1:0 Taste 'taste'");
    assert_eq!(tokens[1].display_string(), "1:6 String(\"a'b\") '\"a'b\"'");
    let t = Token::new(TokenType::Number("5".to_string()), "5".to_string(), 3, 12);
    assert_eq!(t.display_string(), "3:12 Number(5.0) '5'");
    let t = Token::new(TokenType::Percentage("5.2".to_string()), "5.2%".to_string(), 1, 1);
    assert_eq!(t.display_string(), "1:1 Percentage(5.2) '5.2%'");
}

#[test]
fn debug_text_escapes_like_debug() {
    let t = TokenType::String("a\"b\\c\nd\u{7}".to_string());
    assert_eq!(t.debug_text(), format!("{:?}", t));
    let t = TokenType::Identifier("x'y".to_string());
    assert_eq!(t.debug_text(), format!("{:?}", t));
    assert_eq!(TokenType::LeftParen.debug_text(), "LeftParen");
}

#[test]
fn numerals_show_as_their_f64_prints() {
    let numerals = [
        "0", "0.000", "007", "5", "3.14", "5.20", "100", "120.500", "0.0001", "0.00012",
        "0.00001", "0.000012345", "999999999999999", "10000000000000000",
        "123456789012345", "1234567890.12345", "00.50", "1.00000000000001",
    ];
    for n in numerals.iter() {
        let expected = format!("{:?}", n.parse::<f64>().unwrap());
        assert_eq!(TokenType::Number(n.to_string()).debug_text(), format!("Number({})", expected), "{}", n);
        assert_eq!(TokenType::Percentage(n.to_string()).debug_text(), format!("Percentage({})", expected), "{}", n);
    }
    assert_eq!(TokenType::Number("007".to_string()).debug_text(), "Number(7.0)");
    assert_eq!(TokenType::Number("2.50".to_string()).debug_text(), "Number(2.5)");
    assert_eq!(TokenType::Number("0.000001".to_string()).debug_text(), "Number(1e-6)");
    assert_eq!(TokenType::Number("25000000000000000".to_string()).debug_text(), "Number(2.5e16)");
}

#[test]
fn numerals_at_the_ends_of_the_f64_range() {
    let half_min = format!("0.{}{}", "0".repeat(323), alescript::numeral::HALF_MIN_DIGITS);
    let just_above = format!("{}1", half_min);
    let overflow = alescript::numeral::OVERFLOW_DIGITS.to_string() + &"0".repeat(309 - alescript::numeral::OVERFLOW_DIGITS.len());
    let below_overflow = format!("{}.9", "179769313486231580793728971405303415079934132710037826936173778980444968292764750946649017977587207096330286416692887910946555547851940402630657488671505820681908902000708383676273854845817711531764475730270069855571366959622842914819860834936475292719074168444365510704342711559699508093042880177904174497791");
    let huge = format!("1{}", "0".repeat(400));
    let tiny = format!("0.{}1", "0".repeat(400));
    for n in [half_min.as_str(), overflow.as_str(), huge.as_str(), tiny.as_str()].iter() {
        let expected = format!("{:?}", n.parse::<f64>().unwrap());
        assert_eq!(TokenType::Number(n.to_string()).debug_text(), format!("Number({})", expected));
    }
    assert_eq!(TokenType::Number(half_min).debug_text(), "Number(0.0)");
    // just above half the smallest f64 the value is no zero (its digits are
    // shown as written: subnormal rounding is not modelled)
    assert!(just_above.parse::<f64>().unwrap() > 0.0);
    assert!(TokenType::Number(just_above).debug_text().starts_with("Number(2.470328"));
    assert_eq!(TokenType::Number(overflow).debug_text(), "Number(inf)");
    assert_eq!(TokenType::Number(huge).debug_text(), "Number(inf)");
    assert_eq!(TokenType::Number(tiny).debug_text(), "Number(0.0)");
    assert_eq!(below_overflow.parse::<f64>().unwrap(), f64::MAX);
}
