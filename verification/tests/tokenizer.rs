use sieve::compiler::lexer::tokenizer::{canonical_i64_exec, Tokenizer};
use sieve::compiler::lexer::word::Word;
use sieve::compiler::lexer::{StringConstant, Token, TokenInfo};
use sieve::compiler::{CompileError, ErrorType, Number};
use sieve::Compiler;

fn tokens(script: &str) -> (Vec<TokenInfo>, Option<CompileError>) {
    let mut t = Tokenizer::new(&Compiler::new(), script.as_bytes());
    let mut out = Vec::new();
    loop {
        match t.next() {
            Some(Ok(tok)) => out.push(tok),
            Some(Err(e)) => return (out, Some(e)),
            None => return (out, None),
        }
    }
}

fn kinds(script: &str) -> Vec<Token> {
    let (toks, err) = tokens(script);
    assert!(err.is_none(), "unexpected error for {script:?}");
    toks.into_iter().map(|t| t.token).collect()
}

fn text(s: &str) -> Token {
    Token::StringConstant(StringConstant::String(s.to_string()))
}

#[test]
fn tokenizes_a_small_script() {
    assert_eq!(
        kinds("require \"fileinto\";\nif header :contains \"subject\" \"x\" { fileinto \"a\"; }\n"),
        vec![
            Token::Identifier(Word::Require),
            text("fileinto"),
            Token::Semicolon,
            Token::Identifier(Word::If),
            Token::Identifier(Word::Header),
            Token::Tag(Word::Contains),
            text("subject"),
            text("x"),
            Token::CurlyOpen,
            Token::Identifier(Word::Fileinto),
            text("a"),
            Token::Semicolon,
            Token::CurlyClose,
        ]
    );
}

#[test]
fn words_are_lowercased_and_keep_their_place() {
    let (toks, err) = tokens("IF\n  :Contains x;\n");
    assert!(err.is_none());
    assert_eq!(toks[0].token, Token::Identifier(Word::If));
    assert_eq!((toks[0].line_num, toks[0].line_pos), (1, 0));
    assert_eq!(toks[1].token, Token::Tag(Word::Contains));
    // A tag's column is that of its colon; after the first line, columns
    // count from the line feed.
    assert_eq!((toks[1].line_num, toks[1].line_pos), (2, 3));
    assert_eq!(toks[2].token, Token::Unknown("x".to_string()));
    assert_eq!(toks[3].token, Token::Semicolon);
}

#[test]
fn numbers_with_quantifiers() {
    assert_eq!(
        kinds("10 10K 2m 1g 007 "),
        vec![
            Token::Number(10),
            Token::Number(10 * 1024),
            Token::Number(2 * 1048576),
            Token::Number(1073741824),
            Token::Number(7),
        ]
    );
    // Too large for usize: kept as an unknown word.
    assert_eq!(
        kinds("99999999999999999999999 "),
        vec![Token::Unknown("99999999999999999999999".to_string())]
    );
    // Saturates when the quantifier overflows.
    assert_eq!(kinds("18446744073709551615k "), vec![Token::Number(usize::MAX)]);
}

#[test]
fn string_constants_that_read_as_numbers() {
    assert_eq!(
        kinds("\"123\" \"-5\" \"0123\" \"1.5\" \"a1\" \"-0\""),
        vec![
            Token::StringConstant(StringConstant::Number(Number::Integer(123))),
            Token::StringConstant(StringConstant::Number(Number::Integer(-5))),
            text("0123"),
            Token::StringConstant(StringConstant::Number(Number::Decimal("1.5".to_string()))),
            text("a1"),
            text("-0"),
        ]
    );
}

#[test]
fn escapes_and_variables_in_strings() {
    assert_eq!(
        kinds("\"a\\\"b\\\\c\" \"${x}\""),
        vec![text("a\"b\\c"), Token::StringVariable(b"${x}".to_vec())]
    );
}

#[test]
fn multi_line_strings() {
    assert_eq!(kinds("text:\r\nhello\n..x\n.\r\n;"), vec![text("hello\n.x\n"), Token::Semicolon]);
}

#[test]
fn comments_are_skipped() {
    assert_eq!(
        kinds("stop; # a comment\n/* another\n one */ keep;"),
        vec![
            Token::Identifier(Word::Stop),
            Token::Semicolon,
            Token::Identifier(Word::Keep),
            Token::Semicolon,
        ]
    );
}

#[test]
fn errors_of_the_tokenizer() {
    let (_, err) = tokens("keep;\n  \"abc");
    let err = err.unwrap();
    assert_eq!((err.line_num(), err.line_pos()), (2, 3));
    assert_eq!(*err.error_type(), ErrorType::UnterminatedString);

    let (_, err) = tokens("keep @");
    assert_eq!(*err.unwrap().error_type(), ErrorType::InvalidCharacter(b'@'));

    let (_, err) = tokens("/* never closed");
    assert_eq!(*err.unwrap().error_type(), ErrorType::UnterminatedComment);

    let (_, err) = tokens("text:\nabc\n");
    assert_eq!(*err.unwrap().error_type(), ErrorType::UnterminatedMultiline);

    let mut t = Tokenizer::new(&Compiler::new().with_max_string_size(3), b"\"abcd\"");
    assert_eq!(*t.next().unwrap().unwrap_err().error_type(), ErrorType::StringTooLong);
}

#[test]
fn peek_does_not_take_the_token() {
    let mut t = Tokenizer::new(&Compiler::new(), b"keep;");
    let peeked = t.peek().unwrap().unwrap().token == Token::Identifier(Word::Keep);
    assert!(peeked);
    assert_eq!(t.next().unwrap().unwrap().token, Token::Identifier(Word::Keep));
    assert_eq!(t.next().unwrap().unwrap().token, Token::Semicolon);
    assert!(t.next().is_none());
}

#[test]
fn expectations() {
    let mut t = Tokenizer::new(&Compiler::new(), b"[\"a\" \"b\"] 5 6 ;");
    assert_eq!(t.expect_static_string().unwrap(), "b");
    assert_eq!(t.expect_number(10).unwrap(), 5);
    let err = t.expect_number(6).unwrap_err();
    assert_eq!(
        *err.error_type(),
        ErrorType::UnexpectedToken {
            expected: "number lower than 6".to_string(),
            found: "6".to_string()
        }
    );
    assert!(t.expect_token(Token::Semicolon).is_ok());
    assert_eq!(*t.unwrap_next().unwrap_err().error_type(), ErrorType::UnexpectedEOF);

    let mut t = Tokenizer::new(&Compiler::new(), b"[\"a\", \"b\"]");
    assert_eq!(
        *t.expect_static_string().unwrap_err().error_type(),
        ErrorType::UnexpectedToken { expected: "constant string".to_string(), found: ",".to_string() }
    );

    let mut t = Tokenizer::new(&Compiler::new(), b"keep");
    // The last word of a script is only handed out once something follows it.
    assert_eq!(*t.unwrap_next().unwrap_err().error_type(), ErrorType::UnexpectedEOF);

    let mut t = Tokenizer::new(&Compiler::new(), b"{ ");
    let err = t.expect_token(Token::Semicolon).unwrap_err();
    assert_eq!(
        *err.error_type(),
        ErrorType::UnexpectedToken { expected: "';'".to_string(), found: "{".to_string() }
    );
}

#[test]
fn constants_as_text() {
    assert_eq!(StringConstant::Number(Number::Integer(-42)).into_string(), "-42");
    assert_eq!(StringConstant::String("x".to_string()).to_string(), "x");
    assert_eq!(sieve::compiler::lexer::tokenizer::token_to_string(&Token::Tag(Word::Contains)), ":contains");
}

#[test]
fn canonical_integers() {
    assert_eq!(canonical_i64_exec("9223372036854775807"), Some(i64::MAX));
    assert_eq!(canonical_i64_exec("-9223372036854775808"), Some(i64::MIN));
    assert_eq!(canonical_i64_exec("9223372036854775808"), None);
    assert_eq!(canonical_i64_exec("+1"), None);
    assert_eq!(canonical_i64_exec("01"), None);
    assert_eq!(canonical_i64_exec("0"), Some(0));
    for n in [0i64, 7, -7, 1234567890, i64::MIN, i64::MAX] {
        assert_eq!(canonical_i64_exec(&n.to_string()), Some(n));
    }
}

#[test]
fn escaped_backslash_does_not_escape_the_closing_quote() {
    let mut t = Tokenizer::new(&Compiler::new(), &[b'"', b'a', b'\\', b'\\', b'"', b';']);
    assert_eq!(t.next().unwrap().unwrap().token, text("a\\"));
    assert_eq!(t.next().unwrap().unwrap().token, Token::Semicolon);
    assert!(t.next().is_none());
    assert_eq!(kinds("\"a\\\"b\";"), vec![text("a\"b"), Token::Semicolon]);
    assert_eq!(kinds("\"\\\\\\\"\";"), vec![text("\\\""), Token::Semicolon]);
}
