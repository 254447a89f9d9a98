use mmvm::scanner::Scanner;
use mmvm::stream::drain;
use mmvm::token::{Token, TokenType};

fn scan(text: &str) -> Vec<Token> {
    let mut scanner = Scanner::from(text.to_string());
    drain(&mut scanner)
}

fn kinds(text: &str) -> Vec<TokenType> {
    scan(text).iter().map(|t| t.token_type()).collect()
}

fn texts(text: &str) -> Vec<String> {
    scan(text).iter().map(|t| t.text()).collect()
}

#[test]
fn tokens_of_an_instruction_line() {
    let tokens = scan("ADD A B\n");
    assert_eq!(tokens.len(), 4);
    assert_eq!(tokens[0].token_type(), TokenType::Keyword);
    assert_eq!(tokens[0].str_value(), Some("ADD".to_string()));
    assert_eq!(tokens[1].token_type(), TokenType::Identifier);
    assert_eq!(tokens[1].str_value(), Some("A".to_string()));
    assert_eq!(tokens[2].token_type(), TokenType::Identifier);
    assert_eq!(tokens[2].str_value(), Some("B".to_string()));
    assert_eq!(tokens[3].token_type(), TokenType::NewLine);
    assert_eq!(tokens[3].str_value(), Some("\n".to_string()));
}

#[test]
fn tokens_carry_their_places() {
    let tokens = scan("ADD A B\n  SUB [x]\n");
    let places: Vec<(u32, u32)> = tokens.iter().map(|t| (t.line(), t.column())).collect();
    assert_eq!(
        places,
        vec![(1, 1), (1, 5), (1, 7), (1, 8), (2, 3), (2, 7), (2, 8), (2, 9), (2, 10)]
    );
}

#[test]
fn places_only_advance() {
    let tokens = scan("a b\n\n  c.d:e\n[f] {g}\r\n\th");
    for pair in tokens.windows(2) {
        let earlier = (pair[0].line(), pair[0].column());
        let later = (pair[1].line(), pair[1].column());
        assert!(earlier < later);
    }
}

#[test]
fn every_character_is_consumed_once() {
    let text = " ADD  A\tB\r\n:loop [x] {y} . done \n\n  ";
    let tokens = scan(text);
    let in_tokens: usize = tokens.iter().map(|t| t.text().chars().count()).sum();
    let blanks = text.chars().filter(|c| *c == ' ' || *c == '\t' || *c == '\r').count();
    assert_eq!(in_tokens + blanks, text.chars().count());
    let joined: String = tokens.iter().map(|t| t.text()).collect();
    let without_blanks: String =
        text.chars().filter(|c| *c != ' ' && *c != '\t' && *c != '\r').collect();
    assert_eq!(joined, without_blanks);
}

#[test]
fn punctuation_is_a_token_by_itself() {
    assert_eq!(
        kinds("[]{}:.\n"),
        vec![
            TokenType::LeftBrace,
            TokenType::RightBrace,
            TokenType::LeftCurly,
            TokenType::RightCurly,
            TokenType::Colon,
            TokenType::Dot,
            TokenType::NewLine
        ]
    );
    assert_eq!(texts("a[b]c"), vec!["a", "[", "b", "]", "c"]);
}

#[test]
fn blanks_separate_words_and_line_feeds_are_tokens() {
    assert_eq!(texts("  one \t two\r\nthree"), vec!["one", "two", "\n", "three"]);
    assert_eq!(kinds(" \t\r "), vec![]);
    assert_eq!(kinds(""), vec![]);
}

#[test]
fn keywords_in_any_case() {
    assert_eq!(Scanner::str_tokentype("add"), TokenType::Keyword);
    assert_eq!(Scanner::str_tokentype("ADD"), TokenType::Keyword);
    assert_eq!(Scanner::str_tokentype("Push"), TokenType::Keyword);
    assert_eq!(Scanner::str_tokentype("pOp"), TokenType::Keyword);
    assert_eq!(Scanner::str_tokentype("nop"), TokenType::Keyword);
    assert_eq!(Scanner::str_tokentype("or"), TokenType::Keyword);
    assert_eq!(Scanner::str_tokentype("ECHO"), TokenType::Identifier);
    assert_eq!(Scanner::str_tokentype("adds"), TokenType::Identifier);
    assert_eq!(Scanner::str_tokentype("ad"), TokenType::Identifier);
}

#[test]
fn identifiers_are_a_letter_then_letters_and_digits() {
    assert_eq!(Scanner::str_tokentype("A"), TokenType::Identifier);
    assert_eq!(Scanner::str_tokentype("z"), TokenType::Identifier);
    assert_eq!(Scanner::str_tokentype("x1"), TokenType::Identifier);
    assert_eq!(Scanner::str_tokentype("R2D2"), TokenType::Identifier);
    assert_eq!(Scanner::str_tokentype("ECHO"), TokenType::Identifier);
    assert_eq!(Scanner::str_tokentype("1x"), TokenType::Unknown);
    assert_eq!(Scanner::str_tokentype("5a"), TokenType::Unknown);
    assert_eq!(Scanner::str_tokentype("a_b"), TokenType::Unknown);
    assert_eq!(Scanner::str_tokentype("a-b"), TokenType::Unknown);
    assert_eq!(Scanner::str_tokentype("FETCH_READ"), TokenType::Unknown);
    assert_eq!(Scanner::str_tokentype("\"done\""), TokenType::Unknown);
    assert_eq!(Scanner::str_tokentype("a\n"), TokenType::Unknown);
    assert_eq!(Scanner::str_tokentype("a b"), TokenType::Unknown);
    assert_eq!(Scanner::str_tokentype("\u{e9}"), TokenType::Unknown);
    assert_eq!(Scanner::str_tokentype("a\u{e9}"), TokenType::Unknown);
}

#[test]
fn integers_are_digits_only() {
    assert_eq!(Scanner::str_tokentype("5"), TokenType::Integer);
    assert_eq!(Scanner::str_tokentype("0"), TokenType::Integer);
    assert_eq!(Scanner::str_tokentype("2048"), TokenType::Integer);
    assert_eq!(Scanner::str_tokentype("007"), TokenType::Integer);
    assert_eq!(Scanner::str_tokentype("99999999999999999999"), TokenType::Integer);
    assert_eq!(Scanner::str_tokentype("-5"), TokenType::Unknown);
    assert_eq!(Scanner::str_tokentype("+5"), TokenType::Unknown);
    assert_eq!(Scanner::str_tokentype("5-"), TokenType::Unknown);
    assert_eq!(Scanner::str_tokentype("5\n"), TokenType::Unknown);
    assert_eq!(Scanner::str_tokentype("1e5"), TokenType::Unknown);
    assert_eq!(Scanner::str_tokentype("\u{663}"), TokenType::Unknown);
}

#[test]
fn other_words_are_unknown() {
    assert_eq!(Scanner::str_tokentype("+"), TokenType::Unknown);
    assert_eq!(Scanner::str_tokentype("??"), TokenType::Unknown);
    assert_eq!(Scanner::str_tokentype("\"\""), TokenType::Unknown);
    assert_eq!(Scanner::str_tokentype(""), TokenType::Unknown);
}

#[test]
fn kinds_of_single_characters() {
    assert_eq!(Scanner::str_tokentype("\n"), TokenType::NewLine);
    assert_eq!(Scanner::str_tokentype("["), TokenType::LeftBrace);
    assert_eq!(Scanner::str_tokentype("]"), TokenType::RightBrace);
    assert_eq!(Scanner::str_tokentype("{"), TokenType::LeftCurly);
    assert_eq!(Scanner::str_tokentype("}"), TokenType::RightCurly);
    assert_eq!(Scanner::str_tokentype("."), TokenType::Dot);
    assert_eq!(Scanner::str_tokentype(":"), TokenType::Colon);
    assert_eq!(Scanner::str_tokentype("::"), TokenType::Unknown);
}

#[test]
fn unknown_text_becomes_a_token() {
    let tokens = scan("ADD ?? 5 5a -5 \"done\"");
    assert_eq!(tokens.len(), 6);
    assert_eq!(tokens[1].token_type(), TokenType::Unknown);
    assert_eq!(tokens[1].text(), "??");
    assert_eq!(tokens[2].token_type(), TokenType::Integer);
    assert_eq!(tokens[3].token_type(), TokenType::Unknown);
    assert_eq!(tokens[3].text(), "5a");
    assert_eq!(tokens[4].token_type(), TokenType::Unknown);
    assert_eq!(tokens[4].text(), "-5");
    assert_eq!(tokens[5].token_type(), TokenType::Unknown);
    assert_eq!(tokens[5].text(), "\"done\"");
}

#[test]
fn peek_and_consume_char() {
    let mut scanner = Scanner::from("a\nb".to_string());
    assert!(!scanner.is_eof());
    assert_eq!(scanner.peek(), Some('a'));
    assert_eq!(scanner.peek(), Some('a'));
    assert_eq!(scanner.consume_char(), Some('a'));
    assert_eq!(scanner.peek(), Some('\n'));
    assert_eq!(scanner.consume_char(), Some('\n'));
    assert_eq!(scanner.consume_char(), Some('b'));
    assert!(scanner.is_eof());
    assert_eq!(scanner.peek(), None);
    assert_eq!(scanner.consume_char(), None);
    assert_eq!(scanner.consume_char(), None);
}

#[test]
fn consume_char_counts_lines_and_columns() {
    let mut scanner = Scanner::from("ab\ncd e".to_string());
    for _ in 0..4 {
        scanner.consume_char();
    }
    let token = scanner.consume_token().unwrap();
    assert_eq!(token.text(), "d");
    assert_eq!((token.line(), token.column()), (2, 2));
    let token = scanner.consume_token().unwrap();
    assert_eq!((token.line(), token.column()), (2, 4));
}

#[test]
fn consume_char_takes_whole_characters() {
    let mut scanner = Scanner::from("\u{e9}\u{4e2d}x".to_string());
    assert_eq!(scanner.consume_char(), Some('\u{e9}'));
    assert_eq!(scanner.consume_char(), Some('\u{4e2d}'));
    let token = scanner.consume_token().unwrap();
    assert_eq!(token.text(), "x");
    assert_eq!(token.column(), 3);
}

#[test]
fn consume_while_takes_the_longest_run() {
    let mut scanner = Scanner::from("aaabaa".to_string());
    assert_eq!(scanner.consume_while(|c| c == 'a'), "aaa");
    assert_eq!(scanner.peek(), Some('b'));
    assert_eq!(scanner.consume_while(|c| c == 'a'), "");
    assert_eq!(scanner.peek(), Some('b'));
    assert_eq!(scanner.consume_while(|c| c != 'z'), "baa");
    assert!(scanner.is_eof());
    assert_eq!(scanner.consume_while(|_| true), "");
}

#[test]
fn consume_whitespace_stops_at_a_line_feed() {
    let mut scanner = Scanner::from(" \t\r\n x".to_string());
    scanner.consume_whitespace();
    assert_eq!(scanner.peek(), Some('\n'));
    scanner.consume_whitespace();
    assert_eq!(scanner.peek(), Some('\n'));
}

#[test]
fn consume_word_stops_at_blanks_and_punctuation() {
    let mut scanner = Scanner::from("abc[def ghi".to_string());
    assert_eq!(scanner.consume_word(), "abc");
    assert_eq!(scanner.consume_word(), "");
    assert_eq!(scanner.consume_char(), Some('['));
    assert_eq!(scanner.consume_word(), "def");
    assert_eq!(scanner.consume_char(), Some(' '));
    assert_eq!(scanner.consume_word(), "ghi");
    assert_eq!(scanner.consume_word(), "");
}

#[test]
fn peek_token_does_not_consume() {
    let mut scanner = Scanner::from("PUSH 5".to_string());
    let first = scanner.peek_token().unwrap();
    let again = scanner.peek_token().unwrap();
    assert_eq!(first, again);
    assert_eq!(first.text(), "PUSH");
    let consumed = scanner.consume_token().unwrap();
    assert_eq!(consumed, first);
    let next = scanner.peek_token().unwrap();
    assert_eq!(next.text(), "5");
    assert_eq!(scanner.consume_token().unwrap(), next);
    assert_eq!(scanner.peek_token(), None);
    assert_eq!(scanner.consume_token(), None);
    assert_eq!(scanner.consume_token(), None);
}

#[test]
fn a_token_read_ahead_stays_when_characters_are_consumed() {
    let mut scanner = Scanner::from("ab cd ef".to_string());
    let first = scanner.peek_token().unwrap();
    assert_eq!(first.text(), "ab");
    assert_eq!(scanner.peek(), Some(' '));
    assert_eq!(scanner.consume_char(), Some(' '));
    assert_eq!(scanner.consume_char(), Some('c'));
    assert_eq!(scanner.consume_token().unwrap(), first);
    let next = scanner.consume_token().unwrap();
    assert_eq!(next.text(), "d");
    assert_eq!((next.line(), next.column()), (1, 5));
}

#[test]
fn token_keeps_what_it_is_made_of() {
    let token = Token::new(3, 7, TokenType::Integer, Some("42".to_string()));
    assert_eq!(token.line(), 3);
    assert_eq!(token.column(), 7);
    assert_eq!(token.token_type(), TokenType::Integer);
    assert_eq!(token.str_value(), Some("42".to_string()));
    assert_eq!(token.chars(), vec!['4', '2']);
    assert!(token.is_word());
    let copy = token.clone();
    assert_eq!(copy, token);
    let bare = Token::new(1, 1, TokenType::Colon, None);
    assert_eq!(bare.str_value(), None);
    assert_eq!(bare.text(), "");
    assert!(!bare.is_word());
}
