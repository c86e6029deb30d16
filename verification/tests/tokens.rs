use xlineparse::parser::Parser;
use xlineparse::schema::Schema;
use xlineparse::token::{split_line, Token};
use xlineparse::value::{ConfigError, ParseError};

fn plain(text: &str) -> Token {
    Token { text: text.to_string(), is_quoted: false }
}

fn quoted(text: &str) -> Token {
    Token { text: text.to_string(), is_quoted: true }
}

fn bare_schema(delimiter: &str, quote: Option<&str>, trailing_delimiter: bool) -> Schema {
    Schema {
        delimiter: delimiter.to_string(),
        quote_str: quote.map(|q| q.to_string()),
        trailing_delimiter,
        coerce_empty_quoted: false,
        lines: vec![],
    }
}

#[test]
fn delimiters_cut_tokens() {
    assert_eq!(split_line("a,b,c", ',', Some('"')), vec![plain("a"), plain("b"), plain("c")]);
}

#[test]
fn a_line_without_delimiter_is_one_token() {
    assert_eq!(split_line("abc", ',', Some('"')), vec![plain("abc")]);
    assert_eq!(split_line("", ',', Some('"')), vec![plain("")]);
}

#[test]
fn n_delimiters_give_n_plus_one_tokens() {
    assert_eq!(split_line(",", ',', None), vec![plain(""), plain("")]);
    assert_eq!(split_line(",,,", ',', None).len(), 4);
    assert_eq!(split_line("a,,b,", ',', None), vec![plain("a"), plain(""), plain("b"), plain("")]);
}

#[test]
fn quote_marks_are_dropped_and_remembered() {
    assert_eq!(
        split_line("T,\"hello\",5", ',', Some('"')),
        vec![plain("T"), quoted("hello"), plain("5")]
    );
    assert_eq!(split_line("\"\"", ',', Some('"')), vec![quoted("")]);
}

#[test]
fn a_delimiter_between_quote_marks_is_text() {
    assert_eq!(split_line("\"a,b\",c", ',', Some('"')), vec![quoted("a,b"), plain("c")]);
}

#[test]
fn a_quote_mark_inside_a_token_marks_the_whole_token() {
    assert_eq!(split_line("ab\"cd\"ef,g", ',', Some('"')), vec![quoted("abcdef"), plain("g")]);
}

#[test]
fn doubled_quote_marks_are_no_escape() {
    assert_eq!(split_line("\"a\"\"b\",c", ',', Some('"')), vec![quoted("ab"), plain("c")]);
    assert_eq!(split_line("\"a\"\",b\",c", ',', Some('"')), vec![quoted("a,b"), plain("c")]);
}

#[test]
fn an_open_quoted_span_runs_to_the_end() {
    assert_eq!(split_line("a,\"b,c", ',', Some('"')), vec![plain("a"), quoted("b,c")]);
}

#[test]
fn without_a_quote_mark_nothing_is_quoted() {
    assert_eq!(split_line("\"a,b\"", ',', None), vec![plain("\"a"), plain("b\"")]);
}

#[test]
fn a_delimiter_that_is_the_quote_mark_cuts_nothing() {
    assert_eq!(split_line("a|b|c", '|', Some('|')), vec![quoted("abc")]);
}

#[test]
fn tokens_hold_any_code_point() {
    assert_eq!(split_line("é;日本;", ';', None), vec![plain("é"), plain("日本"), plain("")]);
    assert_eq!(split_line("a→«b→c»", '→', Some('«')), vec![plain("a"), quoted("b→c»")]);
}

#[test]
fn tokenize_drops_line_feeds_at_the_end() {
    let parser = Parser::new(bare_schema(",", None, false)).unwrap();
    assert_eq!(parser.tokenize("a,b\n").unwrap(), vec![plain("a"), plain("b")]);
    assert_eq!(parser.tokenize("a,b\n\n\n").unwrap(), vec![plain("a"), plain("b")]);
    assert_eq!(parser.tokenize("a\n,b").unwrap(), vec![plain("a\n"), plain("b")]);
    assert_eq!(parser.tokenize("a,b\r\n").unwrap(), vec![plain("a"), plain("b\r")]);
    assert_eq!(parser.tokenize("\n").unwrap(), vec![plain("")]);
}

#[test]
fn tokenize_takes_the_trailing_delimiter_away() {
    let parser = Parser::new(bare_schema("|", None, true)).unwrap();
    assert_eq!(parser.tokenize("a|b|").unwrap(), vec![plain("a"), plain("b")]);
    assert_eq!(parser.tokenize("a|b|\n").unwrap(), vec![plain("a"), plain("b")]);
    assert_eq!(parser.tokenize("a|b||").unwrap(), vec![plain("a"), plain("b"), plain("")]);
    assert_eq!(parser.tokenize("|").unwrap(), vec![plain("")]);
}

#[test]
fn tokenize_asks_for_the_trailing_delimiter() {
    let parser = Parser::new(bare_schema("|", None, true)).unwrap();
    assert!(matches!(parser.tokenize("a|b"), Err(ParseError::MissingTrailingDelimiter)));
    assert!(matches!(parser.tokenize(""), Err(ParseError::MissingTrailingDelimiter)));
    assert!(matches!(parser.tokenize("\n"), Err(ParseError::MissingTrailingDelimiter)));
    assert!(matches!(parser.tokenize("a|b|x\n"), Err(ParseError::MissingTrailingDelimiter)));
}

#[test]
fn a_delimiter_must_be_one_character() {
    assert_eq!(Parser::new(bare_schema("", None, false)).unwrap_err(), ConfigError::Delimiter);
    assert_eq!(Parser::new(bare_schema(",,", None, false)).unwrap_err(), ConfigError::Delimiter);
    assert_eq!(
        Parser::new(bare_schema("", Some("''"), false)).unwrap_err(),
        ConfigError::Delimiter
    );
    let parser = Parser::new(bare_schema("→", None, false)).unwrap();
    assert_eq!(parser.delimiter(), '→');
    assert_eq!(parser.quote(), None);
}

#[test]
fn a_quote_mark_must_be_one_character() {
    assert_eq!(Parser::new(bare_schema(",", Some(""), false)).unwrap_err(), ConfigError::Quote);
    assert_eq!(Parser::new(bare_schema(",", Some("''"), false)).unwrap_err(), ConfigError::Quote);
    let parser = Parser::new(bare_schema(",", Some("'"), false)).unwrap();
    assert_eq!(parser.quote(), Some('\''));
    assert_eq!(parser.schema().delimiter, ",");
}

#[test]
fn the_first_name_is_read_without_cutting_the_line() {
    let parser = Parser::new(bare_schema(",", Some("\""), false)).unwrap();
    assert_eq!(parser.parse_first("T,1,2"), "T");
    assert_eq!(parser.parse_first("\"T,x\",1,2"), "T,x");
    assert_eq!(parser.parse_first("\"open"), "open");
    assert_eq!(parser.parse_first("TRADE"), "TRADE");
    assert_eq!(parser.parse_first(""), "");
    assert_eq!(parser.parse_first(",a"), "");
    assert_eq!(parser.parse_first("\"\"x,a"), "");
    assert_eq!(parser.parse_first("ab\"c,d\"e,f"), "ab\"c");
    assert_eq!(parser.parse_first("T\n"), "T\n");
}

#[test]
fn the_first_name_without_a_quote_mark_runs_to_the_delimiter() {
    let parser = Parser::new(bare_schema("|", None, true)).unwrap();
    assert_eq!(parser.parse_first("\"T|x\"|1"), "\"T");
    assert_eq!(parser.parse_first("HDR|20240101|"), "HDR");
}
