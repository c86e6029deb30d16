use xlineparse::calendar::CivilDate;
use xlineparse::decimal::Decimal;
use xlineparse::parser::Parser;
use xlineparse::schema::{
    BoolField, DateField, DecimalField, Field, FloatField, IntEnumField, IntField, Line, Schema,
    StrEnumField, StrField,
};
use xlineparse::token::Token;
use xlineparse::value::{DecodeFailure, FieldError, ParseError, Value};

fn text(required: bool) -> Field {
    Field::Str(StrField { required, min_length: None, max_length: None, invalid_characters: None })
}

fn whole(required: bool) -> Field {
    Field::Int(IntField { required, min_value: None, max_value: None })
}

fn float(min: Option<f64>, max: Option<f64>) -> Field {
    Field::Float(FloatField {
        required: true,
        min_value: min.map(f64::to_bits),
        max_value: max.map(f64::to_bits),
    })
}

fn trade_schema() -> Schema {
    Schema {
        delimiter: "|".to_string(),
        quote_str: Some("'".to_string()),
        trailing_delimiter: true,
        coerce_empty_quoted: false,
        lines: vec![
            Line { name: "HDR".to_string(), fields: vec![] },
            Line {
                name: "TRD".to_string(),
                fields: vec![
                    text(true),
                    Field::StrEnum(StrEnumField {
                        required: true,
                        values: vec!["BUY".to_string(), "SELL".to_string()],
                    }),
                    whole(true),
                    Field::Decimal(DecimalField {
                        required: true,
                        round_decimal_places: Some(2),
                        min_value: None,
                        max_value: None,
                    }),
                    Field::Bool(BoolField {
                        required: false,
                        true_value: "Y".to_string(),
                        false_value: Some("N".to_string()),
                    }),
                    Field::Date(DateField { required: true, format: "%Y%m%d".to_string() }),
                    Field::IntEnum(IntEnumField { required: false, values: vec![1, 2] }),
                ],
            },
            Line { name: "TRD".to_string(), fields: vec![text(true)] },
            Line { name: "FLT".to_string(), fields: vec![whole(true), float(Some(0.0), Some(1.0))] },
        ],
    }
}

fn parser() -> Parser {
    Parser::new(trade_schema()).unwrap()
}

fn plain(text: &str) -> Token {
    Token { text: text.to_string(), is_quoted: false }
}

fn name(text: &str) -> Value {
    Value::Str(text.to_string())
}

#[test]
fn a_record_is_the_name_and_one_value_for_each_field() {
    let record = parser()
        .parse_line("TRD|'ACME|CORP'|BUY|1200|12.345|Y|20240229||\n", &vec![])
        .unwrap();
    assert_eq!(record.len(), 8);
    assert_eq!(record[0], name("TRD"));
    assert_eq!(
        record,
        vec![
            name("TRD"),
            name("ACME|CORP"),
            name("BUY"),
            Value::Int(1200),
            Value::Decimal(Decimal::new(1234, 2).unwrap()),
            Value::Bool(true),
            Value::Date(CivilDate { year: 2024, month: 2, day: 29 }),
            Value::Absent,
        ]
    );
}

#[test]
fn a_line_kind_without_fields_gives_its_name_alone() {
    assert_eq!(parser().parse_line("HDR|", &vec![]).unwrap(), vec![name("HDR")]);
    assert_eq!(parser().parse_line("'HDR'|\n", &vec![]).unwrap(), vec![name("HDR")]);
}

#[test]
fn the_first_kind_of_a_name_is_the_one_used() {
    assert_eq!(
        parser().parse_line("TRD|x|", &vec![]).unwrap_err(),
        ParseError::FieldCountMismatch { expected: 7, found: 1 }
    );
    let p = parser();
    let tokens = p.tokenize("TRD|x|").unwrap();
    assert_eq!(p.select_line(&tokens).unwrap_err(), ParseError::FieldCountMismatch {
        expected: 7,
        found: 1
    });
    let tokens = p.tokenize("FLT|1|0.5|").unwrap();
    assert_eq!(p.select_line(&tokens).unwrap(), 3);
}

#[test]
fn names_are_matched_exactly() {
    assert_eq!(
        parser().parse_line("trd|x|", &vec![]).unwrap_err(),
        ParseError::UnknownLineKind("trd".to_string())
    );
    assert_eq!(
        parser().parse_line("TRD |x|", &vec![]).unwrap_err(),
        ParseError::UnknownLineKind("TRD ".to_string())
    );
    assert_eq!(
        parser().parse_line("|", &vec![]).unwrap_err(),
        ParseError::UnknownLineKind(String::new())
    );
}

#[test]
fn the_number_of_tokens_must_be_the_number_of_fields() {
    assert_eq!(
        parser().parse_line("HDR|extra|", &vec![]).unwrap_err(),
        ParseError::FieldCountMismatch { expected: 0, found: 1 }
    );
    assert_eq!(
        parser().parse_line("FLT|1|", &vec![]).unwrap_err(),
        ParseError::FieldCountMismatch { expected: 2, found: 1 }
    );
    assert_eq!(
        parser().parse_line("FLT|1|2|3|", &vec![]).unwrap_err(),
        ParseError::FieldCountMismatch { expected: 2, found: 3 }
    );
}

#[test]
fn the_first_token_that_does_not_fit_is_reported() {
    let error = parser()
        .parse_line("TRD|ACME|HOLD|many|1.x|?|never|9|", &vec![])
        .unwrap_err();
    match error {
        ParseError::Field(FieldError { failure, text, field }) => {
            assert_eq!(failure, DecodeFailure::NotInEnum);
            assert_eq!(text, "HOLD");
            assert_eq!(
                field,
                Field::StrEnum(StrEnumField {
                    required: true,
                    values: vec!["BUY".to_string(), "SELL".to_string()],
                })
            );
        }
        other => panic!("unexpected failure: {:?}", other),
    }
    let error = parser().parse_line("TRD|ACME|SELL|12|1.5|N|20240230|9|", &vec![]).unwrap_err();
    match error {
        ParseError::Field(e) => {
            assert_eq!(e.failure, DecodeFailure::NotADate);
            assert_eq!(e.text, "20240230");
        }
        other => panic!("unexpected failure: {:?}", other),
    }
}

#[test]
fn float_fields_take_the_readings_of_their_tokens() {
    let p = parser();
    let tokens = p.tokenize("FLT|7|0.25|").unwrap();
    let readings: Vec<Option<u64>> =
        tokens.iter().map(|t| t.text.parse::<f64>().ok().map(f64::to_bits)).collect();
    assert_eq!(
        p.decode_tokens(&tokens, &readings).unwrap(),
        vec![name("FLT"), Value::Int(7), Value::Float(0.25_f64.to_bits())]
    );
    assert_eq!(
        p.parse_line("FLT|7|0.25|", &vec![None, None, Some(0.25_f64.to_bits())]).unwrap(),
        vec![name("FLT"), Value::Int(7), Value::Float(0.25_f64.to_bits())]
    );
    let error = p.parse_line("FLT|7|1.5|", &vec![None, None, Some(1.5_f64.to_bits())]).unwrap_err();
    match error {
        ParseError::Field(e) => {
            assert_eq!(e.failure, DecodeFailure::FloatTooLarge);
            assert_eq!(e.text, "1.5");
            assert_eq!(e.field, float(Some(0.0), Some(1.0)));
        }
        other => panic!("unexpected failure: {:?}", other),
    }
}

#[test]
fn a_float_token_without_a_reading_is_no_float() {
    let p = parser();
    for readings in [vec![], vec![None], vec![None, Some(0), None], vec![Some(0), Some(0)]] {
        match p.parse_line("FLT|7|0.25|", &readings).unwrap_err() {
            ParseError::Field(e) => assert_eq!(e.failure, DecodeFailure::NotAFloat),
            other => panic!("unexpected failure: {:?}", other),
        }
    }
}

#[test]
fn readings_of_other_fields_are_not_looked_at() {
    let p = parser();
    let readings = vec![Some(1), Some(2), Some(0.5_f64.to_bits()), Some(4), Some(5)];
    assert_eq!(
        p.parse_line("FLT|7|x|", &readings).unwrap(),
        vec![name("FLT"), Value::Int(7), Value::Float(0.5_f64.to_bits())]
    );
}

#[test]
fn only_tokens_of_float_fields_are_to_be_read() {
    let p = parser();
    let tokens = p.tokenize("FLT|7|0.25|").unwrap();
    assert_eq!(p.float_places(&tokens), vec![false, false, true]);
    let tokens = p.tokenize("TRD|ACME|BUY|1200|12.345|Y|20240229||").unwrap();
    assert_eq!(p.float_places(&tokens), vec![false; 8]);
    let tokens = p.tokenize("FLT|7|0.25|extra|").unwrap();
    assert_eq!(p.float_places(&tokens), vec![false; 4]);
    let tokens = p.tokenize("XXX|7|0.25|").unwrap();
    assert_eq!(p.float_places(&tokens), vec![false; 3]);
    assert_eq!(p.float_places(&vec![]), Vec::<bool>::new());
}

#[test]
fn readings_are_made_for_the_places_asked_for() {
    let p = parser();
    for (line, expected) in [
        ("FLT|7|0.25|", Ok(0.25_f64)),
        ("FLT|7|1|", Ok(1.0)),
        ("FLT|7|-0|", Ok(-0.0)),
        ("FLT|7|1e-3|", Ok(0.001)),
        ("FLT|7|1.25|", Err(DecodeFailure::FloatTooLarge)),
        ("FLT|7|-1e-300|", Err(DecodeFailure::FloatTooSmall)),
        ("FLT|7|0,5|", Err(DecodeFailure::NotAFloat)),
    ] {
        let tokens = p.tokenize(line).unwrap();
        let readings: Vec<Option<u64>> = p
            .float_places(&tokens)
            .iter()
            .zip(&tokens)
            .map(|(wanted, t)| {
                if *wanted {
                    t.text.parse::<f64>().ok().map(f64::to_bits)
                } else {
                    None
                }
            })
            .collect();
        match (p.decode_tokens(&tokens, &readings), expected) {
            (Ok(record), Ok(number)) => {
                assert_eq!(record[2], Value::Float(number.to_bits()), "line {:?}", line)
            }
            (Err(ParseError::Field(e)), Err(failure)) => {
                assert_eq!(e.failure, failure, "line {:?}", line)
            }
            (outcome, _) => panic!("unexpected outcome for {:?}: {:?}", line, outcome),
        }
    }
}

#[test]
fn no_tokens_make_no_record() {
    let p = parser();
    assert_eq!(p.decode_tokens(&vec![], &vec![]).unwrap_err(), ParseError::NoTokens);
    assert_eq!(p.select_line(&vec![]).unwrap_err(), ParseError::NoTokens);
    assert_eq!(p.decode_tokens(&vec![plain("HDR")], &vec![]).unwrap(), vec![name("HDR")]);
}

#[test]
fn written_text_reads_back_as_it_was() {
    let schema = Schema {
        delimiter: ",".to_string(),
        quote_str: Some("\"".to_string()),
        trailing_delimiter: false,
        coerce_empty_quoted: false,
        lines: vec![Line {
            name: "L".to_string(),
            fields: vec![
                Field::Str(StrField {
                    required: true,
                    min_length: Some(0),
                    max_length: Some(40),
                    invalid_characters: Some(";".to_string()),
                }),
                text(true),
            ],
        }],
    };
    let p = Parser::new(schema).unwrap();
    let texts = ["hello", "", "a,b", " spaced out ", "ünï→cødé", "it's", "line\nfeed", ",,,"];
    for first in texts {
        for second in ["x", "plain text", "tab\there"] {
            let line = format!("L,\"{}\",{}", first, second);
            assert_eq!(
                p.parse_line(&line, &vec![]).unwrap(),
                vec![name("L"), name(first), name(second)],
                "line {:?}",
                line
            );
        }
    }
}

#[test]
fn an_empty_text_of_an_optional_field_does_not_read_back() {
    let schema = Schema {
        delimiter: ",".to_string(),
        quote_str: Some("\"".to_string()),
        trailing_delimiter: false,
        coerce_empty_quoted: false,
        lines: vec![Line { name: "L".to_string(), fields: vec![text(false)] }],
    };
    let p = Parser::new(schema).unwrap();
    assert_eq!(p.parse_line("L,\"\"", &vec![]).unwrap(), vec![name("L"), Value::Absent]);
    assert_eq!(p.parse_line("L,\"x\"", &vec![]).unwrap(), vec![name("L"), name("x")]);
}

#[test]
fn the_quick_name_is_the_name_of_the_record() {
    let p = parser();
    for line in ["HDR|", "'HDR'|", "TRD|'ACME|CORP'|BUY|1200|12.345|Y|20240229||"] {
        let record = p.parse_line(line, &vec![]).unwrap();
        assert_eq!(record[0], name(&p.parse_first(line)));
    }
}
