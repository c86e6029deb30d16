//! The parser: a schema made ready, and a line turned into a record.
//!
//! A line is cut into tokens; the first token names the kind of line; each
//! further token is decoded against the field in its place. The record is
//! the name followed by the values. The first token that does not fit ends
//! the work, so a record is never partial.

use crate::decode::{decode_field, decode_spec};
use crate::schema::{FieldView, LineView, Schema, SchemaView};
use crate::text::{chars_of, string_of};
use crate::token::{split_chars, split_spec, tokens_of, Token, TokenView};
use crate::value::{
    record_outcome, values_of, ConfigError, FieldErrorView, ParseError, ParseErrorView, Value,
    ValueView,
};
use vstd::prelude::*;

verus! {

/// A schema whose delimiter and quote mark have been found to be single
/// characters.
#[derive(Debug)]
pub struct Parser {
    schema: Schema,
    delimiter: char,
    quote: Option<char>,
}

/// A parser as the contracts see it: the schema and the two marks.
pub struct ParserView {
    pub schema: SchemaView,
    pub delimiter: char,
    pub quote: Option<char>,
}

impl View for Parser {
    type V = ParserView;

    closed spec fn view(&self) -> ParserView {
        ParserView { schema: self.schema@, delimiter: self.delimiter, quote: self.quote }
    }
}

/// The parser that a schema makes, or why it makes none.
pub open spec fn parser_of(schema: SchemaView) -> Result<ParserView, ConfigError> {
    if schema.delimiter.len() != 1 {
        Err(ConfigError::Delimiter)
    } else if schema.quote_str is Some && schema.quote_str->0.len() != 1 {
        Err(ConfigError::Quote)
    } else {
        Ok(
            ParserView {
                schema,
                delimiter: schema.delimiter[0],
                quote: match schema.quote_str {
                    Some(q) => Some(q[0]),
                    None => None,
                },
            },
        )
    }
}

/// The view of an attempt to make a parser.
pub open spec fn parser_outcome(r: Result<Parser, ConfigError>) -> Result<ParserView, ConfigError> {
    match r {
        Ok(p) => Ok(p@),
        Err(e) => Err(e),
    }
}

/// The view of an attempt to cut a line into tokens.
pub open spec fn tokens_outcome(r: Result<Vec<Token>, ParseError>) -> Result<
    Seq<TokenView>,
    ParseErrorView,
> {
    match r {
        Ok(tokens) => Ok(tokens_of(tokens@)),
        Err(e) => Err(e@),
    }
}

/// The view of an attempt to find the kind of a line.
pub open spec fn selection_outcome(r: Result<usize, ParseError>) -> Result<int, ParseErrorView> {
    match r {
        Ok(k) => Ok(k as int),
        Err(e) => Err(e@),
    }
}

/// `line` without the line feeds at its end.
pub open spec fn without_line_ends(line: Seq<char>) -> Seq<char>
    decreases line.len(),
{
    if line.len() > 0 && line.last() == '\n' {
        without_line_ends(line.drop_last())
    } else {
        line
    }
}

/// A line feed more at the end of a line changes nothing.
pub proof fn lemma_line_feed_is_dropped(line: Seq<char>)
    ensures
        without_line_ends(line.push('\n')) == without_line_ends(line),
{
    assert(line.push('\n').drop_last() =~= line);
}

/// What is left of a line does not end in a line feed.
pub proof fn lemma_no_line_feed_is_left(line: Seq<char>)
    ensures
        without_line_ends(line).len() == 0 || without_line_ends(line).last() != '\n',
    decreases line.len(),
{
    if line.len() > 0 && line.last() == '\n' {
        lemma_no_line_feed_is_left(line.drop_last());
    }
}

/// The part of a line that is cut into tokens: the line without the line
/// feeds at its end and, where the schema asks for a delimiter at the end,
/// without that delimiter; `None` where that delimiter is missing.
pub open spec fn body_of(p: ParserView, line: Seq<char>) -> Option<Seq<char>> {
    let stripped = without_line_ends(line);
    if !p.schema.trailing_delimiter {
        Some(stripped)
    } else if stripped.len() > 0 && stripped.last() == p.delimiter {
        Some(stripped.drop_last())
    } else {
        None
    }
}

/// The tokens of a line.
pub open spec fn tokenize_spec(p: ParserView, line: Seq<char>) -> Result<
    Seq<TokenView>,
    ParseErrorView,
> {
    match body_of(p, line) {
        Some(body) => Ok(split_spec(body, p.delimiter, p.quote)),
        None => Err(ParseErrorView::MissingTrailingDelimiter),
    }
}

/// The place of the first kind of line called `name` at or after `from`;
/// the number of kinds where there is none.
pub open spec fn line_index_from(lines: Seq<LineView>, name: Seq<char>, from: int) -> int
    decreases lines.len() - from,
{
    if from < 0 || from >= lines.len() {
        lines.len() as int
    } else if lines[from].name == name {
        from
    } else {
        line_index_from(lines, name, from + 1)
    }
}

/// The place of the first kind of line called `name`; the number of kinds
/// where there is none.
pub open spec fn line_index(lines: Seq<LineView>, name: Seq<char>) -> int {
    line_index_from(lines, name, 0)
}

/// Where no kind in `from..upto` is called `name`, the search from `from`
/// goes on at `upto`.
pub proof fn lemma_line_index_skips(lines: Seq<LineView>, name: Seq<char>, from: int, upto: int)
    requires
        0 <= from <= upto <= lines.len(),
        forall|j: int| from <= j < upto ==> (#[trigger] lines[j]).name != name,
    ensures
        line_index_from(lines, name, from) == line_index_from(lines, name, upto),
    decreases upto - from,
{
    if from < upto {
        lemma_line_index_skips(lines, name, from + 1, upto);
    }
}

/// The search for a kind of line ends at the first one called `name`, or at
/// the number of kinds where there is none.
pub proof fn lemma_line_found(lines: Seq<LineView>, name: Seq<char>, from: int)
    requires
        0 <= from <= lines.len(),
    ensures
        from <= line_index_from(lines, name, from) <= lines.len(),
        line_index_from(lines, name, from) < lines.len() ==> lines[line_index_from(
            lines,
            name,
            from,
        )].name == name,
        forall|j: int|
            from <= j < line_index_from(lines, name, from) ==> (#[trigger] lines[j]).name != name,
    decreases lines.len() - from,
{
    if from < lines.len() && lines[from].name != name {
        lemma_line_found(lines, name, from + 1);
    }
}

/// The kind of line that the tokens are held against: the first whose name
/// is the first token, provided it has one field for each further token.
pub open spec fn select_spec(p: ParserView, tokens: Seq<TokenView>) -> Result<int, ParseErrorView> {
    if tokens.len() == 0 {
        Err(ParseErrorView::NoTokens)
    } else {
        let k = line_index(p.schema.lines, tokens[0].text);
        if k >= p.schema.lines.len() {
            Err(ParseErrorView::UnknownLineKind(tokens[0].text))
        } else if p.schema.lines[k].fields.len() != tokens.len() - 1 {
            Err(
                ParseErrorView::FieldCountMismatch {
                    expected: p.schema.lines[k].fields.len() as usize,
                    found: (tokens.len() - 1) as usize,
                },
            )
        } else {
            Ok(k)
        }
    }
}

/// What the caller read from the token at `i` as a floating-point number;
/// `None` where the list does not reach that far.
pub open spec fn reading_at(readings: Seq<Option<u64>>, i: int) -> Option<u64> {
    if 0 <= i < readings.len() {
        readings[i]
    } else {
        None
    }
}

/// What the token after the name at place `i + 1` decodes to against the
/// field at place `i`.
pub open spec fn decoded_at(
    p: ParserView,
    fields: Seq<FieldView>,
    tokens: Seq<TokenView>,
    readings: Seq<Option<u64>>,
    i: int,
) -> Result<ValueView, FieldErrorView> {
    decode_spec(
        p.schema.coerce_empty_quoted,
        p.quote,
        fields[i],
        tokens[i + 1],
        reading_at(readings, i + 1),
    )
}

/// The place of the first field at or after `from` whose token does not
/// fit; the number of fields where every such token fits.
pub open spec fn failure_from(
    p: ParserView,
    fields: Seq<FieldView>,
    tokens: Seq<TokenView>,
    readings: Seq<Option<u64>>,
    from: int,
) -> int
    decreases fields.len() - from,
{
    if from < 0 || from >= fields.len() {
        fields.len() as int
    } else if decoded_at(p, fields, tokens, readings, from) is Err {
        from
    } else {
        failure_from(p, fields, tokens, readings, from + 1)
    }
}

/// The place of the first field whose token does not fit; the number of
/// fields where every token fits.
pub open spec fn first_failure(
    p: ParserView,
    fields: Seq<FieldView>,
    tokens: Seq<TokenView>,
    readings: Seq<Option<u64>>,
) -> int {
    failure_from(p, fields, tokens, readings, 0)
}

/// Where every token in `from..upto` fits, the search from `from` goes on
/// at `upto`.
pub proof fn lemma_failure_skips(
    p: ParserView,
    fields: Seq<FieldView>,
    tokens: Seq<TokenView>,
    readings: Seq<Option<u64>>,
    from: int,
    upto: int,
)
    requires
        0 <= from <= upto <= fields.len(),
        forall|j: int|
            from <= j < upto ==> #[trigger] decoded_at(p, fields, tokens, readings, j) is Ok,
    ensures
        failure_from(p, fields, tokens, readings, from) == failure_from(
            p,
            fields,
            tokens,
            readings,
            upto,
        ),
    decreases upto - from,
{
    if from < upto {
        lemma_failure_skips(p, fields, tokens, readings, from + 1, upto);
    }
}

/// The search for a failure ends at the first one, or at the number of
/// fields where every token fits.
pub proof fn lemma_failure_found(
    p: ParserView,
    fields: Seq<FieldView>,
    tokens: Seq<TokenView>,
    readings: Seq<Option<u64>>,
    from: int,
)
    requires
        0 <= from <= fields.len(),
    ensures
        from <= failure_from(p, fields, tokens, readings, from) <= fields.len(),
        failure_from(p, fields, tokens, readings, from) < fields.len() ==> decoded_at(
            p,
            fields,
            tokens,
            readings,
            failure_from(p, fields, tokens, readings, from),
        ) is Err,
        forall|j: int|
            from <= j < failure_from(p, fields, tokens, readings, from) ==> #[trigger] decoded_at(
                p,
                fields,
                tokens,
                readings,
                j,
            ) is Ok,
    decreases fields.len() - from,
{
    if from < fields.len() && decoded_at(p, fields, tokens, readings, from) is Ok {
        lemma_failure_found(p, fields, tokens, readings, from + 1);
    }
}

/// The record of the tokens under the given fields: the name, then the
/// value of each field; or the failure of the first token that does not
/// fit.
pub open spec fn fields_spec(
    p: ParserView,
    fields: Seq<FieldView>,
    tokens: Seq<TokenView>,
    readings: Seq<Option<u64>>,
) -> Result<Seq<ValueView>, ParseErrorView> {
    let k = first_failure(p, fields, tokens, readings);
    if k < fields.len() {
        Err(ParseErrorView::Field(decoded_at(p, fields, tokens, readings, k)->Err_0))
    } else {
        Ok(
            Seq::new(
                fields.len() + 1,
                |i: int|
                    if i == 0 {
                        ValueView::Str(tokens[0].text)
                    } else {
                        decoded_at(p, fields, tokens, readings, i - 1)->Ok_0
                    },
            ),
        )
    }
}

/// The record of the tokens of a line.
pub open spec fn record_spec(
    p: ParserView,
    tokens: Seq<TokenView>,
    readings: Seq<Option<u64>>,
) -> Result<Seq<ValueView>, ParseErrorView> {
    match select_spec(p, tokens) {
        Err(e) => Err(e),
        Ok(k) => fields_spec(p, p.schema.lines[k].fields, tokens, readings),
    }
}

/// The token at place `i` stands in the place of a floating-point field, so
/// that decoding it looks at what the caller read from it.
pub open spec fn wants_reading(p: ParserView, tokens: Seq<TokenView>, i: int) -> bool {
    &&& select_spec(p, tokens) is Ok
    &&& 1 <= i < tokens.len()
    &&& p.schema.lines[select_spec(p, tokens)->Ok_0].fields[i - 1] is Float
}

/// The record of a line.
pub open spec fn parse_line_spec(
    p: ParserView,
    line: Seq<char>,
    readings: Seq<Option<u64>>,
) -> Result<Seq<ValueView>, ParseErrorView> {
    match tokenize_spec(p, line) {
        Err(e) => Err(e),
        Ok(tokens) => record_spec(p, tokens, readings),
    }
}

/// The place of the first `c` in `s` at or after `from`; the length of `s`
/// where there is none.
pub open spec fn char_index_from(s: Seq<char>, c: char, from: int) -> int
    decreases s.len() - from,
{
    if from < 0 || from >= s.len() {
        s.len() as int
    } else if s[from] == c {
        from
    } else {
        char_index_from(s, c, from + 1)
    }
}

/// The place of the first `c` in `s`; the length of `s` where there is
/// none.
pub open spec fn index_of_char(s: Seq<char>, c: char) -> int {
    char_index_from(s, c, 0)
}

/// Where no `c` stands in `from..upto`, the search from `from` goes on at
/// `upto`.
pub proof fn lemma_char_index_skips(s: Seq<char>, c: char, from: int, upto: int)
    requires
        0 <= from <= upto <= s.len(),
        forall|j: int| from <= j < upto ==> s[j] != c,
    ensures
        char_index_from(s, c, from) == char_index_from(s, c, upto),
    decreases upto - from,
{
    if from < upto {
        lemma_char_index_skips(s, c, from + 1, upto);
    }
}

/// The name that a line starts with, read without cutting the rest: what
/// stands between an opening quote mark and the next one, or, where the
/// line opens with no quote mark, what stands before the first delimiter.
pub open spec fn first_spec(p: ParserView, line: Seq<char>) -> Seq<char> {
    if p.quote is Some && line.len() > 0 && line[0] == p.quote->0 {
        line.skip(1).take(index_of_char(line.skip(1), p.quote->0))
    } else {
        line.take(index_of_char(line, p.delimiter))
    }
}

fn only_char(s: &String) -> (r: Option<char>)
    ensures
        r is Some <==> s@.len() == 1,
        r matches Some(c) ==> c == s@[0],
{
    let chars = chars_of(s.as_str());
    if chars.len() == 1 {
        Some(chars[0])
    } else {
        None
    }
}

fn find_char(chars: &Vec<char>, from: usize, c: char) -> (r: usize)
    requires
        from <= chars.len(),
    ensures
        r == from + index_of_char(chars@.skip(from as int), c),
        from <= r <= chars.len(),
{
    let ghost rest = chars@.skip(from as int);
    let mut i: usize = from;
    while i < chars.len()
        invariant
            from <= i <= chars.len(),
            rest == chars@.skip(from as int),
            forall|j: int| 0 <= j < i - from ==> rest[j] != c,
        decreases chars.len() - i,
    {
        if chars[i] == c {
            proof {
                lemma_char_index_skips(rest, c, 0, i - from);
                assert(rest[i - from] == c);
            }
            return i;
        }
        i += 1;
    }
    proof {
        lemma_char_index_skips(rest, c, 0, rest.len() as int);
    }
    i
}

impl Parser {
    #[verifier::type_invariant]
    spec fn marks_agree(self) -> bool {
        parser_of(self.schema@) == Ok::<ParserView, ConfigError>(self@)
    }

    /// Makes a parser of a schema.
    ///
    /// The delimiter must be exactly one character, and so must the quote
    /// mark where the schema has one; the delimiter is looked at first.
    pub fn new(schema: Schema) -> (r: Result<Parser, ConfigError>)
        ensures
            parser_outcome(r) == parser_of(schema@),
    {
        let delimiter = match only_char(&schema.delimiter) {
            Some(c) => c,
            None => {
                return Err(ConfigError::Delimiter);
            },
        };
        let quote = match &schema.quote_str {
            Some(q) => match only_char(q) {
                Some(c) => Some(c),
                None => {
                    return Err(ConfigError::Quote);
                },
            },
            None => None,
        };
        Ok(Parser { schema, delimiter, quote })
    }

    /// The schema that the parser was made of. Its delimiter and its quote
    /// mark are the single characters that the parser cuts lines with.
    pub fn schema(&self) -> (r: &Schema)
        ensures
            r@ == self@.schema,
            parser_of(r@) == Ok::<ParserView, ConfigError>(self@),
    {
        proof {
            use_type_invariant(self);
        }
        &self.schema
    }

    /// The delimiter.
    pub fn delimiter(&self) -> (r: char)
        ensures
            r == self@.delimiter,
    {
        self.delimiter
    }

    /// The quote mark, where there is one.
    pub fn quote(&self) -> (r: Option<char>)
        ensures
            r == self@.quote,
    {
        self.quote
    }

    /// Cuts a line into tokens.
    ///
    /// Line feeds at the end of the line are dropped. Where the schema asks
    /// for a delimiter at the end of the line, it must be there and is
    /// dropped too: it closes the last token and opens no further one.
    pub fn tokenize(&self, line: &str) -> (r: Result<Vec<Token>, ParseError>)
        ensures
            tokens_outcome(r) == tokenize_spec(self@, line@),
    {
        let chars = chars_of(line);
        let mut end: usize = chars.len();
        assert(chars@.take(end as int) =~= chars@);
        while end > 0 && chars[end - 1] == '\n'
            invariant
                end <= chars.len(),
                without_line_ends(chars@) == without_line_ends(chars@.take(end as int)),
            decreases end,
        {
            assert(chars@.take(end as int).drop_last() =~= chars@.take(end - 1));
            end -= 1;
        }
        assert(without_line_ends(chars@) == chars@.take(end as int));
        if self.schema.trailing_delimiter {
            if end > 0 && chars[end - 1] == self.delimiter {
                assert(chars@.take(end as int).drop_last() =~= chars@.take(end - 1));
                end -= 1;
            } else {
                return Err(ParseError::MissingTrailingDelimiter);
            }
        }
        assert(chars@.subrange(0, end as int) =~= chars@.take(end as int));
        Ok(split_chars(&chars, 0, end, self.delimiter, self.quote))
    }

    /// Finds the kind of line that the tokens are held against.
    ///
    /// It is the first kind whose name is the text of the first token, and
    /// it must have one field for each further token.
    pub fn select_line(&self, tokens: &Vec<Token>) -> (r: Result<usize, ParseError>)
        ensures
            selection_outcome(r) == select_spec(self@, tokens_of(tokens@)),
    {
        if tokens.len() == 0 {
            return Err(ParseError::NoTokens);
        }
        let name = &tokens[0].text;
        let ghost lines = self@.schema.lines;
        let mut k: usize = 0;
        while k < self.schema.lines.len()
            invariant
                k <= self.schema.lines.len(),
                tokens.len() > 0,
                name == tokens[0].text,
                lines == self@.schema.lines,
                lines.len() == self.schema.lines.len(),
                forall|j: int| 0 <= j < k ==> (#[trigger] lines[j]).name != name@,
            decreases self.schema.lines.len() - k,
        {
            if self.schema.lines[k].name == *name {
                proof {
                    lemma_line_index_skips(lines, name@, 0, k as int);
                    assert(lines[k as int].name == name@);
                    assert(lines[k as int].fields.len() == self.schema.lines[k as int].fields.len());
                }
                let expected = self.schema.lines[k].fields.len();
                let found = tokens.len() - 1;
                if expected != found {
                    return Err(ParseError::FieldCountMismatch { expected, found });
                }
                return Ok(k);
            }
            k += 1;
        }
        proof {
            lemma_line_index_skips(lines, name@, 0, lines.len() as int);
        }
        Err(ParseError::UnknownLineKind(name.clone()))
    }

    /// Says of each token whether the caller has to read it as a binary
    /// floating-point number: whether it stands in the place of a
    /// floating-point field of the kind of line that the tokens are held
    /// against. Where the tokens fit no kind of line, none has to be read.
    pub fn float_places(&self, tokens: &Vec<Token>) -> (r: Vec<bool>)
        ensures
            r.len() == tokens.len(),
            forall|i: int|
                0 <= i < r.len() ==> r[i] == #[trigger] wants_reading(
                    self@,
                    tokens_of(tokens@),
                    i,
                ),
    {
        let found = self.select_line(tokens);
        let mut r: Vec<bool> = Vec::new();
        let mut i: usize = 0;
        while i < tokens.len()
            invariant
                i <= tokens.len(),
                r.len() == i,
                selection_outcome(found) == select_spec(self@, tokens_of(tokens@)),
                forall|j: int|
                    0 <= j < i ==> r[j] == #[trigger] wants_reading(self@, tokens_of(tokens@), j),
            decreases tokens.len() - i,
        {
            let wanted = match &found {
                Ok(k) => {
                    proof {
                        lemma_line_found(self@.schema.lines, tokens_of(tokens@)[0].text, 0);
                    }
                    i >= 1 && self.schema.lines[*k].fields[i - 1].is_float()
                },
                Err(_) => false,
            };
            r.push(wanted);
            i += 1;
        }
        r
    }

    /// Decodes the tokens of a line into a record.
    ///
    /// `readings` pairs with `tokens` place by place: an entry is what the
    /// caller read from that token's text as a binary floating-point number
    /// of 64 bits, its bit pattern, or `None` where the text is no such
    /// number. Only the tokens of floating-point fields need an entry; a
    /// token past the end of `readings` counts as one that is no number.
    pub fn decode_tokens(&self, tokens: &Vec<Token>, readings: &Vec<Option<u64>>) -> (r: Result<
        Vec<Value>,
        ParseError,
    >)
        ensures
            record_outcome(r) == record_spec(self@, tokens_of(tokens@), readings@),
    {
        let k = match self.select_line(tokens) {
            Ok(k) => k,
            Err(e) => {
                return Err(e);
            },
        };
        let line = &self.schema.lines[k];
        let ghost p = self@;
        let ghost fields = p.schema.lines[k as int].fields;
        let ghost toks = tokens_of(tokens@);
        let mut values: Vec<Value> = Vec::new();
        values.push(Value::Str(tokens[0].text.clone()));
        let mut i: usize = 0;
        while i < line.fields.len()
            invariant
                i <= line.fields.len(),
                line.fields.len() == tokens.len() - 1,
                p == self@,
                select_spec(p, toks) == Ok::<int, ParseErrorView>(k as int),
                fields == p.schema.lines[k as int].fields,
                fields == line@.fields,
                fields.len() == line.fields.len(),
                toks == tokens_of(tokens@),
                values.len() == i + 1,
                values[0]@ == ValueView::Str(toks[0].text),
                forall|j: int|
                    0 <= j < i ==> #[trigger] decoded_at(p, fields, toks, readings@, j) == Ok::<
                        ValueView,
                        FieldErrorView,
                    >(values[j + 1]@),
            decreases line.fields.len() - i,
        {
            let reading = if i + 1 < readings.len() {
                readings[i + 1]
            } else {
                None
            };
            match decode_field(
                self.schema.coerce_empty_quoted,
                self.quote,
                &line.fields[i],
                &tokens[i + 1],
                reading,
            ) {
                Ok(v) => {
                    values.push(v);
                },
                Err(e) => {
                    proof {
                        assert(decoded_at(p, fields, toks, readings@, i as int) is Err);
                        lemma_failure_skips(p, fields, toks, readings@, 0, i as int);
                    }
                    return Err(ParseError::Field(e));
                },
            }
            i += 1;
        }
        proof {
            lemma_failure_skips(p, fields, toks, readings@, 0, fields.len() as int);
            assert(values_of(values@) =~= fields_spec(p, fields, toks, readings@)->Ok_0);
        }
        Ok(values)
    }

    /// Turns a line into a record: the name of its kind, then the value of
    /// each field in the order of the schema.
    ///
    /// `readings` pairs with the tokens of the line as in
    /// [`Parser::decode_tokens`]; a schema without floating-point fields
    /// needs none.
    pub fn parse_line(&self, line: &str, readings: &Vec<Option<u64>>) -> (r: Result<
        Vec<Value>,
        ParseError,
    >)
        ensures
            record_outcome(r) == parse_line_spec(self@, line@, readings@),
    {
        match self.tokenize(line) {
            Ok(tokens) => self.decode_tokens(&tokens, readings),
            Err(e) => Err(e),
        }
    }

    /// Reads the name that a line starts with, without cutting the rest of
    /// the line into tokens.
    ///
    /// Where the line opens with a quote mark, the name is what stands
    /// between that mark and the next one; else it is what stands before
    /// the first delimiter.
    pub fn parse_first(&self, line: &str) -> (r: String)
        ensures
            r@ == first_spec(self@, line@),
    {
        let chars = chars_of(line);
        if let Some(q) = self.quote {
            if chars.len() > 0 && chars[0] == q {
                let end = find_char(&chars, 1, q);
                assert(chars@.subrange(1, end as int) =~= chars@.skip(1).take(end - 1));
                return string_of(&chars, 1, end);
            }
        }
        assert(chars@.skip(0) =~= chars@);
        let end = find_char(&chars, 0, self.delimiter);
        assert(chars@.subrange(0, end as int) =~= chars@.take(end as int));
        string_of(&chars, 0, end)
    }
}

} // verus!
