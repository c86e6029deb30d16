//! What holds of decoding as a whole.

use crate::binary64;
use crate::calendar::{datetime_of_text, CivilDateTime, LocalOffset};
use crate::decimal::{decimal_of_text, less_than, rounded, same_number, DecimalView};
use crate::decode::{
    byte_length, datetime_outcome, datetime_outcome_of, decimal_outcome, decimal_outcome_of,
    decode_spec, float_outcome, has_any_of, int_outcome, is_absent, normalized, offset_of_reading,
};
use crate::number::integer_in_range;
use crate::parser::{
    decoded_at, failure_from, fields_spec, first_spec, lemma_char_index_skips,
    lemma_failure_found, lemma_failure_skips, lemma_line_feed_is_dropped, lemma_line_found,
    line_index, parse_line_spec, reading_at, record_spec, select_spec, wants_reading, ParserView,
};
use crate::schema::{
    DatetimeFieldView, DecimalFieldView, FieldView, FloatField, IntField, StrFieldView,
};
use crate::token::{
    can_encode, encode_line, encode_token, lemma_encoded_has_no_separator, lemma_split_encoded,
    lemma_split_single, lemma_token_of_encoded, split_spec, TokenView,
};
use crate::value::{DecodeFailure, FieldErrorView, ValueView};
use vstd::arithmetic::power::{lemma_pow_positive, pow};
use vstd::prelude::*;

verus! {

/// A line as it is written for a parser: its tokens with a delimiter
/// between one and the next, and one more delimiter at the end where the
/// schema asks for it.
pub open spec fn written_line(p: ParserView, tokens: Seq<TokenView>) -> Seq<char> {
    if p.schema.trailing_delimiter {
        encode_line(tokens, p.delimiter, p.quote).push(p.delimiter)
    } else {
        encode_line(tokens, p.delimiter, p.quote)
    }
}

/// The line is not empty and its last character is a line feed.
pub open spec fn ends_in_line_feed(line: Seq<char>) -> bool {
    line.len() > 0 && line.last() == '\n'
}

/// A record is never partial: it holds the name that the first token gives
/// and, for every field of the kind of line with that name, the value that
/// the token in its place decodes to. So it is one longer than the kind has
/// fields.
pub proof fn lemma_record_is_whole(
    p: ParserView,
    tokens: Seq<TokenView>,
    readings: Seq<Option<u64>>,
)
    requires
        record_spec(p, tokens, readings) is Ok,
    ensures
        select_spec(p, tokens) is Ok,
        tokens.len() > 0,
        p.schema.lines[select_spec(p, tokens)->Ok_0].name == tokens[0].text,
        record_spec(p, tokens, readings)->Ok_0.len() == tokens.len(),
        record_spec(p, tokens, readings)->Ok_0.len() == p.schema.lines[select_spec(
            p,
            tokens,
        )->Ok_0].fields.len() + 1,
        record_spec(p, tokens, readings)->Ok_0[0] == ValueView::Str(tokens[0].text),
        forall|i: int|
            0 <= i < tokens.len() - 1 ==> #[trigger] decoded_at(
                p,
                p.schema.lines[select_spec(p, tokens)->Ok_0].fields,
                tokens,
                readings,
                i,
            ) == Ok::<ValueView, FieldErrorView>(record_spec(p, tokens, readings)->Ok_0[i + 1]),
{
    let k = select_spec(p, tokens)->Ok_0;
    let fields = p.schema.lines[k].fields;
    lemma_failure_found(p, fields, tokens, readings, 0);
    lemma_line_found(p.schema.lines, tokens[0].text, 0);
}

/// Two lists of readings under which every token decodes alike find the
/// same first failure.
proof fn lemma_same_failure(
    p: ParserView,
    fields: Seq<FieldView>,
    tokens: Seq<TokenView>,
    first: Seq<Option<u64>>,
    second: Seq<Option<u64>>,
    from: int,
)
    requires
        0 <= from,
        forall|i: int|
            0 <= i < fields.len() ==> #[trigger] decoded_at(p, fields, tokens, first, i)
                == decoded_at(p, fields, tokens, second, i),
    ensures
        failure_from(p, fields, tokens, first, from) == failure_from(
            p,
            fields,
            tokens,
            second,
            from,
        ),
    decreases fields.len() - from,
{
    if from < fields.len() {
        assert(decoded_at(p, fields, tokens, first, from) == decoded_at(
            p,
            fields,
            tokens,
            second,
            from,
        ));
        lemma_same_failure(p, fields, tokens, first, second, from + 1);
    }
}

/// Only the readings of the tokens of floating-point fields matter: two
/// lists of readings that agree on those tokens give the same record, or
/// the same failure.
pub proof fn lemma_only_float_readings_matter(
    p: ParserView,
    tokens: Seq<TokenView>,
    first: Seq<Option<u64>>,
    second: Seq<Option<u64>>,
)
    requires
        forall|i: int| #[trigger]
            wants_reading(p, tokens, i) ==> reading_at(first, i) == reading_at(second, i),
    ensures
        record_spec(p, tokens, first) == record_spec(p, tokens, second),
{
    if select_spec(p, tokens) is Ok {
        let k = select_spec(p, tokens)->Ok_0;
        let fields = p.schema.lines[k].fields;
        lemma_line_found(p.schema.lines, tokens[0].text, 0);
        assert forall|i: int| 0 <= i < fields.len() implies #[trigger] decoded_at(
            p,
            fields,
            tokens,
            first,
            i,
        ) == decoded_at(p, fields, tokens, second, i) by {
            if fields[i] is Float {
                assert(wants_reading(p, tokens, i + 1));
            }
        }
        lemma_same_failure(p, fields, tokens, first, second, 0);
        lemma_failure_found(p, fields, tokens, first, 0);
        if fields_spec(p, fields, tokens, first) is Ok {
            assert(fields_spec(p, fields, tokens, first)->Ok_0 =~= fields_spec(
                p,
                fields,
                tokens,
                second,
            )->Ok_0);
        }
    }
}

/// The absence marker stands for an empty token only, and only where the
/// field need not hold a value or the schema takes an empty text between
/// quote marks for absent.
pub proof fn lemma_absent_only_where_allowed(
    coerce_empty_quoted: bool,
    quote: Option<char>,
    field: FieldView,
    token: TokenView,
    reading: Option<u64>,
)
    ensures
        decode_spec(coerce_empty_quoted, quote, field, token, reading) == Ok::<
            ValueView,
            FieldErrorView,
        >(ValueView::Absent) <==> is_absent(coerce_empty_quoted, field, token),
        is_absent(coerce_empty_quoted, field, token) ==> token.text.len() == 0 && (
        !field.required() || (coerce_empty_quoted && field is Str && token.is_quoted)),
{
}

/// A line that is written from the name of a kind of line and one fitting
/// token for each of its fields decodes to a record: the name first, then
/// the value of each token in turn.
///
/// The line must not end in a line feed, and the quote mark must differ
/// from the delimiter.
pub proof fn lemma_written_line_parses(
    p: ParserView,
    k: int,
    tokens: Seq<TokenView>,
    readings: Seq<Option<u64>>,
)
    requires
        p.quote != Some(p.delimiter),
        0 <= k < p.schema.lines.len(),
        line_index(p.schema.lines, p.schema.lines[k].name) == k,
        tokens.len() == p.schema.lines[k].fields.len() + 1,
        tokens[0].text == p.schema.lines[k].name,
        forall|i: int|
            0 <= i < tokens.len() ==> can_encode(#[trigger] tokens[i], p.delimiter, p.quote),
        forall|i: int|
            0 <= i < p.schema.lines[k].fields.len() ==> #[trigger] decoded_at(
                p,
                p.schema.lines[k].fields,
                tokens,
                readings,
                i,
            ) is Ok,
        !ends_in_line_feed(written_line(p, tokens)),
    ensures
        parse_line_spec(p, written_line(p, tokens), readings) is Ok,
        parse_line_spec(p, written_line(p, tokens), readings)->Ok_0.len()
            == p.schema.lines[k].fields.len() + 1,
        parse_line_spec(p, written_line(p, tokens), readings)->Ok_0[0] == ValueView::Str(
            p.schema.lines[k].name,
        ),
        forall|i: int|
            0 <= i < p.schema.lines[k].fields.len() ==> Ok::<ValueView, FieldErrorView>(
                #[trigger] parse_line_spec(p, written_line(p, tokens), readings)->Ok_0[i + 1],
            ) == decoded_at(p, p.schema.lines[k].fields, tokens, readings, i),
{
    let fields = p.schema.lines[k].fields;
    let body = encode_line(tokens, p.delimiter, p.quote);
    if p.schema.trailing_delimiter {
        assert(body.push(p.delimiter).drop_last() =~= body);
    }
    lemma_split_encoded(tokens, p.delimiter, p.quote);
    lemma_failure_skips(p, fields, tokens, readings, 0, fields.len() as int);
}

/// A line decodes as it does without a line feed at its end.
pub proof fn lemma_final_line_feed_is_ignored(
    p: ParserView,
    line: Seq<char>,
    readings: Seq<Option<u64>>,
)
    ensures
        parse_line_spec(p, line.push('\n'), readings) == parse_line_spec(p, line, readings),
{
    lemma_line_feed_is_dropped(line);
}

/// The name read from the start of a written line alone is the text of its
/// first token.
pub proof fn lemma_first_of_written_line(p: ParserView, tokens: Seq<TokenView>)
    requires
        p.quote != Some(p.delimiter),
        tokens.len() > 0,
        forall|i: int|
            0 <= i < tokens.len() ==> can_encode(#[trigger] tokens[i], p.delimiter, p.quote),
    ensures
        first_spec(p, written_line(p, tokens)) == tokens[0].text,
{
    let line = written_line(p, tokens);
    let text = tokens[0].text;
    let first = encode_token(tokens[0], p.quote);
    let rest = if tokens.len() == 1 {
        Seq::<char>::empty()
    } else {
        seq![p.delimiter] + encode_line(tokens.skip(1), p.delimiter, p.quote)
    };
    let tail = if p.schema.trailing_delimiter {
        rest.push(p.delimiter)
    } else {
        rest
    };
    assert(line =~= first + tail);
    assert(tail.len() > 0 ==> tail[0] == p.delimiter);
    assert(can_encode(tokens[0], p.delimiter, p.quote));
    if tokens[0].is_quoted {
        let q = p.quote->0;
        let after = line.skip(1);
        assert(after =~= text + seq![q] + tail);
        assert forall|j: int| 0 <= j < text.len() implies after[j] != q by {
            assert(after[j] == text[j]);
        }
        lemma_char_index_skips(after, q, 0, text.len() as int);
        assert(after[text.len() as int] == q);
        assert(after.take(text.len() as int) =~= text);
    } else {
        assert forall|j: int| 0 <= j < text.len() implies line[j] != p.delimiter by {
            assert(line[j] == text[j]);
            assert(text.contains(text[j]));
        }
        lemma_char_index_skips(line, p.delimiter, 0, text.len() as int);
        assert(line.take(text.len() as int) =~= text);
        if text.len() > 0 {
            assert(line[0] == text[0]);
        }
    }
}

/// A text that a text field allows, written as a token and read back, is
/// that text again.
///
/// The text is written bare or between quote marks. It must hold no quote
/// mark and, written bare, no delimiter. The empty text is left out where
/// it counts as absent.
pub proof fn lemma_text_round_trip(
    coerce_empty_quoted: bool,
    delimiter: char,
    quote: Option<char>,
    field: StrFieldView,
    text: Seq<char>,
    quoted: bool,
    reading: Option<u64>,
)
    requires
        field.min_length is Some ==> byte_length(text) >= field.min_length->0,
        field.max_length is Some ==> byte_length(text) <= field.max_length->0,
        field.invalid_characters is Some ==> !has_any_of(text, field.invalid_characters->0),
        can_encode(TokenView { text, is_quoted: quoted }, delimiter, quote),
        !is_absent(
            coerce_empty_quoted,
            FieldView::Str(field),
            TokenView { text, is_quoted: quoted },
        ),
    ensures
        split_spec(encode_token(TokenView { text, is_quoted: quoted }, quote), delimiter, quote)
            == seq![TokenView { text, is_quoted: quoted }],
        decode_spec(
            coerce_empty_quoted,
            quote,
            FieldView::Str(field),
            TokenView { text, is_quoted: quoted },
            reading,
        ) == Ok::<ValueView, FieldErrorView>(ValueView::Str(text)),
{
    let token = TokenView { text, is_quoted: quoted };
    let tokens = seq![token];
    if quote == Some(delimiter) {
        lemma_token_of_encoded(token, delimiter, quote);
        lemma_encoded_has_no_separator(token, Seq::empty(), delimiter, quote);
        assert(encode_token(token, quote) + Seq::<char>::empty() =~= encode_token(token, quote));
        lemma_split_single(encode_token(token, quote), delimiter, quote);
    } else {
        lemma_split_encoded(tokens, delimiter, quote);
    }
}

/// Decoding a token is a function of the token and its field: two outcomes
/// that both are what decoding yields are the same outcome. So a decimal
/// token decoded twice under the same number of fractional digits gives
/// the same rounded number both times.
pub proof fn lemma_decoding_repeats(
    coerce_empty_quoted: bool,
    quote: Option<char>,
    field: FieldView,
    token: TokenView,
    reading: Option<u64>,
    first: Result<ValueView, FieldErrorView>,
    second: Result<ValueView, FieldErrorView>,
)
    requires
        first == decode_spec(coerce_empty_quoted, quote, field, token, reading),
        second == decode_spec(coerce_empty_quoted, quote, field, token, reading),
    ensures
        first == second,
{
}

/// Rounding a rounded number again to the same number of fractional digits
/// changes nothing.
pub proof fn lemma_rounding_settles(d: DecimalView, places: nat)
    ensures
        rounded(rounded(d, places), places) == rounded(d, places),
{
}

/// A whole-number field takes exactly the numbers from its lower bound to
/// its upper bound, both included: one below the lower bound is too small,
/// one above the upper bound is too large.
pub proof fn lemma_int_bounds_are_inclusive(field: IntField, text: Seq<char>, v: int)
    requires
        integer_in_range(text, i128::MIN as int, i128::MAX as int) == Some(v),
    ensures
        int_outcome(field, text) is Ok <==> (field.min_value is Some ==> field.min_value->0 <= v)
            && (field.max_value is Some ==> v <= field.max_value->0),
        int_outcome(field, text) is Ok ==> int_outcome(field, text) == Ok::<
            ValueView,
            DecodeFailure,
        >(ValueView::Int(v)),
        field.min_value is Some && v < field.min_value->0 ==> int_outcome(field, text) == Err::<
            ValueView,
            DecodeFailure,
        >(DecodeFailure::IntTooSmall),
        field.max_value is Some && v > field.max_value->0 && !(field.min_value is Some && v
            < field.min_value->0) ==> int_outcome(field, text) == Err::<ValueView, DecodeFailure>(
            DecodeFailure::IntTooLarge,
        ),
{
}

/// An exact base-ten field takes exactly the numbers that are not less
/// than its lower bound and not greater than its upper bound. A number
/// equal to a bound is within it, whatever its scale.
pub proof fn lemma_decimal_bounds_are_inclusive(field: DecimalFieldView, d: DecimalView)
    ensures
        decimal_outcome_of(field, Some(d)) is Ok <==> (field.min_value is Some ==> !less_than(
            d,
            field.min_value->0,
        )) && (field.max_value is Some ==> !less_than(field.max_value->0, d)),
        decimal_outcome_of(field, Some(d)) is Ok ==> decimal_outcome_of(field, Some(d)) == Ok::<
            ValueView,
            DecodeFailure,
        >(ValueView::Decimal(normalized(field, d))),
        field.min_value is Some && same_number(d, field.min_value->0) ==> decimal_outcome_of(
            field,
            Some(d),
        ) != Err::<ValueView, DecodeFailure>(DecodeFailure::DecimalTooSmall),
        field.max_value is Some && same_number(d, field.max_value->0) ==> decimal_outcome_of(
            field,
            Some(d),
        ) != Err::<ValueView, DecodeFailure>(DecodeFailure::DecimalTooLarge),
        field.min_value is Some && less_than(d, field.min_value->0) ==> decimal_outcome_of(
            field,
            Some(d),
        ) == Err::<ValueView, DecodeFailure>(DecodeFailure::DecimalTooSmall),
        field.max_value is Some && less_than(field.max_value->0, d) && !(field.min_value is Some
            && less_than(d, field.min_value->0)) ==> decimal_outcome_of(field, Some(d)) == Err::<
            ValueView,
            DecodeFailure,
        >(DecodeFailure::DecimalTooLarge),
        forall|text: Seq<char>|
            decimal_of_text(text) == Some(d) ==> #[trigger] decimal_outcome(field, text)
                == decimal_outcome_of(field, Some(d)),
{
}

/// With a bound of the same scale, a mantissa one below that of the lower
/// bound is too small and a mantissa one above that of the upper bound is
/// too large.
pub proof fn lemma_decimal_one_unit_beyond(field: DecimalFieldView, d: DecimalView)
    ensures
        field.min_value is Some && d.scale == field.min_value->0.scale && d.mantissa
            == field.min_value->0.mantissa - 1 ==> decimal_outcome_of(field, Some(d)) == Err::<
            ValueView,
            DecodeFailure,
        >(DecodeFailure::DecimalTooSmall),
        field.max_value is Some && d.scale == field.max_value->0.scale && d.mantissa
            == field.max_value->0.mantissa + 1 && !(field.min_value is Some && less_than(
            d,
            field.min_value->0,
        )) ==> decimal_outcome_of(field, Some(d)) == Err::<ValueView, DecodeFailure>(
            DecodeFailure::DecimalTooLarge,
        ),
{
    lemma_pow_positive(10, d.scale);
    let unit = pow(10, d.scale);
    assert((d.mantissa - 1) * unit < d.mantissa * unit) by (nonlinear_arith)
        requires
            unit > 0,
    ;
    assert(d.mantissa * unit < (d.mantissa + 1) * unit) by (nonlinear_arith)
        requires
            unit > 0,
    ;
}

/// A floating-point field takes exactly the numbers that are not less than
/// its lower bound and not greater than its upper bound; a number with the
/// bit pattern of a bound is within that bound.
pub proof fn lemma_float_bounds_are_inclusive(field: FloatField, bits: u64)
    ensures
        float_outcome(field, Some(bits)) is Ok <==> (field.min_value is Some
            ==> !binary64::less_than(bits, field.min_value->0)) && (field.max_value is Some
            ==> !binary64::less_than(field.max_value->0, bits)),
        float_outcome(field, Some(bits)) is Ok ==> float_outcome(field, Some(bits)) == Ok::<
            ValueView,
            DecodeFailure,
        >(ValueView::Float(bits)),
        field.min_value == Some(bits) ==> float_outcome(field, Some(bits)) != Err::<
            ValueView,
            DecodeFailure,
        >(DecodeFailure::FloatTooSmall),
        field.max_value == Some(bits) ==> float_outcome(field, Some(bits)) != Err::<
            ValueView,
            DecodeFailure,
        >(DecodeFailure::FloatTooLarge),
{
}

/// A date and time that the zone of the field shows never, or twice, is
/// turned down, whatever else holds.
pub proof fn lemma_unresolved_local_time_is_rejected(
    field: DatetimeFieldView,
    zone_known: bool,
    reading: Option<CivilDateTime>,
    offset: LocalOffset,
)
    requires
        !(offset is Single),
    ensures
        datetime_outcome_of(field, zone_known, reading, offset) is Err,
{
}

/// A token that reads as a local time which the zone of its field shows
/// never, or twice, never decodes to a value.
pub proof fn lemma_unresolved_token_is_rejected(
    coerce_empty_quoted: bool,
    quote: Option<char>,
    field: DatetimeFieldView,
    token: TokenView,
    reading: Option<u64>,
)
    requires
        token.text.len() > 0,
        !(offset_of_reading(field.time_zone, datetime_of_text(token.text, field.format))
            is Single),
    ensures
        datetime_outcome(field, token.text) is Err,
        decode_spec(coerce_empty_quoted, quote, FieldView::Datetime(field), token, reading) is Err,
{
}

} // verus!
