//! Decoding one token against its field.
//!
//! An empty token of a field that need not hold a value is absent, whatever
//! the kind of the field. Any other token is read as the kind of its field
//! says and held against the field's limits; the first rule it breaks is
//! the reason it is turned down.

use crate::binary64;
use crate::calendar::{
    date_of_text, datetime_of_text, knows_zone, offset_in_zone, read_date, read_datetime,
    read_time, resolve_local, time_of_text, zone_is_known, CivilDate, CivilDateTime, CivilTime,
    LocalOffset,
};
use crate::decimal::{
    decimal_of_text, is_less, less_than, optional_view, read_decimal, round_to_places, rounded,
    Decimal, DecimalView,
};
use crate::number::{integer_in_range, parse_i128, parse_i64};
use crate::schema::{
    required, BoolField, BoolFieldView, DateField, DatetimeField, DatetimeFieldView, DecimalField,
    DecimalFieldView, Field, FieldView, FloatField, IntEnumField, IntEnumFieldView, IntField,
    PatternFieldView, StrEnumField, StrEnumFieldView, StrField, StrFieldView, TimeField,
};
use crate::text::{chars_of, list_contains, shares_char, wrap_in_quotes, wrapped};
use crate::token::{Token, TokenView};
use crate::value::{
    field_outcome, DecodeFailure, FieldError, FieldErrorView, Value, ValueView, ZonedDateTime,
    ZonedDateTimeView,
};
use vstd::prelude::*;
use vstd::string::StringExecFns;
use vstd::utf8::encode_utf8;

verus! {

/// The length of `text` in bytes, as UTF-8.
pub open spec fn byte_length(text: Seq<char>) -> usize {
    encode_utf8(text).len() as usize
}

/// Some character of `text` is among `characters`.
pub open spec fn has_any_of(text: Seq<char>, characters: Seq<char>) -> bool {
    exists|i: int| 0 <= i < text.len() && characters.contains(#[trigger] text[i])
}

/// The token counts as absent: it is empty, and the field need not hold a
/// value, or it is a text field written between quote marks in a schema
/// that takes such a field for absent.
pub open spec fn is_absent(coerce_empty_quoted: bool, field: FieldView, token: TokenView) -> bool {
    token.text.len() == 0 && (!field.required() || (coerce_empty_quoted && field is Str
        && token.is_quoted))
}

/// A text field: the text as it stands, if its length is within the bounds
/// and it holds none of the characters ruled out.
pub open spec fn str_outcome(field: StrFieldView, text: Seq<char>) -> Result<
    ValueView,
    DecodeFailure,
> {
    if field.min_length is Some && byte_length(text) < field.min_length->0 {
        Err(DecodeFailure::StringTooShort)
    } else if field.max_length is Some && byte_length(text) > field.max_length->0 {
        Err(DecodeFailure::StringTooLong)
    } else if field.invalid_characters is Some && has_any_of(text, field.invalid_characters->0) {
        Err(DecodeFailure::InvalidCharacters)
    } else {
        Ok(ValueView::Str(text))
    }
}

/// A text field with listed values: the text if it is listed, else the text
/// between quote marks if that is listed.
pub open spec fn str_enum_outcome(
    field: StrEnumFieldView,
    text: Seq<char>,
    quote: Option<char>,
) -> Result<ValueView, DecodeFailure> {
    if field.values.contains(text) {
        Ok(ValueView::Str(text))
    } else if field.values.contains(wrapped(text, quote)) {
        Ok(ValueView::Str(wrapped(text, quote)))
    } else {
        Err(DecodeFailure::NotInEnum)
    }
}

/// A whole number: the number that the text denotes, if it fits in 128 bits
/// and lies within the bounds.
pub open spec fn int_outcome(field: IntField, text: Seq<char>) -> Result<ValueView, DecodeFailure> {
    match integer_in_range(text, i128::MIN as int, i128::MAX as int) {
        None => Err(DecodeFailure::NotAnInt),
        Some(v) => if field.min_value is Some && v < field.min_value->0 {
            Err(DecodeFailure::IntTooSmall)
        } else if field.max_value is Some && v > field.max_value->0 {
            Err(DecodeFailure::IntTooLarge)
        } else {
            Ok(ValueView::Int(v))
        },
    }
}

/// A whole number with listed values: the number that the text denotes, if
/// it fits in 64 bits and is listed.
pub open spec fn int_enum_outcome(field: IntEnumFieldView, text: Seq<char>) -> Result<
    ValueView,
    DecodeFailure,
> {
    match integer_in_range(text, i64::MIN as int, i64::MAX as int) {
        None => Err(DecodeFailure::NotAnInt),
        Some(v) => if field.values.contains(v as i64) {
            Ok(ValueView::Int(v))
        } else {
            Err(DecodeFailure::NotInEnum)
        },
    }
}

/// A binary floating-point number: the number that the caller read from
/// the text, if it read one and the number is not below the lower bound nor
/// above the upper one.
pub open spec fn float_outcome(field: FloatField, reading: Option<u64>) -> Result<
    ValueView,
    DecodeFailure,
> {
    match reading {
        None => Err(DecodeFailure::NotAFloat),
        Some(bits) => if field.min_value is Some && binary64::less_than(
            bits,
            field.min_value->0,
        ) {
            Err(DecodeFailure::FloatTooSmall)
        } else if field.max_value is Some && binary64::less_than(field.max_value->0, bits) {
            Err(DecodeFailure::FloatTooLarge)
        } else {
            Ok(ValueView::Float(bits))
        },
    }
}

/// The number as the field hands it on: rounded where the field says to how
/// many fractional digits.
pub open spec fn normalized(field: DecimalFieldView, d: DecimalView) -> DecimalView {
    match field.round_decimal_places {
        Some(places) => rounded(d, places as nat),
        None => d,
    }
}

/// An exact base-ten number, from what was read from the text: the number,
/// if one was read and it lies within the bounds, rounded where the field
/// says so.
pub open spec fn decimal_outcome_of(field: DecimalFieldView, reading: Option<DecimalView>) -> Result<
    ValueView,
    DecodeFailure,
> {
    match reading {
        None => Err(DecodeFailure::NotADecimal),
        Some(d) => if field.min_value is Some && less_than(d, field.min_value->0) {
            Err(DecodeFailure::DecimalTooSmall)
        } else if field.max_value is Some && less_than(field.max_value->0, d) {
            Err(DecodeFailure::DecimalTooLarge)
        } else {
            Ok(ValueView::Decimal(normalized(field, d)))
        },
    }
}

/// An exact base-ten number: what comes of the number read from the text.
pub open spec fn decimal_outcome(field: DecimalFieldView, text: Seq<char>) -> Result<
    ValueView,
    DecodeFailure,
> {
    decimal_outcome_of(field, decimal_of_text(text))
}

/// `text`, or `text` between quote marks, is the literal.
pub open spec fn matches_literal(text: Seq<char>, quote: Option<char>, literal: Seq<char>) -> bool {
    text == literal || wrapped(text, quote) == literal
}

/// A truth value: `true` for the literal for `true`; `false` for the
/// literal for `false` or, where the field has none, for any other text.
pub open spec fn bool_outcome(field: BoolFieldView, text: Seq<char>, quote: Option<char>) -> Result<
    ValueView,
    DecodeFailure,
> {
    if matches_literal(text, quote, field.true_value) {
        Ok(ValueView::Bool(true))
    } else {
        match field.false_value {
            Some(literal) => if matches_literal(text, quote, literal) {
                Ok(ValueView::Bool(false))
            } else {
                Err(DecodeFailure::NotABool)
            },
            None => Ok(ValueView::Bool(false)),
        }
    }
}

/// A date and time in a zone, from what was found out about the zone and
/// the text: the local date and time to the second, with the one offset
/// under which the zone shows them. A zone that is not known, a text that
/// did not fit the pattern and a local time that the zone shows never or
/// twice are turned down, in this order.
pub open spec fn datetime_outcome_of(
    field: DatetimeFieldView,
    zone_known: bool,
    reading: Option<CivilDateTime>,
    offset: LocalOffset,
) -> Result<ValueView, DecodeFailure> {
    if !zone_known {
        Err(DecodeFailure::InvalidTimeZone)
    } else {
        match reading {
            None => Err(DecodeFailure::NotADatetime),
            Some(local) => match offset {
                LocalOffset::Single(seconds) => Ok(
                    ValueView::Datetime(
                        ZonedDateTimeView {
                            date: local.date,
                            hour: local.time.hour,
                            minute: local.time.minute,
                            second: local.time.second,
                            utc_offset_seconds: seconds,
                            zone: field.time_zone,
                        },
                    ),
                ),
                _ => Err(DecodeFailure::NotADatetime),
            },
        }
    }
}

/// How the zone of the field places the local time that was read; nothing
/// where none was read.
pub open spec fn offset_of_reading(zone: Seq<char>, reading: Option<CivilDateTime>) -> LocalOffset {
    match reading {
        Some(local) => offset_in_zone(
            zone,
            local.date.year as int,
            local.date.month as int,
            local.date.day as int,
            local.time.hour as int,
            local.time.minute as int,
            local.time.second as int,
        ),
        None => LocalOffset::Missing,
    }
}

/// A date and time in a zone: what comes of the local date and time read
/// from the text under the pattern, placed in the zone of the field.
pub open spec fn datetime_outcome(field: DatetimeFieldView, text: Seq<char>) -> Result<
    ValueView,
    DecodeFailure,
> {
    datetime_outcome_of(
        field,
        zone_is_known(field.time_zone),
        datetime_of_text(text, field.format),
        offset_of_reading(field.time_zone, datetime_of_text(text, field.format)),
    )
}

/// The text as it is read for a date or a time: `000000` in place of the
/// end-of-day mark `240000`, any other text as it stands.
pub open spec fn without_end_of_day(text: Seq<char>) -> Seq<char> {
    if text == "240000"@ {
        "000000"@
    } else {
        text
    }
}

/// A date, from what was read from the text.
pub open spec fn date_outcome_of(reading: Option<CivilDate>) -> Result<ValueView, DecodeFailure> {
    match reading {
        Some(d) => Ok(ValueView::Date(d)),
        None => Err(DecodeFailure::NotADate),
    }
}

/// A date: what the text reads as under the pattern.
pub open spec fn date_outcome(field: PatternFieldView, text: Seq<char>) -> Result<
    ValueView,
    DecodeFailure,
> {
    date_outcome_of(date_of_text(without_end_of_day(text), field.format))
}

/// A time of day, from what was read from the text.
pub open spec fn time_outcome_of(reading: Option<CivilTime>) -> Result<ValueView, DecodeFailure> {
    match reading {
        Some(t) => Ok(ValueView::Time(t)),
        None => Err(DecodeFailure::NotATime),
    }
}

/// A time of day: what the text reads as under the pattern.
pub open spec fn time_outcome(field: PatternFieldView, text: Seq<char>) -> Result<
    ValueView,
    DecodeFailure,
> {
    time_outcome_of(time_of_text(without_end_of_day(text), field.format))
}

/// What a token that is not absent decodes to under each kind of field.
pub open spec fn kind_outcome(
    quote: Option<char>,
    field: FieldView,
    text: Seq<char>,
    reading: Option<u64>,
) -> Result<ValueView, DecodeFailure> {
    match field {
        FieldView::Str(f) => str_outcome(f, text),
        FieldView::StrEnum(f) => str_enum_outcome(f, text, quote),
        FieldView::Int(f) => int_outcome(f, text),
        FieldView::IntEnum(f) => int_enum_outcome(f, text),
        FieldView::Float(f) => float_outcome(f, reading),
        FieldView::Decimal(f) => decimal_outcome(f, text),
        FieldView::Bool(f) => bool_outcome(f, text, quote),
        FieldView::Datetime(f) => datetime_outcome(f, text),
        FieldView::Date(f) => date_outcome(f, text),
        FieldView::Time(f) => time_outcome(f, text),
    }
}

/// What a token decodes to against its field: the absence marker, a value
/// of the field's kind, or the reason with the token's text and the field.
pub open spec fn decode_spec(
    coerce_empty_quoted: bool,
    quote: Option<char>,
    field: FieldView,
    token: TokenView,
    reading: Option<u64>,
) -> Result<ValueView, FieldErrorView> {
    if is_absent(coerce_empty_quoted, field, token) {
        Ok(ValueView::Absent)
    } else {
        match kind_outcome(quote, field, token.text, reading) {
            Ok(v) => Ok(v),
            Err(failure) => Err(FieldErrorView { failure, text: token.text, field }),
        }
    }
}

/// The view of the outcome of decoding under one kind.
pub open spec fn kind_result(r: Result<Value, DecodeFailure>) -> Result<ValueView, DecodeFailure> {
    match r {
        Ok(v) => Ok(v@),
        Err(f) => Err(f),
    }
}

/// Decodes a text field.
pub fn decode_str(field: &StrField, text: &String) -> (r: Result<Value, DecodeFailure>)
    ensures
        kind_result(r) == str_outcome(field@, text@),
{
    let length = text.as_str().len();
    if let Some(least) = field.min_length {
        if length < least {
            return Err(DecodeFailure::StringTooShort);
        }
    }
    if let Some(most) = field.max_length {
        if length > most {
            return Err(DecodeFailure::StringTooLong);
        }
    }
    if let Some(invalid) = &field.invalid_characters {
        let chars = chars_of(text.as_str());
        let among = chars_of(invalid.as_str());
        if shares_char(&chars, &among) {
            return Err(DecodeFailure::InvalidCharacters);
        }
    }
    Ok(Value::Str(text.clone()))
}

/// Decodes a text field with listed values.
pub fn decode_str_enum(field: &StrEnumField, text: &String, quote: Option<char>) -> (r: Result<
    Value,
    DecodeFailure,
>)
    ensures
        kind_result(r) == str_enum_outcome(field@, text@, quote),
{
    if list_contains(&field.values, text) {
        return Ok(Value::Str(text.clone()));
    }
    let in_quotes = wrap_in_quotes(text, quote);
    if list_contains(&field.values, &in_quotes) {
        Ok(Value::Str(in_quotes))
    } else {
        Err(DecodeFailure::NotInEnum)
    }
}

/// Decodes a whole number.
pub fn decode_int(field: &IntField, text: &String) -> (r: Result<Value, DecodeFailure>)
    ensures
        kind_result(r) == int_outcome(*field, text@),
{
    let chars = chars_of(text.as_str());
    match parse_i128(&chars) {
        None => Err(DecodeFailure::NotAnInt),
        Some(v) => {
            if let Some(least) = field.min_value {
                if v < least {
                    return Err(DecodeFailure::IntTooSmall);
                }
            }
            if let Some(most) = field.max_value {
                if v > most {
                    return Err(DecodeFailure::IntTooLarge);
                }
            }
            Ok(Value::Int(v))
        },
    }
}

/// Decodes a whole number with listed values.
pub fn decode_int_enum(field: &IntEnumField, text: &String) -> (r: Result<Value, DecodeFailure>)
    ensures
        kind_result(r) == int_enum_outcome(field@, text@),
{
    let chars = chars_of(text.as_str());
    match parse_i64(&chars) {
        None => Err(DecodeFailure::NotAnInt),
        Some(v) => {
            let mut i: usize = 0;
            while i < field.values.len()
                invariant
                    i <= field.values.len(),
                    integer_in_range(text@, i64::MIN as int, i64::MAX as int) == Some(v as int),
                    forall|j: int| 0 <= j < i ==> field.values[j] != v,
                decreases field.values.len() - i,
            {
                if field.values[i] == v {
                    assert(field.values@[i as int] == v);
                    return Ok(Value::Int(v as i128));
                }
                i += 1;
            }
            Err(DecodeFailure::NotInEnum)
        },
    }
}

/// Decodes a binary floating-point number from what the caller read from
/// the token: the bit pattern of the number, or `None` where the text is no
/// number.
pub fn decode_float(field: &FloatField, reading: Option<u64>) -> (r: Result<Value, DecodeFailure>)
    ensures
        kind_result(r) == float_outcome(*field, reading),
{
    match reading {
        None => Err(DecodeFailure::NotAFloat),
        Some(bits) => {
            if let Some(least) = field.min_value {
                if binary64::is_less(bits, least) {
                    return Err(DecodeFailure::FloatTooSmall);
                }
            }
            if let Some(most) = field.max_value {
                if binary64::is_less(most, bits) {
                    return Err(DecodeFailure::FloatTooLarge);
                }
            }
            Ok(Value::Float(bits))
        },
    }
}

/// Decides on an exact base-ten number from what was read from the token:
/// the number, or `None` where the text is no number.
pub fn decimal_from_reading(field: &DecimalField, reading: Option<Decimal>) -> (r: Result<
    Value,
    DecodeFailure,
>)
    ensures
        kind_result(r) == decimal_outcome_of(field@, optional_view(reading)),
{
    match reading {
        None => Err(DecodeFailure::NotADecimal),
        Some(d) => {
            if let Some(least) = field.min_value {
                if is_less(&d, &least) {
                    return Err(DecodeFailure::DecimalTooSmall);
                }
            }
            if let Some(most) = field.max_value {
                if is_less(&most, &d) {
                    return Err(DecodeFailure::DecimalTooLarge);
                }
            }
            match field.round_decimal_places {
                Some(places) => Ok(Value::Decimal(round_to_places(&d, places))),
                None => Ok(Value::Decimal(d)),
            }
        },
    }
}

/// Decodes an exact base-ten number.
pub fn decode_decimal(field: &DecimalField, text: &String) -> (r: Result<Value, DecodeFailure>)
    ensures
        kind_result(r) == decimal_outcome(field@, text@),
{
    decimal_from_reading(field, read_decimal(text.as_str()))
}

fn is_literal(text: &String, in_quotes: &String, literal: &String) -> (r: bool)
    ensures
        r == (text@ == literal@ || in_quotes@ == literal@),
{
    *text == *literal || *in_quotes == *literal
}

/// Decodes a truth value.
pub fn decode_bool(field: &BoolField, text: &String, quote: Option<char>) -> (r: Result<
    Value,
    DecodeFailure,
>)
    ensures
        kind_result(r) == bool_outcome(field@, text@, quote),
{
    let in_quotes = wrap_in_quotes(text, quote);
    if is_literal(text, &in_quotes, &field.true_value) {
        return Ok(Value::Bool(true));
    }
    match &field.false_value {
        Some(literal) => {
            if is_literal(text, &in_quotes, literal) {
                Ok(Value::Bool(false))
            } else {
                Err(DecodeFailure::NotABool)
            }
        },
        None => Ok(Value::Bool(false)),
    }
}

/// Decides on a date and time in a zone from what was found out about the
/// zone and the token: whether the zone is known, the local date and time
/// that the text reads as, and how the zone places that local time.
pub fn datetime_from_readings(
    field: &DatetimeField,
    zone_known: bool,
    reading: Option<CivilDateTime>,
    offset: LocalOffset,
) -> (r: Result<Value, DecodeFailure>)
    ensures
        kind_result(r) == datetime_outcome_of(field@, zone_known, reading, offset),
{
    if !zone_known {
        return Err(DecodeFailure::InvalidTimeZone);
    }
    match reading {
        None => Err(DecodeFailure::NotADatetime),
        Some(local) => match offset {
            LocalOffset::Single(seconds) => Ok(
                Value::Datetime(
                    ZonedDateTime {
                        date: local.date,
                        hour: local.time.hour,
                        minute: local.time.minute,
                        second: local.time.second,
                        utc_offset_seconds: seconds,
                        zone: field.time_zone.clone(),
                    },
                ),
            ),
            _ => Err(DecodeFailure::NotADatetime),
        },
    }
}

/// Decodes a date and time in a zone.
///
/// The text is read only where the zone is known, and placed in the zone
/// only where it reads as a date and time.
pub fn decode_datetime(field: &DatetimeField, text: &String) -> (r: Result<Value, DecodeFailure>)
    ensures
        kind_result(r) == datetime_outcome(field@, text@),
{
    if !knows_zone(field.time_zone.as_str()) {
        return datetime_from_readings(field, false, None, LocalOffset::Missing);
    }
    match read_datetime(text.as_str(), field.format.as_str()) {
        None => datetime_from_readings(field, true, None, LocalOffset::Missing),
        Some(local) => {
            let offset = resolve_local(
                field.time_zone.as_str(),
                local.date,
                local.time.hour,
                local.time.minute,
                local.time.second,
            );
            datetime_from_readings(field, true, Some(local), offset)
        },
    }
}

fn is_end_of_day(text: &String) -> (r: bool)
    ensures
        r == (text@ == "240000"@),
{
    let mark = String::from_str("240000");
    *text == mark
}

/// Decides on a date from what was read from the token: the date, or
/// `None` where the text does not fit the pattern.
pub fn date_from_reading(reading: Option<CivilDate>) -> (r: Result<Value, DecodeFailure>)
    ensures
        kind_result(r) == date_outcome_of(reading),
{
    match reading {
        Some(d) => Ok(Value::Date(d)),
        None => Err(DecodeFailure::NotADate),
    }
}

/// Decodes a date.
pub fn decode_date(field: &DateField, text: &String) -> (r: Result<Value, DecodeFailure>)
    ensures
        kind_result(r) == date_outcome(field@, text@),
{
    if is_end_of_day(text) {
        date_from_reading(read_date("000000", field.format.as_str()))
    } else {
        date_from_reading(read_date(text.as_str(), field.format.as_str()))
    }
}

/// Decides on a time of day from what was read from the token: the time,
/// or `None` where the text does not fit the pattern.
pub fn time_from_reading(reading: Option<CivilTime>) -> (r: Result<Value, DecodeFailure>)
    ensures
        kind_result(r) == time_outcome_of(reading),
{
    match reading {
        Some(t) => Ok(Value::Time(t)),
        None => Err(DecodeFailure::NotATime),
    }
}

/// Decodes a time of day.
pub fn decode_time(field: &TimeField, text: &String) -> (r: Result<Value, DecodeFailure>)
    ensures
        kind_result(r) == time_outcome(field@, text@),
{
    if is_end_of_day(text) {
        time_from_reading(read_time("000000", field.format.as_str()))
    } else {
        time_from_reading(read_time(text.as_str(), field.format.as_str()))
    }
}

/// Decodes one token against its field.
///
/// `reading` is what the caller read from the token's text as a binary
/// floating-point number of 64 bits: its bit pattern, or `None` where the
/// text is no such number. Only a floating-point field looks at it.
pub fn decode_field(
    coerce_empty_quoted: bool,
    quote: Option<char>,
    field: &Field,
    token: &Token,
    reading: Option<u64>,
) -> (r: Result<Value, FieldError>)
    ensures
        field_outcome(r) == decode_spec(coerce_empty_quoted, quote, field@, token@, reading),
{
    let empty = token.text.as_str().is_empty();
    if empty && (!required(field) || (coerce_empty_quoted && field.is_str() && token.is_quoted)) {
        return Ok(Value::Absent);
    }
    let decoded = match field {
        Field::Str(f) => decode_str(f, &token.text),
        Field::StrEnum(f) => decode_str_enum(f, &token.text, quote),
        Field::Int(f) => decode_int(f, &token.text),
        Field::IntEnum(f) => decode_int_enum(f, &token.text),
        Field::Float(f) => decode_float(f, reading),
        Field::Decimal(f) => decode_decimal(f, &token.text),
        Field::Bool(f) => decode_bool(f, &token.text, quote),
        Field::Datetime(f) => decode_datetime(f, &token.text),
        Field::Date(f) => decode_date(f, &token.text),
        Field::Time(f) => decode_time(f, &token.text),
    };
    match decoded {
        Ok(v) => Ok(v),
        Err(failure) => Err(
            FieldError { failure, text: token.text.clone(), field: field.clone() },
        ),
    }
}

} // verus!
