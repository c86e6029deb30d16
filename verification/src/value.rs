//! What decoding yields: values, records and failures.

use crate::calendar::{CivilDate, CivilTime};
use crate::decimal::{Decimal, DecimalView};
use crate::schema::{Field, FieldView};
use vstd::prelude::*;
use vstd::string::StringExecFns;

verus! {

/// An instant given as a local date and time, the offset from UTC in
/// seconds under which the zone shows them, and the zone's name.
#[derive(Debug, PartialEq, Eq)]
pub struct ZonedDateTime {
    pub date: CivilDate,
    pub hour: u32,
    pub minute: u32,
    pub second: u32,
    pub utc_offset_seconds: i32,
    pub zone: String,
}

/// What the contracts see of a [`ZonedDateTime`]: its texts as sequences of characters.
pub struct ZonedDateTimeView {
    pub date: CivilDate,
    pub hour: u32,
    pub minute: u32,
    pub second: u32,
    pub utc_offset_seconds: i32,
    pub zone: Seq<char>,
}

/// The value of one field of a line.
#[derive(Debug, PartialEq, Eq)]
pub enum Value {
    /// The field is empty.
    Absent,
    Str(String),
    Int(i128),
    /// A binary floating-point number of 64 bits, as its bit pattern.
    Float(u64),
    Decimal(Decimal),
    Bool(bool),
    Datetime(ZonedDateTime),
    Date(CivilDate),
    Time(CivilTime),
}

/// What the contracts see of a [`Value`]: its texts as sequences of characters.
pub enum ValueView {
    Absent,
    Str(Seq<char>),
    Int(int),
    Float(u64),
    Decimal(DecimalView),
    Bool(bool),
    Datetime(ZonedDateTimeView),
    Date(CivilDate),
    Time(CivilTime),
}

/// Why a token does not fit its field.
#[derive(Clone, Copy, Debug, PartialEq, Eq, Structural)]
pub enum DecodeFailure {
    StringTooShort,
    StringTooLong,
    InvalidCharacters,
    NotInEnum,
    NotAnInt,
    IntTooSmall,
    IntTooLarge,
    NotAFloat,
    FloatTooSmall,
    FloatTooLarge,
    NotADecimal,
    DecimalTooSmall,
    DecimalTooLarge,
    NotABool,
    InvalidTimeZone,
    NotADatetime,
    NotADate,
    NotATime,
}

/// A token that does not fit its field: the reason, the text of the token
/// and the field.
#[derive(Debug, PartialEq, Eq)]
pub struct FieldError {
    pub failure: DecodeFailure,
    pub text: String,
    pub field: Field,
}

/// What the contracts see of a [`FieldError`]: its texts as sequences of characters.
pub struct FieldErrorView {
    pub failure: DecodeFailure,
    pub text: Seq<char>,
    pub field: FieldView,
}

/// Why a schema cannot be used.
#[derive(Clone, Copy, Debug, PartialEq, Eq, Structural)]
pub enum ConfigError {
    /// The delimiter is not exactly one character.
    Delimiter,
    /// The quote mark is not exactly one character.
    Quote,
}

/// Why a line yields no record.
#[derive(Debug, PartialEq, Eq)]
pub enum ParseError {
    /// There is no token at all, so none that could name the kind of line.
    NoTokens,
    /// The schema asks for a delimiter at the end of the line and the line
    /// has none.
    MissingTrailingDelimiter,
    /// No kind of line has the first token as its name.
    UnknownLineKind(String),
    /// The line has `found` tokens after its name, its kind has `expected`
    /// fields.
    FieldCountMismatch { expected: usize, found: usize },
    /// A token does not fit its field.
    Field(FieldError),
}

/// What the contracts see of a [`ParseError`]: its texts as sequences of characters.
pub enum ParseErrorView {
    NoTokens,
    MissingTrailingDelimiter,
    UnknownLineKind(Seq<char>),
    FieldCountMismatch { expected: usize, found: usize },
    Field(FieldErrorView),
}

impl View for ZonedDateTime {
    type V = ZonedDateTimeView;

    open spec fn view(&self) -> ZonedDateTimeView {
        ZonedDateTimeView {
            date: self.date,
            hour: self.hour,
            minute: self.minute,
            second: self.second,
            utc_offset_seconds: self.utc_offset_seconds,
            zone: self.zone@,
        }
    }
}

impl View for Value {
    type V = ValueView;

    open spec fn view(&self) -> ValueView {
        match self {
            Value::Absent => ValueView::Absent,
            Value::Str(s) => ValueView::Str(s@),
            Value::Int(i) => ValueView::Int(*i as int),
            Value::Float(bits) => ValueView::Float(*bits),
            Value::Decimal(d) => ValueView::Decimal(d@),
            Value::Bool(b) => ValueView::Bool(*b),
            Value::Datetime(t) => ValueView::Datetime(t@),
            Value::Date(d) => ValueView::Date(*d),
            Value::Time(t) => ValueView::Time(*t),
        }
    }
}

impl View for FieldError {
    type V = FieldErrorView;

    open spec fn view(&self) -> FieldErrorView {
        FieldErrorView { failure: self.failure, text: self.text@, field: self.field@ }
    }
}

impl View for ParseError {
    type V = ParseErrorView;

    open spec fn view(&self) -> ParseErrorView {
        match self {
            ParseError::NoTokens => ParseErrorView::NoTokens,
            ParseError::MissingTrailingDelimiter => ParseErrorView::MissingTrailingDelimiter,
            ParseError::UnknownLineKind(name) => ParseErrorView::UnknownLineKind(name@),
            ParseError::FieldCountMismatch { expected, found } => {
                ParseErrorView::FieldCountMismatch { expected: *expected, found: *found }
            },
            ParseError::Field(e) => ParseErrorView::Field(e@),
        }
    }
}

/// The views of a list of values, in order.
pub open spec fn values_of(list: Seq<Value>) -> Seq<ValueView> {
    Seq::new(list.len(), |i: int| list[i]@)
}

/// The view of the outcome of decoding one field.
pub open spec fn field_outcome(r: Result<Value, FieldError>) -> Result<ValueView, FieldErrorView> {
    match r {
        Ok(v) => Ok(v@),
        Err(e) => Err(e@),
    }
}

/// The view of the outcome of decoding a line.
pub open spec fn record_outcome(r: Result<Vec<Value>, ParseError>) -> Result<
    Seq<ValueView>,
    ParseErrorView,
> {
    match r {
        Ok(v) => Ok(values_of(v@)),
        Err(e) => Err(e@),
    }
}

impl DecodeFailure {
    /// The wording of the reason.
    pub open spec fn wording(self) -> Seq<char> {
        match self {
            DecodeFailure::StringTooShort => "String is too short"@,
            DecodeFailure::StringTooLong => "String is too long"@,
            DecodeFailure::InvalidCharacters => "String contains invalid characters"@,
            DecodeFailure::NotInEnum => "Value not in enum"@,
            DecodeFailure::NotAnInt => "Does not parse as int"@,
            DecodeFailure::IntTooSmall => "Int is too small"@,
            DecodeFailure::IntTooLarge => "Int is too large"@,
            DecodeFailure::NotAFloat => "Does not parse as float"@,
            DecodeFailure::FloatTooSmall => "Float is too small"@,
            DecodeFailure::FloatTooLarge => "Float is too large"@,
            DecodeFailure::NotADecimal => "Does not parse as decimal"@,
            DecodeFailure::DecimalTooSmall => "Decimal is too small"@,
            DecodeFailure::DecimalTooLarge => "Decimal is too large"@,
            DecodeFailure::NotABool => "Value is neither true or false value"@,
            DecodeFailure::InvalidTimeZone => "Invalid timezone"@,
            DecodeFailure::NotADatetime => "Does not parse as datetime"@,
            DecodeFailure::NotADate => "Does not parse as date"@,
            DecodeFailure::NotATime => "Does not parse as time"@,
        }
    }

    /// The reason in words.
    pub fn message(&self) -> (r: String)
        ensures
            r@ == self.wording(),
    {
        let words: &str = match self {
            DecodeFailure::StringTooShort => "String is too short",
            DecodeFailure::StringTooLong => "String is too long",
            DecodeFailure::InvalidCharacters => "String contains invalid characters",
            DecodeFailure::NotInEnum => "Value not in enum",
            DecodeFailure::NotAnInt => "Does not parse as int",
            DecodeFailure::IntTooSmall => "Int is too small",
            DecodeFailure::IntTooLarge => "Int is too large",
            DecodeFailure::NotAFloat => "Does not parse as float",
            DecodeFailure::FloatTooSmall => "Float is too small",
            DecodeFailure::FloatTooLarge => "Float is too large",
            DecodeFailure::NotADecimal => "Does not parse as decimal",
            DecodeFailure::DecimalTooSmall => "Decimal is too small",
            DecodeFailure::DecimalTooLarge => "Decimal is too large",
            DecodeFailure::NotABool => "Value is neither true or false value",
            DecodeFailure::InvalidTimeZone => "Invalid timezone",
            DecodeFailure::NotADatetime => "Does not parse as datetime",
            DecodeFailure::NotADate => "Does not parse as date",
            DecodeFailure::NotATime => "Does not parse as time",
        };
        String::from_str(words)
    }
}

} // verus!
