//! The schema: what a line of each kind must hold.
//!
//! A schema names the delimiter and the quote mark, says whether every line
//! ends in a delimiter, and lists the kinds of line. A kind of line has a
//! name, which a line carries as its first token, and an ordered list of
//! fields, one for each token after the name.

use crate::decimal::{optional_view, Decimal, DecimalView};
use crate::text::{copy_optional_text, copy_texts, optional_text, texts_of};
use vstd::prelude::*;

verus! {

/// A text field, kept as it stands.
#[derive(Debug, PartialEq, Eq)]
pub struct StrField {
    pub required: bool,
    /// The least length in bytes, where there is one.
    pub min_length: Option<usize>,
    /// The greatest length in bytes, where there is one.
    pub max_length: Option<usize>,
    /// Characters that the text may not hold.
    pub invalid_characters: Option<String>,
}

/// What the contracts see of a [`StrField`]: its texts as sequences of characters.
pub struct StrFieldView {
    pub required: bool,
    pub min_length: Option<usize>,
    pub max_length: Option<usize>,
    pub invalid_characters: Option<Seq<char>>,
}

/// A text field that must hold one of the listed values.
#[derive(Debug, PartialEq, Eq)]
pub struct StrEnumField {
    pub required: bool,
    pub values: Vec<String>,
}

/// What the contracts see of a [`StrEnumField`]: its texts as sequences of characters.
pub struct StrEnumFieldView {
    pub required: bool,
    pub values: Seq<Seq<char>>,
}

/// A whole number between two bounds, both inclusive.
#[derive(Clone, Copy, Debug, PartialEq, Eq, Structural)]
pub struct IntField {
    pub required: bool,
    pub min_value: Option<i128>,
    pub max_value: Option<i128>,
}

/// A whole number that must be one of the listed values.
#[derive(Debug, PartialEq, Eq)]
pub struct IntEnumField {
    pub required: bool,
    pub values: Vec<i64>,
}

/// What the contracts see of an [`IntEnumField`]: its texts as sequences of characters.
pub struct IntEnumFieldView {
    pub required: bool,
    pub values: Seq<i64>,
}

/// A binary floating-point number of 64 bits between two bounds, both
/// inclusive. The bounds are held as the bit patterns of the numbers.
#[derive(Clone, Copy, Debug, PartialEq, Eq, Structural)]
pub struct FloatField {
    pub required: bool,
    pub min_value: Option<u64>,
    pub max_value: Option<u64>,
}

/// An exact base-ten number between two bounds, both inclusive, rounded to
/// a number of fractional digits where one is given.
#[derive(Clone, Copy, Debug, PartialEq, Eq)]
pub struct DecimalField {
    pub required: bool,
    pub round_decimal_places: Option<u32>,
    pub min_value: Option<Decimal>,
    pub max_value: Option<Decimal>,
}

/// What the contracts see of a [`DecimalField`]: its texts as sequences of characters.
pub struct DecimalFieldView {
    pub required: bool,
    pub round_decimal_places: Option<u32>,
    pub min_value: Option<DecimalView>,
    pub max_value: Option<DecimalView>,
}

/// A truth value, written as one of two literals.
#[derive(Debug, PartialEq, Eq)]
pub struct BoolField {
    pub required: bool,
    pub true_value: String,
    /// The literal for `false`; where there is none, every text but the
    /// literal for `true` stands for `false`.
    pub false_value: Option<String>,
}

/// What the contracts see of a [`BoolField`]: its texts as sequences of characters.
pub struct BoolFieldView {
    pub required: bool,
    pub true_value: Seq<char>,
    pub false_value: Option<Seq<char>>,
}

/// A date and time in a named time zone, written after a pattern.
#[derive(Debug, PartialEq, Eq)]
pub struct DatetimeField {
    pub required: bool,
    pub format: String,
    pub time_zone: String,
}

/// What the contracts see of a [`DatetimeField`]: its texts as sequences of characters.
pub struct DatetimeFieldView {
    pub required: bool,
    pub format: Seq<char>,
    pub time_zone: Seq<char>,
}

/// A date, written after a pattern.
#[derive(Debug, PartialEq, Eq)]
pub struct DateField {
    pub required: bool,
    pub format: String,
}

/// A time of day, written after a pattern.
#[derive(Debug, PartialEq, Eq)]
pub struct TimeField {
    pub required: bool,
    pub format: String,
}

/// The view of a [`DateField`] and of a [`TimeField`].
pub struct PatternFieldView {
    pub required: bool,
    pub format: Seq<char>,
}

/// What one token of a line must hold.
#[derive(Debug, PartialEq, Eq)]
pub enum Field {
    Str(StrField),
    StrEnum(StrEnumField),
    Int(IntField),
    IntEnum(IntEnumField),
    Float(FloatField),
    Decimal(DecimalField),
    Bool(BoolField),
    Datetime(DatetimeField),
    Date(DateField),
    Time(TimeField),
}

/// What the contracts see of a [`Field`]: its texts as sequences of characters.
pub enum FieldView {
    Str(StrFieldView),
    StrEnum(StrEnumFieldView),
    Int(IntField),
    IntEnum(IntEnumFieldView),
    Float(FloatField),
    Decimal(DecimalFieldView),
    Bool(BoolFieldView),
    Datetime(DatetimeFieldView),
    Date(PatternFieldView),
    Time(PatternFieldView),
}

/// A kind of line: its name and its fields, in the order of the tokens.
#[derive(Debug, PartialEq, Eq)]
pub struct Line {
    pub name: String,
    pub fields: Vec<Field>,
}

/// What the contracts see of a [`Line`]: its texts as sequences of characters.
pub struct LineView {
    pub name: Seq<char>,
    pub fields: Seq<FieldView>,
}

/// The grammar of a file: delimiter, quote mark and the kinds of line.
#[derive(Debug, PartialEq, Eq)]
pub struct Schema {
    /// The delimiter: a text of exactly one character.
    pub delimiter: String,
    /// The quote mark, where there is one: a text of exactly one character.
    pub quote_str: Option<String>,
    /// Whether every line ends in a delimiter that closes its last token.
    pub trailing_delimiter: bool,
    /// Whether an empty text field written between quote marks counts as
    /// absent even where the field is required.
    pub coerce_empty_quoted: bool,
    pub lines: Vec<Line>,
}

/// What the contracts see of a [`Schema`]: its texts as sequences of characters.
pub struct SchemaView {
    pub delimiter: Seq<char>,
    pub quote_str: Option<Seq<char>>,
    pub trailing_delimiter: bool,
    pub coerce_empty_quoted: bool,
    pub lines: Seq<LineView>,
}

impl View for StrField {
    type V = StrFieldView;

    open spec fn view(&self) -> StrFieldView {
        StrFieldView {
            required: self.required,
            min_length: self.min_length,
            max_length: self.max_length,
            invalid_characters: optional_text(self.invalid_characters),
        }
    }
}

impl View for StrEnumField {
    type V = StrEnumFieldView;

    open spec fn view(&self) -> StrEnumFieldView {
        StrEnumFieldView { required: self.required, values: texts_of(self.values@) }
    }
}

impl View for IntEnumField {
    type V = IntEnumFieldView;

    open spec fn view(&self) -> IntEnumFieldView {
        IntEnumFieldView { required: self.required, values: self.values@ }
    }
}

impl View for DecimalField {
    type V = DecimalFieldView;

    open spec fn view(&self) -> DecimalFieldView {
        DecimalFieldView {
            required: self.required,
            round_decimal_places: self.round_decimal_places,
            min_value: optional_view(self.min_value),
            max_value: optional_view(self.max_value),
        }
    }
}

impl View for BoolField {
    type V = BoolFieldView;

    open spec fn view(&self) -> BoolFieldView {
        BoolFieldView {
            required: self.required,
            true_value: self.true_value@,
            false_value: optional_text(self.false_value),
        }
    }
}

impl View for DatetimeField {
    type V = DatetimeFieldView;

    open spec fn view(&self) -> DatetimeFieldView {
        DatetimeFieldView {
            required: self.required,
            format: self.format@,
            time_zone: self.time_zone@,
        }
    }
}

impl View for DateField {
    type V = PatternFieldView;

    open spec fn view(&self) -> PatternFieldView {
        PatternFieldView { required: self.required, format: self.format@ }
    }
}

impl View for TimeField {
    type V = PatternFieldView;

    open spec fn view(&self) -> PatternFieldView {
        PatternFieldView { required: self.required, format: self.format@ }
    }
}

impl View for Field {
    type V = FieldView;

    open spec fn view(&self) -> FieldView {
        match self {
            Field::Str(f) => FieldView::Str(f@),
            Field::StrEnum(f) => FieldView::StrEnum(f@),
            Field::Int(f) => FieldView::Int(*f),
            Field::IntEnum(f) => FieldView::IntEnum(f@),
            Field::Float(f) => FieldView::Float(*f),
            Field::Decimal(f) => FieldView::Decimal(f@),
            Field::Bool(f) => FieldView::Bool(f@),
            Field::Datetime(f) => FieldView::Datetime(f@),
            Field::Date(f) => FieldView::Date(f@),
            Field::Time(f) => FieldView::Time(f@),
        }
    }
}

/// The views of a list of fields, in order.
pub open spec fn fields_of(list: Seq<Field>) -> Seq<FieldView> {
    Seq::new(list.len(), |i: int| list[i]@)
}

/// The views of a list of lines, in order.
pub open spec fn lines_of(list: Seq<Line>) -> Seq<LineView> {
    Seq::new(list.len(), |i: int| list[i]@)
}

impl View for Line {
    type V = LineView;

    open spec fn view(&self) -> LineView {
        LineView { name: self.name@, fields: fields_of(self.fields@) }
    }
}

impl View for Schema {
    type V = SchemaView;

    open spec fn view(&self) -> SchemaView {
        SchemaView {
            delimiter: self.delimiter@,
            quote_str: optional_text(self.quote_str),
            trailing_delimiter: self.trailing_delimiter,
            coerce_empty_quoted: self.coerce_empty_quoted,
            lines: lines_of(self.lines@),
        }
    }
}

impl FieldView {
    /// Whether the field must hold a value.
    pub open spec fn required(self) -> bool {
        match self {
            FieldView::Str(f) => f.required,
            FieldView::StrEnum(f) => f.required,
            FieldView::Int(f) => f.required,
            FieldView::IntEnum(f) => f.required,
            FieldView::Float(f) => f.required,
            FieldView::Decimal(f) => f.required,
            FieldView::Bool(f) => f.required,
            FieldView::Datetime(f) => f.required,
            FieldView::Date(f) => f.required,
            FieldView::Time(f) => f.required,
        }
    }
}

impl Field {
    /// Whether this is a text field kept as it stands.
    pub fn is_str(&self) -> (r: bool)
        ensures
            r == (self@ is Str),
    {
        match self {
            Field::Str(_) => true,
            _ => false,
        }
    }

    /// Whether this is a binary floating-point field.
    pub fn is_float(&self) -> (r: bool)
        ensures
            r == (self@ is Float),
    {
        match self {
            Field::Float(_) => true,
            _ => false,
        }
    }
}

/// Whether the field must hold a value.
pub fn required(field: &Field) -> (r: bool)
    ensures
        r == field@.required(),
{
    match field {
        Field::Str(f) => f.required,
        Field::StrEnum(f) => f.required,
        Field::Int(f) => f.required,
        Field::IntEnum(f) => f.required,
        Field::Float(f) => f.required,
        Field::Decimal(f) => f.required,
        Field::Bool(f) => f.required,
        Field::Datetime(f) => f.required,
        Field::Date(f) => f.required,
        Field::Time(f) => f.required,
    }
}

impl Clone for Field {
    fn clone(&self) -> (r: Field)
        ensures
            r@ == self@,
    {
        match self {
            Field::Str(f) => Field::Str(
                StrField {
                    required: f.required,
                    min_length: f.min_length,
                    max_length: f.max_length,
                    invalid_characters: copy_optional_text(&f.invalid_characters),
                },
            ),
            Field::StrEnum(f) => Field::StrEnum(
                StrEnumField { required: f.required, values: copy_texts(&f.values) },
            ),
            Field::Int(f) => Field::Int(*f),
            Field::IntEnum(f) => Field::IntEnum(
                IntEnumField { required: f.required, values: f.values.clone() },
            ),
            Field::Float(f) => Field::Float(*f),
            Field::Decimal(f) => Field::Decimal(*f),
            Field::Bool(f) => Field::Bool(
                BoolField {
                    required: f.required,
                    true_value: f.true_value.clone(),
                    false_value: copy_optional_text(&f.false_value),
                },
            ),
            Field::Datetime(f) => Field::Datetime(
                DatetimeField {
                    required: f.required,
                    format: f.format.clone(),
                    time_zone: f.time_zone.clone(),
                },
            ),
            Field::Date(f) => Field::Date(
                DateField { required: f.required, format: f.format.clone() },
            ),
            Field::Time(f) => Field::Time(
                TimeField { required: f.required, format: f.format.clone() },
            ),
        }
    }
}

} // verus!
