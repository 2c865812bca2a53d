//! Typed values of Homie properties, and the errors met while reading them.

use super::types::Datatype;
use crate::text::{
    dec_digits, int_str, parse_i64, parse_i64_spec, parse_u16, parse_u16_spec, parse_u8, parse_u8_spec,
    float_syntax, is_float_text, push_i64, push_u64, split_spec, split_str, str_eq,
};
use vstd::prelude::*;
use vstd::string::StringExecFns;

verus! {

/// An error encountered while reading the value or format of a property.
#[derive(Clone, Debug, Eq, PartialEq)]
pub enum ValueError {
    /// The value of the property or attribute is not yet known, or not set by the device.
    Unknown,
    /// A particular datatype was expected, but the datatype sent by the device was different.
    WrongDatatype {
        /// The datatype expected by the method call.
        expected: Datatype,
        /// The actual datatype of the property, as sent by the device.
        actual: Datatype,
    },
    /// The format of the property could not be parsed or did not match what was expected.
    WrongFormat {
        /// The format string of the property.
        format: String,
    },
    /// The value of the property could not be parsed as the expected type.
    ParseFailed {
        /// The string value of the property.
        value: String,
        /// The datatype as which the value was attempted to be parsed.
        datatype: Datatype,
    },
}

/// A `ValueError` with its strings taken by their characters.
pub enum ValueErrorView {
    Unknown,
    WrongDatatype { expected: Datatype, actual: Datatype },
    WrongFormat { format: Seq<char> },
    ParseFailed { value: Seq<char>, datatype: Datatype },
}

impl View for ValueError {
    type V = ValueErrorView;

    open spec fn view(&self) -> ValueErrorView {
        match self {
            ValueError::Unknown => ValueErrorView::Unknown,
            ValueError::WrongDatatype { expected, actual } => ValueErrorView::WrongDatatype { expected: *expected, actual: *actual },
            ValueError::WrongFormat { format } => ValueErrorView::WrongFormat { format: format@ },
            ValueError::ParseFailed { value, datatype } => ValueErrorView::ParseFailed { value: value@, datatype: *datatype },
        }
    }
}

/// The value of a Homie property, one type for each datatype that values can be read as.
pub trait Value: View + Sized {
    /// The Homie datatype corresponding to this type.
    spec fn spec_datatype() -> Datatype;

    /// Whether a property format string is acceptable for this type.
    spec fn spec_format_ok(format: Seq<char>) -> bool;

    /// The value that a string parses as, if it does.
    spec fn spec_parse(s: Seq<char>) -> Option<Self::V>;

    /// A value written as a string.
    spec fn spec_to_string(v: Self::V) -> Seq<char>;

    /// The Homie datatype corresponding to this type.
    fn datatype() -> (d: Datatype)
        ensures
            d == Self::spec_datatype(),
    ;

    /// Checks whether this type is valid for the given property format string.
    fn valid_for_format(format: &str) -> (r: Result<(), ValueError>)
        ensures
            r is Ok <==> Self::spec_format_ok(format@),
            r matches Err(e) ==> e@ == (ValueErrorView::WrongFormat { format: format@ }),
    ;

    /// Parses a value from a string.
    fn parse_value(s: &str) -> (r: Option<Self>)
        ensures
            match r {
                Some(v) => Self::spec_parse(s@) == Some(v@),
                None => Self::spec_parse(s@) is None,
            },
    ;

    /// Writes the value as a string.
    fn to_value_string(&self) -> (s: String)
        ensures
            s@ == Self::spec_to_string(self@),
    ;
}

/// Whether type `T` is valid for a property of the given datatype and format: `None` if so,
/// else the error. An unknown datatype or format does not rule it out.
pub open spec fn valid_for_spec<T: Value>(datatype: Option<Datatype>, format: Option<Seq<char>>) -> Option<ValueErrorView> {
    match datatype {
        Some(actual) if actual != T::spec_datatype() => Some(ValueErrorView::WrongDatatype { expected: T::spec_datatype(), actual }),
        _ => match format {
            Some(f) => if T::spec_format_ok(f) { None } else { Some(ValueErrorView::WrongFormat { format: f }) },
            None => None,
        },
    }
}

/// Checks whether type `T` is valid for a property of the given datatype and format string.
pub fn valid_for<T: Value>(datatype: Option<Datatype>, format: &Option<String>) -> (r: Result<(), ValueError>)
    ensures
        match r {
            Ok(()) => valid_for_spec::<T>(datatype, crate::text::opt_view(*format)) is None,
            Err(e) => valid_for_spec::<T>(datatype, crate::text::opt_view(*format)) == Some(e@),
        },
{
    if let Some(actual) = datatype {
        let expected = T::datatype();
        if actual != expected {
            return Err(ValueError::WrongDatatype { expected, actual });
        }
    }
    match format {
        Some(f) => T::valid_for_format(f.as_str()),
        None => Ok(()),
    }
}

impl Value for i64 {
    open spec fn spec_datatype() -> Datatype {
        Datatype::Integer
    }

    open spec fn spec_format_ok(format: Seq<char>) -> bool {
        true
    }

    open spec fn spec_parse(s: Seq<char>) -> Option<i64> {
        parse_i64_spec(s)
    }

    open spec fn spec_to_string(v: i64) -> Seq<char> {
        int_str(v as int)
    }

    fn datatype() -> (d: Datatype) {
        Datatype::Integer
    }

    fn valid_for_format(format: &str) -> (r: Result<(), ValueError>) {
        Ok(())
    }

    fn parse_value(s: &str) -> (r: Option<i64>) {
        parse_i64(s)
    }

    fn to_value_string(&self) -> (s: String) {
        let mut s = String::new();
        push_i64(&mut s, *self);
        s
    }
}

impl Value for bool {
    open spec fn spec_datatype() -> Datatype {
        Datatype::Boolean
    }

    open spec fn spec_format_ok(format: Seq<char>) -> bool {
        true
    }

    open spec fn spec_parse(s: Seq<char>) -> Option<bool> {
        if s == "true"@ {
            Some(true)
        } else if s == "false"@ {
            Some(false)
        } else {
            None
        }
    }

    open spec fn spec_to_string(v: bool) -> Seq<char> {
        if v { "true"@ } else { "false"@ }
    }

    fn datatype() -> (d: Datatype) {
        Datatype::Boolean
    }

    fn valid_for_format(format: &str) -> (r: Result<(), ValueError>) {
        Ok(())
    }

    fn parse_value(s: &str) -> (r: Option<bool>) {
        parse_bool(s)
    }

    fn to_value_string(&self) -> (s: String) {
        if *self { "true".to_owned() } else { "false".to_owned() }
    }
}

/// `str::parse::<bool>`: exactly "true" or "false".
pub fn parse_bool(s: &str) -> (r: Option<bool>)
    ensures
        r == <bool as Value>::spec_parse(s@),
{
    if str_eq(s, "true") {
        Some(true)
    } else if str_eq(s, "false") {
        Some(false)
    } else {
        None
    }
}

impl Value for String {
    open spec fn spec_datatype() -> Datatype {
        Datatype::String
    }

    open spec fn spec_format_ok(format: Seq<char>) -> bool {
        true
    }

    open spec fn spec_parse(s: Seq<char>) -> Option<Seq<char>> {
        Some(s)
    }

    open spec fn spec_to_string(v: Seq<char>) -> Seq<char> {
        v
    }

    fn datatype() -> (d: Datatype) {
        Datatype::String
    }

    fn valid_for_format(format: &str) -> (r: Result<(), ValueError>) {
        Ok(())
    }

    fn parse_value(s: &str) -> (r: Option<String>) {
        Some(s.to_owned())
    }

    fn to_value_string(&self) -> (s: String) {
        self.clone()
    }
}

/// A floating-point value of a property, kept as the decimal text that it was read from or
/// made from. The text is always in the syntax that Rust's `f64` parses, so that a reader can
/// take its number without fail.
#[derive(Debug, Eq, PartialEq)]
pub struct FloatValue {
    text: String,
}

impl Clone for FloatValue {
    fn clone(&self) -> (c: FloatValue)
        ensures
            c@ == self@,
    {
        proof { use_type_invariant(self); }
        FloatValue { text: self.text.clone() }
    }
}

impl View for FloatValue {
    type V = Seq<char>;

    closed spec fn view(&self) -> Seq<char> {
        self.text@
    }
}

impl FloatValue {
    /// The text of every value is a floating-point number.
    #[verifier::type_invariant]
    spec fn text_is_number(self) -> bool {
        float_syntax(self.text@)
    }

    /// The value written as `s`, if `s` is a floating-point number.
    pub fn from_text(s: &str) -> (r: Option<FloatValue>)
        ensures
            match r {
                Some(v) => float_syntax(s@) && v@ == s@,
                None => !float_syntax(s@),
            },
    {
        if is_float_text(s) {
            Some(FloatValue { text: s.to_owned() })
        } else {
            None
        }
    }

    /// The decimal text of the value, which is always a floating-point number.
    pub fn as_str(&self) -> (s: &str)
        ensures
            s@ == self@,
            float_syntax(s@),
    {
        proof { use_type_invariant(self); }
        self.text.as_str()
    }
}

impl Value for FloatValue {
    open spec fn spec_datatype() -> Datatype {
        Datatype::Float
    }

    open spec fn spec_format_ok(format: Seq<char>) -> bool {
        true
    }

    open spec fn spec_parse(s: Seq<char>) -> Option<Seq<char>> {
        if float_syntax(s) { Some(s) } else { None }
    }

    open spec fn spec_to_string(v: Seq<char>) -> Seq<char> {
        v
    }

    fn datatype() -> (d: Datatype) {
        Datatype::Float
    }

    fn valid_for_format(format: &str) -> (r: Result<(), ValueError>) {
        Ok(())
    }

    fn parse_value(s: &str) -> (r: Option<FloatValue>) {
        FloatValue::from_text(s)
    }

    fn to_value_string(&self) -> (s: String) {
        self.text.clone()
    }
}

/// The format of a colour property, either RGB or HSV.
#[derive(Copy, Clone, Debug, Eq, PartialEq, Structural)]
pub enum ColorFormat {
    /// The colour is in red-green-blue format.
    Rgb,
    /// The colour is in hue-saturation-value format.
    Hsv,
}

impl ColorFormat {
    pub open spec fn spec_as_str(self) -> Seq<char> {
        match self {
            ColorFormat::Rgb => "rgb"@,
            ColorFormat::Hsv => "hsv"@,
        }
    }

    /// The format as it is written in a property's `$format` attribute.
    pub fn as_str(&self) -> (s: &'static str)
        ensures
            s@ == self.spec_as_str(),
    {
        match self {
            ColorFormat::Rgb => "rgb",
            ColorFormat::Hsv => "hsv",
        }
    }

    /// The format as it is written in a property's `$format` attribute.
    pub fn to_string(&self) -> (s: String)
        ensures
            s@ == self.spec_as_str(),
    {
        self.as_str().to_owned()
    }

    /// The colour format that a format string names, if any.
    pub open spec fn spec_from_str(s: Seq<char>) -> Option<ColorFormat> {
        if s == "rgb"@ {
            Some(ColorFormat::Rgb)
        } else if s == "hsv"@ {
            Some(ColorFormat::Hsv)
        } else {
            None
        }
    }

    /// Parses a colour format: "rgb" or "hsv", else `WrongFormat`.
    pub fn from_text(s: &str) -> (r: Result<ColorFormat, ValueError>)
        ensures
            match r {
                Ok(f) => Self::spec_from_str(s@) == Some(f),
                Err(e) => Self::spec_from_str(s@) is None && e@ == (ValueErrorView::WrongFormat { format: s@ }),
            },
    {
        if str_eq(s, "rgb") {
            Ok(ColorFormat::Rgb)
        } else if str_eq(s, "hsv") {
            Ok(ColorFormat::Hsv)
        } else {
            Err(ValueError::WrongFormat { format: s.to_owned() })
        }
    }
}

impl std::str::FromStr for ColorFormat {
    type Err = ValueError;

    fn from_str(s: &str) -> (r: Result<ColorFormat, ValueError>)
        ensures
            match r {
                Ok(f) => ColorFormat::spec_from_str(s@) == Some(f),
                Err(e) => ColorFormat::spec_from_str(s@) is None && e@ == (ValueErrorView::WrongFormat { format: s@ }),
            },
    {
        ColorFormat::from_text(s)
    }
}

/// A colour type: its values are written in one of the colour formats.
pub trait Color: Value {
    spec fn spec_format() -> ColorFormat;

    /// The colour format of this type.
    fn format() -> (f: ColorFormat)
        ensures
            f == Self::spec_format(),
    ;
}

/// An error while attempting to parse a colour from a string.
#[derive(Clone, Copy, Debug, Eq, PartialEq)]
pub struct ParseColorError();

/// A colour in red-green-blue format.
#[derive(Clone, Copy, Debug, Eq, PartialEq, Structural)]
pub struct ColorRgb {
    /// The red channel of the colour, between 0 and 255.
    pub r: u8,
    /// The green channel of the colour, between 0 and 255.
    pub g: u8,
    /// The blue channel of the colour, between 0 and 255.
    pub b: u8,
}

impl View for ColorRgb {
    type V = ColorRgb;

    open spec fn view(&self) -> ColorRgb {
        *self
    }
}

/// Three numbers written in decimal, separated by commas.
pub open spec fn triple_str(a: nat, b: nat, c: nat) -> Seq<char> {
    dec_digits(a) + ","@ + dec_digits(b) + ","@ + dec_digits(c)
}

fn push_triple(a: u64, b: u64, c: u64) -> (s: String)
    ensures
        s@ == triple_str(a as nat, b as nat, c as nat),
{
    let mut s = String::new();
    push_u64(&mut s, a);
    s.append(",");
    push_u64(&mut s, b);
    s.append(",");
    push_u64(&mut s, c);
    s
}

impl ColorRgb {
    /// A new RGB colour.
    pub fn new(r: u8, g: u8, b: u8) -> (c: ColorRgb)
        ensures
            c == (ColorRgb { r, g, b }),
    {
        ColorRgb { r, g, b }
    }

    /// The colour that a string parses as: three comma-separated channels, each a `u8`.
    pub open spec fn spec_parse(s: Seq<char>) -> Option<ColorRgb> {
        let parts = split_spec(s, ',');
        if parts.len() == 3 {
            match (parse_u8_spec(parts[0]), parse_u8_spec(parts[1]), parse_u8_spec(parts[2])) {
                (Some(r), Some(g), Some(b)) => Some(ColorRgb { r, g, b }),
                _ => None,
            }
        } else {
            None
        }
    }

    /// Parses a colour written as "r,g,b".
    pub fn from_text(s: &str) -> (r: Result<ColorRgb, ParseColorError>)
        ensures
            match r {
                Ok(c) => Self::spec_parse(s@) == Some(c),
                Err(_) => Self::spec_parse(s@) is None,
            },
    {
        let parts = split_str(s, ',');
        if parts.len() == 3 {
            match (parse_u8(parts[0]), parse_u8(parts[1]), parse_u8(parts[2])) {
                (Some(r), Some(g), Some(b)) => Ok(ColorRgb { r, g, b }),
                _ => Err(ParseColorError()),
            }
        } else {
            Err(ParseColorError())
        }
    }

    /// The colour written as "r,g,b".
    pub fn to_string(&self) -> (s: String)
        ensures
            s@ == triple_str(self.r as nat, self.g as nat, self.b as nat),
    {
        push_triple(self.r as u64, self.g as u64, self.b as u64)
    }
}

impl std::str::FromStr for ColorRgb {
    type Err = ParseColorError;

    fn from_str(s: &str) -> (r: Result<ColorRgb, ParseColorError>)
        ensures
            match r {
                Ok(c) => ColorRgb::spec_parse(s@) == Some(c),
                Err(_) => ColorRgb::spec_parse(s@) is None,
            },
    {
        ColorRgb::from_text(s)
    }
}

impl Value for ColorRgb {
    open spec fn spec_datatype() -> Datatype {
        Datatype::Color
    }

    open spec fn spec_format_ok(format: Seq<char>) -> bool {
        format == "rgb"@
    }

    open spec fn spec_parse(s: Seq<char>) -> Option<ColorRgb> {
        ColorRgb::spec_parse(s)
    }

    open spec fn spec_to_string(v: ColorRgb) -> Seq<char> {
        triple_str(v.r as nat, v.g as nat, v.b as nat)
    }

    fn datatype() -> (d: Datatype) {
        Datatype::Color
    }

    fn valid_for_format(format: &str) -> (r: Result<(), ValueError>) {
        if str_eq(format, "rgb") {
            Ok(())
        } else {
            Err(ValueError::WrongFormat { format: format.to_owned() })
        }
    }

    fn parse_value(s: &str) -> (r: Option<ColorRgb>) {
        match ColorRgb::from_text(s) {
            Ok(c) => Some(c),
            Err(_) => None,
        }
    }

    fn to_value_string(&self) -> (s: String) {
        self.to_string()
    }
}

impl Color for ColorRgb {
    open spec fn spec_format() -> ColorFormat {
        ColorFormat::Rgb
    }

    fn format() -> (f: ColorFormat) {
        ColorFormat::Rgb
    }
}

/// A colour in hue-saturation-value format.
#[derive(Clone, Copy, Debug, Eq, PartialEq, Structural)]
pub struct ColorHsv {
    /// The hue of the colour, between 0 and 360.
    pub h: u16,
    /// The saturation of the colour, between 0 and 100.
    pub s: u8,
    /// The value of the colour, between 0 and 100.
    pub v: u8,
}

impl View for ColorHsv {
    type V = ColorHsv;

    open spec fn view(&self) -> ColorHsv {
        *self
    }
}

impl ColorHsv {
    /// A new HSV colour; the hue must be at most 360 and the saturation and value at most 100.
    pub fn new(h: u16, s: u8, v: u8) -> (c: ColorHsv)
        requires
            h <= 360,
            s <= 100,
            v <= 100,
        ensures
            c == (ColorHsv { h, s, v }),
    {
        ColorHsv { h, s, v }
    }

    /// The colour that a string parses as: three comma-separated numbers, the hue at most 360
    /// and the others at most 100.
    pub open spec fn spec_parse(s: Seq<char>) -> Option<ColorHsv> {
        let parts = split_spec(s, ',');
        if parts.len() == 3 {
            match (parse_u16_spec(parts[0]), parse_u8_spec(parts[1]), parse_u8_spec(parts[2])) {
                (Some(h), Some(s), Some(v)) => if h <= 360 && s <= 100 && v <= 100 {
                    Some(ColorHsv { h, s, v })
                } else {
                    None
                },
                _ => None,
            }
        } else {
            None
        }
    }

    /// Parses a colour written as "h,s,v".
    pub fn from_text(s: &str) -> (r: Result<ColorHsv, ParseColorError>)
        ensures
            match r {
                Ok(c) => Self::spec_parse(s@) == Some(c),
                Err(_) => Self::spec_parse(s@) is None,
            },
    {
        let parts = split_str(s, ',');
        if parts.len() == 3 {
            match (parse_u16(parts[0]), parse_u8(parts[1]), parse_u8(parts[2])) {
                (Some(h), Some(sat), Some(v)) => {
                    if h <= 360 && sat <= 100 && v <= 100 {
                        Ok(ColorHsv { h, s: sat, v })
                    } else {
                        Err(ParseColorError())
                    }
                },
                _ => Err(ParseColorError()),
            }
        } else {
            Err(ParseColorError())
        }
    }

    /// The colour written as "h,s,v".
    pub fn to_string(&self) -> (s: String)
        ensures
            s@ == triple_str(self.h as nat, self.s as nat, self.v as nat),
    {
        push_triple(self.h as u64, self.s as u64, self.v as u64)
    }
}

impl std::str::FromStr for ColorHsv {
    type Err = ParseColorError;

    fn from_str(s: &str) -> (r: Result<ColorHsv, ParseColorError>)
        ensures
            match r {
                Ok(c) => ColorHsv::spec_parse(s@) == Some(c),
                Err(_) => ColorHsv::spec_parse(s@) is None,
            },
    {
        ColorHsv::from_text(s)
    }
}

impl Value for ColorHsv {
    open spec fn spec_datatype() -> Datatype {
        Datatype::Color
    }

    open spec fn spec_format_ok(format: Seq<char>) -> bool {
        format == "hsv"@
    }

    open spec fn spec_parse(s: Seq<char>) -> Option<ColorHsv> {
        ColorHsv::spec_parse(s)
    }

    open spec fn spec_to_string(v: ColorHsv) -> Seq<char> {
        triple_str(v.h as nat, v.s as nat, v.v as nat)
    }

    fn datatype() -> (d: Datatype) {
        Datatype::Color
    }

    fn valid_for_format(format: &str) -> (r: Result<(), ValueError>) {
        if str_eq(format, "hsv") {
            Ok(())
        } else {
            Err(ValueError::WrongFormat { format: format.to_owned() })
        }
    }

    fn parse_value(s: &str) -> (r: Option<ColorHsv>) {
        match ColorHsv::from_text(s) {
            Ok(c) => Some(c),
            Err(_) => None,
        }
    }

    fn to_value_string(&self) -> (s: String) {
        self.to_string()
    }
}

impl Color for ColorHsv {
    open spec fn spec_format() -> ColorFormat {
        ColorFormat::Hsv
    }

    fn format() -> (f: ColorFormat) {
        ColorFormat::Hsv
    }
}

/// The value of a Homie enum property: a non-empty string.
#[derive(Clone, Debug, Eq, PartialEq, Hash)]
pub struct EnumValue(String);

impl View for EnumValue {
    type V = Seq<char>;

    closed spec fn view(&self) -> Seq<char> {
        self.0@
    }
}

/// An error while attempting to parse an `EnumValue` from a string, because the string is empty.
#[derive(Clone, Copy, Debug, Eq, PartialEq)]
pub struct ParseEnumError();

impl EnumValue {
    /// The enum value holding the given non-empty string.
    pub fn new(s: &str) -> (e: EnumValue)
        requires
            s@.len() > 0,
        ensures
            e@ == s@,
    {
        EnumValue(s.to_owned())
    }

    /// Parses an enum value: any non-empty string.
    pub fn from_text(s: &str) -> (r: Result<EnumValue, ParseEnumError>)
        ensures
            match r {
                Ok(e) => s@.len() > 0 && e@ == s@,
                Err(_) => s@.len() == 0,
            },
    {
        if s.is_empty() {
            Err(ParseEnumError())
        } else {
            Ok(EnumValue::new(s))
        }
    }

    /// The string of the enum value.
    pub fn as_str(&self) -> (s: &str)
        ensures
            s@ == self@,
    {
        self.0.as_str()
    }

    /// The string of the enum value.
    pub fn to_string(&self) -> (s: String)
        ensures
            s@ == self@,
    {
        self.0.clone()
    }
}

impl std::str::FromStr for EnumValue {
    type Err = ParseEnumError;

    fn from_str(s: &str) -> (r: Result<EnumValue, ParseEnumError>)
        ensures
            match r {
                Ok(e) => s@.len() > 0 && e@ == s@,
                Err(_) => s@.len() == 0,
            },
    {
        EnumValue::from_text(s)
    }
}

impl Value for EnumValue {
    open spec fn spec_datatype() -> Datatype {
        Datatype::Enum
    }

    open spec fn spec_format_ok(format: Seq<char>) -> bool {
        true
    }

    open spec fn spec_parse(s: Seq<char>) -> Option<Seq<char>> {
        if s.len() > 0 { Some(s) } else { None }
    }

    open spec fn spec_to_string(v: Seq<char>) -> Seq<char> {
        v
    }

    fn datatype() -> (d: Datatype) {
        Datatype::Enum
    }

    fn valid_for_format(format: &str) -> (r: Result<(), ValueError>) {
        Ok(())
    }

    fn parse_value(s: &str) -> (r: Option<EnumValue>) {
        match EnumValue::from_text(s) {
            Ok(e) => Some(e),
            Err(_) => None,
        }
    }

    fn to_value_string(&self) -> (s: String) {
        self.to_string()
    }
}


/// Three comma-separated decimal numbers split into their renderings.
proof fn lemma_split_triple(a: nat, b: nat, c: nat)
    ensures
        split_spec(triple_str(a, b, c), ',') == seq![dec_digits(a), dec_digits(b), dec_digits(c)],
{
    crate::text::lemma_digits_free(a, ',');
    crate::text::lemma_digits_free(b, ',');
    crate::text::lemma_digits_free(c, ',');
    reveal_strlit(",");
    let da = dec_digits(a);
    let db = dec_digits(b);
    let dc = dec_digits(c);
    assert(triple_str(a, b, c) =~= (da + seq![','] + db) + seq![','] + dc);
    crate::text::lemma_split_concat(da + seq![','] + db, dc, ',');
    crate::text::lemma_split_concat(da, db, ',');
    crate::text::lemma_split_free(da, ',');
    crate::text::lemma_split_free(db, ',');
    crate::text::lemma_split_free(dc, ',');
    assert(seq![da] + seq![db] + seq![dc] =~= seq![da, db, dc]);
}

/// Parsing an RGB colour written as a string gives it back.
pub proof fn lemma_rgb_roundtrip(c: ColorRgb)
    ensures
        ColorRgb::spec_parse(<ColorRgb as Value>::spec_to_string(c)) == Some(c),
{
    lemma_split_triple(c.r as nat, c.g as nat, c.b as nat);
    crate::text::lemma_parse_dec_digits(c.r as nat);
    crate::text::lemma_parse_dec_digits(c.g as nat);
    crate::text::lemma_parse_dec_digits(c.b as nat);
}

/// Parsing an HSV colour written as a string gives it back, when its channels are in range.
pub proof fn lemma_hsv_roundtrip(c: ColorHsv)
    requires
        c.h <= 360,
        c.s <= 100,
        c.v <= 100,
    ensures
        ColorHsv::spec_parse(<ColorHsv as Value>::spec_to_string(c)) == Some(c),
{
    lemma_split_triple(c.h as nat, c.s as nat, c.v as nat);
    crate::text::lemma_parse_dec_digits(c.h as nat);
    crate::text::lemma_parse_dec_digits(c.s as nat);
    crate::text::lemma_parse_dec_digits(c.v as nat);
}

/// Parsing an integer written as a string gives it back.
pub proof fn lemma_integer_roundtrip(i: i64)
    ensures
        <i64 as Value>::spec_parse(<i64 as Value>::spec_to_string(i)) == Some(i),
{
    crate::text::lemma_parse_int_str(i);
}

/// Parsing a floating-point value written as a string gives it back.
pub proof fn lemma_float_roundtrip(v: Seq<char>)
    requires
        float_syntax(v),
    ensures
        <FloatValue as Value>::spec_parse(<FloatValue as Value>::spec_to_string(v)) == Some(v),
{
}

/// Parsing a boolean written as a string gives it back.
pub proof fn lemma_boolean_roundtrip(b: bool)
    ensures
        <bool as Value>::spec_parse(<bool as Value>::spec_to_string(b)) == Some(b),
{
    reveal_strlit("true");
    reveal_strlit("false");
    assert("true"@.len() == 4);
    assert("false"@.len() == 5);
    assert("false"@ != "true"@);
}

} // verus!
