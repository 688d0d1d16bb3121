//! The typed property values a declaration can carry, and the parser that
//! turns a `(key, value)` string pair into one of them.

use vstd::prelude::*;
use vstd::string::StrSliceExecFns;
use crate::strutil::{
    spec_trim, trim_str, str_eq, spec_parse_number, parse_number, is_hex_digit, hex_val,
    hex_digit_val,
};

verus! {

/// Unit of a pixel-like size value.
#[derive(Clone, Copy, PartialEq, Eq, Structural, Debug)]
pub enum SizeMetric {
    Px,
    Pt,
    Em,
}

/// A size with an integral magnitude and a unit, e.g. `400px`.
#[derive(Clone, Copy, PartialEq, Eq, Structural, Debug)]
pub struct PixelValue {
    pub metric: SizeMetric,
    pub number: u32,
}

/// Horizontal text alignment.
#[derive(Clone, Copy, PartialEq, Eq, Structural, Debug)]
pub enum TextAlignmentHorz {
    Left,
    Center,
    Right,
}

/// An RGBA colour with 8-bit channels.
#[derive(Clone, Copy, PartialEq, Eq, Structural, Debug)]
pub struct ColorU {
    pub r: u8,
    pub g: u8,
    pub b: u8,
    pub a: u8,
}

/// One fully typed CSS property value.
#[derive(Clone, Copy, PartialEq, Eq, Structural, Debug)]
pub enum ParsedCssProperty {
    Width(PixelValue),
    Height(PixelValue),
    MinWidth(PixelValue),
    MinHeight(PixelValue),
    MaxWidth(PixelValue),
    MaxHeight(PixelValue),
    TextAlign(TextAlignmentHorz),
    TextColor(ColorU),
}

/// A value that does not belong to the key's grammar; holds the trimmed value text.
#[derive(Clone, PartialEq, Eq, Debug)]
pub struct InvalidValueErr(pub String);

/// Error from parsing one `(key, value)` pair.
#[derive(Clone, PartialEq, Eq, Debug)]
pub enum CssParsingError {
    /// The key is not a property this parser knows; holds the trimmed key text.
    UnsupportedProperty(String),
    /// The value does not parse for the given key.
    InvalidValueErr(InvalidValueErr),
}

/// Mathematical image of a `CssParsingError`.
pub enum CssParsingErrorModel {
    UnsupportedProperty(Seq<char>),
    InvalidValueErr(Seq<char>),
}

impl View for CssParsingError {
    type V = CssParsingErrorModel;

    open spec fn view(&self) -> CssParsingErrorModel {
        match self {
            CssParsingError::UnsupportedProperty(k) => CssParsingErrorModel::UnsupportedProperty(
                k@,
            ),
            CssParsingError::InvalidValueErr(v) => CssParsingErrorModel::InvalidValueErr(v.0@),
        }
    }
}

/// A pixel-like size: decimal digits directly followed by `px`, `pt` or `em`.
pub open spec fn spec_parse_pixel(v: Seq<char>) -> Option<PixelValue> {
    if v.len() < 3 {
        None
    } else {
        let digits = v.subrange(0, v.len() - 2);
        let metric = if v[v.len() - 2] == 'p' && v[v.len() - 1] == 'x' {
            Some(SizeMetric::Px)
        } else if v[v.len() - 2] == 'p' && v[v.len() - 1] == 't' {
            Some(SizeMetric::Pt)
        } else if v[v.len() - 2] == 'e' && v[v.len() - 1] == 'm' {
            Some(SizeMetric::Em)
        } else {
            None
        };
        match (metric, spec_parse_number(digits)) {
            (Some(m), Some(n)) => Some(PixelValue { metric: m, number: n }),
            _ => None,
        }
    }
}

/// A text alignment keyword.
pub open spec fn spec_parse_align(v: Seq<char>) -> Option<TextAlignmentHorz> {
    if v == "left"@ {
        Some(TextAlignmentHorz::Left)
    } else if v == "center"@ {
        Some(TextAlignmentHorz::Center)
    } else if v == "right"@ {
        Some(TextAlignmentHorz::Right)
    } else {
        None
    }
}

pub open spec fn all_hex_digits(v: Seq<char>) -> bool {
    forall|i: int| 0 <= i < v.len() ==> is_hex_digit(v[i])
}

/// A colour: a known name, or `#` followed by six hexadecimal digits.
pub open spec fn spec_parse_color(v: Seq<char>) -> Option<ColorU> {
    if v == "red"@ {
        Some(ColorU { r: 255, g: 0, b: 0, a: 255 })
    } else if v == "green"@ {
        Some(ColorU { r: 0, g: 128, b: 0, a: 255 })
    } else if v == "blue"@ {
        Some(ColorU { r: 0, g: 0, b: 255, a: 255 })
    } else if v == "black"@ {
        Some(ColorU { r: 0, g: 0, b: 0, a: 255 })
    } else if v == "white"@ {
        Some(ColorU { r: 255, g: 255, b: 255, a: 255 })
    } else if v.len() == 7 && v[0] == '#' && all_hex_digits(v.subrange(1, 7)) {
        Some(
            ColorU {
                r: (hex_val(v[1]) * 16 + hex_val(v[2])) as u8,
                g: (hex_val(v[3]) * 16 + hex_val(v[4])) as u8,
                b: (hex_val(v[5]) * 16 + hex_val(v[6])) as u8,
                a: 255,
            },
        )
    } else {
        None
    }
}

/// What `ParsedCssProperty::from_kv` returns: both the key and the value are
/// trimmed, the key selects the value grammar, and an unparsable value is an
/// `InvalidValueErr` holding the trimmed value text.
pub open spec fn spec_from_kv(key: Seq<char>, value: Seq<char>) -> Result<
    ParsedCssProperty,
    CssParsingErrorModel,
> {
    let k = spec_trim(key);
    let v = spec_trim(value);
    if k == "width"@ {
        spec_pixel_result(v, SizeKind::Width)
    } else if k == "height"@ {
        spec_pixel_result(v, SizeKind::Height)
    } else if k == "min-width"@ {
        spec_pixel_result(v, SizeKind::MinWidth)
    } else if k == "min-height"@ {
        spec_pixel_result(v, SizeKind::MinHeight)
    } else if k == "max-width"@ {
        spec_pixel_result(v, SizeKind::MaxWidth)
    } else if k == "max-height"@ {
        spec_pixel_result(v, SizeKind::MaxHeight)
    } else if k == "text-align"@ {
        match spec_parse_align(v) {
            Some(a) => Ok(ParsedCssProperty::TextAlign(a)),
            None => Err(CssParsingErrorModel::InvalidValueErr(v)),
        }
    } else if k == "color"@ {
        match spec_parse_color(v) {
            Some(c) => Ok(ParsedCssProperty::TextColor(c)),
            None => Err(CssParsingErrorModel::InvalidValueErr(v)),
        }
    } else {
        Err(CssParsingErrorModel::UnsupportedProperty(k))
    }
}

/// Which size property a pixel value belongs to.
pub enum SizeKind {
    Width,
    Height,
    MinWidth,
    MinHeight,
    MaxWidth,
    MaxHeight,
}

pub open spec fn spec_size_property(kind: SizeKind, p: PixelValue) -> ParsedCssProperty {
    match kind {
        SizeKind::Width => ParsedCssProperty::Width(p),
        SizeKind::Height => ParsedCssProperty::Height(p),
        SizeKind::MinWidth => ParsedCssProperty::MinWidth(p),
        SizeKind::MinHeight => ParsedCssProperty::MinHeight(p),
        SizeKind::MaxWidth => ParsedCssProperty::MaxWidth(p),
        SizeKind::MaxHeight => ParsedCssProperty::MaxHeight(p),
    }
}

pub open spec fn spec_pixel_result(v: Seq<char>, kind: SizeKind) -> Result<
    ParsedCssProperty,
    CssParsingErrorModel,
> {
    match spec_parse_pixel(v) {
        Some(p) => Ok(spec_size_property(kind, p)),
        None => Err(CssParsingErrorModel::InvalidValueErr(v)),
    }
}

/// `r` is the executable image of the specification result `s`.
pub open spec fn parse_res_models(
    r: Result<ParsedCssProperty, CssParsingError>,
    s: Result<ParsedCssProperty, CssParsingErrorModel>,
) -> bool {
    match (r, s) {
        (Ok(p), Ok(q)) => p == q,
        (Err(e), Err(f)) => e@ == f,
        _ => false,
    }
}

/// Parses a trimmed value as a pixel size, per `spec_parse_pixel`.
fn parse_pixel(v: &str) -> (r: Option<PixelValue>)
    ensures
        r == spec_parse_pixel(v@),
{
    let n: usize = v.unicode_len();
    if n < 3 {
        return None;
    }
    let c1 = v.get_char(n - 2);
    let c2 = v.get_char(n - 1);
    let metric_opt: Option<SizeMetric> = if c1 == 'p' && c2 == 'x' {
        Some(SizeMetric::Px)
    } else if c1 == 'p' && c2 == 't' {
        Some(SizeMetric::Pt)
    } else if c1 == 'e' && c2 == 'm' {
        Some(SizeMetric::Em)
    } else {
        None
    };
    let digits = v.substring_char(0, n - 2);
    let number_opt = parse_number(digits);
    match (metric_opt, number_opt) {
        (Some(m), Some(num)) => Some(PixelValue { metric: m, number: num }),
        _ => None,
    }
}

/// Parses a trimmed value as an alignment keyword, per `spec_parse_align`.
fn parse_align(v: &str) -> (r: Option<TextAlignmentHorz>)
    ensures
        r == spec_parse_align(v@),
{
    if str_eq(v, "left") {
        Some(TextAlignmentHorz::Left)
    } else if str_eq(v, "center") {
        Some(TextAlignmentHorz::Center)
    } else if str_eq(v, "right") {
        Some(TextAlignmentHorz::Right)
    } else {
        None
    }
}

/// Parses a trimmed value as a colour, per `spec_parse_color`.
fn parse_color(v: &str) -> (r: Option<ColorU>)
    ensures
        r == spec_parse_color(v@),
{
    if str_eq(v, "red") {
        Some(ColorU { r: 255, g: 0, b: 0, a: 255 })
    } else if str_eq(v, "green") {
        Some(ColorU { r: 0, g: 128, b: 0, a: 255 })
    } else if str_eq(v, "blue") {
        Some(ColorU { r: 0, g: 0, b: 255, a: 255 })
    } else if str_eq(v, "black") {
        Some(ColorU { r: 0, g: 0, b: 0, a: 255 })
    } else if str_eq(v, "white") {
        Some(ColorU { r: 255, g: 255, b: 255, a: 255 })
    } else {
        let n: usize = v.unicode_len();
        if n == 7 && v.get_char(0) == '#' {
            let h1 = hex_digit_val(v.get_char(1));
            let h2 = hex_digit_val(v.get_char(2));
            let h3 = hex_digit_val(v.get_char(3));
            let h4 = hex_digit_val(v.get_char(4));
            let h5 = hex_digit_val(v.get_char(5));
            let h6 = hex_digit_val(v.get_char(6));
            match (h1, h2, h3, h4, h5, h6) {
                (Some(a), Some(b), Some(c), Some(d), Some(e), Some(f)) => {
                    proof {
                        let sub = v@.subrange(1, 7);
                        assert(forall|i: int| 0 <= i < 6 ==> sub[i] == v@[i + 1]);
                        assert(all_hex_digits(sub));
                    }
                    Some(
                        ColorU {
                            r: a * 16 + b,
                            g: c * 16 + d,
                            b: e * 16 + f,
                            a: 255,
                        },
                    )
                },
                _ => {
                    proof {
                        let sub = v@.subrange(1, 7);
                        if all_hex_digits(sub) {
                            assert(is_hex_digit(v@[1]) && is_hex_digit(v@[2]) && is_hex_digit(
                                v@[3],
                            ) && is_hex_digit(v@[4]) && is_hex_digit(v@[5]) && is_hex_digit(
                                v@[6],
                            )) by {
                                assert(sub[0] == v@[1] && sub[1] == v@[2] && sub[2] == v@[3]
                                    && sub[3] == v@[4] && sub[4] == v@[5] && sub[5] == v@[6]);
                            }
                        }
                    }
                    None
                },
            }
        } else {
            None
        }
    }
}

impl ParsedCssProperty {
    /// Parses a `(key, value)` string pair into a typed property value.
    pub fn from_kv(key: &str, value: &str) -> (r: Result<ParsedCssProperty, CssParsingError>)
        ensures
            parse_res_models(r, spec_from_kv(key@, value@)),
    {
        let k = trim_str(key);
        let v = trim_str(value);
        if str_eq(k, "width") {
            pixel_result(v, SizeKind::Width)
        } else if str_eq(k, "height") {
            pixel_result(v, SizeKind::Height)
        } else if str_eq(k, "min-width") {
            pixel_result(v, SizeKind::MinWidth)
        } else if str_eq(k, "min-height") {
            pixel_result(v, SizeKind::MinHeight)
        } else if str_eq(k, "max-width") {
            pixel_result(v, SizeKind::MaxWidth)
        } else if str_eq(k, "max-height") {
            pixel_result(v, SizeKind::MaxHeight)
        } else if str_eq(k, "text-align") {
            match parse_align(v) {
                Some(a) => Ok(ParsedCssProperty::TextAlign(a)),
                None => Err(
                    CssParsingError::InvalidValueErr(InvalidValueErr(v.to_owned())),
                ),
            }
        } else if str_eq(k, "color") {
            match parse_color(v) {
                Some(c) => Ok(ParsedCssProperty::TextColor(c)),
                None => Err(
                    CssParsingError::InvalidValueErr(InvalidValueErr(v.to_owned())),
                ),
            }
        } else {
            Err(CssParsingError::UnsupportedProperty(k.to_owned()))
        }
    }

    /// Whether this property kind is inherited by child elements.
    pub open spec fn spec_is_inheritable(self) -> bool {
        match self {
            ParsedCssProperty::TextAlign(_) => true,
            ParsedCssProperty::TextColor(_) => true,
            _ => false,
        }
    }

    /// Whether this property kind is inherited by child elements.
    pub fn is_inheritable(&self) -> (r: bool)
        ensures
            r == self.spec_is_inheritable(),
    {
        match self {
            ParsedCssProperty::TextAlign(_) => true,
            ParsedCssProperty::TextColor(_) => true,
            _ => false,
        }
    }
}

/// A pair whose value trims to the empty string never parses.
pub proof fn lemma_from_kv_empty_value(key: Seq<char>, value: Seq<char>)
    requires
        spec_trim(value).len() == 0,
    ensures
        spec_from_kv(key, value) is Err,
{
    reveal_strlit("left");
    reveal_strlit("center");
    reveal_strlit("right");
    reveal_strlit("red");
    reveal_strlit("green");
    reveal_strlit("blue");
    reveal_strlit("black");
    reveal_strlit("white");
}

/// Maps a pixel parse of `v` onto the size property `kind`.
fn pixel_result(v: &str, kind: SizeKind) -> (r: Result<ParsedCssProperty, CssParsingError>)
    ensures
        parse_res_models(r, spec_pixel_result(v@, kind)),
{
    match parse_pixel(v) {
        Some(p) => Ok(
            match kind {
                SizeKind::Width => ParsedCssProperty::Width(p),
                SizeKind::Height => ParsedCssProperty::Height(p),
                SizeKind::MinWidth => ParsedCssProperty::MinWidth(p),
                SizeKind::MinHeight => ParsedCssProperty::MinHeight(p),
                SizeKind::MaxWidth => ParsedCssProperty::MaxWidth(p),
                SizeKind::MaxHeight => ParsedCssProperty::MaxHeight(p),
            },
        ),
        None => Err(CssParsingError::InvalidValueErr(InvalidValueErr(v.to_owned()))),
    }
}

} // verus!
