//! Readers for single fields: numbers with an optional percent sign,
//! keywords of the closed sets, bracketed names, quoted paths, colours,
//! effects and links.
//!
//! Each reader takes one field as it stands between two separators and
//! trims it itself. A reader that can fail is told which directive and which
//! field it reads, and puts both into the error.

use vstd::prelude::*;
use crate::directive::Directive;
use crate::error::{ParseError, ParseErrorView};
use crate::model::{
    BorderType, Color, Effect, HorizontalAlign, Link, LinkView, Numeric, Orientation, Unit,
    VerticalAlign,
};
use crate::number::{decimal_text, i32_of, parse_i32, parse_u32, parse_u8, push_decimal, u32_of, u8_of};
use crate::text::{
    is_text, lowercase, lowercase_string, pieces, split, string_of, strip_prefix, strip_suffix,
    strip_surrounding, trim, trimmed, without_prefix, without_suffix, without_surrounding,
};

verus! {

/// The error for a number field that holds `token`.
pub open spec fn malformed_number(directive: Directive, field: nat, token: Seq<char>)
    -> ParseErrorView {
    ParseErrorView::MalformedNumber { directive, field, text: trimmed(token) }
}

/// The error for a keyword field that holds `token`.
pub open spec fn unknown_value(directive: Directive, field: nat, token: Seq<char>)
    -> ParseErrorView {
    ParseErrorView::UnknownEnumValue { directive, field, value: trimmed(token) }
}

/// The value of a numeric field. The trimmed field is a percentage exactly
/// if it ends with `%`; what stands before that one `%`, or else the whole
/// trimmed field, must be an `i32` literal.
pub open spec fn numeric_of(token: Seq<char>) -> Option<Numeric> {
    let t = trimmed(token);
    if t.len() > 0 && t.last() == '%' {
        match i32_of(t.drop_last()) {
            Some(v) => Some(Numeric::Percentage(v)),
            None => None,
        }
    } else {
        match i32_of(t) {
            Some(v) => Some(Numeric::Absolute(v)),
            None => None,
        }
    }
}

/// The text of a numeric value: the shortest literal for its number,
/// followed by `%` for a percentage.
pub open spec fn numeric_text(n: Numeric) -> Seq<char> {
    match n {
        Numeric::Absolute(v) => decimal_text(v as int),
        Numeric::Percentage(v) => decimal_text(v as int).push('%'),
    }
}

/// The name in a bracketed field: the trimmed field without one leading `[`
/// and without one trailing `]`, where they are present.
pub open spec fn name_of(token: Seq<char>) -> Seq<char> {
    without_suffix(without_prefix(trimmed(token), '['), ']')
}

/// The path in a quoted field: the trimmed field without the `"` characters
/// at its two ends.
pub open spec fn path_of(token: Seq<char>) -> Seq<char> {
    without_surrounding(trimmed(token), '"')
}

/// A colour or effect field in its stored form: trimmed, then in lowercase.
pub open spec fn lowered(token: Seq<char>) -> Seq<char> {
    lowercase(trimmed(token))
}

/// The text of a link field that is split into file and sheet: the trimmed
/// field without one `"` at its start and without one at its end, where they
/// are present.
pub open spec fn link_body(token: Seq<char>) -> Seq<char> {
    without_suffix(without_prefix(trimmed(token), '"'), '"')
}

/// The link in a field: the body of the field is split on `!`. Two parts are the file and the sheet. With any other
/// number of parts the first is the file and no sheet is named.
pub open spec fn link_of(token: Seq<char>) -> LinkView {
    let parts = pieces(link_body(token), '!');
    if parts.len() == 2 {
        LinkView { file: parts[0], sheet: Some(parts[1]) }
    } else {
        LinkView { file: parts[0], sheet: None }
    }
}

/// The unit that `word` names.
pub open spec fn unit_named(word: Seq<char>) -> Option<Unit> {
    if word == "MM"@ {
        Some(Unit::MM)
    } else if word == "SM"@ {
        Some(Unit::SM)
    } else if word == "DM"@ {
        Some(Unit::DM)
    } else {
        None
    }
}

/// The orientation that `word` names.
pub open spec fn orientation_named(word: Seq<char>) -> Option<Orientation> {
    if word == "PORTRAIT"@ {
        Some(Orientation::Portrait)
    } else if word == "ALBUM"@ {
        Some(Orientation::Album)
    } else {
        None
    }
}

/// The border type that `word` names.
pub open spec fn border_type_named(word: Seq<char>) -> Option<BorderType> {
    if word == "RECTANGLE"@ {
        Some(BorderType::Rectangle)
    } else if word == "ROUNDED"@ {
        Some(BorderType::Rounded)
    } else {
        None
    }
}

/// The horizontal alignment that `word` names.
pub open spec fn horizontal_align_named(word: Seq<char>) -> Option<HorizontalAlign> {
    if word == "LEFT"@ {
        Some(HorizontalAlign::Left)
    } else if word == "CENTER"@ {
        Some(HorizontalAlign::Center)
    } else if word == "RIGHT"@ {
        Some(HorizontalAlign::Right)
    } else {
        None
    }
}

/// The vertical alignment that `word` names.
pub open spec fn vertical_align_named(word: Seq<char>) -> Option<VerticalAlign> {
    if word == "TOP"@ {
        Some(VerticalAlign::Top)
    } else if word == "CENTER"@ {
        Some(VerticalAlign::Center)
    } else if word == "BOTTOM"@ {
        Some(VerticalAlign::Bottom)
    } else if word == "WWTOP"@ {
        Some(VerticalAlign::WwTop)
    } else if word == "WWCENTER"@ {
        Some(VerticalAlign::WwCenter)
    } else if word == "WWBOTTOM"@ {
        Some(VerticalAlign::WwBottom)
    } else {
        None
    }
}

/// Reads a numeric field: an integer, or an integer followed by `%`.
pub fn parse_numeric_value(value: &[char], directive: Directive, field: usize) -> (r: Result<
    Numeric,
    ParseError,
>)
    ensures
        match r {
            Ok(n) => numeric_of(value@) == Some(n),
            Err(e) => numeric_of(value@) is None && e@ == malformed_number(
                directive,
                field as nat,
                value@,
            ),
        },
{
    let t = trim(value);
    let parsed = if t.len() > 0 && t[t.len() - 1] == '%' {
        match parse_i32(strip_suffix(t, '%')) {
            Some(v) => Some(Numeric::Percentage(v)),
            None => None,
        }
    } else {
        match parse_i32(t) {
            Some(v) => Some(Numeric::Absolute(v)),
            None => None,
        }
    };
    match parsed {
        Some(n) => Ok(n),
        None => Err(ParseError::MalformedNumber { directive, field, text: string_of(t) }),
    }
}

/// Reads a field that holds an `i32`.
pub fn parse_i32_field(value: &[char], directive: Directive, field: usize) -> (r: Result<
    i32,
    ParseError,
>)
    ensures
        match r {
            Ok(v) => i32_of(trimmed(value@)) == Some(v),
            Err(e) => i32_of(trimmed(value@)) is None && e@ == malformed_number(
                directive,
                field as nat,
                value@,
            ),
        },
{
    let t = trim(value);
    match parse_i32(t) {
        Some(v) => Ok(v),
        None => Err(ParseError::MalformedNumber { directive, field, text: string_of(t) }),
    }
}

/// Reads a field that holds a `u32`.
pub fn parse_u32_field(value: &[char], directive: Directive, field: usize) -> (r: Result<
    u32,
    ParseError,
>)
    ensures
        match r {
            Ok(v) => u32_of(trimmed(value@)) == Some(v),
            Err(e) => u32_of(trimmed(value@)) is None && e@ == malformed_number(
                directive,
                field as nat,
                value@,
            ),
        },
{
    let t = trim(value);
    match parse_u32(t) {
        Some(v) => Ok(v),
        None => Err(ParseError::MalformedNumber { directive, field, text: string_of(t) }),
    }
}

/// Reads a field that holds a `u8`.
pub fn parse_u8_field(value: &[char], directive: Directive, field: usize) -> (r: Result<
    u8,
    ParseError,
>)
    ensures
        match r {
            Ok(v) => u8_of(trimmed(value@)) == Some(v),
            Err(e) => u8_of(trimmed(value@)) is None && e@ == malformed_number(
                directive,
                field as nat,
                value@,
            ),
        },
{
    let t = trim(value);
    match parse_u8(t) {
        Some(v) => Ok(v),
        None => Err(ParseError::MalformedNumber { directive, field, text: string_of(t) }),
    }
}

/// Writes a numeric value as text that `parse_numeric_value` reads back.
pub fn format_numeric(n: &Numeric) -> (s: String)
    ensures
        s@ == numeric_text(*n),
{
    let mut out: Vec<char> = Vec::new();
    match n {
        Numeric::Absolute(v) => {
            push_decimal(&mut out, *v);
            assert(out@ =~= decimal_text(*v as int));
        },
        Numeric::Percentage(v) => {
            push_decimal(&mut out, *v);
            assert(out@ =~= decimal_text(*v as int));
            out.push('%');
        },
    }
    string_of(out.as_slice())
}

/// Reads a bracketed name such as `[NAME]`. Brackets that are missing are
/// not an error.
pub fn parse_name(value: &[char]) -> (name: String)
    ensures
        name@ == name_of(value@),
{
    string_of(strip_suffix(strip_prefix(trim(value), '['), ']'))
}

/// Reads a quoted path such as `"1-{(NAME)}"`. Quotes that are missing are
/// not an error.
pub fn parse_quoted_path(value: &[char]) -> (path: String)
    ensures
        path@ == path_of(value@),
{
    string_of(strip_surrounding(trim(value), '"'))
}

/// Reads a colour.
pub fn parse_color(value: &[char]) -> (color: Color)
    ensures
        color@ == lowered(value@),
{
    Color(lowercase_string(trim(value)))
}

/// Reads a text-style tag.
pub fn parse_effect(value: &[char]) -> (effect: Effect)
    ensures
        effect@ == lowered(value@),
{
    Effect(lowercase_string(trim(value)))
}

/// Reads a link: a file, and after `!` a sheet if there is one.
pub fn parse_link(value: &[char]) -> (link: Link)
    ensures
        link@ == link_of(value@),
{
    let body = strip_suffix(strip_prefix(trim(value), '"'), '"');
    let parts = split(body, '!');
    let file = string_of(parts[0]);
    let sheet = if parts.len() == 2 {
        Some(string_of(parts[1]))
    } else {
        None
    };
    Link { file, sheet }
}

/// Reads a unit of measurement.
pub fn parse_unit(value: &[char], directive: Directive, field: usize) -> (r: Result<
    Unit,
    ParseError,
>)
    ensures
        match r {
            Ok(u) => unit_named(trimmed(value@)) == Some(u),
            Err(e) => unit_named(trimmed(value@)) is None && e@ == unknown_value(
                directive,
                field as nat,
                value@,
            ),
        },
{
    let t = trim(value);
    if is_text(t, "MM") {
        Ok(Unit::MM)
    } else if is_text(t, "SM") {
        Ok(Unit::SM)
    } else if is_text(t, "DM") {
        Ok(Unit::DM)
    } else {
        Err(ParseError::UnknownEnumValue { directive, field, value: string_of(t) })
    }
}

/// Reads a page orientation.
pub fn parse_orientation(value: &[char], directive: Directive, field: usize) -> (r: Result<
    Orientation,
    ParseError,
>)
    ensures
        match r {
            Ok(o) => orientation_named(trimmed(value@)) == Some(o),
            Err(e) => orientation_named(trimmed(value@)) is None && e@ == unknown_value(
                directive,
                field as nat,
                value@,
            ),
        },
{
    let t = trim(value);
    if is_text(t, "PORTRAIT") {
        Ok(Orientation::Portrait)
    } else if is_text(t, "ALBUM") {
        Ok(Orientation::Album)
    } else {
        Err(ParseError::UnknownEnumValue { directive, field, value: string_of(t) })
    }
}

/// Reads a border type.
pub fn parse_border_type(value: &[char], directive: Directive, field: usize) -> (r: Result<
    BorderType,
    ParseError,
>)
    ensures
        match r {
            Ok(b) => border_type_named(trimmed(value@)) == Some(b),
            Err(e) => border_type_named(trimmed(value@)) is None && e@ == unknown_value(
                directive,
                field as nat,
                value@,
            ),
        },
{
    let t = trim(value);
    if is_text(t, "RECTANGLE") {
        Ok(BorderType::Rectangle)
    } else if is_text(t, "ROUNDED") {
        Ok(BorderType::Rounded)
    } else {
        Err(ParseError::UnknownEnumValue { directive, field, value: string_of(t) })
    }
}

/// Reads a horizontal alignment.
pub fn parse_horizontal_align(value: &[char], directive: Directive, field: usize) -> (r: Result<
    HorizontalAlign,
    ParseError,
>)
    ensures
        match r {
            Ok(a) => horizontal_align_named(trimmed(value@)) == Some(a),
            Err(e) => horizontal_align_named(trimmed(value@)) is None && e@ == unknown_value(
                directive,
                field as nat,
                value@,
            ),
        },
{
    let t = trim(value);
    if is_text(t, "LEFT") {
        Ok(HorizontalAlign::Left)
    } else if is_text(t, "CENTER") {
        Ok(HorizontalAlign::Center)
    } else if is_text(t, "RIGHT") {
        Ok(HorizontalAlign::Right)
    } else {
        Err(ParseError::UnknownEnumValue { directive, field, value: string_of(t) })
    }
}

/// Reads a vertical alignment.
pub fn parse_vertical_align(value: &[char], directive: Directive, field: usize) -> (r: Result<
    VerticalAlign,
    ParseError,
>)
    ensures
        match r {
            Ok(a) => vertical_align_named(trimmed(value@)) == Some(a),
            Err(e) => vertical_align_named(trimmed(value@)) is None && e@ == unknown_value(
                directive,
                field as nat,
                value@,
            ),
        },
{
    let t = trim(value);
    if is_text(t, "TOP") {
        Ok(VerticalAlign::Top)
    } else if is_text(t, "CENTER") {
        Ok(VerticalAlign::Center)
    } else if is_text(t, "BOTTOM") {
        Ok(VerticalAlign::Bottom)
    } else if is_text(t, "WWTOP") {
        Ok(VerticalAlign::WwTop)
    } else if is_text(t, "WWCENTER") {
        Ok(VerticalAlign::WwCenter)
    } else if is_text(t, "WWBOTTOM") {
        Ok(VerticalAlign::WwBottom)
    } else {
        Err(ParseError::UnknownEnumValue { directive, field, value: string_of(t) })
    }
}

} // verus!
