//! One reader per directive. Each takes the payload of a line, which is
//! what stands after the `=`, splits it on `,` and reads the fields at
//! their fixed positions.
//!
//! A payload with too few fields is reported before any field is read; then
//! the first field, from the left, that cannot be read. Fields beyond those
//! that a directive takes are ignored.

use vstd::prelude::*;
use crate::directive::Directive;
use crate::error::{ParseError, ParseErrorView};
use crate::model::{
    Border, BorderView, Color, Command, CommandView, Image, ImageView, Page, TextFont,
    TextFontView, Visual,
};
use crate::number::{i32_of, u32_of, u8_of};
use crate::text::{pieces, split, string_of, texts, trim, trimmed};
use crate::value::{
    border_type_named, horizontal_align_named, link_of, lowered, malformed_number, name_of,
    numeric_of, orientation_named, parse_border_type, parse_color, parse_effect,
    parse_horizontal_align, parse_i32_field, parse_link, parse_name, parse_numeric_value,
    parse_orientation, parse_quoted_path, parse_u32_field, parse_u8_field, parse_unit,
    parse_vertical_align, path_of, unit_named, unknown_value, vertical_align_named,
};

verus! {

/// The error for a payload of `actual` fields that is too short for
/// `directive`.
pub open spec fn missing_field(directive: Directive, actual: nat) -> ParseErrorView {
    ParseErrorView::MissingField {
        directive,
        expected_count: directive.required_fields(),
        actual_count: actual,
    }
}

/// The colour of a text for which none is given.
pub open spec fn default_color() -> Seq<char> {
    "black"@
}

/// `LINKMULTI`: the payload itself, unread.
pub open spec fn linkmulti_command(payload: Seq<char>) -> CommandView {
    CommandView::LinkMulti(payload)
}

/// `LINK`: the link in the first field.
pub open spec fn link_command(payload: Seq<char>) -> CommandView {
    CommandView::Link(link_of(pieces(payload, ',')[0]))
}

/// `UNIT`: the unit that the first field names.
pub open spec fn unit_command(payload: Seq<char>) -> Result<CommandView, ParseErrorView> {
    let f = pieces(payload, ',');
    match unit_named(trimmed(f[0])) {
        Some(unit) => Ok(CommandView::Unit(unit)),
        None => Err(unknown_value(Directive::Unit, 0, f[0])),
    }
}

/// `PAGE`: width, height, orientation.
pub open spec fn page_command(payload: Seq<char>) -> Result<CommandView, ParseErrorView> {
    let f = pieces(payload, ',');
    if f.len() < 3 {
        Err(missing_field(Directive::Page, f.len()))
    } else if u32_of(trimmed(f[0])) is None {
        Err(malformed_number(Directive::Page, 0, f[0]))
    } else if u32_of(trimmed(f[1])) is None {
        Err(malformed_number(Directive::Page, 1, f[1]))
    } else if orientation_named(trimmed(f[2])) is None {
        Err(unknown_value(Directive::Page, 2, f[2]))
    } else {
        Ok(
            CommandView::Page(
                Page {
                    width: u32_of(trimmed(f[0])).unwrap(),
                    height: u32_of(trimmed(f[1])).unwrap(),
                    orientation: orientation_named(trimmed(f[2])).unwrap(),
                },
            ),
        )
    }
}

/// `BORDER`: type, colour, size.
pub open spec fn border_command(payload: Seq<char>) -> Result<CommandView, ParseErrorView> {
    let f = pieces(payload, ',');
    if f.len() < 3 {
        Err(missing_field(Directive::Border, f.len()))
    } else if border_type_named(trimmed(f[0])) is None {
        Err(unknown_value(Directive::Border, 0, f[0]))
    } else if u8_of(trimmed(f[2])) is None {
        Err(malformed_number(Directive::Border, 2, f[2]))
    } else {
        Ok(
            CommandView::Border(
                BorderView {
                    border_type: border_type_named(trimmed(f[0])).unwrap(),
                    color: lowered(f[1]),
                    size: u8_of(trimmed(f[2])).unwrap(),
                },
            ),
        )
    }
}

/// `VISUAL`: a first field that is not read, then the horizontal and the
/// vertical step.
pub open spec fn visual_command(payload: Seq<char>) -> Result<CommandView, ParseErrorView> {
    let f = pieces(payload, ',');
    if f.len() < 3 {
        Err(missing_field(Directive::Visual, f.len()))
    } else if u32_of(trimmed(f[1])) is None {
        Err(malformed_number(Directive::Visual, 1, f[1]))
    } else if u32_of(trimmed(f[2])) is None {
        Err(malformed_number(Directive::Visual, 2, f[2]))
    } else {
        Ok(
            CommandView::Visual(
                Visual {
                    horizontal_step: u32_of(trimmed(f[1])).unwrap(),
                    vertical_step: u32_of(trimmed(f[2])).unwrap(),
                },
            ),
        )
    }
}

/// `IMAGE`: path, name, left, top, width, height.
pub open spec fn image_command(payload: Seq<char>) -> Result<CommandView, ParseErrorView> {
    let f = pieces(payload, ',');
    if f.len() < 6 {
        Err(missing_field(Directive::Image, f.len()))
    } else if numeric_of(f[2]) is None {
        Err(malformed_number(Directive::Image, 2, f[2]))
    } else if numeric_of(f[3]) is None {
        Err(malformed_number(Directive::Image, 3, f[3]))
    } else if numeric_of(f[4]) is None {
        Err(malformed_number(Directive::Image, 4, f[4]))
    } else if numeric_of(f[5]) is None {
        Err(malformed_number(Directive::Image, 5, f[5]))
    } else {
        Ok(
            CommandView::Image(
                ImageView {
                    col_path: path_of(f[0]),
                    name: name_of(f[1]),
                    left: numeric_of(f[2]).unwrap(),
                    top: numeric_of(f[3]).unwrap(),
                    width: numeric_of(f[4]).unwrap(),
                    height: numeric_of(f[5]).unwrap(),
                },
            ),
        )
    }
}

/// The colour of a `TEXTFONT` with the fields `f`: the fourteenth field if
/// there is one, else the default.
pub open spec fn textfont_color(f: Seq<Seq<char>>) -> Seq<char> {
    if f.len() > 13 {
        lowered(f[13])
    } else {
        default_color()
    }
}

/// `TEXTFONT`: path, name, left, top, width, height, horizontal and
/// vertical alignment, rotation, alpha, font name, font size, effect, and a
/// colour that may be left out.
pub open spec fn textfont_command(payload: Seq<char>) -> Result<CommandView, ParseErrorView> {
    let f = pieces(payload, ',');
    if f.len() < 13 {
        Err(missing_field(Directive::TextFont, f.len()))
    } else if numeric_of(f[2]) is None {
        Err(malformed_number(Directive::TextFont, 2, f[2]))
    } else if numeric_of(f[3]) is None {
        Err(malformed_number(Directive::TextFont, 3, f[3]))
    } else if numeric_of(f[4]) is None {
        Err(malformed_number(Directive::TextFont, 4, f[4]))
    } else if numeric_of(f[5]) is None {
        Err(malformed_number(Directive::TextFont, 5, f[5]))
    } else if horizontal_align_named(trimmed(f[6])) is None {
        Err(unknown_value(Directive::TextFont, 6, f[6]))
    } else if vertical_align_named(trimmed(f[7])) is None {
        Err(unknown_value(Directive::TextFont, 7, f[7]))
    } else if i32_of(trimmed(f[8])) is None {
        Err(malformed_number(Directive::TextFont, 8, f[8]))
    } else if u32_of(trimmed(f[9])) is None {
        Err(malformed_number(Directive::TextFont, 9, f[9]))
    } else if u8_of(trimmed(f[11])) is None {
        Err(malformed_number(Directive::TextFont, 11, f[11]))
    } else {
        Ok(
            CommandView::TextFont(
                TextFontView {
                    col_path: path_of(f[0]),
                    name: name_of(f[1]),
                    left: numeric_of(f[2]).unwrap(),
                    top: numeric_of(f[3]).unwrap(),
                    width: numeric_of(f[4]).unwrap(),
                    height: numeric_of(f[5]).unwrap(),
                    horizontal_align: horizontal_align_named(trimmed(f[6])).unwrap(),
                    vertical_align: vertical_align_named(trimmed(f[7])).unwrap(),
                    rotation: i32_of(trimmed(f[8])).unwrap(),
                    alpha: u32_of(trimmed(f[9])).unwrap(),
                    font_name: trimmed(f[10]),
                    font_size: u8_of(trimmed(f[11])).unwrap(),
                    effect: lowered(f[12]),
                    color: textfont_color(f),
                },
            ),
        )
    }
}

/// The command that a directive makes of its payload.
pub open spec fn directive_command(directive: Directive, payload: Seq<char>) -> Result<
    CommandView,
    ParseErrorView,
> {
    match directive {
        Directive::LinkMulti => Ok(linkmulti_command(payload)),
        Directive::Link => Ok(link_command(payload)),
        Directive::Unit => unit_command(payload),
        Directive::Page => page_command(payload),
        Directive::Border => border_command(payload),
        Directive::Visual => visual_command(payload),
        Directive::Image => image_command(payload),
        Directive::TextFont => textfont_command(payload),
        Directive::EndVisual => Ok(CommandView::EndVisual),
    }
}

/// Whether the outcome `r` of a reader is the outcome `expected` in views.
pub open spec fn agrees(r: Result<Command, ParseError>, expected: Result<
    CommandView,
    ParseErrorView,
>) -> bool {
    match r {
        Ok(command) => expected == Ok::<CommandView, ParseErrorView>(command@),
        Err(error) => expected == Err::<CommandView, ParseErrorView>(error@),
    }
}

/// Splits a payload into its fields and reports one that is too short for
/// `directive`.
fn fields_of<'a>(value: &'a [char], directive: Directive) -> (r: Result<Vec<&'a [char]>, ParseError>)
    ensures
        match r {
            Ok(f) => texts(f@) == pieces(value@, ',') && f@.len() >= directive.required_fields(),
            Err(e) => pieces(value@, ',').len() < directive.required_fields() && e@
                == missing_field(directive, pieces(value@, ',').len()),
        },
{
    let f = split(value, ',');
    let expected = directive.field_count();
    if f.len() < expected {
        Err(ParseError::MissingField { directive, expected_count: expected, actual_count: f.len() })
    } else {
        Ok(f)
    }
}

/// Reads the payload of `LINKMULTI`.
pub fn linkmulti(value: &[char]) -> (command: Command)
    ensures
        command@ == linkmulti_command(value@),
{
    Command::LinkMulti(string_of(value))
}

/// Reads the payload of `LINK`.
pub fn link(value: &[char]) -> (command: Command)
    ensures
        command@ == link_command(value@),
{
    let f = split(value, ',');
    Command::Link(parse_link(f[0]))
}

/// Reads the payload of `UNIT`.
pub fn unit(value: &[char]) -> (r: Result<Command, ParseError>)
    ensures
        agrees(r, unit_command(value@)),
{
    let f = split(value, ',');
    Ok(Command::Unit(parse_unit(f[0], Directive::Unit, 0)?))
}

/// Reads the payload of `PAGE`.
pub fn page(value: &[char]) -> (r: Result<Command, ParseError>)
    ensures
        agrees(r, page_command(value@)),
{
    let f = fields_of(value, Directive::Page)?;
    let width = parse_u32_field(f[0], Directive::Page, 0)?;
    let height = parse_u32_field(f[1], Directive::Page, 1)?;
    let orientation = parse_orientation(f[2], Directive::Page, 2)?;
    Ok(Command::Page(Page { width, height, orientation }))
}

/// Reads the payload of `BORDER`.
pub fn border(value: &[char]) -> (r: Result<Command, ParseError>)
    ensures
        agrees(r, border_command(value@)),
{
    let f = fields_of(value, Directive::Border)?;
    let border_type = parse_border_type(f[0], Directive::Border, 0)?;
    let color = parse_color(f[1]);
    let size = parse_u8_field(f[2], Directive::Border, 2)?;
    Ok(Command::Border(Border { border_type, color, size }))
}

/// Reads the payload of `VISUAL`.
pub fn visual(value: &[char]) -> (r: Result<Command, ParseError>)
    ensures
        agrees(r, visual_command(value@)),
{
    let f = fields_of(value, Directive::Visual)?;
    let horizontal_step = parse_u32_field(f[1], Directive::Visual, 1)?;
    let vertical_step = parse_u32_field(f[2], Directive::Visual, 2)?;
    Ok(Command::Visual(Visual { horizontal_step, vertical_step }))
}

/// Reads the payload of `IMAGE`.
pub fn image(value: &[char]) -> (r: Result<Command, ParseError>)
    ensures
        agrees(r, image_command(value@)),
{
    let f = fields_of(value, Directive::Image)?;
    let col_path = parse_quoted_path(f[0]);
    let name = parse_name(f[1]);
    let left = parse_numeric_value(f[2], Directive::Image, 2)?;
    let top = parse_numeric_value(f[3], Directive::Image, 3)?;
    let width = parse_numeric_value(f[4], Directive::Image, 4)?;
    let height = parse_numeric_value(f[5], Directive::Image, 5)?;
    Ok(Command::Image(Image { col_path, name, left, top, width, height }))
}

/// The colour of a text: the one that is given, or black.
pub fn color_or_default(given: Option<Color>) -> (color: Color)
    ensures
        color@ == (match given {
            Some(c) => c@,
            None => default_color(),
        }),
{
    match given {
        Some(c) => c,
        None => Color("black".to_string()),
    }
}

/// Reads the payload of `TEXTFONT`.
pub fn textfont(value: &[char]) -> (r: Result<Command, ParseError>)
    ensures
        agrees(r, textfont_command(value@)),
{
    let f = fields_of(value, Directive::TextFont)?;
    let col_path = parse_quoted_path(f[0]);
    let name = parse_name(f[1]);
    let left = parse_numeric_value(f[2], Directive::TextFont, 2)?;
    let top = parse_numeric_value(f[3], Directive::TextFont, 3)?;
    let width = parse_numeric_value(f[4], Directive::TextFont, 4)?;
    let height = parse_numeric_value(f[5], Directive::TextFont, 5)?;
    let horizontal_align = parse_horizontal_align(f[6], Directive::TextFont, 6)?;
    let vertical_align = parse_vertical_align(f[7], Directive::TextFont, 7)?;
    let rotation = parse_i32_field(f[8], Directive::TextFont, 8)?;
    let alpha = parse_u32_field(f[9], Directive::TextFont, 9)?;
    let font_name = string_of(trim(f[10]));
    let font_size = parse_u8_field(f[11], Directive::TextFont, 11)?;
    let effect = parse_effect(f[12]);
    let color = color_or_default(
        if f.len() > 13 {
            Some(parse_color(f[13]))
        } else {
            None
        },
    );
    Ok(
        Command::TextFont(
            TextFont {
                col_path,
                name,
                left,
                top,
                width,
                height,
                horizontal_align,
                vertical_align,
                rotation,
                alpha,
                font_name,
                font_size,
                effect,
                color,
            },
        ),
    )
}

/// The command of `ENDVISUAL`, which takes no payload.
pub fn endvisual() -> (command: Command)
    ensures
        command@ == CommandView::EndVisual,
{
    Command::EndVisual
}

/// Reads the payload of `directive`.
pub fn read_directive(directive: Directive, value: &[char]) -> (r: Result<Command, ParseError>)
    ensures
        agrees(r, directive_command(directive, value@)),
{
    match directive {
        Directive::LinkMulti => Ok(linkmulti(value)),
        Directive::Link => Ok(link(value)),
        Directive::Unit => unit(value),
        Directive::Page => page(value),
        Directive::Border => border(value),
        Directive::Visual => visual(value),
        Directive::Image => image(value),
        Directive::TextFont => textfont(value),
        Directive::EndVisual => Ok(endvisual()),
    }
}

} // verus!
