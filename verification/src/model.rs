//! The commands of a layout description and the values they carry.
//!
//! A type that owns text has a view in which each `String` is the sequence
//! of its characters; contracts speak of the views. The other types are
//! plain values and stand for themselves.

use vstd::prelude::*;

verus! {

/// A text-style tag, in lowercase. Its meaning belongs to the renderer.
#[derive(PartialEq, Eq, Clone, Debug)]
pub struct Effect(pub String);

impl View for Effect {
    type V = Seq<char>;

    open spec fn view(&self) -> Seq<char> {
        self.0@
    }
}

/// A colour token, in lowercase; usually a hexadecimal code such as
/// `#cc9900`. The token is not examined further.
#[derive(PartialEq, Eq, Clone, Debug)]
pub struct Color(pub String);

impl View for Color {
    type V = Seq<char>;

    open spec fn view(&self) -> Seq<char> {
        self.0@
    }
}

/// The unit in which the page is measured.
#[derive(PartialEq, Eq, Clone, Copy, Debug)]
pub enum Unit {
    MM,
    SM,
    DM,
}

/// The orientation of the page; `Album` is landscape.
#[derive(PartialEq, Eq, Clone, Copy, Debug)]
pub enum Orientation {
    Portrait,
    Album,
}

/// The page: its size in the declared unit, and its orientation.
#[derive(PartialEq, Eq, Clone, Copy, Debug)]
pub struct Page {
    pub width: u32,
    pub height: u32,
    pub orientation: Orientation,
}

/// The shape of a card's border.
#[derive(PartialEq, Eq, Clone, Copy, Debug)]
pub enum BorderType {
    Rectangle,
    Rounded,
}

/// The border of a card.
#[derive(PartialEq, Eq, Clone, Debug)]
pub struct Border {
    pub border_type: BorderType,
    pub color: Color,
    pub size: u8,
}

/// The view of a [`Border`].
pub struct BorderView {
    pub border_type: BorderType,
    pub color: Seq<char>,
    pub size: u8,
}

impl View for Border {
    type V = BorderView;

    open spec fn view(&self) -> BorderView {
        BorderView { border_type: self.border_type, color: self.color@, size: self.size }
    }
}

/// A coordinate or length: in absolute units, or as a percentage of the
/// container. Both may be negative, and a percentage may exceed 100.
#[derive(PartialEq, Eq, Clone, Copy, Debug)]
pub enum Numeric {
    Absolute(i32),
    Percentage(i32),
}

/// An image placed on the card.
#[derive(PartialEq, Eq, Clone, Debug)]
pub struct Image {
    pub col_path: String,
    pub name: String,
    pub left: Numeric,
    pub top: Numeric,
    pub width: Numeric,
    pub height: Numeric,
}

/// The view of an [`Image`].
pub struct ImageView {
    pub col_path: Seq<char>,
    pub name: Seq<char>,
    pub left: Numeric,
    pub top: Numeric,
    pub width: Numeric,
    pub height: Numeric,
}

impl View for Image {
    type V = ImageView;

    open spec fn view(&self) -> ImageView {
        ImageView {
            col_path: self.col_path@,
            name: self.name@,
            left: self.left,
            top: self.top,
            width: self.width,
            height: self.height,
        }
    }
}

/// Where text sits horizontally in its box.
#[derive(PartialEq, Eq, Clone, Copy, Debug)]
pub enum HorizontalAlign {
    Left,
    Center,
    Right,
}

/// Where text sits vertically in its box. The `Ww` anchors take the number
/// of wrapped lines into account.
#[derive(PartialEq, Eq, Clone, Copy, Debug)]
pub enum VerticalAlign {
    Top,
    Center,
    Bottom,
    WwTop,
    WwBottom,
    WwCenter,
}

/// A text placed on the card.
#[derive(PartialEq, Eq, Clone, Debug)]
pub struct TextFont {
    pub col_path: String,
    pub name: String,
    pub left: Numeric,
    pub top: Numeric,
    pub width: Numeric,
    pub height: Numeric,
    pub horizontal_align: HorizontalAlign,
    pub vertical_align: VerticalAlign,
    pub rotation: i32,
    pub alpha: u32,
    pub font_name: String,
    pub font_size: u8,
    pub effect: Effect,
    pub color: Color,
}

/// The view of a [`TextFont`].
pub struct TextFontView {
    pub col_path: Seq<char>,
    pub name: Seq<char>,
    pub left: Numeric,
    pub top: Numeric,
    pub width: Numeric,
    pub height: Numeric,
    pub horizontal_align: HorizontalAlign,
    pub vertical_align: VerticalAlign,
    pub rotation: i32,
    pub alpha: u32,
    pub font_name: Seq<char>,
    pub font_size: u8,
    pub effect: Seq<char>,
    pub color: Seq<char>,
}

impl View for TextFont {
    type V = TextFontView;

    open spec fn view(&self) -> TextFontView {
        TextFontView {
            col_path: self.col_path@,
            name: self.name@,
            left: self.left,
            top: self.top,
            width: self.width,
            height: self.height,
            horizontal_align: self.horizontal_align,
            vertical_align: self.vertical_align,
            rotation: self.rotation,
            alpha: self.alpha,
            font_name: self.font_name@,
            font_size: self.font_size,
            effect: self.effect@,
            color: self.color@,
        }
    }
}

/// The stride with which a block of elements is repeated.
#[derive(PartialEq, Eq, Clone, Copy, Debug)]
pub struct Visual {
    pub horizontal_step: u32,
    pub vertical_step: u32,
}

/// A data source, and the sheet within it if one is named.
#[derive(PartialEq, Eq, Clone, Debug)]
pub struct Link {
    pub file: String,
    pub sheet: Option<String>,
}

/// The view of a [`Link`].
pub struct LinkView {
    pub file: Seq<char>,
    pub sheet: Option<Seq<char>>,
}

impl View for Link {
    type V = LinkView;

    open spec fn view(&self) -> LinkView {
        LinkView {
            file: self.file@,
            sheet: match self.sheet {
                Some(s) => Some(s@),
                None => None,
            },
        }
    }
}

/// One directive of a layout description.
#[derive(PartialEq, Eq, Clone, Debug)]
pub enum Command {
    LinkMulti(String),
    Link(Link),
    Unit(Unit),
    Page(Page),
    Border(Border),
    Visual(Visual),
    Image(Image),
    TextFont(TextFont),
    EndVisual,
}

/// The view of a [`Command`].
pub enum CommandView {
    LinkMulti(Seq<char>),
    Link(LinkView),
    Unit(Unit),
    Page(Page),
    Border(BorderView),
    Visual(Visual),
    Image(ImageView),
    TextFont(TextFontView),
    EndVisual,
}

impl View for Command {
    type V = CommandView;

    open spec fn view(&self) -> CommandView {
        match self {
            Command::LinkMulti(key) => CommandView::LinkMulti(key@),
            Command::Link(link) => CommandView::Link(link@),
            Command::Unit(unit) => CommandView::Unit(*unit),
            Command::Page(page) => CommandView::Page(*page),
            Command::Border(border) => CommandView::Border(border@),
            Command::Visual(visual) => CommandView::Visual(*visual),
            Command::Image(image) => CommandView::Image(image@),
            Command::TextFont(text) => CommandView::TextFont(text@),
            Command::EndVisual => CommandView::EndVisual,
        }
    }
}

/// The views of a sequence of commands, in the same order.
pub open spec fn command_views(commands: Seq<Command>) -> Seq<CommandView> {
    Seq::new(commands.len(), |i: int| commands[i]@)
}

} // verus!
