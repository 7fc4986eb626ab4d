//! A parser for line-oriented card-deck layout descriptions.
//!
//! [`nan_deck_parse`] turns the text of a description into its commands.
//! What the text means is laid down by spec functions on sequences of
//! characters, module by module: [`text`] for trimming and splitting,
//! [`number`] for integer literals, [`value`] for single fields, [`command`]
//! for the payload of each directive and [`document`] for lines and whole
//! descriptions. Each executable function is proved to compute the spec
//! function that it is named after.

pub mod command;
pub mod directive;
pub mod document;
pub mod error;
pub mod model;
pub mod number;
pub mod text;
pub mod theorems;
pub mod value;

pub use command::{border, endvisual, image, link, linkmulti, page, textfont, unit, visual};
pub use directive::Directive;
pub use document::{nan_deck_parse, parse_line};
pub use error::ParseError;
pub use model::{
    Border, BorderType, Color, Command, Effect, HorizontalAlign, Image, Link, Numeric,
    Orientation, Page, TextFont, Unit, VerticalAlign, Visual,
};
pub use value::{format_numeric, parse_name, parse_numeric_value};
