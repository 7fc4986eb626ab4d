//! The ways in which a description can be malformed.

use vstd::prelude::*;
use crate::directive::Directive;

verus! {

/// Why a description was rejected. Parsing stops at the first line that
/// gives one of these.
#[derive(PartialEq, Eq, Clone, Debug)]
pub enum ParseError {
    /// The keyword of a line is none of the nine.
    UnknownDirective { keyword: String },
    /// A field that takes a keyword holds something else.
    UnknownEnumValue { directive: Directive, field: usize, value: String },
    /// A field that takes a number holds no integer of the field's type.
    MalformedNumber { directive: Directive, field: usize, text: String },
    /// The payload has fewer fields than the directive requires.
    MissingField { directive: Directive, expected_count: usize, actual_count: usize },
    /// A line names a directive that takes a payload, and has no `=`.
    MalformedLine { text: String },
}

/// The view of a [`ParseError`].
pub enum ParseErrorView {
    UnknownDirective { keyword: Seq<char> },
    UnknownEnumValue { directive: Directive, field: nat, value: Seq<char> },
    MalformedNumber { directive: Directive, field: nat, text: Seq<char> },
    MissingField { directive: Directive, expected_count: nat, actual_count: nat },
    MalformedLine { text: Seq<char> },
}

impl View for ParseError {
    type V = ParseErrorView;

    open spec fn view(&self) -> ParseErrorView {
        match self {
            ParseError::UnknownDirective { keyword } => ParseErrorView::UnknownDirective {
                keyword: keyword@,
            },
            ParseError::UnknownEnumValue { directive, field, value } => {
                ParseErrorView::UnknownEnumValue {
                    directive: *directive,
                    field: *field as nat,
                    value: value@,
                }
            },
            ParseError::MalformedNumber { directive, field, text } => {
                ParseErrorView::MalformedNumber {
                    directive: *directive,
                    field: *field as nat,
                    text: text@,
                }
            },
            ParseError::MissingField { directive, expected_count, actual_count } => {
                ParseErrorView::MissingField {
                    directive: *directive,
                    expected_count: *expected_count as nat,
                    actual_count: *actual_count as nat,
                }
            },
            ParseError::MalformedLine { text } => ParseErrorView::MalformedLine { text: text@ },
        }
    }
}

} // verus!
