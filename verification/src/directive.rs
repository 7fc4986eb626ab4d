//! The directives of the language: their keywords, and how many fields
//! each one takes.

use vstd::prelude::*;
use crate::text::is_text;

verus! {

/// The nine directives.
#[derive(PartialEq, Eq, Clone, Copy, Debug)]
pub enum Directive {
    LinkMulti,
    Link,
    Unit,
    Page,
    Border,
    Visual,
    Image,
    TextFont,
    EndVisual,
}

impl Directive {
    /// The keyword that introduces the directive, as characters.
    pub open spec fn keyword_text(self) -> Seq<char> {
        match self {
            Directive::LinkMulti => "LINKMULTI"@,
            Directive::Link => "LINK"@,
            Directive::Unit => "UNIT"@,
            Directive::Page => "PAGE"@,
            Directive::Border => "BORDER"@,
            Directive::Visual => "VISUAL"@,
            Directive::Image => "IMAGE"@,
            Directive::TextFont => "TEXTFONT"@,
            Directive::EndVisual => "ENDVISUAL"@,
        }
    }

    /// The number of comma-separated fields that the directive's payload
    /// must hold at least.
    pub open spec fn required_fields(self) -> nat {
        match self {
            Directive::LinkMulti => 1,
            Directive::Link => 1,
            Directive::Unit => 1,
            Directive::Page => 3,
            Directive::Border => 3,
            Directive::Visual => 3,
            Directive::Image => 6,
            Directive::TextFont => 13,
            Directive::EndVisual => 0,
        }
    }

    /// The keyword that introduces the directive.
    pub fn keyword(&self) -> (word: &'static str)
        ensures
            word@ == self.keyword_text(),
    {
        match self {
            Directive::LinkMulti => "LINKMULTI",
            Directive::Link => "LINK",
            Directive::Unit => "UNIT",
            Directive::Page => "PAGE",
            Directive::Border => "BORDER",
            Directive::Visual => "VISUAL",
            Directive::Image => "IMAGE",
            Directive::TextFont => "TEXTFONT",
            Directive::EndVisual => "ENDVISUAL",
        }
    }

    /// The number of comma-separated fields that the directive's payload
    /// must hold at least.
    pub fn field_count(&self) -> (count: usize)
        ensures
            count == self.required_fields(),
    {
        match self {
            Directive::LinkMulti => 1,
            Directive::Link => 1,
            Directive::Unit => 1,
            Directive::Page => 3,
            Directive::Border => 3,
            Directive::Visual => 3,
            Directive::Image => 6,
            Directive::TextFont => 13,
            Directive::EndVisual => 0,
        }
    }
}

/// The directive that `word` names. Only the nine keywords themselves name
/// one: in capitals, with nothing before or after.
pub open spec fn directive_named(word: Seq<char>) -> Option<Directive> {
    if word == "LINKMULTI"@ {
        Some(Directive::LinkMulti)
    } else if word == "LINK"@ {
        Some(Directive::Link)
    } else if word == "UNIT"@ {
        Some(Directive::Unit)
    } else if word == "PAGE"@ {
        Some(Directive::Page)
    } else if word == "BORDER"@ {
        Some(Directive::Border)
    } else if word == "VISUAL"@ {
        Some(Directive::Visual)
    } else if word == "IMAGE"@ {
        Some(Directive::Image)
    } else if word == "TEXTFONT"@ {
        Some(Directive::TextFont)
    } else if word == "ENDVISUAL"@ {
        Some(Directive::EndVisual)
    } else {
        None
    }
}

/// Finds the directive that `word` names.
pub fn find_directive(word: &[char]) -> (found: Option<Directive>)
    ensures
        found == directive_named(word@),
{
    if is_text(word, "LINKMULTI") {
        Some(Directive::LinkMulti)
    } else if is_text(word, "LINK") {
        Some(Directive::Link)
    } else if is_text(word, "UNIT") {
        Some(Directive::Unit)
    } else if is_text(word, "PAGE") {
        Some(Directive::Page)
    } else if is_text(word, "BORDER") {
        Some(Directive::Border)
    } else if is_text(word, "VISUAL") {
        Some(Directive::Visual)
    } else if is_text(word, "IMAGE") {
        Some(Directive::Image)
    } else if is_text(word, "TEXTFONT") {
        Some(Directive::TextFont)
    } else if is_text(word, "ENDVISUAL") {
        Some(Directive::EndVisual)
    } else {
        None
    }
}

} // verus!
