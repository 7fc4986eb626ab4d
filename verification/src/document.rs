//! Lines and whole descriptions.
//!
//! A description is trimmed and split into lines. A line whose trimmed text
//! starts with `;` is a comment and gives nothing. Every other line is split
//! on `=`: the first part, trimmed, is the keyword, and the second part,
//! trimmed, is the payload. Parts after the second are not read, so that a
//! payload ends at its first `=`. The commands come out in the order of
//! their lines, and the first line that cannot be read ends the run with its
//! error.

use vstd::prelude::*;
use crate::command::{agrees, directive_command, endvisual, read_directive};
use crate::directive::{directive_named, find_directive, Directive};
use crate::error::{ParseError, ParseErrorView};
use crate::model::{command_views, Command, CommandView};
use crate::text::{chars_of, pieces, split, string_of, texts, trim, trimmed};

verus! {

/// Whether `line` is a comment: its trimmed text starts with `;`.
pub open spec fn is_comment(line: Seq<char>) -> bool {
    trimmed(line).len() > 0 && trimmed(line)[0] == ';'
}

/// The keyword of `line`: what stands before its first `=`, trimmed.
pub open spec fn line_keyword(line: Seq<char>) -> Seq<char> {
    trimmed(pieces(trimmed(line), '=')[0])
}

/// The command of a line that is no comment.
///
/// The keyword is looked at first: a line without a known keyword is an
/// unknown directive, whether or not it holds a `=`; this includes the empty
/// line. `ENDVISUAL` needs no `=`. Any other directive without a `=` is a
/// malformed line.
pub open spec fn line_command(line: Seq<char>) -> Result<CommandView, ParseErrorView> {
    let text = trimmed(line);
    let parts = pieces(text, '=');
    match directive_named(line_keyword(line)) {
        None => Err(ParseErrorView::UnknownDirective { keyword: line_keyword(line) }),
        Some(directive) => {
            if directive == Directive::EndVisual {
                Ok(CommandView::EndVisual)
            } else if parts.len() < 2 {
                Err(ParseErrorView::MalformedLine { text })
            } else {
                directive_command(directive, trimmed(parts[1]))
            }
        },
    }
}

/// The commands of a sequence of lines: the commands of the lines before the
/// last, then that of the last unless it is a comment. An error in an
/// earlier line goes before one in a later line.
pub open spec fn lines_commands(lines: Seq<Seq<char>>) -> Result<Seq<CommandView>, ParseErrorView>
    decreases lines.len(),
{
    if lines.len() == 0 {
        Ok(Seq::empty())
    } else {
        match lines_commands(lines.drop_last()) {
            Err(error) => Err(error),
            Ok(before) => {
                if is_comment(lines.last()) {
                    Ok(before)
                } else {
                    match line_command(lines.last()) {
                        Ok(command) => Ok(before.push(command)),
                        Err(error) => Err(error),
                    }
                }
            },
        }
    }
}

/// The lines of a description: the pieces of its trimmed text between line
/// feeds.
pub open spec fn document_lines(text: Seq<char>) -> Seq<Seq<char>> {
    pieces(trimmed(text), '\n')
}

/// The commands of a description.
pub open spec fn document_commands(text: Seq<char>) -> Result<Seq<CommandView>, ParseErrorView> {
    lines_commands(document_lines(text))
}

/// Once a run of lines has failed, more lines do not change the outcome.
pub proof fn lemma_first_error_stands(lines: Seq<Seq<char>>, k: int)
    requires
        0 <= k <= lines.len(),
        lines_commands(lines.take(k)) is Err,
    ensures
        lines_commands(lines) == lines_commands(lines.take(k)),
    decreases lines.len() - k,
{
    if k == lines.len() {
        assert(lines.take(k) =~= lines);
    } else {
        assert(lines.drop_last().take(k) =~= lines.take(k));
        lemma_first_error_stands(lines.drop_last(), k);
    }
}

/// Whether `line` is a comment.
pub fn is_comment_line(line: &[char]) -> (b: bool)
    ensures
        b == is_comment(line@),
{
    let text = trim(line);
    text.len() > 0 && text[0] == ';'
}

/// Reads one line that is no comment.
pub fn parse_line(line: &[char]) -> (r: Result<Command, ParseError>)
    ensures
        agrees(r, line_command(line@)),
{
    let text = trim(line);
    let parts = split(text, '=');
    let keyword = trim(parts[0]);
    match find_directive(keyword) {
        None => Err(ParseError::UnknownDirective { keyword: string_of(keyword) }),
        Some(Directive::EndVisual) => Ok(endvisual()),
        Some(directive) => {
            if parts.len() < 2 {
                Err(ParseError::MalformedLine { text: string_of(text) })
            } else {
                read_directive(directive, trim(parts[1]))
            }
        },
    }
}

/// Reads a whole description: the commands of its lines in order, or the
/// error of the first line that cannot be read.
pub fn nan_deck_parse(data: &str) -> (r: Result<Vec<Command>, ParseError>)
    ensures
        match r {
            Ok(commands) => document_commands(data@) == Ok::<Seq<CommandView>, ParseErrorView>(
                command_views(commands@),
            ),
            Err(error) => document_commands(data@) == Err::<Seq<CommandView>, ParseErrorView>(
                error@,
            ),
        },
{
    let chars = chars_of(data);
    let lines = split(trim(chars.as_slice()), '\n');
    let mut commands: Vec<Command> = Vec::new();
    let mut i: usize = 0;
    let ghost all = texts(lines@);
    assert(all.take(0) =~= Seq::<Seq<char>>::empty());
    assert(command_views(commands@) =~= Seq::<CommandView>::empty());
    while i < lines.len()
        invariant
            i <= lines.len(),
            all == texts(lines@),
            all == document_lines(data@),
            lines_commands(all.take(i as int)) == Ok::<Seq<CommandView>, ParseErrorView>(
                command_views(commands@),
            ),
        decreases lines.len() - i,
    {
        let line = lines[i];
        assert(all.take(i as int + 1).drop_last() =~= all.take(i as int));
        assert(all.take(i as int + 1).last() == line@);
        if !is_comment_line(line) {
            match parse_line(line) {
                Ok(command) => {
                    assert(command_views(commands@.push(command)) =~= command_views(
                        commands@,
                    ).push(command@));
                    commands.push(command);
                },
                Err(error) => {
                    proof {
                        lemma_first_error_stands(all, i as int + 1);
                    }
                    return Err(error);
                },
            }
        }
        i += 1;
    }
    assert(all.take(i as int) =~= all);
    Ok(commands)
}

} // verus!
