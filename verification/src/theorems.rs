//! What holds of the parser as a whole, stated over the spec functions that
//! the contracts of the executable functions use, and proved from their
//! definitions.

use vstd::prelude::*;
use crate::command::{default_color, textfont_command};
use crate::directive::{directive_named, Directive};
use crate::document::{
    document_commands, document_lines, is_comment, line_command, line_keyword, lines_commands,
};
use crate::error::ParseErrorView;
use crate::model::{CommandView, LinkView, Numeric};
use crate::number::{decimal_text, i32_of, lemma_decimal_text, lemma_literal_shape};
use crate::text::{
    first_index, free_of, is_space, lemma_first_index, lemma_pieces, lemma_pieces_concat,
    lemma_pieces_pair, lemma_pieces_whole, lemma_trimmed_twice, lemma_trimmed_unchanged,
    occurrences, pieces, trimmed,
};
use crate::value::{link_body, link_of, lowered, numeric_of, numeric_text};

verus! {

/// An `i32` literal alone is an absolute value, and the same literal
/// followed by `%` is a percentage of the same number.
pub proof fn theorem_numeric_literal(literal: Seq<char>, v: i32)
    requires
        i32_of(literal) == Some(v),
    ensures
        numeric_of(literal) == Some(Numeric::Absolute(v)),
        numeric_of(literal.push('%')) == Some(Numeric::Percentage(v)),
{
    lemma_literal_shape(literal, true);
    lemma_trimmed_unchanged(literal);
    let percent = literal.push('%');
    assert(percent.first() == literal.first());
    lemma_trimmed_unchanged(percent);
    assert(percent.drop_last() =~= literal);
}

/// Whitespace around a numeric field does not change its value.
pub proof fn theorem_numeric_ignores_outer_space(token: Seq<char>)
    ensures
        numeric_of(token) == numeric_of(trimmed(token)),
{
    lemma_trimmed_twice(token);
}

/// A numeric value written as text and read again is the same value.
pub proof fn theorem_numeric_round_trip(n: Numeric)
    ensures
        numeric_of(numeric_text(n)) == Some(n),
{
    match n {
        Numeric::Absolute(v) => {
            lemma_decimal_text(v);
            theorem_numeric_literal(decimal_text(v as int), v);
        },
        Numeric::Percentage(v) => {
            lemma_decimal_text(v);
            theorem_numeric_literal(decimal_text(v as int), v);
        },
    }
}

/// A link names a sheet exactly if its body holds one `!`. The file is what
/// stands before the first `!`, or the whole body if there is none; the
/// sheet is what stands after the one `!`.
pub proof fn theorem_link_split(token: Seq<char>)
    ensures
        ({
            let body = link_body(token);
            let k = first_index(body, '!');
            &&& 0 <= k <= body.len()
            &&& link_of(token).file == body.take(k)
            &&& link_of(token).sheet == if occurrences(body, '!') == 1 {
                Some(body.skip(k + 1))
            } else {
                None
            }
        }),
{
    let body = link_body(token);
    let k = first_index(body, '!');
    lemma_first_index(body, '!');
    lemma_pieces(body, '!');
    if k < body.len() {
        let rest = body.skip(k + 1);
        lemma_pieces(rest, '!');
        assert(pieces(body, '!') =~= seq![body.take(k)] + pieces(rest, '!'));
        assert(pieces(body, '!')[1] == pieces(rest, '!')[0]);
        assert(body.skip(k).drop_first() =~= rest);
        assert(body.skip(k).first() == '!');
        lemma_occurrences_split(body, '!', k);
    } else {
        assert(body.take(k) =~= body);
    }
}

/// The occurrences of `c` in `s`, when none stands before `k`, are those
/// from `k` on.
proof fn lemma_occurrences_split(s: Seq<char>, c: char, k: int)
    requires
        0 <= k <= s.len(),
        forall|i: int| 0 <= i < k ==> s[i] != c,
    ensures
        occurrences(s, c) == occurrences(s.skip(k), c),
    decreases k,
{
    if k == 0 {
        assert(s.skip(0) =~= s);
    } else {
        let rest = s.drop_first();
        assert forall|i: int| 0 <= i < k - 1 implies rest[i] != c by {
            assert(rest[i] == s[i + 1]);
        }
        lemma_occurrences_split(rest, c, k - 1);
        assert(rest.skip(k - 1) =~= s.skip(k));
    }
}

/// A link whose body holds no `!` names the body as its file, and no sheet.
pub proof fn theorem_link_without_sheet(token: Seq<char>)
    requires
        free_of(link_body(token), '!'),
    ensures
        link_of(token) == (LinkView { file: link_body(token), sheet: None }),
{
    lemma_pieces_whole(link_body(token), '!');
}

/// A link whose body holds `!` at `k` and nowhere else names what stands
/// before `k` as its file and what stands after `k` as its sheet.
pub proof fn theorem_link_with_sheet(token: Seq<char>, k: int)
    requires
        0 <= k < link_body(token).len(),
        link_body(token)[k] == '!',
        forall|i: int| 0 <= i < link_body(token).len() && i != k ==> link_body(token)[i] != '!',
    ensures
        link_of(token) == (LinkView {
            file: link_body(token).take(k),
            sheet: Some(link_body(token).skip(k + 1)),
        }),
{
    lemma_pieces_pair(link_body(token), '!', k);
}

/// A text of thirteen fields is black; with a fourteenth field, its colour
/// is that field, trimmed and in lowercase.
pub proof fn theorem_textfont_color(payload: Seq<char>)
    requires
        textfont_command(payload) is Ok,
    ensures
        textfont_command(payload)->Ok_0 is TextFont,
        pieces(payload, ',').len() >= 13,
        pieces(payload, ',').len() == 13 ==> textfont_command(payload)->Ok_0->TextFont_0.color
            == default_color(),
        pieces(payload, ',').len() >= 14 ==> textfont_command(payload)->Ok_0->TextFont_0.color
            == lowered(pieces(payload, ',')[13]),
{
}

/// The default colour is the word `black`.
pub proof fn theorem_default_color()
    ensures
        default_color() == seq!['b', 'l', 'a', 'c', 'k'],
{
    reveal_strlit("black");
    assert(default_color() =~= seq!['b', 'l', 'a', 'c', 'k']);
}

/// A comment put anywhere among the lines changes nothing, whatever stands
/// after its `;`.
pub proof fn theorem_comment_gives_nothing(lines: Seq<Seq<char>>, k: int, comment: Seq<char>)
    requires
        0 <= k <= lines.len(),
        is_comment(comment),
    ensures
        lines_commands(lines.insert(k, comment)) == lines_commands(lines),
    decreases lines.len() - k,
{
    let longer = lines.insert(k, comment);
    if k == lines.len() {
        assert(longer.drop_last() =~= lines);
        assert(longer.last() == comment);
    } else {
        assert(longer.drop_last() =~= lines.drop_last().insert(k, comment));
        assert(longer.last() == lines.last());
        theorem_comment_gives_nothing(lines.drop_last(), k, comment);
    }
}

/// A comment line between two lines of a description changes nothing.
pub proof fn theorem_comment_in_document(before: Seq<char>, comment: Seq<char>, after: Seq<char>)
    requires
        is_comment(comment),
        free_of(comment, '\n'),
        before.len() > 0 && !is_space(before.first()),
        after.len() > 0 && !is_space(after.last()),
    ensures
        document_commands(before + seq!['\n'] + comment + seq!['\n'] + after) == document_commands(
            before + seq!['\n'] + after,
        ),
{
    let with = before + seq!['\n'] + comment + seq!['\n'] + after;
    let without = before + seq!['\n'] + after;
    let tail = comment + seq!['\n'] + after;
    assert(with =~= before + seq!['\n'] + tail);
    lemma_trimmed_unchanged(with);
    lemma_trimmed_unchanged(without);
    lemma_pieces_concat(before, tail, '\n');
    lemma_pieces_concat(comment, after, '\n');
    lemma_pieces_concat(before, after, '\n');
    lemma_pieces_whole(comment, '\n');
    let first = pieces(before, '\n');
    let second = pieces(after, '\n');
    assert(document_lines(with) =~= (first + second).insert(first.len() as int, comment));
    theorem_comment_gives_nothing(first + second, first.len() as int, comment);
}

/// Whitespace around a description changes nothing.
pub proof fn theorem_document_ignores_outer_space(text: Seq<char>)
    ensures
        document_commands(text) == document_commands(trimmed(text)),
{
    lemma_trimmed_twice(text);
}

/// The lines that are no comments, in order.
pub open spec fn without_comments(lines: Seq<Seq<char>>) -> Seq<Seq<char>>
    decreases lines.len(),
{
    if lines.len() == 0 {
        lines
    } else if is_comment(lines.last()) {
        without_comments(lines.drop_last())
    } else {
        without_comments(lines.drop_last()).push(lines.last())
    }
}

/// The outcome depends on the lines that are no comments alone.
pub proof fn theorem_comments_are_skipped(lines: Seq<Seq<char>>)
    ensures
        lines_commands(lines) == lines_commands(without_comments(lines)),
    decreases lines.len(),
{
    if lines.len() > 0 {
        theorem_comments_are_skipped(lines.drop_last());
        if !is_comment(lines.last()) {
            let kept = without_comments(lines.drop_last());
            assert(kept.push(lines.last()).drop_last() =~= kept);
        }
    }
}

/// Lines without comments give one command each, in the order of the lines,
/// if every line can be read; else the error of the first line that cannot.
pub proof fn theorem_commands_follow_lines(lines: Seq<Seq<char>>)
    requires
        forall|i: int| 0 <= i < lines.len() ==> !is_comment(#[trigger] lines[i]),
    ensures
        match lines_commands(lines) {
            Ok(commands) => {
                &&& commands.len() == lines.len()
                &&& forall|i: int|
                    0 <= i < lines.len() ==> #[trigger] line_command(lines[i]) == Ok::<
                        CommandView,
                        ParseErrorView,
                    >(commands[i])
            },
            Err(error) => exists|k: int|
                {
                    &&& 0 <= k < lines.len()
                    &&& #[trigger] line_command(lines[k]) == Err::<CommandView, ParseErrorView>(
                        error,
                    )
                    &&& forall|i: int| 0 <= i < k ==> #[trigger] line_command(lines[i]) is Ok
                },
        },
    decreases lines.len(),
{
    if lines.len() > 0 {
        let before = lines.drop_last();
        let last = lines.last();
        assert forall|i: int| 0 <= i < before.len() implies !is_comment(#[trigger] before[i]) by {
            assert(before[i] == lines[i]);
        }
        theorem_commands_follow_lines(before);
        match lines_commands(before) {
            Ok(done) => {
                match line_command(last) {
                    Ok(command) => {
                        let commands = done.push(command);
                        assert forall|i: int| 0 <= i < lines.len() implies #[trigger] line_command(
                            lines[i],
                        ) == Ok::<CommandView, ParseErrorView>(commands[i]) by {
                            if i < before.len() {
                                assert(lines[i] == before[i]);
                            }
                        }
                    },
                    Err(error) => {
                        let k = lines.len() - 1;
                        assert forall|i: int| 0 <= i < k implies #[trigger] line_command(
                            lines[i],
                        ) is Ok by {
                            assert(lines[i] == before[i]);
                        }
                        assert(line_command(lines[k]) == Err::<CommandView, ParseErrorView>(error));
                    },
                }
            },
            Err(error) => {
                let k = choose|k: int|
                    {
                        &&& 0 <= k < before.len()
                        &&& #[trigger] line_command(before[k]) == Err::<
                            CommandView,
                            ParseErrorView,
                        >(error)
                        &&& forall|i: int|
                            0 <= i < k ==> #[trigger] line_command(before[i]) is Ok
                    };
                assert(lines[k] == before[k]);
                assert forall|i: int| 0 <= i < k implies #[trigger] line_command(lines[i]) is Ok by {
                    assert(lines[i] == before[i]);
                }
                assert(line_command(lines[k]) == Err::<CommandView, ParseErrorView>(error));
            },
        }
    }
}

/// Every keyword is written in capital letters.
pub proof fn theorem_keywords_are_capitals(directive: Directive)
    ensures
        directive.keyword_text().len() > 0,
        forall|i: int|
            0 <= i < directive.keyword_text().len() ==> 'A' <= #[trigger] directive.keyword_text()[i]
                <= 'Z',
{
    reveal_strlit("LINKMULTI");
    reveal_strlit("LINK");
    reveal_strlit("UNIT");
    reveal_strlit("PAGE");
    reveal_strlit("BORDER");
    reveal_strlit("VISUAL");
    reveal_strlit("IMAGE");
    reveal_strlit("TEXTFONT");
    reveal_strlit("ENDVISUAL");
}

/// The length and the first letter of a keyword; no two keywords agree in
/// both.
pub open spec fn keyword_mark(directive: Directive) -> (nat, char) {
    match directive {
        Directive::LinkMulti => (9, 'L'),
        Directive::Link => (4, 'L'),
        Directive::Unit => (4, 'U'),
        Directive::Page => (4, 'P'),
        Directive::Border => (6, 'B'),
        Directive::Visual => (6, 'V'),
        Directive::Image => (5, 'I'),
        Directive::TextFont => (8, 'T'),
        Directive::EndVisual => (9, 'E'),
    }
}

/// The keywords differ from one another.
pub proof fn theorem_keywords_differ(a: Directive, b: Directive)
    ensures
        a.keyword_text().len() == keyword_mark(a).0,
        a.keyword_text()[0] == keyword_mark(a).1,
        a.keyword_text() == b.keyword_text() <==> a == b,
{
    reveal_strlit("LINKMULTI");
    reveal_strlit("LINK");
    reveal_strlit("UNIT");
    reveal_strlit("PAGE");
    reveal_strlit("BORDER");
    reveal_strlit("VISUAL");
    reveal_strlit("IMAGE");
    reveal_strlit("TEXTFONT");
    reveal_strlit("ENDVISUAL");
    assert(a.keyword_text().len() == keyword_mark(a).0);
    assert(b.keyword_text().len() == keyword_mark(b).0);
    assert(a.keyword_text()[0] == keyword_mark(a).1);
    assert(b.keyword_text()[0] == keyword_mark(b).1);
}

/// A word names a directive exactly if it is that directive's keyword,
/// character for character.
pub proof fn theorem_keywords_are_exact(word: Seq<char>, directive: Directive)
    ensures
        directive_named(word) == Some(directive) <==> word == directive.keyword_text(),
{
    theorem_keywords_differ(directive, Directive::LinkMulti);
    theorem_keywords_differ(directive, Directive::Link);
    theorem_keywords_differ(directive, Directive::Unit);
    theorem_keywords_differ(directive, Directive::Page);
    theorem_keywords_differ(directive, Directive::Border);
    theorem_keywords_differ(directive, Directive::Visual);
    theorem_keywords_differ(directive, Directive::Image);
    theorem_keywords_differ(directive, Directive::TextFont);
    theorem_keywords_differ(directive, Directive::EndVisual);
}

/// A word that holds anything but capital letters names no directive; so a
/// keyword in lowercase, or with a character more or less, is not accepted.
pub proof fn theorem_keywords_are_case_sensitive(word: Seq<char>, i: int)
    requires
        0 <= i < word.len(),
        !('A' <= word[i] <= 'Z'),
    ensures
        directive_named(word) is None,
{
    if directive_named(word) is Some {
        let directive = directive_named(word)->0;
        theorem_keywords_are_exact(word, directive);
        theorem_keywords_are_capitals(directive);
        assert('A' <= directive.keyword_text()[i] <= 'Z');
    }
}

/// A line fails as an unknown directive exactly if its keyword is none of
/// the nine, and the error then holds that keyword.
pub proof fn theorem_unknown_directive(line: Seq<char>)
    ensures
        directive_named(line_keyword(line)) is None <==> line_command(line)
            == Err::<CommandView, ParseErrorView>(
            ParseErrorView::UnknownDirective { keyword: line_keyword(line) },
        ),
        line_command(line) matches Err(ParseErrorView::UnknownDirective { keyword }) ==> keyword
            == line_keyword(line) && directive_named(keyword) is None,
{
}

} // verus!
