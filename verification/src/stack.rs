//! Drawing a stack trace: each line by what it names, and the block around
//! the lines.

use vstd::prelude::*;
use yansi::Color;
use crate::search::{contains, find_char, find_first, has_sub, last_index_of, rfind_char};
use crate::space::{lines, lines_of, views};
use crate::style::{tint, tinted, Style};
use crate::text::{chars_of, copy_range, push_all, push_str, string_of};

verus! {

/// The style of a path and of a line that names nothing known.
pub open spec fn dim_style() -> Style {
    Style { fg: Some(Color::Fixed(15)), bg: None, bold: false, italic: false }
}

/// The style of a file name.
pub open spec fn file_style() -> Style {
    Style { fg: Some(Color::Yellow), bg: None, bold: true, italic: false }
}

/// The style of a line number.
pub open spec fn number_style() -> Style {
    Style { fg: Some(Color::Green), bg: None, bold: false, italic: false }
}

/// The style of a function name.
pub open spec fn function_style() -> Style {
    Style { fg: Some(Color::Cyan), bg: None, bold: true, italic: false }
}

/// The style of the rule above and below the block.
pub open spec fn rule_style() -> Style {
    Style { fg: Some(Color::Fixed(8)), bg: None, bold: false, italic: false }
}

/// The style of the block's title.
pub open spec fn title_style() -> Style {
    Style { fg: Some(Color::Red), bg: None, bold: true, italic: false }
}

/// A line names a source file where a known extension stands in it, followed
/// by a colon.
pub open spec fn names_file(line: Seq<char>) -> bool {
    ||| has_sub(line, ".go:"@)
    ||| has_sub(line, ".rs:"@)
    ||| has_sub(line, ".js:"@)
    ||| has_sub(line, ".py:"@)
    ||| has_sub(line, ".cpp:"@)
    ||| has_sub(line, ".ts:"@)
    ||| has_sub(line, ".rb:"@)
}

/// A file name and the line number behind its first colon; the whole of
/// `rest` as a file name where it holds no colon.
pub open spec fn file_and_number(rest: Seq<char>, plain: bool) -> Seq<char> {
    match find_first(rest, seq![':']) {
        Some(c) => tinted(rest.take(c), file_style(), plain) + tinted(
            rest.skip(c),
            number_style(),
            plain,
        ),
        None => tinted(rest, file_style(), plain),
    }
}

/// A line that names a function: the package path up to and with the last
/// dot, then the name. A line without a dot is dim as a whole.
pub open spec fn symbol_line(line: Seq<char>, plain: bool) -> Seq<char> {
    match last_index_of(line, '.') {
        Some(d) => tinted(line.take(d + 1), dim_style(), plain) + tinted(
            line.skip(d + 1),
            function_style(),
            plain,
        ),
        None => tinted(line, dim_style(), plain),
    }
}

/// One line of a stack trace, drawn. A line that names a source file is cut
/// behind its last slash into path and file, and the file at its first colon
/// into name and line number. Any other line is drawn as a function name.
pub open spec fn stack_line(line: Seq<char>, plain: bool) -> Seq<char> {
    if names_file(line) {
        match last_index_of(line, '/') {
            Some(p) => tinted(line.take(p + 1), dim_style(), plain) + file_and_number(
                line.skip(p + 1),
                plain,
            ),
            None => if find_first(line, seq![':']) is Some {
                file_and_number(line, plain)
            } else {
                symbol_line(line, plain)
            },
        }
    } else {
        symbol_line(line, plain)
    }
}

fn has_marker(line: &[char], marker: &str) -> (r: bool)
    ensures
        r == has_sub(line@, marker@),
{
    let m = chars_of(marker);
    contains(line, m.as_slice())
}

fn draw_file_and_number(rest: &[char], plain: bool) -> (out: Vec<char>)
    ensures
        out@ == file_and_number(rest@, plain),
{
    let file = Style { fg: Some(Color::Yellow), bg: None, bold: true, italic: false };
    let number = Style { fg: Some(Color::Green), bg: None, bold: false, italic: false };
    match find_char(rest, ':') {
        Some(c) => {
            let name = copy_range(rest, 0, c);
            let num = copy_range(rest, c, rest.len());
            assert(name@ == rest@.take(c as int));
            assert(num@ == rest@.skip(c as int));
            let mut out = tint(name.as_slice(), &file, plain);
            let tail = tint(num.as_slice(), &number, plain);
            push_all(&mut out, tail.as_slice());
            out
        },
        None => tint(rest, &file, plain),
    }
}

fn draw_symbol_line(line: &[char], plain: bool) -> (out: Vec<char>)
    ensures
        out@ == symbol_line(line@, plain),
{
    let dim = Style { fg: Some(Color::Fixed(15)), bg: None, bold: false, italic: false };
    let function = Style { fg: Some(Color::Cyan), bg: None, bold: true, italic: false };
    match rfind_char(line, '.') {
        Some(d) => {
            let package = copy_range(line, 0, d + 1);
            let name = copy_range(line, d + 1, line.len());
            assert(package@ == line@.take(d + 1));
            assert(name@ == line@.skip(d + 1));
            let mut out = tint(package.as_slice(), &dim, plain);
            let tail = tint(name.as_slice(), &function, plain);
            push_all(&mut out, tail.as_slice());
            out
        },
        None => tint(line, &dim, plain),
    }
}

fn draw_stack_line(line: &[char], plain: bool) -> (out: Vec<char>)
    ensures
        out@ == stack_line(line@, plain),
{
    let dim = Style { fg: Some(Color::Fixed(15)), bg: None, bold: false, italic: false };
    if has_marker(line, ".go:") || has_marker(line, ".rs:") || has_marker(line, ".js:")
        || has_marker(line, ".py:") || has_marker(line, ".cpp:") || has_marker(line, ".ts:")
        || has_marker(line, ".rb:") {
        match rfind_char(line, '/') {
            Some(p) => {
                let path = copy_range(line, 0, p + 1);
                let rest = copy_range(line, p + 1, line.len());
                assert(path@ == line@.take(p + 1));
                assert(rest@ == line@.skip(p + 1));
                let mut out = tint(path.as_slice(), &dim, plain);
                let tail = draw_file_and_number(rest.as_slice(), plain);
                push_all(&mut out, tail.as_slice());
                out
            },
            None => {
                if find_char(line, ':').is_some() {
                    draw_file_and_number(line, plain)
                } else {
                    draw_symbol_line(line, plain)
                }
            },
        }
    } else {
        draw_symbol_line(line, plain)
    }
}

/// Draws one line of a stack trace; without escape sequences where
/// `disable_coloring` holds.
pub fn format_stack_line(line: &str, disable_coloring: bool) -> (r: String)
    ensures
        r@ == stack_line(line@, disable_coloring),
{
    let text = chars_of(line);
    let out = draw_stack_line(text.as_slice(), disable_coloring);
    string_of(out.as_slice())
}

/// The rule that stands above and below a stack trace: 80 times `─`.
pub open spec fn rule() -> Seq<char> {
    Seq::new(80, |i: int| '─')
}

/// The lines of a stack trace, each drawn, indented by three spaces and
/// ended by a line feed.
pub open spec fn stack_body(lines: Seq<Seq<char>>, plain: bool) -> Seq<char>
    decreases lines.len(),
{
    if lines.len() == 0 {
        Seq::empty()
    } else {
        stack_body(lines.drop_last(), plain) + "   "@ + stack_line(lines.last(), plain)
            + seq!['\n']
    }
}

/// A stack trace as a block: an empty line, the rule, the title, the lines,
/// the rule again and an empty line.
pub open spec fn stack_block(stack: Seq<char>, plain: bool) -> Seq<char> {
    seq!['\n'] + tinted(rule(), rule_style(), plain) + seq!['\n'] + tinted(
        " Stacktrace:"@,
        title_style(),
        plain,
    ) + seq!['\n'] + stack_body(lines_of(stack), plain) + tinted(rule(), rule_style(), plain)
        + seq!['\n', '\n']
}

fn draw_rule(plain: bool) -> (out: Vec<char>)
    ensures
        out@ == tinted(rule(), rule_style(), plain),
{
    let mut bar: Vec<char> = Vec::new();
    while bar.len() < 80
        invariant
            bar.len() <= 80,
            bar@ == Seq::new(bar.len() as nat, |i: int| '─'),
        decreases 80 - bar.len(),
    {
        bar.push('─');
    }
    let style = Style { fg: Some(Color::Fixed(8)), bg: None, bold: false, italic: false };
    tint(bar.as_slice(), &style, plain)
}

/// Draws a stack trace as a block, ready to be written after the record's
/// own line; without escape sequences where `disable_coloring` holds.
pub fn format_stacktrace(stack: &str, disable_coloring: bool) -> (r: String)
    ensures
        r@ == stack_block(stack@, disable_coloring),
{
    let plain = disable_coloring;
    let text = chars_of(stack);
    let rows = lines(text.as_slice());
    let bar = draw_rule(plain);
    let title_style = Style { fg: Some(Color::Red), bg: None, bold: true, italic: false };
    let title_text = chars_of(" Stacktrace:");
    let title = tint(title_text.as_slice(), &title_style, plain);
    let mut out: Vec<char> = Vec::new();
    out.push('\n');
    push_all(&mut out, bar.as_slice());
    out.push('\n');
    push_all(&mut out, title.as_slice());
    out.push('\n');
    let ghost head = out@;
    let mut i: usize = 0;
    assert(views(rows@).take(0) == Seq::<Seq<char>>::empty());
    while i < rows.len()
        invariant
            i <= rows.len(),
            out@ == head + stack_body(views(rows@).take(i as int), plain),
        decreases rows.len() - i,
    {
        let row = draw_stack_line(rows[i].as_slice(), plain);
        proof {
            let done = views(rows@).take(i + 1);
            assert(done.drop_last() == views(rows@).take(i as int));
            assert(done.last() == rows@[i as int]@);
        }
        push_str(&mut out, "   ");
        push_all(&mut out, row.as_slice());
        out.push('\n');
        i += 1;
    }
    assert(views(rows@).take(rows.len() as int) == views(rows@));
    push_all(&mut out, bar.as_slice());
    out.push('\n');
    out.push('\n');
    string_of(out.as_slice())
}

} // verus!
