//! The table that `kubectl get events` prints: finding its header, cutting a
//! row at the header's columns, and drawing header and row.

use vstd::prelude::*;
use yansi::Color;
use crate::search::{contains, find, find_char, find_first, has_prefix, has_sub, starts_with};
use crate::space::{pad, pad_right, trim, trim_of, trim_start, trim_start_of};
use crate::style::{tint, tinted, Style};
use crate::text::{chars_of, copy_range, is_str, push_all, push_str, string_of};
use crate::utf8::{
    byte_offset, byte_slice, byte_tail, offset_of, slice_bytes, str_byte_len, tail_bytes,
};

verus! {

/// What a stream remembers from one line to the next: whether it has turned
/// out to be an events table, and the byte offsets at which the five columns
/// of that table begin.
#[derive(Debug)]
pub struct ParseState {
    /// Whether the stream is an events table.
    pub kubectl_events_mode: bool,
    /// The byte offsets of the columns last seen, type, reason, object and
    /// message, once a header was seen.
    pub kubectl_events_cols: Option<(usize, usize, usize, usize, usize)>,
}

impl Default for ParseState {
    /// The state of a stream of which no line was read.
    fn default() -> (s: ParseState)
        ensures
            !s.kubectl_events_mode,
            s.kubectl_events_cols is None,
    {
        ParseState { kubectl_events_mode: false, kubectl_events_cols: None }
    }
}

/// A line is the header of an events table where, leading white space aside,
/// it begins with `LAST SEEN` and holds `TYPE` and `REASON`.
pub open spec fn is_events_header(line: Seq<char>) -> bool {
    let header = trim_start_of(line);
    &&& has_prefix(header, "LAST SEEN"@)
    &&& has_sub(header, "TYPE"@)
    &&& has_sub(header, "REASON"@)
}

/// The byte offset at which `name` first stands in `header`; 0 where it does
/// not stand there.
pub open spec fn column_offset(header: Seq<char>, name: Seq<char>) -> nat {
    match find_first(header, name) {
        Some(i) => byte_offset(header, i),
        None => 0,
    }
}

/// The byte offsets of the five columns in a header line, measured from the
/// end of its leading white space.
pub open spec fn header_columns(line: Seq<char>) -> (nat, nat, nat, nat, nat) {
    let header = trim_start_of(line);
    (
        column_offset(header, "LAST SEEN"@),
        column_offset(header, "TYPE"@),
        column_offset(header, "REASON"@),
        column_offset(header, "OBJECT"@),
        column_offset(header, "MESSAGE"@),
    )
}

/// The columns that a state holds after it has seen `line`: those it held
/// already, else those of `line` where `line` is a header.
pub open spec fn columns_after(
    before: Option<(usize, usize, usize, usize, usize)>,
    line: Seq<char>,
) -> Option<(nat, nat, nat, nat, nat)> {
    match before {
        Some(c) => Some((c.0 as nat, c.1 as nat, c.2 as nat, c.3 as nat, c.4 as nat)),
        None => if is_events_header(line) {
            Some(header_columns(line))
        } else {
            None
        },
    }
}

/// The columns of a state as natural numbers.
pub open spec fn columns_of(state: ParseState) -> Option<(nat, nat, nat, nat, nat)> {
    match state.kubectl_events_cols {
        Some(c) => Some((c.0 as nat, c.1 as nat, c.2 as nat, c.3 as nat, c.4 as nat)),
        None => None,
    }
}

fn column_at(header: &[char], name: &str) -> (off: usize)
    requires
        crate::utf8::utf8_len(header@) <= usize::MAX,
    ensures
        off == column_offset(header@, name@),
{
    let name = chars_of(name);
    match find(header, name.as_slice()) {
        Some(i) => offset_of(header, i),
        None => 0,
    }
}

/// Tells whether `line` is the header of an events table. Where it is, and
/// the state holds no columns yet, the columns of `line` are recorded;
/// columns once recorded stay. The mode flag is left as it was.
pub fn is_kubectl_events_header(line: &str, state: &mut ParseState) -> (r: bool)
    ensures
        r == is_events_header(line@),
        final(state).kubectl_events_mode == old(state).kubectl_events_mode,
        columns_of(*final(state)) == columns_after(old(state).kubectl_events_cols, line@),
{
    let text = chars_of(line);
    let header = trim_start(text.as_slice());
    // The header is held as a string once, so that its bytes, and with them
    // every offset into it, are known to fit a `usize`.
    let header_string = string_of(header.as_slice());
    let _bytes: usize = str_byte_len(header_string.as_str());
    let header = header.as_slice();
    let first = chars_of("LAST SEEN");
    let second = chars_of("TYPE");
    let third = chars_of("REASON");
    if starts_with(header, first.as_slice()) && contains(header, second.as_slice()) && contains(
        header,
        third.as_slice(),
    ) {
        if state.kubectl_events_cols.is_none() {
            let c0 = column_at(header, "LAST SEEN");
            let c1 = column_at(header, "TYPE");
            let c2 = column_at(header, "REASON");
            let c3 = column_at(header, "OBJECT");
            let c4 = column_at(header, "MESSAGE");
            state.kubectl_events_cols = Some((c0, c1, c2, c3, c4));
        }
        true
    } else {
        false
    }
}

/// The five fields of a row cut at the byte offsets `cols`, each without the
/// white space around it. There is no row where an offset lies beyond the
/// line, inside a character, or before the offset of the column to its left.
pub open spec fn event_row(line: Seq<char>, cols: (nat, nat, nat, nat, nat)) -> Option<
    (Seq<char>, Seq<char>, Seq<char>, Seq<char>, Seq<char>),
> {
    match (
        byte_slice(line, cols.0 as int, cols.1 as int),
        byte_slice(line, cols.1 as int, cols.2 as int),
        byte_slice(line, cols.2 as int, cols.3 as int),
        byte_slice(line, cols.3 as int, cols.4 as int),
        byte_tail(line, cols.4 as int),
    ) {
        (Some(a), Some(b), Some(c), Some(d), Some(e)) => Some(
            (trim_of(a), trim_of(b), trim_of(c), trim_of(d), trim_of(e)),
        ),
        _ => None,
    }
}

/// The row that `line` is under the columns of `state`; none where the state
/// holds no columns.
pub open spec fn event_row_in(line: Seq<char>, state: ParseState) -> Option<
    (Seq<char>, Seq<char>, Seq<char>, Seq<char>, Seq<char>),
> {
    match columns_of(state) {
        Some(cols) => event_row(line, cols),
        None => None,
    }
}

/// Cuts `line` at the columns that `state` holds into last seen, type,
/// reason, object and message.
pub fn parse_kubectl_event_line(line: &str, state: &ParseState) -> (r: Option<
    (String, String, String, String, String),
>)
    ensures
        match r {
            Some(t) => event_row_in(line@, *state) == Some((t.0@, t.1@, t.2@, t.3@, t.4@)),
            None => event_row_in(line@, *state) is None,
        },
{
    let cols = match state.kubectl_events_cols {
        Some(c) => c,
        None => {
            return None;
        },
    };
    let text = chars_of(line);
    let text = text.as_slice();
    let a = match slice_bytes(text, cols.0, cols.1) {
        Some(a) => a,
        None => {
            return None;
        },
    };
    let b = match slice_bytes(text, cols.1, cols.2) {
        Some(b) => b,
        None => {
            return None;
        },
    };
    let c = match slice_bytes(text, cols.2, cols.3) {
        Some(c) => c,
        None => {
            return None;
        },
    };
    let d = match slice_bytes(text, cols.3, cols.4) {
        Some(d) => d,
        None => {
            return None;
        },
    };
    let e = match tail_bytes(text, cols.4) {
        Some(e) => e,
        None => {
            return None;
        },
    };
    let last_seen = string_of(trim(a.as_slice()).as_slice());
    let kind = string_of(trim(b.as_slice()).as_slice());
    let reason = string_of(trim(c.as_slice()).as_slice());
    let object = string_of(trim(d.as_slice()).as_slice());
    let message = string_of(trim(e.as_slice()).as_slice());
    Some((last_seen, kind, reason, object, message))
}

/// Bold type in the colour `fg`, or in the terminal's own colour.
pub open spec fn bold_in(fg: Option<Color>) -> Style {
    Style { fg, bg: None, bold: true, italic: false }
}

/// The colour that stands for a kind of resource; white for a kind that is
/// none of the nine known ones.
pub open spec fn kind_color(kind: Seq<char>) -> Color {
    if kind == "pod"@ {
        Color::Magenta
    } else if kind == "replicaset"@ {
        Color::Blue
    } else if kind == "deployment"@ {
        Color::Green
    } else if kind == "service"@ {
        Color::Yellow
    } else if kind == "job"@ {
        Color::Cyan
    } else if kind == "daemonset"@ {
        Color::Red
    } else if kind == "statefulset"@ {
        Color::Fixed(93)
    } else if kind == "configmap"@ {
        Color::Fixed(208)
    } else if kind == "secret"@ {
        Color::Fixed(244)
    } else {
        Color::White
    }
}

/// An object with the kind before its first slash in that kind's colour; an
/// object without a slash is a kind as a whole.
pub open spec fn object_drawn(object: Seq<char>, plain: bool) -> Seq<char> {
    let cut: int = match find_first(object, seq!['/']) {
        Some(i) => i,
        None => object.len() as int,
    };
    tinted(object.take(cut), bold_in(Some(kind_color(object.take(cut)))), plain) + object.skip(
        cut,
    )
}

/// The colour of an event's type: red for `Warning`, green for `Normal`.
pub open spec fn type_color(kind: Seq<char>) -> Option<Color> {
    if kind == "Warning"@ {
        Some(Color::Red)
    } else if kind == "Normal"@ {
        Some(Color::Green)
    } else {
        None
    }
}

/// A row, drawn: each field but the message padded to its column's width and
/// then painted, with one space between the columns. The message comes as it
/// is handed in, highlighted already.
pub open spec fn row_drawn(
    last_seen: Seq<char>,
    kind: Seq<char>,
    reason: Seq<char>,
    object: Seq<char>,
    message: Seq<char>,
    plain: bool,
) -> Seq<char> {
    tinted(pad_right(last_seen, 8), bold_in(None), plain) + seq![' '] + tinted(
        pad_right(kind, 8),
        bold_in(type_color(kind)),
        plain,
    ) + seq![' '] + tinted(pad_right(reason, 18), bold_in(Some(Color::Yellow)), plain) + seq![' ']
        + object_drawn(pad_right(object, 52), plain) + seq![' '] + message
}

/// The header, drawn: the five titles in bold type, one space between them.
pub open spec fn header_drawn(plain: bool) -> Seq<char> {
    tinted("LAST SEEN"@, bold_in(None), plain) + seq![' '] + tinted(
        "TYPE"@,
        bold_in(None),
        plain,
    ) + seq![' '] + tinted("REASON"@, bold_in(None), plain) + seq![' '] + tinted(
        "OBJECT"@,
        bold_in(None),
        plain,
    ) + seq![' '] + tinted("MESSAGE"@, bold_in(None), plain)
}

fn color_of_kind(kind: &[char]) -> (c: Color)
    ensures
        c == kind_color(kind@),
{
    if is_str(kind, "pod") {
        Color::Magenta
    } else if is_str(kind, "replicaset") {
        Color::Blue
    } else if is_str(kind, "deployment") {
        Color::Green
    } else if is_str(kind, "service") {
        Color::Yellow
    } else if is_str(kind, "job") {
        Color::Cyan
    } else if is_str(kind, "daemonset") {
        Color::Red
    } else if is_str(kind, "statefulset") {
        Color::Fixed(93)
    } else if is_str(kind, "configmap") {
        Color::Fixed(208)
    } else if is_str(kind, "secret") {
        Color::Fixed(244)
    } else {
        Color::White
    }
}

fn draw_object(object: &[char], plain: bool) -> (out: Vec<char>)
    ensures
        out@ == object_drawn(object@, plain),
{
    let cut: usize = match find_char(object, '/') {
        Some(i) => i,
        None => object.len(),
    };
    let kind = copy_range(object, 0, cut);
    let rest = copy_range(object, cut, object.len());
    assert(kind@ == object@.take(cut as int));
    assert(rest@ == object@.skip(cut as int));
    let style = Style {
        fg: Some(color_of_kind(kind.as_slice())),
        bg: None,
        bold: true,
        italic: false,
    };
    let mut out = tint(kind.as_slice(), &style, plain);
    push_all(&mut out, rest.as_slice());
    out
}

/// Draws an object with its kind in that kind's colour; without escape
/// sequences where `disable_coloring` holds.
pub fn colorize_object_type(object: &str, disable_coloring: bool) -> (r: String)
    ensures
        r@ == object_drawn(object@, disable_coloring),
{
    let text = chars_of(object);
    let out = draw_object(text.as_slice(), disable_coloring);
    string_of(out.as_slice())
}

fn push_title(out: &mut Vec<char>, title: &str, plain: bool)
    ensures
        final(out)@ == old(out)@ + tinted(title@, bold_in(None), plain),
{
    let style = Style { fg: None, bg: None, bold: true, italic: false };
    let text = chars_of(title);
    let drawn = tint(text.as_slice(), &style, plain);
    push_all(out, drawn.as_slice());
}

/// Draws the header of the table.
pub fn format_events_header(disable_coloring: bool) -> (r: String)
    ensures
        r@ == header_drawn(disable_coloring),
{
    let mut out: Vec<char> = Vec::new();
    push_title(&mut out, "LAST SEEN", disable_coloring);
    out.push(' ');
    push_title(&mut out, "TYPE", disable_coloring);
    out.push(' ');
    push_title(&mut out, "REASON", disable_coloring);
    out.push(' ');
    push_title(&mut out, "OBJECT", disable_coloring);
    out.push(' ');
    push_title(&mut out, "MESSAGE", disable_coloring);
    string_of(out.as_slice())
}

fn push_field(out: &mut Vec<char>, field: &[char], width: usize, style: &Style, plain: bool)
    ensures
        final(out)@ == old(out)@ + tinted(pad_right(field@, width as nat), *style, plain),
{
    let padded = pad(field, width);
    let drawn = tint(padded.as_slice(), style, plain);
    push_all(out, drawn.as_slice());
}

/// Draws a row of the table from its five fields; `message` is written as it
/// is.
pub fn format_event_row(
    last_seen: &str,
    kind: &str,
    reason: &str,
    object: &str,
    message: &str,
    disable_coloring: bool,
) -> (r: String)
    ensures
        r@ == row_drawn(last_seen@, kind@, reason@, object@, message@, disable_coloring),
{
    let plain = disable_coloring;
    let kind_text = chars_of(kind);
    let kind_text = kind_text.as_slice();
    let kind_fg = if is_str(kind_text, "Warning") {
        Some(Color::Red)
    } else if is_str(kind_text, "Normal") {
        Some(Color::Green)
    } else {
        None
    };
    let mut out: Vec<char> = Vec::new();
    let seen_text = chars_of(last_seen);
    push_field(
        &mut out,
        seen_text.as_slice(),
        8,
        &Style { fg: None, bg: None, bold: true, italic: false },
        plain,
    );
    out.push(' ');
    push_field(
        &mut out,
        kind_text,
        8,
        &Style { fg: kind_fg, bg: None, bold: true, italic: false },
        plain,
    );
    out.push(' ');
    let reason_text = chars_of(reason);
    push_field(
        &mut out,
        reason_text.as_slice(),
        18,
        &Style { fg: Some(Color::Yellow), bg: None, bold: true, italic: false },
        plain,
    );
    out.push(' ');
    let object_text = chars_of(object);
    let padded = pad(object_text.as_slice(), 52);
    let drawn = draw_object(padded.as_slice(), plain);
    push_all(&mut out, drawn.as_slice());
    out.push(' ');
    push_str(&mut out, message);
    string_of(out.as_slice())
}

} // verus!
