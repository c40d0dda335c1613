//! Colours and styles, and the escape sequences that switch them on and off.

use vstd::prelude::*;
use yansi::Color;
use crate::text::{chars_of, push_all};

verus! {

/// The colours of `yansi`. Verus reads the enum as `yansi` defines it, so
/// that a colour is built and told apart in verified code.
#[verifier::external_type_specification]
pub struct ExColor(yansi::Color);

/// What a stretch of text is painted with.
#[derive(Clone, Copy, Debug, PartialEq, Eq)]
pub struct Style {
    /// The colour of the text.
    pub fg: Option<Color>,
    /// The colour behind the text.
    pub bg: Option<Color>,
    /// Bold type.
    pub bold: bool,
    /// Italic type.
    pub italic: bool,
}

/// The escape sequence that switches `style` on.
pub uninterp spec fn ansi_prefix(style: Style) -> Seq<char>;

/// Whether `style` sets nothing: no colour and no attribute.
pub open spec fn sets_nothing(style: Style) -> bool {
    style.fg is None && style.bg is None && !style.bold && !style.italic
}

/// The escape sequence that switches `style` off again: the reset sequence,
/// and nothing for a style that sets nothing.
pub open spec fn ansi_suffix(style: Style) -> Seq<char> {
    if sets_nothing(style) {
        Seq::empty()
    } else {
        "\x1B[0m"@
    }
}

/// `text` between the two escape sequences of `style`.
pub open spec fn painted(text: Seq<char>, style: Style) -> Seq<char> {
    ansi_prefix(style) + text + ansi_suffix(style)
}

/// `yansi::Style::prefix`, on the `yansi` style with the colours and the
/// attributes of `style`: the sequence that a painted value begins with,
/// whether or not painting is switched on for the process.
#[verifier::external_body]
fn prefix_of(style: &Style) -> (r: String)
    ensures
        r@ == ansi_prefix(*style),
{
    let mut s = yansi::Style::new();
    s.foreground = style.fg;
    s.background = style.bg;
    if style.bold {
        s = s.bold();
    }
    if style.italic {
        s = s.italic();
    }
    s.prefix().into_owned()
}

/// `yansi::Style::suffix`, on the `yansi` style with the colours and the
/// attributes of `style`: the sequence that a painted value ends with. It is
/// the reset sequence, but for the style that equals the default one, which
/// has no sequence at all.
#[verifier::external_body]
fn suffix_of(style: &Style) -> (r: String)
    ensures
        r@ == ansi_suffix(*style),
{
    let mut s = yansi::Style::new();
    s.foreground = style.fg;
    s.background = style.bg;
    if style.bold {
        s = s.bold();
    }
    if style.italic {
        s = s.italic();
    }
    s.suffix().into_owned()
}

impl Style {
    /// The style with the text colour `fg` and nothing else.
    pub fn colored(fg: Color) -> (s: Style)
        ensures
            s == (Style { fg: Some(fg), bg: None, bold: false, italic: false }),
    {
        Style { fg: Some(fg), bg: None, bold: false, italic: false }
    }
}

/// `text` painted with `style`.
pub fn paint(text: &[char], style: &Style) -> (out: Vec<char>)
    ensures
        out@ == painted(text@, *style),
{
    let pre = prefix_of(style);
    let post = suffix_of(style);
    let mut out = chars_of(pre.as_str());
    push_all(&mut out, text);
    let tail = chars_of(post.as_str());
    push_all(&mut out, tail.as_slice());
    out
}

/// `text` as it is where `plain` holds, painted with `style` where it does not.
pub open spec fn tinted(text: Seq<char>, style: Style, plain: bool) -> Seq<char> {
    if plain {
        text
    } else {
        painted(text, style)
    }
}

/// `text`, painted with `style` unless `plain` holds.
pub fn tint(text: &[char], style: &Style, plain: bool) -> (out: Vec<char>)
    ensures
        out@ == tinted(text@, *style, plain),
{
    if plain {
        let mut out: Vec<char> = Vec::new();
        push_all(&mut out, text);
        out
    } else {
        paint(text, style)
    }
}

} // verus!
