//! How a level and a provider are drawn.

use vstd::prelude::*;
use yansi::Color;
use crate::space::{pad, pad_right};
use crate::style::{tint, tinted, Style};
use crate::text::{chars_of, is_str, string_of};

verus! {

/// The symbol that stands for an upper-case level name; a dot for a name that
/// is none of the five.
pub open spec fn symbol_of(level: Seq<char>) -> Seq<char> {
    if level == "DEBUG"@ {
        "🐛"@
    } else if level == "WARNING"@ {
        "⚠️"@
    } else if level == "ERROR"@ {
        "🚨"@
    } else if level == "INFO"@ {
        "💡"@
    } else if level == "FATAL"@ {
        "💀"@
    } else {
        "∙"@
    }
}

/// The symbol that stands for the upper-case level name `level`.
pub fn level_symbols(level: &str) -> (r: String)
    ensures
        r@ == symbol_of(level@),
{
    let name = chars_of(level);
    let name = name.as_slice();
    let symbol = if is_str(name, "DEBUG") {
        "🐛"
    } else if is_str(name, "WARNING") {
        "⚠️"
    } else if is_str(name, "ERROR") {
        "🚨"
    } else if is_str(name, "INFO") {
        "💡"
    } else if is_str(name, "FATAL") {
        "💀"
    } else {
        "∙"
    };
    symbol.to_owned()
}

/// The style with the text colour `fg` and nothing else.
pub open spec fn fg_only(fg: Color) -> Style {
    Style { fg: Some(fg), bg: None, bold: false, italic: false }
}

/// The word that stands for an upper-case level name, painted unless `plain`
/// holds, and then padded to a fixed width. The width counts the escape
/// sequences too, so that the painted words end in the same column.
pub open spec fn label_of(level: Seq<char>, plain: bool) -> Seq<char> {
    if level == "DEBUG"@ {
        pad_right(tinted("DEBUG"@, fg_only(Color::Fixed(14)), plain), 19)
    } else if level == "WARNING"@ {
        pad_right(tinted("WARN"@, fg_only(Color::Yellow), plain), 19)
    } else if level == "ERROR"@ {
        pad_right(tinted("ERROR"@, fg_only(Color::Red), plain), 18)
    } else if level == "INFO"@ {
        pad_right(tinted("INFO"@, fg_only(Color::Green), plain), 19)
    } else {
        pad_right(tinted(level, fg_only(Color::Fixed(4)), plain), 19)
    }
}

/// The padded word that stands for the upper-case level name `level`, painted
/// unless `disable_coloring` holds.
pub fn color_by_level(level: &str, disable_coloring: bool) -> (r: String)
    ensures
        r@ == label_of(level@, disable_coloring),
{
    let name = chars_of(level);
    let name = name.as_slice();
    let label = if is_str(name, "DEBUG") {
        let word = chars_of("DEBUG");
        let t = tint(word.as_slice(), &Style::colored(Color::Fixed(14)), disable_coloring);
        pad(t.as_slice(), 19)
    } else if is_str(name, "WARNING") {
        let word = chars_of("WARN");
        let t = tint(word.as_slice(), &Style::colored(Color::Yellow), disable_coloring);
        pad(t.as_slice(), 19)
    } else if is_str(name, "ERROR") {
        let word = chars_of("ERROR");
        let t = tint(word.as_slice(), &Style::colored(Color::Red), disable_coloring);
        pad(t.as_slice(), 18)
    } else if is_str(name, "INFO") {
        let word = chars_of("INFO");
        let t = tint(word.as_slice(), &Style::colored(Color::Green), disable_coloring);
        pad(t.as_slice(), 19)
    } else {
        let t = tint(name, &Style::colored(Color::Fixed(4)), disable_coloring);
        pad(t.as_slice(), 19)
    };
    string_of(label.as_slice())
}

/// The glyph that stands for a provider; the provider's own name where it is
/// none of the known ones.
pub open spec fn icon_of(provider: Seq<char>) -> Seq<char> {
    if provider == "github"@ {
        "\u{f09b}"@
    } else if provider == "gitlab"@ {
        "\u{f296}"@
    } else if provider == "bitbucket-cloud"@ {
        "\u{f171}"@
    } else if provider == "bitbucket-server"@ {
        "\u{f171}S"@
    } else if provider == "incoming"@ {
        "\u{f08b}"@
    } else {
        provider
    }
}

/// The glyph that stands for `provider`.
pub fn convert_pac_provider_to_fa_icon(provider: &str) -> (r: &str)
    ensures
        r@ == icon_of(provider@),
{
    let name = chars_of(provider);
    let name = name.as_slice();
    if is_str(name, "github") {
        "\u{f09b}"
    } else if is_str(name, "gitlab") {
        "\u{f296}"
    } else if is_str(name, "bitbucket-cloud") {
        "\u{f171}"
    } else if is_str(name, "bitbucket-server") {
        "\u{f171}S"
    } else if is_str(name, "incoming") {
        "\u{f08b}"
    } else {
        provider
    }
}

} // verus!
