//! Terminal colours and the painting of text.

#[allow(unused_imports)]
use crate::text::joined;
use ansiterm::Colour as Ink;
use vstd::prelude::*;
#[allow(unused_imports)]
use vstd::utf8::encode_utf8;

verus! {

/// The colours of the terminal's own palette.
#[derive(Debug, Clone, Copy, PartialEq, Eq, Structural)]
pub enum Colour {
    Black,
    Red,
    Green,
    Yellow,
    Blue,
    Purple,
    Cyan,
    White,
}

/// How a piece of text looks.
#[derive(Debug, Clone, Copy, PartialEq, Eq, Structural)]
pub struct Style {
    pub foreground: Option<Colour>,
    pub bold: bool,
    pub dimmed: bool,
}

/// The number that selects a foreground colour.
pub open spec fn colour_code(c: Colour) -> Seq<char> {
    match c {
        Colour::Black => "30"@,
        Colour::Red => "31"@,
        Colour::Green => "32"@,
        Colour::Yellow => "33"@,
        Colour::Blue => "34"@,
        Colour::Purple => "35"@,
        Colour::Cyan => "36"@,
        Colour::White => "37"@,
    }
}

/// The numbers that select a style, in the order in which they are written.
pub open spec fn codes(style: Style) -> Seq<Seq<char>> {
    (if style.bold {
        seq!["1"@]
    } else {
        seq![]
    }) + (if style.dimmed {
        seq!["2"@]
    } else {
        seq![]
    }) + (match style.foreground {
        Some(c) => seq![colour_code(c)],
        None => seq![],
    })
}

/// A style with nothing set.
pub open spec fn is_plain(style: Style) -> bool {
    style.foreground is None && !style.bold && !style.dimmed
}

/// What is written before a text to switch the style on.
pub open spec fn style_prefix(style: Style) -> Seq<char> {
    if is_plain(style) {
        seq![]
    } else {
        "\x1b["@ + joined(codes(style), ";"@) + "m"@
    }
}

/// What is written after a text to switch the style off.
pub open spec fn style_suffix(style: Style) -> Seq<char> {
    if is_plain(style) {
        seq![]
    } else {
        "\x1b[0m"@
    }
}

/// A text in a style.
pub open spec fn painted(style: Style, text: Seq<char>) -> Seq<char> {
    style_prefix(style) + text + style_suffix(style)
}

/// Bytes in a style.
pub open spec fn painted_bytes(style: Style, bytes: Seq<u8>) -> Seq<u8> {
    encode_utf8(style_prefix(style)) + bytes + encode_utf8(style_suffix(style))
}

/// The text of `Style::paint` of the crate ansiterm: the escape sequence that switches the style
/// on, the text, and the sequence that switches all styles off. A style with nothing set leaves
/// the text as it is.
#[verifier::external_body]
pub(crate) fn paint(style: Style, text: &str) -> (r: String)
    ensures
        r@ == painted(style, text@),
{
    let foreground = match style.foreground {
        None => None,
        Some(Colour::Black) => Some(Ink::Black),
        Some(Colour::Red) => Some(Ink::Red),
        Some(Colour::Green) => Some(Ink::Green),
        Some(Colour::Yellow) => Some(Ink::Yellow),
        Some(Colour::Blue) => Some(Ink::Blue),
        Some(Colour::Purple) => Some(Ink::Purple),
        Some(Colour::Cyan) => Some(Ink::Cyan),
        Some(Colour::White) => Some(Ink::White),
    };
    let (is_bold, is_dimmed) = (style.bold, style.dimmed);
    ansiterm::Style { foreground, is_bold, is_dimmed, ..ansiterm::Style::new() }.paint(text).to_string()
}

/// What `write_to` of the crate ansiterm writes for bytes in a style: the sequence that switches
/// the style on, the bytes, and the sequence that switches all styles off.
#[verifier::external_body]
pub(crate) fn paint_bytes(style: Style, bytes: &[u8]) -> (r: Vec<u8>)
    ensures
        r@ == painted_bytes(style, bytes@),
{
    let foreground = match style.foreground {
        None => None,
        Some(Colour::Black) => Some(Ink::Black),
        Some(Colour::Red) => Some(Ink::Red),
        Some(Colour::Green) => Some(Ink::Green),
        Some(Colour::Yellow) => Some(Ink::Yellow),
        Some(Colour::Blue) => Some(Ink::Blue),
        Some(Colour::Purple) => Some(Ink::Purple),
        Some(Colour::Cyan) => Some(Ink::Cyan),
        Some(Colour::White) => Some(Ink::White),
    };
    let (is_bold, is_dimmed, mut out) = (style.bold, style.dimmed, Vec::new());
    let style = ansiterm::Style { foreground, is_bold, is_dimmed, ..ansiterm::Style::new() };
    let _ = style.paint(bytes).write_to(&mut out);
    out
}

impl Style {
    /// A style with nothing set.
    pub fn new() -> (r: Style)
        ensures
            is_plain(r),
    {
        Style { foreground: None, bold: false, dimmed: false }
    }
}

/// The styles of the parts of the program's output.
#[derive(Debug, Clone, Copy)]
pub struct Colors {
    pub enabled: bool,
    pub field: Style,
    pub bold: Style,
    pub error: Style,
    pub warning: Style,
    pub action: Style,
    pub sl_repo: Style,
    pub sl_pkg: Style,
    pub sl_version: Style,
    pub sl_installed: Style,
    pub ss_name: Style,
    pub ss_ver: Style,
    pub ss_installed: Style,
    pub old_version: Style,
    pub new_version: Style,
    pub install_version: Style,
    pub number_menu: Style,
    pub tx_install: Style,
    pub tx_upgrade: Style,
    pub tx_remove: Style,
    pub tx_arrow: Style,
}

/// Whether there are no colours at all.
pub open spec fn is_colourless(c: Colors) -> bool {
    &&& !c.enabled
    &&& is_plain(c.field) && is_plain(c.bold) && is_plain(c.error) && is_plain(c.warning)
    &&& is_plain(c.action) && is_plain(c.sl_repo) && is_plain(c.sl_pkg) && is_plain(c.sl_version)
    &&& is_plain(c.sl_installed) && is_plain(c.ss_name) && is_plain(c.ss_ver)
    &&& is_plain(c.ss_installed) && is_plain(c.old_version) && is_plain(c.new_version)
    &&& is_plain(c.install_version) && is_plain(c.number_menu) && is_plain(c.tx_install)
    &&& is_plain(c.tx_upgrade) && is_plain(c.tx_remove) && is_plain(c.tx_arrow)
}

impl Colors {
    /// No colours at all.
    pub fn plain() -> (r: Colors)
        ensures
            is_colourless(r),
    {
        let p = Style::new();
        Colors {
            enabled: false,
            field: p,
            bold: p,
            error: p,
            warning: p,
            action: p,
            sl_repo: p,
            sl_pkg: p,
            sl_version: p,
            sl_installed: p,
            ss_name: p,
            ss_ver: p,
            ss_installed: p,
            old_version: p,
            new_version: p,
            install_version: p,
            number_menu: p,
            tx_install: p,
            tx_upgrade: p,
            tx_remove: p,
            tx_arrow: p,
        }
    }
}

/// The heading of a step: a mark and a title.
pub open spec fn heading(c: Colors, title: Seq<char>) -> Seq<char> {
    painted(c.action, "::"@) + " "@ + painted(c.bold, title)
}

/// The heading of a step.
pub fn heading_text(c: &Colors, title: &str) -> (r: String)
    ensures
        r@ == heading(*c, title@),
{
    let mut out = paint(c.action, "::");
    crate::text::put(&mut out, " ");
    crate::text::put(&mut out, paint(c.bold, title).as_str());
    out
}

} // verus!
