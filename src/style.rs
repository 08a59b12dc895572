//! Terminal text styles and the palette the banner is drawn in.
use vstd::prelude::*;

verus! {

/// A text style: optional foreground and background colors as red, green and
/// blue, and whether the text is italic.
#[derive(Debug, Clone, Copy, PartialEq, Eq)]
pub struct TextStyle {
    pub fg: Option<(u8, u8, u8)>,
    pub bg: Option<(u8, u8, u8)>,
    pub italic: bool,
}

/// `text` between the escape codes that open and close the style with these
/// colors and attribute.
pub uninterp spec fn painted(
    text: Seq<char>,
    fg: Option<(u8, u8, u8)>,
    bg: Option<(u8, u8, u8)>,
    italic: bool,
) -> Seq<char>;

/// `text` shown in `style`.
pub open spec fn paint_spec(text: Seq<char>, style: TextStyle) -> Seq<char> {
    painted(text, style.fg, style.bg, style.italic)
}

/// A style without color or attribute.
pub open spec fn is_plain(style: TextStyle) -> bool {
    style.fg is None && style.bg is None && !style.italic
}

/// Relies on yansi's `Style::prefix` and `Style::suffix`: the escape codes
/// that open and close a style, written whatever yansi's global switch says,
/// and both empty for a style without color or attribute.
#[verifier::external_body]
fn paint_with(text: &str, style: &TextStyle) -> (r: String)
    ensures
        r@ == painted(text@, style.fg, style.bg, style.italic),
        is_plain(*style) ==> r@ == text@,
{
    let mut s = yansi::Style::new();
    s.foreground = style.fg.map(|(r, g, b)| yansi::Color::Rgb(r, g, b));
    s.background = style.bg.map(|(r, g, b)| yansi::Color::Rgb(r, g, b));
    if style.italic {
        s = s.italic();
    }
    format!("{}{}{}", s.prefix(), text, s.suffix())
}

/// `text` shown in `style`.
pub fn paint(text: &str, style: &TextStyle) -> (r: String)
    ensures
        r@ == paint_spec(text@, *style),
        is_plain(*style) ==> r@ == text@,
{
    paint_with(text, style)
}

/// Relies on catppuccin's `PALETTE.mocha.colors.crust.rgb`: (17, 17, 27).
#[verifier::external_body]
fn mocha_crust() -> (r: (u8, u8, u8))
    ensures
        r == (17u8, 17u8, 27u8),
{
    let c = catppuccin::PALETTE.mocha.colors.crust.rgb;
    (c.r, c.g, c.b)
}

/// Relies on catppuccin's `PALETTE.mocha.colors.subtext0.rgb`: (166, 173, 200).
#[verifier::external_body]
fn mocha_subtext0() -> (r: (u8, u8, u8))
    ensures
        r == (166u8, 173u8, 200u8),
{
    let c = catppuccin::PALETTE.mocha.colors.subtext0.rgb;
    (c.r, c.g, c.b)
}

/// Relies on catppuccin's `PALETTE.mocha.colors.pink.rgb`: (245, 194, 231).
#[verifier::external_body]
fn mocha_pink() -> (r: (u8, u8, u8))
    ensures
        r == (245u8, 194u8, 231u8),
{
    let c = catppuccin::PALETTE.mocha.colors.pink.rgb;
    (c.r, c.g, c.b)
}

/// The styles a card is rendered with.
#[derive(Debug, Clone, Copy, PartialEq, Eq)]
pub struct CardStyle {
    /// The headword.
    pub word: TextStyle,
    /// The pronunciation.
    pub reading: TextStyle,
    /// A grammatical-category tag.
    pub tag: TextStyle,
    /// The index of a numbered gloss.
    pub index: TextStyle,
    /// A gloss, and any other entry.
    pub gloss: TextStyle,
}

impl CardStyle {
    /// The Catppuccin Mocha styles.
    pub open spec fn mocha_spec() -> CardStyle {
        CardStyle {
            word: TextStyle { fg: Some((245u8, 194u8, 231u8)), bg: None, italic: false },
            reading: TextStyle { fg: Some((166u8, 173u8, 200u8)), bg: None, italic: false },
            tag: TextStyle { fg: Some((166u8, 173u8, 200u8)), bg: None, italic: true },
            index: TextStyle {
                fg: Some((17u8, 17u8, 27u8)),
                bg: Some((245u8, 194u8, 231u8)),
                italic: false,
            },
            gloss: TextStyle { fg: None, bg: None, italic: false },
        }
    }

    /// The Catppuccin Mocha styles: a pink headword, a subdued reading, italic
    /// subdued tags, indices dark on pink, and glosses unstyled.
    pub fn mocha() -> (r: Self)
        ensures
            r == Self::mocha_spec(),
    {
        let crust = mocha_crust();
        let subtext0 = mocha_subtext0();
        let pink = mocha_pink();
        CardStyle {
            word: TextStyle { fg: Some(pink), bg: None, italic: false },
            reading: TextStyle { fg: Some(subtext0), bg: None, italic: false },
            tag: TextStyle { fg: Some(subtext0), bg: None, italic: true },
            index: TextStyle { fg: Some(crust), bg: Some(pink), italic: false },
            gloss: TextStyle { fg: None, bg: None, italic: false },
        }
    }
}

} // verus!
