//! Color themes: the styles the interface draws with, the built-in palettes
//! and their names.

use vstd::prelude::*;
use crate::num::{parse_u8_radix, parse_u8_spec};
use vstd::string::StringSliceAdditionalSpecFns;

verus! {

/// A terminal color.
#[derive(Debug, Clone, Copy, PartialEq, Eq, Structural)]
pub enum Color {
    Reset,
    Red,
    Green,
    Yellow,
    Magenta,
    Cyan,
    White,
    DarkGray,
    Rgb(u8, u8, u8),
}

/// A text style: optional foreground and background colors and boldness.
#[derive(Debug, Clone, Copy, PartialEq, Eq, Structural)]
pub struct Style {
    pub fg: Option<Color>,
    pub bg: Option<Color>,
    pub bold: bool,
}

/// The style with only a foreground color.
pub open spec fn fg_spec(c: Color) -> Style {
    Style { fg: Some(c), bg: None, bold: false }
}

/// The plain style.
pub fn plain() -> (s: Style)
    ensures
        s == (Style { fg: None, bg: None, bold: false }),
{
    Style { fg: None, bg: None, bold: false }
}

/// The style with only a foreground color.
pub fn fg(c: Color) -> (s: Style)
    ensures
        s == fg_spec(c),
{
    Style { fg: Some(c), bg: None, bold: false }
}

/// The styles of every part of the interface.
#[derive(Debug, Clone, Copy, PartialEq, Eq, Structural)]
pub struct Theme {
    pub border: Style,
    pub focused: Style,
    pub highlight: Style,
    pub key: Style,
    pub running: Style,
    pub success: Style,
    pub error: Style,
    pub dim: Style,
    pub input: Style,
    pub json_string: Style,
    pub json_number: Style,
    pub json_bool: Style,
    pub json_punctuation: Style,
    pub xml_tag: Style,
}

/// The built-in default theme.
pub open spec fn default_theme() -> Theme {
    Theme {
        border: Style { fg: None, bg: None, bold: false },
        focused: fg_spec(Color::Cyan),
        highlight: Style { fg: None, bg: Some(Color::DarkGray), bold: true },
        key: fg_spec(Color::Yellow),
        running: fg_spec(Color::Yellow),
        success: fg_spec(Color::Green),
        error: fg_spec(Color::Red),
        dim: fg_spec(Color::DarkGray),
        input: fg_spec(Color::Yellow),
        json_string: fg_spec(Color::Green),
        json_number: fg_spec(Color::Yellow),
        json_bool: fg_spec(Color::Magenta),
        json_punctuation: fg_spec(Color::White),
        xml_tag: fg_spec(Color::Cyan),
    }
}

impl Theme {
    /// The built-in default theme.
    pub fn default_theme() -> (t: Theme)
        ensures
            t == default_theme(),
    {
        Theme {
            border: plain(),
            focused: fg(Color::Cyan),
            highlight: Style { fg: None, bg: Some(Color::DarkGray), bold: true },
            key: fg(Color::Yellow),
            running: fg(Color::Yellow),
            success: fg(Color::Green),
            error: fg(Color::Red),
            dim: fg(Color::DarkGray),
            input: fg(Color::Yellow),
            json_string: fg(Color::Green),
            json_number: fg(Color::Yellow),
            json_bool: fg(Color::Magenta),
            json_punctuation: fg(Color::White),
            xml_tag: fg(Color::Cyan),
        }
    }
}


/// A UTF-8 continuation byte (`0b10xx_xxxx`).
pub open spec fn is_continuation(b: u8) -> bool {
    128 <= b < 192
}

/// `b` without its leading `'#'` bytes.
pub open spec fn strip_hashes(b: Seq<u8>) -> Seq<u8>
    decreases b.len(),
{
    if b.len() > 0 && b[0] == 35 {
        strip_hashes(b.drop_first())
    } else {
        b
    }
}

/// The value of two bytes read as a hexadecimal `u8` (`u8::from_str_radix`
/// with radix 16), or 0 when they are not one.
pub open spec fn hex_pair(b0: u8, b1: u8) -> u8 {
    parse_u8_spec(seq![b0 as char, b1 as char], 16).unwrap_or(0)
}

/// The bytes of a color text after its leading `'#'`s.
pub open spec fn hex_digits(s: Seq<char>) -> Seq<u8> {
    strip_hashes(vstd::utf8::encode_utf8(s))
}

/// The color a `#rrggbb` text names: without its leading `'#'`s the text
/// must be six bytes long, each pair read as hexadecimal (0 when it is not
/// hexadecimal); otherwise the terminal's default color.
pub open spec fn hex_spec(s: Seq<char>) -> Color {
    let t = hex_digits(s);
    if t.len() != 6 {
        Color::Reset
    } else {
        Color::Rgb(hex_pair(t[0], t[1]), hex_pair(t[2], t[3]), hex_pair(t[4], t[5]))
    }
}

/// The byte pairs of a six-byte color text start on character boundaries.
pub open spec fn hex_ok(s: Seq<char>) -> bool {
    let t = hex_digits(s);
    t.len() == 6 ==> !is_continuation(t[2]) && !is_continuation(t[4])
}

proof fn lemma_strip_hashes_suffix(b: Seq<u8>)
    ensures
        exists|k: int| 0 <= k <= b.len() && strip_hashes(b) == #[trigger] b.skip(k),
    decreases b.len(),
{
    if b.len() > 0 && b[0] == 35 {
        lemma_strip_hashes_suffix(b.drop_first());
        let k = choose|k: int| 0 <= k <= b.drop_first().len() && strip_hashes(b.drop_first()) == #[trigger] b.drop_first().skip(k);
        assert(b.drop_first().skip(k) =~= b.skip(k + 1));
    } else {
        assert(b.skip(0) =~= b);
    }
}

/// ASCII color texts satisfy `hex_ok`.
pub broadcast proof fn lemma_ascii_hex_ok(s: &str)
    requires
        s.is_ascii(),
    ensures
        #[trigger] hex_ok(s@),
{
    broadcast use vstd::string::is_ascii_spec_bytes;

    let b = vstd::utf8::encode_utf8(s@);
    assert(b =~= s.spec_bytes());
    lemma_strip_hashes_suffix(b);
    let k = choose|k: int| 0 <= k <= b.len() && strip_hashes(b) == #[trigger] b.skip(k);
    let t = strip_hashes(b);
    if t.len() == 6 {
        assert(t[2] == b[k + 2]);
        assert(t[4] == b[k + 4]);
        assert(b[k + 2] == s@[k + 2] as u8);
        assert(b[k + 4] == s@[k + 4] as u8);
    }
}

/// Reads a `#rrggbb` color (see `hex_spec`).
fn hex(s: &str) -> (c: Color)
    requires
        hex_ok(s@),
    ensures
        c == hex_spec(s@),
{
    let b = s.as_bytes();
    let mut i: usize = 0;
    assert(b@.skip(0) =~= b@);
    while i < b.len() && b[i] == 35
        invariant
            b@ == vstd::utf8::encode_utf8(s@),
            i <= b@.len(),
            strip_hashes(b@.skip(i as int)) == hex_digits(s@),
        decreases b@.len() - i,
    {
        assert(b@.skip(i as int).drop_first() =~= b@.skip(i + 1));
        i = i + 1;
    }
    let ghost t = b@.skip(i as int);
    assert(strip_hashes(t) == t);
    if b.len() - i != 6 {
        return Color::Reset;
    }
    let r = hex_byte_pair(b[i], b[i + 1]);
    let g = hex_byte_pair(b[i + 2], b[i + 3]);
    let bl = hex_byte_pair(b[i + 4], b[i + 5]);
    Color::Rgb(r, g, bl)
}

/// Two bytes read as a hexadecimal `u8`, or 0.
fn hex_byte_pair(b0: u8, b1: u8) -> (v: u8)
    ensures
        v == hex_pair(b0, b1),
{
    let cs: Vec<char> = vec![b0 as char, b1 as char];
    assert(cs@ =~= seq![b0 as char, b1 as char]);
    match parse_u8_radix(&cs, 16) {
        Some(v) => v,
        None => 0,
    }
}

/// A theme from its fifteen colors: border, focused border, highlight
/// background and foreground (bold), key, running, success, error, dim,
/// input, JSON string, number, boolean and punctuation, and XML tag.
pub open spec fn make_theme_spec(c: Seq<Color>) -> Theme {
    Theme {
        border: fg_spec(c[0]),
        focused: fg_spec(c[1]),
        highlight: Style { fg: Some(c[3]), bg: Some(c[2]), bold: true },
        key: fg_spec(c[4]),
        running: fg_spec(c[5]),
        success: fg_spec(c[6]),
        error: fg_spec(c[7]),
        dim: fg_spec(c[8]),
        input: fg_spec(c[9]),
        json_string: fg_spec(c[10]),
        json_number: fg_spec(c[11]),
        json_bool: fg_spec(c[12]),
        json_punctuation: fg_spec(c[13]),
        xml_tag: fg_spec(c[14]),
    }
}

/// A theme from its fifteen colors (see `make_theme_spec`).
fn make_theme(
    border: Color,
    focused: Color,
    highlight_bg: Color,
    highlight_fg: Color,
    key: Color,
    running: Color,
    success: Color,
    error: Color,
    dim: Color,
    input: Color,
    json_string: Color,
    json_number: Color,
    json_bool: Color,
    json_punctuation: Color,
    xml_tag: Color,
) -> (t: Theme)
    ensures
        t == make_theme_spec(
            seq![border, focused, highlight_bg, highlight_fg, key, running, success, error, dim, input, json_string, json_number, json_bool, json_punctuation, xml_tag],
        ),
{
    Theme {
        border: fg(border),
        focused: fg(focused),
        highlight: Style { fg: Some(highlight_fg), bg: Some(highlight_bg), bold: true },
        key: fg(key),
        running: fg(running),
        success: fg(success),
        error: fg(error),
        dim: fg(dim),
        input: fg(input),
        json_string: fg(json_string),
        json_number: fg(json_number),
        json_bool: fg(json_bool),
        json_punctuation: fg(json_punctuation),
        xml_tag: fg(xml_tag),
    }
}

/// The colors of a theme given as `#rrggbb` texts.
pub open spec fn colors_of(c: Seq<Seq<char>>) -> Seq<Color> {
    c.map_values(|x: Seq<char>| hex_spec(x))
}

/// The positions in a 16-color base16 palette of the fifteen theme colors.
pub open spec fn base16_slots() -> Seq<int> {
    seq![4, 13, 2, 7, 10, 10, 11, 8, 3, 10, 11, 10, 14, 5, 12]
}

/// The theme of a base16 palette.
pub open spec fn base16_spec(p: Seq<Seq<char>>) -> Theme {
    make_theme_spec(base16_slots().map_values(|i: int| hex_spec(p[i])))
}

/// The theme of a base16 palette (see `base16_spec`).
fn base16_theme(colors: [&str; 16]) -> (t: Theme)
    requires
        forall|i: int| 0 <= i < 16 ==> hex_ok((#[trigger] colors@[i])@),
    ensures
        t == base16_spec(colors@.map_values(|x: &str| x@)),
{
    let t = make_theme(
        hex(colors[4]),
        hex(colors[13]),
        hex(colors[2]),
        hex(colors[7]),
        hex(colors[10]),
        hex(colors[10]),
        hex(colors[11]),
        hex(colors[8]),
        hex(colors[3]),
        hex(colors[10]),
        hex(colors[11]),
        hex(colors[10]),
        hex(colors[14]),
        hex(colors[5]),
        hex(colors[12]),
    );
    proof {
        let p = colors@.map_values(|x: &str| x@);
        assert(base16_slots().map_values(|i: int| hex_spec(p[i])) =~= seq![
            hex_spec(p[4]), hex_spec(p[13]), hex_spec(p[2]), hex_spec(p[7]), hex_spec(p[10]),
            hex_spec(p[10]), hex_spec(p[11]), hex_spec(p[8]), hex_spec(p[3]), hex_spec(p[10]),
            hex_spec(p[11]), hex_spec(p[10]), hex_spec(p[14]), hex_spec(p[5]), hex_spec(p[12])
        ]);
    }
    t
}

/// The `catppuccin_mocha` palette.
pub open spec fn catppuccin_mocha_colors() -> Seq<Seq<char>> {
    seq!["#7f849c"@, "#89b4fa"@, "#45475a"@, "#cdd6f4"@, "#f9e2af"@, "#f9e2af"@, "#a6e3a1"@, "#f38ba8"@, "#6c7086"@, "#f9e2af"@, "#a6e3a1"@, "#f9e2af"@, "#cba6f7"@, "#cdd6f4"@, "#94e2d5"@]
}

/// The `catppuccin_mocha` theme.
fn catppuccin_mocha() -> (t: Theme)
    ensures
        t == make_theme_spec(colors_of(catppuccin_mocha_colors())),
{
    broadcast use lemma_ascii_hex_ok;

    proof {
        reveal_strlit("#45475a");
        reveal_strlit("#6c7086");
        reveal_strlit("#7f849c");
        reveal_strlit("#89b4fa");
        reveal_strlit("#94e2d5");
        reveal_strlit("#a6e3a1");
        reveal_strlit("#cba6f7");
        reveal_strlit("#cdd6f4");
        reveal_strlit("#f38ba8");
        reveal_strlit("#f9e2af");
    }
    let t = make_theme(
        hex("#7f849c"),
        hex("#89b4fa"),
        hex("#45475a"),
        hex("#cdd6f4"),
        hex("#f9e2af"),
        hex("#f9e2af"),
        hex("#a6e3a1"),
        hex("#f38ba8"),
        hex("#6c7086"),
        hex("#f9e2af"),
        hex("#a6e3a1"),
        hex("#f9e2af"),
        hex("#cba6f7"),
        hex("#cdd6f4"),
        hex("#94e2d5"),
    );
    assert(colors_of(catppuccin_mocha_colors()) =~= seq![hex_spec("#7f849c"@), hex_spec("#89b4fa"@), hex_spec("#45475a"@), hex_spec("#cdd6f4"@), hex_spec("#f9e2af"@), hex_spec("#f9e2af"@), hex_spec("#a6e3a1"@), hex_spec("#f38ba8"@), hex_spec("#6c7086"@), hex_spec("#f9e2af"@), hex_spec("#a6e3a1"@), hex_spec("#f9e2af"@), hex_spec("#cba6f7"@), hex_spec("#cdd6f4"@), hex_spec("#94e2d5"@)]);
    t
}

/// The `catppuccin_latte` palette.
pub open spec fn catppuccin_latte_colors() -> Seq<Seq<char>> {
    seq!["#8c8fa1"@, "#1e66f5"@, "#bcc0cc"@, "#4c4f69"@, "#df8e1d"@, "#df8e1d"@, "#40a02b"@, "#d20f39"@, "#9ca0b0"@, "#df8e1d"@, "#40a02b"@, "#df8e1d"@, "#8839ef"@, "#4c4f69"@, "#179299"@]
}

/// The `catppuccin_latte` theme.
fn catppuccin_latte() -> (t: Theme)
    ensures
        t == make_theme_spec(colors_of(catppuccin_latte_colors())),
{
    broadcast use lemma_ascii_hex_ok;

    proof {
        reveal_strlit("#179299");
        reveal_strlit("#1e66f5");
        reveal_strlit("#40a02b");
        reveal_strlit("#4c4f69");
        reveal_strlit("#8839ef");
        reveal_strlit("#8c8fa1");
        reveal_strlit("#9ca0b0");
        reveal_strlit("#bcc0cc");
        reveal_strlit("#d20f39");
        reveal_strlit("#df8e1d");
    }
    let t = make_theme(
        hex("#8c8fa1"),
        hex("#1e66f5"),
        hex("#bcc0cc"),
        hex("#4c4f69"),
        hex("#df8e1d"),
        hex("#df8e1d"),
        hex("#40a02b"),
        hex("#d20f39"),
        hex("#9ca0b0"),
        hex("#df8e1d"),
        hex("#40a02b"),
        hex("#df8e1d"),
        hex("#8839ef"),
        hex("#4c4f69"),
        hex("#179299"),
    );
    assert(colors_of(catppuccin_latte_colors()) =~= seq![hex_spec("#8c8fa1"@), hex_spec("#1e66f5"@), hex_spec("#bcc0cc"@), hex_spec("#4c4f69"@), hex_spec("#df8e1d"@), hex_spec("#df8e1d"@), hex_spec("#40a02b"@), hex_spec("#d20f39"@), hex_spec("#9ca0b0"@), hex_spec("#df8e1d"@), hex_spec("#40a02b"@), hex_spec("#df8e1d"@), hex_spec("#8839ef"@), hex_spec("#4c4f69"@), hex_spec("#179299"@)]);
    t
}

/// The `base16_default_dark` palette.
pub open spec fn base16_default_dark_colors() -> Seq<Seq<char>> {
    seq!["#181818"@, "#282828"@, "#383838"@, "#585858"@, "#b8b8b8"@, "#d8d8d8"@, "#e8e8e8"@, "#f8f8f8"@, "#ab4642"@, "#dc9656"@, "#f7ca88"@, "#a1b56c"@, "#86c1b9"@, "#7cafc2"@, "#ba8baf"@, "#a16946"@]
}

/// The `base16_default_dark` theme.
fn base16_default_dark() -> (t: Theme)
    ensures
        t == base16_spec(base16_default_dark_colors()),
{
    broadcast use lemma_ascii_hex_ok;

    proof {
        reveal_strlit("#181818");
        reveal_strlit("#282828");
        reveal_strlit("#383838");
        reveal_strlit("#585858");
        reveal_strlit("#7cafc2");
        reveal_strlit("#86c1b9");
        reveal_strlit("#a16946");
        reveal_strlit("#a1b56c");
        reveal_strlit("#ab4642");
        reveal_strlit("#b8b8b8");
        reveal_strlit("#ba8baf");
        reveal_strlit("#d8d8d8");
        reveal_strlit("#dc9656");
        reveal_strlit("#e8e8e8");
        reveal_strlit("#f7ca88");
        reveal_strlit("#f8f8f8");
    }
    let p: [&str; 16] = [
        "#181818", "#282828", "#383838", "#585858",
        "#b8b8b8", "#d8d8d8", "#e8e8e8", "#f8f8f8",
        "#ab4642", "#dc9656", "#f7ca88", "#a1b56c",
        "#86c1b9", "#7cafc2", "#ba8baf", "#a16946",
    ];
    assert(p@.map_values(|x: &str| x@) =~= base16_default_dark_colors());
    base16_theme(p)
}

/// The `base16_default_light` palette.
pub open spec fn base16_default_light_colors() -> Seq<Seq<char>> {
    seq!["#f8f8f8"@, "#e8e8e8"@, "#d8d8d8"@, "#b8b8b8"@, "#585858"@, "#383838"@, "#282828"@, "#181818"@, "#ab4642"@, "#dc9656"@, "#f7ca88"@, "#a1b56c"@, "#86c1b9"@, "#7cafc2"@, "#ba8baf"@, "#a16946"@]
}

/// The `base16_default_light` theme.
fn base16_default_light() -> (t: Theme)
    ensures
        t == base16_spec(base16_default_light_colors()),
{
    broadcast use lemma_ascii_hex_ok;

    proof {
        reveal_strlit("#181818");
        reveal_strlit("#282828");
        reveal_strlit("#383838");
        reveal_strlit("#585858");
        reveal_strlit("#7cafc2");
        reveal_strlit("#86c1b9");
        reveal_strlit("#a16946");
        reveal_strlit("#a1b56c");
        reveal_strlit("#ab4642");
        reveal_strlit("#b8b8b8");
        reveal_strlit("#ba8baf");
        reveal_strlit("#d8d8d8");
        reveal_strlit("#dc9656");
        reveal_strlit("#e8e8e8");
        reveal_strlit("#f7ca88");
        reveal_strlit("#f8f8f8");
    }
    let p: [&str; 16] = [
        "#f8f8f8", "#e8e8e8", "#d8d8d8", "#b8b8b8",
        "#585858", "#383838", "#282828", "#181818",
        "#ab4642", "#dc9656", "#f7ca88", "#a1b56c",
        "#86c1b9", "#7cafc2", "#ba8baf", "#a16946",
    ];
    assert(p@.map_values(|x: &str| x@) =~= base16_default_light_colors());
    base16_theme(p)
}

/// The `base16_ocean_dark` palette.
pub open spec fn base16_ocean_dark_colors() -> Seq<Seq<char>> {
    seq!["#2b303b"@, "#343d46"@, "#4f5b66"@, "#65737e"@, "#a7adba"@, "#c0c5ce"@, "#dfe1e8"@, "#eff1f5"@, "#bf616a"@, "#d08770"@, "#ebcb8b"@, "#a3be8c"@, "#96b5b4"@, "#8fa1b3"@, "#b48ead"@, "#ab7967"@]
}

/// The `base16_ocean_dark` theme.
fn base16_ocean_dark() -> (t: Theme)
    ensures
        t == base16_spec(base16_ocean_dark_colors()),
{
    broadcast use lemma_ascii_hex_ok;

    proof {
        reveal_strlit("#2b303b");
        reveal_strlit("#343d46");
        reveal_strlit("#4f5b66");
        reveal_strlit("#65737e");
        reveal_strlit("#8fa1b3");
        reveal_strlit("#96b5b4");
        reveal_strlit("#a3be8c");
        reveal_strlit("#a7adba");
        reveal_strlit("#ab7967");
        reveal_strlit("#b48ead");
        reveal_strlit("#bf616a");
        reveal_strlit("#c0c5ce");
        reveal_strlit("#d08770");
        reveal_strlit("#dfe1e8");
        reveal_strlit("#ebcb8b");
        reveal_strlit("#eff1f5");
    }
    let p: [&str; 16] = [
        "#2b303b", "#343d46", "#4f5b66", "#65737e",
        "#a7adba", "#c0c5ce", "#dfe1e8", "#eff1f5",
        "#bf616a", "#d08770", "#ebcb8b", "#a3be8c",
        "#96b5b4", "#8fa1b3", "#b48ead", "#ab7967",
    ];
    assert(p@.map_values(|x: &str| x@) =~= base16_ocean_dark_colors());
    base16_theme(p)
}

/// The `base16_ocean_light` palette.
pub open spec fn base16_ocean_light_colors() -> Seq<Seq<char>> {
    seq!["#eff1f5"@, "#dfe1e8"@, "#c0c5ce"@, "#a7adba"@, "#65737e"@, "#4f5b66"@, "#343d46"@, "#2b303b"@, "#bf616a"@, "#d08770"@, "#ebcb8b"@, "#a3be8c"@, "#96b5b4"@, "#8fa1b3"@, "#b48ead"@, "#ab7967"@]
}

/// The `base16_ocean_light` theme.
fn base16_ocean_light() -> (t: Theme)
    ensures
        t == base16_spec(base16_ocean_light_colors()),
{
    broadcast use lemma_ascii_hex_ok;

    proof {
        reveal_strlit("#2b303b");
        reveal_strlit("#343d46");
        reveal_strlit("#4f5b66");
        reveal_strlit("#65737e");
        reveal_strlit("#8fa1b3");
        reveal_strlit("#96b5b4");
        reveal_strlit("#a3be8c");
        reveal_strlit("#a7adba");
        reveal_strlit("#ab7967");
        reveal_strlit("#b48ead");
        reveal_strlit("#bf616a");
        reveal_strlit("#c0c5ce");
        reveal_strlit("#d08770");
        reveal_strlit("#dfe1e8");
        reveal_strlit("#ebcb8b");
        reveal_strlit("#eff1f5");
    }
    let p: [&str; 16] = [
        "#eff1f5", "#dfe1e8", "#c0c5ce", "#a7adba",
        "#65737e", "#4f5b66", "#343d46", "#2b303b",
        "#bf616a", "#d08770", "#ebcb8b", "#a3be8c",
        "#96b5b4", "#8fa1b3", "#b48ead", "#ab7967",
    ];
    assert(p@.map_values(|x: &str| x@) =~= base16_ocean_light_colors());
    base16_theme(p)
}

/// The `base16_monokai` palette.
pub open spec fn base16_monokai_colors() -> Seq<Seq<char>> {
    seq!["#272822"@, "#383830"@, "#49483e"@, "#75715e"@, "#a59f85"@, "#f8f8f2"@, "#f5f4f1"@, "#f9f8f5"@, "#f92672"@, "#fd971f"@, "#f4bf75"@, "#a6e22e"@, "#a1efe4"@, "#66d9ef"@, "#ae81ff"@, "#cc6633"@]
}

/// The `base16_monokai` theme.
fn base16_monokai() -> (t: Theme)
    ensures
        t == base16_spec(base16_monokai_colors()),
{
    broadcast use lemma_ascii_hex_ok;

    proof {
        reveal_strlit("#272822");
        reveal_strlit("#383830");
        reveal_strlit("#49483e");
        reveal_strlit("#66d9ef");
        reveal_strlit("#75715e");
        reveal_strlit("#a1efe4");
        reveal_strlit("#a59f85");
        reveal_strlit("#a6e22e");
        reveal_strlit("#ae81ff");
        reveal_strlit("#cc6633");
        reveal_strlit("#f4bf75");
        reveal_strlit("#f5f4f1");
        reveal_strlit("#f8f8f2");
        reveal_strlit("#f92672");
        reveal_strlit("#f9f8f5");
        reveal_strlit("#fd971f");
    }
    let p: [&str; 16] = [
        "#272822", "#383830", "#49483e", "#75715e",
        "#a59f85", "#f8f8f2", "#f5f4f1", "#f9f8f5",
        "#f92672", "#fd971f", "#f4bf75", "#a6e22e",
        "#a1efe4", "#66d9ef", "#ae81ff", "#cc6633",
    ];
    assert(p@.map_values(|x: &str| x@) =~= base16_monokai_colors());
    base16_theme(p)
}

/// The `base16_one_dark` palette.
pub open spec fn base16_one_dark_colors() -> Seq<Seq<char>> {
    seq!["#1e222a"@, "#353b45"@, "#3e4451"@, "#545862"@, "#565c64"@, "#abb2bf"@, "#b6bdca"@, "#c8ccd4"@, "#e06c75"@, "#d19a66"@, "#e5c07b"@, "#98c379"@, "#56b6c2"@, "#61afef"@, "#c678dd"@, "#be5046"@]
}

/// The `base16_one_dark` theme.
fn base16_one_dark() -> (t: Theme)
    ensures
        t == base16_spec(base16_one_dark_colors()),
{
    broadcast use lemma_ascii_hex_ok;

    proof {
        reveal_strlit("#1e222a");
        reveal_strlit("#353b45");
        reveal_strlit("#3e4451");
        reveal_strlit("#545862");
        reveal_strlit("#565c64");
        reveal_strlit("#56b6c2");
        reveal_strlit("#61afef");
        reveal_strlit("#98c379");
        reveal_strlit("#abb2bf");
        reveal_strlit("#b6bdca");
        reveal_strlit("#be5046");
        reveal_strlit("#c678dd");
        reveal_strlit("#c8ccd4");
        reveal_strlit("#d19a66");
        reveal_strlit("#e06c75");
        reveal_strlit("#e5c07b");
    }
    let p: [&str; 16] = [
        "#1e222a", "#353b45", "#3e4451", "#545862",
        "#565c64", "#abb2bf", "#b6bdca", "#c8ccd4",
        "#e06c75", "#d19a66", "#e5c07b", "#98c379",
        "#56b6c2", "#61afef", "#c678dd", "#be5046",
    ];
    assert(p@.map_values(|x: &str| x@) =~= base16_one_dark_colors());
    base16_theme(p)
}

/// The `base16_one_light` palette.
pub open spec fn base16_one_light_colors() -> Seq<Seq<char>> {
    seq!["#fafafa"@, "#f0f0f1"@, "#e5e5e6"@, "#a0a1a7"@, "#696c77"@, "#383a42"@, "#202227"@, "#090a0f"@, "#ca1243"@, "#d75f00"@, "#c18401"@, "#50a14f"@, "#0184bc"@, "#4078f2"@, "#a626a4"@, "#986801"@]
}

/// The `base16_one_light` theme.
fn base16_one_light() -> (t: Theme)
    ensures
        t == base16_spec(base16_one_light_colors()),
{
    broadcast use lemma_ascii_hex_ok;

    proof {
        reveal_strlit("#0184bc");
        reveal_strlit("#090a0f");
        reveal_strlit("#202227");
        reveal_strlit("#383a42");
        reveal_strlit("#4078f2");
        reveal_strlit("#50a14f");
        reveal_strlit("#696c77");
        reveal_strlit("#986801");
        reveal_strlit("#a0a1a7");
        reveal_strlit("#a626a4");
        reveal_strlit("#c18401");
        reveal_strlit("#ca1243");
        reveal_strlit("#d75f00");
        reveal_strlit("#e5e5e6");
        reveal_strlit("#f0f0f1");
        reveal_strlit("#fafafa");
    }
    let p: [&str; 16] = [
        "#fafafa", "#f0f0f1", "#e5e5e6", "#a0a1a7",
        "#696c77", "#383a42", "#202227", "#090a0f",
        "#ca1243", "#d75f00", "#c18401", "#50a14f",
        "#0184bc", "#4078f2", "#a626a4", "#986801",
    ];
    assert(p@.map_values(|x: &str| x@) =~= base16_one_light_colors());
    base16_theme(p)
}

/// The names of the built-in themes, in cycling order.
pub open spec fn theme_names_spec() -> Seq<Seq<char>> {
    seq!["Default"@, "Catppuccin Mocha"@, "Catppuccin Latte"@, "Base16 Default Dark"@, "Base16 Default Light"@, "Base16 Ocean Dark"@, "Base16 Ocean Light"@, "Base16 Monokai"@, "Base16 One Dark"@, "Base16 One Light"@]
}

/// The names of the built-in themes, in cycling order.
pub fn theme_names() -> (r: Vec<&'static str>)
    ensures
        r@.map_values(|x: &str| x@) == theme_names_spec(),
{
    let r: Vec<&'static str> = vec![
        "Default", "Catppuccin Mocha", "Catppuccin Latte",
        "Base16 Default Dark", "Base16 Default Light", "Base16 Ocean Dark",
        "Base16 Ocean Light", "Base16 Monokai", "Base16 One Dark",
        "Base16 One Light",
    ];
    assert(r@.map_values(|x: &str| x@) =~= theme_names_spec());
    r
}

/// The theme a name selects; unknown names select the default theme.
pub open spec fn theme_by_name_spec(name: Seq<char>) -> Theme {
    if name == "Catppuccin Mocha"@ {
        make_theme_spec(colors_of(catppuccin_mocha_colors()))
    } else if name == "Catppuccin Latte"@ {
        make_theme_spec(colors_of(catppuccin_latte_colors()))
    } else if name == "Base16 Default Dark"@ {
        base16_spec(base16_default_dark_colors())
    } else if name == "Base16 Default Light"@ {
        base16_spec(base16_default_light_colors())
    } else if name == "Base16 Ocean Dark"@ {
        base16_spec(base16_ocean_dark_colors())
    } else if name == "Base16 Ocean Light"@ {
        base16_spec(base16_ocean_light_colors())
    } else if name == "Base16 Monokai"@ {
        base16_spec(base16_monokai_colors())
    } else if name == "Base16 One Dark"@ {
        base16_spec(base16_one_dark_colors())
    } else if name == "Base16 One Light"@ {
        base16_spec(base16_one_light_colors())
    } else {
        default_theme()
    }
}

/// Whether two strings are equal.
pub fn str_eq(a: &str, b: &str) -> (r: bool)
    ensures
        r == (a@ == b@),
{
    let av = crate::text::chars_of(a);
    let bv = crate::text::chars_of(b);
    if av.len() != bv.len() {
        return false;
    }
    let mut i: usize = 0;
    while i < av.len()
        invariant
            av@ == a@,
            bv@ == b@,
            av.len() == bv.len(),
            i <= av.len(),
            forall|j: int| 0 <= j < i ==> a@[j] == b@[j],
        decreases av.len() - i,
    {
        if av[i] != bv[i] {
            return false;
        }
        i = i + 1;
    }
    assert(a@ =~= b@);
    true
}

/// The theme a name selects; unknown names select the default theme.
pub fn theme_by_name(name: &str) -> (t: Theme)
    ensures
        t == theme_by_name_spec(name@),
{
    if str_eq(name, "Catppuccin Mocha") {
        catppuccin_mocha()
    } else if str_eq(name, "Catppuccin Latte") {
        catppuccin_latte()
    } else if str_eq(name, "Base16 Default Dark") {
        base16_default_dark()
    } else if str_eq(name, "Base16 Default Light") {
        base16_default_light()
    } else if str_eq(name, "Base16 Ocean Dark") {
        base16_ocean_dark()
    } else if str_eq(name, "Base16 Ocean Light") {
        base16_ocean_light()
    } else if str_eq(name, "Base16 Monokai") {
        base16_monokai()
    } else if str_eq(name, "Base16 One Dark") {
        base16_one_dark()
    } else if str_eq(name, "Base16 One Light") {
        base16_one_light()
    } else {
        Theme::default_theme()
    }
}

} // verus!
