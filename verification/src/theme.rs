//! Colour themes: the built-in palettes, reading `#rrggbb` colours, and
//! choosing the active theme from the theme file.
use vstd::prelude::*;
use crate::config::{config_file_in, ConfigError};
use crate::paths::{ends_with, system_config_dir};
use crate::text::str_eq;
use vstd::string::StringSliceAdditionalSpecFns;
use ratatui::style::Color;

verus! {

/// Colours of every part of the interface, as `#rrggbb` strings.
pub struct ThemeConfig {
    pub name: String,
    /// Border of unselected panels.
    pub border_unselected: String,
    /// Border of the selected panel.
    pub border_selected: String,
    /// Header border.
    pub header_border: String,
    /// Star history sparkline.
    pub sparkline: String,
    /// Status bar: live.
    pub status_live: String,
    /// Status bar: stale.
    pub status_stale: String,
    /// Status bar: offline.
    pub status_offline: String,
    /// Primary text.
    pub text_primary: String,
    /// Secondary, muted text.
    pub text_secondary: String,
    /// Highlighted text.
    pub text_highlight: String,
    /// Success indicator.
    pub indicator_success: String,
    /// Warning indicator.
    pub indicator_warning: String,
    /// Error indicator.
    pub indicator_error: String,
    /// Information indicator.
    pub indicator_info: String,
    /// Muted indicator.
    pub indicator_muted: String,
    /// Critical security alerts.
    pub severity_critical: String,
    /// High security alerts.
    pub severity_high: String,
    /// Medium security alerts.
    pub severity_medium: String,
    /// Low security alerts.
    pub severity_low: String,
    /// Help overlay border.
    pub help_border: String,
    /// Help overlay title.
    pub help_title: String,
    /// Draw sparklines with Braille characters (twice the resolution).
    pub braille_mode: bool,
}

/// The colours of a theme, in field order.
pub open spec fn theme_colors(t: ThemeConfig) -> Seq<Seq<char>> {
    seq![
        t.border_unselected@,
        t.border_selected@,
        t.header_border@,
        t.sparkline@,
        t.status_live@,
        t.status_stale@,
        t.status_offline@,
        t.text_primary@,
        t.text_secondary@,
        t.text_highlight@,
        t.indicator_success@,
        t.indicator_warning@,
        t.indicator_error@,
        t.indicator_info@,
        t.indicator_muted@,
        t.severity_critical@,
        t.severity_high@,
        t.severity_medium@,
        t.severity_low@,
        t.help_border@,
        t.help_title@,
    ]
}

/// `t` is the built-in palette `colors` named `name`, without Braille.
pub open spec fn is_palette(t: ThemeConfig, name: Seq<char>, colors: Seq<Seq<char>>) -> bool {
    &&& t.name@ == name
    &&& theme_colors(t) == colors
    &&& !t.braille_mode
}

/// Braille sparklines are off unless the file says otherwise.
pub fn default_braille_mode() -> (b: bool)
    ensures
        !b,
{
    false
}

/// Colours of the `default` theme.
pub open spec fn default_palette() -> Seq<Seq<char>> {
    seq![
        "#6b7280"@,
        "#22d3ee"@,
        "#ffffff"@,
        "#fbbf24"@,
        "#4ade80"@,
        "#facc15"@,
        "#f87171"@,
        "#ffffff"@,
        "#9ca3af"@,
        "#ffffff"@,
        "#4ade80"@,
        "#facc15"@,
        "#f87171"@,
        "#22d3ee"@,
        "#6b7280"@,
        "#ef4444"@,
        "#f87171"@,
        "#facc15"@,
        "#6b7280"@,
        "#22d3ee"@,
        "#22d3ee"@,
    ]
}

/// Colours of the `monochrome` theme.
pub open spec fn monochrome_palette() -> Seq<Seq<char>> {
    seq![
        "#6b7280"@,
        "#ffffff"@,
        "#d1d5db"@,
        "#9ca3af"@,
        "#9ca3af"@,
        "#6b7280"@,
        "#4b5563"@,
        "#ffffff"@,
        "#9ca3af"@,
        "#ffffff"@,
        "#d1d5db"@,
        "#9ca3af"@,
        "#6b7280"@,
        "#d1d5db"@,
        "#4b5563"@,
        "#ffffff"@,
        "#d1d5db"@,
        "#9ca3af"@,
        "#6b7280"@,
        "#d1d5db"@,
        "#ffffff"@,
    ]
}

/// Colours of the `high-contrast` theme.
pub open spec fn high_contrast_palette() -> Seq<Seq<char>> {
    seq![
        "#808080"@,
        "#00ffff"@,
        "#ffffff"@,
        "#ffff00"@,
        "#00ff00"@,
        "#ffff00"@,
        "#ff0000"@,
        "#ffffff"@,
        "#c0c0c0"@,
        "#ffffff"@,
        "#00ff00"@,
        "#ffff00"@,
        "#ff0000"@,
        "#00ffff"@,
        "#808080"@,
        "#ff0000"@,
        "#ff6600"@,
        "#ffff00"@,
        "#808080"@,
        "#00ffff"@,
        "#00ffff"@,
    ]
}

/// Colours of the `solarized-dark` theme.
pub open spec fn solarized_dark_palette() -> Seq<Seq<char>> {
    seq![
        "#586e75"@,
        "#2aa198"@,
        "#eee8d5"@,
        "#b58900"@,
        "#859900"@,
        "#b58900"@,
        "#dc322f"@,
        "#eee8d5"@,
        "#839496"@,
        "#fdf6e3"@,
        "#859900"@,
        "#b58900"@,
        "#dc322f"@,
        "#2aa198"@,
        "#586e75"@,
        "#dc322f"@,
        "#cb4b16"@,
        "#b58900"@,
        "#586e75"@,
        "#2aa198"@,
        "#2aa198"@,
    ]
}

/// Colours of the `dracula` theme.
pub open spec fn dracula_palette() -> Seq<Seq<char>> {
    seq![
        "#6272a4"@,
        "#8be9fd"@,
        "#f8f8f2"@,
        "#f1fa8c"@,
        "#50fa7b"@,
        "#f1fa8c"@,
        "#ff5555"@,
        "#f8f8f2"@,
        "#6272a4"@,
        "#ffffff"@,
        "#50fa7b"@,
        "#f1fa8c"@,
        "#ff5555"@,
        "#8be9fd"@,
        "#6272a4"@,
        "#ff5555"@,
        "#ff79c6"@,
        "#f1fa8c"@,
        "#6272a4"@,
        "#8be9fd"@,
        "#8be9fd"@,
    ]
}

/// Colours of the `gruvbox` theme.
pub open spec fn gruvbox_palette() -> Seq<Seq<char>> {
    seq![
        "#928374"@,
        "#83a598"@,
        "#ebdbb2"@,
        "#fabd2f"@,
        "#b8bb26"@,
        "#fabd2f"@,
        "#fb4934"@,
        "#ebdbb2"@,
        "#a89984"@,
        "#fbf1c7"@,
        "#b8bb26"@,
        "#fabd2f"@,
        "#fb4934"@,
        "#83a598"@,
        "#928374"@,
        "#fb4934"@,
        "#fe8019"@,
        "#fabd2f"@,
        "#928374"@,
        "#83a598"@,
        "#83a598"@,
    ]
}

impl ThemeConfig {
    /// The default colour theme.
    pub fn default_theme() -> (t: ThemeConfig)
        ensures
            is_palette(t, "default"@, default_palette()),
    {
        let t = ThemeConfig {
            name: String::from_str("default"),
            border_unselected: String::from_str("#6b7280"),
            border_selected: String::from_str("#22d3ee"),
            header_border: String::from_str("#ffffff"),
            sparkline: String::from_str("#fbbf24"),
            status_live: String::from_str("#4ade80"),
            status_stale: String::from_str("#facc15"),
            status_offline: String::from_str("#f87171"),
            text_primary: String::from_str("#ffffff"),
            text_secondary: String::from_str("#9ca3af"),
            text_highlight: String::from_str("#ffffff"),
            indicator_success: String::from_str("#4ade80"),
            indicator_warning: String::from_str("#facc15"),
            indicator_error: String::from_str("#f87171"),
            indicator_info: String::from_str("#22d3ee"),
            indicator_muted: String::from_str("#6b7280"),
            severity_critical: String::from_str("#ef4444"),
            severity_high: String::from_str("#f87171"),
            severity_medium: String::from_str("#facc15"),
            severity_low: String::from_str("#6b7280"),
            help_border: String::from_str("#22d3ee"),
            help_title: String::from_str("#22d3ee"),
            braille_mode: default_braille_mode(),
        };
        assert(theme_colors(t) =~= default_palette());
        t
    }

    /// Greys only.
    pub fn monochrome_theme() -> (t: ThemeConfig)
        ensures
            is_palette(t, "monochrome"@, monochrome_palette()),
    {
        let t = ThemeConfig {
            name: String::from_str("monochrome"),
            border_unselected: String::from_str("#6b7280"),
            border_selected: String::from_str("#ffffff"),
            header_border: String::from_str("#d1d5db"),
            sparkline: String::from_str("#9ca3af"),
            status_live: String::from_str("#9ca3af"),
            status_stale: String::from_str("#6b7280"),
            status_offline: String::from_str("#4b5563"),
            text_primary: String::from_str("#ffffff"),
            text_secondary: String::from_str("#9ca3af"),
            text_highlight: String::from_str("#ffffff"),
            indicator_success: String::from_str("#d1d5db"),
            indicator_warning: String::from_str("#9ca3af"),
            indicator_error: String::from_str("#6b7280"),
            indicator_info: String::from_str("#d1d5db"),
            indicator_muted: String::from_str("#4b5563"),
            severity_critical: String::from_str("#ffffff"),
            severity_high: String::from_str("#d1d5db"),
            severity_medium: String::from_str("#9ca3af"),
            severity_low: String::from_str("#6b7280"),
            help_border: String::from_str("#d1d5db"),
            help_title: String::from_str("#ffffff"),
            braille_mode: default_braille_mode(),
        };
        assert(theme_colors(t) =~= monochrome_palette());
        t
    }

    /// Bold colours for maximum visibility.
    pub fn high_contrast_theme() -> (t: ThemeConfig)
        ensures
            is_palette(t, "high-contrast"@, high_contrast_palette()),
    {
        let t = ThemeConfig {
            name: String::from_str("high-contrast"),
            border_unselected: String::from_str("#808080"),
            border_selected: String::from_str("#00ffff"),
            header_border: String::from_str("#ffffff"),
            sparkline: String::from_str("#ffff00"),
            status_live: String::from_str("#00ff00"),
            status_stale: String::from_str("#ffff00"),
            status_offline: String::from_str("#ff0000"),
            text_primary: String::from_str("#ffffff"),
            text_secondary: String::from_str("#c0c0c0"),
            text_highlight: String::from_str("#ffffff"),
            indicator_success: String::from_str("#00ff00"),
            indicator_warning: String::from_str("#ffff00"),
            indicator_error: String::from_str("#ff0000"),
            indicator_info: String::from_str("#00ffff"),
            indicator_muted: String::from_str("#808080"),
            severity_critical: String::from_str("#ff0000"),
            severity_high: String::from_str("#ff6600"),
            severity_medium: String::from_str("#ffff00"),
            severity_low: String::from_str("#808080"),
            help_border: String::from_str("#00ffff"),
            help_title: String::from_str("#00ffff"),
            braille_mode: default_braille_mode(),
        };
        assert(theme_colors(t) =~= high_contrast_palette());
        t
    }

    /// The Solarized Dark palette.
    pub fn solarized_dark_theme() -> (t: ThemeConfig)
        ensures
            is_palette(t, "solarized-dark"@, solarized_dark_palette()),
    {
        let t = ThemeConfig {
            name: String::from_str("solarized-dark"),
            border_unselected: String::from_str("#586e75"),
            border_selected: String::from_str("#2aa198"),
            header_border: String::from_str("#eee8d5"),
            sparkline: String::from_str("#b58900"),
            status_live: String::from_str("#859900"),
            status_stale: String::from_str("#b58900"),
            status_offline: String::from_str("#dc322f"),
            text_primary: String::from_str("#eee8d5"),
            text_secondary: String::from_str("#839496"),
            text_highlight: String::from_str("#fdf6e3"),
            indicator_success: String::from_str("#859900"),
            indicator_warning: String::from_str("#b58900"),
            indicator_error: String::from_str("#dc322f"),
            indicator_info: String::from_str("#2aa198"),
            indicator_muted: String::from_str("#586e75"),
            severity_critical: String::from_str("#dc322f"),
            severity_high: String::from_str("#cb4b16"),
            severity_medium: String::from_str("#b58900"),
            severity_low: String::from_str("#586e75"),
            help_border: String::from_str("#2aa198"),
            help_title: String::from_str("#2aa198"),
            braille_mode: default_braille_mode(),
        };
        assert(theme_colors(t) =~= solarized_dark_palette());
        t
    }

    /// The Dracula palette.
    pub fn dracula_theme() -> (t: ThemeConfig)
        ensures
            is_palette(t, "dracula"@, dracula_palette()),
    {
        let t = ThemeConfig {
            name: String::from_str("dracula"),
            border_unselected: String::from_str("#6272a4"),
            border_selected: String::from_str("#8be9fd"),
            header_border: String::from_str("#f8f8f2"),
            sparkline: String::from_str("#f1fa8c"),
            status_live: String::from_str("#50fa7b"),
            status_stale: String::from_str("#f1fa8c"),
            status_offline: String::from_str("#ff5555"),
            text_primary: String::from_str("#f8f8f2"),
            text_secondary: String::from_str("#6272a4"),
            text_highlight: String::from_str("#ffffff"),
            indicator_success: String::from_str("#50fa7b"),
            indicator_warning: String::from_str("#f1fa8c"),
            indicator_error: String::from_str("#ff5555"),
            indicator_info: String::from_str("#8be9fd"),
            indicator_muted: String::from_str("#6272a4"),
            severity_critical: String::from_str("#ff5555"),
            severity_high: String::from_str("#ff79c6"),
            severity_medium: String::from_str("#f1fa8c"),
            severity_low: String::from_str("#6272a4"),
            help_border: String::from_str("#8be9fd"),
            help_title: String::from_str("#8be9fd"),
            braille_mode: default_braille_mode(),
        };
        assert(theme_colors(t) =~= dracula_palette());
        t
    }

    /// The Gruvbox palette.
    pub fn gruvbox_theme() -> (t: ThemeConfig)
        ensures
            is_palette(t, "gruvbox"@, gruvbox_palette()),
    {
        let t = ThemeConfig {
            name: String::from_str("gruvbox"),
            border_unselected: String::from_str("#928374"),
            border_selected: String::from_str("#83a598"),
            header_border: String::from_str("#ebdbb2"),
            sparkline: String::from_str("#fabd2f"),
            status_live: String::from_str("#b8bb26"),
            status_stale: String::from_str("#fabd2f"),
            status_offline: String::from_str("#fb4934"),
            text_primary: String::from_str("#ebdbb2"),
            text_secondary: String::from_str("#a89984"),
            text_highlight: String::from_str("#fbf1c7"),
            indicator_success: String::from_str("#b8bb26"),
            indicator_warning: String::from_str("#fabd2f"),
            indicator_error: String::from_str("#fb4934"),
            indicator_info: String::from_str("#83a598"),
            indicator_muted: String::from_str("#928374"),
            severity_critical: String::from_str("#fb4934"),
            severity_high: String::from_str("#fe8019"),
            severity_medium: String::from_str("#fabd2f"),
            severity_low: String::from_str("#928374"),
            help_border: String::from_str("#83a598"),
            help_title: String::from_str("#83a598"),
            braille_mode: default_braille_mode(),
        };
        assert(theme_colors(t) =~= gruvbox_palette());
        t
    }

}

} // verus!

verus! {

impl Default for ThemeConfig {
    fn default() -> (t: ThemeConfig)
        ensures
            is_palette(t, "default"@, default_palette()),
    {
        ThemeConfig::default_theme()
    }
}

/// The palette of the built-in theme called `name`, if there is one.
pub open spec fn builtin_palette(name: Seq<char>) -> Option<Seq<Seq<char>>> {
    if name == "default"@ {
        Some(default_palette())
    } else if name == "monochrome"@ {
        Some(monochrome_palette())
    } else if name == "high-contrast"@ {
        Some(high_contrast_palette())
    } else if name == "solarized-dark"@ {
        Some(solarized_dark_palette())
    } else if name == "dracula"@ {
        Some(dracula_palette())
    } else if name == "gruvbox"@ {
        Some(gruvbox_palette())
    } else {
        None
    }
}

impl ThemeConfig {
    /// The built-in theme called `name`, if there is one.
    pub fn get_builtin(name: &str) -> (r: Option<ThemeConfig>)
        ensures
            match r {
                None => builtin_palette(name@) is None,
                Some(t) => builtin_palette(name@) matches Some(p) && is_palette(t, name@, p),
            },
    {
        if str_eq(name, "default") {
            return Some(ThemeConfig::default_theme());
        }
        if str_eq(name, "monochrome") {
            return Some(ThemeConfig::monochrome_theme());
        }
        if str_eq(name, "high-contrast") {
            return Some(ThemeConfig::high_contrast_theme());
        }
        if str_eq(name, "solarized-dark") {
            return Some(ThemeConfig::solarized_dark_theme());
        }
        if str_eq(name, "dracula") {
            return Some(ThemeConfig::dracula_theme());
        }
        if str_eq(name, "gruvbox") {
            return Some(ThemeConfig::gruvbox_theme());
        }
        proof {
            reveal_strlit("default");
            reveal_strlit("monochrome");
            reveal_strlit("high-contrast");
            reveal_strlit("solarized-dark");
            reveal_strlit("dracula");
            reveal_strlit("gruvbox");
        }
        None
    }
}

/// Built-in theme names, in the order they are listed.
pub open spec fn builtin_names() -> Seq<Seq<char>> {
    seq!["default"@, "monochrome"@, "high-contrast"@, "solarized-dark"@, "dracula"@, "gruvbox"@]
}

/// The names of the built-in themes.
pub fn builtin_theme_names() -> (v: Vec<String>)
    ensures
        v@.map_values(|s: String| s@) == builtin_names(),
{
    let mut v: Vec<String> = Vec::new();
    v.push(String::from_str("default"));
    v.push(String::from_str("monochrome"));
    v.push(String::from_str("high-contrast"));
    v.push(String::from_str("solarized-dark"));
    v.push(String::from_str("dracula"));
    v.push(String::from_str("gruvbox"));
    assert(v@.map_values(|s: String| s@) =~= builtin_names());
    v
}

} // verus!

verus! {

/// A terminal colour: an RGB triple, or white when a colour string does
/// not read as one.
#[derive(Clone, Copy, Debug, PartialEq, Eq, Structural)]
pub enum ThemeColor {
    Rgb(u8, u8, u8),
    White,
}

/// The value of an ASCII hexadecimal digit.
pub open spec fn hex_value(b: u8) -> Option<u8> {
    if 48 <= b <= 57 {
        Some((b - 48) as u8)
    } else if 97 <= b <= 102 {
        Some((b - 87) as u8)
    } else if 65 <= b <= 70 {
        Some((b - 55) as u8)
    } else {
        None
    }
}

/// Two bytes read as a base-16 `u8` the way std's `u8::from_str_radix`
/// reads them: two hex digits, or a `+` sign and one hex digit.
pub open spec fn hex_pair(b1: u8, b2: u8) -> Option<u8> {
    if b1 == 43 {
        hex_value(b2)
    } else {
        match (hex_value(b1), hex_value(b2)) {
            (Some(x), Some(y)) => Some((16 * x + y) as u8),
            _ => None,
        }
    }
}

/// The colour a `#rrggbb` string denotes, read from its UTF-8 bytes.
pub open spec fn color_of(bytes: Seq<u8>) -> ThemeColor {
    if bytes.len() == 7 && bytes[0] == 35 {
        match (hex_pair(bytes[1], bytes[2]), hex_pair(bytes[3], bytes[4]), hex_pair(bytes[5], bytes[6])) {
            (Some(r), Some(g), Some(b)) => ThemeColor::Rgb(r, g, b),
            _ => ThemeColor::White,
        }
    } else {
        ThemeColor::White
    }
}

fn hex_digit(b: u8) -> (r: Option<u8>)
    ensures
        r == hex_value(b),
{
    if 48 <= b && b <= 57 {
        Some(b - 48)
    } else if 97 <= b && b <= 102 {
        Some(b - 87)
    } else if 65 <= b && b <= 70 {
        Some(b - 55)
    } else {
        None
    }
}

fn read_pair(b1: u8, b2: u8) -> (r: Option<u8>)
    ensures
        r == hex_pair(b1, b2),
{
    if b1 == 43 {
        hex_digit(b2)
    } else {
        match (hex_digit(b1), hex_digit(b2)) {
            (Some(x), Some(y)) => Some(16 * x + y),
            _ => None,
        }
    }
}

/// The colour type of the terminal drawing library.
#[verifier::external_type_specification]
#[verifier::external_body]
pub struct ExColor(ratatui::style::Color);

/// The terminal colour that stands for `c`: `Color::Rgb` with the same
/// triple, or `Color::White`.
pub uninterp spec fn terminal_color(c: ThemeColor) -> Color;

/// Builds `ratatui::style::Color::Rgb(r, g, b)` from an RGB triple and
/// `ratatui::style::Color::White` from white; each colour always gives the
/// same value.
#[verifier::external_body]
fn to_terminal_color(c: ThemeColor) -> (r: Color)
    ensures
        r == terminal_color(c),
{
    match c {
        ThemeColor::Rgb(r, g, b) => Color::Rgb(r, g, b),
        ThemeColor::White => Color::White,
    }
}

impl ThemeConfig {
    /// Reads a `#rrggbb` colour, each pair read as std's
    /// `u8::from_str_radix` reads it in base 16 (two hex digits, or `+` and
    /// one digit); anything else, including a seven-byte string whose pairs
    /// do not fall on character boundaries, gives white.
    pub fn theme_color(hex: &str) -> (c: ThemeColor)
        ensures
            c == color_of(hex.spec_bytes()),
    {
        let b = hex.as_bytes();
        if b.len() == 7 && b[0] == 35 {
            match (read_pair(b[1], b[2]), read_pair(b[3], b[4]), read_pair(b[5], b[6])) {
                (Some(r), Some(g), Some(bl)) => ThemeColor::Rgb(r, g, bl),
                _ => ThemeColor::White,
            }
        } else {
            ThemeColor::White
        }
    }

    /// Reads a `#rrggbb` colour as a terminal colour, as `theme_color`
    /// does; anything else gives white.
    pub fn parse_color(hex: &str) -> (c: Color)
        ensures
            c == terminal_color(color_of(hex.spec_bytes())),
    {
        to_terminal_color(ThemeConfig::theme_color(hex))
    }
}

} // verus!

verus! {

/// A custom theme stored in the theme file under `name`.
pub struct CustomTheme {
    pub name: String,
    pub theme: ThemeConfig,
}

/// The theme file: the active theme's name, custom themes by name (each
/// name at most once), and a Braille override for every theme.
pub struct ThemeFile {
    pub theme: Option<String>,
    pub custom_themes: Vec<CustomTheme>,
    pub braille_mode: Option<bool>,
}

/// No two custom themes of `f` share a name (the file keys them by name).
pub open spec fn names_distinct(f: ThemeFile) -> bool {
    forall|i: int, j: int|
        0 <= i < j < f.custom_themes@.len() ==> #[trigger] f.custom_themes@[i].name@
            != #[trigger] f.custom_themes@[j].name@
}

impl Default for ThemeFile {
    fn default() -> (f: ThemeFile)
        ensures
            f.theme is None,
            f.custom_themes@.len() == 0,
            f.braille_mode is None,
            names_distinct(f),
    {
        ThemeFile { theme: None, custom_themes: Vec::new(), braille_mode: None }
    }
}

/// What a theme holds: its name, its colours and its Braille setting.
pub open spec fn theme_view(t: ThemeConfig) -> (Seq<char>, Seq<Seq<char>>, bool) {
    (t.name@, theme_colors(t), t.braille_mode)
}

/// Names of the custom themes, in order.
pub open spec fn custom_names(cs: Seq<CustomTheme>) -> Seq<Seq<char>> {
    cs.map_values(|c: CustomTheme| c.name@)
}

/// The index of the custom theme called `name`, searching from `k`.
pub open spec fn custom_index_from(cs: Seq<CustomTheme>, name: Seq<char>, k: int) -> Option<int>
    decreases cs.len() - k,
{
    if k < 0 || k >= cs.len() {
        None
    } else if cs[k].name@ == name {
        Some(k)
    } else {
        custom_index_from(cs, name, k + 1)
    }
}

/// The name of the active theme: the file's, or `default`.
pub open spec fn chosen_name(f: ThemeFile) -> Seq<char> {
    match f.theme {
        Some(t) => t@,
        None => "default"@,
    }
}

/// The Braille setting: the file's override, else the theme's own.
pub open spec fn braille_for(f: ThemeFile, own: bool) -> bool {
    match f.braille_mode {
        Some(b) => b,
        None => own,
    }
}

/// The theme that a theme file selects: a custom theme of the chosen name
/// (renamed to it), else the built-in theme of that name, else the
/// default theme; the file's Braille override applies to each.
pub open spec fn resolved_view(f: ThemeFile) -> (Seq<char>, Seq<Seq<char>>, bool) {
    let name = chosen_name(f);
    match custom_index_from(f.custom_themes@, name, 0) {
        Some(k) => (
            name,
            theme_colors(f.custom_themes@[k].theme),
            braille_for(f, f.custom_themes@[k].theme.braille_mode),
        ),
        None => match builtin_palette(name) {
            Some(p) => (name, p, braille_for(f, false)),
            None => ("default"@, default_palette(), braille_for(f, false)),
        },
    }
}

/// A found custom theme is one of the listed ones, with that name.
pub proof fn lemma_custom_index(cs: Seq<CustomTheme>, name: Seq<char>, k: int)
    requires
        0 <= k,
    ensures
        custom_index_from(cs, name, k) matches Some(i) ==> k <= i < cs.len() && cs[i].name@ == name,
    decreases cs.len() - k,
{
    if k < cs.len() && cs[k].name@ != name {
        lemma_custom_index(cs, name, k + 1);
    }
}

/// Before the found custom theme (or anywhere, when none is found) no
/// custom theme from `k` on has the name.
proof fn lemma_custom_index_first(cs: Seq<CustomTheme>, name: Seq<char>, k: int)
    requires
        0 <= k,
    ensures
        match custom_index_from(cs, name, k) {
            Some(i) => forall|j: int| k <= j < i ==> #[trigger] cs[j].name@ != name,
            None => forall|j: int| k <= j < cs.len() ==> #[trigger] cs[j].name@ != name,
        },
    decreases cs.len() - k,
{
    if k < cs.len() && cs[k].name@ != name {
        lemma_custom_index_first(cs, name, k + 1);
    }
}

/// Whether no two custom themes of `f` share a name.
pub fn custom_names_distinct(f: &ThemeFile) -> (b: bool)
    ensures
        b == names_distinct(*f),
{
    let cs = &f.custom_themes;
    let mut j: usize = 0;
    while j < cs.len()
        invariant
            j <= cs@.len(),
            cs == &f.custom_themes,
            forall|a: int, b: int| 0 <= a < b < j ==> #[trigger] cs@[a].name@ != #[trigger] cs@[b].name@,
        decreases cs@.len() - j,
    {
        let k = find_custom(cs, cs[j].name.as_str());
        proof {
            lemma_custom_index_first(cs@, cs@[j as int].name@, 0);
        }
        match k {
            Some(k) => {
                if k < j {
                    return false;
                }
            },
            None => {},
        }
        j = j + 1;
    }
    true
}

fn find_custom(cs: &Vec<CustomTheme>, name: &str) -> (r: Option<usize>)
    ensures
        match r {
            None => custom_index_from(cs@, name@, 0) is None,
            Some(k) => custom_index_from(cs@, name@, 0) == Some(k as int) && k < cs@.len()
                && cs@[k as int].name@ == name@,
        },
{
    proof {
        lemma_custom_index(cs@, name@, 0);
    }
    let mut k: usize = 0;
    while k < cs.len()
        invariant
            k <= cs@.len(),
            custom_index_from(cs@, name@, 0) == custom_index_from(cs@, name@, k as int),
        decreases cs@.len() - k,
    {
        if str_eq(cs[k].name.as_str(), name) {
            return Some(k);
        }
        k = k + 1;
    }
    None
}

/// Chooses the active theme from a theme file.
pub fn resolve_theme(file: ThemeFile) -> (t: ThemeConfig)
    requires
        names_distinct(file),
    ensures
        theme_view(t) == resolved_view(file),
{
    let ghost f = file;
    let ThemeFile { theme, custom_themes, braille_mode } = file;
    let name: String = match theme {
        Some(t) => t,
        None => String::from_str("default"),
    };
    let mut custom_themes = custom_themes;
    let mut chosen = match find_custom(&custom_themes, name.as_str()) {
        Some(k) => {
            let c = custom_themes.remove(k);
            let mut t = c.theme;
            t.name = name;
            t
        },
        None => match ThemeConfig::get_builtin(name.as_str()) {
            Some(t) => t,
            None => ThemeConfig::default_theme(),
        },
    };
    match braille_mode {
        Some(b) => {
            chosen.braille_mode = b;
        },
        None => {},
    }
    chosen
}

/// The theme to use given what was read from the theme file: the default
/// theme when nothing could be read, else the one the file selects.
pub fn load_theme(parsed: Option<ThemeFile>) -> (t: ThemeConfig)
    requires
        parsed matches Some(f) ==> names_distinct(f),
    ensures
        match parsed {
            None => is_palette(t, "default"@, default_palette()),
            Some(f) => theme_view(t) == resolved_view(f),
        },
{
    match parsed {
        None => ThemeConfig::default_theme(),
        Some(f) => resolve_theme(f),
    }
}

/// Path of the theme file.
pub fn theme_file_path() -> (r: Result<String, ConfigError>)
    ensures
        r matches Ok(p) ==> ends_with(p@, "theme.toml"@),
{
    proof {
        reveal_strlit("theme.toml");
        reveal_strlit(".");
        reveal_strlit("..");
    }
    config_file_in(system_config_dir(), "theme.toml")
}

/// `after` is `before` with `t` stored as the custom theme `name`: a
/// custom theme of that name is replaced in place (keeping every other
/// entry), otherwise one is added at the end.
pub open spec fn custom_inserted(before: ThemeFile, after: ThemeFile, name: Seq<char>, t: ThemeConfig) -> bool {
    &&& after.theme == before.theme
    &&& after.braille_mode == before.braille_mode
    &&& match custom_index_from(before.custom_themes@, name, 0) {
        Some(k) => after.custom_themes@.len() == before.custom_themes@.len()
            && custom_names(after.custom_themes@) == custom_names(before.custom_themes@)
            && theme_colors(after.custom_themes@[k].theme) == theme_colors(t)
            && after.custom_themes@[k].theme.name@ == name
            && after.custom_themes@[k].theme.braille_mode == t.braille_mode
            && forall|j: int| 0 <= j < before.custom_themes@.len() && j != k ==> #[trigger] after.custom_themes@[j] == before.custom_themes@[j],
        None => after.custom_themes@.len() == before.custom_themes@.len() + 1
            && after.custom_themes@.drop_last() == before.custom_themes@
            && after.custom_themes@.last().name@ == name
            && theme_colors(after.custom_themes@.last().theme) == theme_colors(t)
            && after.custom_themes@.last().theme.name@ == name
            && after.custom_themes@.last().theme.braille_mode == t.braille_mode,
    }
}

proof fn lemma_custom_index_same_names(a: Seq<CustomTheme>, b: Seq<CustomTheme>, name: Seq<char>, k: int)
    requires
        custom_names(a) == custom_names(b),
    ensures
        custom_index_from(a, name, k) == custom_index_from(b, name, k),
    decreases a.len() - k,
{
    assert(a.len() == custom_names(a).len());
    assert(b.len() == custom_names(b).len());
    if 0 <= k < a.len() {
        assert(custom_names(a)[k] == a[k].name@);
        assert(custom_names(b)[k] == b[k].name@);
        lemma_custom_index_same_names(a, b, name, k + 1);
    }
}

proof fn lemma_custom_index_pushed(s: Seq<CustomTheme>, x: CustomTheme, name: Seq<char>, k: int)
    requires
        0 <= k <= s.len(),
        custom_index_from(s, name, k) is None,
        x.name@ == name,
    ensures
        custom_index_from(s.push(x), name, k) == Some(s.len() as int),
    decreases s.len() - k,
{
    if k < s.len() {
        assert(s.push(x)[k] == s[k]);
        lemma_custom_index_pushed(s, x, name, k + 1);
    }
}

/// Saving a custom theme and making it active makes it the theme that
/// loads: its colours, under its name, with the file's Braille override.
pub proof fn lemma_saved_theme_loads(before: ThemeFile, stored: ThemeFile, after: ThemeFile, name: Seq<char>, t: ThemeConfig)
    requires
        custom_inserted(before, stored, name, t),
        after.custom_themes == stored.custom_themes,
        after.braille_mode == stored.braille_mode,
        after.theme matches Some(a) && a@ == name,
    ensures
        resolved_view(after) == (name, theme_colors(t), braille_for(after, t.braille_mode)),
{
    let cs = before.custom_themes@;
    lemma_custom_index(cs, name, 0);
    match custom_index_from(cs, name, 0) {
        Some(k) => {
            lemma_custom_index_same_names(cs, after.custom_themes@, name, 0);
        },
        None => {
            let x = after.custom_themes@.last();
            assert(cs.push(x) =~= after.custom_themes@);
            lemma_custom_index_pushed(cs, x, name, 0);
        },
    }
}

impl ThemeFile {
    /// Stores `theme` as the custom theme `name` (renamed to it), replacing
    /// a custom theme of that name in place or adding it at the end.
    pub fn insert_custom(&mut self, name: String, theme: ThemeConfig)
        ensures
            custom_inserted(*old(self), *final(self), name@, theme),
            names_distinct(*old(self)) ==> names_distinct(*final(self)),
    {
        let ghost was = *self;
        let mut t = theme;
        t.name = name.clone();
        match find_custom(&self.custom_themes, name.as_str()) {
            Some(k) => {
                let ghost before = self.custom_themes@;
                let old_entry = self.custom_themes.remove(k);
                self.custom_themes.insert(k, CustomTheme { name: old_entry.name, theme: t });
                assert(custom_names(self.custom_themes@) =~= custom_names(before));
                assert forall|j: int| 0 <= j < before.len() && j != k implies #[trigger] self.custom_themes@[j] == before[j] by {
                }
                proof {
                    if names_distinct(was) {
                        let now = self.custom_themes@;
                        assert forall|i: int, j: int| 0 <= i < j < now.len() implies #[trigger] now[i].name@
                            != #[trigger] now[j].name@ by {
                            assert(custom_names(now)[i] == now[i].name@);
                            assert(custom_names(now)[j] == now[j].name@);
                            assert(custom_names(before)[i] == before[i].name@);
                            assert(custom_names(before)[j] == before[j].name@);
                        }
                    }
                }
            },
            None => {
                let ghost before = self.custom_themes@;
                let ghost nm = name@;
                proof {
                    lemma_custom_index_first(before, nm, 0);
                }
                self.custom_themes.push(CustomTheme { name, theme: t });
                assert(self.custom_themes@.drop_last() =~= before);
                proof {
                    if names_distinct(was) {
                        let now = self.custom_themes@;
                        assert forall|i: int, j: int| 0 <= i < j < now.len() implies #[trigger] now[i].name@
                            != #[trigger] now[j].name@ by {
                            assert(now[i] == before[i]);
                            if j < before.len() {
                                assert(now[j] == before[j]);
                            }
                        }
                    }
                }
            },
        }
    }

    /// Makes `name` the active theme.
    pub fn set_active(&mut self, name: String)
        ensures
            final(self).theme == Some(name),
            final(self).custom_themes == old(self).custom_themes,
            final(self).braille_mode == old(self).braille_mode,
            names_distinct(*final(self)) == names_distinct(*old(self)),
    {
        self.theme = Some(name);
    }
}

} // verus!

verus! {

impl ThemeConfig {
    /// The colour of the `border_unselected` field.
    pub fn border_unselected_color(&self) -> (c: Color)
        ensures
            c == terminal_color(color_of(vstd::utf8::encode_utf8(self.border_unselected@))),
    {
        ThemeConfig::parse_color(self.border_unselected.as_str())
    }

    /// The colour of the `border_selected` field.
    pub fn border_selected_color(&self) -> (c: Color)
        ensures
            c == terminal_color(color_of(vstd::utf8::encode_utf8(self.border_selected@))),
    {
        ThemeConfig::parse_color(self.border_selected.as_str())
    }

    /// The colour of the `header_border` field.
    pub fn header_border_color(&self) -> (c: Color)
        ensures
            c == terminal_color(color_of(vstd::utf8::encode_utf8(self.header_border@))),
    {
        ThemeConfig::parse_color(self.header_border.as_str())
    }

    /// The colour of the `sparkline` field.
    pub fn sparkline_color(&self) -> (c: Color)
        ensures
            c == terminal_color(color_of(vstd::utf8::encode_utf8(self.sparkline@))),
    {
        ThemeConfig::parse_color(self.sparkline.as_str())
    }

    /// The colour of the `status_live` field.
    pub fn status_live_color(&self) -> (c: Color)
        ensures
            c == terminal_color(color_of(vstd::utf8::encode_utf8(self.status_live@))),
    {
        ThemeConfig::parse_color(self.status_live.as_str())
    }

    /// The colour of the `status_stale` field.
    pub fn status_stale_color(&self) -> (c: Color)
        ensures
            c == terminal_color(color_of(vstd::utf8::encode_utf8(self.status_stale@))),
    {
        ThemeConfig::parse_color(self.status_stale.as_str())
    }

    /// The colour of the `status_offline` field.
    pub fn status_offline_color(&self) -> (c: Color)
        ensures
            c == terminal_color(color_of(vstd::utf8::encode_utf8(self.status_offline@))),
    {
        ThemeConfig::parse_color(self.status_offline.as_str())
    }

    /// The colour of the `text_primary` field.
    pub fn text_primary_color(&self) -> (c: Color)
        ensures
            c == terminal_color(color_of(vstd::utf8::encode_utf8(self.text_primary@))),
    {
        ThemeConfig::parse_color(self.text_primary.as_str())
    }

    /// The colour of the `text_secondary` field.
    pub fn text_secondary_color(&self) -> (c: Color)
        ensures
            c == terminal_color(color_of(vstd::utf8::encode_utf8(self.text_secondary@))),
    {
        ThemeConfig::parse_color(self.text_secondary.as_str())
    }

    /// The colour of the `text_highlight` field.
    pub fn text_highlight_color(&self) -> (c: Color)
        ensures
            c == terminal_color(color_of(vstd::utf8::encode_utf8(self.text_highlight@))),
    {
        ThemeConfig::parse_color(self.text_highlight.as_str())
    }

    /// The colour of the `indicator_success` field.
    pub fn indicator_success_color(&self) -> (c: Color)
        ensures
            c == terminal_color(color_of(vstd::utf8::encode_utf8(self.indicator_success@))),
    {
        ThemeConfig::parse_color(self.indicator_success.as_str())
    }

    /// The colour of the `indicator_warning` field.
    pub fn indicator_warning_color(&self) -> (c: Color)
        ensures
            c == terminal_color(color_of(vstd::utf8::encode_utf8(self.indicator_warning@))),
    {
        ThemeConfig::parse_color(self.indicator_warning.as_str())
    }

    /// The colour of the `indicator_error` field.
    pub fn indicator_error_color(&self) -> (c: Color)
        ensures
            c == terminal_color(color_of(vstd::utf8::encode_utf8(self.indicator_error@))),
    {
        ThemeConfig::parse_color(self.indicator_error.as_str())
    }

    /// The colour of the `indicator_info` field.
    pub fn indicator_info_color(&self) -> (c: Color)
        ensures
            c == terminal_color(color_of(vstd::utf8::encode_utf8(self.indicator_info@))),
    {
        ThemeConfig::parse_color(self.indicator_info.as_str())
    }

    /// The colour of the `indicator_muted` field.
    pub fn indicator_muted_color(&self) -> (c: Color)
        ensures
            c == terminal_color(color_of(vstd::utf8::encode_utf8(self.indicator_muted@))),
    {
        ThemeConfig::parse_color(self.indicator_muted.as_str())
    }

    /// The colour of the `severity_critical` field.
    pub fn severity_critical_color(&self) -> (c: Color)
        ensures
            c == terminal_color(color_of(vstd::utf8::encode_utf8(self.severity_critical@))),
    {
        ThemeConfig::parse_color(self.severity_critical.as_str())
    }

    /// The colour of the `severity_high` field.
    pub fn severity_high_color(&self) -> (c: Color)
        ensures
            c == terminal_color(color_of(vstd::utf8::encode_utf8(self.severity_high@))),
    {
        ThemeConfig::parse_color(self.severity_high.as_str())
    }

    /// The colour of the `severity_medium` field.
    pub fn severity_medium_color(&self) -> (c: Color)
        ensures
            c == terminal_color(color_of(vstd::utf8::encode_utf8(self.severity_medium@))),
    {
        ThemeConfig::parse_color(self.severity_medium.as_str())
    }

    /// The colour of the `severity_low` field.
    pub fn severity_low_color(&self) -> (c: Color)
        ensures
            c == terminal_color(color_of(vstd::utf8::encode_utf8(self.severity_low@))),
    {
        ThemeConfig::parse_color(self.severity_low.as_str())
    }

    /// The colour of the `help_border` field.
    pub fn help_border_color(&self) -> (c: Color)
        ensures
            c == terminal_color(color_of(vstd::utf8::encode_utf8(self.help_border@))),
    {
        ThemeConfig::parse_color(self.help_border.as_str())
    }

    /// The colour of the `help_title` field.
    pub fn help_title_color(&self) -> (c: Color)
        ensures
            c == terminal_color(color_of(vstd::utf8::encode_utf8(self.help_title@))),
    {
        ThemeConfig::parse_color(self.help_title.as_str())
    }

    /// The colour of the `indicator_success` field, used for text.
    pub fn text_success_color(&self) -> (c: Color)
        ensures
            c == terminal_color(color_of(vstd::utf8::encode_utf8(self.indicator_success@))),
    {
        ThemeConfig::parse_color(self.indicator_success.as_str())
    }

    /// The colour of the `indicator_error` field, used for text.
    pub fn text_error_color(&self) -> (c: Color)
        ensures
            c == terminal_color(color_of(vstd::utf8::encode_utf8(self.indicator_error@))),
    {
        ThemeConfig::parse_color(self.indicator_error.as_str())
    }

    /// The colour of the `indicator_warning` field, used for text.
    pub fn text_warning_color(&self) -> (c: Color)
        ensures
            c == terminal_color(color_of(vstd::utf8::encode_utf8(self.indicator_warning@))),
    {
        ThemeConfig::parse_color(self.indicator_warning.as_str())
    }

}

} // verus!
