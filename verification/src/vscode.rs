//! VS Code color themes: the theme model, its color lookups, and the mapping
//! onto the application's flat palette. A VS Code theme names colors by
//! dotted keys (`editor.background`); each palette field reads a chain of
//! such keys and takes the first one that holds a usable color.
use vstd::prelude::*;
use crate::color::{
    blend_over, luma, color_parse_panics, ensure_subtle_border, ensure_visible_border, parse_vscode_color,
    parse_vscode_color_rgba, spec_blend, spec_luma, spec_rgba, subtle_border, visible_border,
};
use crate::color_map::ColorMap;
use crate::scrollback::opt_string_view;
use crate::text::{chars_of, push_all};

verus! {

/// The application's color palette, each entry an opaque `0xRRGGBB`.
#[derive(Clone, Copy, Debug, PartialEq, Eq, Structural)]
pub struct ThemeColors {
    pub bg_primary: u32,
    pub bg_secondary: u32,
    pub bg_header: u32,
    pub bg_selection: u32,
    pub bg_hover: u32,
    pub border: u32,
    pub border_active: u32,
    pub border_focused: u32,
    pub border_bell: u32,
    pub border_idle: u32,
    pub text_primary: u32,
    pub text_secondary: u32,
    pub text_muted: u32,
    pub selection_bg: u32,
    pub selection_fg: u32,
    pub search_match_bg: u32,
    pub search_current_bg: u32,
    pub term_black: u32,
    pub term_red: u32,
    pub term_green: u32,
    pub term_yellow: u32,
    pub term_blue: u32,
    pub term_magenta: u32,
    pub term_cyan: u32,
    pub term_white: u32,
    pub term_bright_black: u32,
    pub term_bright_red: u32,
    pub term_bright_green: u32,
    pub term_bright_yellow: u32,
    pub term_bright_blue: u32,
    pub term_bright_magenta: u32,
    pub term_bright_cyan: u32,
    pub term_bright_white: u32,
    pub term_dim_black: u32,
    pub term_dim_red: u32,
    pub term_dim_green: u32,
    pub term_dim_yellow: u32,
    pub term_dim_blue: u32,
    pub term_dim_magenta: u32,
    pub term_dim_cyan: u32,
    pub term_dim_white: u32,
    pub term_foreground: u32,
    pub term_bright_foreground: u32,
    pub term_dim_foreground: u32,
    pub term_background: u32,
    pub term_background_unfocused: u32,
    pub cursor: u32,
    pub scrollbar: u32,
    pub scrollbar_hover: u32,
    pub success: u32,
    pub warning: u32,
    pub error: u32,
    pub button_primary_bg: u32,
    pub button_primary_fg: u32,
    pub button_primary_hover: u32,
    pub folder_default: u32,
    pub folder_red: u32,
    pub folder_orange: u32,
    pub folder_yellow: u32,
    pub folder_lime: u32,
    pub folder_green: u32,
    pub folder_teal: u32,
    pub folder_cyan: u32,
    pub folder_blue: u32,
    pub folder_indigo: u32,
    pub folder_purple: u32,
    pub folder_pink: u32,
    pub metric_normal: u32,
    pub metric_warning: u32,
    pub metric_critical: u32,
    pub diff_added_bg: u32,
    pub diff_removed_bg: u32,
    pub diff_added_fg: u32,
    pub diff_removed_fg: u32,
    pub diff_hunk_header_bg: u32,
    pub diff_hunk_header_fg: u32,
}

/// A palette entry that is read from a chain of VS Code keys.
#[derive(Clone, Copy, Debug, PartialEq, Eq, Structural)]
pub enum Slot {
    BgPrimary,
    TextPrimary,
    TextSecondary,
    TextMuted,
    BgSecondary,
    BgHeader,
    BgSelection,
    BgHover,
    Border,
    BorderActive,
    BorderFocused,
    BorderBell,
    BorderIdle,
    SelectionBg,
    SelectionFg,
    SearchMatchBg,
    SearchCurrentBg,
    TermBlack,
    TermRed,
    TermGreen,
    TermYellow,
    TermBlue,
    TermMagenta,
    TermCyan,
    TermWhite,
    TermBrightBlack,
    TermBrightRed,
    TermBrightGreen,
    TermBrightYellow,
    TermBrightBlue,
    TermBrightMagenta,
    TermBrightCyan,
    TermBrightWhite,
    TermForeground,
    TermBackground,
    Cursor,
    Scrollbar,
    ScrollbarHover,
    Success,
    Warning,
    Error,
    ButtonBg,
    ButtonFg,
    ButtonHover,
    FolderRed,
    FolderOrange,
    FolderYellow,
    FolderLime,
    FolderGreen,
    FolderTeal,
    FolderCyan,
    FolderBlue,
    FolderIndigo,
    FolderPurple,
    FolderPink,
    DiffAddedBg,
    DiffRemovedBg,
    DiffAddedFg,
    DiffRemovedFg,
    DiffHunkHeaderBg,
    DiffHunkHeaderFg,
}

/// The VS Code keys read for `s`, most preferred first.
pub open spec fn chain(s: Slot) -> Seq<&'static str> {
    match s {
        Slot::BgPrimary => seq!["editor.background", "sideBar.background", "panel.background", "activityBar.background"],
        Slot::TextPrimary => seq!["foreground", "editor.foreground"],
        Slot::TextSecondary => seq!["tab.inactiveForeground", "sideBar.foreground", "descriptionForeground"],
        Slot::TextMuted => seq!["tab.inactiveForeground", "descriptionForeground", "disabledForeground"],
        Slot::BgSecondary => seq!["sideBar.background", "sideBarSectionHeader.background", "tab.inactiveBackground", "panel.background"],
        Slot::BgHeader => seq!["titleBar.activeBackground", "activityBar.background"],
        Slot::BgSelection => seq!["list.activeSelectionBackground", "list.inactiveSelectionBackground", "editor.selectionBackground"],
        Slot::BgHover => seq!["list.hoverBackground", "toolbar.hoverBackground"],
        Slot::Border => seq!["panel.border", "editorGroup.border", "sideBar.border", "titleBar.border", "tab.border"],
        Slot::BorderActive => seq!["sash.hoverBorder", "tab.activeBorderTop", "activityBar.activeBorder", "panelTitle.activeBorder", "progressBar.background", "textLink.foreground", "editorLink.activeForeground", "inputOption.activeBorder", "tab.activeBorder", "focusBorder"],
        Slot::BorderFocused => seq!["focusBorder", "tab.activeBorder"],
        Slot::BorderBell => seq!["notificationsWarningIcon.foreground", "list.warningForeground", "editorWarning.foreground"],
        Slot::BorderIdle => seq!["descriptionForeground", "disabledForeground"],
        Slot::SelectionBg => seq!["terminal.selectionBackground", "editor.selectionBackground", "list.activeSelectionBackground"],
        Slot::SelectionFg => seq!["terminal.selectionForeground", "list.activeSelectionForeground", "editor.foreground"],
        Slot::SearchMatchBg => seq!["editor.findMatchHighlightBackground"],
        Slot::SearchCurrentBg => seq!["editor.findMatchBackground"],
        Slot::TermBlack => seq!["terminal.ansiBlack"],
        Slot::TermRed => seq!["terminal.ansiRed"],
        Slot::TermGreen => seq!["terminal.ansiGreen"],
        Slot::TermYellow => seq!["terminal.ansiYellow"],
        Slot::TermBlue => seq!["terminal.ansiBlue"],
        Slot::TermMagenta => seq!["terminal.ansiMagenta"],
        Slot::TermCyan => seq!["terminal.ansiCyan"],
        Slot::TermWhite => seq!["terminal.ansiWhite"],
        Slot::TermBrightBlack => seq!["terminal.ansiBrightBlack"],
        Slot::TermBrightRed => seq!["terminal.ansiBrightRed"],
        Slot::TermBrightGreen => seq!["terminal.ansiBrightGreen"],
        Slot::TermBrightYellow => seq!["terminal.ansiBrightYellow"],
        Slot::TermBrightBlue => seq!["terminal.ansiBrightBlue"],
        Slot::TermBrightMagenta => seq!["terminal.ansiBrightMagenta"],
        Slot::TermBrightCyan => seq!["terminal.ansiBrightCyan"],
        Slot::TermBrightWhite => seq!["terminal.ansiBrightWhite"],
        Slot::TermForeground => seq!["terminal.foreground", "foreground"],
        Slot::TermBackground => seq!["terminal.background", "editor.background"],
        Slot::Cursor => seq!["terminalCursor.foreground", "editorCursor.foreground"],
        Slot::Scrollbar => seq!["scrollbarSlider.background"],
        Slot::ScrollbarHover => seq!["scrollbarSlider.hoverBackground"],
        Slot::Success => seq!["gitDecoration.addedResourceForeground", "testing.iconPassed", "charts.green"],
        Slot::Warning => seq!["editorWarning.foreground", "list.warningForeground", "charts.yellow"],
        Slot::Error => seq!["errorForeground", "editorError.foreground", "charts.red"],
        Slot::ButtonBg => seq!["button.background"],
        Slot::ButtonFg => seq!["button.foreground"],
        Slot::ButtonHover => seq!["button.hoverBackground"],
        Slot::FolderRed => seq!["terminal.ansiBrightRed", "terminal.ansiRed"],
        Slot::FolderOrange => seq!["charts.orange", "terminal.ansiYellow"],
        Slot::FolderYellow => seq!["terminal.ansiBrightYellow", "terminal.ansiYellow"],
        Slot::FolderLime => seq!["charts.lines", "terminal.ansiBrightGreen"],
        Slot::FolderGreen => seq!["terminal.ansiBrightGreen", "terminal.ansiGreen"],
        Slot::FolderTeal => seq!["terminal.ansiCyan"],
        Slot::FolderCyan => seq!["terminal.ansiBrightCyan", "terminal.ansiCyan"],
        Slot::FolderBlue => seq!["terminal.ansiBrightBlue", "terminal.ansiBlue"],
        Slot::FolderIndigo => seq!["terminal.ansiBlue"],
        Slot::FolderPurple => seq!["terminal.ansiBrightMagenta", "terminal.ansiMagenta"],
        Slot::FolderPink => seq!["terminal.ansiMagenta", "charts.purple"],
        Slot::DiffAddedBg => seq!["diffEditor.insertedTextBackground", "diffEditor.insertedLineBackground"],
        Slot::DiffRemovedBg => seq!["diffEditor.removedTextBackground", "diffEditor.removedLineBackground"],
        Slot::DiffAddedFg => seq!["gitDecoration.addedResourceForeground"],
        Slot::DiffRemovedFg => seq!["gitDecoration.deletedResourceForeground"],
        Slot::DiffHunkHeaderBg => seq!["diffEditor.diagonalFill", "editorGutter.background"],
        Slot::DiffHunkHeaderFg => seq!["editorLineNumber.foreground"],
    }
}

/// The keys of `chain(s)` as a vector.
fn slot_keys(s: Slot) -> (r: Vec<&'static str>)
    ensures
        r@ == chain(s),
{
    match s {
        Slot::BgPrimary => vec!["editor.background", "sideBar.background", "panel.background", "activityBar.background"],
        Slot::TextPrimary => vec!["foreground", "editor.foreground"],
        Slot::TextSecondary => vec!["tab.inactiveForeground", "sideBar.foreground", "descriptionForeground"],
        Slot::TextMuted => vec!["tab.inactiveForeground", "descriptionForeground", "disabledForeground"],
        Slot::BgSecondary => vec!["sideBar.background", "sideBarSectionHeader.background", "tab.inactiveBackground", "panel.background"],
        Slot::BgHeader => vec!["titleBar.activeBackground", "activityBar.background"],
        Slot::BgSelection => vec!["list.activeSelectionBackground", "list.inactiveSelectionBackground", "editor.selectionBackground"],
        Slot::BgHover => vec!["list.hoverBackground", "toolbar.hoverBackground"],
        Slot::Border => vec!["panel.border", "editorGroup.border", "sideBar.border", "titleBar.border", "tab.border"],
        Slot::BorderActive => vec!["sash.hoverBorder", "tab.activeBorderTop", "activityBar.activeBorder", "panelTitle.activeBorder", "progressBar.background", "textLink.foreground", "editorLink.activeForeground", "inputOption.activeBorder", "tab.activeBorder", "focusBorder"],
        Slot::BorderFocused => vec!["focusBorder", "tab.activeBorder"],
        Slot::BorderBell => vec!["notificationsWarningIcon.foreground", "list.warningForeground", "editorWarning.foreground"],
        Slot::BorderIdle => vec!["descriptionForeground", "disabledForeground"],
        Slot::SelectionBg => vec!["terminal.selectionBackground", "editor.selectionBackground", "list.activeSelectionBackground"],
        Slot::SelectionFg => vec!["terminal.selectionForeground", "list.activeSelectionForeground", "editor.foreground"],
        Slot::SearchMatchBg => vec!["editor.findMatchHighlightBackground"],
        Slot::SearchCurrentBg => vec!["editor.findMatchBackground"],
        Slot::TermBlack => vec!["terminal.ansiBlack"],
        Slot::TermRed => vec!["terminal.ansiRed"],
        Slot::TermGreen => vec!["terminal.ansiGreen"],
        Slot::TermYellow => vec!["terminal.ansiYellow"],
        Slot::TermBlue => vec!["terminal.ansiBlue"],
        Slot::TermMagenta => vec!["terminal.ansiMagenta"],
        Slot::TermCyan => vec!["terminal.ansiCyan"],
        Slot::TermWhite => vec!["terminal.ansiWhite"],
        Slot::TermBrightBlack => vec!["terminal.ansiBrightBlack"],
        Slot::TermBrightRed => vec!["terminal.ansiBrightRed"],
        Slot::TermBrightGreen => vec!["terminal.ansiBrightGreen"],
        Slot::TermBrightYellow => vec!["terminal.ansiBrightYellow"],
        Slot::TermBrightBlue => vec!["terminal.ansiBrightBlue"],
        Slot::TermBrightMagenta => vec!["terminal.ansiBrightMagenta"],
        Slot::TermBrightCyan => vec!["terminal.ansiBrightCyan"],
        Slot::TermBrightWhite => vec!["terminal.ansiBrightWhite"],
        Slot::TermForeground => vec!["terminal.foreground", "foreground"],
        Slot::TermBackground => vec!["terminal.background", "editor.background"],
        Slot::Cursor => vec!["terminalCursor.foreground", "editorCursor.foreground"],
        Slot::Scrollbar => vec!["scrollbarSlider.background"],
        Slot::ScrollbarHover => vec!["scrollbarSlider.hoverBackground"],
        Slot::Success => vec!["gitDecoration.addedResourceForeground", "testing.iconPassed", "charts.green"],
        Slot::Warning => vec!["editorWarning.foreground", "list.warningForeground", "charts.yellow"],
        Slot::Error => vec!["errorForeground", "editorError.foreground", "charts.red"],
        Slot::ButtonBg => vec!["button.background"],
        Slot::ButtonFg => vec!["button.foreground"],
        Slot::ButtonHover => vec!["button.hoverBackground"],
        Slot::FolderRed => vec!["terminal.ansiBrightRed", "terminal.ansiRed"],
        Slot::FolderOrange => vec!["charts.orange", "terminal.ansiYellow"],
        Slot::FolderYellow => vec!["terminal.ansiBrightYellow", "terminal.ansiYellow"],
        Slot::FolderLime => vec!["charts.lines", "terminal.ansiBrightGreen"],
        Slot::FolderGreen => vec!["terminal.ansiBrightGreen", "terminal.ansiGreen"],
        Slot::FolderTeal => vec!["terminal.ansiCyan"],
        Slot::FolderCyan => vec!["terminal.ansiBrightCyan", "terminal.ansiCyan"],
        Slot::FolderBlue => vec!["terminal.ansiBrightBlue", "terminal.ansiBlue"],
        Slot::FolderIndigo => vec!["terminal.ansiBlue"],
        Slot::FolderPurple => vec!["terminal.ansiBrightMagenta", "terminal.ansiMagenta"],
        Slot::FolderPink => vec!["terminal.ansiMagenta", "charts.purple"],
        Slot::DiffAddedBg => vec!["diffEditor.insertedTextBackground", "diffEditor.insertedLineBackground"],
        Slot::DiffRemovedBg => vec!["diffEditor.removedTextBackground", "diffEditor.removedLineBackground"],
        Slot::DiffAddedFg => vec!["gitDecoration.addedResourceForeground"],
        Slot::DiffRemovedFg => vec!["gitDecoration.deletedResourceForeground"],
        Slot::DiffHunkHeaderBg => vec!["diffEditor.diagonalFill", "editorGutter.background"],
        Slot::DiffHunkHeaderFg => vec!["editorLineNumber.foreground"],
    }
}

/// Slots whose colors are taken as written, alpha ignored: the renderer
/// applies its own alpha to them.
pub open spec fn is_raw_slot(s: Slot) -> bool {
    s == Slot::DiffAddedBg || s == Slot::DiffRemovedBg
}

/// The color under key `k`, if it parses.
pub open spec fn color_at(colors: Map<Seq<char>, Seq<char>>, k: Seq<char>) -> Option<(u32, u8)> {
    if colors.contains_key(k) {
        spec_rgba(colors[k])
    } else {
        None
    }
}

/// Whether key `k` ends a lookup: it holds a color, not fully transparent
/// unless `raw`.
pub open spec fn key_hits(colors: Map<Seq<char>, Seq<char>>, k: Seq<char>, raw: bool) -> bool {
    match color_at(colors, k) {
        Some((_, a)) => raw || a > 0,
        None => false,
    }
}

/// The first key of `keys` that holds a color with nonzero alpha, blended
/// over `bg`.
pub open spec fn look_from(colors: Map<Seq<char>, Seq<char>>, keys: Seq<&str>, bg: u32) -> Option<u32>
    decreases keys.len(),
{
    if keys.len() == 0 {
        None
    } else {
        match color_at(colors, keys[0]@) {
            Some((rgb, a)) => if a > 0 {
                Some(spec_blend(rgb, a, bg))
            } else {
                look_from(colors, keys.skip(1), bg)
            },
            None => look_from(colors, keys.skip(1), bg),
        }
    }
}

/// The RGB of the first key of `keys` that holds a color, alpha ignored.
pub open spec fn look_raw_from(colors: Map<Seq<char>, Seq<char>>, keys: Seq<&str>) -> Option<u32>
    decreases keys.len(),
{
    if keys.len() == 0 {
        None
    } else {
        match color_at(colors, keys[0]@) {
            Some((rgb, _)) => Some(rgb),
            None => look_raw_from(colors, keys.skip(1)),
        }
    }
}

/// What slot `s` reads from `colors`; colors with alpha are blended over `bg`.
pub open spec fn slot_value(colors: Map<Seq<char>, Seq<char>>, s: Slot, bg: u32) -> Option<u32> {
    if is_raw_slot(s) {
        look_raw_from(colors, chain(s))
    } else {
        look_from(colors, chain(s), bg)
    }
}

/// Whether reading `keys` in order until a hit parses only values that do
/// not make the color parser panic.
pub open spec fn lookups_safe(colors: Map<Seq<char>, Seq<char>>, keys: Seq<&str>, raw: bool) -> bool
    decreases keys.len(),
{
    keys.len() == 0 || {
        &&& (colors.contains_key(keys[0]@) ==> !color_parse_panics(colors[keys[0]@]))
        &&& (key_hits(colors, keys[0]@, raw) || lookups_safe(colors, keys.skip(1), raw))
    }
}

pub open spec fn slot_safe(colors: Map<Seq<char>, Seq<char>>, s: Slot) -> bool {
    lookups_safe(colors, chain(s), is_raw_slot(s))
}

/// Whether mapping a theme with these colors reads only parseable values.
pub open spec fn theme_lookups_safe(colors: Map<Seq<char>, Seq<char>>) -> bool {
    forall|s: Slot| #[trigger] slot_safe(colors, s)
}

/// Reads slot `s`: the first key of its chain that holds a usable color.
fn look_slot(colors: &ColorMap, s: Slot, bg: u32) -> (r: Option<u32>)
    requires
        slot_safe(colors@, s),
    ensures
        r == slot_value(colors@, s, bg),
{
    let raw = match s {
        Slot::DiffAddedBg | Slot::DiffRemovedBg => true,
        _ => false,
    };
    let keys = slot_keys(s);
    assert(keys@.skip(0) =~= keys@);
    let mut i: usize = 0;
    while i < keys.len()
        invariant
            i <= keys@.len(),
            keys@ == chain(s),
            raw == is_raw_slot(s),
            slot_value(colors@, s, bg) == (if raw {
                look_raw_from(colors@, keys@.skip(i as int))
            } else {
                look_from(colors@, keys@.skip(i as int), bg)
            }),
            lookups_safe(colors@, keys@.skip(i as int), raw),
        decreases keys.len() - i,
    {
        let ghost rest = keys@.skip(i as int);
        assert(rest[0] == keys@[i as int]);
        assert(rest.skip(1) =~= keys@.skip(i + 1));
        match colors.get(keys[i]) {
            Some(v) => match parse_vscode_color_rgba(v.as_str()) {
                Some((rgb, a)) => {
                    if raw {
                        return Some(rgb);
                    }
                    if a > 0 {
                        return Some(blend_over(rgb, a, bg));
                    }
                },
                None => {},
            },
            None => {},
        }
        i += 1;
    }
    None
}

/// The palette a theme with these colors maps to, `fb` supplying every entry
/// the theme does not set.
pub open spec fn spec_theme_colors(colors: Map<Seq<char>, Seq<char>>, fb: ThemeColors) -> ThemeColors {
    let bg_primary = slot_value(colors, Slot::BgPrimary, fb.bg_primary).unwrap_or(fb.bg_primary);
    let text_primary = slot_value(colors, Slot::TextPrimary, bg_primary).unwrap_or(fb.text_primary);
    let bg_secondary = slot_value(colors, Slot::BgSecondary, bg_primary).unwrap_or(fb.bg_secondary);
    let bg_header = slot_value(colors, Slot::BgHeader, bg_primary).unwrap_or(fb.bg_header);
    let bg_selection = slot_value(colors, Slot::BgSelection, bg_primary).unwrap_or(fb.bg_selection);
    let bg_hover = slot_value(colors, Slot::BgHover, bg_primary).unwrap_or(fb.bg_hover);
    let border_bell = slot_value(colors, Slot::BorderBell, bg_primary).unwrap_or(fb.border_bell);
    let border_idle = slot_value(colors, Slot::BorderIdle, bg_primary).unwrap_or(fb.border_idle);
    let text_secondary = slot_value(colors, Slot::TextSecondary, bg_primary).unwrap_or(fb.text_secondary);
    let text_muted = slot_value(colors, Slot::TextMuted, bg_primary).unwrap_or(fb.text_muted);
    let selection_bg = slot_value(colors, Slot::SelectionBg, bg_primary).unwrap_or(fb.selection_bg);
    let selection_fg = slot_value(colors, Slot::SelectionFg, bg_primary).unwrap_or(fb.selection_fg);
    let search_match_bg = slot_value(colors, Slot::SearchMatchBg, bg_primary).unwrap_or(fb.search_match_bg);
    let search_current_bg = slot_value(colors, Slot::SearchCurrentBg, bg_primary).unwrap_or(fb.search_current_bg);
    let term_black = slot_value(colors, Slot::TermBlack, bg_primary).unwrap_or(fb.term_black);
    let term_red = slot_value(colors, Slot::TermRed, bg_primary).unwrap_or(fb.term_red);
    let term_green = slot_value(colors, Slot::TermGreen, bg_primary).unwrap_or(fb.term_green);
    let term_yellow = slot_value(colors, Slot::TermYellow, bg_primary).unwrap_or(fb.term_yellow);
    let term_blue = slot_value(colors, Slot::TermBlue, bg_primary).unwrap_or(fb.term_blue);
    let term_magenta = slot_value(colors, Slot::TermMagenta, bg_primary).unwrap_or(fb.term_magenta);
    let term_cyan = slot_value(colors, Slot::TermCyan, bg_primary).unwrap_or(fb.term_cyan);
    let term_white = slot_value(colors, Slot::TermWhite, bg_primary).unwrap_or(fb.term_white);
    let term_bright_black = slot_value(colors, Slot::TermBrightBlack, bg_primary).unwrap_or(fb.term_bright_black);
    let term_bright_red = slot_value(colors, Slot::TermBrightRed, bg_primary).unwrap_or(fb.term_bright_red);
    let term_bright_green = slot_value(colors, Slot::TermBrightGreen, bg_primary).unwrap_or(fb.term_bright_green);
    let term_bright_yellow = slot_value(colors, Slot::TermBrightYellow, bg_primary).unwrap_or(fb.term_bright_yellow);
    let term_bright_blue = slot_value(colors, Slot::TermBrightBlue, bg_primary).unwrap_or(fb.term_bright_blue);
    let term_bright_magenta = slot_value(colors, Slot::TermBrightMagenta, bg_primary).unwrap_or(fb.term_bright_magenta);
    let term_bright_cyan = slot_value(colors, Slot::TermBrightCyan, bg_primary).unwrap_or(fb.term_bright_cyan);
    let term_bright_white = slot_value(colors, Slot::TermBrightWhite, bg_primary).unwrap_or(fb.term_bright_white);
    let term_dim_black = fb.term_dim_black;
    let term_dim_red = fb.term_dim_red;
    let term_dim_green = fb.term_dim_green;
    let term_dim_yellow = fb.term_dim_yellow;
    let term_dim_blue = fb.term_dim_blue;
    let term_dim_magenta = fb.term_dim_magenta;
    let term_dim_cyan = fb.term_dim_cyan;
    let term_dim_white = fb.term_dim_white;
    let term_foreground = slot_value(colors, Slot::TermForeground, bg_primary).unwrap_or(fb.term_foreground);
    let term_bright_foreground = fb.term_bright_foreground;
    let term_dim_foreground = fb.term_dim_foreground;
    let term_background = slot_value(colors, Slot::TermBackground, bg_primary).unwrap_or(fb.term_background);
    let term_background_unfocused = slot_value(colors, Slot::TermBackground, bg_primary).unwrap_or(fb.term_background_unfocused);
    let cursor = slot_value(colors, Slot::Cursor, bg_primary).unwrap_or(fb.cursor);
    let scrollbar = slot_value(colors, Slot::Scrollbar, bg_primary).unwrap_or(fb.scrollbar);
    let scrollbar_hover = slot_value(colors, Slot::ScrollbarHover, bg_primary).unwrap_or(fb.scrollbar_hover);
    let success = slot_value(colors, Slot::Success, bg_primary).unwrap_or(fb.success);
    let warning = slot_value(colors, Slot::Warning, bg_primary).unwrap_or(fb.warning);
    let error = slot_value(colors, Slot::Error, bg_primary).unwrap_or(fb.error);
    let button_primary_bg = slot_value(colors, Slot::ButtonBg, bg_primary).unwrap_or(fb.button_primary_bg);
    let button_primary_fg = slot_value(colors, Slot::ButtonFg, bg_primary).unwrap_or(fb.button_primary_fg);
    let button_primary_hover = slot_value(colors, Slot::ButtonHover, bg_primary).unwrap_or(fb.button_primary_hover);
    let folder_red = slot_value(colors, Slot::FolderRed, bg_primary).unwrap_or(fb.folder_red);
    let folder_orange = slot_value(colors, Slot::FolderOrange, bg_primary).unwrap_or(fb.folder_orange);
    let folder_yellow = slot_value(colors, Slot::FolderYellow, bg_primary).unwrap_or(fb.folder_yellow);
    let folder_lime = slot_value(colors, Slot::FolderLime, bg_primary).unwrap_or(fb.folder_lime);
    let folder_green = slot_value(colors, Slot::FolderGreen, bg_primary).unwrap_or(fb.folder_green);
    let folder_teal = slot_value(colors, Slot::FolderTeal, bg_primary).unwrap_or(fb.folder_teal);
    let folder_cyan = slot_value(colors, Slot::FolderCyan, bg_primary).unwrap_or(fb.folder_cyan);
    let folder_blue = slot_value(colors, Slot::FolderBlue, bg_primary).unwrap_or(fb.folder_blue);
    let folder_indigo = slot_value(colors, Slot::FolderIndigo, bg_primary).unwrap_or(fb.folder_indigo);
    let folder_purple = slot_value(colors, Slot::FolderPurple, bg_primary).unwrap_or(fb.folder_purple);
    let folder_pink = slot_value(colors, Slot::FolderPink, bg_primary).unwrap_or(fb.folder_pink);
    let diff_added_bg = slot_value(colors, Slot::DiffAddedBg, bg_primary).unwrap_or(fb.diff_added_bg);
    let diff_removed_bg = slot_value(colors, Slot::DiffRemovedBg, bg_primary).unwrap_or(fb.diff_removed_bg);
    let diff_added_fg = slot_value(colors, Slot::DiffAddedFg, bg_primary).unwrap_or(fb.diff_added_fg);
    let diff_removed_fg = slot_value(colors, Slot::DiffRemovedFg, bg_primary).unwrap_or(fb.diff_removed_fg);
    let diff_hunk_header_bg = slot_value(colors, Slot::DiffHunkHeaderBg, bg_primary).unwrap_or(fb.diff_hunk_header_bg);
    let diff_hunk_header_fg = slot_value(colors, Slot::DiffHunkHeaderFg, bg_primary).unwrap_or(fb.diff_hunk_header_fg);
    let border_raw = slot_value(colors, Slot::Border, bg_primary).unwrap_or(fb.border);
    let border = subtle_border(border_raw, bg_primary, text_primary);
    let border_active_raw = slot_value(colors, Slot::BorderActive, bg_primary).unwrap_or(fb.border_active);
    let border_active = visible_border(border_active_raw, bg_primary, text_primary);
    let border_focused_raw = slot_value(colors, Slot::BorderFocused, bg_primary).unwrap_or(border_active);
    let border_focused = visible_border(border_focused_raw, bg_primary, text_primary);
    let folder_default = text_primary;
    let metric_normal = success;
    let metric_warning = warning;
    let metric_critical = error;
    ThemeColors {
        bg_primary,
        bg_secondary,
        bg_header,
        bg_selection,
        bg_hover,
        border,
        border_active,
        border_focused,
        border_bell,
        border_idle,
        text_primary,
        text_secondary,
        text_muted,
        selection_bg,
        selection_fg,
        search_match_bg,
        search_current_bg,
        term_black,
        term_red,
        term_green,
        term_yellow,
        term_blue,
        term_magenta,
        term_cyan,
        term_white,
        term_bright_black,
        term_bright_red,
        term_bright_green,
        term_bright_yellow,
        term_bright_blue,
        term_bright_magenta,
        term_bright_cyan,
        term_bright_white,
        term_dim_black,
        term_dim_red,
        term_dim_green,
        term_dim_yellow,
        term_dim_blue,
        term_dim_magenta,
        term_dim_cyan,
        term_dim_white,
        term_foreground,
        term_bright_foreground,
        term_dim_foreground,
        term_background,
        term_background_unfocused,
        cursor,
        scrollbar,
        scrollbar_hover,
        success,
        warning,
        error,
        button_primary_bg,
        button_primary_fg,
        button_primary_hover,
        folder_default,
        folder_red,
        folder_orange,
        folder_yellow,
        folder_lime,
        folder_green,
        folder_teal,
        folder_cyan,
        folder_blue,
        folder_indigo,
        folder_purple,
        folder_pink,
        metric_normal,
        metric_warning,
        metric_critical,
        diff_added_bg,
        diff_removed_bg,
        diff_added_fg,
        diff_removed_fg,
        diff_hunk_header_bg,
        diff_hunk_header_fg,
    }
}

proof fn lemma_look_empty(keys: Seq<&str>, bg: u32)
    ensures
        look_from(Map::empty(), keys, bg) is None,
        look_raw_from(Map::empty(), keys) is None,
    decreases keys.len(),
{
    if keys.len() > 0 {
        lemma_look_empty(keys.skip(1), bg);
    }
}

/// What every mapped palette satisfies: the dim terminal colors and the
/// bright and dim foregrounds always come from the fallback; the default
/// folder color is the primary text color and the metric colors are the
/// success, warning and error colors; a theme without colors keeps the
/// fallback's background and red; a parseable
/// `diffEditor.insertedTextBackground` gives the added-line background its RGB.
pub proof fn law_theme_colors_fallbacks(colors: Map<Seq<char>, Seq<char>>, fb: ThemeColors)
    ensures
        ({
            let r = spec_theme_colors(colors, fb);
            &&& r.term_dim_black == fb.term_dim_black
            &&& r.term_dim_red == fb.term_dim_red
            &&& r.term_dim_green == fb.term_dim_green
            &&& r.term_dim_yellow == fb.term_dim_yellow
            &&& r.term_dim_blue == fb.term_dim_blue
            &&& r.term_dim_magenta == fb.term_dim_magenta
            &&& r.term_dim_cyan == fb.term_dim_cyan
            &&& r.term_dim_white == fb.term_dim_white
            &&& r.term_bright_foreground == fb.term_bright_foreground
            &&& r.term_dim_foreground == fb.term_dim_foreground
            &&& r.folder_default == r.text_primary
            &&& r.metric_normal == r.success
            &&& r.metric_warning == r.warning
            &&& r.metric_critical == r.error
            &&& colors =~= Map::empty() ==> r.bg_primary == fb.bg_primary && r.term_red == fb.term_red
            &&& color_at(colors, "diffEditor.insertedTextBackground"@) matches Some((rgb, _)) ==> r.diff_added_bg == rgb
        }),
{
    if colors =~= Map::empty() {
        lemma_look_empty(chain(Slot::BgPrimary), fb.bg_primary);
        let bp = slot_value(colors, Slot::BgPrimary, fb.bg_primary).unwrap_or(fb.bg_primary);
        lemma_look_empty(chain(Slot::TermRed), bp);
    }
    assert(chain(Slot::DiffAddedBg)[0]@ == "diffEditor.insertedTextBackground"@);
}

/// A VS Code color theme (`*-color-theme.json`).
pub struct VsCodeTheme {
    pub name: Option<String>,
    pub kind: Option<String>,
    pub include_path: Option<String>,
    pub colors: ColorMap,
}

/// Maps a VS Code theme onto the palette, taking `fallback` for every entry
/// the theme does not set. Colors with alpha are blended over the resolved
/// primary background, except the diff backgrounds, which keep their RGB.
pub fn vscode_to_theme_colors(theme: &VsCodeTheme, fallback: &ThemeColors) -> (r: ThemeColors)
    requires
        theme_lookups_safe(theme.colors@),
    ensures
        r == spec_theme_colors(theme.colors@, *fallback),
{
    let bg_primary = look_slot(&theme.colors, Slot::BgPrimary, fallback.bg_primary).unwrap_or(fallback.bg_primary);
    let text_primary = look_slot(&theme.colors, Slot::TextPrimary, bg_primary).unwrap_or(fallback.text_primary);
    let bg_secondary = look_slot(&theme.colors, Slot::BgSecondary, bg_primary).unwrap_or(fallback.bg_secondary);
    let bg_header = look_slot(&theme.colors, Slot::BgHeader, bg_primary).unwrap_or(fallback.bg_header);
    let bg_selection = look_slot(&theme.colors, Slot::BgSelection, bg_primary).unwrap_or(fallback.bg_selection);
    let bg_hover = look_slot(&theme.colors, Slot::BgHover, bg_primary).unwrap_or(fallback.bg_hover);
    let border_bell = look_slot(&theme.colors, Slot::BorderBell, bg_primary).unwrap_or(fallback.border_bell);
    let border_idle = look_slot(&theme.colors, Slot::BorderIdle, bg_primary).unwrap_or(fallback.border_idle);
    let text_secondary = look_slot(&theme.colors, Slot::TextSecondary, bg_primary).unwrap_or(fallback.text_secondary);
    let text_muted = look_slot(&theme.colors, Slot::TextMuted, bg_primary).unwrap_or(fallback.text_muted);
    let selection_bg = look_slot(&theme.colors, Slot::SelectionBg, bg_primary).unwrap_or(fallback.selection_bg);
    let selection_fg = look_slot(&theme.colors, Slot::SelectionFg, bg_primary).unwrap_or(fallback.selection_fg);
    let search_match_bg = look_slot(&theme.colors, Slot::SearchMatchBg, bg_primary).unwrap_or(fallback.search_match_bg);
    let search_current_bg = look_slot(&theme.colors, Slot::SearchCurrentBg, bg_primary).unwrap_or(fallback.search_current_bg);
    let term_black = look_slot(&theme.colors, Slot::TermBlack, bg_primary).unwrap_or(fallback.term_black);
    let term_red = look_slot(&theme.colors, Slot::TermRed, bg_primary).unwrap_or(fallback.term_red);
    let term_green = look_slot(&theme.colors, Slot::TermGreen, bg_primary).unwrap_or(fallback.term_green);
    let term_yellow = look_slot(&theme.colors, Slot::TermYellow, bg_primary).unwrap_or(fallback.term_yellow);
    let term_blue = look_slot(&theme.colors, Slot::TermBlue, bg_primary).unwrap_or(fallback.term_blue);
    let term_magenta = look_slot(&theme.colors, Slot::TermMagenta, bg_primary).unwrap_or(fallback.term_magenta);
    let term_cyan = look_slot(&theme.colors, Slot::TermCyan, bg_primary).unwrap_or(fallback.term_cyan);
    let term_white = look_slot(&theme.colors, Slot::TermWhite, bg_primary).unwrap_or(fallback.term_white);
    let term_bright_black = look_slot(&theme.colors, Slot::TermBrightBlack, bg_primary).unwrap_or(fallback.term_bright_black);
    let term_bright_red = look_slot(&theme.colors, Slot::TermBrightRed, bg_primary).unwrap_or(fallback.term_bright_red);
    let term_bright_green = look_slot(&theme.colors, Slot::TermBrightGreen, bg_primary).unwrap_or(fallback.term_bright_green);
    let term_bright_yellow = look_slot(&theme.colors, Slot::TermBrightYellow, bg_primary).unwrap_or(fallback.term_bright_yellow);
    let term_bright_blue = look_slot(&theme.colors, Slot::TermBrightBlue, bg_primary).unwrap_or(fallback.term_bright_blue);
    let term_bright_magenta = look_slot(&theme.colors, Slot::TermBrightMagenta, bg_primary).unwrap_or(fallback.term_bright_magenta);
    let term_bright_cyan = look_slot(&theme.colors, Slot::TermBrightCyan, bg_primary).unwrap_or(fallback.term_bright_cyan);
    let term_bright_white = look_slot(&theme.colors, Slot::TermBrightWhite, bg_primary).unwrap_or(fallback.term_bright_white);
    let term_dim_black = fallback.term_dim_black;
    let term_dim_red = fallback.term_dim_red;
    let term_dim_green = fallback.term_dim_green;
    let term_dim_yellow = fallback.term_dim_yellow;
    let term_dim_blue = fallback.term_dim_blue;
    let term_dim_magenta = fallback.term_dim_magenta;
    let term_dim_cyan = fallback.term_dim_cyan;
    let term_dim_white = fallback.term_dim_white;
    let term_foreground = look_slot(&theme.colors, Slot::TermForeground, bg_primary).unwrap_or(fallback.term_foreground);
    let term_bright_foreground = fallback.term_bright_foreground;
    let term_dim_foreground = fallback.term_dim_foreground;
    let term_background = look_slot(&theme.colors, Slot::TermBackground, bg_primary).unwrap_or(fallback.term_background);
    let term_background_unfocused = look_slot(&theme.colors, Slot::TermBackground, bg_primary).unwrap_or(fallback.term_background_unfocused);
    let cursor = look_slot(&theme.colors, Slot::Cursor, bg_primary).unwrap_or(fallback.cursor);
    let scrollbar = look_slot(&theme.colors, Slot::Scrollbar, bg_primary).unwrap_or(fallback.scrollbar);
    let scrollbar_hover = look_slot(&theme.colors, Slot::ScrollbarHover, bg_primary).unwrap_or(fallback.scrollbar_hover);
    let success = look_slot(&theme.colors, Slot::Success, bg_primary).unwrap_or(fallback.success);
    let warning = look_slot(&theme.colors, Slot::Warning, bg_primary).unwrap_or(fallback.warning);
    let error = look_slot(&theme.colors, Slot::Error, bg_primary).unwrap_or(fallback.error);
    let button_primary_bg = look_slot(&theme.colors, Slot::ButtonBg, bg_primary).unwrap_or(fallback.button_primary_bg);
    let button_primary_fg = look_slot(&theme.colors, Slot::ButtonFg, bg_primary).unwrap_or(fallback.button_primary_fg);
    let button_primary_hover = look_slot(&theme.colors, Slot::ButtonHover, bg_primary).unwrap_or(fallback.button_primary_hover);
    let folder_red = look_slot(&theme.colors, Slot::FolderRed, bg_primary).unwrap_or(fallback.folder_red);
    let folder_orange = look_slot(&theme.colors, Slot::FolderOrange, bg_primary).unwrap_or(fallback.folder_orange);
    let folder_yellow = look_slot(&theme.colors, Slot::FolderYellow, bg_primary).unwrap_or(fallback.folder_yellow);
    let folder_lime = look_slot(&theme.colors, Slot::FolderLime, bg_primary).unwrap_or(fallback.folder_lime);
    let folder_green = look_slot(&theme.colors, Slot::FolderGreen, bg_primary).unwrap_or(fallback.folder_green);
    let folder_teal = look_slot(&theme.colors, Slot::FolderTeal, bg_primary).unwrap_or(fallback.folder_teal);
    let folder_cyan = look_slot(&theme.colors, Slot::FolderCyan, bg_primary).unwrap_or(fallback.folder_cyan);
    let folder_blue = look_slot(&theme.colors, Slot::FolderBlue, bg_primary).unwrap_or(fallback.folder_blue);
    let folder_indigo = look_slot(&theme.colors, Slot::FolderIndigo, bg_primary).unwrap_or(fallback.folder_indigo);
    let folder_purple = look_slot(&theme.colors, Slot::FolderPurple, bg_primary).unwrap_or(fallback.folder_purple);
    let folder_pink = look_slot(&theme.colors, Slot::FolderPink, bg_primary).unwrap_or(fallback.folder_pink);
    let diff_added_bg = look_slot(&theme.colors, Slot::DiffAddedBg, bg_primary).unwrap_or(fallback.diff_added_bg);
    let diff_removed_bg = look_slot(&theme.colors, Slot::DiffRemovedBg, bg_primary).unwrap_or(fallback.diff_removed_bg);
    let diff_added_fg = look_slot(&theme.colors, Slot::DiffAddedFg, bg_primary).unwrap_or(fallback.diff_added_fg);
    let diff_removed_fg = look_slot(&theme.colors, Slot::DiffRemovedFg, bg_primary).unwrap_or(fallback.diff_removed_fg);
    let diff_hunk_header_bg = look_slot(&theme.colors, Slot::DiffHunkHeaderBg, bg_primary).unwrap_or(fallback.diff_hunk_header_bg);
    let diff_hunk_header_fg = look_slot(&theme.colors, Slot::DiffHunkHeaderFg, bg_primary).unwrap_or(fallback.diff_hunk_header_fg);
    let border_raw = look_slot(&theme.colors, Slot::Border, bg_primary).unwrap_or(fallback.border);
    let border = ensure_subtle_border(border_raw, bg_primary, text_primary);
    let border_active_raw = look_slot(&theme.colors, Slot::BorderActive, bg_primary).unwrap_or(fallback.border_active);
    let border_active = ensure_visible_border(border_active_raw, bg_primary, text_primary);
    let border_focused_raw = look_slot(&theme.colors, Slot::BorderFocused, bg_primary).unwrap_or(border_active);
    let border_focused = ensure_visible_border(border_focused_raw, bg_primary, text_primary);
    let folder_default = text_primary;
    let metric_normal = success;
    let metric_warning = warning;
    let metric_critical = error;
    ThemeColors {
        bg_primary,
        bg_secondary,
        bg_header,
        bg_selection,
        bg_hover,
        border,
        border_active,
        border_focused,
        border_bell,
        border_idle,
        text_primary,
        text_secondary,
        text_muted,
        selection_bg,
        selection_fg,
        search_match_bg,
        search_current_bg,
        term_black,
        term_red,
        term_green,
        term_yellow,
        term_blue,
        term_magenta,
        term_cyan,
        term_white,
        term_bright_black,
        term_bright_red,
        term_bright_green,
        term_bright_yellow,
        term_bright_blue,
        term_bright_magenta,
        term_bright_cyan,
        term_bright_white,
        term_dim_black,
        term_dim_red,
        term_dim_green,
        term_dim_yellow,
        term_dim_blue,
        term_dim_magenta,
        term_dim_cyan,
        term_dim_white,
        term_foreground,
        term_bright_foreground,
        term_dim_foreground,
        term_background,
        term_background_unfocused,
        cursor,
        scrollbar,
        scrollbar_hover,
        success,
        warning,
        error,
        button_primary_bg,
        button_primary_fg,
        button_primary_hover,
        folder_default,
        folder_red,
        folder_orange,
        folder_yellow,
        folder_lime,
        folder_green,
        folder_teal,
        folder_cyan,
        folder_blue,
        folder_indigo,
        folder_purple,
        folder_pink,
        metric_normal,
        metric_warning,
        metric_critical,
        diff_added_bg,
        diff_removed_bg,
        diff_added_fg,
        diff_removed_fg,
        diff_hunk_header_bg,
        diff_hunk_header_fg,
    }
}

/// Deepest `include` chain a theme file may start (files below it are
/// refused).
pub const MAX_INCLUDE_DEPTH: u8 = 5;

/// A theme combined with the theme it includes: the included theme's
/// colors overlaid by the including theme's own, and the name and kind of
/// the including theme where it has them.
pub fn merge_included(child: VsCodeTheme, parent: VsCodeTheme) -> (r: VsCodeTheme)
    ensures
        r.colors@ == parent.colors@.union_prefer_right(child.colors@),
        r.name == (if child.name is Some {
            child.name
        } else {
            parent.name
        }),
        r.kind == (if child.kind is Some {
            child.kind
        } else {
            parent.kind
        }),
        r.include_path == child.include_path,
{
    let mut colors = parent.colors;
    colors.extend_from(&child.colors);
    let name = match child.name {
        Some(n) => Some(n),
        None => parent.name,
    };
    let kind = match child.kind {
        Some(k) => Some(k),
        None => parent.kind,
    };
    VsCodeTheme { name, kind, include_path: child.include_path, colors }
}

/// The next move while reading an include chain.
#[derive(Debug)]
pub enum IncludeStep {
    /// Read the file at this path, relative to the directory of the last file read.
    Follow(String),
    /// The next file, at this path, would lie deeper than
    /// `MAX_INCLUDE_DEPTH`: refuse the chain.
    TooDeep(String),
    /// The last file read includes nothing: the chain is complete.
    Done,
}

/// Decides the next move for a partly read include chain (`chain[0]` is the
/// file asked for, each file includes the next). A chain is followed to at
/// most `MAX_INCLUDE_DEPTH + 1` files, so a cycle of includes ends in
/// `TooDeep`.
pub fn include_step(chain: &Vec<VsCodeTheme>) -> (r: IncludeStep)
    requires
        chain@.len() >= 1,
    ensures
        match chain@.last().include_path {
            Some(rel) => if chain@.len() > MAX_INCLUDE_DEPTH {
                r matches IncludeStep::TooDeep(p) && p@ == rel@
            } else {
                r matches IncludeStep::Follow(p) && p@ == rel@
            },
            None => r is Done,
        },
        r is Follow ==> chain@.len() <= MAX_INCLUDE_DEPTH,
{
    let last = chain.len() - 1;
    match &chain[last].include_path {
        Some(rel) => {
            if chain.len() > MAX_INCLUDE_DEPTH as usize {
                IncludeStep::TooDeep(rel.clone())
            } else {
                IncludeStep::Follow(rel.clone())
            }
        },
        None => IncludeStep::Done,
    }
}

/// The colors of an include chain (each theme includes the next): every
/// theme's own colors overlay those of the themes it includes.
pub open spec fn chain_colors(themes: Seq<VsCodeTheme>) -> Map<Seq<char>, Seq<char>>
    decreases themes.len(),
{
    if themes.len() == 0 {
        Map::empty()
    } else if themes.len() == 1 {
        themes[0].colors@
    } else {
        chain_colors(themes.skip(1)).union_prefer_right(themes[0].colors@)
    }
}

/// The first name set along an include chain.
pub open spec fn chain_name(themes: Seq<VsCodeTheme>) -> Option<String>
    decreases themes.len(),
{
    if themes.len() == 0 {
        None
    } else if themes[0].name is Some {
        themes[0].name
    } else {
        chain_name(themes.skip(1))
    }
}

/// The first kind set along an include chain.
pub open spec fn chain_kind(themes: Seq<VsCodeTheme>) -> Option<String>
    decreases themes.len(),
{
    if themes.len() == 0 {
        None
    } else if themes[0].kind is Some {
        themes[0].kind
    } else {
        chain_kind(themes.skip(1))
    }
}

/// Resolves a loaded include chain: `themes[0]` is the file asked for and
/// each theme includes the next. The result has the chain's colors, each
/// file overriding the files it includes, and the first name and kind set
/// along the chain.
pub fn merge_chain(themes: Vec<VsCodeTheme>) -> (r: VsCodeTheme)
    requires
        themes@.len() >= 1,
    ensures
        r.colors@ == chain_colors(themes@),
        r.name == chain_name(themes@),
        r.kind == chain_kind(themes@),
        r.include_path == themes@[0].include_path,
{
    let ghost orig = themes@;
    let mut rest = themes;
    let mut acc = rest.pop().unwrap();
    assert(orig.skip(orig.len() - 1) =~= seq![acc]);
    assert(seq![acc].skip(1) =~= Seq::<VsCodeTheme>::empty());
    assert(chain_name(Seq::<VsCodeTheme>::empty()) is None);
    assert(chain_kind(Seq::<VsCodeTheme>::empty()) is None);
    assert(chain_name(seq![acc]) == acc.name);
    assert(chain_kind(seq![acc]) == acc.kind);
    while rest.len() > 0
        invariant
            1 <= orig.len(),
            rest@.len() < orig.len(),
            rest@ == orig.take(rest@.len() as int),
            acc.colors@ == chain_colors(orig.skip(rest@.len() as int)),
            acc.name == chain_name(orig.skip(rest@.len() as int)),
            acc.kind == chain_kind(orig.skip(rest@.len() as int)),
            acc.include_path == orig[rest@.len() as int].include_path,
        decreases rest@.len(),
    {
        let ghost k = rest@.len() as int;
        let t = rest.pop().unwrap();
        assert(t == orig[k - 1]);
        let ghost tail = orig.skip(k - 1);
        assert(tail.skip(1) =~= orig.skip(k));
        assert(tail[0] == t);
        assert(rest@ =~= orig.take(k - 1));
        acc = merge_included(t, acc);
    }
    assert(orig.skip(0) =~= orig);
    acc
}

/// The background a theme's darkness is judged by: the first of the editor,
/// side bar and panel backgrounds that the theme sets.
pub open spec fn background_value(colors: Map<Seq<char>, Seq<char>>) -> Option<Seq<char>> {
    if colors.contains_key("editor.background"@) {
        Some(colors["editor.background"@])
    } else if colors.contains_key("sideBar.background"@) {
        Some(colors["sideBar.background"@])
    } else if colors.contains_key("panel.background"@) {
        Some(colors["panel.background"@])
    } else {
        None
    }
}

/// Whether the theme's `type` alone says if it is dark.
pub open spec fn kind_decides(kind: Option<Seq<char>>) -> bool {
    kind == Some("light"@) || kind == Some("hc-light"@) || kind == Some("dark"@) || kind == Some("hc-black"@)
}

/// Whether a theme is dark: by its `type` where that is one of the four
/// known kinds, else by the luminance of its background (at most 128 is
/// dark); a theme without a readable background counts as dark.
pub open spec fn spec_is_dark(kind: Option<Seq<char>>, colors: Map<Seq<char>, Seq<char>>) -> bool {
    if kind == Some("light"@) || kind == Some("hc-light"@) {
        false
    } else if kind == Some("dark"@) || kind == Some("hc-black"@) {
        true
    } else {
        match background_value(colors) {
            Some(v) => match spec_rgba(v) {
                Some((rgb, _)) => spec_luma(rgb) <= 128,
                None => true,
            },
            None => true,
        }
    }
}

/// Whether judging darkness parses only values the color parser accepts.
pub open spec fn dark_check_safe(kind: Option<Seq<char>>, colors: Map<Seq<char>, Seq<char>>) -> bool {
    kind_decides(kind) || match background_value(colors) {
        Some(v) => !color_parse_panics(v),
        None => true,
    }
}

impl VsCodeTheme {
    /// Whether the theme is dark.
    pub fn is_dark(&self) -> (r: bool)
        requires
            dark_check_safe(opt_string_view(self.kind), self.colors@),
        ensures
            r == spec_is_dark(opt_string_view(self.kind), self.colors@),
    {
        match &self.kind {
            Some(k) => {
                if *k == "light".to_owned() || *k == "hc-light".to_owned() {
                    return false;
                }
                if *k == "dark".to_owned() || *k == "hc-black".to_owned() {
                    return true;
                }
            },
            None => {},
        }
        let bg = match self.colors.get("editor.background") {
            Some(v) => Some(v),
            None => match self.colors.get("sideBar.background") {
                Some(v) => Some(v),
                None => self.colors.get("panel.background"),
            },
        };
        match bg {
            Some(v) => match parse_vscode_color(v.as_str()) {
                Some(rgb) => luma(rgb) <= 128,
                None => true,
            },
            None => true,
        }
    }
}

/// The bundled theme used on first launch (no prior settings).
pub const DEFAULT_THEME_ID: &'static str = "builtin-poimandres-dark";

/// What the theme picker shows of a theme.
pub struct ThemeInfo {
    pub id: String,
    pub name: String,
    pub description: String,
    pub is_dark: bool,
}

/// The picker id of bundled theme `id`: `custom:` followed by `id`.
pub open spec fn custom_id(id: Seq<char>) -> Seq<char> {
    "custom:"@ + id
}

/// The picker entry for a bundled theme: its palette is mapped with the
/// dark or light fallback according to the theme's darkness.
pub fn builtin_theme_entry(
    id: &str,
    name: &str,
    description: &str,
    theme: &VsCodeTheme,
    dark: &ThemeColors,
    light: &ThemeColors,
) -> (r: (ThemeInfo, ThemeColors))
    requires
        dark_check_safe(opt_string_view(theme.kind), theme.colors@),
        theme_lookups_safe(theme.colors@),
    ensures
        r.0.id@ == custom_id(id@),
        r.0.name@ == name@,
        r.0.description@ == description@,
        r.0.is_dark == spec_is_dark(opt_string_view(theme.kind), theme.colors@),
        r.1 == spec_theme_colors(
            theme.colors@,
            if r.0.is_dark {
                *dark
            } else {
                *light
            },
        ),
{
    let is_dark = theme.is_dark();
    let fallback = if is_dark {
        *dark
    } else {
        *light
    };
    let colors = vscode_to_theme_colors(theme, &fallback);
    let mut full_id = "custom:".to_owned();
    push_all(&mut full_id, &chars_of(id));
    let info = ThemeInfo { id: full_id, name: name.to_owned(), description: description.to_owned(), is_dark };
    (info, colors)
}

/// The palette of the bundled theme `id` (given without its `custom:`
/// prefix) among `themes`, the first whose picker id matches.
pub fn builtin_colors_by_id(themes: &Vec<(ThemeInfo, ThemeColors)>, id: &str) -> (r: Option<ThemeColors>)
    ensures
        r is None <==> (forall|i: int| 0 <= i < themes@.len() ==> #[trigger] themes@[i].0.id@ != custom_id(id@)),
        r matches Some(c) ==> exists|i: int|
            0 <= i < themes@.len() && themes@[i].0.id@ == custom_id(id@) && themes@[i].1 == c && forall|j: int|
                0 <= j < i ==> #[trigger] themes@[j].0.id@ != custom_id(id@),
{
    let mut key = "custom:".to_owned();
    push_all(&mut key, &chars_of(id));
    let mut i: usize = 0;
    while i < themes.len()
        invariant
            i <= themes@.len(),
            key@ == custom_id(id@),
            forall|j: int| 0 <= j < i ==> #[trigger] themes@[j].0.id@ != custom_id(id@),
        decreases themes.len() - i,
    {
        if themes[i].0.id == key {
            return Some(themes[i].1);
        }
        i += 1;
    }
    None
}

/// Whether some key of `keys` contains a `.`.
pub open spec fn some_dotted_key(keys: Seq<String>) -> bool {
    exists|i: int| 0 <= i < keys.len() && (#[trigger] keys[i]@).contains('.')
}

/// Whether a theme file looks like a VS Code theme: its `colors` object has
/// a dotted key (native themes use flat keys such as `bg_primary`), or it
/// has `tokenColors`, `semanticTokenColors` or an `include`. `color_keys`
/// are the keys of `colors` when that is an object.
pub fn is_vscode_schema(
    color_keys: Option<&Vec<String>>,
    has_token_colors: bool,
    has_semantic_token_colors: bool,
    has_include_key: bool,
) -> (r: bool)
    ensures
        r == ((match color_keys {
            Some(k) => some_dotted_key(k@),
            None => false,
        }) || has_token_colors || has_semantic_token_colors || has_include_key),
{
    match color_keys {
        Some(keys) => {
            let mut i: usize = 0;
            while i < keys.len()
                invariant
                    i <= keys@.len(),
                    color_keys == Some(keys),
                    forall|j: int| 0 <= j < i ==> !(#[trigger] keys@[j]@).contains('.'),
                decreases keys.len() - i,
            {
                let v = chars_of(keys[i].as_str());
                let mut k: usize = 0;
                while k < v.len()
                    invariant
                        k <= v@.len(),
                        i < keys@.len(),
                        color_keys == Some(keys),
                        v@ == keys@[i as int]@,
                        forall|m: int| 0 <= m < k ==> v@[m] != '.',
                    decreases v.len() - k,
                {
                    if v[k] == '.' {
                        assert(keys@[i as int]@.contains('.')) by {
                            assert(keys@[i as int]@[k as int] == '.');
                        }
                        return true;
                    }
                    k += 1;
                }
                i += 1;
            }
        },
        None => {},
    }
    has_token_colors || has_semantic_token_colors || has_include_key
}

} // verus!
