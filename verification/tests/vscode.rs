use notmux::color::{blend_over, is_default_bg, luma, parse_vscode_color, parse_vscode_color_rgba, CellColor};
use notmux::color_map::ColorMap;
use notmux::jsonc::strip_jsonc;
use notmux::vscode::{
    builtin_colors_by_id, builtin_theme_entry, include_step, is_vscode_schema, merge_chain, merge_included,
    DEFAULT_THEME_ID,
    vscode_to_theme_colors,
    IncludeStep, ThemeColors, VsCodeTheme,
};

fn dark_theme() -> ThemeColors {
    ThemeColors {
        bg_primary: 0x1e1e2e,
        bg_secondary: 0x181825,
        bg_header: 0x11111b,
        bg_selection: 0x313244,
        bg_hover: 0x45475a,
        border: 0x313244,
        border_active: 0x89b4fa,
        border_focused: 0xb4befe,
        border_bell: 0xf9e2af,
        border_idle: 0x6c7086,
        text_primary: 0xcdd6f4,
        text_secondary: 0xbac2de,
        text_muted: 0xa6adc8,
        selection_bg: 0x585b70,
        selection_fg: 0xcdd6f4,
        search_match_bg: 0xf9e2af,
        search_current_bg: 0xfab387,
        term_black: 0xbadbfc,
        term_red: 0xc4e708,
        term_green: 0xcef214,
        term_yellow: 0xd8fd20,
        term_blue: 0xe3082c,
        term_magenta: 0xed1338,
        term_cyan: 0xf71e44,
        term_white: 0x012950,
        term_bright_black: 0x0b345c,
        term_bright_red: 0x153f68,
        term_bright_green: 0x1f4a74,
        term_bright_yellow: 0x295580,
        term_bright_blue: 0x33608c,
        term_bright_magenta: 0x3d6b98,
        term_bright_cyan: 0x4776a4,
        term_bright_white: 0x5181b0,
        term_dim_black: 0x5b8cbc,
        term_dim_red: 0x6597c8,
        term_dim_green: 0x6fa2d4,
        term_dim_yellow: 0x79ade0,
        term_dim_blue: 0x83b8ec,
        term_dim_magenta: 0x8dc3f8,
        term_dim_cyan: 0x97cf04,
        term_dim_white: 0xa1da10,
        term_foreground: 0xabe51c,
        term_bright_foreground: 0xb5f028,
        term_dim_foreground: 0xbffb34,
        term_background: 0xca0640,
        term_background_unfocused: 0xd4114c,
        cursor: 0xde1c58,
        scrollbar: 0xe82764,
        scrollbar_hover: 0xf23270,
        success: 0xfc3d7c,
        warning: 0x064888,
        error: 0x105394,
        button_primary_bg: 0x1a5ea0,
        button_primary_fg: 0x2469ac,
        button_primary_hover: 0x2e74b8,
        folder_default: 0x387fc4,
        folder_red: 0x428ad0,
        folder_orange: 0x4c95dc,
        folder_yellow: 0x56a0e8,
        folder_lime: 0x60abf4,
        folder_green: 0x6ab700,
        folder_teal: 0x74c20c,
        folder_cyan: 0x7ecd18,
        folder_blue: 0x88d824,
        folder_indigo: 0x92e330,
        folder_purple: 0x9cee3c,
        folder_pink: 0xa6f948,
        metric_normal: 0xb10454,
        metric_warning: 0xbb0f60,
        metric_critical: 0xc51a6c,
        diff_added_bg: 0xcf2578,
        diff_removed_bg: 0xd93084,
        diff_added_fg: 0xe33b90,
        diff_removed_fg: 0xed469c,
        diff_hunk_header_bg: 0xf751a8,
        diff_hunk_header_fg: 0x015cb4,
    }
}

#[test]
fn parses_6_digit_hex() {
    assert_eq!(parse_vscode_color("#1e1e1e"), Some(0x1e1e1e));
    assert_eq!(parse_vscode_color("1e1e1e"), Some(0x1e1e1e));
}

#[test]
fn strips_alpha_from_8_digit_hex() {
    assert_eq!(parse_vscode_color("#1e1e1eff"), Some(0x1e1e1e));
    assert_eq!(parse_vscode_color("#1e1e1e80"), Some(0x1e1e1e));
}

#[test]
fn rgba_reports_alpha_channel() {
    assert_eq!(parse_vscode_color_rgba("#1e1e1e"), Some((0x1e1e1e, 0xff)));
    assert_eq!(parse_vscode_color_rgba("#1e1e1e80"), Some((0x1e1e1e, 0x80)));
    assert_eq!(parse_vscode_color_rgba("#00000000"), Some((0x000000, 0x00)));
}

#[test]
fn blend_over_handles_endpoints() {
    // Fully opaque: returns fg unchanged.
    assert_eq!(blend_over(0xff0000, 0xff, 0x000000), 0xff0000);
    // Fully transparent: returns bg unchanged.
    assert_eq!(blend_over(0xff0000, 0x00, 0x123456), 0x123456);
    // 50% white over black → mid grey.
    let mid = blend_over(0xffffff, 0x80, 0x000000);
    let r = (mid >> 16) & 0xff;
    assert!((0x7f..=0x81).contains(&r), "expected ~0x80, got {r:#x}");
}

#[test]
fn mapping_blends_alpha_selection_against_bg() {
    // Poimandres uses `list.activeSelectionBackground: #30334080` (50% over bg).
    // Expected: a subtle dark shade near bg_primary (#1b1e28), NOT the raw #303340.
    let mut colors = ColorMap::new();
    colors.insert("editor.background".into(), "#1b1e28".into());
    colors.insert("list.activeSelectionBackground".into(), "#30334080".into());
    let theme = VsCodeTheme {
        name: None,
        kind: Some("dark".into()),
        include_path: None,
        colors,
    };
    let mapped = vscode_to_theme_colors(&theme, &dark_theme());
    // Raw #303340 would be much brighter; blended result should be closer to bg_primary.
    assert_ne!(mapped.bg_selection, 0x303340, "must blend, not strip alpha");
    let r = (mapped.bg_selection >> 16) & 0xff;
    assert!(
        r < 0x30,
        "blended red channel should be darker than raw: got {r:#x}"
    );
}

#[test]
fn border_is_brighter_than_bg_for_dark_themes() {
    // Poimandres sets `panel.border: #00000030` → blended against dark bg
    // gives a line *darker* than bg (invisible). ensure_visible_border
    // must promote this to a subtle *lighter* line.
    let mut colors = ColorMap::new();
    colors.insert("editor.background".into(), "#1b1e28".into());
    colors.insert("foreground".into(), "#a6accd".into());
    colors.insert("panel.border".into(), "#00000030".into());
    let theme = VsCodeTheme {
        name: None,
        kind: Some("dark".into()),
        include_path: None,
        colors,
    };
    let mapped = vscode_to_theme_colors(&theme, &dark_theme());
    assert!(
        luma(mapped.border) > luma(0x1b1e28),
        "dark-theme border must be lighter than bg, got {:#08x} vs bg {:#08x}",
        mapped.border,
        0x1b1e28
    );
}

#[test]
fn border_kept_when_already_visible() {
    // If the theme supplies an opaque visible border, don't override it.
    let mut colors = ColorMap::new();
    colors.insert("editor.background".into(), "#1e1e1e".into());
    colors.insert("foreground".into(), "#d4d4d4".into());
    colors.insert("panel.border".into(), "#464b57ff".into());
    let theme = VsCodeTheme {
        name: None,
        kind: Some("dark".into()),
        include_path: None,
        colors,
    };
    let mapped = vscode_to_theme_colors(&theme, &dark_theme());
    assert_eq!(mapped.border, 0x464b57);
}

#[test]
fn mapping_skips_fully_transparent_keys() {
    // Poimandres sets `focusBorder: #00000000`. My border_focused chain
    // should skip this (alpha = 0) and fall through to a visible fallback.
    let mut colors = ColorMap::new();
    colors.insert("editor.background".into(), "#1b1e28".into());
    colors.insert("focusBorder".into(), "#00000000".into());
    colors.insert("activityBar.activeBorder".into(), "#a6accd".into());
    let theme = VsCodeTheme {
        name: None,
        kind: Some("dark".into()),
        include_path: None,
        colors,
    };
    let mapped = vscode_to_theme_colors(&theme, &dark_theme());
    assert_eq!(mapped.border_focused, 0xa6accd);
}

#[test]
fn expands_3_digit_shorthand() {
    assert_eq!(parse_vscode_color("#f0a"), Some(0xff00aa));
    assert_eq!(parse_vscode_color("#abc"), Some(0xaabbcc));
}

#[test]
fn rejects_invalid_hex() {
    assert_eq!(parse_vscode_color("not-a-color"), None);
    assert_eq!(parse_vscode_color("#xyz"), None);
    assert_eq!(parse_vscode_color(""), None);
}

#[test]
fn preserves_slashes_in_strings() {
    let input = r#"{ "url": "http://example.com" }"#;
    let out = strip_jsonc(input);
    assert!(out.contains("http://example.com"));
}

#[test]
fn maps_known_vscode_keys() {
    let mut colors = ColorMap::new();
    colors.insert("editor.background".to_string(), "#111111".to_string());
    colors.insert("foreground".to_string(), "#eeeeee".to_string());
    colors.insert("terminal.ansiRed".to_string(), "#ff0000".to_string());
    let theme = VsCodeTheme {
        name: Some("T".into()),
        kind: Some("dark".into()),
        include_path: None,
        colors,
    };
    let mapped = vscode_to_theme_colors(&theme, &dark_theme());
    assert_eq!(mapped.bg_primary, 0x111111);
    assert_eq!(mapped.text_primary, 0xeeeeee);
    assert_eq!(mapped.term_red, 0xff0000);
}

#[test]
fn maps_sidebar_background_to_secondary_surface() {
    let mut colors = ColorMap::new();
    colors.insert("editor.background".to_string(), "#282c34".to_string());
    colors.insert("sideBar.background".to_string(), "#21252b".to_string());
    colors.insert(
        "sideBarSectionHeader.background".to_string(),
        "#282c34".to_string(),
    );
    let theme = VsCodeTheme {
        name: Some("One Dark Pro".into()),
        kind: Some("dark".into()),
        include_path: None,
        colors,
    };
    let mapped = vscode_to_theme_colors(&theme, &dark_theme());
    assert_eq!(mapped.bg_primary, 0x282c34);
    assert_eq!(mapped.bg_secondary, 0x21252b);
}

#[test]
fn falls_back_through_key_chain() {
    // bg_primary chain: editor.background, sideBar.background, panel.background
    let mut colors = ColorMap::new();
    colors.insert("sideBar.background".to_string(), "#222222".to_string());
    let theme = VsCodeTheme {
        name: None,
        kind: None,
        include_path: None,
        colors,
    };
    let mapped = vscode_to_theme_colors(&theme, &dark_theme());
    assert_eq!(mapped.bg_primary, 0x222222);
}

#[test]
fn uses_fallback_for_missing_keys() {
    let theme = VsCodeTheme {
        name: None,
        kind: None,
        include_path: None,
        colors: ColorMap::new(),
    };
    let mapped = vscode_to_theme_colors(&theme, &dark_theme());
    assert_eq!(mapped.bg_primary, dark_theme().bg_primary);
    assert_eq!(mapped.term_red, dark_theme().term_red);
}

#[test]
fn is_dark_from_type_field() {
    let dark = VsCodeTheme {
        name: None,
        kind: Some("dark".into()),
        include_path: None,
        colors: ColorMap::new(),
    };
    assert!(dark.is_dark());
    let light = VsCodeTheme {
        name: None,
        kind: Some("light".into()),
        include_path: None,
        colors: ColorMap::new(),
    };
    assert!(!light.is_dark());
}

#[test]
fn is_dark_infers_from_background_when_type_missing() {
    let mut light_colors = ColorMap::new();
    light_colors.insert("editor.background".into(), "#fdf6e3".into());
    let light = VsCodeTheme {
        name: None,
        kind: None,
        include_path: None,
        colors: light_colors,
    };
    assert!(!light.is_dark());

    let mut dark_colors = ColorMap::new();
    dark_colors.insert("editor.background".into(), "#1e1e1e".into());
    let dark = VsCodeTheme {
        name: None,
        kind: None,
        include_path: None,
        colors: dark_colors,
    };
    assert!(dark.is_dark());
}

#[test]
fn strips_line_comments() {
    let input = "{\n  // trailing comment\n  \"a\": 1\n}";
    let out = strip_jsonc(input);
    assert!(!out.contains("trailing comment"));
    let v: serde_json::Value = serde_json::from_str(&out).unwrap();
    assert_eq!(v["a"], 1);
}

#[test]
fn strips_block_comments() {
    let input = "{ /* block\n comment */ \"a\": 1 }";
    let out = strip_jsonc(input);
    let v: serde_json::Value = serde_json::from_str(&out).unwrap();
    assert_eq!(v["a"], 1);
}

#[test]
fn strips_trailing_commas_in_objects_and_arrays() {
    let input = r#"{ "a": 1, "b": [1, 2, 3,], }"#;
    let out = strip_jsonc(input);
    let v: serde_json::Value = serde_json::from_str(&out).unwrap();
    assert_eq!(v["a"], 1);
    assert_eq!(v["b"][2], 3);
}

#[test]
fn preserves_commas_inside_strings() {
    let input = r#"{ "msg": "one, two," }"#;
    let out = strip_jsonc(input);
    let v: serde_json::Value = serde_json::from_str(&out).unwrap();
    assert_eq!(v["msg"], "one, two,");
}

#[test]
fn include_chain_merges_with_child_precedence() {
    let mut parent_colors = ColorMap::new();
    parent_colors.insert("editor.background".to_string(), "#111111".to_string());
    parent_colors.insert("foreground".to_string(), "#cccccc".to_string());
    let parent = VsCodeTheme {
        name: Some("Parent".to_string()),
        kind: Some("dark".to_string()),
        include_path: None,
        colors: parent_colors,
    };
    let mut child_colors = ColorMap::new();
    child_colors.insert("editor.background".to_string(), "#222222".to_string());
    let child = VsCodeTheme {
        name: None,
        kind: None,
        include_path: Some("./parent.json".to_string()),
        colors: child_colors,
    };
    let merged = merge_included(child, parent);
    assert_eq!(merged.colors.get("editor.background").map(String::as_str), Some("#222222"));
    assert_eq!(merged.colors.get("foreground").map(String::as_str), Some("#cccccc"));
    assert_eq!(merged.name.as_deref(), Some("Parent"));
    assert_eq!(merged.kind.as_deref(), Some("dark"));
}

#[test]
fn include_chain_stops_past_max_depth() {
    let link = |rel: Option<&str>| VsCodeTheme {
        name: None,
        kind: None,
        include_path: rel.map(|r| r.to_string()),
        colors: ColorMap::new(),
    };
    let mut chain = vec![link(Some("a.json"))];
    match include_step(&chain) {
        IncludeStep::Follow(rel) => assert_eq!(rel, "a.json"),
        other => panic!("expected Follow, got {other:?}"),
    }
    while chain.len() < 6 {
        chain.push(link(Some("loop.json")));
    }
    match include_step(&chain) {
        IncludeStep::TooDeep(rel) => assert_eq!(rel, "loop.json"),
        other => panic!("expected TooDeep, got {other:?}"),
    }
    chain.truncate(5);
    assert!(matches!(include_step(&chain), IncludeStep::Follow(_)));
    chain.push(link(None));
    assert!(matches!(include_step(&chain), IncludeStep::Done));
}

#[test]
fn three_file_chain_nearest_file_wins() {
    let mut root_colors = ColorMap::new();
    root_colors.insert("editor.background".to_string(), "#000000".to_string());
    root_colors.insert("foreground".to_string(), "#aaaaaa".to_string());
    root_colors.insert("panel.border".to_string(), "#333333".to_string());
    let root = VsCodeTheme {
        name: Some("Root".to_string()),
        kind: Some("light".to_string()),
        include_path: None,
        colors: root_colors,
    };
    let mut mid_colors = ColorMap::new();
    mid_colors.insert("foreground".to_string(), "#bbbbbb".to_string());
    let mid = VsCodeTheme {
        name: Some("Mid".to_string()),
        kind: None,
        include_path: Some("root.json".to_string()),
        colors: mid_colors,
    };
    let mut top_colors = ColorMap::new();
    top_colors.insert("editor.background".to_string(), "#ffffff".to_string());
    let top = VsCodeTheme {
        name: None,
        kind: None,
        include_path: Some("mid.json".to_string()),
        colors: top_colors,
    };
    let merged = merge_chain(vec![top, mid, root]);
    assert_eq!(merged.colors.get("editor.background").map(String::as_str), Some("#ffffff"));
    assert_eq!(merged.colors.get("foreground").map(String::as_str), Some("#bbbbbb"));
    assert_eq!(merged.colors.get("panel.border").map(String::as_str), Some("#333333"));
    assert_eq!(merged.name.as_deref(), Some("Mid"));
    assert_eq!(merged.kind.as_deref(), Some("light"));
    assert_eq!(merged.include_path.as_deref(), Some("mid.json"));
}


#[test]
fn four_digit_shorthand_carries_alpha() {
    assert_eq!(parse_vscode_color_rgba("#f0a8"), Some((0xff00aa, 0x88)));
    assert_eq!(parse_vscode_color_rgba("  ##abcdef  "), Some((0xabcdef, 0xff)));
    assert_eq!(parse_vscode_color("#12345"), None);
    assert_eq!(parse_vscode_color("#+12345"), Some(0x12345));
}

#[test]
fn non_ascii_colors_are_rejected() {
    assert_eq!(parse_vscode_color("#ééé"), None);
    assert_eq!(parse_vscode_color("zé"), None);
}

#[test]
fn blend_half_alpha_exact() {
    assert_eq!(blend_over(0xffffff, 0x80, 0x000000), 0x808080);
    assert_eq!(blend_over(0x000000, 0x80, 0xffffff), 0x7f7f7f);
    assert_eq!(luma(0xffffff), 255);
    assert_eq!(luma(0x000000), 0);
}

#[test]
fn diff_backgrounds_keep_raw_rgb() {
    let mut colors = ColorMap::new();
    colors.insert("editor.background".to_string(), "#000000".to_string());
    colors.insert("diffEditor.insertedTextBackground".to_string(), "#9bb95533".to_string());
    let theme = VsCodeTheme { name: None, kind: None, include_path: None, colors };
    let mapped = vscode_to_theme_colors(&theme, &dark_theme());
    assert_eq!(mapped.diff_added_bg, 0x9bb955);
    assert_eq!(mapped.metric_normal, mapped.success);
    assert_eq!(mapped.folder_default, mapped.text_primary);
    assert_eq!(mapped.term_dim_red, dark_theme().term_dim_red);
}

#[test]
fn subtle_border_replaces_loud_accent() {
    let mut colors = ColorMap::new();
    colors.insert("editor.background".to_string(), "#282a36".to_string());
    colors.insert("foreground".to_string(), "#f8f8f2".to_string());
    colors.insert("panel.border".to_string(), "#bd93f9".to_string());
    let theme = VsCodeTheme { name: None, kind: Some("dark".to_string()), include_path: None, colors };
    let mapped = vscode_to_theme_colors(&theme, &dark_theme());
    assert_ne!(mapped.border, 0xbd93f9);
    assert_eq!(mapped.border, blend_over(0xf8f8f2, 0x26, 0x282a36));
}

#[test]
fn builtin_entry_and_lookup() {
    let mut colors = ColorMap::new();
    colors.insert("editor.background".to_string(), "#fdf6e3".to_string());
    let theme = VsCodeTheme { name: None, kind: None, include_path: None, colors };
    let mut light = dark_theme();
    light.term_red = 0x123456;
    let (info, mapped) = builtin_theme_entry("builtin-x", "X", "Example", &theme, &dark_theme(), &light);
    assert_eq!(info.id, "custom:builtin-x");
    assert_eq!(info.name, "X");
    assert!(!info.is_dark);
    assert_eq!(mapped.term_red, 0x123456);
    assert_eq!(mapped.bg_primary, 0xfdf6e3);
    let themes = vec![(info, mapped)];
    assert_eq!(builtin_colors_by_id(&themes, "builtin-x").map(|c| c.bg_primary), Some(0xfdf6e3));
    assert!(builtin_colors_by_id(&themes, "custom:builtin-x").is_none());
}

#[test]
fn jsonc_respects_escaped_quotes_and_unterminated_comments() {
    assert_eq!(strip_jsonc(r#"{"a":"x\"//y"}"#), r#"{"a":"x\"//y"}"#);
    assert_eq!(strip_jsonc("{\"a\":1}// tail"), "{\"a\":1}");
    assert_eq!(strip_jsonc("[1,/* open"), "[1,");
    assert_eq!(strip_jsonc("[1, ]"), "[1 ]");
}

/// `is_vscode_schema` on a parsed JSON value: the keys of `colors` when it
/// is an object, and which of the other telling keys are present.
fn schema_of(json: &str) -> bool {
    let v: serde_json::Value = serde_json::from_str(json).unwrap();
    let keys: Option<Vec<String>> = v
        .get("colors")
        .and_then(|c| c.as_object())
        .map(|o| o.keys().cloned().collect());
    is_vscode_schema(
        keys.as_ref(),
        v.get("tokenColors").is_some(),
        v.get("semanticTokenColors").is_some(),
        v.get("include").is_some(),
    )
}

#[test]
fn detects_vscode_schema_by_dot_keys() {
    assert!(schema_of(r##"{ "colors": { "editor.background": "#000" } }"##));
}

#[test]
fn rejects_vryn_native_schema() {
    assert!(!schema_of(r##"{ "colors": { "bg_primary": "#000" } }"##));
}

#[test]
fn detects_vscode_via_include() {
    assert!(schema_of(r##"{ "include": "./other.json" }"##));
}

#[test]
fn token_colors_alone_mark_a_vscode_theme() {
    assert!(schema_of(r##"{ "tokenColors": [] }"##));
    assert!(schema_of(r##"{ "semanticTokenColors": {} }"##));
    assert!(!schema_of(r##"{ "colors": [] }"##));
}

#[test]
fn default_background_detection() {
    let t = dark_theme();
    assert!(is_default_bg(&CellColor::NamedBackground, &t));
    assert!(!is_default_bg(&CellColor::NamedOther, &t));
    assert!(!is_default_bg(&CellColor::Indexed(0), &t));
    assert!(!is_default_bg(&CellColor::Indexed(7), &t));
    assert!(is_default_bg(&CellColor::Spec(0xca, 0x06, 0x40), &t));
    assert!(!is_default_bg(&CellColor::Spec(0xca, 0x06, 0x41), &t));
}

#[test]
fn default_theme_is_poimandres_dark() {
    let default_id = DEFAULT_THEME_ID;
    assert_eq!(default_id, "builtin-poimandres-dark");
    let mut colors = ColorMap::new();
    colors.insert("editor.background".to_string(), "#1b1e28".to_string());
    let theme = VsCodeTheme { name: Some("Poimandres".to_string()), kind: Some("dark".to_string()), include_path: None, colors };
    let entry = builtin_theme_entry(default_id, "Poimandres Dark", "Deep-space dark theme", &theme, &dark_theme(), &dark_theme());
    let themes = vec![entry];
    let colors = builtin_colors_by_id(&themes, default_id);
    assert!(colors.is_some(), "default theme must resolve");
}
