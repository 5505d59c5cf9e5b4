use delve::config::RttBarConfig;
use delve::explore::compare_screen::{scroll_for_row, CompareViewport};
use delve::explore::detail::{format_query_response_time_line, format_server_line};
use delve::explore::flags::{flag_order, flag_states, format_flags_plain, MessageFlags};
use delve::explore::help::{help_lines, HelpLine};
use delve::explore::options::{
    apply_explore_query_overrides, parse_explore_args, ExploreParseError, ExploreQueryOverrides,
    TraceSettings, Transport,
};
use delve::explore::pane_split::{AxisScrollHints, VerticalPaneSplit};
use delve::explore::path_timing::format_path_chain;
use delve::explore::rtt_bar::format_rtt_plain_line;
use delve::explore::rtt_color::rtt_gradient_rgb;
use delve::explore::terminal::{
    ascii_symbols, cache_source_symbol, detect_color_capability_uncached,
    detect_text_capability_uncached, emoji_symbols, rgb_to_ansi256, unicode_symbols,
    ColorCapability, TerminalEnv, TextCapability,
};
use delve::explore::tui_state::{
    browse_key, compare_key, max_horizontal_scroll, max_vertical_scroll, request_quit,
    screen_notice_message, set_screen_notice, sync_compare_row_scroll, wrapped_line_count,
    BrowseScrollLimits, CompareKeyEffect, CompareScrollLimits, Key, RefreshOverlay,
};
use delve::explore::view_state::{ActiveScreen, BrowsePane};
use delve::explore::{primary_tree_index, ExploreError};
use delve::export::card::path_attribute;
use delve::node_path::NodePath;

const GREEN: (u8, u8, u8) = (72, 198, 108);
const YELLOW: (u8, u8, u8) = (255, 214, 48);
const ORANGE: (u8, u8, u8) = (255, 132, 32);
const RED: (u8, u8, u8) = (214, 48, 48);

fn args(values: &[&str]) -> Vec<String> {
    values.iter().map(|value| (*value).to_string()).collect()
}

fn bar_config() -> RttBarConfig {
    RttBarConfig { green_ms: 50, yellow_ms: 100, orange_ms: 200, insane_ms: 500, max_width: 20 }
}

#[test]
fn scrolling_keeps_header_and_selected_row_visible() {
    let viewport = CompareViewport { header_lines: 3, inner_height: 8 };
    assert_eq!(scroll_for_row(0, viewport, 0), 0);
    assert_eq!(scroll_for_row(4, viewport, 0), 0);
    assert_eq!(scroll_for_row(5, viewport, 0), 1);
    assert_eq!(scroll_for_row(12, viewport, 0), 8);
    assert_eq!(scroll_for_row(2, viewport, 4), 2);
}

#[test]
fn server_line_includes_fqdn_when_known() {
    let line = format_server_line("198.41.0.4", Some("a.root-servers.net."), None, "udp");
    assert!(line.contains("a.root-servers.net. (198.41.0.4)"));
}

#[test]
fn query_response_time_line_uses_expected_label() {
    assert_eq!(format_query_response_time_line(11), "query response time: 11ms");
}

#[test]
fn flag_order_is_stable() {
    assert_eq!(flag_order(), vec!["qr", "rd", "ra", "aa", "tc", "ad", "cd"]);
}

#[test]
fn plain_flags_list_all_in_order_with_inactive_markers() {
    let flags = MessageFlags {
        authoritative: false,
        truncated: false,
        recursion_desired: true,
        recursion_available: true,
        authentic_data: false,
        checking_disabled: false,
    };
    assert_eq!(format_flags_plain(&flags), "QR RD RA (aa) (tc) (ad) (cd)");
    assert_eq!(flag_states(&flags)[3], ("aa", false));
}

#[test]
fn explore_tree_for_document_errors_without_tree() {
    assert!(matches!(primary_tree_index(0), Err(ExploreError::NoTraceTree)));
    assert_eq!(primary_tree_index(2).expect("tree"), 0);
}

#[test]
fn parse_plus_icmp_flag() {
    let options = parse_explore_args(&args(&["+icmp"])).expect("parse");
    assert!(options.plus_icmp);
}

#[test]
fn parse_empty_args() {
    let options = parse_explore_args(&Vec::new()).expect("parse");
    assert!(!options.plus_icmp);
    assert!(options.query_overrides.is_empty());
}

#[test]
fn parse_timeout_and_tries_overrides() {
    let options = parse_explore_args(&args(&["+timeout=2", "+tries=1"])).expect("parse");
    assert_eq!(options.query_overrides.timeout_secs, Some(2));
    assert_eq!(options.query_overrides.retries, Some(1));
}

#[test]
fn parse_time_alias_for_timeout() {
    let options = parse_explore_args(&args(&["+time=3"])).expect("parse");
    assert_eq!(options.query_overrides.timeout_secs, Some(3));
}

#[test]
fn apply_overrides_updates_trace_config() {
    let mut config = TraceSettings { timeout_secs: 5, retries: 2, transport: Transport::Udp };
    apply_explore_query_overrides(
        &mut config,
        &ExploreQueryOverrides { timeout_secs: Some(2), retries: Some(1), use_tcp: Some(true) },
    );
    assert_eq!(config.timeout_secs, 2);
    assert_eq!(config.retries, 1);
    assert_eq!(config.transport, Transport::Tcp);
    apply_explore_query_overrides(
        &mut config,
        &ExploreQueryOverrides { timeout_secs: Some(0), retries: None, use_tcp: None },
    );
    assert_eq!(config.timeout_secs, 1);
    assert_eq!(config.retries, 1);
    assert_eq!(config.transport, Transport::Tcp);
}

#[test]
fn rejects_unknown_plus_option() {
    let error = parse_explore_args(&args(&["+fresh"])).expect_err("reject");
    assert!(matches!(error, ExploreParseError::UnknownOption(_)));
}

#[test]
fn rejects_positional_after_id() {
    let error = parse_explore_args(&args(&["01SESSION"])).expect_err("reject");
    assert!(matches!(error, ExploreParseError::Unexpected(_)));
}

#[test]
fn explore_args_errors_and_tcp() {
    let options = parse_explore_args(&args(&["+notcp", "+icmp"])).expect("parse");
    assert_eq!(options.query_overrides.use_tcp, Some(false));
    assert!(options.plus_icmp);
    let error = parse_explore_args(&args(&["+tries"])).expect_err("missing");
    assert!(matches!(error, ExploreParseError::MissingValue(ref o) if o == "+tries"));
    assert_eq!(error.message(), "missing value for +tries");
    let error = parse_explore_args(&args(&["+timeout=soon"])).expect_err("invalid");
    assert!(matches!(
        error,
        ExploreParseError::InvalidValue { ref option, ref value } if option == "+timeout" && value == "soon"
    ));
    let error = parse_explore_args(&args(&["+bogus", "stray"])).expect_err("first error wins");
    assert!(matches!(error, ExploreParseError::UnknownOption(ref o) if o == "+bogus"));
}

#[test]
fn split_percent_clamps_on_construct() {
    assert_eq!(VerticalPaneSplit::new(10).first_percent, VerticalPaneSplit::MIN_PERCENT);
    assert_eq!(VerticalPaneSplit::new(90).first_percent, VerticalPaneSplit::MAX_PERCENT);
}

#[test]
fn grow_and_shrink_first_respect_bounds() {
    let mut split = VerticalPaneSplit::new(VerticalPaneSplit::MAX_PERCENT);
    split.grow_first();
    assert_eq!(split.first_percent, VerticalPaneSplit::MAX_PERCENT);
    split = VerticalPaneSplit::new(VerticalPaneSplit::MIN_PERCENT);
    split.shrink_first();
    assert_eq!(split.first_percent, VerticalPaneSplit::MIN_PERCENT);
}

#[test]
fn grow_then_shrink_returns_to_start() {
    let mut split = VerticalPaneSplit::new(50);
    split.grow_first();
    assert_eq!(split.first_percent, 55);
    split.shrink_first();
    assert_eq!(split.first_percent, 50);
}

#[test]
fn vertical_scroll_hints_only_show_available_directions() {
    assert_eq!(AxisScrollHints::vertical(0, 0).format_vertical(), "");
    assert_eq!(AxisScrollHints::vertical(0, 5).format_vertical(), "  ▼");
    assert_eq!(AxisScrollHints::vertical(3, 5).format_vertical(), "  ▲ ▼");
    assert_eq!(AxisScrollHints::vertical(5, 5).format_vertical(), "  ▲");
}

#[test]
fn horizontal_scroll_hints_only_show_available_directions() {
    assert_eq!(AxisScrollHints::horizontal(2, 4).format_horizontal(), "  ◀ ▶");
    assert_eq!(AxisScrollHints::horizontal(0, 2).format_horizontal(), "  ▶");
}

#[test]
fn format_path_chain_uses_display_indices() {
    assert_eq!(format_path_chain(&Vec::new()), "[0]");
    assert_eq!(format_path_chain(&vec![1, 2]), "[0→1→2]");
}

#[test]
fn format_rtt_plain_line_matches_export_style_label() {
    assert_eq!(format_rtt_plain_line(11), "rtt: 11 ms");
}

#[test]
fn gradient_reaches_yellow_at_green_ms() {
    let cfg = bar_config();
    assert_eq!(rtt_gradient_rgb(0, cfg), (72, 198, 108));
    assert_eq!(rtt_gradient_rgb(cfg.green_ms, cfg), (72, 198, 108));
}

#[test]
fn gradient_reaches_yellow_at_yellow_ms() {
    let cfg = bar_config();
    let mid = rtt_gradient_rgb(75, cfg);
    assert!(mid.0 > 72);
    assert!(mid.1 < 214);
    assert_eq!(rtt_gradient_rgb(cfg.yellow_ms, cfg), (255, 214, 48));
}

#[test]
fn gradient_reaches_orange_at_orange_ms() {
    let cfg = bar_config();
    let mid = rtt_gradient_rgb(150, cfg);
    assert_eq!(mid.0, 255);
    assert!(mid.1 < 214);
    assert!(mid.1 > 48);
    assert_eq!(rtt_gradient_rgb(cfg.orange_ms, cfg), (255, 132, 32));
}

#[test]
fn gradient_reaches_red_at_insane_ms() {
    let cfg = bar_config();
    assert_eq!(rtt_gradient_rgb(cfg.insane_ms, cfg), (214, 48, 48));
}

#[test]
fn gradient_interpolates_toward_next_step_before_milestone() {
    let cfg = bar_config();
    let early = rtt_gradient_rgb(25, cfg);
    assert_eq!(early, (72, 198, 108));
    let late = rtt_gradient_rgb(75, cfg);
    assert!(late.1 > 198);
    assert!(late.0 > 72);
}

#[test]
fn gradient_matches_explore_thresholds() {
    let cfg = RttBarConfig::default();
    assert_eq!(rtt_gradient_rgb(0, cfg), GREEN);
    assert_eq!(rtt_gradient_rgb(23, cfg), GREEN);
    assert_eq!(rtt_gradient_rgb(cfg.green_ms, cfg), GREEN);
    assert_eq!(rtt_gradient_rgb(cfg.yellow_ms, cfg), YELLOW);
    assert_eq!(rtt_gradient_rgb(cfg.orange_ms, cfg), ORANGE);
    assert_eq!(rtt_gradient_rgb(cfg.insane_ms, cfg), RED);
}

#[test]
fn gradient_transitions_between_milestones() {
    let cfg = RttBarConfig::default();
    let mid_yellow = rtt_gradient_rgb(87, cfg);
    assert!(mid_yellow.0 > GREEN.0);
    assert!(mid_yellow.1 < YELLOW.1);
}

/// The interpolation that the colour ramp computes, in floating point.
fn float_lerp(a: u8, b: u8, num: u32, den: u32) -> u8 {
    let t = num as f32 / den as f32;
    (a as f32 + (b as f32 - a as f32) * t).round() as u8
}

#[test]
fn gradient_matches_float_interpolation_exactly() {
    for cfg in [RttBarConfig::default(), bar_config()] {
    for rtt in 0..=1200u32 {
        let got = rtt_gradient_rgb(rtt, cfg);
        let want = if rtt <= cfg.green_ms {
            GREEN
        } else if rtt <= cfg.yellow_ms {
            let (n, d) = (rtt - cfg.green_ms, cfg.yellow_ms - cfg.green_ms);
            (float_lerp(GREEN.0, YELLOW.0, n, d), float_lerp(GREEN.1, YELLOW.1, n, d), float_lerp(GREEN.2, YELLOW.2, n, d))
        } else if rtt <= cfg.orange_ms {
            let (n, d) = (rtt - cfg.yellow_ms, cfg.orange_ms - cfg.yellow_ms);
            (float_lerp(YELLOW.0, ORANGE.0, n, d), float_lerp(YELLOW.1, ORANGE.1, n, d), float_lerp(YELLOW.2, ORANGE.2, n, d))
        } else if rtt <= cfg.insane_ms {
            let (n, d) = (rtt - cfg.orange_ms, cfg.insane_ms - cfg.orange_ms);
            (float_lerp(ORANGE.0, RED.0, n, d), float_lerp(ORANGE.1, RED.1, n, d), float_lerp(ORANGE.2, RED.2, n, d))
        } else {
            RED
        };
        assert_eq!(got, want, "rtt {rtt}");
    }
    }
}

#[test]
fn ascii_symbols_are_single_column_safe() {
    let ascii = ascii_symbols();
    for ch in [ascii.cache, ascii.live] {
        assert!(ch.is_ascii());
        assert_eq!(ch.chars().count(), 1);
    }
}

#[test]
fn unicode_symbols_use_geometric_and_box_drawing() {
    let unicode = unicode_symbols();
    assert_eq!(unicode.cache, "◆");
    assert_eq!(unicode.branch_tee, "├─ ");
}

#[test]
fn emoji_tier_keeps_tree_symbols_unicode() {
    let emoji = emoji_symbols();
    let unicode = unicode_symbols();
    assert_eq!(emoji.tree_expand, unicode.tree_expand);
    assert_eq!(emoji.cache, unicode.cache);
    assert!(emoji.cache_legend.is_some());
}

#[test]
fn cache_source_symbol_selects_glyph() {
    let symbols = unicode_symbols();
    assert_eq!(cache_source_symbol(true, symbols), "◆");
    assert_eq!(cache_source_symbol(false, symbols), "◇");
}

#[test]
fn rgb_to_ansi256_maps_grayscale_and_cube() {
    assert_eq!(rgb_to_ansi256(0, 0, 0), 16);
    assert_eq!(rgb_to_ansi256(255, 255, 255), 231);
    assert_eq!(rgb_to_ansi256(255, 0, 0), 196);
}

/// The 256-colour mapping as floating-point arithmetic: grey ramp for
/// near-grey colours, else the 6x6x6 cube.
fn float_ansi256(r: u8, g: u8, b: u8) -> u8 {
    if r == g && g == b {
        if r < 8 {
            return 16;
        }
        if r > 248 {
            return 231;
        }
        return (((r as f32 - 8.0) / 247.0) * 24.0).round() as u8 + 232;
    }
    let to6 = |c: u8| ((c as f32 / 255.0) * 5.0).round() as u8;
    16 + 36 * to6(r) + 6 * to6(g) + to6(b)
}

#[test]
fn rgb_to_ansi256_matches_float_formula() {
    for r in (0..=255u16).step_by(5) {
        for g in (0..=255u16).step_by(15) {
            for b in (0..=255u16).step_by(17) {
                let (r, g, b) = (r as u8, g as u8, b as u8);
                assert_eq!(rgb_to_ansi256(r, g, b), float_ansi256(r, g, b), "{r},{g},{b}");
            }
        }
    }
    for v in 0..=255u16 {
        let v = v as u8;
        assert_eq!(rgb_to_ansi256(v, v, v), float_ansi256(v, v, v), "grey {v}");
    }
}

fn env() -> TerminalEnv {
    TerminalEnv {
        delve_basic_colors: None,
        delve_no_truecolor: None,
        delve_truecolor: None,
        colorterm: None,
        term: None,
        delve_ascii: None,
        delve_no_unicode: None,
        delve_unicode: None,
        delve_no_emoji: None,
        lc_all: None,
        lc_ctype: None,
        lang: None,
        wt_session: None,
        kitty_window_id: None,
        alacritty_window_id: None,
        konsole_version: None,
        term_program: None,
    }
}

#[test]
fn terminal_detection_from_environment() {
    assert_eq!(detect_color_capability_uncached(&env()), ColorCapability::Basic);
    let truecolor = TerminalEnv { colorterm: Some("truecolor".into()), ..env() };
    assert_eq!(detect_color_capability_uncached(&truecolor), ColorCapability::Truecolor);
    let forced = TerminalEnv { delve_basic_colors: Some("1".into()), ..truecolor };
    assert_eq!(detect_color_capability_uncached(&forced), ColorCapability::Basic);
    let ascii = TerminalEnv { delve_ascii: Some("yes".into()), lang: Some("en_US.UTF-8".into()), ..env() };
    assert_eq!(detect_text_capability_uncached(&ascii), TextCapability::Ascii);
}

#[test]
fn browse_pane_cycles_with_w() {
    let pane = BrowsePane::Tree;
    assert_eq!(pane.cycle_forward(), BrowsePane::Detail);
    assert_eq!(BrowsePane::Detail.cycle_forward(), BrowsePane::Tree);
}

#[test]
fn screen_notice_only_matches_own_screen() {
    let mut notice = None;
    set_screen_notice(&mut notice, ActiveScreen::Compare, "refreshed 3 hops".to_string());
    assert_eq!(screen_notice_message(&notice, ActiveScreen::Compare), Some("refreshed 3 hops"));
    assert_eq!(screen_notice_message(&notice, ActiveScreen::Browse), None);
    let mut browse_notice = None;
    set_screen_notice(
        &mut browse_notice,
        ActiveScreen::Browse,
        "no sibling paths at this node; select hop 1 (at-path 0.0) to compare".to_string(),
    );
    assert_eq!(screen_notice_message(&browse_notice, ActiveScreen::Compare), None);
}

#[test]
fn browse_w_toggles_focus_from_detail_pane() {
    let limits = BrowseScrollLimits { detail_max_scroll: 3, tree_max_scroll_x: 2 };
    let outcome = browse_key(Key::Char('w'), BrowsePane::Detail, 4, 0, true, 2, 0, limits);
    assert_eq!(outcome.pane, BrowsePane::Tree);
    assert!(outcome.dirty);
    assert_eq!(outcome.detail_scroll, 2);
}

#[test]
fn detail_scroll_stops_at_bottom_when_pressing_down() {
    let limits = BrowseScrollLimits { detail_max_scroll: 3, tree_max_scroll_x: 0 };
    let mut scroll = 0;
    for _ in 0..10 {
        scroll = browse_key(Key::Down, BrowsePane::Detail, 4, 0, false, scroll, 0, limits).detail_scroll;
    }
    assert_eq!(scroll, 3);
    scroll = browse_key(Key::PageUp, BrowsePane::Detail, 4, 0, false, scroll, 0, limits).detail_scroll;
    assert_eq!(scroll, 0);
    assert_eq!(browse_key(Key::Char(' '), BrowsePane::Detail, 4, 0, false, 0, 0, limits).detail_scroll, 3);
}

#[test]
fn detail_scroll_max_is_zero_when_content_fits() {
    assert_eq!(max_vertical_scroll(5, 10), 0);
    assert_eq!(max_vertical_scroll(15, 10), 5);
    assert_eq!(max_horizontal_scroll(100_000, 10), u16::MAX);
    assert_eq!(wrapped_line_count(&vec![0, 10, 11, 25], 10), 1 + 1 + 2 + 3);
    assert_eq!(wrapped_line_count(&vec![5, 5], 0), 2);
}

#[test]
fn tree_keys_move_selection_and_toggle() {
    let limits = BrowseScrollLimits { detail_max_scroll: 9, tree_max_scroll_x: 1 };
    let down = browse_key(Key::Char('j'), BrowsePane::Tree, 3, 1, false, 5, 0, limits);
    assert_eq!(down.select, Some(2));
    assert_eq!(down.detail_scroll, 0);
    let stuck = browse_key(Key::Down, BrowsePane::Tree, 3, 2, false, 5, 0, limits);
    assert_eq!(stuck.select, None);
    assert_eq!(stuck.detail_scroll, 5);
    let up = browse_key(Key::Up, BrowsePane::Tree, 3, 0, false, 5, 0, limits);
    assert_eq!(up.select, Some(0));
    let right = browse_key(Key::Right, BrowsePane::Tree, 3, 0, false, 0, 1, limits);
    assert_eq!(right.tree_scroll_x, 1);
    assert!(browse_key(Key::Enter, BrowsePane::Tree, 3, 0, true, 0, 0, limits).toggle_selected);
    assert!(!browse_key(Key::Enter, BrowsePane::Tree, 3, 0, false, 0, 0, limits).toggle_selected);
}

#[test]
fn compare_keys_decide_effects() {
    let fastest = Some(NodePath { tree: 0, path: vec![1] });
    let slowest = Some(NodePath { tree: 0, path: vec![0] });
    assert_eq!(compare_key(Key::Esc, None, 0, &None, &None, &None), CompareKeyEffect::LeaveToBrowse);
    assert_eq!(compare_key(Key::Down, None, 0, &None, &None, &None), CompareKeyEffect::Nothing);
    assert_eq!(compare_key(Key::Down, Some(3), 7, &None, &fastest, &slowest), CompareKeyEffect::SelectRow(2));
    assert_eq!(compare_key(Key::Char('k'), Some(3), 0, &None, &fastest, &slowest), CompareKeyEffect::SelectRow(0));
    assert_eq!(compare_key(Key::Enter, Some(3), 1, &None, &fastest, &slowest), CompareKeyEffect::RevealAndBrowse(1));
    assert_eq!(compare_key(Key::Char('f'), Some(3), 1, &None, &fastest, &slowest), CompareKeyEffect::HighlightFastest);
    assert_eq!(compare_key(Key::Char('f'), Some(3), 1, &fastest, &fastest, &slowest), CompareKeyEffect::ClearHighlight);
    assert_eq!(compare_key(Key::Char('s'), Some(3), 1, &fastest, &fastest, &slowest), CompareKeyEffect::HighlightSlowest);
    assert_eq!(compare_key(Key::Char('s'), Some(3), 1, &None, &None, &None), CompareKeyEffect::Nothing);
}

#[test]
fn quitting_asks_when_refresh_is_unsaved() {
    let mut overlay = RefreshOverlay::Hidden;
    assert!(request_quit(false, &mut overlay));
    assert_eq!(overlay, RefreshOverlay::Hidden);
    assert!(!request_quit(true, &mut overlay));
    assert_eq!(overlay, RefreshOverlay::ConfirmExitSave);
}

#[test]
fn compare_scroll_follows_row_within_limit() {
    let limits = CompareScrollLimits { max_scroll: 4, inner_height: 8, first_row_line: 3, total_lines: 20 };
    let mut scroll = 0;
    sync_compare_row_scroll(&mut scroll, 12, limits);
    assert_eq!(scroll, 4);
    sync_compare_row_scroll(&mut scroll, 1, limits);
    assert_eq!(scroll, 1);
}

#[test]
fn help_lists_screen_bindings() {
    let browse = help_lines(ActiveScreen::Browse, ColorCapability::Basic, unicode_symbols());
    assert!(browse.iter().any(|line| matches!(line, HelpLine::Binding { description, .. } if *description == "Branch from selected node")));
    assert!(browse.iter().any(|line| matches!(line, HelpLine::Legend { symbol, from_cache: true, .. } if *symbol == "◆")));
    let compare = help_lines(ActiveScreen::Compare, ColorCapability::Truecolor, unicode_symbols());
    assert!(compare.iter().any(|line| matches!(line, HelpLine::Binding { keys, .. } if *keys == "f / s")));
    assert!(compare.iter().any(|line| matches!(line, HelpLine::Binding { description, .. } if description.starts_with("Gradient"))));
    let basic = help_lines(ActiveScreen::Compare, ColorCapability::Basic, unicode_symbols());
    assert!(basic.iter().any(|line| matches!(line, HelpLine::Binding { description, .. } if description.starts_with("Stepped"))));
}

#[test]
fn path_attribute_formats_nested_paths() {
    assert_eq!(path_attribute(0, &Vec::new()), "0");
    assert_eq!(path_attribute(0, &vec![1, 2]), "0.1.2");
}
