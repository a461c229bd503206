use lazybar::actions::Actions;
use lazybar::bar::{
    apply_dependence, bar_click, route_error_text, route_message, Cursor, MouseEvent, Dependence, EventResponse, MouseButton, PanelLayout,
    PanelStatus, Route, RouteError,
};
use lazybar::cli::{
    client_log_level, config_path, exit_code, find_path, ipc_name, ipc_path, log_level, Delivery,
    LogLevel,
};
use lazybar::config::{
    parse_dependence, parse_height, parse_panel_kind, parse_position, replace_consts, PanelKind,
};
use lazybar::text::{
    chars_of, decimal_string, empty_string, first_line_of, is_white_space_char, owned,
    parse_u64, replace_all, same_text, trim,
};
use lazybar::settings::{
    bar_settings, BarEntry, BarLookup, PanelEntry, PanelList, SettingsError,
};
use lazybar::types;
use lazybar::{Alignment, Position};

fn layout(width: i32, dependence: Dependence) -> Option<PanelLayout> {
    Some(PanelLayout { width, dependence })
}

#[test]
fn cursor_prefers_scroll_over_click() {
    let mut a = Actions::default();
    assert_eq!(a.get_cursor(), Cursor::Default);
    a.left = Some("cycle".to_string());
    assert_eq!(a.get_cursor(), Cursor::Click);
    a.down = Some("prev".to_string());
    assert_eq!(a.get_cursor(), Cursor::Scroll);
}

#[test]
fn action_for_each_button() {
    let a = Actions {
        left: Some("l".to_string()),
        right: None,
        middle: Some("m".to_string()),
        up: Some("u".to_string()),
        down: None,
    };
    assert_eq!(a.action_for(MouseButton::Left), Some("l".to_string()));
    assert_eq!(a.action_for(MouseButton::Right), None);
    assert_eq!(a.action_for(MouseButton::Middle), Some("m".to_string()));
    assert_eq!(a.action_for(MouseButton::ScrollUp), Some("u".to_string()));
    assert_eq!(a.action_for(MouseButton::ScrollDown), None);
}

#[test]
fn dependence_resolves_against_neighbors() {
    let panels = vec![
        layout(10, Dependence::Independent),
        layout(5, Dependence::Left),
        layout(0, Dependence::Independent),
        layout(5, Dependence::Left),
        layout(5, Dependence::Both),
        None,
    ];
    let r = apply_dependence(&panels);
    assert_eq!(
        r,
        vec![
            PanelStatus::Shown,
            PanelStatus::Shown,
            PanelStatus::ZeroWidth,
            PanelStatus::ZeroWidth,
            PanelStatus::ZeroWidth,
            PanelStatus::ZeroWidth,
        ]
    );
}

#[test]
fn dependence_on_a_dependent_panel_is_not_shown() {
    let panels = vec![layout(5, Dependence::Right), layout(5, Dependence::Right), layout(7, Dependence::Independent)];
    let r = apply_dependence(&panels);
    assert_eq!(r[0], PanelStatus::Dependent(Dependence::Right));
    assert_eq!(r[1], PanelStatus::Shown);
    assert_eq!(r[2], PanelStatus::Shown);
    assert!(r[0] != PanelStatus::Shown);
}

#[test]
fn dependence_left_at_the_edge() {
    let r = apply_dependence(&vec![layout(5, Dependence::Left), layout(5, Dependence::Both)]);
    assert_eq!(r, vec![PanelStatus::ZeroWidth, PanelStatus::ZeroWidth]);
}

#[test]
fn status_and_combines() {
    assert_eq!(PanelStatus::Shown.and(PanelStatus::Shown), PanelStatus::Shown);
    assert_eq!(PanelStatus::Shown.and(PanelStatus::ZeroWidth), PanelStatus::ZeroWidth);
    assert_eq!(PanelStatus::from_layout(None), PanelStatus::ZeroWidth);
    assert_eq!(PanelStatus::from_layout(layout(3, Dependence::Both)), PanelStatus::Dependent(Dependence::Both));
}

#[test]
fn mouse_buttons_parse() {
    assert_eq!(MouseButton::try_parse(1, false), Ok(MouseButton::Left));
    assert_eq!(MouseButton::try_parse(2, true), Ok(MouseButton::Middle));
    assert_eq!(MouseButton::try_parse(3, false), Ok(MouseButton::Right));
    assert_eq!(MouseButton::try_parse(4, false), Ok(MouseButton::ScrollDown));
    assert_eq!(MouseButton::try_parse(5, false), Ok(MouseButton::ScrollUp));
    assert!(MouseButton::try_parse(0, false).is_err());
    assert!(MouseButton::try_parse(6, true).is_err());
}

#[test]
fn reversed_scrolling_swaps_scroll_buttons() {
    for v in 0u8..=8 {
        let plain = MouseButton::try_parse(v, false).ok();
        let flipped = MouseButton::try_parse(v, true).ok();
        let expected = match plain {
            Some(MouseButton::ScrollUp) => Some(MouseButton::ScrollDown),
            Some(MouseButton::ScrollDown) => Some(MouseButton::ScrollUp),
            other => other,
        };
        assert_eq!(flipped, expected);
    }
}

#[test]
fn responses_as_json_and_text() {
    assert_eq!(EventResponse::Success.to_json(), "{\"success\":\"true\"}");
    assert_eq!(
        EventResponse::Failure("no".to_string()).to_json(),
        "{\"success\":\"false\",\"reason\":\"no\"}"
    );
    assert_eq!(types::EventResponse::Success.to_text(), "SUCCESS");
    assert_eq!(types::EventResponse::Failure("bad".to_string()).to_text(), "FAILURE: bad");
}

#[test]
fn messages_are_routed() {
    let names = vec!["clock".to_string(), "mpd".to_string(), "mpd".to_string(), "temp".to_string()];
    let senders = vec![true, true, true, false];
    assert_eq!(route_message(&names, &senders, "quit"), Ok(Route::Quit));
    assert_eq!(route_message(&names, &senders, "clock.cycle"), Ok(Route::Panel(0, "cycle".to_string())));
    assert_eq!(route_message(&names, &senders, "clock.a.b"), Ok(Route::Panel(0, "a.b".to_string())));
    assert_eq!(route_message(&names, &senders, "clock"), Err(RouteError::NoDelimiter));
    assert_eq!(route_message(&names, &senders, "cpu.x"), Err(RouteError::NotFound));
    assert_eq!(route_message(&names, &senders, "mpd.next"), Err(RouteError::MultipleInstances));
    assert_eq!(route_message(&names, &senders, "temp.x"), Err(RouteError::NoSender));
}

#[test]
fn log_levels() {
    assert_eq!(log_level(None), LogLevel::Warn);
    assert_eq!(log_level(Some(0)), LogLevel::Warn);
    assert_eq!(log_level(Some(1)), LogLevel::Info);
    assert_eq!(log_level(Some(2)), LogLevel::Debug);
    assert_eq!(log_level(Some(3)), LogLevel::Trace);
    assert_eq!(log_level(Some(200)), LogLevel::Trace);
    assert_eq!(client_log_level(true), LogLevel::Debug);
    assert_eq!(client_log_level(false), LogLevel::Info);
}

#[test]
fn config_path_order() {
    assert_eq!(config_path(Some("/a.toml"), Some("/b.toml"), Some("/x"), Some("/h")), "/a.toml");
    assert_eq!(config_path(None, Some("/b.toml"), Some("/x"), Some("/h")), "/b.toml");
    assert_eq!(config_path(None, None, Some("/x"), Some("/h")), "/x/lazybar/config.toml");
    assert_eq!(config_path(None, None, None, Some("/h")), "/h/.config/lazybar/config.toml");
    assert_eq!(config_path(None, None, None, None), "/etc/lazybar/config.toml");
}

#[test]
fn ipc_names_and_paths() {
    assert_eq!(ipc_name("top", 0), "top");
    assert_eq!(ipc_name("top", 12), "top(12)");
    assert_eq!(ipc_path("top"), "/tmp/lazybar-ipc/top");
}

#[test]
fn find_path_takes_first_free_socket() {
    let taken = vec!["/tmp/lazybar-ipc/top".to_string(), "/tmp/lazybar-ipc/top(1)".to_string(), "/tmp/lazybar-ipc/other".to_string()];
    assert_eq!(find_path("top", &taken), ("/tmp/lazybar-ipc/top(2)".to_string(), 2));
    assert_eq!(find_path("bottom", &taken), ("/tmp/lazybar-ipc/bottom".to_string(), 0));
    assert_eq!(find_path("x", &vec![]), ("/tmp/lazybar-ipc/x".to_string(), 0));
}

#[test]
fn exit_codes() {
    assert_eq!(exit_code(&vec![]), 0);
    assert_eq!(exit_code(&vec![Delivery::Handled, Delivery::BadReply]), 0);
    assert_eq!(exit_code(&vec![Delivery::Handled, Delivery::NoConnection]), 1);
    assert_eq!(exit_code(&vec![Delivery::NoConnection, Delivery::Failed, Delivery::Handled]), 2);
    assert_eq!(exit_code(&vec![Delivery::Failed, Delivery::NoConnection]), 1);
}

#[test]
fn consts_are_replaced() {
    let consts = vec![("fg".to_string(), "#fff".to_string()), ("bg".to_string(), "#000".to_string())];
    assert_eq!(replace_consts("fg:%{fg} bg:%{bg}", &consts), "fg:#fff bg:#000");
    assert_eq!(replace_consts("x%{nope}y", &consts), "xy");
    assert_eq!(replace_consts("100% done", &consts), "100% done");
}

#[test]
fn config_values() {
    assert_eq!(parse_dependence(None), Dependence::Independent);
    assert_eq!(parse_dependence(Some("left")), Dependence::Left);
    assert_eq!(parse_dependence(Some("RIGHT")), Dependence::Right);
    assert_eq!(parse_dependence(Some("both")), Dependence::Both);
    assert_eq!(parse_dependence(Some("none")), Dependence::Independent);
    assert_eq!(parse_position("bottom"), Position::Bottom);
    assert_eq!(parse_position("top"), Position::Top);
    assert_eq!(parse_position("anything"), Position::Top);
    assert_eq!(parse_height(None), 24);
    assert_eq!(parse_height(Some(30)), 30);
    assert_eq!(parse_height(Some(65536 + 7)), 7);
    assert_eq!(parse_panel_kind("clock"), Some(PanelKind::Clock));
    assert_eq!(parse_panel_kind("xworkspaces"), Some(PanelKind::XWorkspaces));
    assert_eq!(parse_panel_kind("nope"), None);
}

#[test]
fn alignment_names() {
    assert_eq!(Alignment::Left.name(), "left");
    assert_eq!(Alignment::Center.name(), "center");
    assert_eq!(Alignment::Right.name(), "right");
}

#[test]
fn text_helpers() {
    assert_eq!(chars_of("héllo"), vec!['h', 'é', 'l', 'l', 'o']);
    assert!(same_text("abc", "abc"));
    assert!(!same_text("abc", "abd"));
    assert_eq!(owned("x"), "x".to_string());
    assert_eq!(empty_string(), "");
    assert_eq!(decimal_string(0), "0");
    assert_eq!(decimal_string(1234567890123), "1234567890123");
    assert_eq!(first_line_of("one\ntwo"), "one");
    assert_eq!(first_line_of(""), "");
    assert!(is_white_space_char('\u{3000}'));
    assert!(!is_white_space_char('x'));
}

#[test]
fn replace_all_matches_str_replace() {
    for (h, p, r) in [("aaa", "aa", "b"), ("abcabc", "bc", "X"), ("abc", "", "-"), ("", "", "-"), ("xyz", "q", "r")] {
        assert_eq!(replace_all(h, p, r), h.replace(p, r));
    }
    assert_eq!(replace_all("no match here", "%x%", "y"), "no match here");
}

#[test]
fn parse_u64_matches_std() {
    for s in ["0", "42", "+7", "-1", "", "+", "18446744073709551615", "18446744073709551616", "1 2", "007"] {
        assert_eq!(parse_u64(s), s.parse::<u64>().ok());
    }
}

#[test]
fn trim_matches_std() {
    for s in ["  a b  ", "\u{2003}x\u{2003}", "", "   ", "\n\tq\r\n"] {
        assert_eq!(trim(s), s.trim());
    }
}

#[test]
fn refused_messages_are_answered() {
    assert_eq!(
        route_error_text(RouteError::NoDelimiter, "quit"),
        "Message did not contain a `.` delimiter"
    );
    assert_eq!(
        route_error_text(RouteError::NotFound, "clock.cycle.now"),
        "No panel with name clock was found"
    );
    assert_eq!(
        route_error_text(RouteError::MultipleInstances, "clock.cycle"),
        "This panel has multiple instances and cannot be messaged"
    );
    assert_eq!(
        route_error_text(RouteError::NoSender, "clock.cycle"),
        "The target panel has no associated sender and cannot be messaged"
    );
}

fn names(list: &[&str]) -> PanelList {
    PanelList::Names(list.iter().map(|s| Some(s.to_string())).collect())
}

fn entry(left: PanelList, center: PanelList, right: PanelList) -> BarEntry {
    BarEntry {
        position: None,
        height: None,
        transparent: None,
        reverse_scroll: None,
        ipc: None,
        monitor: None,
        cursors: (None, None, None),
        left,
        center,
        right,
    }
}

fn panel_table(name: &str, kind: Option<&str>) -> (String, Option<PanelEntry>) {
    (name.to_string(), Some(PanelEntry { kind: kind.map(|k| k.to_string()), valid: true }))
}

#[test]
fn bar_settings_defaults_and_panels() {
    let panels = vec![
        panel_table("clock", Some("clock")),
        panel_table("mem", Some("memory")),
        panel_table("odd", Some("no-such-kind")),
        panel_table("untyped", None),
        ("plain".to_string(), None),
        ("broken".to_string(), Some(PanelEntry { kind: Some("clock".to_string()), valid: false })),
    ];
    let left = PanelList::Names(vec![
        Some("clock".to_string()),
        Some("odd".to_string()),
        Some("missing".to_string()),
        None,
        Some("plain".to_string()),
        Some("broken".to_string()),
    ]);
    let bar = BarLookup::Found(entry(left, PanelList::Missing, names(&["untyped", "mem"])));
    let s = bar_settings(&bar, Some(&panels)).unwrap();
    assert_eq!(s.position, Position::Top);
    assert_eq!(s.height, 24);
    assert!(!s.transparent);
    assert_eq!(
        s.cursors,
        ("default".to_string(), "hand2".to_string(), "sb_v_double_arrow".to_string())
    );
    assert!(!s.reverse_scroll);
    assert!(!s.ipc);
    assert_eq!(s.monitor, None);
    let got: Vec<(String, Alignment, PanelKind)> =
        s.panels.iter().map(|p| (p.name.clone(), p.alignment, p.kind)).collect();
    assert_eq!(
        got,
        vec![
            ("clock".to_string(), Alignment::Left, PanelKind::Clock),
            ("mem".to_string(), Alignment::Right, PanelKind::Memory),
        ]
    );
}

#[test]
fn bar_settings_reads_the_options() {
    let mut e = entry(PanelList::Missing, names(&["mem", "mem"]), PanelList::Missing);
    e.position = Some("bottom".to_string());
    e.height = Some(30);
    e.transparent = Some(true);
    e.cursors = (Some("left_ptr".to_string()), None, Some("fleur".to_string()));
    e.reverse_scroll = Some(true);
    e.ipc = Some(true);
    e.monitor = Some("DP-1".to_string());
    let panels = vec![panel_table("mem", Some("memory"))];
    let s = bar_settings(&BarLookup::Found(e), Some(&panels)).unwrap();
    assert_eq!(s.position, Position::Bottom);
    assert_eq!(s.height, 30);
    assert!(s.transparent);
    assert_eq!(s.cursors, ("left_ptr".to_string(), "hand2".to_string(), "fleur".to_string()));
    assert!(s.reverse_scroll);
    assert!(s.ipc);
    assert_eq!(s.monitor, Some("DP-1".to_string()));
    assert_eq!(s.panels.len(), 2);
    assert!(s.panels.iter().all(|p| p.alignment == Alignment::Center));
}

#[test]
fn bar_settings_errors() {
    let panels = vec![panel_table("mem", Some("memory"))];
    let err = |bar: BarLookup, p: Option<&Vec<(String, Option<PanelEntry>)>>| bar_settings(&bar, p).err();
    assert_eq!(err(BarLookup::NoBarsTable, Some(&panels)), Some(SettingsError::NoBarsTable));
    assert_eq!(err(BarLookup::NoSuchBar, Some(&panels)), Some(SettingsError::NoSuchBar));
    assert_eq!(err(BarLookup::NotATable, Some(&panels)), Some(SettingsError::BarNotATable));
    let bad = |l, c, r| BarLookup::Found(entry(l, c, r));
    assert_eq!(
        err(bad(PanelList::NotAnArray, PanelList::NotAnArray, PanelList::Missing), Some(&panels)),
        Some(SettingsError::NotAnArray(Alignment::Left))
    );
    assert_eq!(
        err(bad(PanelList::Missing, PanelList::NotAnArray, PanelList::Missing), Some(&panels)),
        Some(SettingsError::NotAnArray(Alignment::Center))
    );
    assert_eq!(
        err(bad(names(&["mem"]), PanelList::Missing, PanelList::NotAnArray), Some(&panels)),
        Some(SettingsError::NotAnArray(Alignment::Right))
    );
    assert_eq!(
        err(bad(names(&["mem"]), PanelList::Missing, PanelList::Missing), None),
        Some(SettingsError::NoPanelsTable)
    );
}

#[test]
fn presses_go_to_the_panel_under_them() {
    let extents = vec![Some((0, 10)), None, Some((20, 15)), Some((30, 5))];
    assert_eq!(
        bar_click(&extents, 1, false, 5, 3),
        Some((0, MouseEvent { button: MouseButton::Left, x: 5, y: 3 }))
    );
    assert_eq!(
        bar_click(&extents, 4, false, 10, 0),
        Some((0, MouseEvent { button: MouseButton::ScrollDown, x: 10, y: 0 }))
    );
    // between panels, and on the first of two that overlap
    assert_eq!(bar_click(&extents, 1, false, 15, 0), None);
    assert_eq!(
        bar_click(&extents, 5, true, 32, 1),
        Some((2, MouseEvent { button: MouseButton::ScrollDown, x: 12, y: 1 }))
    );
    assert_eq!(bar_click(&extents, 6, false, 5, 0), None);
    assert_eq!(bar_click(&extents, 1, false, 40, 0), None);
}
