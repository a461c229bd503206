use lazybar::cpu::{cpu_times_from_groups, load_change, read_cpu_times, CpuError, CpuTimes, Load};
use lazybar::bar::MouseButton;
use lazybar::mpd::{
    buttons, clicked_button, layout_text, markup_escape, mpd_command, mpd_strategy, mpd_text, next_scroll_idx,
    placeholder_matches, placeholder_values, scroll_window, scrolled_main, truncated_main,
    MpdCommand, MpdEvent, MpdFormats, PlayerState, Strategy,
};
use lazybar::systray::{
    add_icon, icon_x, may_claim_tray, remove_icon, sort_icons, sort_method, tray_step, tray_width, Icon, SortMethod,
    TrayAction, TrayEvent, TrayState,
};
use lazybar::usage::{
    meminfo_from_captures, memory_text, read_meminfo, storage_stats, storage_text, MemAvailable, MemInfo, MemoryError,
};
use lazybar::x::{
    choose_monitor, find_visual, size_hints, strut, window_y, xcb_visualtype_t, AllowedDepth,
    Monitor, MonitorError,
};
use lazybar::xworkspaces::{
    clicked_workspace, scroll_workspace, workspace_action, workspace_layout, workspace_mouse_target,
    workspace_named,
    workspace_names, workspace_state, WorkspaceState,
};
use lazybar::types::EventResponse;
use lazybar::{ButtonIndex, Position};

fn icon(window: u32, idx: usize) -> Icon {
    Icon { window, mapped: true, idx }
}

#[test]
fn sort_method_from_options() {
    assert_eq!(sort_method(None, Some(true)), SortMethod::Arrival(false));
    assert_eq!(sort_method(Some("arrival"), Some(true)), SortMethod::Arrival(true));
    assert_eq!(sort_method(Some("window_name"), None), SortMethod::WindowName(false));
    assert_eq!(sort_method(Some("window_name_lower"), Some(true)), SortMethod::WindowNameLower(true));
    assert_eq!(sort_method(Some("other"), Some(false)), SortMethod::Arrival(false));
    let m = SortMethod::WindowName(false);
    assert_eq!(m.reverse(), SortMethod::WindowName(true));
    assert_eq!(m.reverse().reverse(), m);
}

#[test]
fn icons_arrive_and_leave() {
    let mut icons = vec![icon(10, 0), icon(11, 1)];
    add_icon(&mut icons, 12, false, SortMethod::Arrival(false));
    assert_eq!(icons[2], Icon { window: 12, mapped: false, idx: 2 });
    add_icon(&mut icons, 13, true, SortMethod::Arrival(true));
    assert_eq!(icons.iter().map(|i| i.idx).collect::<Vec<_>>(), vec![1, 2, 3, 0]);
    let freed = remove_icon(&mut icons, 11);
    assert_eq!(freed, Some(2));
    assert_eq!(icons, vec![icon(10, 1), Icon { window: 12, mapped: false, idx: 2 }, icon(13, 0)]);
    assert_eq!(remove_icon(&mut icons, 99), None);
    assert_eq!(icons.len(), 3);
}

#[test]
fn arrival_then_removal_restores_tray() {
    let before = vec![icon(1, 0), icon(2, 1), icon(3, 2)];
    let mut icons = before.clone();
    add_icon(&mut icons, 4, true, SortMethod::Arrival(false));
    assert_eq!(remove_icon(&mut icons, 4), Some(3));
    assert_eq!(icons, before);
}

#[test]
fn icons_sorted_by_name() {
    let icons = vec![icon(1, 0), icon(2, 1), icon(3, 2), icon(4, 3)];
    let names = vec![Some("zeta".to_string()), Some("Alpha".to_string()), Some("beta".to_string()), Some("beta".to_string())];
    let mut a = icons.clone();
    sort_icons(&mut a, &names, SortMethod::WindowName(false));
    assert_eq!(a.iter().map(|i| (i.window, i.idx)).collect::<Vec<_>>(), vec![(2, 0), (3, 1), (4, 2), (1, 3)]);
    let mut b = icons.clone();
    sort_icons(&mut b, &names, SortMethod::WindowName(true));
    assert_eq!(b.iter().map(|i| i.window).collect::<Vec<_>>(), vec![1, 3, 4, 2]);
    let lower = vec![Some("b".to_string()), Some("A".to_string()), Some("c".to_string()), Some("a".to_string())];
    let mut c = icons.clone();
    sort_icons(&mut c, &lower, SortMethod::WindowName(false));
    assert_eq!(c.iter().map(|i| i.window).collect::<Vec<_>>(), vec![2, 4, 1, 3]);
    let mut d = icons.clone();
    sort_icons(&mut d, &lower, SortMethod::WindowNameLower(false));
    assert_eq!(d.iter().map(|i| i.window).collect::<Vec<_>>(), vec![2, 4, 1, 3]);
    let mut e = icons.clone();
    sort_icons(&mut e, &names, SortMethod::Arrival(true));
    assert_eq!(e, icons);
}

#[test]
fn tray_geometry() {
    assert_eq!(tray_width(3, 16, 2), 54);
    assert_eq!(tray_width(0, 16, 2), 1);
    assert_eq!(tray_width(5000, 16, 0), (80000 % 65536) as u16);
    assert_eq!(icon_x(2, 16, 4), 42);
    assert_eq!(icon_x(0, 16, 5), 2);
    assert_eq!(icon_x(1, 16, -3), 12);
}

#[test]
fn window_geometry() {
    assert_eq!(window_y(Position::Top, 10, 1080, 24), 10);
    assert_eq!(window_y(Position::Bottom, 0, 1080, 24), 1056);
    assert_eq!(strut(Position::Top, 24, 0, 1920), [0, 0, 24, 0, 0, 0, 0, 0, 0, 1919, 0, 0]);
    assert_eq!(strut(Position::Bottom, 30, 1920, 1280), [0, 0, 0, 30, 0, 0, 0, 0, 0, 0, 1920, 3199]);
    assert_eq!(
        size_hints(Position::Bottom, 0, 0, 1080, 1920, 24),
        [0x3c, 0, 1056, 1920, 24, 1920, 24, 1920, 24, 0, 0, 0, 0, 1920, 24]
    );
    assert_eq!(size_hints(Position::Top, -5, 7, 1080, 100, 20)[1], (-5i16) as u32);
    assert_eq!(size_hints(Position::Top, -5, 7, 1080, 100, 20)[2], 7);
}

#[test]
fn true_color_visual_is_found() {
    let v = |id: u32, class: u8| xcb_visualtype_t::new(id, class, 8, 256, 0xff0000, 0xff00, 0xff);
    let depths = vec![
        AllowedDepth { depth: 24, visuals: vec![v(1, 4)] },
        AllowedDepth { depth: 32, visuals: vec![v(2, 3), v(3, 4), v(4, 4)] },
    ];
    assert_eq!(find_visual(&depths, 32).map(|x| x.visual_id), Some(3));
    assert_eq!(find_visual(&depths, 24).map(|x| x.visual_id), Some(1));
    assert_eq!(find_visual(&depths, 16), None);
    assert_eq!(v(9, 4).pad0, [0, 0, 0, 0]);
}

#[test]
fn monitor_choice() {
    let m = |name: Option<&str>, primary: bool| Monitor {
        name: name.map(|s| s.to_string()),
        primary,
        x: 0,
        y: 0,
        width: 100,
        height: 100,
    };
    let mons = vec![m(Some("DP-1"), false), m(None, true), m(Some("HDMI-1"), true)];
    assert_eq!(choose_monitor(&mons, Some("HDMI-1")), Ok(2));
    assert_eq!(choose_monitor(&mons, Some("VGA")), Err(MonitorError::NotFound));
    assert_eq!(choose_monitor(&mons, None), Ok(1));
    assert_eq!(choose_monitor(&vec![m(Some("a"), false), m(Some("b"), false)], None), Ok(0));
    assert_eq!(choose_monitor(&vec![], None), Err(MonitorError::NoMonitors));
}

#[test]
fn workspace_states_and_names() {
    let nonempty = vec![1, 3];
    assert_eq!(workspace_state(0, 0, &nonempty), WorkspaceState::Active);
    assert_eq!(workspace_state(1, 0, &nonempty), WorkspaceState::Nonempty);
    assert_eq!(workspace_state(2, 0, &nonempty), WorkspaceState::Inactive);
    let names = workspace_names(&b"one\0two\0\0".to_vec(), 4);
    assert_eq!(names, vec![b"one".to_vec(), b"two".to_vec(), b"?".to_vec(), b"?".to_vec()]);
    assert_eq!(workspace_names(&b"a\0b".to_vec(), 1), vec![b"a".to_vec(), b"b".to_vec()]);
    let strs = vec!["web".to_string(), "code".to_string(), "web".to_string()];
    assert_eq!(workspace_named(&strs, "web"), Some(0));
    assert_eq!(workspace_named(&strs, "code"), Some(1));
    assert_eq!(workspace_named(&strs, "chat"), None);
}

#[test]
fn workspace_scroll_and_click() {
    assert_eq!(scroll_workspace(2, 3, true), 0);
    assert_eq!(scroll_workspace(0, 3, false), 2);
    assert_eq!(scroll_workspace(scroll_workspace(1, 3, true) as u32, 3, false), 1);
    let widths = vec![10, 20, 30];
    assert_eq!(clicked_workspace(&widths, 3, 5), Some(0));
    assert_eq!(clicked_workspace(&widths, 3, 25), Some(1));
    assert_eq!(clicked_workspace(&widths, 3, 30), Some(1));
    assert_eq!(clicked_workspace(&widths, 3, 100), Some(3));
    assert_eq!(clicked_workspace(&widths, 2, 100), Some(2));
    assert_eq!(clicked_workspace(&vec![], 3, 5), None);
    let (states, total) = workspace_layout(1, &vec![2], &widths);
    assert_eq!(states, vec![WorkspaceState::Inactive, WorkspaceState::Active, WorkspaceState::Nonempty]);
    assert_eq!(total, 60);
}

const MEMINFO: &str = "MemTotal:       16000000 kB\nMemFree:         1000 kB\nMemAvailable:    8000000 kB\nBuffers:  10 kB\nSwapTotal:       2000 kB\nSwapFree:         500 kB\nHugePages_Total:       0\n";

#[test]
fn meminfo_is_read() {
    let info = read_meminfo(MEMINFO).unwrap();
    assert_eq!(
        info,
        MemInfo { mem_total: 16000000, available: MemAvailable::Reported(8000000), swap_total: 2000, swap_free: 500 }
    );
    assert!(info.fits());
    let stats = info.stats();
    assert_eq!(stats.mem_used, 8000000);
    assert_eq!(stats.mem_free, 8000000);
    assert_eq!(stats.swap_used, 1500);
}

#[test]
fn meminfo_estimates_available_memory() {
    let text = "MemTotal: 1000 kB\nMemFree: 100 kB\nBuffers: 10 kB\nCached: 20 kB\nSReclaimable: 5 kB\nShmem: 15 kB\nSwapTotal: 0 kB\nSwapFree: 0 kB\n";
    let info = read_meminfo(text).unwrap();
    assert_eq!(
        info.available,
        MemAvailable::Estimated { free: 100, buffers: 10, cached: 20, sreclaimable: 5, shmem: 15 }
    );
    assert_eq!(info.stats().mem_free, 120);
    assert_eq!(info.stats().mem_used, 880);
}

#[test]
fn meminfo_later_lines_win() {
    let text = "MemTotal: 10 kB\nMemAvailable: 4 kB\nSwapTotal: 1 kB\nSwapFree: 1 kB\nMemTotal: 20 kB\n";
    assert_eq!(read_meminfo(text).unwrap().mem_total, 20);
}

#[test]
fn meminfo_errors() {
    assert_eq!(read_meminfo("MemFree: 1 kB\n"), Err(MemoryError::NoMemTotal));
    assert_eq!(read_meminfo("MemTotal: 1 kB\nSwapTotal: 1 kB\n"), Err(MemoryError::NoMemAvailable));
    assert_eq!(read_meminfo("MemTotal: 1 kB\nMemAvailable: 1 kB\n"), Err(MemoryError::NoSwapTotal));
    assert_eq!(
        read_meminfo("MemTotal: 1 kB\nMemAvailable: 1 kB\nSwapTotal: 1 kB\n"),
        Err(MemoryError::NoSwapFree)
    );
    let bad = MemInfo { mem_total: 5, available: MemAvailable::Reported(6), swap_total: 0, swap_free: 0 };
    assert!(!bad.fits());
}

#[test]
fn memory_and_storage_texts() {
    let values: Vec<String> = (0..16).map(|i| format!("v{i}")).collect();
    assert_eq!(memory_text("RAM: %mb_used% MB %ramp% %percentage_free%", &values).unwrap(), "RAM: v4 MB %ramp% v13");
    let svalues: Vec<String> = vec!["/", "1.00", "0.50", "0.50", "1024", "512", "512", "50", "50"]
        .into_iter()
        .map(String::from)
        .collect();
    assert_eq!(
        storage_text("%path%: %percentage_used%% %gb_swap_used%", &svalues).unwrap(),
        "/: 50% %gb_swap_used%"
    );
    let s = storage_stats(100, 40, 30, 4096);
    assert_eq!(s.used_blocks, 60);
    assert_eq!(s.used_bytes, 60 * 4096);
    assert_eq!(s.avail_bytes, 30 * 4096);
}

fn formats() -> MpdFormats {
    let s = |t: &str| t.to_string();
    MpdFormats {
        playing: s("%prev% %main% %next% %toggle%"),
        paused: s("paused %main%"),
        stopped: s("not playing"),
        main: s("%title% - %artist%"),
        next: s(">>"),
        prev: s("<"),
        play: s("P"),
        pause: s("p"),
        toggle_playing: s("||"),
        toggle_paused: s("|>"),
        toggle_stopped: s("[]"),
        shuffle: s("S"),
        repeat: s("R"),
        random: s("X"),
        single: s("1"),
        consume: s("C"),
    }
}

#[test]
fn mpd_formats_are_filled() {
    let f = formats();
    assert_eq!(f.state_format(PlayerState::Stop), "not playing");
    assert_eq!(mpd_text(f.main.as_str(), &f, PlayerState::Play, Some("Song"), None).unwrap(), "Song - Unknown");
    assert_eq!(
        mpd_text(f.playing.as_str(), &f, PlayerState::Pause, Some("Song"), Some("Band")).unwrap(),
        "< %main% >> |>"
    );
    let values = placeholder_values(&f, PlayerState::Stop, None, None);
    assert_eq!(values[6], "[]");
    assert_eq!(values[7], "%main%");
}

#[test]
fn mpd_commands_and_strategy() {
    assert_eq!(mpd_command("next"), MpdCommand::Next);
    assert_eq!(mpd_command("consume"), MpdCommand::Consume);
    assert_eq!(mpd_command("main"), MpdCommand::Main);
    assert_eq!(mpd_command("dance"), MpdCommand::Unknown);
    assert_eq!(mpd_strategy(Some("scroll"), None), Strategy::Scroll { interval_ms: 1000 });
    assert_eq!(mpd_strategy(Some("scroll"), Some(250)), Strategy::Scroll { interval_ms: 250 });
    assert_eq!(mpd_strategy(Some("truncate"), Some(250)), Strategy::Truncate);
    assert_eq!(mpd_strategy(None, None), Strategy::Truncate);
}

#[test]
fn mpd_buttons_and_clicks() {
    let matches = placeholder_matches("%prev% %main% %next%").unwrap();
    assert_eq!(matches, vec![(0, 6, 3), (7, 13, 7), (14, 20, 2)]);
    let lens: Vec<usize> = vec![0, 0, 2, 1, 0, 0, 0, 0, 0, 0, 0, 0, 0];
    let cache = buttons(&matches, &lens, 10, 5).unwrap();
    let view: Vec<(String, usize, usize)> = cache.iter().map(|b| (b.name.clone(), b.start, b.length)).collect();
    assert_eq!(
        view,
        vec![("prev".to_string(), 0, 1), ("main".to_string(), 2, 5), ("next".to_string(), 8, 2)]
    );
    assert_eq!(clicked_button(&cache, MouseButton::Left, 0), Some(0));
    assert_eq!(clicked_button(&cache, MouseButton::Left, 1), Some(0));
    assert_eq!(clicked_button(&cache, MouseButton::Middle, 9), Some(2));
    assert_eq!(clicked_button(&cache, MouseButton::Right, 11), None);
    assert_eq!(clicked_button(&cache, MouseButton::ScrollUp, 0), None);
    let lone = vec![ButtonIndex { name: "x".to_string(), start: 3, length: 0 }];
    assert_eq!(clicked_button(&lone, MouseButton::Left, 3), Some(0));
}

#[test]
fn mpd_scrolling() {
    assert_eq!(next_scroll_idx(7, MpdEvent::Scroll, true, 6, 2), 0);
    assert_eq!(next_scroll_idx(3, MpdEvent::Scroll, true, 6, 2), 4);
    assert_eq!(next_scroll_idx(3, MpdEvent::Scroll, false, 6, 2), 3);
    assert_eq!(next_scroll_idx(3, MpdEvent::Player, true, 6, 2), 0);
    assert_eq!(next_scroll_idx(3, MpdEvent::Progress, true, 6, 2), 3);
    assert_eq!(scrolled_main("abcdef", "  ", 0, 4).unwrap(), "abcd");
    assert_eq!(scrolled_main("abcdef", "  ", 6, 4).unwrap(), "  ab");
    assert_eq!(scrolled_main("abc", "  ", 2, 4).unwrap(), "abc");
    assert_eq!(scrolled_main("abcdef", "  ", 0, 0).unwrap(), "abcdef");
    assert_eq!(scrolled_main("abcdef", "  ", 9, 4), None);
    let gs: Vec<String> = vec!["a", "b", "c"].into_iter().map(String::from).collect();
    assert_eq!(scroll_window(&gs, 2, 2), "ca");
    assert_eq!(truncated_main("he\u{301}llo world", 3), "he\u{301}l");
    assert_eq!(truncated_main("hello", 0), "hello");
    assert_eq!(truncated_main("hi", 10), "hi");
}

#[test]
fn cpu_times_are_read() {
    let t = read_cpu_times("cpu  100 20 30 400 5 6 7 8 0 0\ncpu0 1 2 3 4 5 6 7 8 9 10\n").unwrap();
    assert_eq!(t, CpuTimes { user: 100, nice: 20, system: 30, idle: 400, steal: 8 });
    assert!(t.fits());
    assert_eq!(t.load(), Load { idle: 400, total: 558 });
    assert_eq!(read_cpu_times("intr 1 2 3"), Err(CpuError::NoMatch));
    assert_eq!(read_cpu_times("cpu 99999999999999999999 1 1 1 1 1 1 1"), Err(CpuError::BadNumber));
    let big = CpuTimes { user: u64::MAX, nice: 1, system: 0, idle: 0, steal: 0 };
    assert!(!big.fits());
    assert_eq!(load_change(Load { idle: 400, total: 558 }, Load { idle: 450, total: 658 }), (100, 50));
}

#[test]
fn markup_is_escaped() {
    assert_eq!(markup_escape("a<b> & 'c' \"d\""), "a&lt;b&gt; &amp; &#39;c&#39; &quot;d&quot;");
    assert_eq!(markup_escape("x\u{1}y\u{1f}\u{7f}\u{85}\t\n"), "x&#x1;y&#x1f;&#x7f;\u{85}\t\n");
    assert_eq!(markup_escape("héllo"), "héllo");
    let parts = markup_escape("a&") + markup_escape("<b>").as_str();
    assert_eq!(parts, markup_escape("a&<b>"));
    assert!(!markup_escape("<i>x</i>").contains('<'));
    assert!(!markup_escape("<i>x</i>").contains('>'));
}

#[test]
fn main_text_is_laid_out() {
    assert_eq!(layout_text("<b>%main%</b>", "A & B", "  ", Strategy::Truncate, 0, 0).unwrap(), "<b>A & B</b>");
    assert_eq!(layout_text("<b>%main%</b>", "A & B", "  ", Strategy::Truncate, 0, 3).unwrap(), "<b>A &amp;</b>");
    assert_eq!(
        layout_text("[%main%]", "a<cdef", "  ", Strategy::Scroll { interval_ms: 1000 }, 6, 4).unwrap(),
        "[  a&lt;]"
    );
    assert_eq!(layout_text("[%main%]", "a<c", "  ", Strategy::Scroll { interval_ms: 1000 }, 0, 4).unwrap(), "[a&lt;c]");
    assert_eq!(layout_text("[%main%]", "abcdef", "  ", Strategy::Scroll { interval_ms: 1000 }, 9, 4), None);
}

#[test]
fn tray_handles_events() {
    let mut state = TrayState {
        icons: vec![],
        sort: SortMethod::Arrival(false),
        icon_size: 16,
        icon_padding: 4,
        width: 1,
        pending: vec![],
        time_start: 0,
    };
    let (redraw, actions) = tray_step(&mut state, TrayEvent::Dock { window: 7, mapped: true }, &vec![]);
    assert!(redraw);
    assert_eq!(
        actions,
        vec![
            TrayAction::ConfigureTray { width: 21 },
            TrayAction::SizeIcon { window: 7 },
            TrayAction::WatchIcon { window: 7 },
            TrayAction::ConfigureTray { width: 20 },
            TrayAction::MoveIcon { window: 7, x: 2 },
        ]
    );
    assert_eq!(state.width, 20);
    assert_eq!(state.pending, vec![(7, true)]);
    let (_, actions) = tray_step(&mut state, TrayEvent::Dock { window: 8, mapped: false }, &vec![]);
    assert_eq!(actions[3..], [
        TrayAction::ConfigureTray { width: 40 },
        TrayAction::MoveIcon { window: 7, x: 2 },
        TrayAction::MoveIcon { window: 8, x: 22 },
    ]);
    let (_, actions) = tray_step(&mut state, TrayEvent::Destroyed { window: 7 }, &vec![]);
    assert_eq!(actions, vec![TrayAction::ConfigureTray { width: 20 }, TrayAction::MoveIcon { window: 8, x: 2 }]);
    assert_eq!(state.icons, vec![Icon { window: 8, mapped: false, idx: 0 }]);
    let (_, actions) = tray_step(&mut state, TrayEvent::Configured { window: 8, is_tray: false, width: 16, height: 20 }, &vec![]);
    assert_eq!(actions, vec![TrayAction::SizeIcon { window: 8 }]);
    // the first property change tells the time from which the tray claims its selection
    let (redraw, actions) =
        tray_step(&mut state, TrayEvent::PropertyChanged { time: 42, window: 8, info: Some(Some(false)) }, &vec![]);
    assert!(redraw);
    assert_eq!(actions, vec![TrayAction::ClaimSelection { time: 42 }]);
    assert_eq!(state.time_start, 42);
    let (_, actions) =
        tray_step(&mut state, TrayEvent::PropertyChanged { time: 50, window: 8, info: Some(Some(false)) }, &vec![]);
    assert_eq!(actions, vec![TrayAction::Hide { window: 8 }]);
    assert_eq!(state.time_start, 42);
    let (redraw, actions) = tray_step(&mut state, TrayEvent::PropertyChanged { time: 60, window: 8, info: None }, &vec![]);
    assert!(!redraw);
    assert!(actions.is_empty());
    assert!(may_claim_tray(0, false));
    assert!(may_claim_tray(5, true));
    assert!(!may_claim_tray(5, false));
    let (redraw, actions) = tray_step(&mut state, TrayEvent::Other, &vec![]);
    assert!(!redraw);
    assert!(actions.is_empty());
}

#[test]
fn tray_sorts_docked_icons_by_name() {
    let mut state = TrayState {
        icons: vec![Icon { window: 1, mapped: true, idx: 0 }],
        sort: SortMethod::WindowName(false),
        icon_size: 10,
        icon_padding: 0,
        width: 10,
        pending: vec![],
        time_start: 0,
    };
    let names = vec![Some("zed".to_string()), Some("abc".to_string())];
    tray_step(&mut state, TrayEvent::Dock { window: 2, mapped: true }, &names);
    assert_eq!(state.icons, vec![Icon { window: 2, mapped: true, idx: 0 }, Icon { window: 1, mapped: true, idx: 1 }]);
    assert_eq!(state.width, 20);
}

#[test]
fn figures_from_captures() {
    let caps = vec![
        (Some("MemTotal".to_string()), Some("10".to_string())),
        (Some(" MemAvailable ".to_string()), Some("4".to_string())),
        (Some("SwapTotal".to_string()), Some("x".to_string())),
        (Some("SwapTotal".to_string()), Some("3".to_string())),
        (Some("SwapFree".to_string()), Some("1".to_string())),
    ];
    let m = meminfo_from_captures(&caps).unwrap();
    assert_eq!(m.available, MemAvailable::Reported(4));
    assert_eq!(m.swap_total, 3);
    let gs = vec![Some("1".to_string()), Some("2".to_string()), Some("3".to_string()), Some("4".to_string()), Some("5".to_string())];
    assert_eq!(cpu_times_from_groups(&gs), Ok(CpuTimes { user: 1, nice: 2, system: 3, idle: 4, steal: 5 }));
    assert_eq!(cpu_times_from_groups(&gs[..4].to_vec()), Err(CpuError::NoMatch));
}

#[test]
fn mouse_events_switch_workspaces() {
    let names: Vec<String> = ["web", "mail", "web", "chat"].iter().map(|s| s.to_string()).collect();
    let widths = vec![10, 20, 10, 30];
    assert_eq!(workspace_mouse_target(&names, &widths, 0, MouseButton::Left, 5), Some(0));
    assert_eq!(workspace_mouse_target(&names, &widths, 0, MouseButton::Right, 25), Some(1));
    // the third workspace shares its name with the first, which the switch reaches
    assert_eq!(workspace_mouse_target(&names, &widths, 0, MouseButton::Middle, 35), Some(0));
    assert_eq!(workspace_mouse_target(&names, &widths, 0, MouseButton::Left, 65), Some(3));
    // right of every workspace: nothing happens
    assert_eq!(workspace_mouse_target(&names, &widths, 0, MouseButton::Left, 80), None);
    // no widths measured yet
    assert_eq!(workspace_mouse_target(&names, &vec![], 0, MouseButton::Left, 5), None);
    assert_eq!(workspace_mouse_target(&names, &widths, 3, MouseButton::ScrollUp, 0), Some(0));
    assert_eq!(workspace_mouse_target(&names, &widths, 0, MouseButton::ScrollDown, 0), Some(3));
    assert_eq!(workspace_mouse_target(&names, &widths, 1, MouseButton::ScrollUp, 0), Some(0));
}

#[test]
fn workspace_actions_are_answered() {
    let names: Vec<String> = ["web", "mail", "web"].iter().map(|s| s.to_string()).collect();
    assert_eq!(workspace_action(&names, "web"), (Some(0), EventResponse::Success));
    assert_eq!(workspace_action(&names, "mail"), (Some(1), EventResponse::Success));
    assert_eq!(
        workspace_action(&names, "chat"),
        (None, EventResponse::Failure("No workspace found with name chat".to_string()))
    );
}

#[test]
fn short_main_text_is_not_cut() {
    assert_eq!(truncated_main("héllo", 5), "héllo");
    assert_eq!(truncated_main("héllo", 9), "héllo");
    assert_eq!(truncated_main("héllo", 2), "hé");
}

#[test]
fn tray_places_stay_whole_when_a_window_docks_again() {
    let mut state = TrayState {
        icons: vec![],
        sort: SortMethod::Arrival(true),
        icon_size: 16,
        icon_padding: 0,
        width: 1,
        pending: vec![],
        time_start: 1,
    };
    for w in [3u32, 4, 3] {
        tray_step(&mut state, TrayEvent::Dock { window: w, mapped: true }, &vec![]);
    }
    let mut places: Vec<usize> = state.icons.iter().map(|i| i.idx).collect();
    places.sort();
    assert_eq!(places, vec![0, 1, 2]);
}
