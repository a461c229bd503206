use lazybar::actions::Actions;
use lazybar::bar::MouseButton;
use lazybar::clock::{
    clock_formats, clock_precisions, clock_step, redraw_delay, reset_delay, ClockEvent, ClockState,
    Precision, TimeOfDay,
};
use lazybar::panels::{
    average_millis, battery_text, custom_text, count_notifications, github_text, i3mode_text, inotify_text,
    network_text, ping_text, poll_interval, pulseaudio_text, sink_command, temp_text, volume_down,
    pulseaudio_reading, sink_step, volume_up, BatteryError, BatteryFormats, SinkChange, SinkCommand,
    VOLUME_NORMAL,
};
use lazybar::precision::{self, Days, Hours, Minutes, Seconds};
use lazybar::ramp::Ramp;
use lazybar::types::EventResponse;

fn ramp(icons: &[&str]) -> Ramp {
    Ramp::from_icons(icons.iter().map(|s| s.to_string()).collect())
}

fn time(hour: u32, minute: u32, second: u32, nanosecond: u32) -> TimeOfDay {
    TimeOfDay { hour, minute, second, nanosecond }
}

#[test]
fn ramp_chooses_by_proportion() {
    let r = ramp(&["a", "b", "c", "d"]);
    assert_eq!(r.len(), 4);
    assert_eq!(r.choose_icon(0, 0, 100), "a");
    assert_eq!(r.choose_icon(25, 0, 100), "b");
    assert_eq!(r.choose_icon(74, 0, 100), "c");
    assert_eq!(r.choose_icon(75, 0, 100), "d");
    assert_eq!(r.choose_icon(100, 0, 100), "d");
    assert_eq!(r.choose_icon(500, 0, 100), "d");
}

#[test]
fn ramp_uses_the_place_in_the_range() {
    let r = ramp(&["a", "b", "c"]);
    assert_eq!(r.choose_icon(15, 10, 20), "b");
    assert_eq!(r.choose_icon(5, 10, 20), "a");
    assert_eq!(r.choose_icon(10, 10, 20), "a");
    assert_eq!(r.choose_icon(19, 10, 20), "c");
    assert_eq!(r.choose_icon(20, 10, 20), "c");
    assert_eq!(r.choose_icon(99, 10, 20), "c");
    assert_eq!(r.choose_icon(5, 5, 5), "a");
    assert_eq!(r.choose_icon(6, 5, 5), "c");
    assert_eq!(r.choose_icon(15, 20, 10), "b");
}

#[test]
fn ramp_never_goes_back_as_value_rises() {
    let r = ramp(&["0", "1", "2", "3", "4"]);
    let mut last = 0u32;
    for v in 0..=120u32 {
        let icon: u32 = r.choose_icon(v, 0, 100).parse().unwrap();
        assert!(icon >= last);
        assert!(icon < 5);
        last = icon;
    }
}

#[test]
fn ramp_default_is_one_empty_icon() {
    let r = Ramp::new_default();
    assert_eq!(r.len(), 1);
    assert_eq!(r.choose_icon(3, 0, 10), "");
}

#[test]
fn precision_names() {
    assert_eq!(Precision::parse("days"), Ok(Precision::Days));
    assert_eq!(Precision::parse("Hours"), Ok(Precision::Hours));
    assert_eq!(Precision::parse("MINUTES"), Ok(Precision::Minutes));
    assert_eq!(Precision::parse("seconds"), Ok(Precision::Seconds));
    assert!(Precision::parse("weeks").is_err());
    assert!(Precision::Seconds.finer_than(Precision::Minutes));
    assert!(!Precision::Days.finer_than(Precision::Hours));
}

#[test]
fn ticks_to_next_boundary() {
    let now = time(23, 30, 15, 250_000_000);
    assert_eq!(Precision::Seconds.tick(now), 750_000_000);
    assert_eq!(Precision::Minutes.tick(now), 44_750_000_000);
    assert_eq!(Precision::Hours.tick(now), 1_784_750_000_000);
    assert_eq!(Precision::Days.tick(now), 1_784_750_000_000);
    assert_eq!(Precision::Days.tick(time(23, 0, 0, 0)), 3_600_000_000_000);
    assert_eq!(Precision::Hours.tick(time(0, 0, 0, 0)), 3_600_000_000_000);
    assert_eq!(Precision::Seconds.tick(time(0, 0, 0, 1_500_000_000)), 500_000_000);
}

#[test]
fn precision_types_tick_like_their_units() {
    let now = time(10, 5, 59, 1);
    assert_eq!(<Days as precision::Precision>::tick(now), Precision::Days.tick(now));
    assert_eq!(<Hours as precision::Precision>::tick(now), Precision::Hours.tick(now));
    assert_eq!(<Minutes as precision::Precision>::tick(now), 999_999_999);
    assert_eq!(<Seconds as precision::Precision>::tick(now), 999_999_999);
}

#[test]
fn reset_delay_subtracts_offset() {
    assert_eq!(reset_delay(1000, 1), 999);
    assert_eq!(reset_delay(1000, 1000), 0);
    assert_eq!(reset_delay(5, 6), 5);
}

#[test]
fn clock_cycles_formats() {
    let precisions = vec![Precision::Minutes, Precision::Seconds, Precision::Days];
    let state = ClockState { idx: 0, len: 3, precision: Precision::Minutes };
    let actions = Actions { left: Some("cycle".to_string()), right: Some("cycle_back".to_string()), ..Actions::default() };
    let step = clock_step(state, &precisions, &actions, &ClockEvent::Action(Some("cycle".to_string())));
    assert_eq!(step.state, ClockState { idx: 1, len: 3, precision: Precision::Seconds });
    assert_eq!(step.response, Some(EventResponse::Success));
    assert!(step.wake);
    let back = clock_step(step.state, &precisions, &actions, &ClockEvent::Mouse(MouseButton::Right));
    assert_eq!(back.state, state);
    assert!(!back.wake);
    let wrap = clock_step(state, &precisions, &actions, &ClockEvent::Action(Some("cycle_back".to_string())));
    assert_eq!(wrap.state.idx, 2);
    let forward = clock_step(wrap.state, &precisions, &actions, &ClockEvent::Action(Some("cycle".to_string())));
    assert_eq!(forward.state, state);
}

#[test]
fn clock_answers_unknown_actions() {
    let precisions = vec![Precision::Seconds];
    let state = ClockState { idx: 0, len: 1, precision: Precision::Seconds };
    let step = clock_step(state, &precisions, &Actions::default(), &ClockEvent::Action(Some("jump".to_string())));
    assert_eq!(step.state, state);
    assert_eq!(step.response, Some(EventResponse::Failure("Unknown event jump".to_string())));
    let none = clock_step(state, &precisions, &Actions::default(), &ClockEvent::Mouse(MouseButton::Left));
    assert_eq!(none.response, None);
}

#[test]
fn clock_precisions_from_config() {
    let arr = vec![Some("days".to_string()), None, Some("bogus".to_string())];
    assert_eq!(
        clock_precisions(Some(&arr), Some("hours"), 3),
        Some(vec![Precision::Days, Precision::Seconds, Precision::Seconds])
    );
    assert_eq!(clock_precisions(Some(&arr), Some("hours"), 2), None);
    assert_eq!(clock_precisions(None, Some("MINUTES"), 2), Some(vec![Precision::Minutes, Precision::Minutes]));
    assert_eq!(clock_precisions(None, Some("bogus"), 2), Some(vec![Precision::Seconds, Precision::Seconds]));
    assert_eq!(clock_precisions(None, None, 2), Some(vec![Precision::Seconds, Precision::Seconds]));
}

#[test]
fn clock_formats_from_config() {
    assert_eq!(clock_formats(None), vec!["%Y-%m-%d %T".to_string()]);
    let arr = vec![Some("%H".to_string()), None, Some("%M".to_string())];
    assert_eq!(clock_formats(Some(&arr)), vec!["%H".to_string(), "%M".to_string()]);
    assert_eq!(clock_formats(Some(&vec![])), Vec::<String>::new());
}

fn battery_formats() -> BatteryFormats {
    BatteryFormats {
        charging: "CHR %percentage%%".to_string(),
        discharging: "BAT %percentage%% %ramp%".to_string(),
        not_charging: "NC %percentage%".to_string(),
        full: "FULL".to_string(),
        unknown: "? %percentage%".to_string(),
    }
}

#[test]
fn battery_texts() {
    let f = battery_formats();
    let r = ramp(&["low", "mid", "high"]);
    assert_eq!(battery_text(&f, None, "42\n", Some("Charging\n"), &r), Ok("CHR 42%".to_string()));
    assert_eq!(battery_text(&f, None, "90", Some("Discharging"), &r), Ok("BAT 90% high".to_string()));
    assert_eq!(battery_text(&f, Some(80), "90", None, &r), Ok("FULL".to_string()));
    assert_eq!(battery_text(&f, None, "50", Some("Weird"), &r), Ok("Unknown battery state".to_string()));
    assert_eq!(battery_text(&f, None, "abc", Some("Full"), &r), Err(BatteryError::InvalidCapacity));
    assert_eq!(battery_text(&f, None, "300", Some("Full"), &r), Err(BatteryError::InvalidCapacity));
    assert_eq!(battery_text(&f, Some(95), "50", None, &r), Err(BatteryError::StatusUnavailable));
}

#[test]
fn temperature_text() {
    let r = ramp(&["cold", "hot"]);
    assert_eq!(temp_text("%temp%°C %ramp%", "45678\n", &r), Some("45°C cold".to_string()));
    assert_eq!(temp_text("%temp%", "150000", &r), Some("150".to_string()));
    assert_eq!(temp_text("%temp%", "oops", &r), None);
    assert_eq!(temp_text("%temp%", "5000000000", &r), None);
}

#[test]
fn github_counts() {
    assert_eq!(github_text("%count%", true, 0), "0");
    assert_eq!(github_text("%count%", false, 0), "");
    assert_eq!(github_text("n=%count%", false, 7), "n=7");
    assert_eq!(github_text("%count%", false, 50), "50+");
    let reasons = vec!["mention".to_string(), "subscribed".to_string(), "mention".to_string()];
    let filter = vec!["mention".to_string()];
    assert_eq!(count_notifications(&reasons, &filter, true), 2);
    assert_eq!(count_notifications(&reasons, &filter, false), 1);
    assert_eq!(poll_interval(Some("120")), 120);
    assert_eq!(poll_interval(Some("x")), 60);
    assert_eq!(poll_interval(None), 60);
}

#[test]
fn simple_panel_texts() {
    assert_eq!(i3mode_text("[%mode%]", false, "default"), "[]");
    assert_eq!(i3mode_text("[%mode%]", true, "default"), "[default]");
    assert_eq!(i3mode_text("[%mode%]", false, "resize"), "[resize]");
    assert_eq!(inotify_text("f: %file%", "first\nsecond"), "f: first");
    assert_eq!(network_text("%ifname% %essid% %local_ip%", "%ifname% down", "wlan0", "home", Some("10.0.0.2")), "wlan0 home 10.0.0.2");
    assert_eq!(network_text("%ifname% up", "%ifname% down %essid%", "eth0", "", None), "eth0 down ");
}

#[test]
fn ping_average_and_text() {
    assert_eq!(average_millis(&vec![]), None);
    assert_eq!(average_millis(&vec![10_000_000, 20_000_000]), Some(15));
    assert_eq!(average_millis(&vec![1_999_999]), Some(1));
    let r = ramp(&["fast", "slow"]);
    assert_eq!(ping_text("%ping%ms %ramp%", "offline", Some(15), &r, None), "15ms fast");
    assert_eq!(ping_text("%ping%ms %ramp%", "offline", Some(1500), &r, Some(1000)), "1500ms slow");
    assert_eq!(ping_text("%ping%", "offline", None, &r, None), "offline");
}

#[test]
fn volume_steps() {
    assert_eq!(volume_up(0, 5), 3276);
    assert_eq!(volume_up(VOLUME_NORMAL - 10, 5), VOLUME_NORMAL);
    assert_eq!(volume_down(100, 5), 0);
    assert_eq!(volume_down(10000, 5), 10000 - 3276);
    let v = 20000;
    assert_eq!(volume_down(volume_up(v, 5), 5), v);
}

#[test]
fn pulseaudio_texts() {
    let unmuted = ramp(&["low", "high"]);
    let muted = ramp(&["mute"]);
    assert_eq!(pulseaudio_text("%ramp% %volume%%", "M", &unmuted, &muted, VOLUME_NORMAL, false, "100"), "high 100%");
    assert_eq!(pulseaudio_text("%ramp%", "M %ramp% %volume%", &unmuted, &muted, 0, true, "0"), "M mute 0");
    assert_eq!(sink_command("increment"), SinkCommand::Increment);
    assert_eq!(sink_command("decrement"), SinkCommand::Decrement);
    assert_eq!(sink_command("toggle"), SinkCommand::Toggle);
}

#[test]
fn ramp_from_table_stops_at_first_gap() {
    let entries = vec![
        ("1".to_string(), Some("b%{c}".to_string())),
        ("0".to_string(), Some("a".to_string())),
        ("x".to_string(), Some("?".to_string())),
        ("3".to_string(), Some("d".to_string())),
    ];
    let consts = vec![("c".to_string(), "!".to_string())];
    let r = Ramp::from_table(&entries, &consts);
    assert_eq!(r.len(), 2);
    assert_eq!(r.choose_icon(0, 0, 10), "a");
    assert_eq!(r.choose_icon(10, 0, 10), "b!");
    let no_string = vec![("0".to_string(), None), ("1".to_string(), Some("b".to_string()))];
    assert_eq!(Ramp::from_table(&no_string, &consts).len(), 0);
}

#[test]
fn custom_command_text() {
    assert_eq!(custom_text("out: %stdout% err: %stderr%\n", "ok\n", ""), "out: ok\n err:");
    assert_eq!(custom_text("  %stdout%  ", "  x  ", "y"), "x");
}

#[test]
fn pulseaudio_keeps_the_last_reading() {
    let mut last = (100u32, false);
    assert_eq!(pulseaudio_reading::<String>(&mut last, Ok(Some((200, true)))), Ok((200, true)));
    assert_eq!(last, (200, true));
    assert_eq!(pulseaudio_reading::<String>(&mut last, Ok(None)), Ok((200, true)));
    assert_eq!(last, (200, true));
    assert_eq!(pulseaudio_reading(&mut last, Err("gone".to_string())), Err("gone".to_string()));
    assert_eq!(last, (200, true));
}

#[test]
fn clock_anticipates_its_offset() {
    // the default offset is one millisecond
    assert_eq!(redraw_delay(Precision::Seconds, time(12, 0, 0, 0), None), 999_000_000);
    assert_eq!(redraw_delay(Precision::Minutes, time(12, 0, 30, 0), Some(500)), 29_500_000_000);
    // an offset longer than the wait is not taken off
    assert_eq!(redraw_delay(Precision::Seconds, time(12, 0, 0, 999_999_000), Some(5)), 1_000);
}

#[test]
fn sink_commands_change_the_sink() {
    let volumes = vec![0u32, 60_000, 65_536];
    let (change, response) = sink_step(&SinkCommand::Increment, Some((&volumes, false)), 5);
    assert_eq!(change, Some(SinkChange::Volumes(vec![3_276, 63_276, 65_536])));
    assert_eq!(response, EventResponse::Success);
    let (change, response) = sink_step(&SinkCommand::Decrement, Some((&volumes, false)), 5);
    assert_eq!(change, Some(SinkChange::Volumes(vec![0, 56_724, 62_260])));
    assert_eq!(response, EventResponse::Success);
    let (change, response) = sink_step(&SinkCommand::Toggle, Some((&volumes, true)), 5);
    assert_eq!(change, Some(SinkChange::Mute(false)));
    assert_eq!(response, EventResponse::Success);
    let (change, response) = sink_step(&SinkCommand::Toggle, None, 5);
    assert_eq!(change, None);
    assert_eq!(response, EventResponse::Success);
    let (change, response) = sink_step(&sink_command("louder"), Some((&volumes, false)), 5);
    assert_eq!(change, None);
    assert_eq!(response, EventResponse::Failure("Unknown event louder".to_string()));
}
