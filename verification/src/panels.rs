//! The text that the panels show, computed from the data that they read.
use vstd::prelude::*;
use vstd::string::*;

use crate::ramp::{ramp_index, Ramp};
use crate::types::EventResponse;
use crate::text::{decimal, decimal_string, first_line, first_line_of, opt_str, owned, parse_u64, parsed_unsigned, replace_all, replaced, same_text, trim, trimmed};

verus! {

/// The icon that a ramp shows for a value in a range.
pub open spec fn ramp_icon(r: Ramp, value: int, min: int, max: int) -> Seq<char> {
    r.icons_view()[ramp_index(value, min, max, r.icons_view().len() as int)]@
}

/// The format strings of the battery panel, one per battery state.
#[derive(Debug, Clone)]
pub struct BatteryFormats {
    /// Used while the battery is charging
    pub charging: String,
    /// Used while the battery is discharging
    pub discharging: String,
    /// Used while the battery is not charging
    pub not_charging: String,
    /// Used while the battery is full, or above `full_at`
    pub full: String,
    /// Used while the battery state is unknown
    pub unknown: String,
}

/// Why the battery panel cannot show its text.
#[derive(Debug, Clone, Copy, PartialEq, Eq, Structural)]
pub enum BatteryError {
    /// The capacity is not a number from 0 to 255
    InvalidCapacity,
    /// The status of the battery was needed and could not be read
    StatusUnavailable,
}

/// The format that the battery panel uses for a status: `None` for an
/// unrecognized status.
pub open spec fn battery_format_for(f: BatteryFormats, status: Seq<char>) -> Option<Seq<char>> {
    if status == "Charging"@ {
        Some(f.charging@)
    } else if status == "Discharging"@ {
        Some(f.discharging@)
    } else if status == "Not charging"@ {
        Some(f.not_charging@)
    } else if status == "Full"@ {
        Some(f.full@)
    } else if status == "Unknown"@ {
        Some(f.unknown@)
    } else {
        None
    }
}

/// The text of the battery panel. The capacity and the status are the
/// contents of the battery's `capacity` and `status` files; the status is
/// read only where the capacity is not above `full_at`. `%percentage%` is
/// replaced by the capacity and `%ramp%` by the icon of the ramp for the
/// capacity between 0 and 100; an unrecognized status shows
/// `Unknown battery state`.
pub open spec fn battery_text_of(
    f: BatteryFormats,
    full_at: Option<u8>,
    capacity: Seq<char>,
    status: Option<Seq<char>>,
    ramp: Ramp,
) -> Result<Seq<char>, BatteryError> {
    let cap = trimmed(capacity);
    match parsed_unsigned(cap, 255) {
        None => Err(BatteryError::InvalidCapacity),
        Some(v) => {
            let above = match full_at {
                Some(fa) => v > fa,
                None => false,
            };
            let icon = ramp_icon(ramp, v as int, 0, 100);
            if above {
                Ok(replaced(replaced(f.full@, "%percentage%"@, cap), "%ramp%"@, icon))
            } else {
                match status {
                    None => Err(BatteryError::StatusUnavailable),
                    Some(st) => match battery_format_for(f, trimmed(st)) {
                        Some(fmt) => Ok(replaced(replaced(fmt, "%percentage%"@, cap), "%ramp%"@, icon)),
                        None => Ok(replaced("Unknown battery state"@, "%ramp%"@, icon)),
                    },
                }
            }
        },
    }
}

/// Each status that the battery reports selects the format of the same
/// name, and no other status selects a format.
pub proof fn law_battery_formats(f: BatteryFormats, status: Seq<char>)
    ensures
        battery_format_for(f, "Charging"@) == Some(f.charging@),
        battery_format_for(f, "Discharging"@) == Some(f.discharging@),
        battery_format_for(f, "Not charging"@) == Some(f.not_charging@),
        battery_format_for(f, "Full"@) == Some(f.full@),
        battery_format_for(f, "Unknown"@) == Some(f.unknown@),
        battery_format_for(f, status) is Some <==> status == "Charging"@ || status == "Discharging"@
            || status == "Not charging"@ || status == "Full"@ || status == "Unknown"@,
{
    reveal_strlit("Charging");
    reveal_strlit("Discharging");
    reveal_strlit("Not charging");
    reveal_strlit("Full");
    reveal_strlit("Unknown");
    assert("Charging"@[0] == 'C');
    assert("Discharging"@[0] == 'D');
    assert("Not charging"@[0] == 'N');
    assert("Full"@[0] == 'F');
    assert("Unknown"@[0] == 'U');
}

fn battery_format_exec<'a>(f: &'a BatteryFormats, status: &str) -> (r: Option<&'a str>)
    ensures
        match r {
            Some(x) => battery_format_for(*f, status@) == Some(x@),
            None => battery_format_for(*f, status@) is None,
        },
{
    if same_text(status, "Charging") {
        Some(f.charging.as_str())
    } else if same_text(status, "Discharging") {
        Some(f.discharging.as_str())
    } else if same_text(status, "Not charging") {
        Some(f.not_charging.as_str())
    } else if same_text(status, "Full") {
        Some(f.full.as_str())
    } else if same_text(status, "Unknown") {
        Some(f.unknown.as_str())
    } else {
        None
    }
}

/// The text of the battery panel; see [`battery_text_of`].
pub fn battery_text(
    formats: &BatteryFormats,
    full_at: Option<u8>,
    capacity: &str,
    status: Option<&str>,
    ramp: &Ramp,
) -> (r: Result<String, BatteryError>)
    requires
        ramp.icons_view().len() > 0,
    ensures
        match r {
            Ok(t) => battery_text_of(*formats, full_at, capacity@, opt_str(status), *ramp) == Ok::<Seq<char>, BatteryError>(t@),
            Err(e) => battery_text_of(*formats, full_at, capacity@, opt_str(status), *ramp) == Err::<Seq<char>, BatteryError>(e),
        },
{
    let cap = trim(capacity);
    let v = match parse_u64(cap) {
        Some(v) => v,
        None => return Err(BatteryError::InvalidCapacity),
    };
    if v > 255 {
        return Err(BatteryError::InvalidCapacity);
    }
    let above = match full_at {
        Some(fa) => v > fa as u64,
        None => false,
    };
    let icon = ramp.choose_icon(v as u32, 0, 100);
    if above {
        let t = replace_all(formats.full.as_str(), "%percentage%", cap);
        return Ok(replace_all(t.as_str(), "%ramp%", icon.as_str()));
    }
    let st = match status {
        None => return Err(BatteryError::StatusUnavailable),
        Some(s) => trim(s),
    };
    match battery_format_exec(formats, st) {
        Some(fmt) => {
            let t = replace_all(fmt, "%percentage%", cap);
            Ok(replace_all(t.as_str(), "%ramp%", icon.as_str()))
        },
        None => Ok(replace_all("Unknown battery state", "%ramp%", icon.as_str())),
    }
}

/// The text of the temperature panel: the zone's `temp` file holds
/// millidegrees; `%temp%` is replaced by whole degrees and `%ramp%` by the
/// icon of the ramp for the degrees between 0 and 200. `None` where the file
/// does not hold a number that fits in 32 bits.
pub open spec fn temp_text_of(format: Seq<char>, raw: Seq<char>, ramp: Ramp) -> Option<Seq<char>> {
    match parsed_unsigned(trimmed(raw), u32::MAX as nat) {
        None => None,
        Some(m) => {
            let t = m / 1000;
            Some(replaced(replaced(format, "%temp%"@, decimal(t)), "%ramp%"@, ramp_icon(ramp, t as int, 0, 200)))
        },
    }
}

/// The text of the temperature panel; see [`temp_text_of`].
pub fn temp_text(format: &str, raw: &str, ramp: &Ramp) -> (r: Option<String>)
    requires
        ramp.icons_view().len() > 0,
    ensures
        match r {
            Some(t) => temp_text_of(format@, raw@, *ramp) == Some(t@),
            None => temp_text_of(format@, raw@, *ramp) is None,
        },
{
    let m = match parse_u64(trim(raw)) {
        Some(m) => m,
        None => return None,
    };
    if m > 0xffff_ffff {
        return None;
    }
    let t = m / 1000;
    let digits = decimal_string(t as u128);
    let a = replace_all(format, "%temp%", digits.as_str());
    let icon = ramp.choose_icon(t as u32, 0, 200);
    Some(replace_all(a.as_str(), "%ramp%", icon.as_str()))
}

/// The text of the GitHub panel for `count` notifications: nothing where zero
/// is not shown, else the format with `%count%` replaced; a `+` is added at
/// 50, the most that one request returns.
pub open spec fn github_text_of(format: Seq<char>, show_zero: bool, count: nat) -> Seq<char> {
    let base = if !show_zero && count == 0 {
        Seq::empty()
    } else {
        replaced(format, "%count%"@, decimal(count))
    };
    if count == 50 {
        base.push('+')
    } else {
        base
    }
}

/// The text of the GitHub panel; see [`github_text_of`].
pub fn github_text(format: &str, show_zero: bool, count: u64) -> (r: String)
    ensures
        r@ == github_text_of(format@, show_zero, count as nat),
{
    let mut t = if !show_zero && count == 0 {
        String::new()
    } else {
        let d = decimal_string(count as u128);
        replace_all(format, "%count%", d.as_str())
    };
    if count == 50 {
        proof {
            reveal_strlit("+");
        }
        t.append("+");
    }
    t
}

/// Whether a notification with this reason is counted: where `keep_listed`
/// holds, the reasons in `filter` are counted; otherwise all other reasons.
pub open spec fn reason_counted(filter: Seq<String>, keep_listed: bool, reason: Seq<char>) -> bool {
    keep_listed == (exists|i: int| 0 <= i < filter.len() && filter[i]@ == reason)
}

/// The number of reasons among the first `k` that are counted.
pub open spec fn counted_prefix(reasons: Seq<String>, filter: Seq<String>, keep_listed: bool, k: int) -> nat
    decreases k,
{
    if k <= 0 {
        0
    } else {
        counted_prefix(reasons, filter, keep_listed, k - 1) + if reason_counted(filter, keep_listed, reasons[k - 1]@) {
            1nat
        } else {
            0nat
        }
    }
}

fn filter_contains(filter: &Vec<String>, reason: &str) -> (r: bool)
    ensures
        r == (exists|i: int| 0 <= i < filter@.len() && filter@[i]@ == reason@),
{
    let mut i: usize = 0;
    while i < filter.len()
        invariant
            i <= filter.len(),
            forall|j: int| 0 <= j < i ==> filter@[j]@ != reason@,
        decreases filter.len() - i,
    {
        if same_text(filter[i].as_str(), reason) {
            return true;
        }
        i = i + 1;
    }
    false
}

/// Counts the notifications whose reasons are counted; see
/// [`reason_counted`].
pub fn count_notifications(reasons: &Vec<String>, filter: &Vec<String>, keep_listed: bool) -> (r: usize)
    ensures
        r as nat == counted_prefix(reasons@, filter@, keep_listed, reasons@.len() as int),
{
    let mut count: usize = 0;
    let mut i: usize = 0;
    while i < reasons.len()
        invariant
            i <= reasons.len(),
            count <= i,
            count as nat == counted_prefix(reasons@, filter@, keep_listed, i as int),
        decreases reasons.len() - i,
    {
        if !(keep_listed ^ filter_contains(filter, reasons[i].as_str())) {
            count = count + 1;
        }
        i = i + 1;
    }
    count
}

/// How many seconds to wait before the next request: the `X-Poll-Interval`
/// header where it holds a number, else 60.
pub open spec fn poll_interval_of(header: Option<Seq<char>>) -> nat {
    match header {
        Some(h) => match parsed_unsigned(h, u64::MAX as nat) {
            Some(v) => v,
            None => 60,
        },
        None => 60,
    }
}

/// How many seconds to wait before the next request; see
/// [`poll_interval_of`].
pub fn poll_interval(header: Option<&str>) -> (r: u64)
    ensures
        r as nat == poll_interval_of(opt_str(header)),
{
    match header {
        Some(h) => match parse_u64(h) {
            Some(v) => v,
            None => 60,
        },
        None => 60,
    }
}

/// The text of the i3 mode panel: `%mode%` is replaced by the mode, or by
/// nothing for the `default` mode unless it is shown.
pub open spec fn i3mode_text_of(format: Seq<char>, show_default: bool, mode: Seq<char>) -> Seq<char> {
    let m = if !show_default && mode == "default"@ {
        Seq::empty()
    } else {
        mode
    };
    replaced(format, "%mode%"@, m)
}

/// The text of the i3 mode panel; see [`i3mode_text_of`].
pub fn i3mode_text(format: &str, show_default: bool, mode: &str) -> (r: String)
    ensures
        r@ == i3mode_text_of(format@, show_default, mode@),
{
    if !show_default && same_text(mode, "default") {
        proof {
            reveal_strlit("");
            assert(""@ =~= Seq::<char>::empty());
        }
        replace_all(format, "%mode%", "")
    } else {
        replace_all(format, "%mode%", mode)
    }
}

/// The text of the inotify panel: `%file%` is replaced by the first line of
/// the file.
pub open spec fn inotify_text_of(format: Seq<char>, contents: Seq<char>) -> Seq<char> {
    replaced(format, "%file%"@, first_line(contents))
}

/// The text of the inotify panel; see [`inotify_text_of`].
pub fn inotify_text(format: &str, contents: &str) -> (r: String)
    ensures
        r@ == inotify_text_of(format@, contents@),
{
    replace_all(format, "%file%", first_line_of(contents))
}

/// The text of the network panel. Where the interface has an address, the
/// connected format has `%ifname%`, `%essid%` and `%local_ip%` replaced in
/// that order; otherwise the disconnected format has `%ifname%` and
/// `%essid%` replaced.
pub open spec fn network_text_of(
    connected: Seq<char>,
    disconnected: Seq<char>,
    if_name: Seq<char>,
    essid: Seq<char>,
    ip: Option<Seq<char>>,
) -> Seq<char> {
    match ip {
        None => replaced(replaced(disconnected, "%ifname%"@, if_name), "%essid%"@, essid),
        Some(a) => replaced(
            replaced(replaced(connected, "%ifname%"@, if_name), "%essid%"@, essid),
            "%local_ip%"@,
            a,
        ),
    }
}

/// The text of the network panel; see [`network_text_of`]. The ESSID is
/// given with its markup already escaped.
pub fn network_text(connected: &str, disconnected: &str, if_name: &str, essid: &str, ip: Option<&str>) -> (r: String)
    ensures
        r@ == network_text_of(connected@, disconnected@, if_name@, essid@, opt_str(ip)),
{
    match ip {
        None => {
            let a = replace_all(disconnected, "%ifname%", if_name);
            replace_all(a.as_str(), "%essid%", essid)
        },
        Some(addr) => {
            let a = replace_all(connected, "%ifname%", if_name);
            let b = replace_all(a.as_str(), "%essid%", essid);
            replace_all(b.as_str(), "%local_ip%", addr)
        },
    }
}

/// The sum of the round trip times, in nanoseconds.
pub open spec fn sum_nanos(rtts: Seq<u64>) -> nat
    decreases rtts.len(),
{
    if rtts.len() == 0 {
        0
    } else {
        sum_nanos(rtts.drop_last()) + rtts.last() as nat
    }
}

/// The average of the round trip times in whole milliseconds, as the ping
/// panel computes it by dividing the sum of the times by their number; `None`
/// where no ping came back.
pub open spec fn average_millis_of(rtts: Seq<u64>) -> Option<nat> {
    if rtts.len() == 0 {
        None
    } else {
        Some(sum_nanos(rtts) / (rtts.len() * 1_000_000))
    }
}

/// The average of the round trip times, in nanoseconds each; see
/// [`average_millis_of`].
pub fn average_millis(rtts: &Vec<u64>) -> (r: Option<u128>)
    requires
        rtts.len() < 0x1_0000_0000,
    ensures
        match r {
            Some(v) => average_millis_of(rtts@) == Some(v as nat),
            None => average_millis_of(rtts@) is None,
        },
{
    if rtts.len() == 0 {
        return None;
    }
    let mut total: u128 = 0;
    let mut i: usize = 0;
    while i < rtts.len()
        invariant
            i <= rtts.len(),
            rtts.len() < 0x1_0000_0000,
            total as nat == sum_nanos(rtts@.take(i as int)),
            total <= i * 0x1_0000_0000_0000_0000,
        decreases rtts.len() - i,
    {
        proof {
            assert(rtts@.take(i + 1).drop_last() =~= rtts@.take(i as int));
        }
        total = total + rtts[i] as u128;
        i = i + 1;
    }
    proof {
        assert(rtts@.take(rtts.len() as int) =~= rtts@);
    }
    let count = rtts.len() as u128;
    Some(total / (count * 1_000_000))
}

/// The text of the ping panel. Where a ping came back, the first format has
/// `%ping%` replaced by the milliseconds and `%ramp%` by the icon of the ramp
/// for the milliseconds (cut to 32 bits) between 0 and `max_ping` (2000 where
/// unset, and at most 2000); otherwise the second format is shown.
pub open spec fn ping_text_of(connected: Seq<char>, disconnected: Seq<char>, ping: Option<nat>, ramp: Ramp, max_ping: Option<u32>) -> Seq<char> {
    match ping {
        None => disconnected,
        Some(p) => {
            let hi: int = match max_ping {
                Some(m) => if m > 2000 { 2000 } else { m as int },
                None => 2000,
            };
            replaced(replaced(connected, "%ping%"@, decimal(p)), "%ramp%"@, ramp_icon(ramp, (p % 0x1_0000_0000) as int, 0, hi))
        },
    }
}

/// The text of the ping panel; see [`ping_text_of`].
pub fn ping_text(connected: &str, disconnected: &str, ping: Option<u128>, ramp: &Ramp, max_ping: Option<u32>) -> (r: String)
    requires
        ramp.icons_view().len() > 0,
    ensures
        r@ == ping_text_of(connected@, disconnected@, match ping { Some(p) => Some(p as nat), None => None }, *ramp, max_ping),
{
    match ping {
        None => owned(disconnected),
        Some(p) => {
            let hi: u32 = match max_ping {
                Some(m) => if m > 2000 { 2000 } else { m },
                None => 2000,
            };
            let d = decimal_string(p);
            let a = replace_all(connected, "%ping%", d.as_str());
            let icon = ramp.choose_icon((p % 0x1_0000_0000) as u32, 0, hi);
            replace_all(a.as_str(), "%ramp%", icon.as_str())
        },
    }
}

/// The volume at which a sink is at 100%.
pub const VOLUME_NORMAL: u32 = 0x10000;

/// The volume after one step up: `unit` percent more, at most 100%.
pub open spec fn volume_up_of(v: int, unit: int) -> int {
    let raised = v + unit * 0x10000 / 100;
    if raised < 0x10000 {
        raised
    } else {
        0x10000
    }
}

/// The volume after one step down: `unit` percent less, at least silence.
pub open spec fn volume_down_of(v: int, unit: int) -> int {
    let lowered = v - unit * 0x10000 / 100;
    if lowered > 0 {
        lowered
    } else {
        0
    }
}

/// Raises a volume by `unit` percent, to at most 100%.
pub fn volume_up(v: u32, unit: u32) -> (r: u32)
    requires
        unit as int * 0x10000 <= u32::MAX,
        v + unit as int * 0x10000 / 100 <= u32::MAX,
    ensures
        r as int == volume_up_of(v as int, unit as int),
{
    let raised = v + unit * VOLUME_NORMAL / 100;
    if raised < VOLUME_NORMAL {
        raised
    } else {
        VOLUME_NORMAL
    }
}

/// Lowers a volume by `unit` percent, to at least silence.
pub fn volume_down(v: u32, unit: u32) -> (r: u32)
    requires
        unit as int * 0x10000 <= u32::MAX,
    ensures
        r as int == volume_down_of(v as int, unit as int),
{
    v.saturating_sub(unit * VOLUME_NORMAL / 100)
}

/// The text of the pulseaudio panel: the muted or unmuted format and ramp,
/// by the mute status, with `%ramp%` replaced by the icon of the ramp for the
/// volume between silence and 100%, then `%volume%` by the volume as text.
pub open spec fn pulseaudio_text_of(
    unmuted: Seq<char>,
    muted: Seq<char>,
    ramp_unmuted: Ramp,
    ramp_muted: Ramp,
    volume: u32,
    mute: bool,
    volume_text: Seq<char>,
) -> Seq<char> {
    let (format, ramp) = if mute { (muted, ramp_muted) } else { (unmuted, ramp_unmuted) };
    replaced(replaced(format, "%ramp%"@, ramp_icon(ramp, volume as int, 0, 0x10000)), "%volume%"@, volume_text)
}

/// The text of the pulseaudio panel; see [`pulseaudio_text_of`].
pub fn pulseaudio_text(
    unmuted: &str,
    muted: &str,
    ramp_unmuted: &Ramp,
    ramp_muted: &Ramp,
    volume: u32,
    mute: bool,
    volume_text: &str,
) -> (r: String)
    requires
        ramp_unmuted.icons_view().len() > 0,
        ramp_muted.icons_view().len() > 0,
    ensures
        r@ == pulseaudio_text_of(unmuted@, muted@, *ramp_unmuted, *ramp_muted, volume, mute, volume_text@),
{
    let (format, ramp) = if mute { (muted, ramp_muted) } else { (unmuted, ramp_unmuted) };
    let icon = ramp.choose_icon(volume, 0, VOLUME_NORMAL);
    let a = replace_all(format, "%ramp%", icon.as_str());
    replace_all(a.as_str(), "%volume%", volume_text)
}

/// What the pulseaudio panel does for an action.
#[derive(Debug, Clone, PartialEq, Eq)]
pub enum SinkCommand {
    /// Raise the volume of the sink by one step
    Increment,
    /// Lower the volume of the sink by one step
    Decrement,
    /// Mute or unmute the sink
    Toggle,
    /// Answer that the event is unknown, with this reason
    Unknown(String),
}

/// The reason that an unknown command carries; `None` for the three known
/// commands, which the contract of [`sink_command`] names directly.
pub open spec fn sink_command_view(c: SinkCommand) -> Option<Seq<char>> {
    match c {
        SinkCommand::Unknown(reason) => Some(reason@),
        _ => None,
    }
}

/// Reads an action of the pulseaudio panel: `increment`, `decrement` and
/// `toggle`; any other action is unknown.
pub fn sink_command(action: &str) -> (r: SinkCommand)
    ensures
        action@ == "increment"@ ==> r == SinkCommand::Increment,
        action@ == "decrement"@ ==> r == SinkCommand::Decrement,
        action@ == "toggle"@ ==> r == SinkCommand::Toggle,
        action@ != "increment"@ && action@ != "decrement"@ && action@ != "toggle"@
            ==> sink_command_view(r) == Some("Unknown event "@ + action@),
{
    proof {
        reveal_strlit("increment");
        reveal_strlit("decrement");
        reveal_strlit("toggle");
        assert("decrement"@[0] != "increment"@[0]);
        assert("toggle"@[0] != "increment"@[0]);
        assert("toggle"@[0] != "decrement"@[0]);
    }
    if same_text(action, "increment") {
        SinkCommand::Increment
    } else if same_text(action, "decrement") {
        SinkCommand::Decrement
    } else if same_text(action, "toggle") {
        SinkCommand::Toggle
    } else {
        let mut reason = String::from_str("Unknown event ");
        reason.append(action);
        SinkCommand::Unknown(reason)
    }
}


/// What the pulseaudio panel asks of its sink after a command.
#[derive(Debug, Clone, PartialEq, Eq)]
pub enum SinkChange {
    /// Set the volumes of the sink's channels
    Volumes(Vec<u32>),
    /// Set the sink's mute status
    Mute(bool),
}

/// Whether the volumes of the sink's channels can be raised by `unit`
/// percent without leaving `u32`.
pub open spec fn volumes_can_rise(volumes: Seq<u32>, unit: int) -> bool {
    forall|i: int| 0 <= i < volumes.len() ==> #[trigger] volumes[i] + unit * 0x10000 / 100 <= u32::MAX
}

/// What a command of the pulseaudio panel does, given what the sink reports
/// (the volume of each channel and the mute status, or `None` where the
/// sink reports nothing): a step up or down sets each channel's volume one
/// step further, a toggle flips the mute status, and each is answered with
/// success, also where the sink reports nothing and is left alone; an
/// unknown command changes nothing and is answered with its reason.
pub fn sink_step(command: &SinkCommand, info: Option<(&Vec<u32>, bool)>, unit: u32) -> (r: (Option<SinkChange>, EventResponse))
    requires
        unit as int * 0x10000 <= u32::MAX,
        command is Increment ==> match info {
            Some((v, _)) => volumes_can_rise(v@, unit as int),
            None => true,
        },
    ensures
        match *command {
            SinkCommand::Increment => r.1 == EventResponse::Success && match info {
                Some((v, _)) => (r.0 matches Some(SinkChange::Volumes(w)) && w@.len() == v@.len()
                    && forall|i: int| 0 <= i < v@.len() ==> #[trigger] w@[i] as int == volume_up_of(v@[i] as int, unit as int)),
                None => r.0 is None,
            },
            SinkCommand::Decrement => r.1 == EventResponse::Success && match info {
                Some((v, _)) => (r.0 matches Some(SinkChange::Volumes(w)) && w@.len() == v@.len()
                    && forall|i: int| 0 <= i < v@.len() ==> #[trigger] w@[i] as int == volume_down_of(v@[i] as int, unit as int)),
                None => r.0 is None,
            },
            SinkCommand::Toggle => r.1 == EventResponse::Success && match info {
                Some((_, m)) => r.0 == Some(SinkChange::Mute(!m)),
                None => r.0 is None,
            },
            SinkCommand::Unknown(reason) => r.0 is None && (r.1 matches EventResponse::Failure(e) && e@ == reason@),
        },
{
    match command {
        SinkCommand::Increment | SinkCommand::Decrement => {
            let up = match command {
                SinkCommand::Increment => true,
                _ => false,
            };
            match info {
                Some((v, _)) => {
                    let mut w: Vec<u32> = Vec::new();
                    let mut i: usize = 0;
                    while i < v.len()
                        invariant
                            i <= v@.len(),
                            w@.len() == i,
                            unit as int * 0x10000 <= u32::MAX,
                            up == (*command is Increment),
                            up ==> volumes_can_rise(v@, unit as int),
                            forall|j: int| 0 <= j < i ==> #[trigger] w@[j] as int == if up {
                                volume_up_of(v@[j] as int, unit as int)
                            } else {
                                volume_down_of(v@[j] as int, unit as int)
                            },
                        decreases v@.len() - i,
                    {
                        let x = if up {
                            proof {
                                assert(v@[i as int] + unit * 0x10000 / 100 <= u32::MAX);
                            }
                            volume_up(v[i], unit)
                        } else {
                            volume_down(v[i], unit)
                        };
                        w.push(x);
                        i = i + 1;
                    }
                    (Some(SinkChange::Volumes(w)), EventResponse::Success)
                },
                None => (None, EventResponse::Success),
            }
        },
        SinkCommand::Toggle => match info {
            Some((_, m)) => (Some(SinkChange::Mute(!m)), EventResponse::Success),
            None => (None, EventResponse::Success),
        },
        SinkCommand::Unknown(reason) => (None, EventResponse::Failure(reason.clone())),
    }
}

/// A step up never goes above 100%, a step down never below silence, and
/// where a step up stays below 100% the step down after it gives the volume
/// back.
pub proof fn law_volume_steps(v: int, unit: int)
    requires
        0 <= v,
        0 <= unit,
    ensures
        volume_up_of(v, unit) <= 0x10000,
        volume_down_of(v, unit) >= 0,
        v + unit * 0x10000 / 100 < 0x10000 ==> volume_down_of(volume_up_of(v, unit), unit) == v,
{
    assert(unit * 0x10000 / 100 >= 0) by (nonlinear_arith)
        requires unit >= 0;
}


/// The text of the custom panel: `%stdout%` replaced by what its command
/// wrote to standard output, then `%stderr%` by what it wrote to standard
/// error, without leading and trailing white space.
pub open spec fn custom_text_of(format: Seq<char>, stdout: Seq<char>, stderr: Seq<char>) -> Seq<char> {
    trimmed(replaced(replaced(format, "%stdout%"@, stdout), "%stderr%"@, stderr))
}

/// The text of the custom panel; see [`custom_text_of`]. The command's
/// output is given as text, invalid UTF-8 already replaced.
pub fn custom_text(format: &str, stdout: &str, stderr: &str) -> (r: String)
    ensures
        r@ == custom_text_of(format@, stdout@, stderr@),
{
    let a = replace_all(format, "%stdout%", stdout);
    let b = replace_all(a.as_str(), "%stderr%", stderr);
    trim(b.as_str()).to_string()
}


/// Picks the reading that the pulseaudio panel shows: a new reading of the
/// volume and mute status becomes the last reading; where the sink did not
/// change, the last reading is shown again; an error is passed on and the
/// last reading kept.
pub fn pulseaudio_reading<E>(last: &mut (u32, bool), data: Result<Option<(u32, bool)>, E>) -> (r: Result<(u32, bool), E>)
    ensures
        match data {
            Ok(Some(d)) => r == Ok::<(u32, bool), E>(d) && *final(last) == d,
            Ok(None) => r == Ok::<(u32, bool), E>(*old(last)) && *final(last) == *old(last),
            Err(e) => r == Err::<(u32, bool), E>(e) && *final(last) == *old(last),
        },
{
    match data {
        Ok(Some(d)) => {
            *last = d;
            Ok(d)
        },
        Ok(None) => Ok(*last),
        Err(e) => Err(e),
    }
}

} // verus!
