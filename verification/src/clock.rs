//! The clock panel: how often it redraws and how it cycles through its
//! formats.
use vstd::prelude::*;
use vstd::string::*;

use crate::actions::{action_of, Actions};
use crate::bar::MouseButton;
use crate::text::{lowercase, opt_str, opt_text, same_text, to_lowercase};
use crate::types::EventResponse;

verus! {

/// How often a clock format needs to be redrawn.
#[derive(Debug, Clone, Copy, PartialEq, Eq, Structural)]
pub enum Precision {
    /// Redraw when the second changes
    Seconds,
    /// Redraw when the minute changes
    Minutes,
    /// Redraw when the hour changes
    Hours,
    /// Redraw when the day changes
    Days,
}

/// The order of the precisions, from the finest to the coarsest.
pub open spec fn precision_rank(p: Precision) -> int {
    match p {
        Precision::Seconds => 0,
        Precision::Minutes => 1,
        Precision::Hours => 2,
        Precision::Days => 3,
    }
}

/// The string was not one of `days`, `hours`, `minutes` and `seconds`.
#[derive(Debug, Clone, Copy, PartialEq, Eq, Structural)]
pub struct InvalidPrecision;

/// The precision that a configuration string names, in any case.
pub open spec fn precision_named(s: Seq<char>) -> Option<Precision> {
    let l = lowercase(s);
    if l == "days"@ {
        Some(Precision::Days)
    } else if l == "hours"@ {
        Some(Precision::Hours)
    } else if l == "minutes"@ {
        Some(Precision::Minutes)
    } else if l == "seconds"@ {
        Some(Precision::Seconds)
    } else {
        None
    }
}

/// The local time of day, as the clock reads it.
#[derive(Debug, Clone, Copy, PartialEq, Eq, Structural)]
pub struct TimeOfDay {
    /// The hour, from 0 to 23
    pub hour: u32,
    /// The minute, from 0 to 59
    pub minute: u32,
    /// The second, from 0 to 59
    pub second: u32,
    /// The nanosecond within the second (above 999_999_999 during a leap
    /// second)
    pub nanosecond: u32,
}

/// The number of nanoseconds from `now` to the next boundary of the unit of
/// precision `p`: the next second, minute, hour or midnight. A nanosecond
/// count above one second (during a leap second) counts modulo one second.
pub open spec fn tick_nanos(p: Precision, now: TimeOfDay) -> int {
    let ns = now.nanosecond % 1_000_000_000;
    match p {
        Precision::Seconds => 1_000_000_000 - ns,
        Precision::Minutes => (60 - now.second) * 1_000_000_000 - ns,
        Precision::Hours => (3600 - 60 * now.minute - now.second) * 1_000_000_000 - ns,
        Precision::Days => (86400 - 3600 * now.hour - 60 * now.minute - now.second) * 1_000_000_000 - ns,
    }
}

impl Precision {
    /// Parses a precision from its name, in any case.
    pub fn parse(s: &str) -> (r: Result<Precision, InvalidPrecision>)
        ensures
            r matches Ok(p) ==> precision_named(s@) == Some(p),
            r is Err ==> precision_named(s@) is None,
    {
        let l = to_lowercase(s);
        let l = l.as_str();
        if same_text(l, "days") {
            Ok(Precision::Days)
        } else if same_text(l, "hours") {
            Ok(Precision::Hours)
        } else if same_text(l, "minutes") {
            Ok(Precision::Minutes)
        } else if same_text(l, "seconds") {
            Ok(Precision::Seconds)
        } else {
            Err(InvalidPrecision)
        }
    }

    /// Whether `self` is finer than `other`.
    pub fn finer_than(self, other: Precision) -> (r: bool)
        ensures
            r == (precision_rank(self) < precision_rank(other)),
    {
        self.rank() < other.rank()
    }

    fn rank(self) -> (r: u8)
        ensures
            r as int == precision_rank(self),
    {
        match self {
            Precision::Seconds => 0,
            Precision::Minutes => 1,
            Precision::Hours => 2,
            Precision::Days => 3,
        }
    }

    /// How many nanoseconds until the next unit boundary, seen from `now`.
    pub fn tick(self, now: TimeOfDay) -> (r: u64)
        requires
            now.hour < 24,
            now.minute < 60,
            now.second < 60,
        ensures
            r as int == tick_nanos(self, now),
    {
        let ns = (now.nanosecond % 1_000_000_000) as u64;
        let h = now.hour as u64;
        let m = now.minute as u64;
        let s = now.second as u64;
        match self {
            Precision::Seconds => 1_000_000_000 - ns,
            Precision::Minutes => (60 - s) * 1_000_000_000 - ns,
            Precision::Hours => (3600 - 60 * m - s) * 1_000_000_000 - ns,
            Precision::Days => (86400 - 3600 * h - 60 * m - s) * 1_000_000_000 - ns,
        }
    }
}

/// How long the clock waits before its next redraw: the time to the next unit
/// boundary, less the anticipated delay where that leaves any time.
pub open spec fn reset_delay_of(duration: int, offset: int) -> int {
    if offset <= duration {
        duration - offset
    } else {
        duration
    }
}

/// How long the clock waits before its next redraw, in nanoseconds, given the
/// time to the next unit boundary and the anticipated delay.
pub fn reset_delay(duration: u128, offset: u128) -> (r: u128)
    ensures
        r as int == reset_delay_of(duration as int, offset as int),
{
    match duration.checked_sub(offset) {
        Some(d) => d,
        None => duration,
    }
}

/// The delay that a clock anticipates, in milliseconds: its `offset`
/// option, 1 where it is missing.
pub open spec fn offset_millis(offset: Option<u64>) -> int {
    match offset {
        Some(v) => v as int,
        None => 1,
    }
}

/// How long a clock waits, in nanoseconds, before it redraws at `now`: the
/// time to the next boundary of its precision, less the anticipated delay
/// where that leaves any time.
pub open spec fn redraw_delay_of(p: Precision, now: TimeOfDay, offset: Option<u64>) -> int {
    reset_delay_of(tick_nanos(p, now), offset_millis(offset) * 1_000_000)
}

/// How long a clock with the given precision and `offset` option waits
/// before it redraws at `now`; see [`redraw_delay_of`].
pub fn redraw_delay(p: Precision, now: TimeOfDay, offset: Option<u64>) -> (r: u128)
    requires
        now.hour < 24,
        now.minute < 60,
        now.second < 60,
    ensures
        r as int == redraw_delay_of(p, now, offset),
{
    let millis: u128 = match offset {
        Some(v) => v as u128,
        None => 1,
    };
    reset_delay(p.tick(now) as u128, millis * 1_000_000)
}

/// The state of a clock panel: which format it shows and at which precision
/// it redraws.
#[derive(Debug, Clone, Copy, PartialEq, Eq, Structural)]
pub struct ClockState {
    /// The index of the format that is shown
    pub idx: usize,
    /// The number of formats
    pub len: usize,
    /// The precision at which the clock redraws
    pub precision: Precision,
}

/// An event that reaches the clock panel.
#[derive(Debug, Clone, PartialEq, Eq)]
pub enum ClockEvent {
    /// A named action, or none where a button has no action
    Action(Option<String>),
    /// A mouse button
    Mouse(MouseButton),
}

/// What the clock does in answer to an event.
#[derive(Debug, Clone, PartialEq, Eq)]
pub struct ClockStep {
    /// The new state
    pub state: ClockState,
    /// The response to send, if any
    pub response: Option<EventResponse>,
    /// Whether the clock must redraw at once because its precision became
    /// finer
    pub wake: bool,
}

/// The state after cycling to the format at `new_idx`.
pub open spec fn cycled(s: ClockState, precisions: Seq<Precision>, new_idx: int) -> (ClockState, bool) {
    (
        ClockState { idx: new_idx as usize, len: s.len, precision: precisions[new_idx] },
        precision_rank(precisions[new_idx]) < precision_rank(s.precision),
    )
}

/// The response a panel sends, as seen in contracts: `None` for no
/// response, `Some(None)` for success and `Some(Some(reason))` for failure.
pub open spec fn response_view(r: Option<EventResponse>) -> Option<Option<Seq<char>>> {
    match r {
        None => None,
        Some(EventResponse::Success) => Some(None),
        Some(EventResponse::Failure(e)) => Some(Some(e@)),
    }
}

/// What the clock does with an action: `cycle` shows the next format,
/// `cycle_back` the previous one, and any other name is answered with an
/// error. The result is the new state, the response and whether to redraw at
/// once.
pub open spec fn clock_action(s: ClockState, precisions: Seq<Precision>, action: Option<Seq<char>>) -> (ClockState, Option<Option<Seq<char>>>, bool) {
    match action {
        None => (s, None, false),
        Some(a) => if a == "cycle"@ {
            let (t, w) = cycled(s, precisions, ((s.idx + 1) % (s.len as int)));
            (t, Some(None), w)
        } else if a == "cycle_back"@ {
            let (t, w) = cycled(s, precisions, ((s.idx + s.len - 1) % (s.len as int)));
            (t, Some(None), w)
        } else {
            (s, Some(Some("Unknown event "@ + a)), false)
        },
    }
}

/// The action of an event: the named action, or the one that the mouse
/// button runs.
pub open spec fn event_action(e: ClockEvent, actions: Actions) -> Option<Seq<char>> {
    match e {
        ClockEvent::Action(a) => match a {
            Some(x) => Some(x@),
            None => None,
        },
        ClockEvent::Mouse(b) => match action_of(actions, b) {
            Some(x) => Some(x@),
            None => None,
        },
    }
}

/// Whether a state is one that the clock can be in.
pub open spec fn clock_state_valid(s: ClockState, precisions: Seq<Precision>) -> bool {
    &&& 0 < s.len
    &&& s.idx < s.len
    &&& precisions.len() == s.len
}

/// Handles an event of the clock panel: a mouse button runs its action, and
/// the actions `cycle` and `cycle_back` change the format that is shown
/// together with the precision at which the clock redraws.
pub fn clock_step(state: ClockState, precisions: &Vec<Precision>, actions: &Actions, event: &ClockEvent) -> (r: ClockStep)
    requires
        clock_state_valid(state, precisions@),
    ensures
        r.state == clock_action(state, precisions@, event_action(*event, *actions)).0,
        response_view(r.response) == clock_action(state, precisions@, event_action(*event, *actions)).1,
        r.wake == clock_action(state, precisions@, event_action(*event, *actions)).2,
        clock_state_valid(r.state, precisions@),
{
    let ghost ev = *event;
    let action = match event {
        ClockEvent::Action(a) => a.clone(),
        ClockEvent::Mouse(b) => actions.action_for(*b),
    };
    proof {
        match ev {
            ClockEvent::Action(a) => {
                assert(action == a);
            },
            ClockEvent::Mouse(b) => {
                assert(action == action_of(*actions, b));
            },
        }
        assert(action is None <==> event_action(ev, *actions) is None);
        assert(action matches Some(x) ==> event_action(ev, *actions) == Some(x@));
    }
    match action {
        None => {
            assert(clock_action(state, precisions@, event_action(ev, *actions)) == (state, None::<Option<Seq<char>>>, false));
            ClockStep { state, response: None, wake: false }
        },
        Some(a) => {
            let new_idx = if same_text(a.as_str(), "cycle") {
                (state.idx + 1) % state.len
            } else if same_text(a.as_str(), "cycle_back") {
                proof {
                    let l = state.len as int;
                    let i = state.idx as int;
                    if i == 0 {
                        assert((i + l - 1) % l == l - 1) by (nonlinear_arith)
                            requires i == 0, l > 0;
                    } else {
                        assert((i + l - 1) % l == i - 1) by (nonlinear_arith)
                            requires 0 < i < l;
                    }
                }
                if state.idx == 0 {
                    state.len - 1
                } else {
                    state.idx - 1
                }
            } else {
                let mut msg = String::from_str("Unknown event ");
                msg.append(a.as_str());
                proof {
                    reveal_strlit("Unknown event ");
                }
                return ClockStep { state, response: Some(EventResponse::Failure(msg)), wake: false };
            };
            let p = precisions[new_idx];
            let wake = p.finer_than(state.precision);
            ClockStep {
                state: ClockState { idx: new_idx, len: state.len, precision: p },
                response: Some(EventResponse::Success),
                wake,
            }
        },
    }
}

/// The precision that an element of the `precisions` array names: an
/// element that is no string, or names no precision, counts as seconds.
pub open spec fn element_precision(e: Option<Seq<char>>) -> Precision {
    match e {
        Some(s) => match precision_named(s) {
            Some(p) => p,
            None => Precision::Seconds,
        },
        None => Precision::Seconds,
    }
}

/// The texts of a configuration array whose elements are strings or not.
pub open spec fn array_texts(array: Option<&Vec<Option<String>>>) -> Option<Seq<Option<Seq<char>>>> {
    match array {
        Some(a) => Some(a@.map_values(|e: Option<String>| opt_text(e))),
        None => None,
    }
}

/// The precisions of a clock with `formats_len` formats: from the
/// `precisions` array where it is given (its strings read as by
/// [`element_precision`]), which must then have one element per format
/// (`None` otherwise: the clock cannot be built); else the `precision`
/// string for every format, read in the same way, so that seconds are the
/// default.
pub open spec fn clock_precisions_of(array: Option<Seq<Option<Seq<char>>>>, single: Option<Seq<char>>, formats_len: nat) -> Option<Seq<Precision>> {
    match array {
        Some(a) => if a.len() == formats_len {
            Some(a.map_values(|e: Option<Seq<char>>| element_precision(e)))
        } else {
            None
        },
        None => Some(Seq::new(formats_len, |i: int| element_precision(single))),
    }
}

/// The precisions of a clock; see [`clock_precisions_of`]. The `precisions`
/// array is given with each element's string, or `None` for an element that
/// is no string; the `precision` string is only read where the array is
/// missing.
pub fn clock_precisions(array: Option<&Vec<Option<String>>>, single: Option<&str>, formats_len: usize) -> (r: Option<Vec<Precision>>)
    ensures
        match r {
            Some(v) => clock_precisions_of(array_texts(array), opt_str(single), formats_len as nat) == Some(v@),
            None => clock_precisions_of(array_texts(array), opt_str(single), formats_len as nat) is None,
        },
{
    match array {
        Some(a) => {
            if a.len() != formats_len {
                return None;
            }
            let ghost av = a@.map_values(|e: Option<String>| opt_text(e));
            let mut out: Vec<Precision> = Vec::new();
            let mut k: usize = 0;
            while k < a.len()
                invariant
                    k <= a@.len(),
                    av == a@.map_values(|e: Option<String>| opt_text(e)),
                    out@.len() == k,
                    forall|j: int| 0 <= j < k ==> #[trigger] out@[j] == element_precision(av[j]),
                decreases a@.len() - k,
            {
                let p = match &a[k] {
                    Some(s) => match Precision::parse(s.as_str()) {
                        Ok(p) => p,
                        Err(_) => Precision::Seconds,
                    },
                    None => Precision::Seconds,
                };
                out.push(p);
                k = k + 1;
            }
            proof {
                assert(out@ =~= av.map_values(|e: Option<Seq<char>>| element_precision(e)));
            }
            Some(out)
        },
        None => {
            let p = match single {
                Some(s) => match Precision::parse(s) {
                    Ok(p) => p,
                    Err(_) => Precision::Seconds,
                },
                None => Precision::Seconds,
            };
            let mut out: Vec<Precision> = Vec::new();
            let mut k: usize = 0;
            while k < formats_len
                invariant
                    k <= formats_len,
                    p == element_precision(opt_str(single)),
                    out@.len() == k,
                    forall|j: int| 0 <= j < k ==> #[trigger] out@[j] == p,
                decreases formats_len - k,
            {
                out.push(p);
                k = k + 1;
            }
            proof {
                assert(out@ =~= Seq::new(formats_len as nat, |i: int| element_precision(opt_str(single))));
            }
            Some(out)
        },
    }
}

/// The formats of a clock: the strings of the `formats` array where it is
/// given (elements that are no strings are dropped), else the one format
/// `%Y-%m-%d %T`.
pub open spec fn clock_formats_of(array: Option<Seq<Option<Seq<char>>>>) -> Seq<Seq<char>>
    decreases (match array { Some(a) => a.len(), None => 0 }),
{
    match array {
        None => seq!["%Y-%m-%d %T"@],
        Some(a) => if a.len() == 0 {
            Seq::empty()
        } else {
            let prev = clock_formats_of(Some(a.drop_last()));
            match a.last() {
                Some(s) => prev.push(s),
                None => prev,
            }
        },
    }
}

/// The formats of a clock; see [`clock_formats_of`].
pub fn clock_formats(array: Option<&Vec<Option<String>>>) -> (r: Vec<String>)
    ensures
        r@.map_values(|s: String| s@) == clock_formats_of(array_texts(array)),
{
    match array {
        None => {
            let v = vec!["%Y-%m-%d %T".to_string()];
            proof {
                assert(v@.map_values(|s: String| s@) =~= seq!["%Y-%m-%d %T"@]);
            }
            v
        },
        Some(a) => {
            let ghost av = a@.map_values(|e: Option<String>| opt_text(e));
            let mut out: Vec<String> = Vec::new();
            let mut k: usize = 0;
            while k < a.len()
                invariant
                    k <= a@.len(),
                    av == a@.map_values(|e: Option<String>| opt_text(e)),
                    out@.map_values(|s: String| s@) == clock_formats_of(Some(av.take(k as int))),
                decreases a@.len() - k,
            {
                proof {
                    assert(av.take(k + 1).drop_last() =~= av.take(k as int));
                }
                let ghost before = out@;
                match &a[k] {
                    Some(s) => {
                        out.push(s.clone());
                        proof {
                            assert(out@.map_values(|s: String| s@) =~= before.map_values(|s: String| s@).push(s@));
                        }
                    },
                    None => {},
                }
                k = k + 1;
            }
            proof {
                assert(av.take(k as int) =~= av);
            }
            out
        },
    }
}


/// Cycling forward and then back, or back and then forward, shows the same
/// format at the same precision as before.
pub proof fn law_cycle_then_back(s: ClockState, ps: Seq<Precision>)
    requires
        clock_state_valid(s, ps),
        s.precision == ps[s.idx as int],
    ensures
        clock_action(clock_action(s, ps, Some("cycle"@)).0, ps, Some("cycle_back"@)).0 == s,
        clock_action(clock_action(s, ps, Some("cycle_back"@)).0, ps, Some("cycle"@)).0 == s,
{
    reveal_strlit("cycle");
    reveal_strlit("cycle_back");
    assert("cycle"@.len() != "cycle_back"@.len());
    let l = s.len as int;
    let i = s.idx as int;
    if i + 1 < l {
        assert((i + 1) % l == i + 1) by (nonlinear_arith)
            requires 0 <= i + 1 < l;
        assert((i + 1 + l - 1) % l == i) by (nonlinear_arith)
            requires 0 <= i < l;
    } else {
        assert((i + 1) % l == 0) by (nonlinear_arith)
            requires i + 1 == l, l > 0;
        assert((0 + l - 1) % l == i) by (nonlinear_arith)
            requires i + 1 == l, l > 0;
    }
    if i > 0 {
        assert((i + l - 1) % l == i - 1) by (nonlinear_arith)
            requires 0 < i < l;
        assert((i - 1 + 1) % l == i) by (nonlinear_arith)
            requires 0 < i < l;
    } else {
        assert((i + l - 1) % l == l - 1) by (nonlinear_arith)
            requires i == 0, l > 0;
        assert((l - 1 + 1) % l == 0) by (nonlinear_arith)
            requires l > 0;
    }
}


/// The length of the unit of a precision, in nanoseconds.
pub open spec fn unit_nanos(p: Precision) -> int {
    match p {
        Precision::Seconds => 1_000_000_000,
        Precision::Minutes => 60_000_000_000,
        Precision::Hours => 3_600_000_000_000,
        Precision::Days => 86_400_000_000_000,
    }
}

/// The time to the next boundary is more than nothing and at most one unit,
/// and it is the time left in the current unit: the time already passed in
/// it plus the tick make up the whole unit.
pub proof fn law_tick_within_unit(p: Precision, now: TimeOfDay)
    requires
        now.hour < 24,
        now.minute < 60,
        now.second < 60,
    ensures
        0 < tick_nanos(p, now) <= unit_nanos(p),
        tick_nanos(p, now) + match p {
            Precision::Seconds => (now.nanosecond % 1_000_000_000) as int,
            Precision::Minutes => now.second * 1_000_000_000 + now.nanosecond % 1_000_000_000,
            Precision::Hours => (60 * now.minute + now.second) * 1_000_000_000 + now.nanosecond % 1_000_000_000,
            Precision::Days => (3600 * now.hour + 60 * now.minute + now.second) * 1_000_000_000
                + now.nanosecond % 1_000_000_000,
        } == unit_nanos(p),
{
}


/// The name of a precision in the configuration.
pub open spec fn precision_name(p: Precision) -> Seq<char> {
    match p {
        Precision::Days => "days"@,
        Precision::Hours => "hours"@,
        Precision::Minutes => "minutes"@,
        Precision::Seconds => "seconds"@,
    }
}

/// A string names a precision exactly where, in lower case, it is that
/// precision's name: `days`, `hours`, `minutes` or `seconds`.
pub proof fn law_precision_names(p: Precision, s: Seq<char>)
    ensures
        lowercase(s) == precision_name(p) ==> precision_named(s) == Some(p),
        precision_named(s) matches Some(q) ==> lowercase(s) == precision_name(q),
{
    reveal_strlit("days");
    reveal_strlit("hours");
    reveal_strlit("minutes");
    reveal_strlit("seconds");
    assert("days"@[0] == 'd' && "hours"@[0] == 'h' && "minutes"@[0] == 'm' && "seconds"@[0] == 's');
}


/// `cycle` moves to the next format, wrapping around after the last, and
/// `cycle_back` to the previous one, wrapping around before the first; each
/// takes the precision of its new format and is answered with success. Any
/// other action leaves the clock as it is and is answered with
/// `Unknown event ` and its name.
pub proof fn law_cycle_direction(s: ClockState, ps: Seq<Precision>, a: Seq<char>)
    requires
        clock_state_valid(s, ps),
    ensures
        clock_action(s, ps, Some("cycle"@)).0.idx == (if s.idx + 1 == s.len { 0 } else { s.idx + 1 }),
        clock_action(s, ps, Some("cycle_back"@)).0.idx == (if s.idx == 0 { s.len - 1 } else { s.idx - 1 }),
        clock_action(s, ps, Some("cycle"@)).0.precision == ps[clock_action(s, ps, Some("cycle"@)).0.idx as int],
        clock_action(s, ps, Some("cycle_back"@)).0.precision == ps[clock_action(s, ps, Some("cycle_back"@)).0.idx as int],
        clock_action(s, ps, Some("cycle"@)).1 == Some(None::<Seq<char>>),
        clock_action(s, ps, Some("cycle_back"@)).1 == Some(None::<Seq<char>>),
        a != "cycle"@ && a != "cycle_back"@ ==> clock_action(s, ps, Some(a)).0 == s
            && clock_action(s, ps, Some(a)).1 == Some(Some("Unknown event "@ + a)),
{
    reveal_strlit("cycle");
    reveal_strlit("cycle_back");
    assert("cycle"@.len() != "cycle_back"@.len());
    let l = s.len as int;
    let i = s.idx as int;
    if i + 1 < l {
        assert((i + 1) % l == i + 1) by (nonlinear_arith)
            requires 0 <= i + 1 < l;
    } else {
        assert((i + 1) % l == 0) by (nonlinear_arith)
            requires i + 1 == l, l > 0;
    }
    if i == 0 {
        assert((i + l - 1) % l == l - 1) by (nonlinear_arith)
            requires i == 0, l > 0;
    } else {
        assert((i + l - 1) % l == i - 1) by (nonlinear_arith)
            requires 0 < i < l;
    }
}

} // verus!
