//! Panels on the bar: which of them are shown, how mouse buttons are read,
//! and how messages reach them.
use vstd::prelude::*;
use vstd::string::*;

use crate::text::{chars_of, same_text};

verus! {

/// Which neighbor(s) a panel depends on to be shown
///
/// If a panel is dependent on another panel with non-None dependence, it will
/// not be shown.
#[derive(Debug, Clone, Copy, PartialEq, Eq, Structural)]
pub enum Dependence {
    /// The panel will always be shown
    Independent,
    /// The panel will be shown if its left neighbor has a nonzero width
    Left,
    /// The panel will be shown if its right neighbor has a nonzero width
    Right,
    /// The panel will be shown if both of its neighbors have a nonzero width
    Both,
}

/// What the layout of the bar reads of a drawn panel: its width and on which
/// neighbors it depends.
#[derive(Debug, Clone, Copy, PartialEq, Eq, Structural)]
pub struct PanelLayout {
    /// The width in pixels of the panel.
    pub width: i32,
    /// When the panel should be hidden
    pub dependence: Dependence,
}

/// Whether a panel is shown, as far as it can be told from the panel alone.
#[derive(Debug, Clone, Copy, PartialEq, Eq, Structural)]
pub enum PanelStatus {
    /// The panel is shown.
    Shown,
    /// The panel takes no space.
    ZeroWidth,
    /// The panel is shown or not depending on its neighbors.
    Dependent(Dependence),
}

/// The status of a panel by itself; a panel that has not been drawn yet takes
/// no space.
pub open spec fn status_of(p: Option<PanelLayout>) -> PanelStatus {
    match p {
        None => PanelStatus::ZeroWidth,
        Some(d) => match d.dependence {
            Dependence::Independent => if d.width == 0 {
                PanelStatus::ZeroWidth
            } else {
                PanelStatus::Shown
            },
            dep => PanelStatus::Dependent(dep),
        },
    }
}

/// Both statuses together: shown only if both are shown.
pub open spec fn both_shown(a: PanelStatus, b: PanelStatus) -> PanelStatus {
    if a == PanelStatus::Shown && b == PanelStatus::Shown {
        PanelStatus::Shown
    } else {
        PanelStatus::ZeroWidth
    }
}

/// The status of the panel at position `j`; there is no panel outside the
/// list, and a missing neighbor takes no space.
pub open spec fn neighbor_status(ps: Seq<Option<PanelLayout>>, j: int) -> PanelStatus {
    if 0 <= j < ps.len() {
        status_of(ps[j])
    } else {
        PanelStatus::ZeroWidth
    }
}

/// The status of the panel at position `i` once its dependence on its
/// neighbors has been applied.
pub open spec fn resolved_status(ps: Seq<Option<PanelLayout>>, i: int) -> PanelStatus {
    match status_of(ps[i]) {
        PanelStatus::Dependent(Dependence::Left) => neighbor_status(ps, i - 1),
        PanelStatus::Dependent(Dependence::Right) => neighbor_status(ps, i + 1),
        PanelStatus::Dependent(Dependence::Both) => both_shown(
            neighbor_status(ps, i - 1),
            neighbor_status(ps, i + 1),
        ),
        s => s,
    }
}

impl PanelStatus {
    /// The status of a panel by itself.
    pub fn from_layout(p: Option<PanelLayout>) -> (r: PanelStatus)
        ensures
            r == status_of(p),
    {
        match p {
            None => PanelStatus::ZeroWidth,
            Some(d) => match d.dependence {
                Dependence::Independent => if d.width == 0 {
                    PanelStatus::ZeroWidth
                } else {
                    PanelStatus::Shown
                },
                dep => PanelStatus::Dependent(dep),
            },
        }
    }

    /// Combines two statuses: the result is shown only if both are.
    pub fn and(self, rhs: PanelStatus) -> (r: PanelStatus)
        ensures
            r == both_shown(self, rhs),
    {
        if self == PanelStatus::Shown && rhs == PanelStatus::Shown {
            PanelStatus::Shown
        } else {
            PanelStatus::ZeroWidth
        }
    }
}

fn neighbor(panels: &Vec<Option<PanelLayout>>, i: usize, left: bool) -> (r: PanelStatus)
    requires
        i < panels.len(),
    ensures
        r == neighbor_status(panels@, if left { i - 1 } else { i + 1 }),
{
    if left {
        if i == 0 {
            PanelStatus::ZeroWidth
        } else {
            PanelStatus::from_layout(panels[i - 1])
        }
    } else {
        if i + 1 < panels.len() {
            PanelStatus::from_layout(panels[i + 1])
        } else {
            PanelStatus::ZeroWidth
        }
    }
}

/// Applies the dependence of each panel on its neighbors: the status of every
/// panel, in order.
pub fn apply_dependence(panels: &Vec<Option<PanelLayout>>) -> (r: Vec<PanelStatus>)
    ensures
        r.len() == panels.len(),
        forall|i: int| 0 <= i < panels.len() ==> #[trigger] r@[i] == resolved_status(panels@, i),
{
    let mut r: Vec<PanelStatus> = Vec::new();
    let mut i: usize = 0;
    while i < panels.len()
        invariant
            i <= panels.len(),
            r.len() == i,
            forall|j: int| 0 <= j < i ==> #[trigger] r@[j] == resolved_status(panels@, j),
        decreases panels.len() - i,
    {
        let s = match PanelStatus::from_layout(panels[i]) {
            PanelStatus::Dependent(Dependence::Left) => neighbor(panels, i, true),
            PanelStatus::Dependent(Dependence::Right) => neighbor(panels, i, false),
            PanelStatus::Dependent(Dependence::Both) => neighbor(panels, i, true).and(
                neighbor(panels, i, false),
            ),
            s => s,
        };
        r.push(s);
        i = i + 1;
    }
    r
}

/// A button that can be linked to an action for a panel
///
/// Note: scrolling direction may be incorrect depending on your configuration
#[derive(Debug, PartialEq, Eq, Clone, Copy, Structural)]
pub enum MouseButton {
    /// The left mouse button
    Left,
    /// The middle mouse button
    Middle,
    /// The right mouse button
    Right,
    /// Scrolling up
    ScrollUp,
    /// Scrolling down
    ScrollDown,
}

/// The X server reported a button other than 1 to 5.
#[derive(Debug, PartialEq, Eq, Clone, Copy, Structural)]
pub struct InvalidButton;

/// The button that the X server means by `value`: 1 to 3 are the left, middle
/// and right buttons, 4 and 5 scroll down and up, or up and down where the
/// scrolling direction is reversed.
pub open spec fn button_of(value: u8, reverse: bool) -> Option<MouseButton> {
    if value == 1 {
        Some(MouseButton::Left)
    } else if value == 2 {
        Some(MouseButton::Middle)
    } else if value == 3 {
        Some(MouseButton::Right)
    } else if value == 4 {
        Some(if reverse { MouseButton::ScrollUp } else { MouseButton::ScrollDown })
    } else if value == 5 {
        Some(if reverse { MouseButton::ScrollDown } else { MouseButton::ScrollUp })
    } else {
        None
    }
}

impl MouseButton {
    /// Reads a button number from the X server.
    pub fn try_parse(value: u8, reverse: bool) -> (r: Result<MouseButton, InvalidButton>)
        ensures
            r is Ok <==> 1 <= value <= 5,
            r matches Ok(b) ==> button_of(value, reverse) == Some(b),
    {
        match value {
            1 => Ok(MouseButton::Left),
            2 => Ok(MouseButton::Middle),
            3 => Ok(MouseButton::Right),
            4 => {
                if reverse {
                    Ok(MouseButton::ScrollUp)
                } else {
                    Ok(MouseButton::ScrollDown)
                }
            },
            5 => {
                if reverse {
                    Ok(MouseButton::ScrollDown)
                } else {
                    Ok(MouseButton::ScrollUp)
                }
            },
            _ => Err(InvalidButton),
        }
    }
}

/// A mouse event that can be passed to a panel
#[derive(Debug, PartialEq, Eq, Clone, Copy, Structural)]
pub struct MouseEvent {
    /// The button that was pressed (or scrolled)
    pub button: MouseButton,
    /// The x coordinate of the press, relative to the panel
    pub x: i16,
    /// The y coordinate of the press, relative to the bar
    pub y: i16,
}

/// Whether a click at `x` falls on a panel that stands at `extent` (its left
/// edge and its width, in whole pixels; `None` where it is not drawn): from
/// its left edge to its right edge, both included.
pub open spec fn panel_hit(extent: Option<(i16, i32)>, x: int) -> bool {
    extent matches Some(e) && e.0 <= x <= e.0 + e.1
}

/// The first panel, left to right, on which a click at `x` falls.
pub open spec fn panel_at_of(extents: Seq<Option<(i16, i32)>>, x: int) -> Option<int> {
    if exists|k: int| 0 <= k < extents.len() && panel_hit(extents[k], x) {
        Some(choose|k: int| 0 <= k < extents.len() && panel_hit(extents[k], x)
            && forall|j: int| 0 <= j < k ==> !panel_hit(extents[j], x))
    } else {
        None
    }
}

/// Where the bar sends a press of the button `button` at `(x, y)`: to the
/// first panel on which it falls, as a mouse event whose `x` is measured
/// from the panel's left edge. `None` where the button is not one of 1 to 5
/// or the press falls on no panel.
pub open spec fn bar_click_of(extents: Seq<Option<(i16, i32)>>, button: u8, reverse: bool, x: i16, y: i16) -> Option<(int, MouseEvent)> {
    match button_of(button, reverse) {
        None => None,
        Some(b) => match panel_at_of(extents, x as int) {
            Some(k) => Some((k, MouseEvent { button: b, x: (x - extents[k]->Some_0.0) as i16, y })),
            None => None,
        },
    }
}

/// The panel that a press on the bar goes to, and the event it gets; see
/// [`bar_click_of`]. `extents` holds each panel of the bar, left, center and
/// right, in order.
pub fn bar_click(extents: &Vec<Option<(i16, i32)>>, button: u8, reverse: bool, x: i16, y: i16) -> (r: Option<(usize, MouseEvent)>)
    requires
        forall|k: int| 0 <= k < extents@.len() ==> (#[trigger] extents@[k] matches Some(e) ==> e.0 >= 0),
    ensures
        match bar_click_of(extents@, button, reverse, x, y) {
            Some((k, e)) => r == Some((k as usize, e)),
            None => r is None,
        },
{
    let b = match MouseButton::try_parse(button, reverse) {
        Ok(b) => b,
        Err(_) => {
            return None;
        },
    };
    let mut k: usize = 0;
    while k < extents.len()
        invariant
            k <= extents@.len(),
            forall|j: int| 0 <= j < k ==> !panel_hit(extents@[j], x as int),
            forall|j: int| 0 <= j < extents@.len() ==> (#[trigger] extents@[j] matches Some(e) ==> e.0 >= 0),
            button_of(button, reverse) == Some(b),
        decreases extents@.len() - k,
    {
        match extents[k] {
            Some((px, w)) => {
                if px as i64 <= x as i64 && x as i64 <= px as i64 + w as i64 {
                    proof {
                        assert(panel_hit(extents@[k as int], x as int));
                        assert(extents@[k as int] matches Some(e) ==> e.0 >= 0);
                        let c = choose|c: int| 0 <= c < extents@.len() && panel_hit(extents@[c], x as int)
                            && forall|j: int| 0 <= j < c ==> !panel_hit(extents@[j], x as int);
                        if c < k {
                        } else if c > k {
                            assert(!panel_hit(extents@[k as int], x as int));
                        }
                        assert(c == k);
                        assert(panel_at_of(extents@, x as int) == Some(k as int));
                    }
                    return Some((k, MouseEvent { button: b, x: x - px, y }));
                }
            },
            None => {},
        }
        k = k + 1;
    }
    proof {
        assert(!exists|c: int| 0 <= c < extents@.len() && panel_hit(extents@[c], x as int));
    }
    None
}

/// An event that can be passed to a panel
#[derive(Debug, PartialEq, Eq, Clone)]
pub enum Event {
    /// A mouse event
    Mouse(MouseEvent),
    /// A message (typically from another process)
    Action(String),
}

/// The cursor to show over a panel.
#[derive(Debug, PartialEq, Eq, Clone, Copy, Structural)]
pub enum Cursor {
    /// The system default cursor
    Default,
    /// A cursor showing that the panel can be clicked
    Click,
    /// A cursor showing that the panel can be scrolled
    Scroll,
}

/// A response to an event
#[derive(Debug, PartialEq, Eq, Clone)]
pub enum EventResponse {
    /// The event executed normally
    Success,
    /// An error occurred
    Failure(String),
}

/// The JSON text by which the bar answers a message.
pub open spec fn response_json(r: EventResponse) -> Seq<char> {
    match r {
        EventResponse::Success => "{\"success\":\"true\"}"@,
        EventResponse::Failure(e) => "{\"success\":\"false\",\"reason\":\""@ + e@ + "\"}"@,
    }
}

impl EventResponse {
    /// The JSON text by which the bar answers a message:
    /// `{"success":"true"}`, or `{"success":"false","reason":"..."}`.
    pub fn to_json(&self) -> (r: String)
        ensures
            r@ == response_json(*self),
    {
        match self {
            EventResponse::Success => String::from_str("{\"success\":\"true\"}"),
            EventResponse::Failure(e) => {
                let mut r = String::from_str("{\"success\":\"false\",\"reason\":\"");
                r.append(e.as_str());
                r.append("\"}");
                r
            },
        }
    }
}

/// Where a message sent to the bar goes.
#[derive(Debug, PartialEq, Eq, Clone)]
pub enum Route {
    /// The bar is asked to quit.
    Quit,
    /// The message is for the panel at this index (counting the left, center
    /// and right panels in order), which receives the text after the first
    /// `.`.
    Panel(usize, String),
}

/// Why a message cannot be delivered.
#[derive(Debug, PartialEq, Eq, Clone, Copy, Structural)]
pub enum RouteError {
    /// Message did not contain a `.` delimiter
    NoDelimiter,
    /// No panel with the given name was found
    NotFound,
    /// This panel has multiple instances and cannot be messaged
    MultipleInstances,
    /// The target panel has no associated sender and cannot be messaged
    NoSender,
}

/// Whether `m` holds a `.`.
pub open spec fn has_dot(m: Seq<char>) -> bool {
    exists|k: int| 0 <= k < m.len() && m[k] == '.'
}

/// The position of the first `.` in `m`.
pub open spec fn first_dot(m: Seq<char>) -> int {
    choose|k: int| 0 <= k < m.len() && m[k] == '.' && forall|j: int| 0 <= j < k ==> m[j] != '.'
}

/// Whether the panel at index `j` has the name `name`.
pub open spec fn named(names: Seq<String>, j: int, name: Seq<char>) -> bool {
    0 <= j < names.len() && names[j]@ == name
}

/// Where a message goes, or why it cannot be delivered. `quit` asks the bar
/// to quit; any other message is `panel.rest`, for the one panel of that
/// name.
pub open spec fn route_of(names: Seq<String>, senders: Seq<bool>, m: Seq<char>) -> Result<(int, Seq<char>), RouteError> {
    if !has_dot(m) {
        Err(RouteError::NoDelimiter)
    } else {
        let name = m.take(first_dot(m));
        let rest = m.skip(first_dot(m) + 1);
        if forall|j: int| !named(names, j, name) {
            Err(RouteError::NotFound)
        } else if exists|j: int, k: int| j < k && named(names, j, name) && named(names, k, name) {
            Err(RouteError::MultipleInstances)
        } else {
            let j = choose|j: int| named(names, j, name);
            if senders[j] {
                Ok((j, rest))
            } else {
                Err(RouteError::NoSender)
            }
        }
    }
}

/// Finds where a message sent to the bar goes. `names` are the names of the
/// panels, and `senders[j]` says whether panel `j` accepts messages.
pub fn route_message(names: &Vec<String>, senders: &Vec<bool>, message: &str) -> (r: Result<Route, RouteError>)
    requires
        names.len() == senders.len(),
    ensures
        message@ == "quit"@ ==> r == Ok::<Route, RouteError>(Route::Quit),
        message@ != "quit"@ ==> match r {
            Ok(Route::Quit) => false,
            Ok(Route::Panel(j, rest)) => route_of(names@, senders@, message@) == Ok::<(int, Seq<char>), RouteError>((j as int, rest@)),
            Err(e) => route_of(names@, senders@, message@) == Err::<(int, Seq<char>), RouteError>(e),
        },
{
    if same_text(message, "quit") {
        return Ok(Route::Quit);
    }
    let cs = chars_of(message);
    let n = cs.len();
    let mut k: usize = 0;
    while k < n && cs[k] != '.'
        invariant
            cs@ == message@,
            n == message@.len(),
            k <= n,
            forall|j: int| 0 <= j < k ==> message@[j] != '.',
        decreases n - k,
    {
        k = k + 1;
    }
    if k == n {
        return Err(RouteError::NoDelimiter);
    }
    proof {
        let w = first_dot(message@);
        assert(message@[k as int] == '.');
        if w < k {
            assert(message@[w] != '.');
        }
        if w > k {
            assert(message@[k as int] != '.');
        }
        assert(w == k);
    }
    let name = message.substring_char(0, k);
    let rest = message.substring_char(k + 1, n);
    proof {
        assert(name@ =~= message@.take(k as int));
        assert(rest@ =~= message@.skip(k + 1));
    }
    let mut found: Option<usize> = None;
    let mut j: usize = 0;
    while j < names.len()
        invariant
            j <= names.len(),
            message@ != "quit"@,
            has_dot(message@),
            name@ == message@.take(first_dot(message@)),
            found matches Some(f) ==> f < j && named(names@, f as int, name@) && forall|l: int| 0 <= l < j && l != f ==> !named(names@, l, name@),
            found is None ==> forall|l: int| 0 <= l < j ==> !named(names@, l, name@),
        decreases names.len() - j,
    {
        if same_text(names[j].as_str(), name) {
            match found {
                Some(f) => {
                    proof {
                        assert(named(names@, f as int, name@) && named(names@, j as int, name@));
                    }
                    return Err(RouteError::MultipleInstances);
                },
                None => {
                    found = Some(j);
                },
            }
        }
        j = j + 1;
    }
    match found {
        None => Err(RouteError::NotFound),
        Some(f) => {
            proof {
                let c = choose|c: int| named(names@, c, name@);
                assert(named(names@, f as int, name@));
                assert(c == f);
            }
            if senders[f] {
                Ok(Route::Panel(f, String::from_str(rest)))
            } else {
                Err(RouteError::NoSender)
            }
        },
    }
}


/// An independent panel is shown exactly when it is not empty, and a panel
/// that has not been drawn takes no space.
pub proof fn law_independent_shown(ps: Seq<Option<PanelLayout>>, i: int)
    requires
        0 <= i < ps.len(),
    ensures
        ps[i] is None ==> resolved_status(ps, i) == PanelStatus::ZeroWidth,
        ps[i] is Some && ps[i]->0.dependence == Dependence::Independent
            ==> (resolved_status(ps, i) == PanelStatus::Shown <==> ps[i]->0.width != 0),
{
}

/// Whether the panel at `j` is an independent panel that is not empty.
pub open spec fn shown_alone(ps: Seq<Option<PanelLayout>>, j: int) -> bool {
    &&& 0 <= j < ps.len()
    &&& ps[j] is Some
    &&& ps[j]->0.dependence == Dependence::Independent
    &&& ps[j]->0.width != 0
}

/// A dependent panel is shown exactly when each neighbor it depends on is
/// an independent panel that is not empty: a panel that depends on a
/// dependent panel, on a missing one or on an empty one is not shown.
pub proof fn law_dependent_shown(ps: Seq<Option<PanelLayout>>, i: int)
    requires
        0 <= i < ps.len(),
        ps[i] is Some,
    ensures
        ps[i]->0.dependence == Dependence::Left ==> (resolved_status(ps, i) == PanelStatus::Shown <==> shown_alone(ps, i - 1)),
        ps[i]->0.dependence == Dependence::Right ==> (resolved_status(ps, i) == PanelStatus::Shown <==> shown_alone(ps, i + 1)),
        ps[i]->0.dependence == Dependence::Both ==> (resolved_status(ps, i) == PanelStatus::Shown <==> shown_alone(ps, i - 1)
            && shown_alone(ps, i + 1)),
{
}

/// The two scroll buttons change places where the scrolling direction is
/// reversed; the other buttons stay as they are.
pub open spec fn flipped(b: Option<MouseButton>) -> Option<MouseButton> {
    match b {
        Some(MouseButton::ScrollUp) => Some(MouseButton::ScrollDown),
        Some(MouseButton::ScrollDown) => Some(MouseButton::ScrollUp),
        other => other,
    }
}

/// Reversing the scrolling direction swaps scrolling up and down and leaves
/// every other button as it is.
pub proof fn law_reverse_scrolling(value: u8)
    ensures
        button_of(value, true) == flipped(button_of(value, false)),
{
}


/// A message made of the name of a panel, a `.` and a text reaches that
/// panel with that text, where the name has no `.`, belongs to exactly one
/// panel and that panel takes messages.
pub proof fn law_route_delivers(names: Seq<String>, senders: Seq<bool>, j: int, name: Seq<char>, rest: Seq<char>)
    requires
        names.len() == senders.len(),
        0 <= j < names.len(),
        names[j]@ == name,
        forall|k: int| 0 <= k < names.len() && k != j ==> names[k]@ != name,
        senders[j],
        forall|i: int| 0 <= i < name.len() ==> name[i] != '.',
    ensures
        route_of(names, senders, name + "."@ + rest) == Ok::<(int, Seq<char>), RouteError>((j, rest)),
{
    reveal_strlit(".");
    let m = name + "."@ + rest;
    let d = name.len() as int;
    assert(m[d] == '.');
    assert(has_dot(m));
    let f = first_dot(m);
    if f < d {
        assert(m[f] == name[f]);
    }
    if f > d {
        assert(m[d] != '.');
    }
    assert(f == d);
    assert(m.take(f) =~= name);
    assert(m.skip(f + 1) =~= rest);
    assert(named(names, j, name));
    assert(!exists|a: int, b: int| a < b && named(names, a, name) && named(names, b, name));
    let c = choose|c: int| named(names, c, name);
    assert(c == j);
}


/// The text by which the bar answers a message that cannot be delivered.
/// Where a message names no panel, the name is the part before its first
/// `.`.
pub open spec fn route_error_text_of(e: RouteError, m: Seq<char>) -> Seq<char> {
    match e {
        RouteError::NoDelimiter => "Message did not contain a `.` delimiter"@,
        RouteError::NotFound => "No panel with name "@ + (if has_dot(m) { m.take(first_dot(m)) } else { m }) + " was found"@,
        RouteError::MultipleInstances => "This panel has multiple instances and cannot be messaged"@,
        RouteError::NoSender => "The target panel has no associated sender and cannot be messaged"@,
    }
}

/// The text by which the bar answers a message that cannot be delivered;
/// see [`route_error_text_of`].
pub fn route_error_text(e: RouteError, message: &str) -> (r: String)
    ensures
        r@ == route_error_text_of(e, message@),
{
    match e {
        RouteError::NoDelimiter => "Message did not contain a `.` delimiter".to_string(),
        RouteError::NotFound => {
            let n = message.unicode_len();
            let mut k: usize = 0;
            while k < n && message.get_char(k) != '.'
                invariant
                    n == message@.len(),
                    k <= n,
                    forall|j: int| 0 <= j < k ==> message@[j] != '.',
                decreases n - k,
            {
                k = k + 1;
            }
            let name = if k == n {
                proof {
                    assert(!has_dot(message@));
                    assert(message@.subrange(0, n as int) =~= message@);
                }
                message.substring_char(0, n)
            } else {
                proof {
                    let w = first_dot(message@);
                    assert(message@[k as int] == '.');
                    if w < k {
                        assert(message@[w] != '.');
                    }
                    if w > k {
                        assert(message@[k as int] != '.');
                    }
                    assert(message@.subrange(0, k as int) =~= message@.take(first_dot(message@)));
                }
                message.substring_char(0, k)
            };
            let mut r = "No panel with name ".to_string();
            r.append(name);
            r.append(" was found");
            r
        },
        RouteError::MultipleInstances => "This panel has multiple instances and cannot be messaged".to_string(),
        RouteError::NoSender => "The target panel has no associated sender and cannot be messaged".to_string(),
    }
}


/// The X server numbers the buttons 1 to 3 left, middle and right, and
/// scrolls with 4 and 5: 5 scrolls up and 4 down, the other way round where
/// scrolling is reversed; no other number is a button.
pub proof fn law_button_numbers(value: u8, reverse: bool)
    ensures
        button_of(1, reverse) == Some(MouseButton::Left),
        button_of(2, reverse) == Some(MouseButton::Middle),
        button_of(3, reverse) == Some(MouseButton::Right),
        button_of(5, false) == Some(MouseButton::ScrollUp),
        button_of(4, false) == Some(MouseButton::ScrollDown),
        button_of(5, true) == Some(MouseButton::ScrollDown),
        button_of(4, true) == Some(MouseButton::ScrollUp),
        button_of(value, reverse) is Some <==> 1 <= value <= 5,
{
}

} // verus!
