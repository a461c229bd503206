//! The workspaces panel: how each workspace is shown and which workspace a
//! click or a scroll selects.
use vstd::prelude::*;
use vstd::string::*;

use crate::bar::MouseButton;
use crate::text::same_text;
use crate::types::EventResponse;

verus! {

/// How a workspace is shown.
#[derive(PartialEq, Eq, Debug, Clone, Copy, Structural)]
pub enum WorkspaceState {
    /// The current workspace
    Active,
    /// A workspace that holds a window
    Nonempty,
    /// Any other workspace
    Inactive,
}

/// How the workspace at index `i` is shown.
pub open spec fn workspace_state_of(i: u32, current: u32, nonempty: Seq<u32>) -> WorkspaceState {
    if i == current {
        WorkspaceState::Active
    } else if nonempty.contains(i) {
        WorkspaceState::Nonempty
    } else {
        WorkspaceState::Inactive
    }
}

/// How the workspace at index `i` is shown, given the current workspace and
/// the workspaces that hold a window.
pub fn workspace_state(i: u32, current: u32, nonempty: &Vec<u32>) -> (r: WorkspaceState)
    ensures
        r == workspace_state_of(i, current, nonempty@),
{
    if i == current {
        return WorkspaceState::Active;
    }
    let mut k: usize = 0;
    while k < nonempty.len()
        invariant
            k <= nonempty.len(),
            i != current,
            forall|j: int| 0 <= j < k ==> nonempty@[j] != i,
        decreases nonempty.len() - k,
    {
        if nonempty[k] == i {
            proof {
                assert(nonempty@[k as int] == i);
                assert(nonempty@.contains(i));
            }
            return WorkspaceState::Nonempty;
        }
        k = k + 1;
    }
    WorkspaceState::Inactive
}

/// The workspace that a scroll selects: the next one for a scroll up, the
/// previous one for a scroll down, wrapping around.
pub open spec fn scrolled_workspace(current: int, len: int, up: bool) -> int {
    if up {
        (current + 1) % len
    } else {
        (current + len - 1) % len
    }
}

/// The workspace that a scroll selects; see [`scrolled_workspace`].
pub fn scroll_workspace(current: u32, len: usize, up: bool) -> (r: usize)
    requires
        len > 0,
        up ==> current < u32::MAX,
    ensures
        r as int == scrolled_workspace(current as int, len as int, up),
        r < len,
{
    let c = (current as usize) % len;
    proof {
        let ci = current as int;
        let l = len as int;
        assert((ci + 1) % l == ((ci % l) + 1) % l) by (nonlinear_arith)
            requires l > 0, ci >= 0;
        assert((ci + l - 1) % l == ((ci % l) + l - 1) % l) by (nonlinear_arith)
            requires l > 0, ci >= 0;
        assert(0 <= ci % l < l) by (nonlinear_arith)
            requires l > 0, ci >= 0;
    }
    if up {
        if c + 1 == len {
            proof {
                assert(((current as int % len as int) + 1) % (len as int) == 0) by (nonlinear_arith)
                    requires (current as int % len as int) + 1 == len as int, len > 0;
            }
            0
        } else {
            proof {
                assert(((current as int % len as int) + 1) % (len as int) == (current as int % len as int) + 1) by (nonlinear_arith)
                    requires 0 <= (current as int % len as int) + 1 < len as int;
            }
            c + 1
        }
    } else {
        if c == 0 {
            proof {
                assert(((current as int % len as int) + len - 1) % (len as int) == len - 1) by (nonlinear_arith)
                    requires (current as int % len as int) == 0, len > 0;
            }
            len - 1
        } else {
            proof {
                assert(((current as int % len as int) + len - 1) % (len as int) == (current as int % len as int) - 1) by (nonlinear_arith)
                    requires 0 < (current as int % len as int) < len as int;
            }
            c - 1
        }
    }
}

/// The result of walking the widths of the workspaces from index `idx`,
/// where the workspaces up to `idx` end at `acc`: the index at which the
/// walk stops, or `len` (no workspace) where the known widths run out
/// first.
pub open spec fn click_walk(widths: Seq<i32>, len: int, x: int, idx: int, acc: int) -> int
    decreases len - idx,
{
    if acc < x && idx < len {
        if idx + 1 < widths.len() {
            click_walk(widths, len, x, idx + 1, acc + widths[idx + 1])
        } else {
            len
        }
    } else {
        idx
    }
}

/// The index of the workspace under a click at `x`: the first workspace whose
/// right edge is at or past `x`, counting `len` workspaces; an index of
/// `len` or more means that the click is right of every workspace. `None`
/// where no widths are known yet and the click is ignored.
pub open spec fn clicked_workspace_of(widths: Seq<i32>, len: int, x: int) -> Option<int> {
    if widths.len() == 0 {
        None
    } else {
        Some(click_walk(widths, len, x, 0, widths[0] as int))
    }
}

/// The workspace under a click; see [`clicked_workspace_of`]. A result of
/// `len` or more selects no workspace.
pub fn clicked_workspace(widths: &Vec<i32>, len: usize, x: i16) -> (r: Option<usize>)
    ensures
        match r {
            Some(i) => clicked_workspace_of(widths@, len as int, x as int) == Some(i as int),
            None => clicked_workspace_of(widths@, len as int, x as int) is None,
        },
{
    if widths.len() == 0 {
        return None;
    }
    let mut idx: usize = 0;
    let mut acc: i128 = widths[0] as i128;
    while acc < x as i128 && idx < len
        invariant
            widths.len() > 0,
            idx < widths.len(),
            idx <= len,
            -0x1_0000_0000 * (idx + 1) <= acc <= 0x1_0000_0000,
            click_walk(widths@, len as int, x as int, 0, widths@[0] as int) == click_walk(widths@, len as int, x as int, idx as int, acc as int),
        decreases len - idx,
    {
        if idx + 1 >= widths.len() {
            return Some(len);
        }
        idx = idx + 1;
        acc = acc + widths[idx] as i128;
    }
    Some(idx)
}

/// The sum of the widths of the workspaces.
pub open spec fn widths_sum(widths: Seq<i32>) -> int
    decreases widths.len(),
{
    if widths.len() == 0 {
        0
    } else {
        widths_sum(widths.drop_last()) + widths.last()
    }
}

/// How the workspaces panel lays out its workspaces: the style of each, in
/// order, and the panel's width, the sum of the measured widths, which the
/// panel keeps, one per workspace, to tell where a click falls.
pub fn workspace_layout(current: u32, nonempty: &Vec<u32>, widths: &Vec<i32>) -> (r: (Vec<WorkspaceState>, i32))
    requires
        widths@.len() <= u32::MAX + 1,
        forall|k: int| 0 <= k <= widths@.len() ==> i32::MIN <= #[trigger] widths_sum(widths@.take(k)) <= i32::MAX,
    ensures
        r.0@.len() == widths@.len(),
        forall|i: int| 0 <= i < widths@.len() ==> #[trigger] r.0@[i] == workspace_state_of(i as u32, current, nonempty@),
        r.1 == widths_sum(widths@),
{
    let mut states: Vec<WorkspaceState> = Vec::new();
    let mut total: i32 = 0;
    let mut i: usize = 0;
    proof {
        assert(widths@.take(0) =~= Seq::<i32>::empty());
    }
    while i < widths.len()
        invariant
            i <= widths@.len(),
            widths@.len() <= u32::MAX + 1,
            forall|k: int| 0 <= k <= widths@.len() ==> i32::MIN <= #[trigger] widths_sum(widths@.take(k)) <= i32::MAX,
            states@.len() == i,
            forall|j: int| 0 <= j < i ==> #[trigger] states@[j] == workspace_state_of(j as u32, current, nonempty@),
            total == widths_sum(widths@.take(i as int)),
        decreases widths@.len() - i,
    {
        proof {
            assert(widths@.take(i + 1).drop_last() =~= widths@.take(i as int));
            assert(i32::MIN <= widths_sum(widths@.take(i + 1)) <= i32::MAX);
        }
        let st = workspace_state(i as u32, current, nonempty);
        states.push(st);
        total = total + widths[i];
        i = i + 1;
    }
    proof {
        assert(widths@.take(i as int) =~= widths@);
    }
    (states, total)
}

/// The index of the first workspace with the given name.
pub open spec fn workspace_named_of(names: Seq<String>, name: Seq<char>) -> Option<int> {
    if exists|i: int| 0 <= i < names.len() && names[i]@ == name {
        Some(choose|i: int| 0 <= i < names.len() && names[i]@ == name && forall|j: int| 0 <= j < i ==> names[j]@ != name)
    } else {
        None
    }
}

/// The index of the first workspace with the given name, which an action
/// of the workspaces panel selects.
pub fn workspace_named(names: &Vec<String>, name: &str) -> (r: Option<usize>)
    ensures
        match r {
            Some(i) => workspace_named_of(names@, name@) == Some(i as int),
            None => workspace_named_of(names@, name@) is None,
        },
{
    let mut i: usize = 0;
    while i < names.len()
        invariant
            i <= names.len(),
            forall|j: int| 0 <= j < i ==> names@[j]@ != name@,
        decreases names.len() - i,
    {
        if same_text(names[i].as_str(), name) {
            proof {
                let w = choose|w: int| 0 <= w < names@.len() && names@[w]@ == name@ && forall|j: int| 0 <= j < w ==> names@[j]@ != name@;
                assert(names@[i as int]@ == name@);
                if w < i {
                    assert(names@[w]@ != name@);
                }
                if w > i {
                    assert(names@[i as int]@ != name@);
                }
            }
            return Some(i);
        }
        i = i + 1;
    }
    None
}

/// The pieces of `bytes` between zero bytes that are not empty, from
/// position `start` on.
pub open spec fn nonempty_pieces(bytes: Seq<u8>, start: int, cur: Seq<u8>) -> Seq<Seq<u8>>
    decreases bytes.len() - start,
{
    if start >= bytes.len() {
        if cur.len() > 0 {
            seq![cur]
        } else {
            Seq::empty()
        }
    } else if bytes[start] == 0 {
        if cur.len() > 0 {
            seq![cur] + nonempty_pieces(bytes, start + 1, Seq::empty())
        } else {
            nonempty_pieces(bytes, start + 1, Seq::empty())
        }
    } else {
        nonempty_pieces(bytes, start + 1, cur.push(bytes[start]))
    }
}

/// The names of the workspaces in the bytes of `_NET_DESKTOP_NAMES`: the
/// non-empty pieces between zero bytes, then `?` for each workspace beyond
/// them up to `number`.
pub open spec fn workspace_names_of(bytes: Seq<u8>, number: nat) -> Seq<Seq<u8>> {
    let pieces = nonempty_pieces(bytes, 0, Seq::empty());
    if pieces.len() < number {
        pieces + Seq::new((number - pieces.len()) as nat, |i: int| seq![63u8])
    } else {
        pieces
    }
}

/// Splits the bytes of `_NET_DESKTOP_NAMES` into the names of the
/// workspaces; see [`workspace_names_of`].
pub fn workspace_names(bytes: &Vec<u8>, number: u32) -> (r: Vec<Vec<u8>>)
    ensures
        r@.len() == workspace_names_of(bytes@, number as nat).len(),
        forall|i: int| 0 <= i < r@.len() ==> #[trigger] r@[i]@ == workspace_names_of(bytes@, number as nat)[i],
{
    let mut out: Vec<Vec<u8>> = Vec::new();
    let mut cur: Vec<u8> = Vec::new();
    let mut k: usize = 0;
    while k < bytes.len()
        invariant
            k <= bytes.len(),
            out@.len() <= k,
            ({
                let done = Seq::new(out@.len(), |i: int| out@[i]@);
                done + nonempty_pieces(bytes@, k as int, cur@) == nonempty_pieces(bytes@, 0, Seq::empty())
            }),
        decreases bytes.len() - k,
    {
        let ghost before = Seq::new(out@.len(), |i: int| out@[i]@);
        if bytes[k] == 0 {
            if cur.len() > 0 {
                let piece = cur;
                cur = Vec::new();
                out.push(piece);
                proof {
                    let after = Seq::new(out@.len(), |i: int| out@[i]@);
                    assert(after =~= before.push(out@[out@.len() - 1]@));
                    assert(after + nonempty_pieces(bytes@, k + 1, cur@) =~= before + (seq![out@[out@.len() - 1]@] + nonempty_pieces(bytes@, k + 1, Seq::empty())));
                }
            } else {
                proof {
                    assert(cur@ =~= Seq::<u8>::empty());
                }
            }
        } else {
            cur.push(bytes[k]);
        }
        k = k + 1;
    }
    let ghost before = Seq::new(out@.len(), |i: int| out@[i]@);
    if cur.len() > 0 {
        out.push(cur);
        proof {
            let after = Seq::new(out@.len(), |i: int| out@[i]@);
            assert(after =~= before.push(out@[out@.len() - 1]@));
        }
    } else {
        proof {
            assert(nonempty_pieces(bytes@, k as int, cur@) =~= Seq::<Seq<u8>>::empty());
        }
    }
    let ghost pieces = Seq::new(out@.len(), |i: int| out@[i]@);
    proof {
        assert(pieces =~= nonempty_pieces(bytes@, 0, Seq::empty()));
    }
    let number = number as usize;
    while out.len() < number
        invariant
            pieces.len() <= out@.len(),
            out@.len() <= number || out@.len() == pieces.len(),
            forall|i: int| 0 <= i < pieces.len() ==> #[trigger] out@[i]@ == pieces[i],
            forall|i: int| pieces.len() <= i < out@.len() ==> #[trigger] out@[i]@ == seq![63u8],
        decreases number - out.len(),
    {
        let mut q: Vec<u8> = Vec::new();
        q.push(63u8);
        out.push(q);
    }
    out
}


/// Scrolling up and then down, or down and then up, selects the workspace
/// that was current before.
pub proof fn law_scroll_up_then_down(current: int, len: int)
    requires
        0 <= current < len,
    ensures
        scrolled_workspace(scrolled_workspace(current, len, true), len, false) == current,
        scrolled_workspace(scrolled_workspace(current, len, false), len, true) == current,
{
    let c = current;
    let l = len;
    if c + 1 < l {
        assert((c + 1) % l == c + 1) by (nonlinear_arith)
            requires 0 <= c + 1 < l;
        assert((c + 1 + l - 1) % l == c) by (nonlinear_arith)
            requires 0 <= c < l;
    } else {
        assert((c + 1) % l == 0) by (nonlinear_arith)
            requires c + 1 == l, l > 0;
        assert((0 + l - 1) % l == c) by (nonlinear_arith)
            requires c + 1 == l, l > 0;
    }
    if c > 0 {
        assert((c + l - 1) % l == c - 1) by (nonlinear_arith)
            requires 0 < c < l;
        assert((c - 1 + 1) % l == c) by (nonlinear_arith)
            requires 0 < c < l;
    } else {
        assert((c + l - 1) % l == l - 1) by (nonlinear_arith)
            requires c == 0, l > 0;
        assert((l - 1 + 1) % l == 0) by (nonlinear_arith)
            requires l > 0;
    }
}

/// The workspace that a mouse event on the panel switches to: for a click,
/// the workspace under it where there is one; for a scroll, the next or the
/// previous workspace. The switch goes by name, so it reaches the first
/// workspace with the name of the one selected. `None` where the event
/// selects no workspace.
pub open spec fn mouse_target_of(names: Seq<String>, widths: Seq<i32>, current: int, button: MouseButton, x: int) -> Option<int> {
    let len = names.len() as int;
    let idx = if button is ScrollUp {
        Some(scrolled_workspace(current, len, true))
    } else if button is ScrollDown {
        Some(scrolled_workspace(current, len, false))
    } else {
        clicked_workspace_of(widths, len, x)
    };
    match idx {
        Some(i) => if 0 <= i < len {
            workspace_named_of(names, names[i]@)
        } else {
            None
        },
        None => None,
    }
}

/// The workspace that a mouse event switches to, given the names of the
/// workspaces, their measured widths and the current workspace; see
/// [`mouse_target_of`].
pub fn workspace_mouse_target(names: &Vec<String>, widths: &Vec<i32>, current: u32, button: MouseButton, x: i16) -> (r: Option<usize>)
    requires
        (button is ScrollUp || button is ScrollDown) ==> names@.len() > 0,
        button is ScrollUp ==> current < u32::MAX,
    ensures
        match r {
            Some(i) => mouse_target_of(names@, widths@, current as int, button, x as int) == Some(i as int),
            None => mouse_target_of(names@, widths@, current as int, button, x as int) is None,
        },
{
    let len = names.len();
    let idx = match button {
        MouseButton::ScrollUp => Some(scroll_workspace(current, len, true)),
        MouseButton::ScrollDown => Some(scroll_workspace(current, len, false)),
        _ => clicked_workspace(widths, len, x),
    };
    match idx {
        Some(i) => if i < len {
            workspace_named(names, names[i].as_str())
        } else {
            None
        },
        None => None,
    }
}

/// What the workspaces panel does for an action naming a workspace: it
/// switches to the first workspace with that name and answers with success,
/// or, where no workspace has the name, switches nowhere and answers
/// `No workspace found with name ` and the name.
pub fn workspace_action(names: &Vec<String>, action: &str) -> (r: (Option<usize>, EventResponse))
    ensures
        match workspace_named_of(names@, action@) {
            Some(i) => (r.0 matches Some(j) && j as int == i) && r.1 == EventResponse::Success,
            None => r.0 is None && (r.1 matches EventResponse::Failure(e) && e@ == "No workspace found with name "@ + action@),
        },
{
    match workspace_named(names, action) {
        Some(i) => (Some(i), EventResponse::Success),
        None => {
            let mut e = String::from_str("No workspace found with name ");
            e.append(action);
            (None, EventResponse::Failure(e))
        },
    }
}

} // verus!
