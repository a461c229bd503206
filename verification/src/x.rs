//! The X11 window of the bar: where it is placed, the space it reserves on
//! the screen, the size hints it announces and the visual it is drawn with.
use vstd::prelude::*;

use crate::text::{opt_str, same_text};
use crate::Position;

verus! {

/// The visual class of a true-color visual.
pub const TRUE_COLOR: u8 = 4;

/// The layout of a visual type as the X C bindings lay it out.
#[allow(non_camel_case_types)]
#[derive(Debug, Clone, Copy, PartialEq, Eq, Hash)]
pub struct xcb_visualtype_t {
    pub visual_id: u32,
    pub class: u8,
    pub bits_per_rgb_value: u8,
    pub colormap_entries: u16,
    pub red_mask: u32,
    pub green_mask: u32,
    pub blue_mask: u32,
    pub pad0: [u8; 4],
}

impl xcb_visualtype_t {
    /// A visual type with the given fields and zero padding.
    pub fn new(
        visual_id: u32,
        class: u8,
        bits_per_rgb_value: u8,
        colormap_entries: u16,
        red_mask: u32,
        green_mask: u32,
        blue_mask: u32,
    ) -> (r: xcb_visualtype_t)
        ensures
            r.visual_id == visual_id,
            r.class == class,
            r.bits_per_rgb_value == bits_per_rgb_value,
            r.colormap_entries == colormap_entries,
            r.red_mask == red_mask,
            r.green_mask == green_mask,
            r.blue_mask == blue_mask,
            r.pad0@ == seq![0u8, 0u8, 0u8, 0u8],
    {
        xcb_visualtype_t {
            visual_id,
            class,
            bits_per_rgb_value,
            colormap_entries,
            red_mask,
            green_mask,
            blue_mask,
            pad0: [0u8; 4],
        }
    }
}

/// The visuals that a screen offers at one depth.
pub struct AllowedDepth {
    /// The depth in bits
    pub depth: u8,
    /// The visuals at that depth
    pub visuals: Vec<xcb_visualtype_t>,
}

/// Whether some visual of `depths` has the given depth and is true-color.
pub open spec fn has_true_color(depths: Seq<AllowedDepth>, depth: u8) -> bool {
    exists|i: int, j: int|
        0 <= i < depths.len() && depths[i].depth == depth && 0 <= j < depths[i].visuals@.len()
            && (#[trigger] depths[i].visuals@[j]).class == TRUE_COLOR
}

/// The first true-color visual of the given depth, walking the depths and
/// their visuals in order.
pub fn find_visual(depths: &Vec<AllowedDepth>, depth: u8) -> (r: Option<xcb_visualtype_t>)
    ensures
        r is None <==> !has_true_color(depths@, depth),
        r matches Some(v) ==> exists|i: int, j: int|
            0 <= i < depths@.len() && depths@[i].depth == depth && 0 <= j < depths@[i].visuals@.len()
                && depths@[i].visuals@[j] == v && v.class == TRUE_COLOR
                && (forall|i2: int, j2: int|
                    0 <= i2 < depths@.len() && depths@[i2].depth == depth && 0 <= j2 < depths@[i2].visuals@.len()
                        && (i2 < i || (i2 == i && j2 < j)) ==> (#[trigger] depths@[i2].visuals@[j2]).class != TRUE_COLOR),
{
    let mut i: usize = 0;
    while i < depths.len()
        invariant
            i <= depths.len(),
            forall|i2: int, j2: int|
                0 <= i2 < i && depths@[i2].depth == depth && 0 <= j2 < depths@[i2].visuals@.len()
                    ==> (#[trigger] depths@[i2].visuals@[j2]).class != TRUE_COLOR,
        decreases depths.len() - i,
    {
        if depths[i].depth == depth {
            let visuals = &depths[i].visuals;
            let mut j: usize = 0;
            while j < visuals.len()
                invariant
                    i < depths.len(),
                    depths@[i as int].depth == depth,
                    visuals == depths@[i as int].visuals,
                    j <= visuals.len(),
                    forall|i2: int, j2: int|
                        0 <= i2 < i && depths@[i2].depth == depth && 0 <= j2 < depths@[i2].visuals@.len()
                            ==> (#[trigger] depths@[i2].visuals@[j2]).class != TRUE_COLOR,
                    forall|j2: int| 0 <= j2 < j ==> (#[trigger] visuals@[j2]).class != TRUE_COLOR,
                decreases visuals.len() - j,
            {
                if visuals[j].class == TRUE_COLOR {
                    let v = visuals[j];
                    proof {
                        assert(depths@[i as int].visuals@[j as int] == v);
                    }
                    return Some(v);
                }
                j = j + 1;
            }
        }
        i = i + 1;
    }
    None
}

/// What the bar knows of a monitor.
pub struct Monitor {
    /// The name of the monitor, where the X server gave one
    pub name: Option<String>,
    /// Whether the monitor is the primary one
    pub primary: bool,
    /// The left edge
    pub x: i16,
    /// The top edge
    pub y: i16,
    /// The width in pixels
    pub width: u16,
    /// The height in pixels
    pub height: u16,
}

/// Why no monitor could be chosen.
#[derive(Debug, Clone, PartialEq, Eq)]
pub enum MonitorError {
    /// No monitor has the requested name
    NotFound,
    /// There are no monitors
    NoMonitors,
}

/// Whether the monitor has the name `name`.
pub open spec fn has_name(m: Monitor, name: Seq<char>) -> bool {
    match m.name {
        Some(n) => n@ == name,
        None => false,
    }
}

/// The index of the first monitor whose name is `name`.
pub open spec fn first_named(monitors: Seq<Monitor>, name: Seq<char>) -> Option<int> {
    if exists|i: int| 0 <= i < monitors.len() && has_name(#[trigger] monitors[i], name) {
        Some(choose|i: int|
            0 <= i < monitors.len() && has_name(#[trigger] monitors[i], name)
                && forall|j: int| 0 <= j < i ==> !has_name(monitors[j], name))
    } else {
        None
    }
}

/// The index of the first primary monitor.
pub open spec fn first_primary(monitors: Seq<Monitor>) -> Option<int> {
    if exists|i: int| 0 <= i < monitors.len() && #[trigger] monitors[i].primary {
        Some(choose|i: int| 0 <= i < monitors.len() && #[trigger] monitors[i].primary
            && forall|j: int| 0 <= j < i ==> !monitors[j].primary)
    } else {
        None
    }
}

/// The monitor that the bar is placed on: the first one with the requested
/// name, or without a name the first primary monitor, else the first one.
pub open spec fn chosen_monitor(monitors: Seq<Monitor>, wanted: Option<Seq<char>>) -> Result<int, MonitorError> {
    match wanted {
        Some(name) => match first_named(monitors, name) {
            Some(i) => Ok(i),
            None => Err(MonitorError::NotFound),
        },
        None => match first_primary(monitors) {
            Some(i) => Ok(i),
            None => if monitors.len() > 0 { Ok(0) } else { Err(MonitorError::NoMonitors) },
        },
    }
}

/// The index of the monitor that the bar is placed on; see [`chosen_monitor`].
pub fn choose_monitor(monitors: &Vec<Monitor>, wanted: Option<&str>) -> (r: Result<usize, MonitorError>)
    ensures
        match r {
            Ok(i) => chosen_monitor(monitors@, opt_str(wanted)) == Ok::<int, MonitorError>(i as int),
            Err(e) => chosen_monitor(monitors@, opt_str(wanted)) == Err::<int, MonitorError>(e),
        },
{
    match wanted {
        Some(name) => {
            let mut i: usize = 0;
            while i < monitors.len()
                invariant
                    i <= monitors.len(),
                    wanted == Some(name),
                    forall|j: int| 0 <= j < i ==> !has_name(monitors@[j], name@),
                decreases monitors.len() - i,
            {
                let hit = match &monitors[i].name {
                    Some(n) => same_text(n.as_str(), name),
                    None => false,
                };
                if hit {
                    proof {
                        assert(has_name(monitors@[i as int], name@));
                        assert(0 <= i < monitors@.len() && has_name(monitors@[i as int], name@)
                            && forall|j: int| 0 <= j < i ==> !has_name(monitors@[j], name@));
                        let w = choose|w: int|
                            0 <= w < monitors@.len() && has_name(#[trigger] monitors@[w], name@)
                                && forall|j: int| 0 <= j < w ==> !has_name(monitors@[j], name@);
                        if w < i {
                            assert(!has_name(monitors@[w], name@));
                        }
                        if w > i {
                            assert(!has_name(monitors@[i as int], name@));
                        }
                    }
                    return Ok(i);
                }
                i = i + 1;
            }
            Err(MonitorError::NotFound)
        },
        None => {
            let mut i: usize = 0;
            while i < monitors.len()
                invariant
                    i <= monitors.len(),
                    wanted is None,
                    forall|j: int| 0 <= j < i ==> !monitors@[j].primary,
                decreases monitors.len() - i,
            {
                if monitors[i].primary {
                    proof {
                        assert(0 <= i < monitors@.len() && monitors@[i as int].primary
                            && forall|j: int| 0 <= j < i ==> !monitors@[j].primary);
                        let w = choose|w: int| 0 <= w < monitors@.len() && #[trigger] monitors@[w].primary
                            && forall|j: int| 0 <= j < w ==> !monitors@[j].primary;
                        if w < i {
                            assert(!monitors@[w].primary);
                        }
                        if w > i {
                            assert(!monitors@[i as int].primary);
                        }
                    }
                    return Ok(i);
                }
                i = i + 1;
            }
            if monitors.len() > 0 {
                Ok(0)
            } else {
                Err(MonitorError::NoMonitors)
            }
        },
    }
}

/// The top edge of the bar's window on a monitor: the monitor's top for a
/// bar at the top, else the monitor's bottom less the bar's height.
pub open spec fn window_y_of(position: Position, mon_y: i16, mon_height: u16, height: u16) -> int {
    match position {
        Position::Top => mon_y as int,
        Position::Bottom => mon_y + (mon_height - height),
    }
}

/// The top edge of the bar's window; see [`window_y_of`].
pub fn window_y(position: Position, mon_y: i16, mon_height: u16, height: u16) -> (r: i16)
    requires
        position == Position::Bottom ==> height <= mon_height && mon_y + (mon_height - height) <= i16::MAX,
    ensures
        r as int == window_y_of(position, mon_y, mon_height, height),
{
    match position {
        Position::Top => mon_y,
        Position::Bottom => {
            let d: u16 = mon_height - height;
            (mon_y as i32 + d as i32) as i16
        },
    }
}

/// The value of `x as u32` in Rust: `x` taken modulo `2^32`.
pub open spec fn wrapped_u32(x: i16) -> int {
    if x >= 0 {
        x as int
    } else {
        x + 0x1_0000_0000
    }
}

/// Converts `x` as `x as u32` does in Rust; see [`wrapped_u32`].
fn to_u32(x: i16) -> (r: u32)
    ensures
        r as int == wrapped_u32(x),
{
    if x >= 0 {
        x as u32
    } else {
        (x as i64 + 0x1_0000_0000) as u32
    }
}

/// The `_NET_WM_STRUT_PARTIAL` values of the bar: the space it reserves at
/// the top or the bottom of the screen, over the columns of its monitor.
pub open spec fn strut_of(position: Position, height: u32, mon_x: i16, width: u32) -> Seq<u32> {
    let start = wrapped_u32(mon_x) as u32;
    let end = (start + width - 1) as u32;
    match position {
        Position::Top => seq![0, 0, height, 0, 0, 0, 0, 0, start, end, 0, 0],
        Position::Bottom => seq![0, 0, 0, height, 0, 0, 0, 0, 0, 0, start, end],
    }
}

/// The `_NET_WM_STRUT_PARTIAL` values of the bar; see [`strut_of`]. The first
/// four of them are its `_NET_WM_STRUT`.
pub fn strut(position: Position, height: u32, mon_x: i16, width: u32) -> (r: [u32; 12])
    requires
        1 <= width,
        wrapped_u32(mon_x) + width - 1 <= u32::MAX,
    ensures
        r@ == strut_of(position, height, mon_x, width),
{
    let start = to_u32(mon_x);
    let end = start + (width - 1);
    let r = match position {
        Position::Top => [0, 0, height, 0, 0, 0, 0, 0, start, end, 0, 0],
        Position::Bottom => [0, 0, 0, height, 0, 0, 0, 0, 0, 0, start, end],
    };
    proof {
        assert(r@ =~= strut_of(position, height, mon_x, width));
    }
    r
}

/// The `WM_NORMAL_HINTS` values of the bar: a fixed position, and a size
/// whose minimum, maximum and base are all the bar's size.
pub open spec fn size_hints_of(position: Position, mon_x: i16, mon_y: i16, mon_height: u16, width: u32, height: u32) -> Seq<u32> {
    let y = match position {
        Position::Top => wrapped_u32(mon_y) as u32,
        Position::Bottom => (wrapped_u32(mon_y) + mon_height - height) as u32,
    };
    seq![0x3c, wrapped_u32(mon_x) as u32, y, width, height, width, height, width, height, 0, 0, 0, 0, width, height]
}

/// The `WM_NORMAL_HINTS` values of the bar; see [`size_hints_of`].
pub fn size_hints(position: Position, mon_x: i16, mon_y: i16, mon_height: u16, width: u32, height: u32) -> (r: [u32; 15])
    requires
        position == Position::Bottom ==> wrapped_u32(mon_y) + mon_height <= u32::MAX
            && wrapped_u32(mon_y) + mon_height >= height,
    ensures
        r@ == size_hints_of(position, mon_x, mon_y, mon_height, width, height),
{
    let y = match position {
        Position::Top => to_u32(mon_y),
        Position::Bottom => to_u32(mon_y) + mon_height as u32 - height,
    };
    let r = [0x3c, to_u32(mon_x), y, width, height, width, height, width, height, 0, 0, 0, 0, width, height];
    proof {
        assert(r@ =~= size_hints_of(position, mon_x, mon_y, mon_height, width, height));
    }
    r
}

} // verus!
