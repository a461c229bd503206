//! The settings of one bar, read from the tables of its configuration.
use vstd::prelude::*;

use crate::config::{height_of, panel_kind_named, parse_height, parse_panel_kind, parse_position, position_named, PanelKind};
use crate::text::{opt_text, same_text};
use crate::{Alignment, Position};

verus! {

/// A list of panel names in the bar's table: missing, not an array, or its
/// elements, each the name where it is a string.
pub enum PanelList {
    /// The key is not in the table
    Missing,
    /// The value is not an array
    NotAnArray,
    /// The elements of the array
    Names(Vec<Option<String>>),
}

/// What the bar reads of its own table; each option is `None` where it is
/// missing or of another type.
pub struct BarEntry {
    /// `position`
    pub position: Option<String>,
    /// `height`
    pub height: Option<u64>,
    /// `transparent`
    pub transparent: Option<bool>,
    /// `reverse_scroll`
    pub reverse_scroll: Option<bool>,
    /// `ipc`
    pub ipc: Option<bool>,
    /// `monitor`, with its constants replaced
    pub monitor: Option<String>,
    /// `cursor_default`, `cursor_click` and `cursor_scroll`, each with its
    /// constants replaced
    pub cursors: (Option<String>, Option<String>, Option<String>),
    /// `panels_left`
    pub left: PanelList,
    /// `panels_center`
    pub center: PanelList,
    /// `panels_right`
    pub right: PanelList,
}

/// What the `bars` table holds for the bar that is asked for.
pub enum BarLookup {
    /// There is no `bars` table
    NoBarsTable,
    /// The `bars` table has no entry for the bar
    NoSuchBar,
    /// The bar's entry is not a table
    NotATable,
    /// The bar's table
    Found(BarEntry),
}

/// What the bar reads of a panel's table: its `type`, with its constants
/// replaced, where it is a string, and whether the panel of that kind can be
/// built from the rest of the table (the options that its kind reads, such
/// as a clock's precisions, are valid).
pub struct PanelEntry {
    /// `type`
    pub kind: Option<String>,
    /// Whether the panel's own options are valid for its kind
    pub valid: bool,
}

/// A panel of the bar.
pub struct PanelSpec {
    /// The panel's name, the key of its table
    pub name: String,
    /// Where on the bar it stands
    pub alignment: Alignment,
    /// Its kind
    pub kind: PanelKind,
}

/// The settings of a bar.
pub struct BarSettings {
    /// Where on the screen the bar stands
    pub position: Position,
    /// The height of the bar in pixels
    pub height: u16,
    /// Whether the bar's window is transparent
    pub transparent: bool,
    /// Whether scrolling is reversed
    pub reverse_scroll: bool,
    /// Whether the bar takes messages
    pub ipc: bool,
    /// The monitor on which the bar stands, where one is named
    pub monitor: Option<String>,
    /// The X cursors shown over the bar, over a clickable panel and over a
    /// scrollable one
    pub cursors: (String, String, String),
    /// The panels, the left ones, then the center ones, then the right ones,
    /// each group in the order of its list
    pub panels: Vec<PanelSpec>,
}

/// Why a bar cannot be read.
#[derive(Debug, Clone, Copy, PartialEq, Eq, Structural)]
pub enum SettingsError {
    /// There is no `bars` table
    NoBarsTable,
    /// The `bars` table has no entry for the bar
    NoSuchBar,
    /// The bar's entry is not a table
    BarNotATable,
    /// A list of panels is not an array
    NotAnArray(Alignment),
    /// There is no `panels` table
    NoPanelsTable,
}

/// The names that a list holds: `None` where it is not an array; the string
/// elements in order, the others dropped.
pub open spec fn list_names(l: PanelList) -> Option<Seq<Seq<char>>> {
    match l {
        PanelList::Missing => Some(Seq::empty()),
        PanelList::NotAnArray => None,
        PanelList::Names(v) => Some(string_elements(v@)),
    }
}

/// The string elements of a list, in order.
pub open spec fn string_elements(v: Seq<Option<String>>) -> Seq<Seq<char>>
    decreases v.len(),
{
    if v.len() == 0 {
        Seq::empty()
    } else {
        match v.last() {
            Some(s) => string_elements(v.drop_last()).push(s@),
            None => string_elements(v.drop_last()),
        }
    }
}

/// The kind of the panel named `name` in the `panels` table: `None` where it
/// has no table, no `type`, a `type` that names no kind of panel, or options
/// that are not valid for its kind, so that it cannot be built. The first
/// entry with the name counts.
pub open spec fn panel_kind_of(panels: Seq<(String, Option<PanelEntry>)>, name: Seq<char>) -> Option<PanelKind>
    decreases panels.len(),
{
    if panels.len() == 0 {
        None
    } else if panels[0].0@ == name {
        match panels[0].1 {
            Some(e) => match e.kind {
                Some(t) => if e.valid { panel_kind_named(t@) } else { None },
                None => None,
            },
            None => None,
        }
    } else {
        panel_kind_of(panels.drop_first(), name)
    }
}

/// The panels kept from a list of names: those that can be built, with
/// their kinds, in order.
pub open spec fn kept_panels(names: Seq<Seq<char>>, alignment: Alignment, panels: Seq<(String, Option<PanelEntry>)>) -> Seq<(Seq<char>, Alignment, PanelKind)>
    decreases names.len(),
{
    if names.len() == 0 {
        Seq::empty()
    } else {
        let prev = kept_panels(names.drop_last(), alignment, panels);
        match panel_kind_of(panels, names.last()) {
            Some(k) => prev.push((names.last(), alignment, k)),
            None => prev,
        }
    }
}

/// A panel as seen in contracts.
pub open spec fn panel_spec_view(p: PanelSpec) -> (Seq<char>, Alignment, PanelKind) {
    (p.name@, p.alignment, p.kind)
}

/// The settings of a bar as contracts see them: the position, the height,
/// whether the window is transparent, whether scrolling is reversed, whether
/// the bar takes messages, the monitor, the three cursors, and the panels,
/// each with its name, place and kind.
pub type SettingsModel = (
    Position,
    u16,
    bool,
    bool,
    bool,
    Option<Seq<char>>,
    (Seq<char>, Seq<char>, Seq<char>),
    Seq<(Seq<char>, Alignment, PanelKind)>,
);

/// A text option, or the given default where it is missing.
pub open spec fn text_or(o: Option<String>, default: Seq<char>) -> Seq<char> {
    match o {
        Some(t) => t@,
        None => default,
    }
}

/// The settings that the tables give, or the first reason why they cannot
/// be read: the `bars` table, the bar's entry and its table, then each list
/// of panels (left, center, right) that is given, then the `panels` table.
/// The position is `top` unless `bottom` is given, the height 24 unless
/// given, transparency, scrolling and messages off unless turned on, the
/// cursors `default`, `hand2` and `sb_v_double_arrow` unless named; panels
/// that cannot be built (see [`panel_kind_of`]) are skipped.
pub open spec fn bar_settings_of(bar: BarLookup, panels: Option<Seq<(String, Option<PanelEntry>)>>) -> Result<SettingsModel, SettingsError> {
    match bar {
        BarLookup::NoBarsTable => Err(SettingsError::NoBarsTable),
        BarLookup::NoSuchBar => Err(SettingsError::NoSuchBar),
        BarLookup::NotATable => Err(SettingsError::BarNotATable),
        BarLookup::Found(e) => match (list_names(e.left), list_names(e.center), list_names(e.right)) {
            (None, _, _) => Err(SettingsError::NotAnArray(Alignment::Left)),
            (_, None, _) => Err(SettingsError::NotAnArray(Alignment::Center)),
            (_, _, None) => Err(SettingsError::NotAnArray(Alignment::Right)),
            (Some(l), Some(c), Some(r)) => match panels {
                None => Err(SettingsError::NoPanelsTable),
                Some(ps) => Ok((
                    position_named(match e.position { Some(p) => p@, None => Seq::empty() }),
                    height_of(e.height),
                    e.transparent == Some(true),
                    e.reverse_scroll == Some(true),
                    e.ipc == Some(true),
                    opt_text(e.monitor),
                    (
                        text_or(e.cursors.0, "default"@),
                        text_or(e.cursors.1, "hand2"@),
                        text_or(e.cursors.2, "sb_v_double_arrow"@),
                    ),
                    kept_panels(l, Alignment::Left, ps) + kept_panels(c, Alignment::Center, ps) + kept_panels(r, Alignment::Right, ps),
                )),
            },
        },
    }
}

/// The settings as seen in contracts.
pub open spec fn settings_view(s: BarSettings) -> SettingsModel {
    (
        s.position,
        s.height,
        s.transparent,
        s.reverse_scroll,
        s.ipc,
        opt_text(s.monitor),
        (s.cursors.0@, s.cursors.1@, s.cursors.2@),
        s.panels@.map_values(|p: PanelSpec| panel_spec_view(p)),
    )
}

fn text_or_default(o: &Option<String>, default: &str) -> (r: String)
    ensures
        r@ == text_or(*o, default@),
{
    match o {
        Some(t) => t.clone(),
        None => default.to_string(),
    }
}

fn names_of(l: &PanelList) -> (r: Option<Vec<String>>)
    ensures
        match r {
            Some(v) => list_names(*l) == Some(v@.map_values(|s: String| s@)),
            None => list_names(*l) is None,
        },
{
    match l {
        PanelList::Missing => {
            let v: Vec<String> = Vec::new();
            proof {
                assert(v@.map_values(|s: String| s@) =~= Seq::<Seq<char>>::empty());
            }
            Some(v)
        },
        PanelList::NotAnArray => None,
        PanelList::Names(elems) => {
            let mut v: Vec<String> = Vec::new();
            let mut k: usize = 0;
            while k < elems.len()
                invariant
                    k <= elems@.len(),
                    v@.map_values(|s: String| s@) == string_elements(elems@.take(k as int)),
                decreases elems@.len() - k,
            {
                proof {
                    assert(elems@.take(k + 1).drop_last() =~= elems@.take(k as int));
                }
                let ghost before = v@;
                match &elems[k] {
                    Some(s) => {
                        v.push(s.clone());
                        proof {
                            assert(v@.map_values(|s: String| s@) =~= before.map_values(|s: String| s@).push(s@));
                        }
                    },
                    None => {},
                }
                k = k + 1;
            }
            proof {
                assert(elems@.take(k as int) =~= elems@);
            }
            Some(v)
        },
    }
}

fn kind_of(panels: &Vec<(String, Option<PanelEntry>)>, name: &str) -> (r: Option<PanelKind>)
    ensures
        r == panel_kind_of(panels@, name@),
{
    let mut i: usize = 0;
    proof {
        assert(panels@.skip(0) =~= panels@);
    }
    while i < panels.len()
        invariant
            i <= panels@.len(),
            panel_kind_of(panels@, name@) == panel_kind_of(panels@.skip(i as int), name@),
        decreases panels@.len() - i,
    {
        proof {
            assert(panels@.skip(i as int).drop_first() =~= panels@.skip(i + 1));
            assert(panels@.skip(i as int)[0] == panels@[i as int]);
        }
        if same_text(panels[i].0.as_str(), name) {
            return match &panels[i].1 {
                Some(e) => match &e.kind {
                    Some(t) => if e.valid { parse_panel_kind(t.as_str()) } else { None },
                    None => None,
                },
                None => None,
            };
        }
        i = i + 1;
    }
    None
}

fn keep_panels(out: &mut Vec<PanelSpec>, names: &Vec<String>, alignment: Alignment, panels: &Vec<(String, Option<PanelEntry>)>)
    ensures
        final(out)@.map_values(|p: PanelSpec| panel_spec_view(p)) == old(out)@.map_values(|p: PanelSpec| panel_spec_view(p))
            + kept_panels(names@.map_values(|s: String| s@), alignment, panels@),
{
    let ghost start = out@.map_values(|p: PanelSpec| panel_spec_view(p));
    let ghost nv = names@.map_values(|s: String| s@);
    let mut k: usize = 0;
    proof {
        assert(nv.take(0) =~= Seq::<Seq<char>>::empty());
        assert(start + kept_panels(nv.take(0), alignment, panels@) =~= start);
    }
    while k < names.len()
        invariant
            k <= names@.len(),
            nv == names@.map_values(|s: String| s@),
            out@.map_values(|p: PanelSpec| panel_spec_view(p)) == start + kept_panels(nv.take(k as int), alignment, panels@),
        decreases names@.len() - k,
    {
        proof {
            assert(nv.take(k + 1).drop_last() =~= nv.take(k as int));
            assert(nv.take(k + 1).last() == names@[k as int]@);
        }
        let ghost before = out@.map_values(|p: PanelSpec| panel_spec_view(p));
        match kind_of(panels, names[k].as_str()) {
            Some(kind) => {
                out.push(PanelSpec { name: names[k].clone(), alignment, kind });
                proof {
                    assert(out@.map_values(|p: PanelSpec| panel_spec_view(p)) =~= before.push((names@[k as int]@, alignment, kind)));
                }
            },
            None => {},
        }
        k = k + 1;
    }
    proof {
        assert(nv.take(k as int) =~= nv);
    }
}

/// Reads the settings of a bar from its entry in the `bars` table and from
/// the `panels` table (each panel's name with its table, or `None` where the
/// entry is not a table); see [`bar_settings_of`].
pub fn bar_settings(bar: &BarLookup, panels: Option<&Vec<(String, Option<PanelEntry>)>>) -> (r: Result<BarSettings, SettingsError>)
    ensures
        match r {
            Ok(s) => bar_settings_of(*bar, match panels { Some(p) => Some(p@), None => None }) == Ok::<_, SettingsError>(settings_view(s)),
            Err(e) => bar_settings_of(*bar, match panels { Some(p) => Some(p@), None => None }) == Err::<SettingsModel, SettingsError>(e),
        },
{
    let e = match bar {
        BarLookup::NoBarsTable => {
            return Err(SettingsError::NoBarsTable);
        },
        BarLookup::NoSuchBar => {
            return Err(SettingsError::NoSuchBar);
        },
        BarLookup::NotATable => {
            return Err(SettingsError::BarNotATable);
        },
        BarLookup::Found(e) => e,
    };
    let left = match names_of(&e.left) {
        Some(v) => v,
        None => {
            return Err(SettingsError::NotAnArray(Alignment::Left));
        },
    };
    let center = match names_of(&e.center) {
        Some(v) => v,
        None => {
            return Err(SettingsError::NotAnArray(Alignment::Center));
        },
    };
    let right = match names_of(&e.right) {
        Some(v) => v,
        None => {
            return Err(SettingsError::NotAnArray(Alignment::Right));
        },
    };
    let ps = match panels {
        None => {
            return Err(SettingsError::NoPanelsTable);
        },
        Some(p) => p,
    };
    let mut out: Vec<PanelSpec> = Vec::new();
    proof {
        assert(out@.map_values(|p: PanelSpec| panel_spec_view(p)) =~= Seq::<(Seq<char>, Alignment, PanelKind)>::empty());
    }
    keep_panels(&mut out, &left, Alignment::Left, ps);
    keep_panels(&mut out, &center, Alignment::Center, ps);
    keep_panels(&mut out, &right, Alignment::Right, ps);
    proof {
        reveal_strlit("");
        assert(""@ =~= Seq::<char>::empty());
    }
    let position = match &e.position {
        Some(p) => parse_position(p.as_str()),
        None => parse_position(""),
    };
    let monitor = match &e.monitor {
        Some(m) => Some(m.clone()),
        None => None,
    };
    let cursors = (
        text_or_default(&e.cursors.0, "default"),
        text_or_default(&e.cursors.1, "hand2"),
        text_or_default(&e.cursors.2, "sb_v_double_arrow"),
    );
    let s = BarSettings {
        position,
        height: parse_height(e.height),
        transparent: e.transparent == Some(true),
        reverse_scroll: e.reverse_scroll == Some(true),
        ipc: e.ipc == Some(true),
        monitor,
        cursors,
        panels: out,
    };
    proof {
        assert(s.panels@.map_values(|p: PanelSpec| panel_spec_view(p)) =~= kept_panels(left@.map_values(|s: String| s@), Alignment::Left, ps@)
            + kept_panels(center@.map_values(|s: String| s@), Alignment::Center, ps@)
            + kept_panels(right@.map_values(|s: String| s@), Alignment::Right, ps@));
    }
    Ok(s)
}

} // verus!
