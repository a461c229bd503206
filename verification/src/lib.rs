//! Verified core logic of a lightweight, event-driven status bar for
//! EWMH-compliant window managers on X11.
//!
//! The bar reads its configuration from a TOML file, runs a set of panels
//! and redraws them as their data sources change. This crate holds the
//! decisions and text processing of the bar: which panels are shown, how
//! mouse buttons and messages are routed, how format strings are filled in,
//! how panel data read from the system is parsed, and how the X11 window
//! properties of the bar are laid out.
use vstd::prelude::*;

pub mod actions;
pub mod bar;
pub mod cli;
pub mod clock;
pub mod config;
pub mod cpu;
pub mod mpd;
pub mod panels;
pub mod precision;
pub mod ramp;
pub mod settings;
pub mod systray;
pub mod text;
pub mod types;
pub mod usage;
pub mod x;
pub mod xworkspaces;

verus! {

/// Describes where on the screen the bar should appear.
#[derive(Clone, Copy, PartialEq, Eq, Debug, Structural)]
pub enum Position {
    /// The top of the screen
    Top,
    /// The bottom of the screen
    Bottom,
}

/// Describes where on the bar a panel should appear.
#[derive(Clone, Copy, PartialEq, Eq, Hash, Debug, Structural)]
pub enum Alignment {
    /// The left of the bar
    Left,
    /// The center of the bar
    Center,
    /// The right of the bar
    Right,
}

/// The name of an alignment, as it is shown in messages.
pub open spec fn alignment_name(a: Alignment) -> Seq<char> {
    match a {
        Alignment::Left => seq!['l', 'e', 'f', 't'],
        Alignment::Center => seq!['c', 'e', 'n', 't', 'e', 'r'],
        Alignment::Right => seq!['r', 'i', 'g', 'h', 't'],
    }
}

impl Alignment {
    /// The name of the alignment: `left`, `center` or `right`.
    pub fn name(&self) -> (r: &'static str)
        ensures
            r@ == alignment_name(*self),
    {
        match *self {
            Alignment::Left => {
                proof {
                    reveal_strlit("left");
                }
                "left"
            },
            Alignment::Center => {
                proof {
                    reveal_strlit("center");
                }
                "center"
            },
            Alignment::Right => {
                proof {
                    reveal_strlit("right");
                }
                "right"
            },
        }
    }
}

/// Describes the position and size of a clickable button.
#[derive(Debug)]
pub struct ButtonIndex {
    /// The name of the button.
    pub name: String,
    /// The start of the button in bytes.
    pub start: usize,
    /// The length of the button in bytes.
    pub length: usize,
}

} // verus!
