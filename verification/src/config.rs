//! Reading the configuration: constants substituted into strings, and the
//! options whose values select among the bar's behaviors.
use vstd::prelude::*;
use vstd::string::*;

use crate::bar::Dependence;
use crate::text::{chars_of, lowercase, opt_str, same_text, to_lowercase};
use crate::Position;

verus! {

/// What `regex::Regex::new(pattern)` and then `is_match(haystack)` give:
/// `None` where the pattern does not compile, else whether the pattern
/// matches somewhere in the haystack. Regular expression matching takes pages
/// to state, so the result is named here and computed by the `regex` crate.
pub uninterp spec fn regex_match(pattern: Seq<char>, haystack: Seq<char>) -> Option<bool>;

/// Compiles `pattern` with `regex::Regex::new` and, where it compiles, asks
/// `is_match` of `haystack`; the result is `regex_match` of the arguments.
#[verifier::external_body]
fn regex_is_match(pattern: &str, haystack: &str) -> (r: Option<bool>)
    ensures
        r == regex_match(pattern@, haystack@),
{
    regex::Regex::new(pattern).ok().map(|re| re.is_match(haystack))
}

/// The pattern that matches a string of exactly one word character, as `\w`
/// reads it in the `regex` crate (Unicode word characters).
pub open spec fn word_pattern() -> Seq<char> {
    "\\A\\w\\z"@
}

/// Whether `c` is a word character, as `\w` reads it.
pub open spec fn word_char(c: char) -> bool {
    regex_match(word_pattern(), seq![c]) == Some(true)
}

/// Whether the character at position `i` of `s` is a word character.
fn word_char_at(s: &str, i: usize) -> (r: bool)
    requires
        i < s@.len(),
        s@.len() <= usize::MAX,
    ensures
        r == word_char(s@[i as int]),
{
    let c = s.substring_char(i, i + 1);
    proof {
        assert(c@ =~= seq![s@[i as int]]);
    }
    match regex_is_match("\\A\\w\\z", c) {
        Some(true) => true,
        _ => false,
    }
}

/// The end of the run of word characters in `s` that starts at `j`.
pub open spec fn word_run_end(s: Seq<char>, j: int) -> int
    decreases s.len() - j,
{
    if 0 <= j < s.len() && word_char(s[j]) {
        word_run_end(s, j + 1)
    } else {
        j
    }
}

proof fn lemma_word_run_end_at_least(s: Seq<char>, j: int)
    ensures
        word_run_end(s, j) >= j,
    decreases s.len() - j,
{
    if 0 <= j < s.len() && word_char(s[j]) {
        lemma_word_run_end_at_least(s, j + 1);
    }
}

/// Where a reference to a constant, `%{name}` with a name of one or more word
/// characters, starts at position `i` of `s`: the position of its `}`.
pub open spec fn const_ref_end(s: Seq<char>, i: int) -> Option<int> {
    if 0 <= i && i + 1 < s.len() && s[i] == '%' && s[i + 1] == '{' {
        let e = word_run_end(s, i + 2);
        if e > i + 2 && e < s.len() && s[e] == '}' {
            Some(e)
        } else {
            None
        }
    } else {
        None
    }
}

/// The value of the constant `name`: the value of its first entry, or nothing
/// where there is no such constant.
pub open spec fn const_value(consts: Seq<(String, String)>, name: Seq<char>) -> Seq<char>
    decreases consts.len(),
{
    if consts.len() == 0 {
        Seq::empty()
    } else if consts[0].0@ == name {
        consts[0].1@
    } else {
        const_value(consts.skip(1), name)
    }
}

/// `s` from position `i` on, with every reference to a constant replaced by
/// its value, scanning from the left.
pub open spec fn consts_from(s: Seq<char>, consts: Seq<(String, String)>, i: int) -> Seq<char>
    decreases s.len() - i,
{
    if i < 0 || i >= s.len() {
        Seq::empty()
    } else {
        match const_ref_end(s, i) {
            Some(e) => const_value(consts, s.subrange(i + 2, e)) + consts_from(s, consts, e + 1),
            None => seq![s[i]] + consts_from(s, consts, i + 1),
        }
    }
}

/// `s` with every reference `%{name}` to a constant replaced by its value.
pub open spec fn consts_replaced(s: Seq<char>, consts: Seq<(String, String)>) -> Seq<char> {
    consts_from(s, consts, 0)
}

fn lookup_const<'a>(consts: &'a Vec<(String, String)>, name: &str) -> (r: &'a str)
    ensures
        r@ == const_value(consts@, name@),
{
    let mut k: usize = 0;
    proof {
        assert(consts@.skip(0) =~= consts@);
    }
    while k < consts.len()
        invariant
            k <= consts.len(),
            const_value(consts@, name@) == const_value(consts@.skip(k as int), name@),
        decreases consts.len() - k,
    {
        proof {
            assert(consts@.skip(k as int).skip(1) =~= consts@.skip(k + 1));
            assert(consts@.skip(k as int)[0] == consts@[k as int]);
        }
        if same_text(consts[k].0.as_str(), name) {
            return consts[k].1.as_str();
        }
        k = k + 1;
    }
    proof {
        reveal_strlit("");
        assert(consts@.skip(k as int).len() == 0);
    }
    ""
}

/// Replace references to constants (of the form `%{const_name}`) with their
/// respective constants. `consts` holds the name and value of each constant;
/// a reference to an unknown constant is replaced by nothing.
pub fn replace_consts(format: &str, consts: &Vec<(String, String)>) -> (r: String)
    ensures
        r@ == consts_replaced(format@, consts@),
{
    let cs = chars_of(format);
    let n = cs.len();
    let mut out = String::new();
    let mut i: usize = 0;
    proof {
        assert(out@ + consts_from(format@, consts@, 0) =~= consts_replaced(format@, consts@));
    }
    while i < n
        invariant
            cs@ == format@,
            n == format@.len(),
            i <= n,
            out@ + consts_from(format@, consts@, i as int) == consts_replaced(format@, consts@),
        decreases n - i,
    {
        let ghost s = format@;
        let mut end: Option<usize> = None;
        if i + 1 < n && cs[i] == '%' && cs[i + 1] == '{' {
            let mut j: usize = i + 2;
            while j < n && word_char_at(format, j)
                invariant
                    cs@ == format@,
                    n == format@.len(),
                    i + 2 <= j <= n,
                    word_run_end(format@, i + 2) == word_run_end(format@, j as int),
                decreases n - j,
            {
                j = j + 1;
            }
            if j > i + 2 && j < n && cs[j] == '}' {
                end = Some(j);
            }
        }
        proof {
            assert(end matches Some(e) ==> const_ref_end(s, i as int) == Some(e as int));
            assert(end is None ==> const_ref_end(s, i as int) is None);
        }
        match end {
            Some(e) => {
                let name = format.substring_char(i + 2, e);
                out.append(lookup_const(consts, name));
                i = e + 1;
            },
            None => {
                out.append(format.substring_char(i, i + 1));
                proof {
                    assert(format@.subrange(i as int, i + 1) =~= seq![s[i as int]]);
                }
                i = i + 1;
            },
        }
    }
    proof {
        assert(out@ =~= consts_replaced(format@, consts@));
    }
    out
}

/// The dependence that the `dependence` option names, in any case: `left`,
/// `right` or `both`; anything else, or no option, is no dependence.
pub open spec fn dependence_named(s: Option<Seq<char>>) -> Dependence {
    match s {
        Some(v) => {
            let l = lowercase(v);
            if l == "left"@ {
                Dependence::Left
            } else if l == "right"@ {
                Dependence::Right
            } else if l == "both"@ {
                Dependence::Both
            } else {
                Dependence::Independent
            }
        },
        None => Dependence::Independent,
    }
}

/// Reads the `dependence` option of a panel.
pub fn parse_dependence(s: Option<&str>) -> (r: Dependence)
    ensures
        r == dependence_named(opt_str(s)),
{
    match s {
        None => Dependence::Independent,
        Some(v) => {
            let l = to_lowercase(v);
            let l = l.as_str();
            if same_text(l, "left") {
                Dependence::Left
            } else if same_text(l, "right") {
                Dependence::Right
            } else if same_text(l, "both") {
                Dependence::Both
            } else {
                Dependence::Independent
            }
        },
    }
}

/// The position that the `position` option of a bar names: `bottom`, or the
/// top for anything else.
pub open spec fn position_named(s: Seq<char>) -> Position {
    if s == "bottom"@ {
        Position::Bottom
    } else {
        Position::Top
    }
}

/// Reads the `position` option of a bar; a missing or non-string option reads
/// as the empty string.
pub fn parse_position(s: &str) -> (r: Position)
    ensures
        r == position_named(s@),
{
    if same_text(s, "bottom") {
        Position::Bottom
    } else {
        Position::Top
    }
}

/// The height of a bar: the `height` option, 24 where it is missing, cut to
/// its low 16 bits.
pub open spec fn height_of(h: Option<u64>) -> u16 {
    match h {
        Some(v) => (v % 0x1_0000) as u16,
        None => 24,
    }
}

/// Reads the `height` option of a bar.
pub fn parse_height(h: Option<u64>) -> (r: u16)
    ensures
        r == height_of(h),
{
    match h {
        Some(v) => (v % 0x1_0000) as u16,
        None => 24,
    }
}

/// The kinds of panels that a bar can hold.
#[derive(Debug, Clone, Copy, PartialEq, Eq, Structural)]
pub enum PanelKind {
    /// `battery`
    Battery,
    /// `clock`
    Clock,
    /// `cpu`
    Cpu,
    /// `custom`
    Custom,
    /// `github`
    Github,
    /// `i3mode`
    I3Mode,
    /// `inotify`
    Inotify,
    /// `memory`
    Memory,
    /// `mpd`
    Mpd,
    /// `network`
    Network,
    /// `ping`
    Ping,
    /// `pulseaudio`
    Pulseaudio,
    /// `separator`
    Separator,
    /// `storage`
    Storage,
    /// `systray`
    Systray,
    /// `temp`
    Temp,
    /// `xwindow`
    XWindow,
    /// `xworkspaces`
    XWorkspaces,
}

/// The kind of panel that the `type` option of a panel names.
pub open spec fn panel_kind_named(s: Seq<char>) -> Option<PanelKind> {
    if s == "battery"@ {
        Some(PanelKind::Battery)
    } else if s == "clock"@ {
        Some(PanelKind::Clock)
    } else if s == "cpu"@ {
        Some(PanelKind::Cpu)
    } else if s == "custom"@ {
        Some(PanelKind::Custom)
    } else if s == "github"@ {
        Some(PanelKind::Github)
    } else if s == "i3mode"@ {
        Some(PanelKind::I3Mode)
    } else if s == "inotify"@ {
        Some(PanelKind::Inotify)
    } else if s == "memory"@ {
        Some(PanelKind::Memory)
    } else if s == "mpd"@ {
        Some(PanelKind::Mpd)
    } else if s == "network"@ {
        Some(PanelKind::Network)
    } else if s == "ping"@ {
        Some(PanelKind::Ping)
    } else if s == "pulseaudio"@ {
        Some(PanelKind::Pulseaudio)
    } else if s == "separator"@ {
        Some(PanelKind::Separator)
    } else if s == "storage"@ {
        Some(PanelKind::Storage)
    } else if s == "systray"@ {
        Some(PanelKind::Systray)
    } else if s == "temp"@ {
        Some(PanelKind::Temp)
    } else if s == "xwindow"@ {
        Some(PanelKind::XWindow)
    } else if s == "xworkspaces"@ {
        Some(PanelKind::XWorkspaces)
    } else {
        None
    }
}

/// Reads the `type` option of a panel; `None` for an unknown panel type.
pub fn parse_panel_kind(s: &str) -> (r: Option<PanelKind>)
    ensures
        r == panel_kind_named(s@),
{
    if same_text(s, "battery") {
        Some(PanelKind::Battery)
    } else if same_text(s, "clock") {
        Some(PanelKind::Clock)
    } else if same_text(s, "cpu") {
        Some(PanelKind::Cpu)
    } else if same_text(s, "custom") {
        Some(PanelKind::Custom)
    } else if same_text(s, "github") {
        Some(PanelKind::Github)
    } else if same_text(s, "i3mode") {
        Some(PanelKind::I3Mode)
    } else if same_text(s, "inotify") {
        Some(PanelKind::Inotify)
    } else if same_text(s, "memory") {
        Some(PanelKind::Memory)
    } else if same_text(s, "mpd") {
        Some(PanelKind::Mpd)
    } else if same_text(s, "network") {
        Some(PanelKind::Network)
    } else if same_text(s, "ping") {
        Some(PanelKind::Ping)
    } else if same_text(s, "pulseaudio") {
        Some(PanelKind::Pulseaudio)
    } else if same_text(s, "separator") {
        Some(PanelKind::Separator)
    } else if same_text(s, "storage") {
        Some(PanelKind::Storage)
    } else if same_text(s, "systray") {
        Some(PanelKind::Systray)
    } else if same_text(s, "temp") {
        Some(PanelKind::Temp)
    } else if same_text(s, "xwindow") {
        Some(PanelKind::XWindow)
    } else if same_text(s, "xworkspaces") {
        Some(PanelKind::XWorkspaces)
    } else {
        None
    }
}

/// The name by which the `type` option of a panel asks for a kind: the
/// kind's own name in lower case.
pub open spec fn kind_name(k: PanelKind) -> Seq<char> {
    match k {
        PanelKind::Battery => "battery"@,
        PanelKind::Clock => "clock"@,
        PanelKind::Cpu => "cpu"@,
        PanelKind::Custom => "custom"@,
        PanelKind::Github => "github"@,
        PanelKind::I3Mode => "i3mode"@,
        PanelKind::Inotify => "inotify"@,
        PanelKind::Memory => "memory"@,
        PanelKind::Mpd => "mpd"@,
        PanelKind::Network => "network"@,
        PanelKind::Ping => "ping"@,
        PanelKind::Pulseaudio => "pulseaudio"@,
        PanelKind::Separator => "separator"@,
        PanelKind::Storage => "storage"@,
        PanelKind::Systray => "systray"@,
        PanelKind::Temp => "temp"@,
        PanelKind::XWindow => "xwindow"@,
        PanelKind::XWorkspaces => "xworkspaces"@,
    }
}

/// Each kind of panel is asked for by its own name, and a `type` that names a
/// kind at all is that kind's name: the type string and the kind agree.
pub proof fn law_panel_kind_names(k: PanelKind, s: Seq<char>)
    ensures
        panel_kind_named(kind_name(k)) == Some(k),
        panel_kind_named(s) matches Some(j) ==> s == kind_name(j),
{
    reveal_strlit("battery");
    reveal_strlit("clock");
    reveal_strlit("cpu");
    reveal_strlit("custom");
    reveal_strlit("github");
    reveal_strlit("i3mode");
    reveal_strlit("inotify");
    reveal_strlit("memory");
    reveal_strlit("mpd");
    reveal_strlit("network");
    reveal_strlit("ping");
    reveal_strlit("pulseaudio");
    reveal_strlit("separator");
    reveal_strlit("storage");
    reveal_strlit("systray");
    reveal_strlit("temp");
    reveal_strlit("xwindow");
    reveal_strlit("xworkspaces");
    assert("battery"@[0] == 'b' && "battery"@[1] == 'a');
    assert("clock"@[0] == 'c' && "clock"@[1] == 'l');
    assert("cpu"@[0] == 'c' && "cpu"@[1] == 'p');
    assert("custom"@[0] == 'c' && "custom"@[1] == 'u');
    assert("github"@[0] == 'g' && "github"@[1] == 'i');
    assert("i3mode"@[0] == 'i' && "i3mode"@[1] == '3');
    assert("inotify"@[0] == 'i' && "inotify"@[1] == 'n');
    assert("memory"@[0] == 'm' && "memory"@[1] == 'e');
    assert("mpd"@[0] == 'm' && "mpd"@[1] == 'p');
    assert("network"@[0] == 'n' && "network"@[1] == 'e');
    assert("ping"@[0] == 'p' && "ping"@[1] == 'i');
    assert("pulseaudio"@[0] == 'p' && "pulseaudio"@[1] == 'u');
    assert("separator"@[0] == 's' && "separator"@[1] == 'e');
    assert("storage"@[0] == 's' && "storage"@[1] == 't');
    assert("systray"@[0] == 's' && "systray"@[1] == 'y');
    assert("temp"@[0] == 't' && "temp"@[1] == 'e');
    assert("xwindow"@[0] == 'x' && "xwindow"@[1] == 'w');
    assert("xworkspaces"@[0] == 'x' && "xworkspaces"@[1] == 'w');
    match k {
        PanelKind::Battery => assert(panel_kind_named(kind_name(k)) == Some(k)),
        PanelKind::Clock => assert(panel_kind_named(kind_name(k)) == Some(k)),
        PanelKind::Cpu => assert(panel_kind_named(kind_name(k)) == Some(k)),
        PanelKind::Custom => assert(panel_kind_named(kind_name(k)) == Some(k)),
        PanelKind::Github => assert(panel_kind_named(kind_name(k)) == Some(k)),
        PanelKind::I3Mode => assert(panel_kind_named(kind_name(k)) == Some(k)),
        PanelKind::Inotify => assert(panel_kind_named(kind_name(k)) == Some(k)),
        PanelKind::Memory => assert(panel_kind_named(kind_name(k)) == Some(k)),
        PanelKind::Mpd => assert(panel_kind_named(kind_name(k)) == Some(k)),
        PanelKind::Network => assert(panel_kind_named(kind_name(k)) == Some(k)),
        PanelKind::Ping => assert(panel_kind_named(kind_name(k)) == Some(k)),
        PanelKind::Pulseaudio => assert(panel_kind_named(kind_name(k)) == Some(k)),
        PanelKind::Separator => assert(panel_kind_named(kind_name(k)) == Some(k)),
        PanelKind::Storage => assert(panel_kind_named(kind_name(k)) == Some(k)),
        PanelKind::Systray => assert(panel_kind_named(kind_name(k)) == Some(k)),
        PanelKind::Temp => assert(panel_kind_named(kind_name(k)) == Some(k)),
        PanelKind::XWindow => assert(panel_kind_named(kind_name(k)) == Some(k)),
        PanelKind::XWorkspaces => {
            assert("xworkspaces"@[2] == 'o' && "xwindow"@[2] == 'i');
            assert(panel_kind_named(kind_name(k)) == Some(k));
        },
    }
}


/// The name of a dependence in the configuration; an independent panel has
/// no name of its own and is what any other value gives.
pub open spec fn dependence_name(d: Dependence) -> Option<Seq<char>> {
    match d {
        Dependence::Left => Some("left"@),
        Dependence::Right => Some("right"@),
        Dependence::Both => Some("both"@),
        Dependence::Independent => None,
    }
}

/// The `dependence` option names a dependence exactly where, in lower case,
/// it is that dependence's name; every other value, and no option, leaves
/// the panel independent. The `position` option puts the bar at the bottom
/// exactly where it is `bottom`.
pub proof fn law_dependence_and_position_names(d: Dependence, s: Seq<char>)
    ensures
        dependence_name(d) == Some(lowercase(s)) ==> dependence_named(Some(s)) == d,
        dependence_name(dependence_named(Some(s))) matches Some(n) ==> n == lowercase(s),
        dependence_named(None) == Dependence::Independent,
        position_named(s) == Position::Bottom <==> s == "bottom"@,
{
    reveal_strlit("left");
    reveal_strlit("right");
    reveal_strlit("both");
    assert("left"@[0] == 'l' && "right"@[0] == 'r' && "both"@[0] == 'b');
}

} // verus!
