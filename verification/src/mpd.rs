//! The music player panel: its formats and buttons, the commands its
//! actions send, and how its main text scrolls or is cut.
use vstd::prelude::*;
use vstd::string::*;

use crate::bar::MouseButton;
use crate::text::{aho_corasick_replace, aho_corasick_replaced, opt_str, replace_all, replaced, same_text, texts};
use crate::ButtonIndex;

verus! {

/// Whether the player plays, is paused or is stopped.
#[derive(Debug, Clone, Copy, PartialEq, Eq, Structural)]
pub enum PlayerState {
    /// Music is playing
    Play,
    /// Music is paused
    Pause,
    /// No music is playing
    Stop,
}

/// The formats of the panel.
pub struct MpdFormats {
    /// The whole panel while music plays
    pub playing: String,
    /// The whole panel while music is paused
    pub paused: String,
    /// The whole panel while no music plays
    pub stopped: String,
    /// The main region, which scrolls and holds the progress bar
    pub main: String,
    /// The button to skip forward
    pub next: String,
    /// The button to skip back
    pub prev: String,
    /// The play button
    pub play: String,
    /// The pause button
    pub pause: String,
    /// The play/pause button while music plays
    pub toggle_playing: String,
    /// The play/pause button while music is paused
    pub toggle_paused: String,
    /// The play/pause button while no music plays
    pub toggle_stopped: String,
    /// The shuffle button
    pub shuffle: String,
    /// The repeat button
    pub repeat: String,
    /// The random button
    pub random: String,
    /// The single button
    pub single: String,
    /// The consume button
    pub consume: String,
}

/// The format of the whole panel in a player state.
pub open spec fn state_format_of(f: MpdFormats, state: PlayerState) -> Seq<char> {
    match state {
        PlayerState::Play => f.playing@,
        PlayerState::Pause => f.paused@,
        PlayerState::Stop => f.stopped@,
    }
}

impl MpdFormats {
    /// The format of the whole panel in a player state.
    pub fn state_format(&self, state: PlayerState) -> (r: &String)
        ensures
            r@ == state_format_of(*self, state),
    {
        match state {
            PlayerState::Play => &self.playing,
            PlayerState::Pause => &self.paused,
            PlayerState::Stop => &self.stopped,
        }
    }
}

/// The placeholders of the panel's formats, in the order of their values.
pub open spec fn mpd_placeholders() -> Seq<Seq<char>> {
    seq![
        "%title%"@, "%artist%"@, "%next%"@, "%prev%"@, "%play%"@, "%pause%"@, "%toggle%"@, "%main%"@,
        "%shuffle%"@, "%repeat%"@, "%random%"@, "%single%"@, "%consume%"@,
    ]
}

/// A song's tag, or `Unknown` where the song or the tag is missing.
pub open spec fn tag_or_unknown(tag: Option<Seq<char>>) -> Seq<char> {
    match tag {
        Some(t) => t,
        None => "Unknown"@,
    }
}

/// What each placeholder stands for: the song's title and artist, the
/// buttons' formats (the play/pause button's by player state), and
/// `%main%` itself, which is filled in last.
pub open spec fn mpd_values(f: MpdFormats, state: PlayerState, title: Option<Seq<char>>, artist: Option<Seq<char>>) -> Seq<Seq<char>> {
    seq![
        tag_or_unknown(title), tag_or_unknown(artist), f.next@, f.prev@, f.play@, f.pause@,
        match state {
            PlayerState::Play => f.toggle_playing@,
            PlayerState::Pause => f.toggle_paused@,
            PlayerState::Stop => f.toggle_stopped@,
        },
        "%main%"@, f.shuffle@, f.repeat@, f.random@, f.single@, f.consume@,
    ]
}

/// The placeholders of the panel, as strings.
fn mpd_placeholder_list() -> (r: Vec<String>)
    ensures
        texts(r@) == mpd_placeholders(),
{
    let v: Vec<String> = vec![
        "%title%".to_string(), "%artist%".to_string(), "%next%".to_string(), "%prev%".to_string(),
        "%play%".to_string(), "%pause%".to_string(), "%toggle%".to_string(), "%main%".to_string(),
        "%shuffle%".to_string(), "%repeat%".to_string(), "%random%".to_string(), "%single%".to_string(),
        "%consume%".to_string(),
    ];
    proof {
        assert(texts(v@) =~= mpd_placeholders());
    }
    v
}

/// A song's tag, or `Unknown`.
fn tag_text(tag: Option<&str>) -> (r: String)
    ensures
        r@ == tag_or_unknown(opt_str(tag)),
{
    match tag {
        Some(t) => t.to_string(),
        None => "Unknown".to_string(),
    }
}

/// What each placeholder stands for; see [`mpd_values`].
pub fn placeholder_values(f: &MpdFormats, state: PlayerState, title: Option<&str>, artist: Option<&str>) -> (r: Vec<String>)
    ensures
        texts(r@) == mpd_values(*f, state, opt_str(title), opt_str(artist)),
{
    let toggle = match state {
        PlayerState::Play => f.toggle_playing.clone(),
        PlayerState::Pause => f.toggle_paused.clone(),
        PlayerState::Stop => f.toggle_stopped.clone(),
    };
    let v: Vec<String> = vec![
        tag_text(title), tag_text(artist), f.next.clone(), f.prev.clone(), f.play.clone(), f.pause.clone(),
        toggle, "%main%".to_string(), f.shuffle.clone(), f.repeat.clone(), f.random.clone(),
        f.single.clone(), f.consume.clone(),
    ];
    proof {
        assert(texts(v@) =~= mpd_values(*f, state, opt_str(title), opt_str(artist)));
    }
    v
}

/// Fills in the placeholders of a format of the panel; see [`mpd_values`].
/// `None` where the automaton of the placeholders cannot be built.
pub fn mpd_text(format: &str, f: &MpdFormats, state: PlayerState, title: Option<&str>, artist: Option<&str>) -> (r: Option<String>)
    ensures
        match r {
            Some(t) => aho_corasick_replaced(mpd_placeholders(), format@, mpd_values(*f, state, opt_str(title), opt_str(artist))) == Some(t@),
            None => aho_corasick_replaced(mpd_placeholders(), format@, mpd_values(*f, state, opt_str(title), opt_str(artist))) is None,
        },
{
    let patterns = mpd_placeholder_list();
    let values = placeholder_values(f, state, title, artist);
    proof {
        assert(texts(patterns@).len() == patterns@.len());
        assert(texts(values@).len() == values@.len());
    }
    aho_corasick_replace(&patterns, format, &values)
}

/// What an action of the panel asks of the player.
#[derive(Debug, Clone, Copy, PartialEq, Eq, Structural)]
pub enum MpdCommand {
    /// Skip forward
    Next,
    /// Skip back
    Prev,
    /// Play
    Play,
    /// Pause
    Pause,
    /// Toggle between playing and paused
    Toggle,
    /// Shuffle the queue
    Shuffle,
    /// Flip the repeat mode
    Repeat,
    /// Flip the random mode
    Random,
    /// Flip the single mode
    Single,
    /// Flip the consume mode
    Consume,
    /// Nothing: the main region is no button
    Main,
    /// An action the panel does not know; it is logged and ignored
    Unknown,
}

/// The command that an action names.
pub open spec fn command_named(a: Seq<char>) -> MpdCommand {
    if a == "next"@ {
        MpdCommand::Next
    } else if a == "prev"@ {
        MpdCommand::Prev
    } else if a == "play"@ {
        MpdCommand::Play
    } else if a == "pause"@ {
        MpdCommand::Pause
    } else if a == "toggle"@ {
        MpdCommand::Toggle
    } else if a == "shuffle"@ {
        MpdCommand::Shuffle
    } else if a == "repeat"@ {
        MpdCommand::Repeat
    } else if a == "random"@ {
        MpdCommand::Random
    } else if a == "single"@ {
        MpdCommand::Single
    } else if a == "consume"@ {
        MpdCommand::Consume
    } else if a == "main"@ {
        MpdCommand::Main
    } else {
        MpdCommand::Unknown
    }
}

/// The command that an action names; see [`command_named`].
pub fn mpd_command(action: &str) -> (r: MpdCommand)
    ensures
        r == command_named(action@),
{
    if same_text(action, "next") {
        MpdCommand::Next
    } else if same_text(action, "prev") {
        MpdCommand::Prev
    } else if same_text(action, "play") {
        MpdCommand::Play
    } else if same_text(action, "pause") {
        MpdCommand::Pause
    } else if same_text(action, "toggle") {
        MpdCommand::Toggle
    } else if same_text(action, "shuffle") {
        MpdCommand::Shuffle
    } else if same_text(action, "repeat") {
        MpdCommand::Repeat
    } else if same_text(action, "random") {
        MpdCommand::Random
    } else if same_text(action, "single") {
        MpdCommand::Single
    } else if same_text(action, "consume") {
        MpdCommand::Consume
    } else if same_text(action, "main") {
        MpdCommand::Main
    } else {
        MpdCommand::Unknown
    }
}

/// The action that asks for a command: the command's own name in lower
/// case; the main region's action is `main`. An unknown command has no
/// name of its own, so it is given an empty one, which asks for nothing.
pub open spec fn command_name(c: MpdCommand) -> Seq<char> {
    match c {
        MpdCommand::Next => "next"@,
        MpdCommand::Prev => "prev"@,
        MpdCommand::Play => "play"@,
        MpdCommand::Pause => "pause"@,
        MpdCommand::Toggle => "toggle"@,
        MpdCommand::Shuffle => "shuffle"@,
        MpdCommand::Repeat => "repeat"@,
        MpdCommand::Random => "random"@,
        MpdCommand::Single => "single"@,
        MpdCommand::Consume => "consume"@,
        MpdCommand::Main => "main"@,
        MpdCommand::Unknown => Seq::empty(),
    }
}

/// Each command is asked for by its own name, so the names give distinct
/// commands, and an action that asks for any command at all is that
/// command's name.
pub proof fn law_command_names(c: MpdCommand, a: Seq<char>)
    ensures
        !(c is Unknown) ==> command_named(command_name(c)) == c,
        !(command_named(a) is Unknown) ==> a == command_name(command_named(a)),
{
    reveal_strlit("next");
    reveal_strlit("prev");
    reveal_strlit("play");
    reveal_strlit("pause");
    reveal_strlit("toggle");
    reveal_strlit("shuffle");
    reveal_strlit("repeat");
    reveal_strlit("random");
    reveal_strlit("single");
    reveal_strlit("consume");
    reveal_strlit("main");
    assert("next"@[0] == 'n' && "next"@[1] == 'e' && "next"@[2] == 'x');
    assert("prev"@[0] == 'p' && "prev"@[1] == 'r' && "prev"@[2] == 'e');
    assert("play"@[0] == 'p' && "play"@[1] == 'l' && "play"@[2] == 'a');
    assert("pause"@[0] == 'p' && "pause"@[1] == 'a' && "pause"@[2] == 'u');
    assert("toggle"@[0] == 't' && "toggle"@[1] == 'o' && "toggle"@[2] == 'g');
    assert("shuffle"@[0] == 's' && "shuffle"@[1] == 'h' && "shuffle"@[2] == 'u');
    assert("repeat"@[0] == 'r' && "repeat"@[1] == 'e' && "repeat"@[2] == 'p');
    assert("random"@[0] == 'r' && "random"@[1] == 'a' && "random"@[2] == 'n');
    assert("single"@[0] == 's' && "single"@[1] == 'i' && "single"@[2] == 'n');
    assert("consume"@[0] == 'c' && "consume"@[1] == 'o' && "consume"@[2] == 'n');
    assert("main"@[0] == 'm' && "main"@[1] == 'a' && "main"@[2] == 'i');
    match c {
        MpdCommand::Next => assert(command_named(command_name(c)) == c),
        MpdCommand::Prev => assert(command_named(command_name(c)) == c),
        MpdCommand::Play => assert(command_named(command_name(c)) == c),
        MpdCommand::Pause => assert(command_named(command_name(c)) == c),
        MpdCommand::Toggle => assert(command_named(command_name(c)) == c),
        MpdCommand::Shuffle => assert(command_named(command_name(c)) == c),
        MpdCommand::Repeat => assert(command_named(command_name(c)) == c),
        MpdCommand::Random => assert(command_named(command_name(c)) == c),
        MpdCommand::Single => assert(command_named(command_name(c)) == c),
        MpdCommand::Consume => assert(command_named(command_name(c)) == c),
        MpdCommand::Main => assert(command_named(command_name(c)) == c),
        MpdCommand::Unknown => {},
    }
}

/// Each placeholder of the panel stands for the format or the tag of the
/// same name; `%toggle%` for the play/pause button of the player's state,
/// and `%main%` for itself, as it is filled in last.
pub proof fn law_mpd_values(f: MpdFormats, state: PlayerState, title: Option<Seq<char>>, artist: Option<Seq<char>>)
    ensures
        mpd_placeholders().len() == mpd_values(f, state, title, artist).len(),
        mpd_placeholders()[0] == "%title%"@ && mpd_values(f, state, title, artist)[0] == tag_or_unknown(title),
        mpd_placeholders()[1] == "%artist%"@ && mpd_values(f, state, title, artist)[1] == tag_or_unknown(artist),
        mpd_placeholders()[2] == "%next%"@ && mpd_values(f, state, title, artist)[2] == f.next@,
        mpd_placeholders()[3] == "%prev%"@ && mpd_values(f, state, title, artist)[3] == f.prev@,
        mpd_placeholders()[4] == "%play%"@ && mpd_values(f, state, title, artist)[4] == f.play@,
        mpd_placeholders()[5] == "%pause%"@ && mpd_values(f, state, title, artist)[5] == f.pause@,
        mpd_placeholders()[6] == "%toggle%"@,
        state is Play ==> mpd_values(f, state, title, artist)[6] == f.toggle_playing@,
        state is Pause ==> mpd_values(f, state, title, artist)[6] == f.toggle_paused@,
        state is Stop ==> mpd_values(f, state, title, artist)[6] == f.toggle_stopped@,
        mpd_placeholders()[7] == "%main%"@ && mpd_values(f, state, title, artist)[7] == "%main%"@,
        mpd_placeholders()[8] == "%shuffle%"@ && mpd_values(f, state, title, artist)[8] == f.shuffle@,
        mpd_placeholders()[9] == "%repeat%"@ && mpd_values(f, state, title, artist)[9] == f.repeat@,
        mpd_placeholders()[10] == "%random%"@ && mpd_values(f, state, title, artist)[10] == f.random@,
        mpd_placeholders()[11] == "%single%"@ && mpd_values(f, state, title, artist)[11] == f.single@,
        mpd_placeholders()[12] == "%consume%"@ && mpd_values(f, state, title, artist)[12] == f.consume@,
{
}

/// Whether a click at byte `idx` of the panel's text falls on a button:
/// from its start to its end, both included.
pub open spec fn button_hit(b: ButtonIndex, idx: int) -> bool {
    b.start <= idx <= b.start + b.length
}

/// The first button under a click at byte `idx`.
pub open spec fn clicked_button_of(cache: Seq<ButtonIndex>, idx: int) -> Option<int> {
    if exists|i: int| 0 <= i < cache.len() && button_hit(#[trigger] cache[i], idx) {
        Some(choose|i: int| 0 <= i < cache.len() && button_hit(#[trigger] cache[i], idx)
            && forall|j: int| 0 <= j < i ==> !button_hit(cache[j], idx))
    } else {
        None
    }
}

/// The index of the first button under a click; see [`clicked_button_of`].
/// Only the left, right and middle buttons press the panel's buttons.
pub fn clicked_button(cache: &Vec<ButtonIndex>, button: MouseButton, idx: usize) -> (r: Option<usize>)
    ensures
        match button {
            MouseButton::Left | MouseButton::Right | MouseButton::Middle => match r {
                Some(i) => clicked_button_of(cache@, idx as int) == Some(i as int),
                None => clicked_button_of(cache@, idx as int) is None,
            },
            _ => r is None,
        },
{
    match button {
        MouseButton::Left | MouseButton::Right | MouseButton::Middle => {},
        _ => {
            return None;
        },
    }
    let mut i: usize = 0;
    while i < cache.len()
        invariant
            i <= cache@.len(),
            button is Left || button is Right || button is Middle,
            forall|j: int| 0 <= j < i ==> !button_hit(cache@[j], idx as int),
        decreases cache@.len() - i,
    {
        let b = &cache[i];
        if b.start <= idx && idx - b.start <= b.length {
            proof {
                assert(button_hit(cache@[i as int], idx as int));
                assert(0 <= i < cache@.len() && button_hit(cache@[i as int], idx as int)
                    && forall|j: int| 0 <= j < i ==> !button_hit(cache@[j], idx as int));
                let w = choose|w: int| 0 <= w < cache@.len() && button_hit(#[trigger] cache@[w], idx as int)
                    && forall|j: int| 0 <= j < w ==> !button_hit(cache@[j], idx as int);
                if w < i {
                    assert(!button_hit(cache@[w], idx as int));
                }
                if w > i {
                    assert(!button_hit(cache@[i as int], idx as int));
                }
            }
            return Some(i);
        }
        i = i + 1;
    }
    None
}

/// What makes the panel redraw.
#[derive(Debug, Clone, Copy, PartialEq, Eq, Structural)]
pub enum MpdEvent {
    /// The player changed
    Player,
    /// The main text scrolls
    Scroll,
    /// The progress bar moves
    Progress,
    /// An action arrived
    Action,
}

/// Where the main text starts after an event: a scroll while music plays
/// moves it one place on, wrapping around after the text and its separator;
/// a change of the player starts it over.
pub open spec fn next_scroll_idx_of(idx: int, event: MpdEvent, playing: bool, count: int, sep_len: int) -> int {
    match event {
        MpdEvent::Scroll => if playing {
            (idx + 1) % (count + sep_len)
        } else {
            idx
        },
        MpdEvent::Player => 0,
        _ => idx,
    }
}

/// Where the main text starts after an event; see [`next_scroll_idx_of`].
/// `count` is the number of grapheme clusters of the main text and
/// `sep_len` the length in bytes of the separator.
pub fn next_scroll_idx(idx: usize, event: MpdEvent, playing: bool, count: usize, sep_len: usize) -> (r: usize)
    requires
        event == MpdEvent::Scroll && playing ==> 0 < count + sep_len <= usize::MAX && idx < usize::MAX,
    ensures
        r as int == next_scroll_idx_of(idx as int, event, playing, count as int, sep_len as int),
{
    match event {
        MpdEvent::Scroll => if playing {
            (idx + 1) % (count + sep_len)
        } else {
            idx
        },
        MpdEvent::Player => 0,
        _ => idx,
    }
}

/// What the `unicode-segmentation` crate gives as the extended grapheme
/// clusters of a text. Grapheme segmentation takes tables to state, so the
/// result is named here and computed by the crate.
pub uninterp spec fn grapheme_clusters(s: Seq<char>) -> Seq<Seq<char>>;

/// Splits a text into its extended grapheme clusters with
/// `UnicodeSegmentation::graphemes(s, true)`; the result is
/// `grapheme_clusters` of the text. The clusters are the consecutive,
/// non-empty slices between the boundaries that the crate finds from the
/// start of the text to its end, so joined up they give the text back.
#[verifier::external_body]
fn graphemes(s: &str) -> (r: Vec<String>)
    ensures
        texts(r@) == grapheme_clusters(s@),
        joined(texts(r@), 0, r@.len() as int) == s@,
        forall|k: int| 0 <= k < r@.len() ==> #[trigger] r@[k]@.len() > 0,
{
    unicode_segmentation::UnicodeSegmentation::graphemes(s, true).map(|g| g.to_string()).collect()
}

/// The concatenation of the texts `gs[lo..hi]`.
pub open spec fn joined(gs: Seq<Seq<char>>, lo: int, hi: int) -> Seq<char>
    decreases hi - lo,
{
    if lo >= hi {
        Seq::empty()
    } else {
        joined(gs, lo, hi - 1) + gs[hi - 1]
    }
}

/// The concatenation of the texts `gs[lo..hi]`; see [`joined`].
fn join_range(gs: &Vec<String>, lo: usize, hi: usize) -> (r: String)
    requires
        lo <= hi <= gs@.len(),
    ensures
        r@ == joined(texts(gs@), lo as int, hi as int),
{
    let mut out = String::new();
    let mut k: usize = lo;
    proof {
        assert(out@ =~= joined(texts(gs@), lo as int, lo as int));
    }
    while k < hi
        invariant
            lo <= k <= hi <= gs@.len(),
            out@ == joined(texts(gs@), lo as int, k as int),
        decreases hi - k,
    {
        out.append(gs[k].as_str());
        k = k + 1;
    }
    out
}

/// The part of the main text that a panel of `max_width` grapheme clusters
/// shows when the text, with its separator, has the clusters `gs` and
/// starts at cluster `idx`: from `idx` on, and where that leaves room, the
/// text again from its start.
pub open spec fn scroll_window_of(gs: Seq<Seq<char>>, idx: int, max_width: int) -> Seq<char> {
    let n = gs.len() as int;
    if idx + max_width > n {
        joined(gs, idx, n) + joined(gs, 0, max_width - (n - idx))
    } else {
        joined(gs, idx, idx + max_width)
    }
}

/// The part of the main text that a scrolling panel shows; see
/// [`scroll_window_of`].
pub fn scroll_window(gs: &Vec<String>, idx: usize, max_width: usize) -> (r: String)
    requires
        idx <= gs@.len(),
        max_width <= gs@.len(),
        idx + max_width > gs@.len() ==> max_width - (gs@.len() - idx) <= gs@.len(),
    ensures
        r@ == scroll_window_of(texts(gs@), idx as int, max_width as int),
{
    let n = gs.len();
    if idx > n - max_width {
        let mut a = join_range(gs, idx, n);
        let b = join_range(gs, 0, max_width - (n - idx));
        a.append(b.as_str());
        a
    } else {
        join_range(gs, idx, idx + max_width)
    }
}

/// What the main region of a scrolling panel shows: where the text is
/// longer than `max_width` clusters, the window of it and its separator
/// at `idx`, else the whole text.
pub open spec fn scrolled_main_of(main: Seq<char>, separator: Seq<char>, idx: int, max_width: int) -> Seq<char> {
    if max_width > 0 && grapheme_clusters(main).len() > max_width {
        scroll_window_of(grapheme_clusters(main + separator), idx, max_width)
    } else {
        main
    }
}

/// Whether the window at `idx` stays within the clusters of the text and its
/// separator, as reading it needs.
pub open spec fn scroll_in_range(main: Seq<char>, separator: Seq<char>, idx: int, max_width: int) -> bool {
    let n = grapheme_clusters(main + separator).len() as int;
    max_width > 0 && grapheme_clusters(main).len() > max_width ==> {
        &&& max_width <= n
        &&& idx <= n
        &&& (idx + max_width > n ==> max_width - (n - idx) <= n)
    }
}

/// What the main region of a scrolling panel shows; see
/// [`scrolled_main_of`]. `None` where the window does not fit in the text
/// (see [`scroll_in_range`]).
pub fn scrolled_main(main: &str, separator: &str, idx: usize, max_width: usize) -> (r: Option<String>)
    ensures
        match r {
            Some(t) => scroll_in_range(main@, separator@, idx as int, max_width as int)
                && t@ == scrolled_main_of(main@, separator@, idx as int, max_width as int),
            None => !scroll_in_range(main@, separator@, idx as int, max_width as int),
        },
{
    let count = graphemes(main).len();
    if !(max_width > 0 && count > max_width) {
        return Some(main.to_string());
    }
    let mut whole = main.to_string();
    whole.append(separator);
    let gs = graphemes(whole.as_str());
    let n = gs.len();
    if idx > n || max_width > n {
        return None;
    }
    if idx > n - max_width && max_width - (n - idx) > n {
        return None;
    }
    Some(scroll_window(&gs, idx, max_width))
}

/// What the main region of a cutting panel shows: its first `max_width`
/// clusters, or the whole text where `max_width` is zero.
pub open spec fn truncated_main_of(main: Seq<char>, max_width: int) -> Seq<char> {
    let gs = grapheme_clusters(main);
    if max_width > 0 {
        joined(gs, 0, if max_width < gs.len() { max_width } else { gs.len() as int })
    } else {
        main
    }
}

/// What the main region of a cutting panel shows; see
/// [`truncated_main_of`].
pub fn truncated_main(main: &str, max_width: usize) -> (r: String)
    ensures
        r@ == truncated_main_of(main@, max_width as int),
        grapheme_clusters(main@).len() <= max_width ==> r@ == main@,
{
    if max_width > 0 {
        let gs = graphemes(main);
        let end = if max_width < gs.len() { max_width } else { gs.len() };
        join_range(&gs, 0, end)
    } else {
        main.to_string()
    }
}

/// The hexadecimal digits, in order, in lower case.
pub open spec fn hex_chars() -> Seq<char> {
    seq!['0', '1', '2', '3', '4', '5', '6', '7', '8', '9', 'a', 'b', 'c', 'd', 'e', 'f']
}

/// The hexadecimal representation of `n` in lower case, without leading
/// zeros.
pub open spec fn hex(n: nat) -> Seq<char>
    decreases n,
{
    if n < 16 {
        seq![hex_chars()[n as int]]
    } else {
        hex(n / 16) + seq![hex_chars()[(n % 16) as int]]
    }
}

/// The control characters that markup escaping writes as character
/// references: all but NUL, tab, line feed and carriage return below 0x20,
/// and 0x7f to 0x9f but for next line (0x85).
pub open spec fn escaped_control(c: char) -> bool {
    let n = c as u32;
    ||| 0x1 <= n <= 0x8
    ||| 0xb <= n <= 0xc
    ||| 0xe <= n <= 0x1f
    ||| 0x7f <= n <= 0x84
    ||| 0x86 <= n <= 0x9f
}

/// How markup escaping writes one character: the five markup characters as
/// entities, the control characters of [`escaped_control`] as `&#x..;`, and
/// every other character as it is.
pub open spec fn escaped_char(c: char) -> Seq<char> {
    if c == '&' {
        "&amp;"@
    } else if c == '<' {
        "&lt;"@
    } else if c == '>' {
        "&gt;"@
    } else if c == '\'' {
        "&#39;"@
    } else if c == '"' {
        "&quot;"@
    } else if escaped_control(c) {
        "&#x"@ + hex(c as u32 as nat) + ";"@
    } else {
        seq![c]
    }
}

/// A text escaped for Pango markup, as GLib's `g_markup_escape_text` does
/// it: each character written as [`escaped_char`] says.
pub open spec fn markup_escaped(s: Seq<char>) -> Seq<char>
    decreases s.len(),
{
    if s.len() == 0 {
        Seq::empty()
    } else {
        markup_escaped(s.drop_last()) + escaped_char(s.last())
    }
}

/// Escaping a text piece by piece gives the escaped whole: the escaped
/// parts of a scrolled window that wraps around join up to the escaped
/// window.
pub proof fn law_escape_concat(a: Seq<char>, b: Seq<char>)
    ensures
        markup_escaped(a + b) == markup_escaped(a) + markup_escaped(b),
    decreases b.len(),
{
    if b.len() == 0 {
        assert(a + b =~= a);
        assert(markup_escaped(a) + markup_escaped(b) =~= markup_escaped(a));
    } else {
        law_escape_concat(a, b.drop_last());
        assert((a + b).drop_last() =~= a + b.drop_last());
        assert((a + b).last() == b.last());
        assert(markup_escaped(a + b) =~= markup_escaped(a) + markup_escaped(b));
    }
}

proof fn lemma_hex_digits(n: nat)
    ensures
        forall|i: int| 0 <= i < hex(n).len() ==> hex_chars().contains(#[trigger] hex(n)[i]),
    decreases n,
{
    if n < 16 {
        assert(hex_chars()[n as int] == hex(n)[0]);
    } else {
        lemma_hex_digits(n / 16);
        let h = hex(n / 16);
        let d = hex_chars()[(n % 16) as int];
        assert forall|i: int| 0 <= i < hex(n).len() implies hex_chars().contains(#[trigger] hex(n)[i]) by {
            if i < h.len() {
                assert(hex(n)[i] == h[i]);
            } else {
                assert(hex(n)[i] == d);
            }
        }
    }
}

proof fn lemma_escaped_char_plain(c: char)
    ensures
        forall|i: int| 0 <= i < escaped_char(c).len() ==> #[trigger] escaped_char(c)[i] != '<' && escaped_char(c)[i] != '>',
{
    reveal_strlit("&amp;");
    reveal_strlit("&lt;");
    reveal_strlit("&gt;");
    reveal_strlit("&#39;");
    reveal_strlit("&quot;");
    reveal_strlit("&#x");
    reveal_strlit(";");
    if c != '&' && c != '<' && c != '>' && c != '\'' && c != '"' && escaped_control(c) {
        let h = hex(c as u32 as nat);
        lemma_hex_digits(c as u32 as nat);
        assert forall|i: int| 0 <= i < escaped_char(c).len() implies #[trigger] escaped_char(c)[i] != '<' && escaped_char(c)[i] != '>' by {
            if 3 <= i < 3 + h.len() {
                assert(escaped_char(c)[i] == h[i - 3]);
                assert(hex_chars().contains(h[i - 3]));
            }
        }
    }
}

/// Escaped text holds no angle bracket, so it cannot open or close a tag.
pub proof fn law_escaped_has_no_tags(s: Seq<char>)
    ensures
        forall|i: int| 0 <= i < markup_escaped(s).len() ==> #[trigger] markup_escaped(s)[i] != '<' && markup_escaped(s)[i] != '>',
    decreases s.len(),
{
    if s.len() > 0 {
        law_escaped_has_no_tags(s.drop_last());
        lemma_escaped_char_plain(s.last());
        let p = markup_escaped(s.drop_last());
        let q = escaped_char(s.last());
        assert forall|i: int| 0 <= i < markup_escaped(s).len() implies #[trigger] markup_escaped(s)[i] != '<' && markup_escaped(s)[i] != '>' by {
            if i < p.len() {
                assert(markup_escaped(s)[i] == p[i]);
            } else {
                assert(markup_escaped(s)[i] == q[i - p.len()]);
            }
        }
    }
}

/// The hexadecimal representation of a number below 256.
fn hex_string(n: u32) -> (r: String)
    requires
        n < 256,
    ensures
        r@ == hex(n as nat),
{
    let digits = "0123456789abcdef";
    proof {
        reveal_strlit("0123456789abcdef");
        assert(digits@ =~= hex_chars());
    }
    if n < 16 {
        let d = digits.substring_char(n as usize, n as usize + 1);
        proof {
            assert(d@ =~= seq![hex_chars()[n as int]]);
        }
        d.to_string()
    } else {
        let hi = n / 16;
        let lo = n % 16;
        let a = digits.substring_char(hi as usize, hi as usize + 1);
        let b = digits.substring_char(lo as usize, lo as usize + 1);
        let mut r = a.to_string();
        r.append(b);
        proof {
            assert(hex(hi as nat) =~= seq![hex_chars()[hi as int]]);
            assert(r@ =~= hex(n as nat));
        }
        r
    }
}

/// Escapes a text for Pango markup; see [`markup_escaped`].
pub fn markup_escape(s: &str) -> (r: String)
    ensures
        r@ == markup_escaped(s@),
{
    let n = s.unicode_len();
    let mut out = String::new();
    let mut i: usize = 0;
    proof {
        assert(s@.take(0) =~= Seq::<char>::empty());
        reveal_strlit("&amp;");
        reveal_strlit("&lt;");
        reveal_strlit("&gt;");
        reveal_strlit("&#39;");
        reveal_strlit("&quot;");
        reveal_strlit("&#x");
        reveal_strlit(";");
    }
    while i < n
        invariant
            n == s@.len(),
            i <= n,
            out@ == markup_escaped(s@.take(i as int)),
        decreases n - i,
    {
        let c = s.get_char(i);
        proof {
            assert(s@.take(i + 1).drop_last() =~= s@.take(i as int));
            assert(s@.take(i + 1).last() == c);
        }
        let code = c as u32;
        if c == '&' {
            out.append("&amp;");
        } else if c == '<' {
            out.append("&lt;");
        } else if c == '>' {
            out.append("&gt;");
        } else if c == '\'' {
            out.append("&#39;");
        } else if c == '"' {
            out.append("&quot;");
        } else if (0x1 <= code && code <= 0x8) || (0xb <= code && code <= 0xc) || (0xe <= code && code <= 0x1f)
            || (0x7f <= code && code <= 0x84) || (0x86 <= code && code <= 0x9f) {
            out.append("&#x");
            let h = hex_string(code);
            out.append(h.as_str());
            out.append(";");
        } else {
            let one = s.substring_char(i, i + 1);
            proof {
                assert(one@ =~= seq![c]);
            }
            out.append(one);
        }
        i = i + 1;
    }
    proof {
        assert(s@.take(n as int) =~= s@);
    }
    out
}

/// What the panel puts in place of `%main%`: with the scrolling strategy, the
/// escaped window of the main text (`None` where the window does not fit,
/// see [`scroll_in_range`]); with the cutting strategy, the escaped first
/// `max_width` clusters, or the main text as it is where `max_width` is zero
/// (that branch inserts it without escaping).
pub open spec fn main_replacement(main: Seq<char>, separator: Seq<char>, strategy: Strategy, idx: int, max_width: int) -> Option<Seq<char>> {
    match strategy {
        Strategy::Scroll { .. } => if scroll_in_range(main, separator, idx, max_width) {
            Some(markup_escaped(scrolled_main_of(main, separator, idx, max_width)))
        } else {
            None
        },
        Strategy::Truncate => if max_width > 0 {
            Some(markup_escaped(truncated_main_of(main, max_width)))
        } else {
            Some(main)
        },
    }
}

/// The markup that the panel lays out: the filled-in format of its player
/// state, `text`, with `%main%` replaced as [`main_replacement`] says.
pub fn layout_text(text: &str, main: &str, separator: &str, strategy: Strategy, idx: usize, max_width: usize) -> (r: Option<String>)
    ensures
        r is Some <==> main_replacement(main@, separator@, strategy, idx as int, max_width as int) is Some,
        r matches Some(t) ==> main_replacement(main@, separator@, strategy, idx as int, max_width as int) matches Some(m)
            && t@ == replaced(text@, "%main%"@, m),
{
    let replacement = match strategy {
        Strategy::Scroll { .. } => match scrolled_main(main, separator, idx, max_width) {
            Some(w) => markup_escape(w.as_str()),
            None => {
                return None;
            },
        },
        Strategy::Truncate => if max_width > 0 {
            let t = truncated_main(main, max_width);
            markup_escape(t.as_str())
        } else {
            main.to_string()
        },
    };
    Some(replace_all(text, "%main%", replacement.as_str()))
}

/// What `aho_corasick::AhoCorasick::new(patterns)` and then `try_find_iter`
/// give: `None` where the automaton cannot be built or the search fails,
/// else the start and end bytes and the pattern index of each match of the
/// default (standard) match kind. The automaton's semantics take pages to
/// state, so the result is named here and computed by the `aho-corasick`
/// crate.
pub uninterp spec fn aho_corasick_matches(patterns: Seq<Seq<char>>, haystack: Seq<char>) -> Option<Seq<(usize, usize, usize)>>;

/// Builds an Aho-Corasick automaton of `patterns` and lists its matches in
/// `haystack`; the result is `aho_corasick_matches` of the arguments.
#[verifier::external_body]
fn aho_corasick_find(patterns: &Vec<String>, haystack: &str) -> (r: Option<Vec<(usize, usize, usize)>>)
    ensures
        match r {
            Some(v) => aho_corasick_matches(texts(patterns@), haystack@) == Some(v@),
            None => aho_corasick_matches(texts(patterns@), haystack@) is None,
        },
{
    match aho_corasick::AhoCorasick::new(patterns) {
        Ok(ac) => ac.try_find_iter(haystack).ok().map(|it| it.map(|m| (m.start(), m.end(), m.pattern().as_usize())).collect()),
        Err(_) => None,
    }
}

/// The matches of the panel's placeholders in a text; see
/// [`aho_corasick_matches`].
pub fn placeholder_matches(haystack: &str) -> (r: Option<Vec<(usize, usize, usize)>>)
    ensures
        match r {
            Some(v) => aho_corasick_matches(mpd_placeholders(), haystack@) == Some(v@),
            None => aho_corasick_matches(mpd_placeholders(), haystack@) is None,
        },
{
    let patterns = mpd_placeholder_list();
    aho_corasick_find(&patterns, haystack)
}

/// The buttons of the panel, from the matches of its placeholders in the
/// text of its format: each named by its placeholder without the `%` signs,
/// starting where the text shown so far puts it, and as long as what it
/// shows (`lens`, by placeholder; for `%main%`, the main text's length in
/// bytes up to `max_width`). Matches of unknown patterns are skipped.
pub open spec fn buttons_of(
    matches: Seq<(usize, usize, usize)>,
    lens: Seq<usize>,
    main_len: int,
    max_width: int,
) -> Seq<(Seq<char>, int, int)>
    decreases matches.len(),
{
    if matches.len() == 0 {
        Seq::empty()
    } else {
        let prev = buttons_of(matches.drop_last(), lens, main_len, max_width);
        let (start, _, p) = matches.last();
        if p < mpd_placeholders().len() && p < lens.len() {
            prev.push((
                replaced(mpd_placeholders()[p as int], "%"@, ""@),
                start + button_offset(matches.drop_last(), lens, main_len, max_width),
                button_len(p as int, lens, main_len, max_width),
            ))
        } else {
            prev
        }
    }
}

/// The length of the button of placeholder `p`.
pub open spec fn button_len(p: int, lens: Seq<usize>, main_len: int, max_width: int) -> int {
    if p == 7 {
        if main_len < max_width {
            main_len
        } else {
            max_width
        }
    } else {
        lens[p] as int
    }
}

/// How far the text shown has moved from the text of the format after the
/// given matches: the sum of each shown length less its placeholder's
/// length.
pub open spec fn button_offset(matches: Seq<(usize, usize, usize)>, lens: Seq<usize>, main_len: int, max_width: int) -> int
    decreases matches.len(),
{
    if matches.len() == 0 {
        0
    } else {
        let prev = button_offset(matches.drop_last(), lens, main_len, max_width);
        let p = matches.last().2;
        if p < mpd_placeholders().len() && p < lens.len() {
            prev + button_len(p as int, lens, main_len, max_width) - mpd_placeholders()[p as int].len()
        } else {
            prev
        }
    }
}

/// The button of an entry of the cache, as name, start and length.
pub open spec fn button_view(b: ButtonIndex) -> (Seq<char>, int, int) {
    (b.name@, b.start as int, b.length as int)
}

/// Whether every button's start stays in the range of `usize`, and the
/// offset after each button in the range of `isize`, as the matches are
/// walked in order.
pub open spec fn buttons_in_range(matches: Seq<(usize, usize, usize)>, lens: Seq<usize>, main_len: int, max_width: int) -> bool
    decreases matches.len(),
{
    if matches.len() == 0 {
        true
    } else {
        let prev = matches.drop_last();
        let p = matches.last().2;
        &&& buttons_in_range(prev, lens, main_len, max_width)
        &&& (p < mpd_placeholders().len() && p < lens.len()) ==> {
            let s = matches.last().0 + button_offset(prev, lens, main_len, max_width);
            let next = button_offset(matches, lens, main_len, max_width);
            &&& 0 <= s <= usize::MAX
            &&& isize::MIN <= next <= isize::MAX
        }
    }
}

/// Where the matches stay in range, so do their first `j`.
proof fn lemma_buttons_in_range_prefix(matches: Seq<(usize, usize, usize)>, lens: Seq<usize>, main_len: int, max_width: int, j: int)
    requires
        buttons_in_range(matches, lens, main_len, max_width),
        0 <= j <= matches.len(),
    ensures
        buttons_in_range(matches.take(j), lens, main_len, max_width),
    decreases matches.len(),
{
    if j == matches.len() {
        assert(matches.take(j) =~= matches);
    } else {
        assert(matches.drop_last().take(j) =~= matches.take(j));
        lemma_buttons_in_range_prefix(matches.drop_last(), lens, main_len, max_width, j);
    }
}

/// Lists the buttons of the panel from the matches of its placeholders;
/// see [`buttons_of`]. `None` exactly where a start or an offset leaves the
/// range of `usize` or `isize` (see [`buttons_in_range`]).
pub fn buttons(matches: &Vec<(usize, usize, usize)>, lens: &Vec<usize>, main_len: usize, max_width: usize) -> (r: Option<Vec<ButtonIndex>>)
    ensures
        r is Some <==> buttons_in_range(matches@, lens@, main_len as int, max_width as int),
        r matches Some(v) ==> v@.map_values(|b: ButtonIndex| button_view(b))
            == buttons_of(matches@, lens@, main_len as int, max_width as int),
{
    let patterns = mpd_placeholder_list();
    let mut out: Vec<ButtonIndex> = Vec::new();
    let mut offset: i128 = 0;
    let mut k: usize = 0;
    while k < matches.len()
        invariant
            k <= matches@.len(),
            texts(patterns@) == mpd_placeholders(),
            isize::MIN <= offset <= isize::MAX,
            offset == button_offset(matches@.take(k as int), lens@, main_len as int, max_width as int),
            out@.map_values(|b: ButtonIndex| button_view(b)) == buttons_of(matches@.take(k as int), lens@, main_len as int, max_width as int),
            buttons_in_range(matches@.take(k as int), lens@, main_len as int, max_width as int),
        decreases matches@.len() - k,
    {
        proof {
            assert(matches@.take(k + 1).drop_last() =~= matches@.take(k as int));
        }
        let (start, _, p) = matches[k];
        if p < patterns.len() && p < lens.len() {
            let content = &patterns[p];
            let name = replace_all(content.as_str(), "%", "");
            let length: usize = if p == 7 {
                if main_len < max_width { main_len } else { max_width }
            } else {
                lens[p]
            };
            proof {
                assert(content@ == mpd_placeholders()[p as int]);
            }
            let s: i128 = start as i128 + offset;
            if s < 0 || s > usize::MAX as i128 {
                proof {
                    assert(!buttons_in_range(matches@.take(k + 1), lens@, main_len as int, max_width as int));
                    if buttons_in_range(matches@, lens@, main_len as int, max_width as int) {
                        lemma_buttons_in_range_prefix(matches@, lens@, main_len as int, max_width as int, k + 1);
                    }
                }
                return None;
            }
            let next: i128 = offset + length as i128 - content.unicode_len() as i128;
            if next < isize::MIN as i128 || next > isize::MAX as i128 {
                proof {
                    assert(!buttons_in_range(matches@.take(k + 1), lens@, main_len as int, max_width as int));
                    if buttons_in_range(matches@, lens@, main_len as int, max_width as int) {
                        lemma_buttons_in_range_prefix(matches@, lens@, main_len as int, max_width as int, k + 1);
                    }
                }
                return None;
            }
            let ghost before = out@;
            out.push(ButtonIndex { name, start: s as usize, length });
            proof {
                assert(content@ == mpd_placeholders()[p as int]);
                assert(out@.map_values(|b: ButtonIndex| button_view(b)) =~= before.map_values(
                    |b: ButtonIndex| button_view(b),
                ).push(button_view(out@[before.len() as int])));
            }
            offset = next;
        }
        k = k + 1;
    }
    proof {
        assert(matches@.take(k as int) =~= matches@);
    }
    Some(out)
}

/// How the panel handles a main text longer than its maximum width.
#[derive(Debug, Clone, Copy, PartialEq, Eq, Structural)]
pub enum Strategy {
    /// Scroll the text, one step every `interval_ms` milliseconds
    Scroll { interval_ms: u64 },
    /// Cut the text off
    Truncate,
}

/// The strategy that the `strategy` option names: `scroll`, stepping every
/// `scroll_interval` milliseconds (1000 where that is not given), or else
/// cutting the text off, which is also what a panel without the option does.
pub open spec fn strategy_of(strategy: Option<Seq<char>>, scroll_interval: Option<u64>) -> Strategy {
    match strategy {
        Some(s) => if s == "scroll"@ {
            Strategy::Scroll {
                interval_ms: match scroll_interval {
                    Some(i) => i,
                    None => 1000,
                },
            }
        } else {
            Strategy::Truncate
        },
        None => Strategy::Truncate,
    }
}

/// The strategy of the panel; see [`strategy_of`].
pub fn mpd_strategy(strategy: Option<&str>, scroll_interval: Option<u64>) -> (r: Strategy)
    ensures
        r == strategy_of(opt_str(strategy), scroll_interval),
{
    match strategy {
        Some(s) => if same_text(s, "scroll") {
            Strategy::Scroll {
                interval_ms: match scroll_interval {
                    Some(i) => i,
                    None => 1000,
                },
            }
        } else {
            Strategy::Truncate
        },
        None => Strategy::Truncate,
    }
}


/// The panel scrolls exactly where `strategy` is `scroll`, by default every
/// second; any other strategy, or none, cuts the text off.
pub proof fn law_strategy_names(strategy: Option<Seq<char>>, scroll_interval: Option<u64>)
    ensures
        strategy_of(strategy, scroll_interval) is Scroll <==> strategy == Some("scroll"@),
        strategy == Some("scroll"@) && scroll_interval is None ==> strategy_of(strategy, scroll_interval) == (Strategy::Scroll { interval_ms: 1000 }),
        scroll_interval matches Some(i) ==> (strategy == Some("scroll"@) ==> strategy_of(strategy, scroll_interval) == (Strategy::Scroll { interval_ms: i })),
{
}


/// The panel shows its `playing` format while music plays, its `paused`
/// format while it is paused and its `stopped` format while it is stopped.
pub proof fn law_state_formats(f: MpdFormats)
    ensures
        state_format_of(f, PlayerState::Play) == f.playing@,
        state_format_of(f, PlayerState::Pause) == f.paused@,
        state_format_of(f, PlayerState::Stop) == f.stopped@,
{
}

} // verus!
