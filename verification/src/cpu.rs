//! The CPU panel: the load figures of `/proc/stat` and their change.
use vstd::prelude::*;

use crate::text::{opt_text, parse_u64, parsed_unsigned, texts};

verus! {

/// What `regex::Regex::new(pattern)` and then `captures(haystack)` give,
/// the first match taken as the text of each of the named `groups`: `None`
/// where the pattern does not compile, `Some(None)` where nothing matches.
/// Regular expression matching takes pages to state, so the result is named
/// here and computed by the `regex` crate.
pub uninterp spec fn regex_first_captures(pattern: Seq<char>, haystack: Seq<char>, groups: Seq<Seq<char>>) -> Option<Option<Seq<Option<Seq<char>>>>>;

/// Compiles `pattern` with `regex::Regex::new` and takes the text of the
/// named `groups` in the first match of `captures(haystack)`; the result is
/// `regex_first_captures` of the arguments.
#[verifier::external_body]
fn regex_first(pattern: &str, haystack: &str, groups: &Vec<String>) -> (r: Option<Option<Vec<Option<String>>>>)
    ensures
        match r {
            None => regex_first_captures(pattern@, haystack@, texts(groups@)) is None,
            Some(None) => regex_first_captures(pattern@, haystack@, texts(groups@)) == Some(None::<Seq<Option<Seq<char>>>>),
            Some(Some(v)) => regex_first_captures(pattern@, haystack@, texts(groups@))
                == Some(Some(v@.map_values(|g: Option<String>| opt_text(g)))),
        },
{
    regex::Regex::new(pattern).ok().map(|re| {
        re.captures(haystack).map(|c| {
            groups.iter().map(|g| c.name(g.as_str()).map(|m| m.as_str().to_string())).collect()
        })
    })
}

/// The pattern of the line of `/proc/stat` that sums up all CPUs.
pub open spec fn stat_pattern() -> Seq<char> {
    "cpu\\s*(?<user>\\d+) (?<nice>\\d+) (?<system>\\d+) (?<idle>\\d+) \\d+ \\d+ \\d+ (?<steal>\\d+)"@
}

/// The groups of the pattern that the panel reads.
pub open spec fn stat_groups() -> Seq<Seq<char>> {
    seq!["user"@, "nice"@, "system"@, "idle"@, "steal"@]
}

/// The figures of `/proc/stat` that the panel reads, in clock ticks.
#[derive(Debug, Clone, Copy, PartialEq, Eq, Structural)]
pub struct CpuTimes {
    /// Time in user mode
    pub user: u64,
    /// Time in user mode at low priority
    pub nice: u64,
    /// Time in system mode
    pub system: u64,
    /// Idle time
    pub idle: u64,
    /// Time taken by other virtual machines
    pub steal: u64,
}

/// Why `/proc/stat` could not be read.
#[derive(Debug, Clone, Copy, PartialEq, Eq, Structural)]
pub enum CpuError {
    /// The pattern did not compile
    BadPattern,
    /// No line matches the pattern
    NoMatch,
    /// A figure is not a `u64`
    BadNumber,
}

/// The figure of a group, where it reads as a `u64`.
pub open spec fn figure(g: Option<Seq<char>>) -> Option<u64> {
    match g {
        Some(t) => match parsed_unsigned(t, u64::MAX as nat) {
            Some(v) => Some(v as u64),
            None => None,
        },
        None => None,
    }
}

/// The figures that the groups of a match give.
pub open spec fn times_from_groups(gs: Seq<Option<Seq<char>>>) -> Result<CpuTimes, CpuError> {
    if gs.len() != 5 {
        Err(CpuError::NoMatch)
    } else {
        match (figure(gs[0]), figure(gs[1]), figure(gs[2]), figure(gs[3]), figure(gs[4])) {
            (Some(user), Some(nice), Some(system), Some(idle), Some(steal)) => Ok(CpuTimes { user, nice, system, idle, steal }),
            _ => Err(CpuError::BadNumber),
        }
    }
}

/// The figures that the text of `/proc/stat` gives.
pub open spec fn cpu_times_of(stat: Seq<char>) -> Result<CpuTimes, CpuError> {
    match regex_first_captures(stat_pattern(), stat, stat_groups()) {
        None => Err(CpuError::BadPattern),
        Some(None) => Err(CpuError::NoMatch),
        Some(Some(gs)) => times_from_groups(gs),
    }
}

fn figure_of(g: &Option<String>) -> (r: Option<u64>)
    ensures
        r == figure(opt_text(*g)),
{
    match g {
        Some(t) => parse_u64(t.as_str()),
        None => None,
    }
}

/// Reads the figures of the CPU panel from the text of `/proc/stat`; see
/// [`cpu_times_of`].
pub fn read_cpu_times(stat: &str) -> (r: Result<CpuTimes, CpuError>)
    ensures
        r == cpu_times_of(stat@),
{
    let groups: Vec<String> = vec![
        "user".to_string(), "nice".to_string(), "system".to_string(), "idle".to_string(), "steal".to_string(),
    ];
    proof {
        assert(texts(groups@) =~= stat_groups());
    }
    let caps = regex_first(
        "cpu\\s*(?<user>\\d+) (?<nice>\\d+) (?<system>\\d+) (?<idle>\\d+) \\d+ \\d+ \\d+ (?<steal>\\d+)",
        stat,
        &groups,
    );
    match caps {
        None => Err(CpuError::BadPattern),
        Some(None) => Err(CpuError::NoMatch),
        Some(Some(gs)) => cpu_times_from_groups(&gs),
    }
}

/// The figures of the CPU panel from the groups `user`, `nice`, `system`,
/// `idle` and `steal` of the first match of the pattern of `/proc/stat`:
/// `NoMatch` unless there are five, `BadNumber` unless each reads as a
/// `u64`.
pub fn cpu_times_from_groups(gs: &Vec<Option<String>>) -> (r: Result<CpuTimes, CpuError>)
    ensures
        r == times_from_groups(gs@.map_values(|g: Option<String>| opt_text(g))),
{
    if gs.len() != 5 {
        return Err(CpuError::NoMatch);
    }
    let user = figure_of(&gs[0]);
    let nice = figure_of(&gs[1]);
    let system = figure_of(&gs[2]);
    let idle = figure_of(&gs[3]);
    let steal = figure_of(&gs[4]);
    match (user, nice, system, idle, steal) {
        (Some(user), Some(nice), Some(system), Some(idle), Some(steal)) => Ok(CpuTimes { user, nice, system, idle, steal }),
        _ => Err(CpuError::BadNumber),
    }
}

/// The load of the CPUs: their idle time and the total of the figures.
#[derive(Debug, Clone, Copy, PartialEq, Eq, Structural)]
pub struct Load {
    /// The idle time
    pub idle: u64,
    /// The total time
    pub total: u64,
}

impl CpuTimes {
    /// Whether the total of the figures fits in a `u64`.
    pub fn fits(&self) -> (r: bool)
        ensures
            r == (self.user + self.nice + self.system + self.idle + self.steal <= u64::MAX),
    {
        (self.user as u128 + self.nice as u128 + self.system as u128 + self.idle as u128 + self.steal as u128)
            <= u64::MAX as u128
    }

    /// The load of the CPUs: the idle time, and the sum of the user, nice,
    /// system, idle and steal times.
    pub fn load(&self) -> (r: Load)
        requires
            self.user + self.nice + self.system + self.idle + self.steal <= u64::MAX,
        ensures
            r.idle == self.idle,
            r.total == self.user + self.nice + self.system + self.idle + self.steal,
    {
        Load { idle: self.idle, total: self.user + self.nice + self.system + self.idle + self.steal }
    }
}

/// How the load changed between two readings: the time that passed and the
/// part of it that the CPUs were busy.
pub fn load_change(last: Load, now: Load) -> (r: (u64, u64))
    requires
        last.total <= now.total,
        last.idle <= now.idle,
        now.idle - last.idle <= now.total - last.total,
    ensures
        r.0 == now.total - last.total,
        r.1 == (now.total - last.total) - (now.idle - last.idle),
{
    let diff = now.total - last.total;
    (diff, diff - (now.idle - last.idle))
}

} // verus!
