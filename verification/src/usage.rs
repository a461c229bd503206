//! The memory and storage panels: reading `/proc/meminfo`, the figures of
//! memory and disk use, and filling in their formats.
use vstd::prelude::*;

use crate::text::{aho_corasick_replace, aho_corasick_replaced, opt_text, parse_u64, parsed_unsigned, texts, trim, trimmed};

verus! {

/// What `regex::Regex::new(pattern)` and then `captures_iter(haystack)` give,
/// each capture taken as the text of its groups `key` and `value`: `None`
/// where the pattern does not compile. Regular expression matching takes
/// pages to state, so the result is named here and computed by the `regex`
/// crate.
pub uninterp spec fn regex_key_value_captures(pattern: Seq<char>, haystack: Seq<char>) -> Option<Seq<(Option<Seq<char>>, Option<Seq<char>>)>>;

/// Compiles `pattern` with `regex::Regex::new` and collects, for each capture
/// of `captures_iter(haystack)`, the text of its groups `key` and `value`;
/// the result is `regex_key_value_captures` of the arguments.
#[verifier::external_body]
fn regex_captures(pattern: &str, haystack: &str) -> (r: Option<Vec<(Option<String>, Option<String>)>>)
    ensures
        match r {
            Some(v) => regex_key_value_captures(pattern@, haystack@)
                == Some(v@.map_values(|c: (Option<String>, Option<String>)| (opt_text(c.0), opt_text(c.1)))),
            None => regex_key_value_captures(pattern@, haystack@) is None,
        },
{
    regex::Regex::new(pattern).ok().map(|re| {
        re.captures_iter(haystack).map(|c| {
            (c.name("key").map(|m| m.as_str().to_string()), c.name("value").map(|m| m.as_str().to_string()))
        }).collect()
    })
}

/// The pattern of a line of `/proc/meminfo`: a key, a colon, white space, a
/// number and an optional ` kB`.
pub open spec fn meminfo_pattern() -> Seq<char> {
    "(?<key>[^:]+):\\s*(?<value>\\d+)(?: kB)?"@
}

/// The entries of `/proc/meminfo` from the captures of its pattern: each
/// trimmed key with its value, where the value reads as a `u64`.
pub open spec fn meminfo_entries(caps: Seq<(Option<Seq<char>>, Option<Seq<char>>)>) -> Seq<(Seq<char>, u64)>
    decreases caps.len(),
{
    if caps.len() == 0 {
        Seq::empty()
    } else {
        let prev = meminfo_entries(caps.drop_last());
        match caps.last() {
            (Some(k), Some(v)) => match parsed_unsigned(v, u64::MAX as nat) {
                Some(n) => prev.push((trimmed(k), n as u64)),
                None => prev,
            },
            _ => prev,
        }
    }
}

/// The value of the last entry with the given key: a later entry replaces an
/// earlier one with the same key.
pub open spec fn lookup(entries: Seq<(Seq<char>, u64)>, key: Seq<char>) -> Option<u64>
    decreases entries.len(),
{
    if entries.len() == 0 {
        None
    } else if entries.last().0 == key {
        Some(entries.last().1)
    } else {
        lookup(entries.drop_last(), key)
    }
}

/// The value of the last entry with the given key; see [`lookup`].
fn lookup_entry(entries: &Vec<(String, u64)>, key: &str) -> (r: Option<u64>)
    ensures
        r == lookup(entries@.map_values(|e: (String, u64)| (e.0@, e.1)), key@),
{
    let ghost es = entries@.map_values(|e: (String, u64)| (e.0@, e.1));
    let mut k: usize = entries.len();
    proof {
        assert(es.take(k as int) =~= es);
    }
    while k > 0
        invariant
            k <= entries@.len(),
            es == entries@.map_values(|e: (String, u64)| (e.0@, e.1)),
            lookup(es, key@) == lookup(es.take(k as int), key@),
        decreases k,
    {
        proof {
            assert(es.take(k as int).drop_last() =~= es.take(k - 1));
        }
        if crate::text::same_text(entries[k - 1].0.as_str(), key) {
            return Some(entries[k - 1].1);
        }
        k = k - 1;
    }
    proof {
        assert(es.take(0) =~= Seq::<(Seq<char>, u64)>::empty());
    }
    None
}

/// How the available memory is known.
#[derive(Debug, Clone, Copy, PartialEq, Eq, Structural)]
pub enum MemAvailable {
    /// `MemAvailable` was reported
    Reported(u64),
    /// It is estimated from `MemFree`, `Buffers`, `Cached`, `SReclaimable`
    /// and `Shmem`
    Estimated { free: u64, buffers: u64, cached: u64, sreclaimable: u64, shmem: u64 },
}

/// The figures of `/proc/meminfo` that the memory panel shows.
#[derive(Debug, Clone, Copy, PartialEq, Eq, Structural)]
pub struct MemInfo {
    /// `MemTotal`
    pub mem_total: u64,
    /// The available memory
    pub available: MemAvailable,
    /// `SwapTotal`
    pub swap_total: u64,
    /// `SwapFree`
    pub swap_free: u64,
}

/// Why `/proc/meminfo` could not be read.
#[derive(Debug, Clone, Copy, PartialEq, Eq, Structural)]
pub enum MemoryError {
    /// The pattern of a line did not compile
    BadPattern,
    /// There is no `MemTotal`
    NoMemTotal,
    /// There is no `MemAvailable`, nor all of the figures to estimate it
    NoMemAvailable,
    /// There is no `SwapTotal`
    NoSwapTotal,
    /// There is no `SwapFree`
    NoSwapFree,
}

/// The figures of `/proc/meminfo` from its entries: `MemTotal`, then
/// `MemAvailable` or the figures to estimate it, then `SwapTotal` and
/// `SwapFree`; the first that is missing is the error.
pub open spec fn meminfo_of(entries: Seq<(Seq<char>, u64)>) -> Result<MemInfo, MemoryError> {
    match lookup(entries, "MemTotal"@) {
        None => Err(MemoryError::NoMemTotal),
        Some(mem_total) => {
            let available = match lookup(entries, "MemAvailable"@) {
                Some(a) => Some(MemAvailable::Reported(a)),
                None => match (lookup(entries, "MemFree"@), lookup(entries, "Buffers"@), lookup(entries, "Cached"@),
                    lookup(entries, "SReclaimable"@), lookup(entries, "Shmem"@)) {
                    (Some(free), Some(buffers), Some(cached), Some(sreclaimable), Some(shmem)) =>
                        Some(MemAvailable::Estimated { free, buffers, cached, sreclaimable, shmem }),
                    _ => None,
                },
            };
            match available {
                None => Err(MemoryError::NoMemAvailable),
                Some(available) => match lookup(entries, "SwapTotal"@) {
                    None => Err(MemoryError::NoSwapTotal),
                    Some(swap_total) => match lookup(entries, "SwapFree"@) {
                        None => Err(MemoryError::NoSwapFree),
                        Some(swap_free) => Ok(MemInfo { mem_total, available, swap_total, swap_free }),
                    },
                },
            }
        },
    }
}

/// The figures that the text of `/proc/meminfo` gives; see [`meminfo_of`].
pub open spec fn meminfo_text(text: Seq<char>) -> Result<MemInfo, MemoryError> {
    match regex_key_value_captures(meminfo_pattern(), text) {
        None => Err(MemoryError::BadPattern),
        Some(caps) => meminfo_of(meminfo_entries(caps)),
    }
}

/// Reads the figures of the memory panel from the text of `/proc/meminfo`;
/// see [`meminfo_text`].
pub fn read_meminfo(text: &str) -> (r: Result<MemInfo, MemoryError>)
    ensures
        r == meminfo_text(text@),
{
    match regex_captures("(?<key>[^:]+):\\s*(?<value>\\d+)(?: kB)?", text) {
        None => Err(MemoryError::BadPattern),
        Some(caps) => meminfo_from_captures(&caps),
    }
}

/// The figures of the memory panel from the captures of the pattern of
/// `/proc/meminfo`, each the text of its `key` and `value` groups; see
/// [`meminfo_entries`] and [`meminfo_of`].
pub fn meminfo_from_captures(caps: &Vec<(Option<String>, Option<String>)>) -> (r: Result<MemInfo, MemoryError>)
    ensures
        r == meminfo_of(meminfo_entries(caps@.map_values(|c: (Option<String>, Option<String>)| (opt_text(c.0), opt_text(c.1))))),
{
    let ghost cv = caps@.map_values(|c: (Option<String>, Option<String>)| (opt_text(c.0), opt_text(c.1)));
    let mut entries: Vec<(String, u64)> = Vec::new();
    let mut k: usize = 0;
    while k < caps.len()
        invariant
            k <= caps@.len(),
            cv == caps@.map_values(|c: (Option<String>, Option<String>)| (opt_text(c.0), opt_text(c.1))),
            entries@.map_values(|e: (String, u64)| (e.0@, e.1)) == meminfo_entries(cv.take(k as int)),
        decreases caps@.len() - k,
    {
        proof {
            assert(cv.take(k + 1).drop_last() =~= cv.take(k as int));
        }
        let ghost before = entries@;
        match (&caps[k].0, &caps[k].1) {
            (Some(key), Some(value)) => {
                match parse_u64(value.as_str()) {
                    Some(n) => {
                        let t = trim(key.as_str());
                        entries.push((t.to_string(), n));
                        proof {
                            assert(entries@.map_values(|e: (String, u64)| (e.0@, e.1)) =~= before.map_values(
                                |e: (String, u64)| (e.0@, e.1),
                            ).push((trimmed(key@), n)));
                        }
                    },
                    None => {},
                }
            },
            _ => {},
        }
        k = k + 1;
    }
    proof {
        assert(cv.take(k as int) =~= cv);
    }
    let ghost es = entries@.map_values(|e: (String, u64)| (e.0@, e.1));
    let mem_total = match lookup_entry(&entries, "MemTotal") {
        None => {
            return Err(MemoryError::NoMemTotal);
        },
        Some(v) => v,
    };
    let available = match lookup_entry(&entries, "MemAvailable") {
        Some(a) => MemAvailable::Reported(a),
        None => {
            let free = lookup_entry(&entries, "MemFree");
            let buffers = lookup_entry(&entries, "Buffers");
            let cached = lookup_entry(&entries, "Cached");
            let sreclaimable = lookup_entry(&entries, "SReclaimable");
            let shmem = lookup_entry(&entries, "Shmem");
            match (free, buffers, cached, sreclaimable, shmem) {
                (Some(free), Some(buffers), Some(cached), Some(sreclaimable), Some(shmem)) =>
                    MemAvailable::Estimated { free, buffers, cached, sreclaimable, shmem },
                _ => {
                    return Err(MemoryError::NoMemAvailable);
                },
            }
        },
    };
    let swap_total = match lookup_entry(&entries, "SwapTotal") {
        None => {
            return Err(MemoryError::NoSwapTotal);
        },
        Some(v) => v,
    };
    let swap_free = match lookup_entry(&entries, "SwapFree") {
        None => {
            return Err(MemoryError::NoSwapFree);
        },
        Some(v) => v,
    };
    Ok(MemInfo { mem_total, available, swap_total, swap_free })
}

/// The free memory: `MemAvailable`, or else `MemFree + Buffers + Cached +
/// SReclaimable - Shmem`.
pub open spec fn mem_free_of(a: MemAvailable) -> int {
    match a {
        MemAvailable::Reported(v) => v as int,
        MemAvailable::Estimated { free, buffers, cached, sreclaimable, shmem } => free + buffers + cached + sreclaimable - shmem,
    }
}

/// Whether the memory figures can be worked out in `u64`: the estimate of
/// the free memory stays in range, and neither the free memory nor the free
/// swap exceeds its total.
pub open spec fn meminfo_fits(m: MemInfo) -> bool {
    &&& match m.available {
        MemAvailable::Reported(_) => true,
        MemAvailable::Estimated { free, buffers, cached, sreclaimable, shmem } =>
            free + buffers + cached + sreclaimable <= u64::MAX && free + buffers + cached + sreclaimable >= shmem,
    }
    &&& mem_free_of(m.available) <= m.mem_total
    &&& m.swap_free <= m.swap_total
}

/// The memory figures that the panel shows, in kB.
#[derive(Debug, Clone, Copy, PartialEq, Eq, Structural)]
pub struct MemoryStats {
    /// The total memory
    pub mem_total: u64,
    /// The free memory
    pub mem_free: u64,
    /// The used memory
    pub mem_used: u64,
    /// The total swap
    pub swap_total: u64,
    /// The free swap
    pub swap_free: u64,
    /// The used swap
    pub swap_used: u64,
}

impl MemInfo {
    /// Whether the memory figures can be worked out; see [`meminfo_fits`].
    pub fn fits(&self) -> (r: bool)
        ensures
            r == meminfo_fits(*self),
    {
        let free: u64 = match self.available {
            MemAvailable::Reported(v) => v,
            MemAvailable::Estimated { free, buffers, cached, sreclaimable, shmem } => {
                let sum: u128 = free as u128 + buffers as u128 + cached as u128 + sreclaimable as u128;
                if sum > u64::MAX as u128 || sum < shmem as u128 {
                    return false;
                }
                (sum - shmem as u128) as u64
            },
        };
        free <= self.mem_total && self.swap_free <= self.swap_total
    }

    /// The memory figures: the free memory, and the used memory and swap as
    /// the totals less what is free.
    pub fn stats(&self) -> (r: MemoryStats)
        requires
            meminfo_fits(*self),
        ensures
            r.mem_total == self.mem_total,
            r.mem_free as int == mem_free_of(self.available),
            r.mem_used as int == self.mem_total - mem_free_of(self.available),
            r.swap_total == self.swap_total,
            r.swap_free == self.swap_free,
            r.swap_used as int == self.swap_total - self.swap_free,
    {
        let mem_free = match self.available {
            MemAvailable::Reported(v) => v,
            MemAvailable::Estimated { free, buffers, cached, sreclaimable, shmem } =>
                free + buffers + cached + sreclaimable - shmem,
        };
        MemoryStats {
            mem_total: self.mem_total,
            mem_free,
            mem_used: self.mem_total - mem_free,
            swap_total: self.swap_total,
            swap_free: self.swap_free,
            swap_used: self.swap_total - self.swap_free,
        }
    }
}

/// The placeholders of the memory panel's format, in the order of their
/// values.
pub open spec fn memory_placeholders() -> Seq<Seq<char>> {
    seq![
        "%gb_total%"@, "%gb_used%"@, "%gb_free%"@, "%mb_total%"@, "%mb_used%"@, "%mb_free%"@,
        "%gb_swap_total%"@, "%gb_swap_used%"@, "%gb_swap_free%"@, "%mb_swap_total%"@, "%mb_swap_used%"@,
        "%mb_swap_free%"@, "%percentage_used%"@, "%percentage_free%"@, "%percentage_swap_used%"@,
        "%percentage_swap_free%"@, "%ramp%"@,
    ]
}

/// The placeholders of the memory panel, as strings.
fn memory_placeholder_list() -> (r: Vec<String>)
    ensures
        texts(r@) == memory_placeholders(),
{
    let v: Vec<String> = vec![
        "%gb_total%".to_string(), "%gb_used%".to_string(), "%gb_free%".to_string(), "%mb_total%".to_string(),
        "%mb_used%".to_string(), "%mb_free%".to_string(), "%gb_swap_total%".to_string(),
        "%gb_swap_used%".to_string(), "%gb_swap_free%".to_string(), "%mb_swap_total%".to_string(),
        "%mb_swap_used%".to_string(), "%mb_swap_free%".to_string(), "%percentage_used%".to_string(),
        "%percentage_free%".to_string(), "%percentage_swap_used%".to_string(),
        "%percentage_swap_free%".to_string(), "%ramp%".to_string(),
    ];
    proof {
        assert(texts(v@) =~= memory_placeholders());
    }
    v
}

/// The text of the memory panel: its format with each placeholder replaced
/// by its value, `values` holding the values of all placeholders but
/// `%ramp%` in their order, and `%ramp%` left as it is. `None` where the
/// automaton of the placeholders cannot be built.
pub fn memory_text(format: &str, values: &Vec<String>) -> (r: Option<String>)
    requires
        values@.len() + 1 == memory_placeholders().len(),
    ensures
        match r {
            Some(t) => aho_corasick_replaced(memory_placeholders(), format@, texts(values@).push("%ramp%"@)) == Some(t@),
            None => aho_corasick_replaced(memory_placeholders(), format@, texts(values@).push("%ramp%"@)) is None,
        },
{
    let patterns = memory_placeholder_list();
    let mut replacements: Vec<String> = Vec::new();
    let mut k: usize = 0;
    while k < values.len()
        invariant
            k <= values@.len(),
            texts(replacements@) == texts(values@.take(k as int)),
        decreases values@.len() - k,
    {
        replacements.push(values[k].clone());
        proof {
            assert(texts(values@.take(k + 1)) =~= texts(values@.take(k as int)).push(values@[k as int]@));
            assert(texts(replacements@) =~= texts(values@.take(k as int)).push(values@[k as int]@));
        }
        k = k + 1;
    }
    replacements.push("%ramp%".to_string());
    proof {
        assert(values@.take(k as int) =~= values@);
        assert(texts(replacements@) =~= texts(values@).push("%ramp%"@));
    }
    aho_corasick_replace(&patterns, format, &replacements)
}

/// The figures of a file system that the storage panel shows.
#[derive(Debug, Clone, Copy, PartialEq, Eq, Structural)]
pub struct StorageStats {
    /// The blocks in use
    pub used_blocks: u64,
    /// The blocks available to unprivileged users
    pub avail_blocks: u64,
    /// The bytes in use
    pub used_bytes: u64,
    /// The bytes available to unprivileged users
    pub avail_bytes: u64,
}

/// The figures of a file system from its `statvfs`: the used blocks are all
/// blocks less the free ones, and the bytes are the blocks times the
/// fragment size.
pub fn storage_stats(blocks: u64, bfree: u64, bavail: u64, frsize: u64) -> (r: StorageStats)
    requires
        bfree <= blocks,
        (blocks - bfree) * frsize <= u64::MAX,
        bavail * frsize <= u64::MAX,
    ensures
        r.used_blocks == blocks - bfree,
        r.avail_blocks == bavail,
        r.used_bytes == (blocks - bfree) * frsize,
        r.avail_bytes == bavail * frsize,
{
    let used = blocks - bfree;
    StorageStats { used_blocks: used, avail_blocks: bavail, used_bytes: used * frsize, avail_bytes: bavail * frsize }
}

/// The placeholders of the storage panel's format, in the order of their
/// values.
pub open spec fn storage_placeholders() -> Seq<Seq<char>> {
    seq![
        "%path%"@, "%gb_total%"@, "%gb_used%"@, "%gb_free%"@, "%mb_total%"@, "%mb_used%"@, "%mb_free%"@,
        "%gb_swap_total%"@, "%gb_swap_used%"@, "%gb_swap_free%"@, "%mb_swap_total%"@, "%mb_swap_used%"@,
        "%mb_swap_free%"@, "%percentage_used%"@, "%percentage_free%"@, "%percentage_swap_used%"@,
        "%percentage_swap_free%"@, "%ramp%"@,
    ]
}

/// The placeholders whose values the storage panel is given, in the order
/// in which it is given them.
pub open spec fn storage_value_names() -> Seq<Seq<char>> {
    seq![
        "%path%"@, "%gb_total%"@, "%gb_used%"@, "%gb_free%"@, "%mb_total%"@, "%mb_used%"@, "%mb_free%"@,
        "%percentage_used%"@, "%percentage_free%"@,
    ]
}

/// Where in the list of placeholders each of the given values goes.
pub open spec fn storage_value_places() -> Seq<int> {
    seq![0, 1, 2, 3, 4, 5, 6, 13, 14]
}

/// What the storage panel puts in place of each placeholder: the nine
/// values of `%path%`, the sizes and the percentages in their order, and
/// every other placeholder (those of swap, and `%ramp%`) left as it is.
pub open spec fn storage_replacements(values: Seq<Seq<char>>) -> Seq<Seq<char>> {
    let p = storage_placeholders();
    seq![
        values[0], values[1], values[2], values[3], values[4], values[5], values[6],
        p[7], p[8], p[9], p[10], p[11], p[12],
        values[7], values[8], p[15], p[16], p[17],
    ]
}

/// The text of the storage panel: its format with each placeholder replaced;
/// see [`storage_replacements`]. `values` holds the values of the
/// placeholders of [`storage_value_names`], in that order. `None` where the automaton of the
/// placeholders cannot be built.
pub fn storage_text(format: &str, values: &Vec<String>) -> (r: Option<String>)
    requires
        values@.len() == 9,
    ensures
        match r {
            Some(t) => aho_corasick_replaced(storage_placeholders(), format@, storage_replacements(texts(values@))) == Some(t@),
            None => aho_corasick_replaced(storage_placeholders(), format@, storage_replacements(texts(values@))) is None,
        },
{
    let patterns: Vec<String> = vec![
        "%path%".to_string(), "%gb_total%".to_string(), "%gb_used%".to_string(), "%gb_free%".to_string(),
        "%mb_total%".to_string(), "%mb_used%".to_string(), "%mb_free%".to_string(),
        "%gb_swap_total%".to_string(), "%gb_swap_used%".to_string(), "%gb_swap_free%".to_string(),
        "%mb_swap_total%".to_string(), "%mb_swap_used%".to_string(), "%mb_swap_free%".to_string(),
        "%percentage_used%".to_string(), "%percentage_free%".to_string(),
        "%percentage_swap_used%".to_string(), "%percentage_swap_free%".to_string(), "%ramp%".to_string(),
    ];
    let replacements: Vec<String> = vec![
        values[0].clone(), values[1].clone(), values[2].clone(), values[3].clone(), values[4].clone(),
        values[5].clone(), values[6].clone(), "%gb_swap_total%".to_string(), "%gb_swap_used%".to_string(),
        "%gb_swap_free%".to_string(), "%mb_swap_total%".to_string(), "%mb_swap_used%".to_string(),
        "%mb_swap_free%".to_string(), values[7].clone(), values[8].clone(),
        "%percentage_swap_used%".to_string(), "%percentage_swap_free%".to_string(), "%ramp%".to_string(),
    ];
    proof {
        assert(texts(patterns@) =~= storage_placeholders());
        assert(texts(replacements@) =~= storage_replacements(texts(values@)));
    }
    aho_corasick_replace(&patterns, format, &replacements)
}


/// Each placeholder whose value the storage panel is given is replaced by
/// the value of the same name (`%gb_total%` by the total size, `%gb_used%`
/// by the used size, and so on), and every other placeholder is left as it
/// is.
pub proof fn law_storage_replacements(values: Seq<Seq<char>>)
    requires
        values.len() == 9,
    ensures
        storage_replacements(values).len() == storage_placeholders().len(),
        forall|i: int| 0 <= i < 9 ==> {
            &&& 0 <= #[trigger] storage_value_places()[i] < 18
            &&& storage_placeholders()[storage_value_places()[i]] == storage_value_names()[i]
            &&& storage_replacements(values)[storage_value_places()[i]] == values[i]
        },
        forall|j: int| 0 <= j < 18 && !storage_value_places().contains(j)
            ==> #[trigger] storage_replacements(values)[j] == storage_placeholders()[j],
{
    let p = storage_value_places();
    assert forall|j: int| 0 <= j < 18 && !p.contains(j)
        implies #[trigger] storage_replacements(values)[j] == storage_placeholders()[j] by {
        if j <= 6 {
            assert(p[j] == j);
        } else if j == 13 {
            assert(p[7] == 13);
        } else if j == 14 {
            assert(p[8] == 14);
        }
    }
}

/// A later entry for a key replaces what an earlier one said, and leaves
/// every other key as it was.
pub proof fn law_lookup_after_entry(entries: Seq<(Seq<char>, u64)>, key: Seq<char>, value: u64, other: Seq<char>)
    ensures
        lookup(entries.push((key, value)), key) == Some(value),
        other != key ==> lookup(entries.push((key, value)), other) == lookup(entries, other),
{
    assert(entries.push((key, value)).drop_last() =~= entries);
}

} // verus!
