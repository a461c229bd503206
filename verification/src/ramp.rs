//! Utility data structure to display one of several strings based on a value
//! in a range, like a volume icon.
use vstd::prelude::*;

use crate::cli::lemma_decimal_injective;
use crate::config::{consts_replaced, replace_consts};
use crate::text::{decimal, decimal_string, same_text};

verus! {

/// Utility data structure to display one of several strings based on a value in
/// a range, like a volume icon.
#[derive(Clone, Debug)]
pub struct Ramp {
    icons: Vec<String>,
}

/// The floor of `num * len / den` for a positive `den`, or zero where the
/// product is not positive.
pub open spec fn scaled_floor(num: int, den: int, len: int) -> int {
    if num * len <= 0 {
        0
    } else {
        (num * len) / den
    }
}

/// The proportion `(value - min) / (max - min)` of the range that the value
/// reaches, clamped to the range from 0 to 1, as a fraction `num / den` with
/// `0 <= num <= den`. An empty range (`max == min`) counts as reached in full
/// by any value above it, and not at all otherwise.
pub open spec fn clamped_proportion(value: int, min: int, max: int) -> (int, int) {
    let d = max - min;
    let n = value - min;
    if d == 0 {
        if n > 0 {
            (1, 1)
        } else {
            (0, 1)
        }
    } else {
        let (num, den) = if d > 0 { (n, d) } else { (-n, -d) };
        if num < 0 {
            (0, 1)
        } else if num > den {
            (1, 1)
        } else {
            (num, den)
        }
    }
}

/// The index of the icon that a ramp of `len` icons shows for `value` in the
/// range from `min` to `max`: the clamped proportion times `len`, rounded
/// down, and no higher than the last index. So a value at or below `min`
/// shows the first icon and a value at or above `max` the last.
pub open spec fn ramp_index(value: int, min: int, max: int, len: int) -> int {
    let (num, den) = clamped_proportion(value, min, max);
    let raw = scaled_floor(num, den, len);
    if raw < len - 1 {
        raw
    } else {
        len - 1
    }
}

impl Ramp {
    /// The icons of the ramp, in order.
    pub closed spec fn icons_view(&self) -> Seq<String> {
        self.icons@
    }

    /// A ramp with the given icons, in order.
    pub fn from_icons(icons: Vec<String>) -> (r: Ramp)
        ensures
            r.icons_view() == icons@,
    {
        Ramp { icons }
    }

    /// The default ramp: one empty icon.
    pub fn new_default() -> (r: Ramp)
        ensures
            r.icons_view().len() == 1,
            r.icons_view()[0]@ == Seq::<char>::empty(),
    {
        let mut icons: Vec<String> = Vec::new();
        icons.push(String::new());
        Ramp { icons }
    }

    /// The number of icons of the ramp.
    pub fn len(&self) -> (r: usize)
        ensures
            r == self.icons_view().len(),
    {
        self.icons.len()
    }

    /// Given a value and a range, chooses the appropriate icon.
    ///
    /// The proportion of the range that the value reaches is computed exactly.
    pub fn choose_icon(&self, value: u32, min: u32, max: u32) -> (r: String)
        requires
            self.icons_view().len() > 0,
        ensures
            r@ == self.icons_view()[ramp_index(value as int, min as int, max as int, self.icons_view().len() as int)]@,
    {
        let len = self.icons.len();
        let v = value as i128;
        let lo = min as i128;
        let hi = max as i128;
        let ln = len as i128;
        let d = hi - lo;
        let n = v - lo;
        let (num, den): (i128, i128) = if d == 0 {
            if n > 0 { (1, 1) } else { (0, 1) }
        } else {
            let (num0, den0) = if d > 0 { (n, d) } else { (-n, -d) };
            if num0 < 0 {
                (0, 1)
            } else if num0 > den0 {
                (1, 1)
            } else {
                (num0, den0)
            }
        };
        assert(0 <= num <= den && 0 < den < 0x1_0000_0000);
        assert(0 <= ln <= usize::MAX);
        assert(0 <= num * ln <= 0x1_0000_0000 * 0x1_0000_0000_0000_0000) by (nonlinear_arith)
            requires 0 <= num < 0x1_0000_0000, 0 <= ln <= 0x1_0000_0000_0000_0000;
        let p = num * ln;
        let raw: i128 = if p <= 0 { 0 } else { p / den };
        let idx: usize = if raw < ln - 1 {
            raw as usize
        } else {
            len - 1
        };
        self.icons[idx].clone()
    }
}


/// The icon that a ramp chooses is always one of its icons.
pub proof fn law_ramp_index_in_range(value: int, min: int, max: int, len: int)
    requires
        len > 0,
    ensures
        0 <= ramp_index(value, min, max, len) < len,
{
    let (num, den) = clamped_proportion(value, min, max);
    assert(den > 0);
    if num * len > 0 {
        assert((num * len) / den >= 0) by (nonlinear_arith)
            requires num * len > 0, den > 0;
    }
}

/// A value at or below the bottom of a proper range shows the first icon,
/// and a value at or above its top the last one.
pub proof fn law_ramp_ends(value: int, min: int, max: int, len: int)
    requires
        len > 0,
        min < max,
    ensures
        value <= min ==> ramp_index(value, min, max, len) == 0,
        value >= max ==> ramp_index(value, min, max, len) == len - 1,
{
    let d = max - min;
    if value >= max {
        if value - min == d {
            assert(clamped_proportion(value, min, max) == (d, d));
            assert((d * len) / d == len && d * len > 0) by (nonlinear_arith)
                requires d > 0, len > 0;
        } else {
            assert(clamped_proportion(value, min, max) == (1int, 1int));
            assert(1 * len == len && len / 1 == len);
        }
    }
}

/// Inside a proper range, the icon is the proportion of the range reached,
/// times the number of icons, rounded down.
pub proof fn law_ramp_proportional(value: int, min: int, max: int, len: int)
    requires
        len > 0,
        min < value < max,
    ensures
        ramp_index(value, min, max, len) == (value - min) * len / (max - min),
{
    assert((value - min) * len > 0) by (nonlinear_arith)
        requires value - min > 0, len > 0;
    assert((value - min) * len / (max - min) < len) by (nonlinear_arith)
        requires 0 < value - min < max - min, len > 0;
}


/// For a range from `min` up to `max`, the clamped proportion over the
/// common denominator `max - min`.
pub open spec fn clamped_numerator(value: int, min: int, max: int) -> int {
    let d = max - min;
    let n = value - min;
    if n < 0 {
        0
    } else if n > d {
        d
    } else {
        n
    }
}

proof fn lemma_common_denominator(value: int, min: int, max: int, len: int)
    requires
        min < max,
        len >= 0,
    ensures
        ({
            let (num, den) = clamped_proportion(value, min, max);
            scaled_floor(num, den, len) == scaled_floor(clamped_numerator(value, min, max), max - min, len)
        }),
{
    let d = max - min;
    let n = value - min;
    if n > d {
        assert(d * len == len * d) by (nonlinear_arith);
        vstd::arithmetic::div_mod::lemma_div_by_multiple(len, d);
        assert((d * len <= 0) == (len <= 0)) by (nonlinear_arith)
            requires d > 0, len >= 0;
    }
}

/// Over a range from `min` up to `max`, a larger value never chooses an
/// earlier icon.
pub proof fn law_ramp_monotone(v1: int, v2: int, min: int, max: int, len: int)
    requires
        min < max,
        len > 0,
        v1 <= v2,
    ensures
        ramp_index(v1, min, max, len) <= ramp_index(v2, min, max, len),
{
    let d = max - min;
    lemma_common_denominator(v1, min, max, len);
    lemma_common_denominator(v2, min, max, len);
    let n1 = clamped_numerator(v1, min, max);
    let n2 = clamped_numerator(v2, min, max);
    assert(n1 <= n2);
    if n1 * len > 0 {
        assert(n1 * len <= n2 * len) by (nonlinear_arith)
            requires n1 <= n2, len > 0;
        vstd::arithmetic::div_mod::lemma_div_is_ordered(n1 * len, n2 * len, d);
    } else if n2 * len > 0 {
        assert((n2 * len) / d >= 0) by (nonlinear_arith)
            requires n2 * len > 0, d > 0;
    }
}

/// The string under `key` in a table given as its entries, where the first
/// entry with that key holds a string.
pub open spec fn string_at(entries: Seq<(String, Option<String>)>, key: Seq<char>) -> Option<Seq<char>>
    decreases entries.len(),
{
    if entries.len() == 0 {
        None
    } else if entries[0].0@ == key {
        match entries[0].1 {
            Some(v) => Some(v@),
            None => None,
        }
    } else {
        string_at(entries.drop_first(), key)
    }
}

/// The icons of a ramp table from key `k` on: the strings under the keys
/// `k`, `k + 1`, ... in turn, each with its constants replaced, up to the
/// first key that is missing or holds no string (no table of `n` entries
/// holds more than `n` keys).
pub open spec fn ramp_icons_from(entries: Seq<(String, Option<String>)>, consts: Seq<(String, String)>, k: nat) -> Seq<Seq<char>>
    decreases entries.len() - k,
{
    if k >= entries.len() {
        Seq::empty()
    } else {
        match string_at(entries, decimal(k)) {
            None => Seq::empty(),
            Some(v) => seq![consts_replaced(v, consts)] + ramp_icons_from(entries, consts, k + 1),
        }
    }
}

/// The string under `key`; see [`string_at`].
fn string_at_exec<'a>(entries: &'a Vec<(String, Option<String>)>, key: &str) -> (r: Option<&'a String>)
    ensures
        match r {
            Some(v) => string_at(entries@, key@) == Some(v@),
            None => string_at(entries@, key@) is None,
        },
{
    let mut i: usize = 0;
    proof {
        assert(entries@.skip(0) =~= entries@);
    }
    while i < entries.len()
        invariant
            i <= entries@.len(),
            string_at(entries@, key@) == string_at(entries@.skip(i as int), key@),
        decreases entries@.len() - i,
    {
        proof {
            assert(entries@.skip(i as int).drop_first() =~= entries@.skip(i + 1));
            assert(entries@.skip(i as int)[0] == entries@[i as int]);
        }
        if same_text(entries[i].0.as_str(), key) {
            return match &entries[i].1 {
                Some(v) => Some(v),
                None => None,
            };
        }
        i = i + 1;
    }
    None
}

impl Ramp {
    /// A ramp from a table of the configuration: the strings under the keys
    /// `0`, `1`, ... in turn, each with its constants replaced; see
    /// [`ramp_icons_from`].
    pub fn from_table(entries: &Vec<(String, Option<String>)>, consts: &Vec<(String, String)>) -> (r: Ramp)
        ensures
            r.icons_view().map_values(|s: String| s@) == ramp_icons_from(entries@, consts@, 0),
    {
        let mut icons: Vec<String> = Vec::new();
        let mut k: usize = 0;
        while k < entries.len()
            invariant
                k <= entries@.len(),
                icons@.len() == k,
                icons@.map_values(|s: String| s@) + ramp_icons_from(entries@, consts@, k as nat) == ramp_icons_from(entries@, consts@, 0),
            ensures
                icons@.map_values(|s: String| s@) == ramp_icons_from(entries@, consts@, 0),
            decreases entries@.len() - k,
        {
            let key = decimal_string(k as u128);
            match string_at_exec(entries, key.as_str()) {
                None => {
                    proof {
                        assert(ramp_icons_from(entries@, consts@, k as nat) =~= Seq::<Seq<char>>::empty());
                        assert(icons@.map_values(|s: String| s@) + Seq::<Seq<char>>::empty() =~= icons@.map_values(|s: String| s@));
                    }
                    break;
                },
                Some(v) => {
                    let ghost before = icons@.map_values(|s: String| s@);
                    let icon = replace_consts(v.as_str(), consts);
                    icons.push(icon);
                    proof {
                        assert(icons@.map_values(|s: String| s@) =~= before.push(consts_replaced(v@, consts@)));
                        assert(before.push(consts_replaced(v@, consts@)) + ramp_icons_from(entries@, consts@, (k + 1) as nat)
                            =~= before + (seq![consts_replaced(v@, consts@)] + ramp_icons_from(entries@, consts@, (k + 1) as nat)));
                    }
                },
            }
            k = k + 1;
            proof {
                if k >= entries@.len() {
                    assert(ramp_icons_from(entries@, consts@, k as nat) =~= Seq::<Seq<char>>::empty());
                    assert(icons@.map_values(|s: String| s@) + Seq::<Seq<char>>::empty() =~= icons@.map_values(|s: String| s@));
                }
            }
        }
        Ramp { icons }
    }
}

proof fn lemma_decimals_count(k: nat, keys: Seq<Seq<char>>)
    requires
        forall|j: nat| j <= k ==> keys.contains(#[trigger] decimal(j)),
    ensures
        k + 1 <= keys.len(),
{
    let ds = Seq::new(k + 1, |j: int| decimal(j as nat));
    assert forall|a: int, b: int| 0 <= a < ds.len() && 0 <= b < ds.len() && a != b implies ds[a] != ds[b] by {
        if ds[a] == ds[b] {
            lemma_decimal_injective(a as nat, b as nat);
        }
    }
    assert(ds.no_duplicates());
    ds.unique_seq_to_set();
    assert forall|p: Seq<char>| ds.to_set().contains(p) implies keys.to_set().contains(p) by {
        let j = choose|j: int| 0 <= j < ds.len() && ds[j] == p;
        assert(keys.contains(decimal(j as nat)));
    }
    keys.lemma_cardinality_of_set();
    vstd::set_lib::lemma_len_subset(ds.to_set(), keys.to_set());
}

proof fn lemma_string_at_key(entries: Seq<(String, Option<String>)>, key: Seq<char>)
    requires
        string_at(entries, key) is Some,
    ensures
        entries.map_values(|e: (String, Option<String>)| e.0@).contains(key),
    decreases entries.len(),
{
    let keys = entries.map_values(|e: (String, Option<String>)| e.0@);
    if entries[0].0@ == key {
        assert(keys[0] == key);
    } else {
        lemma_string_at_key(entries.drop_first(), key);
        let rest = entries.drop_first().map_values(|e: (String, Option<String>)| e.0@);
        let i = choose|i: int| 0 <= i < rest.len() && rest[i] == key;
        assert(keys[i + 1] == key);
    }
}

proof fn lemma_icons_stop(entries: Seq<(String, Option<String>)>, consts: Seq<(String, String)>, k: nat)
    requires
        forall|j: nat| j < k ==> (#[trigger] string_at(entries, decimal(j))) is Some,
        k <= entries.len(),
    ensures
        string_at(entries, decimal((k + ramp_icons_from(entries, consts, k).len()) as nat)) is None,
    decreases entries.len() - k,
{
    let n = k + ramp_icons_from(entries, consts, k).len();
    if k < entries.len() && string_at(entries, decimal(k)) is Some {
        assert forall|j: nat| j < k + 1 implies (#[trigger] string_at(entries, decimal(j))) is Some by {}
        lemma_icons_stop(entries, consts, k + 1);
    } else if k >= entries.len() && string_at(entries, decimal(k)) is Some {
        let keys = entries.map_values(|e: (String, Option<String>)| e.0@);
        assert forall|j: nat| j <= k implies keys.contains(#[trigger] decimal(j)) by {
            lemma_string_at_key(entries, decimal(j));
        }
        lemma_decimals_count(k, keys);
    }
}

/// A ramp read from a table stops only at a key that is missing or holds no
/// string: the key after its last icon.
pub proof fn law_ramp_table_stops_at_gap(entries: Seq<(String, Option<String>)>, consts: Seq<(String, String)>)
    ensures
        string_at(entries, decimal(ramp_icons_from(entries, consts, 0).len())) is None,
{
    lemma_icons_stop(entries, consts, 0);
}

} // verus!
