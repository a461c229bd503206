//! The system tray panel: how its icons are ordered, indexed and laid out.
use vstd::prelude::*;
use vstd::string::*;

use crate::text::{chars_of, lowercase, opt_str, same_text, to_lowercase};

verus! {

/// How the icons of the tray are ordered.
#[derive(Debug, Clone, Copy, PartialEq, Eq, Structural)]
pub enum SortMethod {
    /// In the order in which the icons arrived; new icons go on the right,
    /// or on the left where the flag is set
    Arrival(bool),
    /// By window name; in reverse where the flag is set
    WindowName(bool),
    /// By window name in lower case; in reverse where the flag is set
    WindowNameLower(bool),
}

/// The same sort method with its direction flipped.
pub open spec fn reversed_method(m: SortMethod) -> SortMethod {
    match m {
        SortMethod::Arrival(r) => SortMethod::Arrival(!r),
        SortMethod::WindowName(r) => SortMethod::WindowName(!r),
        SortMethod::WindowNameLower(r) => SortMethod::WindowNameLower(!r),
    }
}

impl SortMethod {
    /// The same sort method with its direction flipped.
    pub fn reverse(self) -> (r: Self)
        ensures
            r == reversed_method(self),
    {
        match self {
            SortMethod::Arrival(reversed) => SortMethod::Arrival(!reversed),
            SortMethod::WindowName(reversed) => SortMethod::WindowName(!reversed),
            SortMethod::WindowNameLower(reversed) => SortMethod::WindowNameLower(!reversed),
        }
    }
}

/// The sort method that the `sort` option names: `window_name`,
/// `window_name_lower`, or arrival for any other value.
pub open spec fn sort_named(s: Seq<char>) -> SortMethod {
    if s == "window_name"@ {
        SortMethod::WindowName(false)
    } else if s == "window_name_lower"@ {
        SortMethod::WindowNameLower(false)
    } else {
        SortMethod::Arrival(false)
    }
}

/// The sort method of a tray, from its `sort` and `sort_reverse` options.
/// Without a `sort` option the icons go by arrival, left to right, whatever
/// `sort_reverse` says.
pub open spec fn configured_sort(sort: Option<Seq<char>>, sort_reverse: Option<bool>) -> SortMethod {
    match sort {
        None => SortMethod::Arrival(false),
        Some(s) => if sort_reverse == Some(true) {
            reversed_method(sort_named(s))
        } else {
            sort_named(s)
        },
    }
}

/// The sort method of a tray; see [`configured_sort`].
pub fn sort_method(sort: Option<&str>, sort_reverse: Option<bool>) -> (r: SortMethod)
    ensures
        r == configured_sort(opt_str(sort), sort_reverse),
{
    match sort {
        None => SortMethod::Arrival(false),
        Some(s) => {
            let base = if same_text(s, "window_name") {
                SortMethod::WindowName(false)
            } else if same_text(s, "window_name_lower") {
                SortMethod::WindowNameLower(false)
            } else {
                SortMethod::Arrival(false)
            };
            if sort_reverse == Some(true) {
                base.reverse()
            } else {
                base
            }
        },
    }
}

/// An icon of the tray.
#[derive(Debug, Clone, Copy, PartialEq, Eq, Structural)]
pub struct Icon {
    /// The icon's window
    pub window: u32,
    /// Whether the icon asks to be shown
    pub mapped: bool,
    /// The icon's place in the tray, from the left
    pub idx: usize,
}

/// The icons after one more arrives: by arrival it goes on the right, by
/// reversed arrival on the left (the others move one place right), and by
/// window name first, before the icons are sorted.
pub open spec fn icons_after_arrival(icons: Seq<Icon>, window: u32, mapped: bool, sort: SortMethod) -> Seq<Icon> {
    match sort {
        SortMethod::Arrival(false) => icons.push(Icon { window, mapped, idx: icons.len() as usize }),
        SortMethod::Arrival(true) => Seq::new(icons.len(), |k: int| Icon { idx: (icons[k].idx + 1) as usize, ..icons[k] }).push(
            Icon { window, mapped, idx: 0 },
        ),
        _ => icons.push(Icon { window, mapped, idx: 0 }),
    }
}

/// Adds an icon that arrived; see [`icons_after_arrival`].
pub fn add_icon(icons: &mut Vec<Icon>, window: u32, mapped: bool, sort: SortMethod)
    requires
        sort == SortMethod::Arrival(true) ==> forall|k: int| 0 <= k < old(icons)@.len() ==> old(icons)@[k].idx < usize::MAX,
    ensures
        final(icons)@ == icons_after_arrival(old(icons)@, window, mapped, sort),
{
    let idx = match sort {
        SortMethod::Arrival(false) => icons.len(),
        SortMethod::Arrival(true) => {
            let mut k: usize = 0;
            while k < icons.len()
                invariant
                    k <= icons@.len(),
                    icons@.len() == old(icons)@.len(),
                    forall|j: int| 0 <= j < old(icons)@.len() ==> old(icons)@[j].idx < usize::MAX,
                    forall|j: int| 0 <= j < k ==> #[trigger] icons@[j] == (Icon { idx: (old(icons)@[j].idx + 1) as usize, ..old(icons)@[j] }),
                    forall|j: int| k <= j < icons@.len() ==> #[trigger] icons@[j] == old(icons)@[j],
                decreases icons@.len() - k,
            {
                let mut icon = icons[k];
                icon.idx = icon.idx + 1;
                icons.set(k, icon);
                k = k + 1;
            }
            0
        },
        _ => 0,
    };
    icons.push(Icon { window, mapped, idx });
    proof {
        assert(icons@ =~= icons_after_arrival(old(icons)@, window, mapped, sort));
    }
}

/// The icons that remain when the icon with the given window goes.
pub open spec fn icons_kept(icons: Seq<Icon>, window: u32) -> Seq<Icon>
    decreases icons.len(),
{
    if icons.len() == 0 {
        Seq::empty()
    } else if icons.last().window == window {
        icons_kept(icons.drop_last(), window)
    } else {
        icons_kept(icons.drop_last(), window).push(icons.last())
    }
}

/// The place of the last icon with the given window, if any.
pub open spec fn removed_idx(icons: Seq<Icon>, window: u32) -> Option<usize>
    decreases icons.len(),
{
    if icons.len() == 0 {
        None
    } else if icons.last().window == window {
        Some(icons.last().idx)
    } else {
        removed_idx(icons.drop_last(), window)
    }
}

/// The icons after a place was freed: each icon right of it moves one place
/// left.
pub open spec fn icons_closed_up(icons: Seq<Icon>, removed: Option<usize>) -> Seq<Icon> {
    match removed {
        None => icons,
        Some(r) => Seq::new(icons.len(), |k: int|
            if icons[k].idx > r { Icon { idx: (icons[k].idx - 1) as usize, ..icons[k] } } else { icons[k] }),
    }
}

/// Removes the icons of a window that left the tray and moves the icons
/// right of its place one place left. Returns the freed place.
pub fn remove_icon(icons: &mut Vec<Icon>, window: u32) -> (r: Option<usize>)
    ensures
        r == removed_idx(old(icons)@, window),
        final(icons)@ == icons_closed_up(icons_kept(old(icons)@, window), r),
{
    let mut kept: Vec<Icon> = Vec::new();
    let mut removed: Option<usize> = None;
    let mut k: usize = 0;
    while k < icons.len()
        invariant
            k <= icons@.len(),
            icons@ == old(icons)@,
            kept@ == icons_kept(icons@.take(k as int), window),
            removed == removed_idx(icons@.take(k as int), window),
        decreases icons@.len() - k,
    {
        proof {
            assert(icons@.take(k + 1).drop_last() =~= icons@.take(k as int));
        }
        let icon = icons[k];
        if icon.window == window {
            removed = Some(icon.idx);
        } else {
            kept.push(icon);
        }
        k = k + 1;
    }
    proof {
        assert(icons@.take(k as int) =~= icons@);
    }
    if let Some(r) = removed {
        let mut j: usize = 0;
        while j < kept.len()
            invariant
                j <= kept@.len(),
                removed == Some(r),
                kept@.len() == icons_kept(old(icons)@, window).len(),
                forall|i: int| 0 <= i < j ==> #[trigger] kept@[i] == icons_closed_up(icons_kept(old(icons)@, window), removed)[i],
                forall|i: int| j <= i < kept@.len() ==> #[trigger] kept@[i] == icons_kept(old(icons)@, window)[i],
            decreases kept@.len() - j,
        {
            let mut icon = kept[j];
            if icon.idx > r {
                icon.idx = icon.idx - 1;
            }
            kept.set(j, icon);
            j = j + 1;
        }
        proof {
            assert(kept@ =~= icons_closed_up(icons_kept(old(icons)@, window), removed));
        }
    }
    *icons = kept;
    removed
}

/// The width of the tray: the icons side by side, each with its padding,
/// as a 16-bit width (Rust's `as u16`), and at least one pixel.
pub open spec fn tray_width_of(len: int, size: int, padding: int) -> int {
    let w = (len * (size + padding)) % 0x10000;
    if w < 1 {
        1
    } else {
        w
    }
}

/// The width of the tray; see [`tray_width_of`].
pub fn tray_width(len: usize, size: i16, padding: i16) -> (r: u16)
    requires
        size >= 0,
        padding >= 0,
        len * (size + padding) <= usize::MAX,
    ensures
        r as int == tray_width_of(len as int, size as int, padding as int),
{
    let per: usize = size as usize + padding as usize;
    let total: usize = len * per;
    let w: u16 = (total % 0x10000) as u16;
    if w < 1 {
        1
    } else {
        w
    }
}

/// Half of `p`, rounded toward zero as Rust's `/` rounds.
pub open spec fn half_toward_zero(p: int) -> int {
    if p >= 0 {
        p / 2
    } else {
        -((-p) / 2)
    }
}

/// The left edge of an icon in the tray: its place times the size of an icon
/// with its padding, and half a padding more.
pub open spec fn icon_x_of(idx: int, size: int, padding: int) -> int {
    idx * (size + padding) + half_toward_zero(padding)
}

/// The left edge of an icon in the tray; see [`icon_x_of`].
pub fn icon_x(idx: usize, size: i16, padding: i16) -> (r: i16)
    requires
        idx <= i16::MAX,
        i16::MIN <= size + padding <= i16::MAX,
        i16::MIN <= idx * (size + padding) <= i16::MAX,
        i16::MIN <= icon_x_of(idx as int, size as int, padding as int) <= i16::MAX,
    ensures
        r as int == icon_x_of(idx as int, size as int, padding as int),
{
    let step: i32 = size as i32 + padding as i32;
    let i: i32 = idx as i32;
    assert(i16::MIN <= i * step <= i16::MAX);
    let base: i32 = i * step;
    let p: i32 = padding as i32;
    let half: i32 = if p >= 0 {
        p / 2
    } else {
        -((-p) / 2)
    };
    (base + half) as i16
}

/// Whether text `a` comes before text `b` in Rust's order of strings:
/// lexicographically by code point (which is the order of their UTF-8
/// bytes), a proper prefix first.
pub open spec fn text_less(a: Seq<char>, b: Seq<char>) -> bool
    decreases a.len(),
{
    if a.len() == 0 {
        b.len() > 0
    } else if b.len() == 0 {
        false
    } else if a[0] != b[0] {
        (a[0] as u32) < (b[0] as u32)
    } else {
        text_less(a.drop_first(), b.drop_first())
    }
}

/// No text comes before itself.
pub proof fn lemma_text_less_irreflexive(a: Seq<char>)
    ensures
        !text_less(a, a),
    decreases a.len(),
{
    if a.len() > 0 {
        lemma_text_less_irreflexive(a.drop_first());
    }
}

/// The order of texts is transitive.
pub proof fn lemma_text_less_transitive(a: Seq<char>, b: Seq<char>, c: Seq<char>)
    requires
        text_less(a, b),
        text_less(b, c),
    ensures
        text_less(a, c),
    decreases a.len(),
{
    if a.len() > 0 && b.len() > 0 && c.len() > 0 && a[0] == b[0] && b[0] == c[0] {
        lemma_text_less_transitive(a.drop_first(), b.drop_first(), c.drop_first());
    }
}

/// Of two different texts, one comes before the other, and never both.
pub proof fn lemma_text_less_total(a: Seq<char>, b: Seq<char>)
    ensures
        a != b ==> text_less(a, b) || text_less(b, a),
        !(text_less(a, b) && text_less(b, a)),
    decreases a.len(),
{
    if a.len() > 0 && b.len() > 0 {
        lemma_text_less_total(a.drop_first(), b.drop_first());
        if a[0] != b[0] {
            vstd::utf8::char_u32_cast(a[0], a[0] as u32);
            vstd::utf8::char_u32_cast(b[0], b[0] as u32);
        }
        if a[0] == b[0] && a.drop_first() == b.drop_first() {
            assert(a =~= seq![a[0]] + a.drop_first());
            assert(b =~= seq![b[0]] + b.drop_first());
        }
    } else if a.len() == 0 && b.len() == 0 {
        assert(a =~= b);
    }
}

/// Whether text `a` comes before text `b`; see [`text_less`].
fn text_before(a: &Vec<char>, b: &Vec<char>) -> (r: bool)
    ensures
        r == text_less(a@, b@),
{
    let mut i: usize = 0;
    proof {
        assert(a@.skip(0) =~= a@);
        assert(b@.skip(0) =~= b@);
    }
    while i < a.len() && i < b.len() && a[i] == b[i]
        invariant
            i <= a@.len(),
            i <= b@.len(),
            text_less(a@, b@) == text_less(a@.skip(i as int), b@.skip(i as int)),
        decreases a@.len() - i,
    {
        proof {
            assert(a@.skip(i as int).drop_first() =~= a@.skip(i + 1));
            assert(b@.skip(i as int).drop_first() =~= b@.skip(i + 1));
        }
        i = i + 1;
    }
    proof {
        if i < a@.len() {
            assert(a@.skip(i as int)[0] == a@[i as int]);
        }
        if i < b@.len() {
            assert(b@.skip(i as int)[0] == b@[i as int]);
        }
    }
    if i == a.len() {
        i < b.len()
    } else if i == b.len() {
        false
    } else {
        (a[i] as u32) < (b[i] as u32)
    }
}

/// The key by which an icon is sorted: its window name, where it could be
/// read.
pub open spec fn key_view(k: Option<Vec<char>>) -> Option<Seq<char>> {
    match k {
        Some(v) => Some(v@),
        None => None,
    }
}

/// Whether key `b` must come after key `a`: both are known and `b` comes
/// after `a` in the order of texts, or before it where the sort is reversed.
/// An unknown key compares equal to every key.
pub open spec fn key_before(a: Option<Seq<char>>, b: Option<Seq<char>>, reversed: bool) -> bool {
    match (a, b) {
        (Some(x), Some(y)) => if reversed {
            text_less(y, x)
        } else {
            text_less(x, y)
        },
        _ => false,
    }
}

/// Whether every key is known.
pub open spec fn all_known(keys: Seq<Option<Seq<char>>>) -> bool {
    forall|k: int| 0 <= k < keys.len() ==> (#[trigger] keys[k]) is Some
}

/// Whether `order` holds each of `0..n` once.
pub open spec fn is_permutation(order: Seq<usize>, n: int) -> bool {
    &&& order.len() == n
    &&& forall|k: int| 0 <= k < n ==> (#[trigger] order[k]) < n
    &&& forall|k: int, l: int| 0 <= k < l < n ==> order[k] != order[l]
}

/// Whether the entries `order[lo..hi]` are in the order of their keys, and
/// entries with equal keys in the order they had before.
pub open spec fn sorted_stably(keys: Seq<Option<Seq<char>>>, order: Seq<usize>, reversed: bool, skip: int, hi: int) -> bool {
    forall|k: int, l: int|
        0 <= k < l < hi && k != skip && l != skip ==> {
            &&& !key_before(keys[order[l] as int], keys[order[k] as int], reversed)
            &&& (keys[order[k] as int] == keys[order[l] as int] ==> order[k] < order[l])
        }
}

/// The icons in a new order, each with its new place.
pub open spec fn icons_in_order(icons: Seq<Icon>, order: Seq<usize>) -> Seq<Icon> {
    Seq::new(order.len(), |k: int| Icon { idx: k as usize, ..icons[order[k] as int] })
}

/// The order of known keys is transitive, total and strict.
proof fn lemma_key_order(a: Option<Seq<char>>, b: Option<Seq<char>>, c: Option<Seq<char>>, reversed: bool)
    requires
        a is Some,
        b is Some,
        c is Some,
    ensures
        key_before(a, b, reversed) && key_before(b, c, reversed) ==> key_before(a, c, reversed),
        a != b ==> key_before(a, b, reversed) || key_before(b, a, reversed),
        !(key_before(a, b, reversed) && key_before(b, a, reversed)),
        !key_before(a, a, reversed),
{
    let (x, y, z) = (a->0, b->0, c->0);
    lemma_text_less_total(x, y);
    lemma_text_less_irreflexive(x);
    if key_before(a, b, reversed) && key_before(b, c, reversed) {
        if reversed {
            lemma_text_less_transitive(z, y, x);
        } else {
            lemma_text_less_transitive(x, y, z);
        }
    }
}

/// Once the entry that is put in place stops, one pair of the entries
/// `0..=i` is in order.
proof fn lemma_insertion_pair(kv: Seq<Option<Seq<char>>>, order: Seq<usize>, reversed: bool, j: int, i: int, k: int, l: int)
    requires
        all_known(kv),
        is_permutation(order, kv.len() as int),
        0 <= j <= i < kv.len(),
        order[j] == i,
        forall|m: int| 0 <= m <= i && m != j ==> #[trigger] order[m] < i,
        sorted_stably(kv, order, reversed, j, i + 1),
        forall|m: int| j < m <= i ==> key_before(kv[i], #[trigger] kv[order[m] as int], reversed),
        j == 0 || !key_before(kv[i], kv[order[j - 1] as int], reversed),
        0 <= k < l <= i,
    ensures
        !key_before(kv[order[l] as int], kv[order[k] as int], reversed),
        kv[order[k] as int] == kv[order[l] as int] ==> order[k] < order[l],
{
    let ok = kv[order[k] as int];
    let ol = kv[order[l] as int];
    assert(order[k] < kv.len() && order[l] < kv.len());
    assert(ok is Some && ol is Some);
    let ki = kv[i];
    assert(ki is Some);
    if l == j {
        assert(ol == ki);
        assert(order[k] < i);
        let p = kv[order[j - 1] as int];
        assert(order[j - 1] < kv.len());
        assert(p is Some);
        if k < j - 1 {
            assert(order[j - 1] < i);
            assert(!key_before(kv[order[j - 1] as int], kv[order[k] as int], reversed));
            assert(!key_before(p, ok, reversed));
            lemma_key_order(ki, ok, p, reversed);
            lemma_key_order(ok, p, ki, reversed);
            if key_before(ki, ok, reversed) {
                if ok == p {
                    assert(key_before(ki, p, reversed));
                } else {
                    assert(key_before(ok, p, reversed));
                    assert(key_before(ki, p, reversed));
                }
                assert(false);
            }
        } else {
            assert(k == j - 1);
            assert(ok == p);
        }
        assert(!key_before(ki, ok, reversed));
    } else if k == j {
        assert(ok == ki);
        assert(key_before(ki, ol, reversed));
        lemma_key_order(ki, ol, ol, reversed);
        lemma_key_order(ki, ki, ki, reversed);
        assert(!key_before(ol, ki, reversed));
        assert(ki != ol);
    } else {
        assert(k != j && l != j && 0 <= k < l < i + 1);
        assert({
            &&& !key_before(kv[order[l] as int], kv[order[k] as int], reversed)
            &&& (kv[order[k] as int] == kv[order[l] as int] ==> order[k] < order[l])
        });
    }
}

/// Once the entry that is put in place stops, the entries `0..=i` are sorted.
proof fn lemma_insertion_done(kv: Seq<Option<Seq<char>>>, order: Seq<usize>, reversed: bool, j: int, i: int)
    requires
        all_known(kv),
        is_permutation(order, kv.len() as int),
        0 <= j <= i < kv.len(),
        order[j] == i,
        forall|k: int| 0 <= k <= i && k != j ==> #[trigger] order[k] < i,
        sorted_stably(kv, order, reversed, j, i + 1),
        forall|l: int| j < l <= i ==> key_before(kv[i], #[trigger] kv[order[l] as int], reversed),
        j == 0 || !key_before(kv[i], kv[order[j - 1] as int], reversed),
    ensures
        sorted_stably(kv, order, reversed, -1, i + 1),
{
    assert forall|k: int, l: int| 0 <= k < l < i + 1 implies {
        &&& !key_before(kv[order[l] as int], kv[order[k] as int], reversed)
        &&& (kv[order[k] as int] == kv[order[l] as int] ==> order[k] < order[l])
    } by {
        lemma_insertion_pair(kv, order, reversed, j, i, k, l);
    }
}

/// Proves that moving the entry at `j` one place left keeps the order
/// a permutation.
proof fn lemma_swap_permutation(order: Seq<usize>, n: int, j: int)
    requires
        is_permutation(order, n),
        0 < j < n,
    ensures
        is_permutation(order.update(j - 1, order[j]).update(j, order[j - 1]), n),
{
    let o2 = order.update(j - 1, order[j]).update(j, order[j - 1]);
    assert forall|k: int, l: int| 0 <= k < l < n implies o2[k] != o2[l] by {
        if k != j - 1 && k != j && l != j - 1 && l != j {
            assert(o2[k] == order[k] && o2[l] == order[l]);
        }
    }
}

/// Whether the key of entry `a` must come before the key of entry `b`.
fn comes_before(keys: &Vec<Option<Vec<char>>>, a: usize, b: usize, reversed: bool) -> (r: bool)
    requires
        a < keys@.len(),
        b < keys@.len(),
    ensures
        r == key_before(key_view(keys@[a as int]), key_view(keys@[b as int]), reversed),
{
    match (&keys[a], &keys[b]) {
        (Some(x), Some(y)) => if reversed {
            text_before(y, x)
        } else {
            text_before(x, y)
        },
        _ => false,
    }
}

/// Sorts the entries `0..n` by their keys, stably, by insertion; returns the
/// new order of the entries.
fn insertion_order(keys: &Vec<Option<Vec<char>>>, reversed: bool) -> (order: Vec<usize>)
    ensures
        is_permutation(order@, keys@.len() as int),
        all_known(keys@.map_values(|k: Option<Vec<char>>| key_view(k)))
            ==> sorted_stably(keys@.map_values(|k: Option<Vec<char>>| key_view(k)), order@, reversed, -1, keys@.len() as int),
{
    let ghost kv = keys@.map_values(|k: Option<Vec<char>>| key_view(k));
    let n = keys.len();
    let mut order: Vec<usize> = Vec::new();
    let mut m: usize = 0;
    while m < n
        invariant
            m <= n,
            n == keys@.len(),
            order@.len() == m,
            forall|k: int| 0 <= k < m ==> #[trigger] order@[k] == k,
        decreases n - m,
    {
        order.push(m);
        m = m + 1;
    }
    let mut i: usize = 1;
    if n == 0 {
        return order;
    }
    while i < n
        invariant
            1 <= i <= n,
            n == keys@.len(),
            kv == keys@.map_values(|k: Option<Vec<char>>| key_view(k)),
            is_permutation(order@, n as int),
            forall|k: int| 0 <= k < i ==> #[trigger] order@[k] < i,
            forall|k: int| i <= k < n ==> #[trigger] order@[k] == k,
            all_known(kv) ==> sorted_stably(kv, order@, reversed, -1, i as int),
        decreases n - i,
    {
        let mut j: usize = i;
        while j > 0 && comes_before(keys, order[j], order[j - 1], reversed)
            invariant
                0 <= j <= i < n,
                n == keys@.len(),
                kv == keys@.map_values(|k: Option<Vec<char>>| key_view(k)),
                is_permutation(order@, n as int),
                order@[j as int] == i,
                forall|k: int| 0 <= k <= i && k != j ==> #[trigger] order@[k] < i,
                forall|k: int| i < k < n ==> #[trigger] order@[k] == k,
                all_known(kv) ==> sorted_stably(kv, order@, reversed, j as int, i + 1),
                all_known(kv) ==> forall|l: int| j < l <= i ==> key_before(kv[i as int], #[trigger] kv[order@[l] as int], reversed),
            decreases j,
        {
            proof {
                lemma_swap_permutation(order@, n as int, j as int);
            }
            let a = order[j - 1];
            let b = order[j];
            order.set(j - 1, b);
            order.set(j, a);
            j = j - 1;
        }
        proof {
            if all_known(kv) {
                lemma_insertion_done(kv, order@, reversed, j as int, i as int);
            }
        }
        i = i + 1;
    }
    order
}

/// The sort keys of the icons: their window names, in lower case where
/// `lower` is set; `None` where a name could not be read.
pub open spec fn name_keys(names: Seq<Option<String>>, lower: bool) -> Seq<Option<Seq<char>>> {
    Seq::new(names.len(), |k: int|
        match names[k] {
            Some(n) => Some(if lower { lowercase(n@) } else { n@ }),
            None => None,
        })
}

/// Whether the icons `after` are the icons `before` put in the order of the
/// given keys: a permutation of them, each icon with its new place, which
/// is sorted and stable where every key is known.
pub open spec fn sorted_by_keys(before: Seq<Icon>, after: Seq<Icon>, keys: Seq<Option<Seq<char>>>, reversed: bool) -> bool {
    exists|order: Seq<usize>|
        is_permutation(order, before.len() as int) && after == icons_in_order(before, order)
            && (all_known(keys) ==> sorted_stably(keys, order, reversed, -1, before.len() as int))
}

/// Orders the icons of a tray that sorts by window name. `names` holds the
/// window name of each icon, in the order of `icons`, or `None` where it
/// could not be read; an icon without a name compares equal to every other.
/// A tray that sorts by arrival keeps its icons as they are.
pub fn sort_icons(icons: &mut Vec<Icon>, names: &Vec<Option<String>>, sort: SortMethod)
    requires
        names@.len() == old(icons)@.len(),
    ensures
        match sort {
            SortMethod::Arrival(_) => final(icons)@ == old(icons)@,
            SortMethod::WindowName(reversed) => sorted_by_keys(old(icons)@, final(icons)@, name_keys(names@, false), reversed),
            SortMethod::WindowNameLower(reversed) => sorted_by_keys(old(icons)@, final(icons)@, name_keys(names@, true), reversed),
        },
{
    let (lower, reversed) = match sort {
        SortMethod::Arrival(_) => {
            return;
        },
        SortMethod::WindowName(r) => (false, r),
        SortMethod::WindowNameLower(r) => (true, r),
    };
    let ghost kv = name_keys(names@, lower);
    let mut keys: Vec<Option<Vec<char>>> = Vec::new();
    let mut k: usize = 0;
    while k < names.len()
        invariant
            k <= names@.len(),
            kv == name_keys(names@, lower),
            keys@.len() == k,
            forall|j: int| 0 <= j < k ==> key_view(#[trigger] keys@[j]) == kv[j],
        decreases names@.len() - k,
    {
        let key = match &names[k] {
            Some(n) => if lower {
                let l = to_lowercase(n.as_str());
                Some(chars_of(l.as_str()))
            } else {
                Some(chars_of(n.as_str()))
            },
            None => None,
        };
        keys.push(key);
        k = k + 1;
    }
    proof {
        assert(keys@.map_values(|k: Option<Vec<char>>| key_view(k)) =~= kv);
    }
    let order = insertion_order(&keys, reversed);
    let mut out: Vec<Icon> = Vec::new();
    let mut m: usize = 0;
    while m < order.len()
        invariant
            m <= order@.len(),
            is_permutation(order@, icons@.len() as int),
            out@.len() == m,
            forall|j: int| 0 <= j < m ==> #[trigger] out@[j] == icons_in_order(icons@, order@)[j],
        decreases order@.len() - m,
    {
        let src = icons[order[m]];
        out.push(Icon { idx: m, ..src });
        m = m + 1;
    }
    proof {
        assert(out@ =~= icons_in_order(icons@, order@));
    }
    *icons = out;
}


/// Flipping a sort method's direction twice gives the method back.
pub proof fn law_reverse_twice(m: SortMethod)
    ensures
        reversed_method(reversed_method(m)) == m,
{
}

proof fn lemma_kept_unchanged(icons: Seq<Icon>, window: u32)
    requires
        forall|k: int| 0 <= k < icons.len() ==> (#[trigger] icons[k]).window != window,
    ensures
        icons_kept(icons, window) == icons,
        removed_idx(icons, window) is None,
    decreases icons.len(),
{
    if icons.len() > 0 {
        lemma_kept_unchanged(icons.drop_last(), window);
        assert(icons.drop_last().push(icons.last()) =~= icons);
    }
}

/// An icon that arrives in a tray sorted by arrival and then leaves it
/// leaves the tray as it was, the place it freed being the one at the end.
pub proof fn law_arrival_then_removal(icons: Seq<Icon>, window: u32, mapped: bool)
    requires
        icons.len() < usize::MAX,
        forall|k: int| 0 <= k < icons.len() ==> (#[trigger] icons[k]).window != window,
        forall|k: int| 0 <= k < icons.len() ==> (#[trigger] icons[k]).idx < icons.len(),
    ensures
        removed_idx(icons_after_arrival(icons, window, mapped, SortMethod::Arrival(false)), window) == Some(icons.len() as usize),
        icons_closed_up(
            icons_kept(icons_after_arrival(icons, window, mapped, SortMethod::Arrival(false)), window),
            Some(icons.len() as usize),
        ) == icons,
{
    let after = icons_after_arrival(icons, window, mapped, SortMethod::Arrival(false));
    assert(after.drop_last() =~= icons);
    lemma_kept_unchanged(icons, window);
    let closed = icons_closed_up(icons, Some(icons.len() as usize));
    assert(closed =~= icons);
}


/// The state of a tray: its icons, how they are sorted and laid out, the
/// width of its window, and the icons still to be embedded.
pub struct TrayState {
    /// The icons
    pub icons: Vec<Icon>,
    /// How the icons are sorted
    pub sort: SortMethod,
    /// The width and height of an icon
    pub icon_size: i16,
    /// The space between two icons
    pub icon_padding: i16,
    /// The width of the tray's window
    pub width: u16,
    /// The icons that arrived and are still to be embedded, with whether
    /// they ask to be shown
    pub pending: Vec<(u32, bool)>,
    /// The server time at which the tray claimed its selection; 0 until the
    /// first property change tells the tray the time
    pub time_start: u32,
}

/// What happened to the tray, as the X server reported it; the facts that
/// the tray reads from the server to handle the event are given with it.
#[derive(Debug, Clone, Copy, PartialEq, Eq, Structural)]
pub enum TrayEvent {
    /// A window asked to dock in the tray; `mapped` is whether its
    /// `_XEMBED_INFO` asks it to be shown
    Dock { window: u32, mapped: bool },
    /// A window was reparented, into the tray or out of it
    Reparented { window: u32, into_tray: bool },
    /// A window was destroyed
    Destroyed { window: u32 },
    /// A window was configured to a size; `is_tray` where it is the tray
    Configured { window: u32, is_tray: bool, width: u16, height: u16 },
    /// A property of a window changed at the server time `time`; `info` is
    /// `None` where the property is not `_XEMBED_INFO`, else whether the icon
    /// now asks to be shown, where the property says
    PropertyChanged { time: u32, window: u32, info: Option<Option<bool>> },
    /// Any other event
    Other,
}

/// What the tray asks of the X server.
#[derive(Debug, Clone, Copy, PartialEq, Eq, Structural)]
pub enum TrayAction {
    /// Set the width of the tray's window
    ConfigureTray { width: u32 },
    /// Give an icon the size of an icon
    SizeIcon { window: u32 },
    /// Listen to the property changes of an icon
    WatchIcon { window: u32 },
    /// Move an icon to a left edge
    MoveIcon { window: u32, x: i16 },
    /// Show an icon
    Show { window: u32 },
    /// Hide an icon
    Hide { window: u32 },
    /// Take ownership of the tray's selection from the server time `time`
    /// and announce it to the root window as its `MANAGER`
    ClaimSelection { time: u32 },
}

/// The value of `w as i16` in Rust.
pub open spec fn as_i16(w: u16) -> int {
    if w < 0x8000 {
        w as int
    } else {
        w - 0x10000
    }
}

/// The value of `v as u32` in Rust, for a value in the range of `i16`.
pub open spec fn i16_as_u32(v: int) -> int {
    if v >= 0 {
        v
    } else {
        v + 0x1_0000_0000
    }
}

/// Whether `n` icons fit in a tray: the places of all of them, and the
/// tray's width, can be worked out without overflow.
pub open spec fn places_fit(n: int, size: int, padding: int) -> bool {
    &&& n * (size + padding) <= usize::MAX
    &&& size + padding <= i16::MAX
    &&& n > 0 ==> {
        &&& n - 1 <= i16::MAX
        &&& (n - 1) * (size + padding) <= i16::MAX
        &&& icon_x_of(n - 1, size, padding) <= i16::MAX
    }
}

/// What a tray asks of the server after its icons changed: the new width
/// of its window, then the place of each icon.
pub open spec fn resize_actions(icons: Seq<Icon>, size: int, padding: int) -> Seq<TrayAction> {
    seq![TrayAction::ConfigureTray { width: tray_width_of(icons.len() as int, size, padding) as u32 }]
        + Seq::new(icons.len(), |k: int| TrayAction::MoveIcon { window: icons[k].window, x: icon_x_of(icons[k].idx as int, size, padding) as i16 })
}

/// The icons after they were put in order: as they are where the tray sorts
/// by arrival, else sorted by the names of their windows.
pub open spec fn icons_sorted(before: Seq<Icon>, after: Seq<Icon>, sort: SortMethod, names: Seq<Option<String>>) -> bool {
    match sort {
        SortMethod::Arrival(_) => after == before,
        SortMethod::WindowName(r) => sorted_by_keys(before, after, name_keys(names, false), r),
        SortMethod::WindowNameLower(r) => sorted_by_keys(before, after, name_keys(names, true), r),
    }
}

/// The icons after an event: a docked window arrives (and the icons are
/// sorted, `names` naming them in order), a window that leaves or is
/// destroyed goes, and any other event leaves them as they are.
pub open spec fn icons_after_event(before: Seq<Icon>, sort: SortMethod, event: TrayEvent, names: Seq<Option<String>>, after: Seq<Icon>) -> bool {
    match event {
        TrayEvent::Dock { window, mapped } => icons_sorted(icons_after_arrival(before, window, mapped, sort), after, sort, names),
        TrayEvent::Reparented { window, into_tray } => if into_tray {
            after == before
        } else {
            after == icons_closed_up(icons_kept(before, window), removed_idx(before, window))
        },
        TrayEvent::Destroyed { window } => after == icons_closed_up(icons_kept(before, window), removed_idx(before, window)),
        _ => after == before,
    }
}

/// The width that the tray's window is first given when a window docks:
/// one icon with its padding more than before, as the tray's 16-bit
/// arithmetic gives it.
pub open spec fn dock_width(width: u16, size: int, padding: int) -> int {
    i16_as_u32(as_i16(width) + size + padding)
}

/// What a tray does for an event: whether it must redraw, what it asks of
/// the server, and its new width and pending icons (its icons follow
/// [`icons_after_event`]).
pub open spec fn tray_step_of(
    icons_after: Seq<Icon>,
    width: u16,
    pending: Seq<(u32, bool)>,
    size: int,
    padding: int,
    time_start: u32,
    event: TrayEvent,
) -> (bool, Seq<TrayAction>, u16, Seq<(u32, bool)>, u32) {
    let new_width = tray_width_of(icons_after.len() as int, size, padding) as u16;
    match event {
        TrayEvent::Dock { window, mapped } => (
            true,
            seq![
                TrayAction::ConfigureTray { width: dock_width(width, size, padding) as u32 },
                TrayAction::SizeIcon { window },
                TrayAction::WatchIcon { window },
            ] + resize_actions(icons_after, size, padding),
            new_width,
            pending.push((window, mapped)),
            time_start,
        ),
        TrayEvent::Reparented { .. } => (true, resize_actions(icons_after, size, padding), new_width, pending, time_start),
        TrayEvent::Destroyed { .. } => (true, resize_actions(icons_after, size, padding), new_width, pending, time_start),
        TrayEvent::Configured { window, is_tray, width: w, height: h } => (
            true,
            if !is_tray && (h != size || w != size) {
                seq![TrayAction::SizeIcon { window }]
            } else {
                Seq::empty()
            },
            width,
            pending,
            time_start,
        ),
        TrayEvent::PropertyChanged { time, window, info } => if time_start == 0 {
            (true, seq![TrayAction::ClaimSelection { time }], width, pending, time)
        } else {
            match info {
                Some(mapped) => (
                    true,
                    match mapped {
                        Some(true) => seq![TrayAction::Show { window }],
                        Some(false) => seq![TrayAction::Hide { window }],
                        None => Seq::empty(),
                    },
                    width,
                    pending,
                    time_start,
                ),
                None => (false, Seq::empty(), width, pending, time_start),
            }
        },
        TrayEvent::Other => (false, Seq::empty(), width, pending, time_start),
    }
}

/// Whether the places of the icons are each of `0..n` once and no window
/// has two icons.
pub open spec fn tray_icons_valid(icons: Seq<Icon>) -> bool {
    &&& forall|k: int| 0 <= k < icons.len() ==> (#[trigger] icons[k]).idx < icons.len()
    &&& forall|k: int, l: int| 0 <= k < icons.len() && 0 <= l < icons.len() && k != l ==> icons[k].idx != icons[l].idx
    &&& forall|k: int, l: int| 0 <= k < icons.len() && 0 <= l < icons.len() && k != l ==> icons[k].window != icons[l].window
}

/// Whether every place is below `b`.
pub open spec fn places_below(icons: Seq<Icon>, b: int) -> bool {
    forall|k: int| 0 <= k < icons.len() ==> (#[trigger] icons[k]).idx < b
}

proof fn lemma_kept_below(icons: Seq<Icon>, window: u32, b: int)
    requires
        places_below(icons, b),
    ensures
        places_below(icons_kept(icons, window), b),
        icons_kept(icons, window).len() <= icons.len(),
        places_below(icons_closed_up(icons_kept(icons, window), removed_idx(icons, window)), b),
    decreases icons.len(),
{
    if icons.len() > 0 {
        lemma_kept_below(icons.drop_last(), window, b);
    }
}

/// Whether the tray may take over the screen's tray selection: where no
/// window owns it (`owner` is 0), or where the tray is `aggressive` and takes
/// it from its owner.
pub fn may_claim_tray(owner: u32, aggressive: bool) -> (r: bool)
    ensures
        r == (owner == 0 || aggressive),
{
    owner == 0 || aggressive
}

/// Lays the tray out again: its width and the place of each icon.
fn resize(state: &mut TrayState, actions: &mut Vec<TrayAction>, bound: usize)
    requires
        old(state).icon_size >= 0,
        old(state).icon_padding >= 0,
        places_fit(bound as int, old(state).icon_size as int, old(state).icon_padding as int),
        old(state).icons@.len() <= bound,
        places_below(old(state).icons@, bound as int),
    ensures
        final(state).icons@ == old(state).icons@,
        final(state).sort == old(state).sort,
        final(state).icon_size == old(state).icon_size,
        final(state).icon_padding == old(state).icon_padding,
        final(state).pending@ == old(state).pending@,
        final(state).time_start == old(state).time_start,
        final(state).width as int == tray_width_of(old(state).icons@.len() as int, old(state).icon_size as int, old(state).icon_padding as int),
        final(actions)@ == old(actions)@ + resize_actions(old(state).icons@, old(state).icon_size as int, old(state).icon_padding as int),
{
    let size = state.icon_size;
    let padding = state.icon_padding;
    let n = state.icons.len();
    assert(n * (size + padding) <= usize::MAX) by (nonlinear_arith)
        requires n <= bound, bound * (size + padding) <= usize::MAX, size + padding >= 0;
    state.width = tray_width(n, size, padding);
    let ghost start = actions@;
    actions.push(TrayAction::ConfigureTray { width: state.width as u32 });
    let mut k: usize = 0;
    while k < n
        invariant
            k <= n,
            n == state.icons@.len(),
            size == state.icon_size,
            padding == state.icon_padding,
            size >= 0,
            padding >= 0,
            places_fit(bound as int, size as int, padding as int),
            n <= bound,
            places_below(state.icons@, bound as int),
            actions@ == start + seq![TrayAction::ConfigureTray { width: state.width as u32 }]
                + Seq::new(k as nat, |j: int| TrayAction::MoveIcon { window: state.icons@[j].window, x: icon_x_of(state.icons@[j].idx as int, size as int, padding as int) as i16 }),
        decreases n - k,
    {
        let icon = state.icons[k];
        let i = icon.idx;
        assert(i < bound);
        assert(i * (size + padding) <= (bound - 1) * (size + padding)) by (nonlinear_arith)
            requires i <= bound - 1, size + padding >= 0;
        assert(i * (size + padding) >= 0) by (nonlinear_arith)
            requires i >= 0, size + padding >= 0;
        assert(icon_x_of(i as int, size as int, padding as int) <= icon_x_of(bound - 1, size as int, padding as int));
        let x = icon_x(i, size, padding);
        actions.push(TrayAction::MoveIcon { window: icon.window, x });
        k = k + 1;
        proof {
            assert(actions@ =~= start + seq![TrayAction::ConfigureTray { width: state.width as u32 }]
                + Seq::new(k as nat, |j: int| TrayAction::MoveIcon { window: state.icons@[j].window, x: icon_x_of(state.icons@[j].idx as int, size as int, padding as int) as i16 }));
        }
    }
    proof {
        assert(actions@ =~= start + resize_actions(state.icons@, size as int, padding as int));
    }
}

/// Handles an event of the tray; see [`icons_after_event`] and
/// [`tray_step_of`]. `names` names the windows of the icons, in order, once
/// a docked window has joined them at the end; it is read only where the
/// tray sorts by name.
pub fn tray_step(state: &mut TrayState, event: TrayEvent, names: &Vec<Option<String>>) -> (r: (bool, Vec<TrayAction>))
    requires
        old(state).icon_size >= 0,
        old(state).icon_padding >= 0,
        places_below(old(state).icons@, old(state).icons@.len() as int),
        places_fit((old(state).icons@.len() + 1) as int, old(state).icon_size as int, old(state).icon_padding as int),
        event is Dock ==> {
            &&& i16::MIN <= as_i16(old(state).width) + old(state).icon_size + old(state).icon_padding <= i16::MAX
            &&& old(state).width != 1 ==> old(state).width + old(state).icon_size + old(state).icon_padding <= u16::MAX
            &&& !(old(state).sort is Arrival) ==> names@.len() == old(state).icons@.len() + 1
        },
    ensures
        icons_after_event(old(state).icons@, old(state).sort, event, names@, final(state).icons@),
        (r.0, r.1@, final(state).width, final(state).pending@, final(state).time_start) == tray_step_of(
            final(state).icons@,
            old(state).width,
            old(state).pending@,
            old(state).icon_size as int,
            old(state).icon_padding as int,
            old(state).time_start,
            event,
        ),
        final(state).sort == old(state).sort,
        final(state).icon_size == old(state).icon_size,
        final(state).icon_padding == old(state).icon_padding,
{
    let n = state.icons.len();
    let mut actions: Vec<TrayAction> = Vec::new();
    match event {
        TrayEvent::Dock { window, mapped } => {
            let w: i32 = if state.width < 0x8000 { state.width as i32 } else { state.width as i32 - 0x10000 };
            let sum: i32 = w + state.icon_size as i32 + state.icon_padding as i32;
            let grown: u32 = if sum >= 0 { sum as u32 } else { (sum as i64 + 0x1_0000_0000) as u32 };
            actions.push(TrayAction::ConfigureTray { width: grown });
            actions.push(TrayAction::SizeIcon { window });
            actions.push(TrayAction::WatchIcon { window });
            add_icon(&mut state.icons, window, mapped, state.sort);
            let ghost mid = state.icons@;
            match state.sort {
                SortMethod::Arrival(_) => {},
                _ => sort_icons(&mut state.icons, names, state.sort),
            }
            state.pending.push((window, mapped));
            let step = (state.icon_size + state.icon_padding) as u16;
            state.width = if state.width == 1 { step } else { state.width + step };
            resize(state, &mut actions, n + 1);
            (true, actions)
        },
        TrayEvent::Reparented { window, into_tray } => {
            if !into_tray {
                proof {
                    lemma_kept_below(state.icons@, window, n as int);
                }
                remove_icon(&mut state.icons, window);
            }
            resize(state, &mut actions, n + 1);
            (true, actions)
        },
        TrayEvent::Destroyed { window } => {
            proof {
                lemma_kept_below(state.icons@, window, n as int);
            }
            remove_icon(&mut state.icons, window);
            resize(state, &mut actions, n + 1);
            (true, actions)
        },
        TrayEvent::Configured { window, is_tray, width, height } => {
            let size = state.icon_size as u16;
            if !is_tray && (height != size || width != size) {
                actions.push(TrayAction::SizeIcon { window });
            }
            (true, actions)
        },
        TrayEvent::PropertyChanged { time, window, info } => {
            if state.time_start == 0 {
                state.time_start = time;
                actions.push(TrayAction::ClaimSelection { time });
                return (true, actions);
            }
            match info {
                Some(mapped) => {
                    match mapped {
                        Some(true) => actions.push(TrayAction::Show { window }),
                        Some(false) => actions.push(TrayAction::Hide { window }),
                        None => {},
                    }
                    (true, actions)
                },
                None => (false, actions),
            }
        },
        TrayEvent::Other => (false, actions),
    }
}


/// Whether no two icons share a place or a window.
pub open spec fn icons_distinct(icons: Seq<Icon>) -> bool {
    &&& forall|k: int, l: int| 0 <= k < icons.len() && 0 <= l < icons.len() && k != l ==> icons[k].idx != icons[l].idx
    &&& forall|k: int, l: int| 0 <= k < icons.len() && 0 <= l < icons.len() && k != l ==> icons[k].window != icons[l].window
}

/// Whether some icon has the given window.
pub open spec fn has_window(icons: Seq<Icon>, window: u32) -> bool {
    exists|i: int| 0 <= i < icons.len() && (#[trigger] icons[i]).window == window
}

proof fn lemma_kept_props(icons: Seq<Icon>, window: u32)
    requires
        icons_distinct(icons),
    ensures
        icons_distinct(icons_kept(icons, window)),
        forall|j: int| 0 <= j < icons_kept(icons, window).len() ==> exists|i: int|
            0 <= i < icons.len() && #[trigger] icons_kept(icons, window)[j] == icons[i] && icons[i].window != window,
        has_window(icons, window) ==> icons_kept(icons, window).len() == icons.len() - 1,
        has_window(icons, window) ==> exists|i: int| 0 <= i < icons.len() && icons[i].window == window
            && removed_idx(icons, window) == Some(icons[i].idx),
    decreases icons.len(),
{
    if icons.len() > 0 {
        let pre = icons.drop_last();
        let last = icons.last();
        let n = icons.len() as int;
        assert forall|k: int, l: int| 0 <= k < pre.len() && 0 <= l < pre.len() && k != l implies pre[k].idx != pre[l].idx
            && pre[k].window != pre[l].window by {
            assert(pre[k] == icons[k] && pre[l] == icons[l]);
        }
        lemma_kept_props(pre, window);
        let kp = icons_kept(pre, window);
        if last.window == window {
            assert(icons_kept(icons, window) == kp);
            assert(forall|i: int| 0 <= i < pre.len() ==> pre[i].window != window) by {
                assert forall|i: int| 0 <= i < pre.len() implies pre[i].window != window by {
                    assert(icons[i] == pre[i]);
                    assert(icons[n - 1] == last);
                }
            }
            assert(!has_window(pre, window));
            lemma_kept_unchanged(pre, window);
            assert forall|j: int| 0 <= j < kp.len() implies exists|i: int|
                0 <= i < icons.len() && #[trigger] kp[j] == icons[i] && icons[i].window != window by {
                assert(kp[j] == pre[j] && pre[j] == icons[j]);
            }
            assert(icons[n - 1].window == window && removed_idx(icons, window) == Some(icons[n - 1].idx));
        } else {
            let k2 = kp.push(last);
            assert(icons_kept(icons, window) == k2);
            assert forall|j: int| 0 <= j < k2.len() implies exists|i: int|
                0 <= i < icons.len() && #[trigger] k2[j] == icons[i] && icons[i].window != window by {
                if j < kp.len() {
                    let i = choose|i: int| 0 <= i < pre.len() && kp[j] == pre[i] && pre[i].window != window;
                    assert(k2[j] == icons[i]);
                } else {
                    assert(k2[j] == icons[n - 1]);
                }
            }
            assert forall|a: int, b: int| 0 <= a < k2.len() && 0 <= b < k2.len() && a != b implies k2[a].idx != k2[b].idx
                && k2[a].window != k2[b].window by {
                if a < kp.len() && b < kp.len() {
                } else if a < kp.len() {
                    let i = choose|i: int| 0 <= i < pre.len() && kp[a] == pre[i] && pre[i].window != window;
                    assert(icons[i] == pre[i]);
                    assert(k2[b] == icons[n - 1]);
                } else if b < kp.len() {
                    let i = choose|i: int| 0 <= i < pre.len() && kp[b] == pre[i] && pre[i].window != window;
                    assert(icons[i] == pre[i]);
                    assert(k2[a] == icons[n - 1]);
                }
            }
            if has_window(icons, window) {
                let i = choose|i: int| 0 <= i < icons.len() && (#[trigger] icons[i]).window == window;
                assert(i < n - 1);
                assert(pre[i] == icons[i]);
                assert(has_window(pre, window));
                let i2 = choose|i2: int| 0 <= i2 < pre.len() && pre[i2].window == window && removed_idx(pre, window) == Some(pre[i2].idx);
                assert(icons[i2] == pre[i2]);
            }
        }
    }
}

/// Whether the places of the icons are each of `0..n` once.
pub open spec fn places_valid(icons: Seq<Icon>) -> bool {
    &&& forall|k: int| 0 <= k < icons.len() ==> (#[trigger] icons[k]).idx < icons.len()
    &&& forall|k: int, l: int| 0 <= k < icons.len() && 0 <= l < icons.len() && k != l ==> icons[k].idx != icons[l].idx
}

/// Where the places of the icons are each of `0..n` once and no window has
/// two icons, every event leaves the places each of `0..n` once; and no
/// window has two icons afterwards, but where a window that is already in
/// the tray docks again.
pub proof fn law_tray_places(before: Seq<Icon>, sort: SortMethod, event: TrayEvent, names: Seq<Option<String>>, after: Seq<Icon>)
    requires
        before.len() < usize::MAX,
        tray_icons_valid(before),
        icons_after_event(before, sort, event, names, after),
    ensures
        places_valid(after),
        (event matches TrayEvent::Dock { window, mapped } ==> !has_window(before, window)) ==> tray_icons_valid(after),
{
    let n = before.len() as int;
    match event {
        TrayEvent::Dock { window, mapped } => {
            let fresh = !has_window(before, window);
            let mid = icons_after_arrival(before, window, mapped, sort);
            if fresh {
                assert forall|k: int| 0 <= k < n implies (#[trigger] before[k]).window != window by {
                    if before[k].window == window {
                        assert(has_window(before, window));
                    }
                }
            }
            match sort {
                SortMethod::Arrival(true) => {
                    assert forall|k: int| 0 <= k < n implies (#[trigger] mid[k]).idx == before[k].idx + 1
                        && mid[k].window == before[k].window by {
                        assert(before[k].idx < n);
                    }
                    assert(mid[n].idx == 0 && mid[n].window == window);
                    assert forall|k: int, l: int| 0 <= k < mid.len() && 0 <= l < mid.len() && k != l
                        implies mid[k].idx != mid[l].idx && (fresh ==> mid[k].window != mid[l].window) by {
                        if k < n && l < n {
                            assert(before[k].idx != before[l].idx);
                        }
                    }
                    assert forall|k: int| 0 <= k < mid.len() implies (#[trigger] mid[k]).idx < mid.len() by {
                        if k < n {
                            assert(before[k].idx < n);
                        }
                    }
                },
                SortMethod::Arrival(false) => {
                    assert forall|k: int| 0 <= k < n implies (#[trigger] mid[k]) == before[k] by {}
                    assert(mid[n].idx == n && mid[n].window == window);
                    assert forall|k: int, l: int| 0 <= k < mid.len() && 0 <= l < mid.len() && k != l
                        implies mid[k].idx != mid[l].idx && (fresh ==> mid[k].window != mid[l].window) by {
                        if k < n {
                            assert(before[k].idx < n);
                        }
                        if l < n {
                            assert(before[l].idx < n);
                        }
                    }
                },
                _ => {
                    assert forall|k: int| 0 <= k < n implies (#[trigger] mid[k]) == before[k] by {}
                    assert(mid[n].window == window);
                    if fresh {
                        assert forall|k: int, l: int| 0 <= k < mid.len() && 0 <= l < mid.len() && k != l
                            implies mid[k].window != mid[l].window by {}
                    }
                },
            }
            match sort {
                SortMethod::Arrival(_) => {},
                _ => {
                    let keys = match sort {
                        SortMethod::WindowNameLower(_) => name_keys(names, true),
                        _ => name_keys(names, false),
                    };
                    let r = match sort {
                        SortMethod::WindowName(r) => r,
                        SortMethod::WindowNameLower(r) => r,
                        _ => false,
                    };
                    assert(sorted_by_keys(mid, after, keys, r));
                    let order = choose|order: Seq<usize>|
                        is_permutation(order, mid.len() as int) && after == icons_in_order(mid, order)
                            && (all_known(keys) ==> sorted_stably(keys, order, r, -1, mid.len() as int));
                    assert forall|k: int| 0 <= k < after.len() implies (#[trigger] after[k]).idx < after.len() by {
                        assert(after[k].idx == k);
                    }
                    assert forall|k: int, l: int| 0 <= k < after.len() && 0 <= l < after.len() && k != l
                        implies after[k].idx != after[l].idx && (fresh ==> after[k].window != after[l].window) by {
                        assert(after[k].idx == k && after[l].idx == l);
                        assert(after[k].window == mid[order[k] as int].window);
                        assert(after[l].window == mid[order[l] as int].window);
                        assert(order[k] != order[l]);
                    }
                },
            }
        },
        TrayEvent::Reparented { window, into_tray } => {
            if !into_tray {
                lemma_removal_valid(before, window);
            }
        },
        TrayEvent::Destroyed { window } => {
            lemma_removal_valid(before, window);
        },
        _ => {},
    }
}

proof fn lemma_removal_valid(before: Seq<Icon>, window: u32)
    requires
        tray_icons_valid(before),
    ensures
        tray_icons_valid(icons_closed_up(icons_kept(before, window), removed_idx(before, window))),
{
    let n = before.len() as int;
    lemma_kept_props(before, window);
    let kept = icons_kept(before, window);
    if has_window(before, window) {
        let i0 = choose|i: int| 0 <= i < before.len() && before[i].window == window && removed_idx(before, window) == Some(before[i].idx);
        let r = before[i0].idx;
        let after = icons_closed_up(kept, Some(r));
        assert forall|j: int| 0 <= j < kept.len() implies (#[trigger] kept[j]).idx != r && kept[j].idx < n by {
            let i = choose|i: int| 0 <= i < before.len() && kept[j] == before[i] && before[i].window != window;
            assert(i != i0);
        }
        assert(r < n);
        assert forall|k: int| 0 <= k < after.len() implies (#[trigger] after[k]).idx < after.len() by {
            assert(kept[k].idx != r && kept[k].idx < n);
        }
        assert forall|k: int, l: int| 0 <= k < after.len() && 0 <= l < after.len() && k != l implies after[k].idx != after[l].idx by {
            assert(kept[k].idx != r && kept[l].idx != r);
            assert(kept[k].idx != kept[l].idx);
        }
        assert forall|k: int, l: int| 0 <= k < after.len() && 0 <= l < after.len() && k != l implies after[k].window != after[l].window by {
            assert(after[k].window == kept[k].window && after[l].window == kept[l].window);
        }
    } else {
        assert forall|i: int| 0 <= i < n implies (#[trigger] before[i]).window != window by {
            if before[i].window == window {
                assert(has_window(before, window));
            }
        }
        lemma_kept_unchanged(before, window);
    }
}


/// The tray sorts by window name exactly where `sort` is `window_name`, by
/// window name in lower case exactly where it is `window_name_lower`, and
/// by arrival for every other value; a named sort starts in its forward
/// direction.
pub proof fn law_sort_names(s: Seq<char>)
    ensures
        sort_named(s) == SortMethod::WindowName(false) <==> s == "window_name"@,
        sort_named(s) == SortMethod::WindowNameLower(false) <==> s == "window_name_lower"@,
        sort_named(s) == SortMethod::Arrival(false) <==> s != "window_name"@ && s != "window_name_lower"@,
{
    reveal_strlit("window_name");
    reveal_strlit("window_name_lower");
    assert("window_name"@.len() == 11 && "window_name_lower"@.len() == 17);
}

} // verus!
