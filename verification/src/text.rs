//! String primitives shared by the panels: character access, substring
//! replacement, trimming, decimal formatting and parsing.
use vstd::prelude::*;
use vstd::string::*;

verus! {

/// The characters of `s`, collected into a vector.
pub fn chars_of(s: &str) -> (v: Vec<char>)
    ensures
        v@ == s@,
{
    let n = s.unicode_len();
    let mut v: Vec<char> = Vec::new();
    let mut i: usize = 0;
    while i < n
        invariant
            n == s@.len(),
            i <= n,
            v@ == s@.take(i as int),
        decreases n - i,
    {
        let c = s.get_char(i);
        v.push(c);
        i = i + 1;
        assert(v@ =~= s@.take(i as int));
    }
    assert(s@.take(n as int) =~= s@);
    v
}

/// Whether two strings hold the same characters.
pub fn same_text(a: &str, b: &str) -> (r: bool)
    ensures
        r == (a@ == b@),
{
    let n = a.unicode_len();
    let m = b.unicode_len();
    if n != m {
        return false;
    }
    let mut i: usize = 0;
    while i < n
        invariant
            n == a@.len(),
            m == b@.len(),
            n == m,
            i <= n,
            forall|j: int| 0 <= j < i ==> a@[j] == b@[j],
        decreases n - i,
    {
        if a.get_char(i) != b.get_char(i) {
            return false;
        }
        i = i + 1;
    }
    assert(a@ =~= b@);
    true
}

/// A new string holding the characters of `s`.
pub fn owned(s: &str) -> (r: String)
    ensures
        r@ == s@,
{
    String::from_str(s)
}

/// A new empty string.
pub fn empty_string() -> (r: String)
    ensures
        r@ == Seq::<char>::empty(),
{
    String::new()
}

/// The text of an optional string slice.
pub open spec fn opt_str(s: Option<&str>) -> Option<Seq<char>> {
    match s {
        Some(t) => Some(t@),
        None => None,
    }
}

/// The text of an optional string.
pub open spec fn opt_text(s: Option<String>) -> Option<Seq<char>> {
    match s {
        Some(t) => Some(t@),
        None => None,
    }
}

/// Whether `p` occurs in `h` at position `i`.
pub open spec fn occurs_at(h: Seq<char>, p: Seq<char>, i: int) -> bool {
    &&& 0 <= i
    &&& i + p.len() <= h.len()
    &&& h.subrange(i, i + p.len()) == p
}

/// `h` with every occurrence of `p` replaced by `r`, scanning from the left
/// and never letting two replaced occurrences overlap. An empty `p` occurs
/// before every character and at the end.
pub open spec fn replaced(h: Seq<char>, p: Seq<char>, r: Seq<char>) -> Seq<char>
    decreases h.len(),
{
    if p.len() == 0 {
        if h.len() == 0 {
            r
        } else {
            r + seq![h[0]] + replaced(h.skip(1), p, r)
        }
    } else if h.len() < p.len() {
        h
    } else if h.take(p.len() as int) == p {
        r + replaced(h.skip(p.len() as int), p, r)
    } else {
        seq![h[0]] + replaced(h.skip(1), p, r)
    }
}

fn occurs_at_exec(h: &Vec<char>, p: &Vec<char>, i: usize) -> (b: bool)
    ensures
        b == occurs_at(h@, p@, i as int),
{
    if p.len() > h.len() || i > h.len() - p.len() {
        return false;
    }
    let mut k: usize = 0;
    while k < p.len()
        invariant
            i + p.len() <= h.len(),
            k <= p.len(),
            forall|j: int| 0 <= j < k ==> h@[i + j] == p@[j],
        decreases p.len() - k,
    {
        if h[i + k] != p[k] {
            assert(h@.subrange(i as int, i + p.len())[k as int] != p@[k as int]);
            return false;
        }
        k = k + 1;
    }
    assert(h@.subrange(i as int, i + p.len()) =~= p@);
    true
}

/// Replaces every occurrence of `pat` in `haystack` by `with`, as `str::replace` does.
pub fn replace_all(haystack: &str, pat: &str, with: &str) -> (res: String)
    ensures
        res@ == replaced(haystack@, pat@, with@),
{
    let h = chars_of(haystack);
    let p = chars_of(pat);
    let n = h.len();
    let m = p.len();
    let mut out = String::new();
    let mut i: usize = 0;
    proof {
        assert(haystack@.skip(0) =~= haystack@);
        assert(out@ + replaced(haystack@.skip(0), pat@, with@) =~= replaced(haystack@, pat@, with@));
    }
    while i < n
        invariant
            h@ == haystack@,
            p@ == pat@,
            n == h@.len(),
            m == p@.len(),
            i <= n,
            out@ + replaced(haystack@.skip(i as int), pat@, with@) == replaced(haystack@, pat@, with@),
        decreases n - i,
    {
        let ghost rest = haystack@.skip(i as int);
        if m == 0 {
            out.append(with);
            out.append(haystack.substring_char(i, i + 1));
            proof {
                assert(rest.skip(1) =~= haystack@.skip(i + 1));
                assert(haystack@.subrange(i as int, i + 1) =~= seq![rest[0]]);
            }
            i = i + 1;
        } else if occurs_at_exec(&h, &p, i) {
            out.append(with);
            proof {
                assert(rest.take(m as int) =~= haystack@.subrange(i as int, i + m));
                assert(rest.skip(m as int) =~= haystack@.skip(i + m));
            }
            i = i + m;
        } else {
            out.append(haystack.substring_char(i, i + 1));
            proof {
                if rest.len() >= m {
                    assert(rest.take(m as int) =~= haystack@.subrange(i as int, i + m));
                }
                assert(rest.skip(1) =~= haystack@.skip(i + 1));
                assert(haystack@.subrange(i as int, i + 1) =~= seq![rest[0]]);
            }
            i = i + 1;
        }
        proof {
            assert(out@ + replaced(haystack@.skip(i as int), pat@, with@) =~= replaced(haystack@, pat@, with@));
        }
    }
    proof {
        assert(haystack@.skip(n as int) =~= Seq::<char>::empty());
    }
    if m == 0 {
        out.append(with);
    }
    proof {
        assert(out@ =~= replaced(haystack@, pat@, with@));
    }
    out
}


/// The decimal digits, in order.
pub open spec fn digit_chars() -> Seq<char> {
    seq!['0', '1', '2', '3', '4', '5', '6', '7', '8', '9']
}

/// The decimal representation of `n`, without leading zeros.
pub open spec fn decimal(n: nat) -> Seq<char>
    decreases n,
{
    if n < 10 {
        seq![digit_chars()[n as int]]
    } else {
        decimal(n / 10) + seq![digit_chars()[(n % 10) as int]]
    }
}

fn digit_text(d: u128) -> (r: &'static str)
    requires
        d < 10,
    ensures
        r@ == seq![digit_chars()[d as int]],
{
    let digits = "0123456789";
    proof {
        reveal_strlit("0123456789");
    }
    let r = digits.substring_char(d as usize, d as usize + 1);
    proof {
        assert(r@ =~= seq![digit_chars()[d as int]]);
    }
    r
}

/// Formats `n` in decimal, as `n.to_string()` does.
pub fn decimal_string(n: u128) -> (r: String)
    ensures
        r@ == decimal(n as nat),
    decreases n,
{
    if n < 10 {
        String::from_str(digit_text(n))
    } else {
        let mut r = decimal_string(n / 10);
        r.append(digit_text(n % 10));
        r
    }
}

/// The value of a sequence of decimal digits, most significant first.
pub open spec fn digits_value(ds: Seq<char>) -> nat
    decreases ds.len(),
{
    if ds.len() == 0 {
        0
    } else {
        digits_value(ds.drop_last()) * 10 + digit_value(ds.last())
    }
}

/// Whether `c` is one of the ASCII digits `0` to `9`.
pub open spec fn is_ascii_digit(c: char) -> bool {
    '0' <= c && c <= '9'
}

/// The value of an ASCII digit.
pub open spec fn digit_value(c: char) -> nat {
    (c as int - '0' as int) as nat
}

/// The digits that `str::parse` reads for an unsigned integer: a leading `+`
/// is skipped.
pub open spec fn unsigned_digits(s: Seq<char>) -> Seq<char> {
    if s.len() > 0 && s[0] == '+' {
        s.skip(1)
    } else {
        s
    }
}

/// Whether `s` is syntactically an unsigned decimal integer for `str::parse`:
/// an optional `+` followed by at least one ASCII digit and nothing else.
pub open spec fn unsigned_syntax(s: Seq<char>) -> bool {
    let ds = unsigned_digits(s);
    &&& ds.len() > 0
    &&& forall|i: int| 0 <= i < ds.len() ==> is_ascii_digit(#[trigger] ds[i])
}

/// What `s.parse::<T>()` gives for an unsigned integer type whose maximum is
/// `max`: the value, or `None` for a syntax error or an overflow.
pub open spec fn parsed_unsigned(s: Seq<char>, max: nat) -> Option<nat> {
    if unsigned_syntax(s) && digits_value(unsigned_digits(s)) <= max {
        Some(digits_value(unsigned_digits(s)))
    } else {
        None
    }
}

proof fn lemma_digits_value_monotone(ds: Seq<char>, k: int)
    requires
        0 <= k <= ds.len(),
        forall|i: int| 0 <= i < ds.len() ==> is_ascii_digit(#[trigger] ds[i]),
    ensures
        digits_value(ds.take(k)) <= digits_value(ds),
    decreases ds.len() - k,
{
    if k < ds.len() {
        lemma_digits_value_monotone(ds, k + 1);
        assert(ds.take(k + 1).drop_last() =~= ds.take(k));
    } else {
        assert(ds.take(k) =~= ds);
    }
}

/// Parses an unsigned decimal integer as `s.parse::<u64>()` does, giving
/// `None` where that gives an error.
pub fn parse_u64(s: &str) -> (r: Option<u64>)
    ensures
        r matches Some(v) ==> parsed_unsigned(s@, u64::MAX as nat) == Some(v as nat),
        r is None ==> parsed_unsigned(s@, u64::MAX as nat) is None,
{
    let cs = chars_of(s);
    let n = cs.len();
    if n == 0 {
        return None;
    }
    let start: usize = if cs[0] == '+' { 1 } else { 0 };
    let ghost ds = unsigned_digits(s@);
    proof {
        assert(ds =~= s@.skip(start as int));
    }
    if start == n {
        return None;
    }
    let mut acc: u64 = 0;
    let mut i: usize = start;
    while i < n
        invariant
            cs@ == s@,
            n == cs@.len(),
            start <= i <= n,
            start < n,
            ds == s@.skip(start as int),
            ds == unsigned_digits(s@),
            forall|j: int| 0 <= j < i - start ==> is_ascii_digit(#[trigger] ds[j]),
            acc as nat == digits_value(ds.take(i - start)),
        decreases n - i,
    {
        let c = cs[i];
        if c < '0' || c > '9' {
            proof {
                assert(ds[i - start] == s@[i as int]);
                assert(!is_ascii_digit(ds[i - start]));
                assert(!is_ascii_digit(unsigned_digits(s@)[i - start]));
                assert(!unsigned_syntax(s@));
            }
            return None;
        }
        let d = (c as u32 - '0' as u32) as u64;
        proof {
            assert(ds.take(i + 1 - start).drop_last() =~= ds.take(i - start));
            assert(ds.take(i + 1 - start).last() == c);
        }
        let next = match acc.checked_mul(10) {
            Some(t) => t.checked_add(d),
            None => None,
        };
        match next {
            Some(v) => {
                acc = v;
            },
            None => {
                proof {
                    assert(ds[i - start] == s@[i as int]);
                    if unsigned_syntax(s@) {
                        assert forall|j: int| 0 <= j < ds.len() implies is_ascii_digit(#[trigger] ds[j]) by {
                            assert(unsigned_digits(s@)[j] == ds[j]);
                        };
                        lemma_digits_value_monotone(ds, i + 1 - start);
                        assert(digits_value(ds.take(i + 1 - start)) == acc * 10 + d);
                    }
                }
                return None;
            },
        }
        i = i + 1;
    }
    proof {
        assert(ds.take(n - start) =~= ds);
    }
    Some(acc)
}


/// The characters with the Unicode `White_Space` property, which
/// `char::is_whitespace` and `str::trim` go by.
pub open spec fn is_white_space(c: char) -> bool {
    ||| ('\u{9}' <= c && c <= '\u{d}')
    ||| c == ' '
    ||| c == '\u{85}'
    ||| c == '\u{a0}'
    ||| c == '\u{1680}'
    ||| ('\u{2000}' <= c && c <= '\u{200a}')
    ||| c == '\u{2028}'
    ||| c == '\u{2029}'
    ||| c == '\u{202f}'
    ||| c == '\u{205f}'
    ||| c == '\u{3000}'
}

/// Whether `c` is white space, as `char::is_whitespace` says.
pub fn is_white_space_char(c: char) -> (r: bool)
    ensures
        r == is_white_space(c),
{
    ('\u{9}' <= c && c <= '\u{d}') || c == ' ' || c == '\u{85}' || c == '\u{a0}'
        || c == '\u{1680}' || ('\u{2000}' <= c && c <= '\u{200a}') || c == '\u{2028}'
        || c == '\u{2029}' || c == '\u{202f}' || c == '\u{205f}' || c == '\u{3000}'
}

/// `s` without its leading white space.
pub open spec fn trim_start(s: Seq<char>) -> Seq<char>
    decreases s.len(),
{
    if s.len() > 0 && is_white_space(s[0]) {
        trim_start(s.skip(1))
    } else {
        s
    }
}

/// `s` without its trailing white space.
pub open spec fn trim_end(s: Seq<char>) -> Seq<char>
    decreases s.len(),
{
    if s.len() > 0 && is_white_space(s.last()) {
        trim_end(s.drop_last())
    } else {
        s
    }
}

/// `s` without leading and trailing white space, as `str::trim` gives it.
pub open spec fn trimmed(s: Seq<char>) -> Seq<char> {
    trim_end(trim_start(s))
}

proof fn lemma_trim_start_from(s: Seq<char>, i: int)
    requires
        0 <= i <= s.len(),
        forall|j: int| 0 <= j < i ==> is_white_space(#[trigger] s[j]),
    ensures
        trim_start(s) == trim_start(s.skip(i)),
    decreases i,
{
    if i > 0 {
        assert(s.skip(1).skip(i - 1) =~= s.skip(i));
        assert forall|j: int| 0 <= j < i - 1 implies is_white_space(#[trigger] s.skip(1)[j]) by {
            assert(s.skip(1)[j] == s[j + 1]);
        };
        lemma_trim_start_from(s.skip(1), i - 1);
    } else {
        assert(s.skip(0) =~= s);
    }
}

proof fn lemma_trim_end_to(s: Seq<char>, k: int)
    requires
        0 <= k <= s.len(),
        forall|j: int| k <= j < s.len() ==> is_white_space(#[trigger] s[j]),
    ensures
        trim_end(s) == trim_end(s.take(k)),
    decreases s.len() - k,
{
    if k < s.len() {
        assert(s.drop_last().take(k) =~= s.take(k));
        assert forall|j: int| k <= j < s.drop_last().len() implies is_white_space(#[trigger] s.drop_last()[j]) by {
            assert(s.drop_last()[j] == s[j]);
        };
        lemma_trim_end_to(s.drop_last(), k);
    } else {
        assert(s.take(k) =~= s);
    }
}

/// `s` without leading and trailing white space, as `str::trim` does.
pub fn trim(s: &str) -> (r: &str)
    ensures
        r@ == trimmed(s@),
{
    let cs = chars_of(s);
    let n = cs.len();
    let mut i: usize = 0;
    while i < n && is_white_space_char(cs[i])
        invariant
            cs@ == s@,
            n == s@.len(),
            i <= n,
            forall|j: int| 0 <= j < i ==> is_white_space(#[trigger] s@[j]),
        decreases n - i,
    {
        i = i + 1;
    }
    proof {
        lemma_trim_start_from(s@, i as int);
    }
    let ghost t = s@.skip(i as int);
    let mut k: usize = n;
    while k > i && is_white_space_char(cs[k - 1])
        invariant
            cs@ == s@,
            n == s@.len(),
            i <= k <= n,
            t == s@.skip(i as int),
            forall|j: int| k - i <= j < t.len() ==> is_white_space(#[trigger] t[j]),
        decreases k,
    {
        assert(t[k - 1 - i] == s@[k - 1]);
        k = k - 1;
    }
    proof {
        lemma_trim_end_to(t, k - i);
        let u = t.take(k - i);
        if u.len() > 0 {
            assert(u.last() == s@[k - 1]);
        }
        if i < n {
            assert(!is_white_space(s@[i as int]));
            assert(trim_start(t) == t);
        } else {
            assert(t.len() == 0);
        }
        assert(trim_start(s@) == t);
        assert(trim_end(u) == u);
        assert(u =~= s@.subrange(i as int, k as int));
    }
    s.substring_char(i, k)
}

/// The first line of `s`, as `s.lines().next().unwrap_or("")` gives it: the
/// text before the first `\n`, without a `\r` right before that `\n`.
pub open spec fn first_line(s: Seq<char>) -> Seq<char> {
    if exists|k: int| 0 <= k < s.len() && s[k] == '\n' {
        let k = choose|k: int| 0 <= k < s.len() && s[k] == '\n' && forall|j: int| 0 <= j < k ==> s[j] != '\n';
        if k > 0 && s[k - 1] == '\r' {
            s.take(k - 1)
        } else {
            s.take(k)
        }
    } else {
        s
    }
}

/// The first line of `s`; see [`first_line`].
pub fn first_line_of(s: &str) -> (r: &str)
    ensures
        r@ == first_line(s@),
{
    let cs = chars_of(s);
    let n = cs.len();
    let mut k: usize = 0;
    while k < n && cs[k] != '\n'
        invariant
            cs@ == s@,
            n == s@.len(),
            k <= n,
            forall|j: int| 0 <= j < k ==> s@[j] != '\n',
        decreases n - k,
    {
        k = k + 1;
    }
    if k == n {
        proof {
            assert(s@.take(n as int) =~= s@);
        }
        return s.substring_char(0, n);
    }
    proof {
        let w = choose|w: int| 0 <= w < s@.len() && s@[w] == '\n' && forall|j: int| 0 <= j < w ==> s@[j] != '\n';
        assert(s@[k as int] == '\n');
        if w < k {
            assert(s@[w] != '\n');
        }
        if w > k {
            assert(s@[k as int] != '\n');
        }
        assert(w == k);
    }
    if k > 0 && cs[k - 1] == '\r' {
        proof {
            assert(s@.subrange(0, k - 1) =~= s@.take(k - 1));
        }
        s.substring_char(0, k - 1)
    } else {
        proof {
            assert(s@.subrange(0, k as int) =~= s@.take(k as int));
        }
        s.substring_char(0, k)
    }
}

/// What `str::to_lowercase` gives for a string. Unicode case mapping takes
/// tables to state, so the result is named here and computed by `std`.
pub uninterp spec fn lowercase(s: Seq<char>) -> Seq<char>;

/// Calls `str::to_lowercase`; the result is `lowercase` of the argument.
#[verifier::external_body]
pub(crate) fn to_lowercase(s: &str) -> (r: String)
    ensures
        r@ == lowercase(s@),
{
    s.to_lowercase()
}

/// The texts of a sequence of strings.
pub open spec fn texts(v: Seq<String>) -> Seq<Seq<char>> {
    v.map_values(|s: String| s@)
}

/// What `aho_corasick::AhoCorasick::new(patterns)` and then `try_replace_all`
/// give: `None` where the automaton cannot be built or the search fails, else
/// the haystack with each match of the default (standard) match kind replaced
/// by the replacement at the index of its pattern. The automaton's semantics
/// take pages to state, so the result is named here and computed by the
/// `aho-corasick` crate.
pub uninterp spec fn aho_corasick_replaced(patterns: Seq<Seq<char>>, haystack: Seq<char>, replacements: Seq<Seq<char>>) -> Option<Seq<char>>;

/// Builds an Aho-Corasick automaton of `patterns` and replaces their matches
/// in `haystack`; the result is `aho_corasick_replaced` of the arguments.
#[verifier::external_body]
pub(crate) fn aho_corasick_replace(patterns: &Vec<String>, haystack: &str, replacements: &Vec<String>) -> (r: Option<String>)
    requires
        replacements@.len() == patterns@.len(),
    ensures
        match r {
            Some(t) => aho_corasick_replaced(texts(patterns@), haystack@, texts(replacements@)) == Some(t@),
            None => aho_corasick_replaced(texts(patterns@), haystack@, texts(replacements@)) is None,
        },
{
    match aho_corasick::AhoCorasick::new(patterns) {
        Ok(ac) => ac.try_replace_all(haystack, replacements.as_slice()).ok(),
        Err(_) => None,
    }
}


/// Replacing a pattern that does not occur in a text leaves the text as it
/// is.
pub proof fn law_replace_absent(h: Seq<char>, p: Seq<char>, r: Seq<char>)
    requires
        p.len() > 0,
        forall|i: int| !occurs_at(h, p, i),
    ensures
        replaced(h, p, r) == h,
    decreases h.len(),
{
    if h.len() >= p.len() {
        assert(!occurs_at(h, p, 0));
        assert(h.subrange(0, p.len() as int) =~= h.take(p.len() as int));
        let t = h.skip(1);
        assert forall|i: int| !occurs_at(t, p, i) by {
            if occurs_at(t, p, i) {
                assert(h.subrange(i + 1, i + 1 + p.len()) =~= t.subrange(i, i + p.len()));
                assert(occurs_at(h, p, i + 1));
            }
        }
        law_replace_absent(t, p, r);
        assert(seq![h[0]] + t =~= h);
    }
}

} // verus!
