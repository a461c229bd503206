//! The command-line side of the bar and of its message client: the log
//! level, where the configuration is read from, the sockets through which
//! bars take messages, and the exit code of the client.
use vstd::prelude::*;
use vstd::string::*;

use crate::text::{decimal, decimal_string, digit_chars, opt_str, same_text, texts};

verus! {

/// How much the bar logs.
#[derive(Debug, Clone, Copy, PartialEq, Eq, Structural)]
pub enum LogLevel {
    /// Warnings and errors
    Warn,
    /// Information too
    Info,
    /// Debugging output too
    Debug,
    /// Everything
    Trace,
}

/// The log level of the bar for the number of `-v` flags: none gives
/// warnings, one information, two debugging output, more everything.
pub open spec fn log_level_of(verbosity: Option<u8>) -> LogLevel {
    match verbosity {
        None => LogLevel::Warn,
        Some(v) => if v == 0 {
            LogLevel::Warn
        } else if v == 1 {
            LogLevel::Info
        } else if v == 2 {
            LogLevel::Debug
        } else {
            LogLevel::Trace
        },
    }
}

/// The log level of the bar; see [`log_level_of`].
pub fn log_level(verbosity: Option<u8>) -> (r: LogLevel)
    ensures
        r == log_level_of(verbosity),
{
    match verbosity {
        None => LogLevel::Warn,
        Some(v) => if v == 0 {
            LogLevel::Warn
        } else if v == 1 {
            LogLevel::Info
        } else if v == 2 {
            LogLevel::Debug
        } else {
            LogLevel::Trace
        },
    }
}

/// The log level of the message client: debugging output with `-v`, else
/// information.
pub fn client_log_level(verbose: bool) -> (r: LogLevel)
    ensures
        r == (if verbose { LogLevel::Debug } else { LogLevel::Info }),
{
    if verbose {
        LogLevel::Debug
    } else {
        LogLevel::Info
    }
}

/// The configuration file of the bar: the path given on the command line,
/// else `$LAZYBAR_CONFIG_PATH`, else `$XDG_CONFIG_HOME/lazybar/config.toml`,
/// else `$HOME/.config/lazybar/config.toml`, else
/// `/etc/lazybar/config.toml`.
pub open spec fn config_path_of(
    arg: Option<Seq<char>>,
    lazybar: Option<Seq<char>>,
    xdg: Option<Seq<char>>,
    home: Option<Seq<char>>,
) -> Seq<char> {
    match arg {
        Some(p) => p,
        None => match lazybar {
            Some(p) => p,
            None => match xdg {
                Some(x) => x + "/lazybar/config.toml"@,
                None => match home {
                    Some(h) => h + "/.config/lazybar/config.toml"@,
                    None => "/etc/lazybar/config.toml"@,
                },
            },
        },
    }
}

/// The configuration file of the bar; see [`config_path_of`]. Each
/// environment variable is given where it is set to valid Unicode.
pub fn config_path(arg: Option<&str>, lazybar: Option<&str>, xdg: Option<&str>, home: Option<&str>) -> (r: String)
    ensures
        r@ == config_path_of(opt_str(arg), opt_str(lazybar), opt_str(xdg), opt_str(home)),
{
    match arg {
        Some(p) => p.to_string(),
        None => match lazybar {
            Some(p) => p.to_string(),
            None => match xdg {
                Some(x) => {
                    let mut s = x.to_string();
                    s.append("/lazybar/config.toml");
                    s
                },
                None => match home {
                    Some(h) => {
                        let mut s = h.to_string();
                        s.append("/.config/lazybar/config.toml");
                        s
                    },
                    None => "/etc/lazybar/config.toml".to_string(),
                },
            },
        },
    }
}

/// The directory that holds the sockets of the bars.
pub open spec fn ipc_dir() -> Seq<char> {
    "/tmp/lazybar-ipc/"@
}

/// The name under which a bar takes messages: its own name, or, where
/// that is taken, its name followed by a number in brackets.
pub open spec fn indexed_name(bar: Seq<char>, idx: nat) -> Seq<char> {
    if idx == 0 {
        bar
    } else {
        bar + "("@ + decimal(idx) + ")"@
    }
}

/// The socket of a bar under the given name.
pub open spec fn socket_path(bar: Seq<char>, idx: nat) -> Seq<char> {
    ipc_dir() + indexed_name(bar, idx)
}

/// The name under which a bar takes messages; see [`indexed_name`].
pub fn ipc_name(bar: &str, idx: u32) -> (r: String)
    ensures
        r@ == indexed_name(bar@, idx as nat),
{
    let mut s = bar.to_string();
    if idx > 0 {
        s.append("(");
        let d = decimal_string(idx as u128);
        s.append(d.as_str());
        s.append(")");
    }
    s
}

/// The socket of the bar with the given name, to which the message client
/// writes.
pub fn ipc_path(bar: &str) -> (r: String)
    ensures
        r@ == socket_path(bar@, 0),
{
    let mut s = "/tmp/lazybar-ipc/".to_string();
    s.append(bar);
    s
}

proof fn lemma_decimal_nonempty(n: nat)
    ensures
        decimal(n).len() >= 1,
        n >= 10 ==> decimal(n).len() >= 2,
    decreases n,
{
    if n >= 10 {
        lemma_decimal_nonempty(n / 10);
    }
}

/// Different numbers have different decimal representations.
pub proof fn lemma_decimal_injective(a: nat, b: nat)
    requires
        decimal(a) == decimal(b),
    ensures
        a == b,
    decreases a,
{
    let d = digit_chars();
    assert(forall|i: int, j: int| 0 <= i < j < 10 ==> d[i] != d[j]);
    lemma_decimal_nonempty(a);
    lemma_decimal_nonempty(b);
    if a < 10 && b < 10 {
        assert(decimal(a)[0] == d[a as int]);
        assert(decimal(b)[0] == d[b as int]);
    } else if a >= 10 && b >= 10 {
        let da = decimal(a);
        let db = decimal(b);
        assert(da.last() == d[(a % 10) as int]);
        assert(db.last() == d[(b % 10) as int]);
        assert(da.drop_last() =~= decimal(a / 10));
        assert(db.drop_last() =~= decimal(b / 10));
        lemma_decimal_injective(a / 10, b / 10);
    }
}

/// Different indices give different socket paths.
pub proof fn lemma_socket_path_injective(bar: Seq<char>, i: nat, j: nat)
    requires
        socket_path(bar, i) == socket_path(bar, j),
    ensures
        i == j,
{
    let pi = socket_path(bar, i);
    let pj = socket_path(bar, j);
    let k = (ipc_dir().len() + bar.len() + 1) as int;
    reveal_strlit("(");
    reveal_strlit(")");
    lemma_decimal_nonempty(i);
    lemma_decimal_nonempty(j);
    if i > 0 && j > 0 {
        assert(pi.subrange(k, pi.len() - 1) =~= decimal(i));
        assert(pj.subrange(k, pj.len() - 1) =~= decimal(j));
        lemma_decimal_injective(i, j);
    } else if i > 0 || j > 0 {
        assert(pi.len() != pj.len());
    }
}

/// Where the sockets `0..=k` of a bar are all taken, there are more than
/// `k` taken paths.
proof fn lemma_taken_count(bar: Seq<char>, k: nat, taken: Seq<Seq<char>>)
    requires
        forall|j: nat| j <= k ==> taken.contains(#[trigger] socket_path(bar, j)),
    ensures
        k + 1 <= taken.len(),
{
    let cands = Seq::new(k + 1, |j: int| socket_path(bar, j as nat));
    assert forall|a: int, b: int| 0 <= a < cands.len() && 0 <= b < cands.len() && a != b implies cands[a] != cands[b] by {
        if cands[a] == cands[b] {
            lemma_socket_path_injective(bar, a as nat, b as nat);
        }
    }
    assert(cands.no_duplicates());
    cands.unique_seq_to_set();
    assert forall|p: Seq<char>| cands.to_set().contains(p) implies taken.to_set().contains(p) by {
        let j = choose|j: int| 0 <= j < cands.len() && cands[j] == p;
        assert(taken.contains(socket_path(bar, j as nat)));
    }
    taken.lemma_cardinality_of_set();
    vstd::set_lib::lemma_len_subset(cands.to_set(), taken.to_set());
}

/// Whether `path` is among `taken`.
fn is_taken(taken: &Vec<String>, path: &str) -> (r: bool)
    ensures
        r == texts(taken@).contains(path@),
{
    let mut k: usize = 0;
    while k < taken.len()
        invariant
            k <= taken@.len(),
            forall|j: int| 0 <= j < k ==> taken@[j]@ != path@,
        decreases taken@.len() - k,
    {
        if same_text(taken[k].as_str(), path) {
            proof {
                assert(texts(taken@)[k as int] == path@);
            }
            return true;
        }
        k = k + 1;
    }
    false
}

/// Finds the socket at which a bar takes messages: the first of its socket
/// paths (see [`socket_path`]) that is not among the paths already `taken`,
/// with the index of its name.
pub fn find_path(bar_name: &str, taken: &Vec<String>) -> (r: (String, i32))
    requires
        taken@.len() < i32::MAX,
    ensures
        r.1 >= 0,
        r.0@ == socket_path(bar_name@, r.1 as nat),
        !texts(taken@).contains(r.0@),
        forall|j: nat| j < r.1 ==> texts(taken@).contains(#[trigger] socket_path(bar_name@, j)),
{
    let mut idx: i32 = 0;
    loop
        invariant
            0 <= idx <= taken@.len(),
            taken@.len() < i32::MAX,
            forall|j: nat| j < idx ==> texts(taken@).contains(#[trigger] socket_path(bar_name@, j)),
        decreases taken@.len() - idx,
    {
        let name = ipc_name(bar_name, idx as u32);
        let mut path = "/tmp/lazybar-ipc/".to_string();
        path.append(name.as_str());
        assert(path@ == socket_path(bar_name@, idx as nat));
        if !is_taken(taken, path.as_str()) {
            return (path, idx);
        }
        proof {
            assert forall|j: nat| j <= idx implies texts(taken@).contains(#[trigger] socket_path(bar_name@, j)) by {}
            lemma_taken_count(bar_name@, idx as nat, texts(taken@));
        }
        idx = idx + 1;
    }
}

/// What became of a message to one bar.
#[derive(Debug, Clone, Copy, PartialEq, Eq, Structural)]
pub enum Delivery {
    /// The bar's socket could not be opened
    NoConnection,
    /// The bar answered that the message was handled
    Handled,
    /// The bar answered with an error
    Failed,
    /// The bar's answer could not be read
    BadReply,
}

/// The exit code of the message client after its deliveries: each failed
/// connection sets it to 1 and each error from a bar to 2, the last such
/// delivery deciding; it is 0 where there is none.
pub open spec fn exit_code_of(ds: Seq<Delivery>) -> u8
    decreases ds.len(),
{
    if ds.len() == 0 {
        0
    } else {
        match ds.last() {
            Delivery::NoConnection => 1,
            Delivery::Failed => 2,
            _ => exit_code_of(ds.drop_last()),
        }
    }
}

/// The exit code of the message client; see [`exit_code_of`].
pub fn exit_code(ds: &Vec<Delivery>) -> (r: u8)
    ensures
        r == exit_code_of(ds@),
{
    let mut code: u8 = 0;
    let mut k: usize = 0;
    while k < ds.len()
        invariant
            k <= ds@.len(),
            code == exit_code_of(ds@.take(k as int)),
        decreases ds@.len() - k,
    {
        proof {
            assert(ds@.take(k + 1).drop_last() =~= ds@.take(k as int));
        }
        match ds[k] {
            Delivery::NoConnection => {
                code = 1;
            },
            Delivery::Failed => {
                code = 2;
            },
            _ => {},
        }
        k = k + 1;
    }
    proof {
        assert(ds@.take(k as int) =~= ds@);
    }
    code
}


/// The message client exits with 0 exactly when every bar could be reached
/// and none answered with an error.
pub proof fn law_exit_code_zero(ds: Seq<Delivery>)
    ensures
        exit_code_of(ds) == 0 <==> forall|k: int| 0 <= k < ds.len() ==> (#[trigger] ds[k]) != Delivery::NoConnection && ds[k] != Delivery::Failed,
    decreases ds.len(),
{
    if ds.len() > 0 {
        law_exit_code_zero(ds.drop_last());
        assert forall|k: int| 0 <= k < ds.len() - 1 implies ds.drop_last()[k] == #[trigger] ds[k] by {}
    }
}

} // verus!
