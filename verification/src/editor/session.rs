//! Start-up decisions: reading the command line, choosing what to open and
//! where to put the cursor of a restored session.

use vstd::prelude::*;

use crate::editor::git_paths::{components, path_components};
use crate::order::str_views;
use crate::provider::types::str_eq;
use crate::text::{chars_eq, chars_of, seq_starts_with, views_of};

verus! {

/// What the command line asks for.
pub enum CliAction {
    /// `index …`: the vector-index command with its arguments.
    Index(Vec<String>),
    Help,
    /// An option this program does not know (exit status 64).
    UnknownOption(String),
    DryRun,
    PerfSmoke,
    /// Open the editor window, on the first positional argument if any.
    Open { path: Option<String>, dev_hud: bool },
}

pub open spec fn is_known_option(a: Seq<char>) -> bool {
    a == "--dry-run"@ || a == "--perf-smoke"@ || a == "--log-json"@ || a == "--dev-hud"@
}

pub open spec fn is_help(a: Seq<char>) -> bool {
    a == "--help"@ || a == "-h"@
}

pub open spec fn is_unknown_option(a: Seq<char>) -> bool {
    seq_starts_with(a, "--"@) && !is_known_option(a)
}

/// Index of the first argument that asks for help or is an unknown option.
pub open spec fn first_stop(args: Seq<Seq<char>>) -> Option<int> {
    if exists|i: int| 0 <= i < args.len() && (is_help(args[i]) || is_unknown_option(args[i])) {
        Some(choose|i: int| 0 <= i < args.len() && (is_help(args[i]) || is_unknown_option(args[i]))
            && forall|j: int| 0 <= j < i ==> !(is_help(args[j]) || is_unknown_option(args[j])))
    } else {
        None
    }
}

/// The first argument that does not start with `-`.
pub open spec fn is_positional(a: Seq<char>) -> bool {
    !(a.len() > 0 && a[0] == '-')
}

/// What the arguments `args` (without the program name) ask for.
pub open spec fn cli_action_of(args: Seq<Seq<char>>) -> CliActionView {
    if args.len() > 0 && args[0] == "index"@ {
        CliActionView::Index(args.drop_first())
    } else if let Some(i) = first_stop(args) {
        if is_help(args[i]) {
            CliActionView::Help
        } else {
            CliActionView::UnknownOption(args[i])
        }
    } else if args.contains("--dry-run"@) {
        CliActionView::DryRun
    } else if args.contains("--perf-smoke"@) {
        CliActionView::PerfSmoke
    } else {
        CliActionView::Open {
            path: if exists|i: int| 0 <= i < args.len() && is_positional(args[i]) {
                Some(args[choose|i: int| 0 <= i < args.len() && is_positional(args[i]) && forall|j: int| 0 <= j < i ==> !is_positional(args[j])])
            } else {
                None
            },
            dev_hud: args.contains("--dev-hud"@),
        }
    }
}

pub enum CliActionView {
    Index(Seq<Seq<char>>),
    Help,
    UnknownOption(Seq<char>),
    DryRun,
    PerfSmoke,
    Open { path: Option<Seq<char>>, dev_hud: bool },
}

impl View for CliAction {
    type V = CliActionView;

    open spec fn view(&self) -> CliActionView {
        match self {
            CliAction::Index(v) => CliActionView::Index(str_views(v@)),
            CliAction::Help => CliActionView::Help,
            CliAction::UnknownOption(s) => CliActionView::UnknownOption(s@),
            CliAction::DryRun => CliActionView::DryRun,
            CliAction::PerfSmoke => CliActionView::PerfSmoke,
            CliAction::Open { path, dev_hud } => CliActionView::Open {
                path: match path {
                    Some(p) => Some(p@),
                    None => None,
                },
                dev_hud: *dev_hud,
            },
        }
    }
}

fn known_option(a: &str) -> (r: bool)
    ensures
        r == is_known_option(a@),
{
    str_eq(a, "--dry-run") || str_eq(a, "--perf-smoke") || str_eq(a, "--log-json") || str_eq(
        a,
        "--dev-hud",
    )
}

fn help_flag(a: &str) -> (r: bool)
    ensures
        r == is_help(a@),
{
    str_eq(a, "--help") || str_eq(a, "-h")
}

fn unknown_option(a: &str) -> (r: bool)
    ensures
        r == is_unknown_option(a@),
{
    let cs = chars_of(a);
    let dd = chars_of("--");
    crate::text::starts_with_chars(cs.as_slice(), dd.as_slice()) && !known_option(a)
}

fn positional(a: &str) -> (r: bool)
    ensures
        r == is_positional(a@),
{
    let cs = chars_of(a);
    !(cs.len() > 0 && cs[0] == '-')
}

fn has_arg(args: &Vec<String>, flag: &str) -> (r: bool)
    ensures
        r == str_views(args@).contains(flag@),
{
    let mut i: usize = 0;
    while i < args.len()
        invariant
            0 <= i <= args@.len(),
            forall|k: int| 0 <= k < i ==> args@[k]@ != flag@,
        decreases args@.len() - i,
    {
        if str_eq(args[i].as_str(), flag) {
            assert(str_views(args@)[i as int] == flag@);
            return true;
        }
        i = i + 1;
    }
    proof {
        if str_views(args@).contains(flag@) {
            let k = choose|k: int| 0 <= k < args@.len() && str_views(args@)[k] == flag@;
            assert(args@[k]@ == flag@);
        }
    }
    false
}

/// Reads the command line (`args` without the program name).
pub fn parse_cli(args: Vec<String>) -> (r: CliAction)
    ensures
        r@ == cli_action_of(str_views(args@)),
{
    let ghost a = str_views(args@);
    if args.len() > 0 {
        assert(a[0] == args@[0]@);
    }
    if args.len() > 0 && str_eq(args[0].as_str(), "index") {
        let mut rest = args;
        rest.remove(0);
        assert(str_views(rest@) =~= a.drop_first());
        return CliAction::Index(rest);
    }
    let mut i: usize = 0;
    while i < args.len()
        invariant
            0 <= i <= args@.len(),
            a == str_views(args@),
            !(a.len() > 0 && a[0] == "index"@),
            forall|j: int| 0 <= j < i ==> !(is_help(a[j]) || is_unknown_option(a[j])),
        decreases args@.len() - i,
    {
        let h = help_flag(args[i].as_str());
        let u = unknown_option(args[i].as_str());
        if h || u {
            proof {
                let w = choose|k: int| 0 <= k < a.len() && (is_help(a[k]) || is_unknown_option(a[k]))
                    && forall|j: int| 0 <= j < k ==> !(is_help(a[j]) || is_unknown_option(a[j]));
                assert(a[i as int] == args@[i as int]@);
                assert(0 <= i < a.len() && (is_help(a[i as int]) || is_unknown_option(a[i as int])));
                if w < i {
                    assert(!(is_help(a[w]) || is_unknown_option(a[w])));
                } else if w > i {
                    assert(!(is_help(a[i as int]) || is_unknown_option(a[i as int])));
                }
                assert(first_stop(a) == Some(i as int));
            }
            if h {
                return CliAction::Help;
            }
            return CliAction::UnknownOption(args[i].clone());
        }
        i = i + 1;
    }
    assert(first_stop(a) is None);
    if has_arg(&args, "--dry-run") {
        return CliAction::DryRun;
    }
    if has_arg(&args, "--perf-smoke") {
        return CliAction::PerfSmoke;
    }
    let dev_hud = has_arg(&args, "--dev-hud");
    let mut k: usize = 0;
    while k < args.len()
        invariant
            0 <= k <= args@.len(),
            a == str_views(args@),
            !(a.len() > 0 && a[0] == "index"@),
            first_stop(a) is None,
            !a.contains("--dry-run"@),
            !a.contains("--perf-smoke"@),
            dev_hud == a.contains("--dev-hud"@),
            forall|j: int| 0 <= j < k ==> !is_positional(a[j]),
        decreases args@.len() - k,
    {
        if positional(args[k].as_str()) {
            proof {
                assert(a[k as int] == args@[k as int]@);
                let w = choose|m: int| 0 <= m < a.len() && is_positional(a[m]) && forall|j: int|
                    0 <= j < m ==> !is_positional(a[j]);
                if w < k {
                    assert(!is_positional(a[w]));
                } else if w > k {
                    assert(!is_positional(a[k as int]));
                }
            }
            return CliAction::Open { path: Some(args[k].clone()), dev_hud };
        }
        k = k + 1;
    }
    CliAction::Open { path: None, dev_hud }
}

/// Whether path `p` starts at the file-system root.
pub open spec fn has_root(p: Seq<char>) -> bool {
    p.len() > 0 && p[0] == '/'
}

/// Whether relative path `p` starts with a `.` component.
pub open spec fn leading_cur_dir(p: Seq<char>) -> bool {
    !has_root(p) && p.len() > 0 && p[0] == '.' && (p.len() == 1 || p[1] == '/')
}

/// Two paths are equal as `std::path::Path` compares them: same root, same
/// leading `.`, same components.
pub open spec fn same_path(a: Seq<char>, b: Seq<char>) -> bool {
    has_root(a) == has_root(b) && leading_cur_dir(a) == leading_cur_dir(b) && path_components(a)
        == path_components(b)
}

fn lead_flags(p: &str) -> (r: (bool, bool))
    ensures
        r.0 == has_root(p@),
        r.1 == leading_cur_dir(p@),
{
    let cs = chars_of(p);
    let root = cs.len() > 0 && cs[0] == '/';
    let cur = !root && cs.len() > 0 && cs[0] == '.' && (cs.len() == 1 || cs[1] == '/');
    (root, cur)
}

pub fn paths_equal(a: &str, b: &str) -> (r: bool)
    ensures
        r == same_path(a@, b@),
{
    let fa = lead_flags(a);
    let fb = lead_flags(b);
    if fa.0 != fb.0 || fa.1 != fb.1 {
        assert(!same_path(a@, b@));
        return false;
    }
    let ca = components(a);
    let cb = components(b);
    assert(views_of(ca@).len() == ca@.len());
    assert(views_of(cb@).len() == cb@.len());
    if ca.len() != cb.len() {
        return false;
    }
    let mut i: usize = 0;
    while i < ca.len()
        invariant
            ca@.len() == cb@.len(),
            views_of(ca@) == path_components(a@),
            views_of(cb@) == path_components(b@),
            0 <= i <= ca@.len(),
            forall|k: int| 0 <= k < i ==> ca@[k]@ == cb@[k]@,
        decreases ca@.len() - i,
    {
        if !chars_eq(ca[i].as_slice(), cb[i].as_slice()) {
            assert(views_of(ca@)[i as int] != views_of(cb@)[i as int]);
            return false;
        }
        i = i + 1;
    }
    assert(views_of(ca@) =~= views_of(cb@));
    true
}

/// Where the cursor goes when a session is restored: the saved byte offset
/// (clamped to the text) when the same file (or none) is open as was saved,
/// else the start.
pub open spec fn restored_cursor(
    open_path: Option<Seq<char>>,
    last_file: Option<Seq<char>>,
    last_cursor: Option<u64>,
    len_bytes: usize,
) -> usize {
    let same = match (open_path, last_file) {
        (Some(a), Some(b)) => same_path(a, b),
        (None, None) => true,
        _ => false,
    };
    if !same {
        0
    } else {
        match last_cursor {
            Some(n) => if (n as usize) < len_bytes { n as usize } else { len_bytes },
            None => 0,
        }
    }
}

pub fn restore_cursor_byte(
    open_path: Option<&str>,
    last_file: Option<&str>,
    last_cursor_byte: Option<u64>,
    len_bytes: usize,
) -> (r: usize)
    ensures
        r == restored_cursor(
            match open_path {
                Some(p) => Some(p@),
                None => None,
            },
            match last_file {
                Some(p) => Some(p@),
                None => None,
            },
            last_cursor_byte,
            len_bytes,
        ),
{
    let same = match (open_path, last_file) {
        (Some(a), Some(b)) => paths_equal(a, b),
        (None, None) => true,
        _ => false,
    };
    if !same {
        return 0;
    }
    match last_cursor_byte {
        Some(n) => {
            let m = n as usize;
            if m < len_bytes {
                m
            } else {
                len_bytes
            }
        },
        None => 0,
    }
}

/// Splits the first positional argument into (file to open, workspace
/// folder): a directory is the workspace; a file is opened, with its parent
/// folder (when it is one) as the workspace. `arg_is_dir` and
/// `parent_dir` are what the file system says about the argument.
pub fn split_file_vs_folder_arg(arg: Option<String>, arg_is_dir: bool, parent_dir: Option<String>) -> (r: (
    Option<String>,
    Option<String>,
))
    ensures
        arg is None ==> r.0 is None && r.1 is None,
        (arg is Some && arg_is_dir) ==> r.0 is None && r.1 is Some && r.1->Some_0@ == arg->Some_0@,
        (arg is Some && !arg_is_dir) ==> r.0 is Some && r.0->Some_0@ == arg->Some_0@ && match parent_dir {
            Some(d) => r.1 is Some && r.1->Some_0@ == d@,
            None => r.1 is None,
        },
{
    match arg {
        None => (None, None),
        Some(s) => if arg_is_dir {
            (None, Some(s))
        } else {
            (Some(s), parent_dir)
        },
    }
}

} // verus!

verus! {

/// Files at or above this size load on a worker after the window shows.
pub const ASYNC_LOAD_MIN_BYTES: u64 = 4194304;

/// How the first file is loaded.
#[derive(Debug, Clone, Copy, PartialEq, Eq, Structural)]
pub enum LoadMode {
    /// Read before the window shows.
    Immediate,
    /// Read on a worker after the window shows.
    Deferred,
}

/// How a file of `size` bytes is loaded.
pub fn load_mode(size: u64) -> (r: LoadMode)
    ensures
        r == if size >= ASYNC_LOAD_MIN_BYTES { LoadMode::Deferred } else { LoadMode::Immediate },
{
    if size >= ASYNC_LOAD_MIN_BYTES {
        LoadMode::Deferred
    } else {
        LoadMode::Immediate
    }
}

/// The file to open at start: the path from the command line unless it
/// looks like an option, else the last file of the saved session when it
/// still exists, else none (the bundled sample).
pub fn initial_file(cli_path: Option<&str>, last_file: Option<&str>, last_file_exists: bool) -> (r: Option<String>)
    ensures
        match cli_path {
            Some(p) if is_positional(p@) => r is Some && r->Some_0@ == p@,
            _ => match last_file {
                Some(l) if last_file_exists => r is Some && r->Some_0@ == l@,
                _ => r is None,
            },
        },
{
    if let Some(p) = cli_path {
        if positional(p) {
            return Some(p.to_owned());
        }
    }
    if let Some(l) = last_file {
        if last_file_exists {
            return Some(l.to_owned());
        }
    }
    None
}

} // verus!
