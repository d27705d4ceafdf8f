//! `run_shell`: opt-in, non-transactional, gated by a prefix allow-list.
//! Starting the process and capturing its output is the caller's work.

use vstd::prelude::*;

use crate::text::{
    chars_eq, chars_of, is_ws, push_signed, seq_starts_with, signed_decimal, skip_ws, starts_with_chars,
    sub_vec, trim_chars, trim_seq, trim_start_seq,
};
use crate::tools::config::{strings_view, RunShellInput, ToolConfig};
use crate::tools::error::{ToolError, ToolErrorView};
use crate::tools::transaction::lemma_encode_concat;
use crate::text::string_from_chars;
use vstd::string::StringSliceAdditionalSpecFns;
use vstd::utf8::{encode_utf8, is_char_boundary};

verus! {

/// Most bytes of stdout or stderr that the tool keeps.
pub const MAX_CAPTURE: usize = 102400;

/// The `Debug` rendering of a list of strings (`["a", "b"]`).
pub uninterp spec fn debug_list_text(items: Seq<Seq<char>>) -> Seq<char>;

/// Renders `v` with `{:?}`.
#[verifier::external_body]
fn debug_list(v: &Vec<String>) -> (r: String)
    ensures
        r@ == debug_list_text(strings_view(v@)),
{
    format!("{:?}", v)
}

/// Whether allow-list entry `p` admits command `cmd` (already trimmed at
/// its start): the trimmed entry is the whole command or its first word.
pub open spec fn prefix_admits(cmd: Seq<char>, p: Seq<char>) -> bool {
    let t = trim_seq(p);
    t.len() > 0 && (cmd == t || seq_starts_with(cmd, t.push(' ')))
}

/// Whether `run_shell` accepts `command` under the allow-list.
pub open spec fn command_allowed(command: Seq<char>, prefixes: Seq<Seq<char>>) -> bool {
    let cmd = trim_start_seq(command);
    cmd.len() > 0 && exists|i: int| 0 <= i < prefixes.len() && prefix_admits(cmd, prefixes[i])
}

/// Timeout actually used: the requested one (30 s by default), at least 1 s.
pub open spec fn effective_timeout(t: Option<u32>) -> u32 {
    let want: u32 = match t {
        Some(s) => s,
        None => 30,
    };
    if want < 1 { 1 } else { want }
}

/// The tool's text for a finished command.
pub open spec fn shell_summary_text(exit: Option<i32>, stdout: Seq<char>, stderr: Seq<char>) -> Seq<char> {
    let code = match exit {
        Some(c) => "Some("@ + signed_decimal(c as int) + ")"@,
        None => "None"@,
    };
    "exit="@ + code + "\n--- stdout ---\n"@ + stdout + "\n--- stderr ---\n"@ + stderr
}

/// Runs allow-listed shell commands.
#[derive(Debug)]
pub struct RunShellTool {
    config: ToolConfig,
}

impl RunShellTool {
    pub closed spec fn enabled(&self) -> bool {
        self.config.shell.enabled
    }

    pub closed spec fn prefixes(&self) -> Seq<Seq<char>> {
        strings_view(self.config.shell.allowed_prefixes@)
    }

    pub fn name(&self) -> (r: &'static str)
        ensures
            r@ == "run_shell"@,
    {
        "run_shell"
    }

    pub fn description(&self) -> (r: &'static str)
        ensures
            r@ == "Run a shell command with a workspace-relative cwd (optional). **Non-transactional**: cannot be rolled back. Disabled unless `[shell] enabled = true` in `.ide/tools.toml` and the command starts with an allowed prefix."@,
    {
        "Run a shell command with a workspace-relative cwd (optional). **Non-transactional**: cannot be rolled back. Disabled unless `[shell] enabled = true` in `.ide/tools.toml` and the command starts with an allowed prefix."
    }

    pub fn new(config: ToolConfig) -> (r: RunShellTool)
        ensures
            r.enabled() == config.shell.enabled,
            r.prefixes() == strings_view(config.shell.allowed_prefixes@),
    {
        RunShellTool { config }
    }

    /// Whether `command` starts with an allowed prefix.
    pub fn is_allowed(&self, command: &str) -> (r: bool)
        ensures
            r == command_allowed(command@, self.prefixes()),
    {
        let cs = chars_of(command);
        let start = skip_ws(&cs, 0);
        let cmd = sub_vec(&cs, start, cs.len());
        proof {
            assert(cs@.subrange(0, cs@.len() as int) =~= cs@);
        }
        if cmd.len() == 0 {
            return false;
        }
        let prefixes = &self.config.shell.allowed_prefixes;
        let ghost ps = strings_view(prefixes@);
        let mut i: usize = 0;
        while i < prefixes.len()
            invariant
                0 <= i <= prefixes@.len(),
                ps == strings_view(prefixes@),
                ps == self.prefixes(),
                cmd@ == trim_start_seq(command@),
                cmd@.len() > 0,
                forall|j: int| 0 <= j < i ==> !prefix_admits(cmd@, ps[j]),
            decreases prefixes@.len() - i,
        {
            let pc = chars_of(prefixes[i].as_str());
            let t = trim_chars(&pc);
            assert(ps[i as int] == prefixes@[i as int]@);
            if t.len() > 0 {
                let mut with_space = t.clone();
                with_space.push(' ');
                if chars_eq(cmd.as_slice(), t.as_slice()) || starts_with_chars(
                    cmd.as_slice(),
                    with_space.as_slice(),
                ) {
                    assert(prefix_admits(cmd@, ps[i as int]));
                    return true;
                }
            }
            i = i + 1;
        }
        false
    }

    /// Fails unless the shell is switched on.
    pub fn ensure_enabled(&self) -> (r: Result<(), ToolError>)
        ensures
            self.enabled() ==> r is Ok,
            !self.enabled() ==> r is Err && r->Err_0@ == ToolErrorView::ShellDenied(
                "shell tool is disabled; set [shell] enabled = true in `.ide/tools.toml`"@,
            ),
    {
        if !self.config.shell.enabled {
            return Err(
                ToolError::ShellDenied(
                    "shell tool is disabled; set [shell] enabled = true in `.ide/tools.toml`".to_owned(),
                ),
            );
        }
        Ok(())
    }

    /// Checks the command against the allow-list and gives the timeout (in
    /// seconds) to run it with.
    pub fn plan(&self, p: &RunShellInput) -> (r: Result<u32, ToolError>)
        ensures
            command_allowed(p.command@, self.prefixes()) ==> r is Ok && r->Ok_0 == effective_timeout(
                p.timeout_seconds,
            ),
            !command_allowed(p.command@, self.prefixes()) ==> r is Err && r->Err_0@
                == ToolErrorView::ShellDenied(
                "command not allowed by prefix whitelist: "@ + debug_list_text(self.prefixes()),
            ),
    {
        if !self.is_allowed(p.command.as_str()) {
            let mut msg = "command not allowed by prefix whitelist: ".to_owned();
            let listed = debug_list(&self.config.shell.allowed_prefixes);
            msg.append(listed.as_str());
            return Err(ToolError::ShellDenied(msg));
        }
        let t = p.timeout_or_default();
        Ok(if t < 1 { 1 } else { t })
    }
}

/// Bytes of one output stream that the tool keeps.
pub fn capture_len(n: usize) -> (r: usize)
    ensures
        r == if n < MAX_CAPTURE { n } else { MAX_CAPTURE },
{
    if n < MAX_CAPTURE {
        n
    } else {
        MAX_CAPTURE
    }
}

/// The tool's text for a finished command, and whether it counts as an
/// error (any exit other than status 0).
pub fn shell_summary(exit: Option<i32>, stdout: &str, stderr: &str) -> (r: (String, bool))
    ensures
        r.0@ == shell_summary_text(exit, stdout@, stderr@),
        r.1 == (exit != Some(0i32)),
{
    let mut s = "exit=".to_owned();
    match exit {
        Some(c) => {
            s.append("Some(");
            push_signed(&mut s, c);
            s.append(")");
        },
        None => {
            s.append("None");
        },
    }
    s.append("\n--- stdout ---\n");
    s.append(stdout);
    s.append("\n--- stderr ---\n");
    s.append(stderr);
    let is_error = match exit {
        Some(c) => c != 0,
        None => true,
    };
    (s, is_error)
}

/// The leading run of non-whitespace characters of `t`.
pub open spec fn leading_word(t: Seq<char>) -> Seq<char>
    decreases t.len(),
{
    if t.len() == 0 || is_ws(t[0]) {
        Seq::empty()
    } else {
        seq![t[0]] + leading_word(t.drop_first())
    }
}

/// The first whitespace-separated word of `s` (empty when there is none),
/// as `split_whitespace().next()` gives it.
pub open spec fn first_word_of(s: Seq<char>) -> Seq<char> {
    leading_word(trim_start_seq(s))
}

pub fn first_word(command: &str) -> (r: Vec<char>)
    ensures
        r@ == first_word_of(command@),
{
    let cs = chars_of(command);
    let start = skip_ws(&cs, 0);
    proof {
        assert(cs@.subrange(0, cs@.len() as int) =~= cs@);
    }
    let mut end = start;
    while end < cs.len() && !crate::text::is_whitespace_char(cs[end])
        invariant
            start <= end <= cs@.len(),
            leading_word(cs@.subrange(start as int, cs@.len() as int)) == cs@.subrange(
                start as int,
                end as int,
            ) + leading_word(cs@.subrange(end as int, cs@.len() as int)),
        decreases cs@.len() - end,
    {
        let ghost rest = cs@.subrange(end as int, cs@.len() as int);
        assert(rest.drop_first() =~= cs@.subrange(end + 1, cs@.len() as int));
        assert(cs@.subrange(start as int, end as int) + (seq![cs@[end as int]] + leading_word(
            rest.drop_first(),
        )) =~= cs@.subrange(start as int, end + 1) + leading_word(rest.drop_first()));
        end = end + 1;
    }
    proof {
        let rest = cs@.subrange(end as int, cs@.len() as int);
        assert(leading_word(rest) =~= Seq::<char>::empty());
        assert(cs@.subrange(start as int, end as int) + Seq::<char>::empty() =~= cs@.subrange(
            start as int,
            end as int,
        ));
    }
    sub_vec(&cs, start, end)
}

/// Whether the first word of `command` is one of `prefixes` exactly (the
/// editor's own shell tool).
pub fn first_word_allowed(command: &str, prefixes: &Vec<String>) -> (r: bool)
    ensures
        r == exists|i: int| 0 <= i < prefixes@.len() && prefixes@[i]@ == first_word_of(command@),
{
    let w = first_word(command);
    let mut i: usize = 0;
    while i < prefixes.len()
        invariant
            0 <= i <= prefixes@.len(),
            w@ == first_word_of(command@),
            forall|j: int| 0 <= j < i ==> prefixes@[j]@ != first_word_of(command@),
        decreases prefixes@.len() - i,
    {
        let pc = chars_of(prefixes[i].as_str());
        if chars_eq(pc.as_slice(), w.as_slice()) {
            return true;
        }
        i = i + 1;
    }
    false
}

/// What the editor's own `run_shell` answers when the shell is off.
pub open spec fn shell_disabled_text(root: Seq<char>) -> Seq<char> {
    "Shell tool is disabled. To enable it, edit "@ + root
        + "/.ide/tools.toml:\n\n[shell]\nenabled = true\nallowed_prefixes = [\"npm\", \"npx\", \"cargo\", \"git\", \"node\", \"python\", \"tsc\", \"eslint\"]"@
}

/// What the editor's own `run_shell` answers for a command whose first word
/// is not allow-listed.
pub open spec fn prefix_refused_text(word: Seq<char>) -> Seq<char> {
    "Command prefix '"@ + word
        + "' is not in the allowed list. Add it to .ide/tools.toml under [shell] allowed_prefixes."@
}

/// The editor's own `run_shell` checks, in order: the shell must be on
/// (`root` is the workspace root as displayed), and the first word of the
/// command must be an allow-listed prefix exactly.
pub fn direct_shell_check(config: &ToolConfig, command: &str, root: &str) -> (r: Result<(), String>)
    ensures
        !config.shell.enabled ==> r is Err && r->Err_0@ == shell_disabled_text(root@),
        config.shell.enabled ==> if exists|i: int|
            0 <= i < config.shell.allowed_prefixes@.len() && config.shell.allowed_prefixes@[i]@
                == first_word_of(command@) {
            r is Ok
        } else {
            r is Err && r->Err_0@ == prefix_refused_text(first_word_of(command@))
        },
{
    if !config.shell.enabled {
        let mut s = "Shell tool is disabled. To enable it, edit ".to_owned();
        s.append(root);
        s.append(
            "/.ide/tools.toml:\n\n[shell]\nenabled = true\nallowed_prefixes = [\"npm\", \"npx\", \"cargo\", \"git\", \"node\", \"python\", \"tsc\", \"eslint\"]",
        );
        return Err(s);
    }
    if !first_word_allowed(command, &config.shell.allowed_prefixes) {
        let w = first_word(command);
        let mut s = "Command prefix '".to_owned();
        s.append(string_from_chars(w.as_slice()).as_str());
        s.append("' is not in the allowed list. Add it to .ide/tools.toml under [shell] allowed_prefixes.");
        return Err(s);
    }
    Ok(())
}

/// Most bytes of stdout and of stderr that the editor's own `run_shell`
/// reports.
pub const DIRECT_STDOUT_MAX: usize = 50000;

pub const DIRECT_STDERR_MAX: usize = 10000;

pub open spec fn capped(n: nat, cap: nat) -> int {
    if n < cap { n as int } else { cap as int }
}

/// The editor's own `run_shell` report of a finished command (`code` is
/// the exit code, when there is one), as UTF-8: both streams cut to their
/// caps.
pub open spec fn direct_shell_bytes(code: Option<i32>, stdout: Seq<char>, stderr: Seq<char>) -> Seq<u8> {
    let c: int = match code {
        Some(c) => c as int,
        None => -1,
    };
    let out = encode_utf8(stdout);
    let err = encode_utf8(stderr);
    encode_utf8("exit_code: "@ + signed_decimal(c) + "\nstdout:\n"@) + out.subrange(
        0,
        capped(out.len(), DIRECT_STDOUT_MAX as nat),
    ) + encode_utf8("\nstderr:\n"@) + err.subrange(0, capped(err.len(), DIRECT_STDERR_MAX as nat))
}

/// The report of a finished command; the caps must fall on character
/// boundaries of the two streams.
pub fn direct_shell_report(code: Option<i32>, stdout: &str, stderr: &str) -> (r: String)
    requires
        is_char_boundary(
            stdout.spec_bytes(),
            capped(stdout.spec_bytes().len(), DIRECT_STDOUT_MAX as nat),
        ),
        is_char_boundary(
            stderr.spec_bytes(),
            capped(stderr.spec_bytes().len(), DIRECT_STDERR_MAX as nat),
        ),
    ensures
        encode_utf8(r@) == direct_shell_bytes(code, stdout@, stderr@),
{
    let c: i32 = match code {
        Some(c) => c,
        None => -1,
    };
    let mut s = "exit_code: ".to_owned();
    push_signed(&mut s, c);
    s.append("\nstdout:\n");
    let ghost head = s@;
    let out_len = stdout.as_bytes().len();
    let n_out = if out_len < DIRECT_STDOUT_MAX {
        out_len
    } else {
        DIRECT_STDOUT_MAX
    };
    let (out_part, _) = stdout.split_at(n_out);
    s.append(out_part);
    let ghost mid = s@;
    s.append("\nstderr:\n");
    let err_len = stderr.as_bytes().len();
    let n_err = if err_len < DIRECT_STDERR_MAX {
        err_len
    } else {
        DIRECT_STDERR_MAX
    };
    let (err_part, _) = stderr.split_at(n_err);
    s.append(err_part);
    proof {
        lemma_encode_concat(head, out_part@);
        lemma_encode_concat(mid, "\nstderr:\n"@);
        lemma_encode_concat(mid + "\nstderr:\n"@, err_part@);
    }
    s
}

/// The allow-list of `run_shell`: an empty list allows nothing; adding
/// entries never takes a permission away; an allowed command is an entry
/// (trimmed) exactly or that entry followed by a space and arguments, so an
/// entry `git` never admits `gitk`; and an entry that admits itself admits
/// itself with any arguments, and with leading whitespace.
pub proof fn law_shell_allow_list(
    command: Seq<char>,
    prefixes: Seq<Seq<char>>,
    more: Seq<Seq<char>>,
    i: int,
    args: Seq<char>,
)
    ensures
        !command_allowed(command, Seq::<Seq<char>>::empty()),
        command_allowed(command, prefixes) ==> command_allowed(command, prefixes + more),
        command_allowed(command, prefixes) ==> exists|j: int|
            0 <= j < prefixes.len() && {
                let t = trim_seq(#[trigger] prefixes[j]);
                let c = trim_start_seq(command);
                &&& t.len() > 0
                &&& seq_starts_with(c, t)
                &&& c.len() > t.len() ==> c[t.len() as int] == ' '
            },
        (0 <= i < prefixes.len() && trim_seq(prefixes[i]).len() > 0 && !is_ws(trim_seq(prefixes[i])[0]))
            ==> command_allowed(trim_seq(prefixes[i]), prefixes) && command_allowed(
            trim_seq(prefixes[i]) + seq![' '] + args,
            prefixes,
        ) && command_allowed(seq![' '] + trim_seq(prefixes[i]) + seq![' '] + args, prefixes),
{
    if command_allowed(command, prefixes) {
        let c = trim_start_seq(command);
        let j = choose|j: int| 0 <= j < prefixes.len() && prefix_admits(c, prefixes[j]);
        assert((prefixes + more)[j] == prefixes[j]);
        let t = trim_seq(prefixes[j]);
        if c == t {
            assert(c.subrange(0, t.len() as int) =~= t);
        } else {
            let tp = t.push(' ');
            assert(seq_starts_with(c, tp));
            assert(c.subrange(0, tp.len() as int) == tp);
            assert(c.subrange(0, t.len() as int) =~= t) by {
                assert forall|k: int| 0 <= k < t.len() implies c.subrange(0, t.len() as int)[k] == t[k] by {
                    assert(c.subrange(0, tp.len() as int)[k] == tp[k]);
                }
            }
            assert(c[t.len() as int] == c.subrange(0, tp.len() as int)[t.len() as int]);
        }
        assert(seq_starts_with(c, t));
        assert(prefix_admits(c, prefixes[j]));
    }
    if 0 <= i < prefixes.len() && trim_seq(prefixes[i]).len() > 0 && !is_ws(trim_seq(prefixes[i])[0]) {
        let t = trim_seq(prefixes[i]);
        let w = t + seq![' '] + args;
        let sw = seq![' '] + w;
        assert(trim_start_seq(t) == t);
        assert(w[0] == t[0]);
        assert(trim_start_seq(w) == w);
        assert(is_ws(sw[0]));
        assert(sw.drop_first() =~= w);
        assert(trim_start_seq(sw) == w);
        assert(w.subrange(0, t.push(' ').len() as int) =~= t.push(' '));
        assert(prefix_admits(t, prefixes[i]));
        assert(prefix_admits(w, prefixes[i]));
        assert(seq![' '] + trim_seq(prefixes[i]) + seq![' '] + args =~= sw);
    }
}

} // verus!
