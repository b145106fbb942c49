//! How a coding-agent subprocess is launched, locally or over SSH, and
//! how what it prints and how it exits become driver events.
//!
//! Exit codes follow the agent CLI's docs: 0 is done, 1 a permission
//! pause, 2 invalid arguments. Over SSH, 255 (ssh could not connect) and
//! 130 (interrupted) are network pauses, so the supervisor backs off and
//! retries rather than escalating.

use vstd::prelude::*;

use crate::claude_event::{map_event, ClaudeEvent, Mapped, MappedDriverEvent, event_mapping, MappedView};
use crate::driver::DriverEvent;
use crate::host::SshTarget;
use crate::policy::PauseReason;
use crate::text::{
    chars_of, decimal, is_blank, push_char, push_decimal, push_signed_decimal, push_str,
    signed_decimal, trim,
};

verus! {

/// The agent flags every launch passes before the system prompt.
pub open spec fn claude_flags() -> Seq<Seq<char>> {
    seq![
        "--print"@,
        "--output-format=stream-json"@,
        "--include-partial-messages"@,
        "--append-system-prompt"@,
    ]
}

/// The characters of a sequence of strings.
pub open spec fn arg_views(v: Seq<String>) -> Seq<Seq<char>> {
    v.map_values(|s: String| s@)
}

/// The arguments of a local launch: the agent flags, the system prompt,
/// then `--resume <id>` when resuming.
pub open spec fn launch_args_spec(system_prompt: Seq<char>, resume_id: Option<Seq<char>>) -> Seq<Seq<char>> {
    claude_flags().push(system_prompt) + match resume_id {
        Some(id) => seq!["--resume"@, id],
        None => Seq::empty(),
    }
}

/// The characters of an optional string slice.
pub open spec fn opt_str(o: Option<&str>) -> Option<Seq<char>> {
    match o {
        Some(s) => Some(s@),
        None => None,
    }
}

/// Build the argument vector of a local agent launch.
pub fn launch_args(system_prompt: &str, resume_id: Option<&str>) -> (r: Vec<String>)
    ensures
        arg_views(r@) == launch_args_spec(system_prompt@, opt_str(resume_id)),
{
    let mut args: Vec<String> = Vec::new();
    args.push("--print".to_string());
    args.push("--output-format=stream-json".to_string());
    args.push("--include-partial-messages".to_string());
    args.push("--append-system-prompt".to_string());
    args.push(system_prompt.to_string());
    if let Some(id) = resume_id {
        args.push("--resume".to_string());
        args.push(id.to_string());
    }
    assert(arg_views(args@) =~= launch_args_spec(system_prompt@, opt_str(resume_id)));
    args
}

/// The terminal or pausing event of a local agent process, the program
/// `tool`, exiting with `code` (`None` when killed by a signal).
pub fn local_exit_event(tool: &str, code: Option<i32>) -> (e: DriverEvent)
    ensures
        match code {
            Some(0) => e == DriverEvent::Done,
            Some(1) => e == (DriverEvent::Paused { reason: PauseReason::Permission }),
            Some(2) => e matches DriverEvent::Failed { reason } && reason@
                == tool@ + ": invalid arguments (exit 2)"@,
            Some(n) => e matches DriverEvent::Failed { reason } && reason@ == tool@ + " exited "@
                + signed_decimal(n as int),
            None => e matches DriverEvent::Failed { reason } && reason@ == tool@ + " killed by signal"@,
        },
{
    match code {
        Some(0) => DriverEvent::Done,
        Some(1) => DriverEvent::Paused { reason: PauseReason::Permission },
        Some(2) => {
            let mut reason = tool.to_string();
            push_str(&mut reason, ": invalid arguments (exit 2)");
            DriverEvent::Failed { reason }
        },
        Some(n) => {
            let mut reason = tool.to_string();
            push_str(&mut reason, " exited ");
            push_signed_decimal(&mut reason, n as i64);
            DriverEvent::Failed { reason }
        },
        None => {
            let mut reason = tool.to_string();
            push_str(&mut reason, " killed by signal");
            DriverEvent::Failed { reason }
        },
    }
}

/// The terminal or pausing event of the local `ssh` process running the
/// remote program `tool` exiting with `code` (`None` when killed by a
/// signal).
pub fn ssh_exit_event(tool: &str, code: Option<i32>) -> (e: DriverEvent)
    ensures
        match code {
            Some(0) => e == DriverEvent::Done,
            Some(1) => e == (DriverEvent::Paused { reason: PauseReason::Permission }),
            Some(2) => e matches DriverEvent::Failed { reason } && reason@
                == tool@ + "/ssh: invalid arguments (exit 2)"@,
            Some(130) => e == (DriverEvent::Paused { reason: PauseReason::Network }),
            Some(255) => e == (DriverEvent::Paused { reason: PauseReason::Network }),
            Some(n) => e matches DriverEvent::Failed { reason } && reason@ == "ssh/"@ + tool@ + " exited "@
                + signed_decimal(n as int),
            None => e matches DriverEvent::Failed { reason } && reason@
                == "ssh/"@ + tool@ + " killed by signal"@,
        },
{
    match code {
        Some(0) => DriverEvent::Done,
        Some(1) => DriverEvent::Paused { reason: PauseReason::Permission },
        Some(2) => {
            let mut reason = tool.to_string();
            push_str(&mut reason, "/ssh: invalid arguments (exit 2)");
            DriverEvent::Failed { reason }
        },
        Some(130) | Some(255) => DriverEvent::Paused { reason: PauseReason::Network },
        Some(n) => {
            let mut reason = "ssh/".to_string();
            push_str(&mut reason, tool);
            push_str(&mut reason, " exited ");
            push_signed_decimal(&mut reason, n as i64);
            DriverEvent::Failed { reason }
        },
        None => {
            let mut reason = "ssh/".to_string();
            push_str(&mut reason, tool);
            push_str(&mut reason, " killed by signal");
            DriverEvent::Failed { reason }
        },
    }
}

/// The driver event for one stdout line, given what parsing it as a
/// stream event gave.
pub fn line_event(raw: &str, parsed: Option<ClaudeEvent>) -> (r: Option<DriverEvent>)
    ensures
        match parsed {
            None => if trim(raw@).len() == 0 {
                r is None
            } else {
                r matches Some(DriverEvent::Log { line }) && line@ == raw@
            },
            Some(ev) => match event_mapping(ev) {
                MappedView::Log(l) => r matches Some(DriverEvent::Log { line }) && line@ == l,
                MappedView::Paused(reason) => r == Some(DriverEvent::Paused { reason }),
                _ => r is None,
            },
        },
{
    match parsed {
        None => {
            let v = chars_of(raw);
            if is_blank(v.as_slice()) {
                None
            } else {
                Some(DriverEvent::Log { line: raw.to_string() })
            }
        },
        Some(event) => match map_event(&event) {
            Mapped::DriverEvent(MappedDriverEvent::Log { line }) => Some(DriverEvent::Log { line }),
            Mapped::DriverEvent(MappedDriverEvent::Paused { reason }) => Some(
                DriverEvent::Paused { reason },
            ),
            Mapped::SessionId(_) | Mapped::Skip => None,
        },
    }
}

/// The log event of one stderr line: prefixed `(stderr) ` locally and
/// `(ssh-stderr) ` over SSH.
pub fn stderr_event(line: &str, over_ssh: bool) -> (e: DriverEvent)
    ensures
        e matches DriverEvent::Log { line: l } && l@ == if over_ssh {
            "(ssh-stderr) "@ + line@
        } else {
            "(stderr) "@ + line@
        },
{
    let mut l = if over_ssh {
        "(ssh-stderr) ".to_string()
    } else {
        "(stderr) ".to_string()
    };
    push_str(&mut l, line);
    DriverEvent::Log { line: l }
}

/// The characters of `s` with each `'` replaced by `'\''`.
pub open spec fn quote_body(s: Seq<char>) -> Seq<char>
    decreases s.len(),
{
    if s.len() == 0 {
        Seq::empty()
    } else if s.last() == '\'' {
        quote_body(s.drop_last()) + seq!['\'', '\\', '\'', '\'']
    } else {
        quote_body(s.drop_last()).push(s.last())
    }
}

/// POSIX single-quoting of `s`.
pub open spec fn shell_quote_spec(s: Seq<char>) -> Seq<char> {
    seq!['\''] + quote_body(s) + seq!['\'']
}

/// POSIX shell single-quote: wrap in `'…'`, replacing each embedded `'`
/// with `'\''`, so no byte is expanded or escaped by the shell.
pub fn shell_quote(s: &str) -> (r: String)
    ensures
        r@ == shell_quote_spec(s@),
{
    let v = chars_of(s);
    let mut out = String::new();
    push_char(&mut out, '\'');
    let mut i: usize = 0;
    while i < v.len()
        invariant
            i <= v@.len(),
            v@ == s@,
            out@ == seq!['\''] + quote_body(v@.take(i as int)),
        decreases v.len() - i,
    {
        let ch = v[i];
        assert(v@.take(i + 1).drop_last() =~= v@.take(i as int));
        assert(v@.take(i + 1).last() == ch);
        if ch == '\'' {
            push_char(&mut out, '\'');
            push_char(&mut out, '\\');
            push_char(&mut out, '\'');
            push_char(&mut out, '\'');
        } else {
            push_char(&mut out, ch);
        }
        assert(out@ =~= seq!['\''] + quote_body(v@.take(i + 1)));
        i = i + 1;
    }
    assert(v@.take(i as int) =~= s@);
    push_char(&mut out, '\'');
    out
}

/// `s` in front of the word read, when there is one.
pub open spec fn opt_prepend(s: Seq<char>, o: Option<Seq<char>>) -> Option<Seq<char>> {
    match o {
        Some(r) => Some(s + r),
        None => None,
    }
}

/// The word a POSIX shell reads from `w`, in the part of the word syntax
/// that single-quoting uses: a single-quoted run is taken literally up to
/// the closing `'`, and outside a run a backslash takes the next character
/// literally. `in_quote` says whether a run is open. Anything else (an
/// unquoted character a shell could expand or split on, a trailing
/// backslash, or a run left open) reads as `None`.
pub open spec fn sh_read(w: Seq<char>, in_quote: bool) -> Option<Seq<char>>
    decreases w.len(),
{
    if w.len() == 0 {
        if in_quote {
            None
        } else {
            Some(Seq::empty())
        }
    } else if in_quote {
        if w[0] == '\'' {
            sh_read(w.drop_first(), false)
        } else {
            opt_prepend(seq![w[0]], sh_read(w.drop_first(), true))
        }
    } else if w[0] == '\'' {
        sh_read(w.drop_first(), true)
    } else if w[0] == '\\' && w.len() >= 2 {
        opt_prepend(seq![w[1]], sh_read(w.skip(2), false))
    } else {
        None
    }
}

/// Quoting distributes over concatenation.
proof fn lemma_quote_body_append(a: Seq<char>, b: Seq<char>)
    ensures
        quote_body(a + b) == quote_body(a) + quote_body(b),
    decreases b.len(),
{
    if b.len() == 0 {
        assert(a + b =~= a);
        assert(quote_body(a) + quote_body(b) =~= quote_body(a));
    } else {
        lemma_quote_body_append(a, b.drop_last());
        assert((a + b).drop_last() =~= a + b.drop_last());
        assert((a + b).last() == b.last());
        if b.last() == '\'' {
            assert(quote_body(a + b) =~= quote_body(a) + quote_body(b));
        } else {
            assert(quote_body(a + b) =~= quote_body(a) + quote_body(b));
        }
    }
}

/// Inside an open run, the quoted body of `s` reads back as `s`.
proof fn lemma_read_body(s: Seq<char>, t: Seq<char>)
    ensures
        sh_read(quote_body(s) + t, true) == opt_prepend(s, sh_read(t, true)),
    decreases s.len(),
{
    if s.len() == 0 {
        assert(quote_body(s) + t =~= t);
        match sh_read(t, true) {
            Some(r) => assert(s + r =~= r),
            None => {},
        }
    } else {
        let c = s[0];
        let rest = s.drop_first();
        assert(s =~= seq![c] + rest);
        lemma_quote_body_append(seq![c], rest);
        assert(seq![c].drop_last() =~= Seq::<char>::empty());
        assert(seq![c].last() == c);
        assert(quote_body(Seq::<char>::empty()) == Seq::<char>::empty());
        assert(quote_body(seq![c].drop_last()) == Seq::<char>::empty());
        let x = quote_body(rest) + t;
        lemma_read_body(rest, t);
        if c == '\'' {
            let q = seq!['\'', '\\', '\'', '\''];
            assert(quote_body(seq![c]) =~= q);
            let w = q + x;
            assert(quote_body(s) + t =~= w);
            let w1 = w.drop_first();
            assert(w1[0] == '\\' && w1[1] == '\'');
            let w2 = w1.skip(2);
            assert(w2[0] == '\'');
            assert(w2.drop_first() =~= x);
            assert(sh_read(w2, false) == sh_read(x, true));
            assert(sh_read(w1, false) == opt_prepend(seq!['\''], sh_read(x, true)));
            assert(sh_read(w, true) == sh_read(w1, false));
        } else {
            assert(quote_body(seq![c]) =~= seq![c]);
            let w = seq![c] + x;
            assert(quote_body(s) + t =~= w);
            assert(w.drop_first() =~= x);
            assert(sh_read(w, true) == opt_prepend(seq![c], sh_read(x, true)));
        }
        match sh_read(t, true) {
            Some(r) => assert(seq![c] + (rest + r) =~= s + r),
            None => {},
        }
    }
}

/// The quoting survives the shell: a POSIX shell reads the quoted word
/// back as exactly `s`, whatever characters `s` holds, with nothing
/// expanded or split.
pub proof fn lemma_shell_quote_round_trip(s: Seq<char>)
    ensures
        sh_read(shell_quote_spec(s), false) == Some(s),
{
    let w = shell_quote_spec(s);
    let tail = seq!['\''];
    lemma_read_body(s, tail);
    assert(w.drop_first() =~= quote_body(s) + tail);
    assert(tail.drop_first() =~= Seq::<char>::empty());
    assert(sh_read(Seq::<char>::empty(), false) == Some(Seq::<char>::empty()));
    assert(sh_read(tail.drop_first(), false) == Some(Seq::<char>::empty()));
    assert(sh_read(tail, true) == Some(Seq::<char>::empty()));
    assert(s + Seq::<char>::empty() =~= s);
}

/// The shell snippet run on the remote: `cd` into the workdir and `exec`
/// the agent with the launch flags, the quoted prompt and, when resuming,
/// `--resume` and the quoted id.
pub open spec fn remote_command_spec(
    workdir: Seq<char>,
    bin: Seq<char>,
    prompt: Seq<char>,
    resume_id: Option<Seq<char>>,
) -> Seq<char> {
    "cd "@ + shell_quote_spec(workdir) + " && exec "@ + shell_quote_spec(bin)
        + " --print --output-format=stream-json --include-partial-messages --append-system-prompt "@
        + shell_quote_spec(prompt) + match resume_id {
        Some(id) => " --resume "@ + shell_quote_spec(id),
        None => Seq::empty(),
    }
}

/// Build the single shell snippet executed on the remote. `exec` makes
/// the agent's exit code the ssh process's exit code.
pub fn build_remote_command(
    target: &SshTarget,
    remote_claude_bin: &str,
    system_prompt: &str,
    resume_id: Option<&str>,
) -> (r: String)
    ensures
        r@ == remote_command_spec(
            target.remote_workdir@,
            remote_claude_bin@,
            system_prompt@,
            opt_str(resume_id),
        ),
{
    let mut s = "cd ".to_string();
    let q = shell_quote(target.remote_workdir.as_str());
    push_str(&mut s, q.as_str());
    push_str(&mut s, " && exec ");
    let q = shell_quote(remote_claude_bin);
    push_str(&mut s, q.as_str());
    push_str(
        &mut s,
        " --print --output-format=stream-json --include-partial-messages --append-system-prompt ",
    );
    let q = shell_quote(system_prompt);
    push_str(&mut s, q.as_str());
    if let Some(id) = resume_id {
        push_str(&mut s, " --resume ");
        let q = shell_quote(id);
        push_str(&mut s, q.as_str());
    }
    assert(s@ =~= remote_command_spec(
        target.remote_workdir@,
        remote_claude_bin@,
        system_prompt@,
        opt_str(resume_id),
    ));
    s
}

/// The characters of an optional string.
pub open spec fn opt_chars_of(o: Option<String>) -> Option<Seq<char>> {
    match o {
        Some(s) => Some(s@),
        None => None,
    }
}

/// `flag` and the value, when there is one.
pub open spec fn opt_pair(flag: Seq<char>, v: Option<Seq<char>>) -> Seq<Seq<char>> {
    match v {
        Some(x) => seq![flag, x],
        None => Seq::empty(),
    }
}

/// `-o` before each pass-through option.
pub open spec fn option_args(opts: Seq<Seq<char>>) -> Seq<Seq<char>>
    decreases opts.len(),
{
    if opts.len() == 0 {
        Seq::empty()
    } else {
        option_args(opts.drop_last()) + seq!["-o"@, opts.last()]
    }
}

/// The argument vector of the local `ssh`: multiplexing and timeout
/// options, the pass-through options, port and identity when set, the
/// target, `--`, and the remote command.
pub open spec fn ssh_args_spec(
    target: SshTarget,
    bin: Seq<char>,
    prompt: Seq<char>,
    resume_id: Option<Seq<char>>,
    socket: Seq<char>,
) -> Seq<Seq<char>> {
    seq![
        "-o"@,
        "ControlMaster=auto"@,
        "-o"@,
        "ControlPersist=10m"@,
        "-o"@,
        "ControlPath="@ + socket,
        "-o"@,
        "ServerAliveInterval=30"@,
        "-o"@,
        "ServerAliveCountMax=3"@,
        "-o"@,
        "BatchMode=yes"@,
    ] + option_args(arg_views(target.ssh_options@)) + match target.port {
        Some(p) => seq!["-p"@, decimal(p as nat)],
        None => Seq::empty(),
    } + opt_pair("-i"@, opt_chars_of(target.identity_file)) + seq![
        target.user_at_host_spec(),
        "--"@,
        remote_command_spec(target.remote_workdir@, bin, prompt, resume_id),
    ]
}

/// Build the argument vector passed to the local `ssh` executable.
pub fn build_ssh_args(
    target: &SshTarget,
    remote_claude_bin: &str,
    system_prompt: &str,
    resume_id: Option<&str>,
    control_socket: &str,
) -> (r: Vec<String>)
    ensures
        arg_views(r@) == ssh_args_spec(
            *target,
            remote_claude_bin@,
            system_prompt@,
            opt_str(resume_id),
            control_socket@,
        ),
{
    let mut args: Vec<String> = Vec::new();
    args.push("-o".to_string());
    args.push("ControlMaster=auto".to_string());
    args.push("-o".to_string());
    args.push("ControlPersist=10m".to_string());
    args.push("-o".to_string());
    let mut cp = "ControlPath=".to_string();
    push_str(&mut cp, control_socket);
    args.push(cp);
    args.push("-o".to_string());
    args.push("ServerAliveInterval=30".to_string());
    args.push("-o".to_string());
    args.push("ServerAliveCountMax=3".to_string());
    args.push("-o".to_string());
    args.push("BatchMode=yes".to_string());
    let ghost head = arg_views(args@);
    let ghost opts = arg_views(target.ssh_options@);
    let mut i: usize = 0;
    while i < target.ssh_options.len()
        invariant
            i <= target.ssh_options@.len(),
            opts == arg_views(target.ssh_options@),
            arg_views(args@) == head + option_args(opts.take(i as int)),
        decreases target.ssh_options.len() - i,
    {
        assert(opts.take(i + 1).drop_last() =~= opts.take(i as int));
        assert(opts.take(i + 1).last() == target.ssh_options@[i as int]@);
        let ghost before = arg_views(args@);
        args.push("-o".to_string());
        args.push(target.ssh_options[i].clone());
        assert(option_args(opts.take(i + 1)) == option_args(opts.take(i as int)) + seq![
            "-o"@,
            opts[i as int],
        ]);
        assert(arg_views(args@) =~= before + seq!["-o"@, opts[i as int]]);
        assert(arg_views(args@) =~= head + option_args(opts.take(i + 1)));
        i = i + 1;
    }
    assert(opts.take(i as int) =~= opts);
    let ghost mid = arg_views(args@);
    let ghost port_part: Seq<Seq<char>> = match target.port {
        Some(p) => seq!["-p"@, decimal(p as nat)],
        None => Seq::empty(),
    };
    let ghost key_part: Seq<Seq<char>> = opt_pair("-i"@, opt_chars_of(target.identity_file));
    if let Some(port) = target.port {
        args.push("-p".to_string());
        let mut p = String::new();
        push_decimal(&mut p, port as u64);
        assert(p@ =~= decimal(port as nat));
        args.push(p);
    }
    assert(arg_views(args@) =~= mid + port_part);
    let ghost mid2 = arg_views(args@);
    if let Some(key) = &target.identity_file {
        args.push("-i".to_string());
        args.push(key.clone());
    }
    assert(arg_views(args@) =~= mid2 + key_part);
    let ghost mid3 = arg_views(args@);
    let uah = target.user_at_host();
    let cmd = build_remote_command(target, remote_claude_bin, system_prompt, resume_id);
    args.push(uah);
    args.push("--".to_string());
    args.push(cmd);
    assert(arg_views(args@) =~= mid3 + seq![
        target.user_at_host_spec(),
        "--"@,
        remote_command_spec(target.remote_workdir@, remote_claude_bin@, system_prompt@, opt_str(resume_id)),
    ]);
    assert(arg_views(args@) =~= ssh_args_spec(
        *target,
        remote_claude_bin@,
        system_prompt@,
        opt_str(resume_id),
        control_socket@,
    ));
    args
}

/// The lowercase hexadecimal BLAKE3 digest of `data`.
pub uninterp spec fn blake3_hex(data: Seq<u8>) -> Seq<char>;

/// Trusted: wraps `blake3::hash` followed by `Hash::to_hex`. The digest
/// is left to the name `blake3_hex`; the source shows it is 64 characters
/// long (two hex digits per byte of the 32-byte output).
#[verifier::external_body]
fn blake3_hex_of(data: &[u8]) -> (r: String)
    ensures
        r@ == blake3_hex(data@),
        r@.len() == 64,
{
    blake3::hash(data).to_hex().to_string()
}

/// The line `b3sum` prints for a file: the BLAKE3 digest of its bytes,
/// two spaces, and its name.
pub fn digest_line(data: &[u8], name: &str) -> (r: String)
    ensures
        r@ == blake3_hex(data@) + "  "@ + name@,
{
    let mut s = blake3_hex_of(data);
    push_str(&mut s, "  ");
    push_str(&mut s, name);
    s
}

/// The bytes identifying a target for its control socket: the host,
/// then `@` and the user when set, then the port in little-endian order
/// when set.
pub open spec fn socket_key(target: SshTarget) -> Seq<u8> {
    vstd::utf8::encode_utf8(target.host@) + match target.user {
        Some(u) => seq![64u8] + vstd::utf8::encode_utf8(u@),
        None => Seq::empty(),
    } + match target.port {
        Some(p) => seq![(p % 256) as u8, (p / 256) as u8],
        None => Seq::empty(),
    }
}

/// The control socket of a target: its explicit path when set, else
/// `/tmp/conductor-ssh-` followed by the first eight hex digits of the
/// BLAKE3 digest of its key, and `.sock`.
pub open spec fn control_socket_spec(target: SshTarget) -> Seq<char> {
    match target.control_socket {
        Some(p) => p@,
        None => "/tmp/conductor-ssh-"@ + blake3_hex(socket_key(target)).take(8) + ".sock"@,
    }
}

/// Appends the bytes of `t` to `v`.
fn push_bytes(v: &mut Vec<u8>, t: &str)
    ensures
        final(v)@ == old(v)@ + vstd::utf8::encode_utf8(t@),
{
    let b = t.as_bytes();
    let ghost start = v@;
    let mut i: usize = 0;
    while i < b.len()
        invariant
            i <= b@.len(),
            b@ == vstd::utf8::encode_utf8(t@),
            v@ == start + b@.take(i as int),
        decreases b.len() - i,
    {
        v.push(b[i]);
        assert(b@.take(i + 1) =~= b@.take(i as int).push(b@[i as int]));
        i = i + 1;
    }
    assert(b@.take(i as int) =~= b@);
}

/// The per-target ControlMaster socket path. Distinct targets get
/// distinct sockets with overwhelming probability, the same target the
/// same socket on every call, and the name does not reveal the target.
pub fn control_socket_path(target: &SshTarget) -> (r: String)
    ensures
        r@ == control_socket_spec(*target),
{
    match &target.control_socket {
        Some(p) => p.clone(),
        None => {
            let mut key: Vec<u8> = Vec::new();
            push_bytes(&mut key, target.host.as_str());
            if let Some(u) = &target.user {
                key.push(64u8);
                push_bytes(&mut key, u.as_str());
            }
            if let Some(p) = target.port {
                key.push((p % 256) as u8);
                key.push((p / 256) as u8);
            }
            assert(key@ =~= socket_key(*target));
            let hex = blake3_hex_of(key.as_slice());
            let hv = chars_of(hex.as_str());
            let mut out = "/tmp/conductor-ssh-".to_string();
            let mut i: usize = 0;
            while i < 8
                invariant
                    i <= 8,
                    hv@ == blake3_hex(socket_key(*target)),
                    hv@.len() == 64,
                    out@ == "/tmp/conductor-ssh-"@ + hv@.take(i as int),
                decreases 8 - i,
            {
                push_char(&mut out, hv[i]);
                assert(hv@.take(i + 1) =~= hv@.take(i as int).push(hv@[i as int]));
                i = i + 1;
            }
            push_str(&mut out, ".sock");
            out
        },
    }
}

} // verus!
