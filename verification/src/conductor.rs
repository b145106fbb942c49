//! What the `conductor` commands decide and print: the event lines, the
//! host listing and routing table, the worktree and host group of each
//! enrolled intent, the driving loop's next move, and the mock-driven
//! dry run.

use vstd::prelude::*;

use crate::config::{names_of, route, str_views, strictly_sorted, HostsConfig};
use crate::driver::{pending_except, pending_for, ClaudeDriver, DriverEvent, MockDriver};
use crate::event::{about, appended_each, KindView, SupervisorEvent, SupervisorEventKind, TerminalOutcome};
use crate::host::Host;
use crate::policy::RecoveryPolicy;
use crate::session::{Session, SessionId, StateView};
use crate::supervisor::{
    advanced, drained, drained_kinds, event_log, event_state, handle_id, opt_view, step_trace,
    Supervisor, SupervisorError, TrackedSession,
};
use crate::text::{decimal, join, push_char, push_decimal, push_joined, push_str, string_views};

verus! {

// ───────────────────────────── padding ─────────────────────────────

/// `n` spaces.
pub open spec fn spaces(n: nat) -> Seq<char> {
    Seq::new(n, |i: int| ' ')
}

/// `s` right-aligned in a field of `width` characters (`{:>width}`):
/// spaces in front when shorter, unchanged when not.
pub open spec fn padded(s: Seq<char>, width: nat) -> Seq<char> {
    if s.len() >= width {
        s
    } else {
        spaces((width - s.len()) as nat) + s
    }
}

/// Appends `s` right-aligned in a field of `width` characters.
pub fn push_padded(out: &mut String, s: &str, width: usize)
    ensures
        final(out)@ == old(out)@ + padded(s@, width as nat),
{
    let n: usize = crate::text::chars_of(s).len();
    let ghost start = out@;
    if n < width {
        let mut i: usize = 0;
        while i < width - n
            invariant
                n < width,
                i <= width - n,
                out@ == start + spaces(i as nat),
            decreases width - n - i,
        {
            push_char(out, ' ');
            assert(spaces((i + 1) as nat) =~= spaces(i as nat).push(' '));
            i = i + 1;
        }
    }
    push_str(out, s);
    assert(final(out)@ =~= start + padded(s@, width as nat));
}

// ───────────────────────────── event lines ─────────────────────────────

/// The `Debug` name of an outcome.
pub open spec fn outcome_name(o: TerminalOutcome) -> Seq<char> {
    match o {
        TerminalOutcome::Done => "Done"@,
        TerminalOutcome::Failed => "Failed"@,
    }
}

/// How an event kind is printed.
pub open spec fn kind_text(k: KindView) -> Seq<char> {
    match k {
        KindView::Queued => "queued"@,
        KindView::Started => "started"@,
        KindView::Log(line) => "log: "@ + line,
        KindView::Paused(r) => "paused: "@ + r.label_spec(),
        KindView::ResumeScheduled(n) => "resume-after-"@ + decimal(n) + "s"@,
        KindView::Escalated(r) => "escalated: "@ + r,
        KindView::Terminal(o) => "terminal: "@ + outcome_name(o),
    }
}

/// How an event's session is printed: its id, or `-`.
pub open spec fn session_text(s: Option<SessionId>) -> Seq<char> {
    match s {
        Some(id) => id.0@,
        None => "-"@,
    }
}

/// The line printed for an event.
pub open spec fn event_text(e: SupervisorEvent) -> Seq<char> {
    padded(session_text(e.session), 30) + "  "@ + kind_text(e.kind@)
}

/// The line printed for an event of the host group `label`.
pub open spec fn group_event_text(label: Seq<char>, e: SupervisorEvent) -> Seq<char> {
    "["@ + padded(label, 14) + "] "@ + event_text(e)
}

/// Appends how an event kind is printed.
fn push_kind(out: &mut String, k: &SupervisorEventKind)
    ensures
        final(out)@ == old(out)@ + kind_text(k@),
{
    match k {
        SupervisorEventKind::Queued => push_str(out, "queued"),
        SupervisorEventKind::Started => push_str(out, "started"),
        SupervisorEventKind::Log { line } => {
            push_str(out, "log: ");
            push_str(out, line.as_str());
        },
        SupervisorEventKind::Paused { reason } => {
            push_str(out, "paused: ");
            push_str(out, reason.label());
        },
        SupervisorEventKind::ResumeScheduled { delay_seconds } => {
            push_str(out, "resume-after-");
            push_decimal(out, *delay_seconds);
            push_str(out, "s");
        },
        SupervisorEventKind::Escalated { reason } => {
            push_str(out, "escalated: ");
            push_str(out, reason.as_str());
        },
        SupervisorEventKind::Terminal { outcome } => {
            push_str(out, "terminal: ");
            match outcome {
                TerminalOutcome::Done => push_str(out, "Done"),
                TerminalOutcome::Failed => push_str(out, "Failed"),
            }
        },
    }
    assert(final(out)@ =~= old(out)@ + kind_text(k@));
}

/// Appends the line printed for an event.
fn push_event(out: &mut String, e: &SupervisorEvent)
    ensures
        final(out)@ == old(out)@ + event_text(*e),
{
    match &e.session {
        Some(id) => push_padded(out, id.0.as_str(), 30),
        None => push_padded(out, "-", 30),
    }
    push_str(out, "  ");
    push_kind(out, &e.kind);
    assert(final(out)@ =~= old(out)@ + event_text(*e));
}

/// The line printed for an event.
pub fn event_line(e: &SupervisorEvent) -> (r: String)
    ensures
        r@ == event_text(*e),
{
    let mut s = String::new();
    push_event(&mut s, e);
    s
}

/// The line printed for an event of the host group `label`.
pub fn group_event_line(label: &str, e: &SupervisorEvent) -> (r: String)
    ensures
        r@ == group_event_text(label@, *e),
{
    let mut s = String::new();
    push_str(&mut s, "[");
    push_padded(&mut s, label, 14);
    push_str(&mut s, "] ");
    push_event(&mut s, e);
    assert(s@ =~= group_event_text(label@, *e));
    s
}

// ───────────────────────────── info and hosts ─────────────────────────────

/// `conductor info`'s first line.
pub fn info_header() -> (r: String)
    ensures
        r@ == "conductor "@ + crate::VERSION@ + " (conductor-core "@ + crate::VERSION@ + ")"@,
{
    let mut s = String::new();
    push_str(&mut s, "conductor ");
    push_str(&mut s, crate::VERSION);
    push_str(&mut s, " (conductor-core ");
    push_str(&mut s, crate::VERSION);
    push_str(&mut s, ")");
    s
}

/// `conductor info`'s driver line, for the agent program `tool`.
pub fn driver_info(tool: &str) -> (r: String)
    ensures
        r@ == "driver: mock (real "@ + tool@ + "-cli driver lands v0.2)"@,
{
    let mut s = String::new();
    push_str(&mut s, "driver: mock (real ");
    push_str(&mut s, tool);
    push_str(&mut s, "-cli driver lands v0.2)");
    s
}

/// `conductor info`'s hosts line, given the host names in listing order.
pub fn hosts_info_line(names: &Vec<&str>, default: &str) -> (r: String)
    ensures
        r@ == "hosts: "@ + join(str_views(names@), ", "@) + "  (default: "@ + default@ + ")"@,
{
    let mut owned: Vec<String> = Vec::new();
    let mut i: usize = 0;
    while i < names.len()
        invariant
            i <= names@.len(),
            string_views(owned@) == str_views(names@).take(i as int),
        decreases names.len() - i,
    {
        let ghost before = string_views(owned@);
        owned.push(names[i].to_string());
        assert(string_views(owned@) =~= before.push(names@[i as int]@));
        assert(str_views(names@).take(i + 1) =~= str_views(names@).take(i as int).push(names@[i as int]@));
        i = i + 1;
    }
    assert(str_views(names@).take(i as int) =~= str_views(names@));
    let mut s = String::new();
    push_str(&mut s, "hosts: ");
    push_joined(&mut s, &owned, ", ");
    push_str(&mut s, "  (default: ");
    push_str(&mut s, default);
    push_str(&mut s, ")");
    s
}

/// The line of `conductor hosts` for the host `host` declared as `name`.
pub open spec fn host_line_text(name: Seq<char>, host: Host, default: Seq<char>) -> Seq<char> {
    "  "@ + padded(name, 16) + (if name == default {
        " *"@
    } else {
        ""@
    }) + "  "@ + host.label_spec()
}

/// The line of `conductor hosts` for one declared host.
pub fn host_line(name: &str, host: &Host, default: &str) -> (r: String)
    ensures
        r@ == host_line_text(name@, *host, default@),
{
    let mut s = String::new();
    push_str(&mut s, "  ");
    push_padded(&mut s, name, 16);
    if crate::text::str_eq(name, default) {
        push_str(&mut s, " *");
    }
    push_str(&mut s, "  ");
    let label = host.label();
    push_str(&mut s, label.as_str());
    proof {
        reveal_strlit("");
    }
    assert(s@ =~= host_line_text(name@, *host, default@));
    s
}

/// `conductor hosts`'s header line.
pub fn hosts_header(count: usize) -> (r: String)
    ensures
        r@ == "hosts ("@ + decimal(count as nat) + " declared):"@,
{
    let mut s = String::new();
    push_str(&mut s, "hosts (");
    push_decimal(&mut s, count as u64);
    push_str(&mut s, " declared):");
    s
}

/// The routing line of `conductor hosts --resolve` for an agent id.
pub open spec fn routing_text(id: Seq<char>, host: Host) -> Seq<char> {
    "  "@ + padded(id, 32) + "  \u{2192}  "@ + host.label_spec()
}

/// `line` is the routing line of agent id `id` under `hosts`.
pub open spec fn is_routing_line(hosts: HostsConfig, id: Seq<char>, line: Seq<char>) -> bool {
    exists|j: int|
        0 <= j < hosts.hosts@.len() && hosts.hosts@[j].0@ == route(hosts.rules@, hosts.default@, id)
            && line == routing_text(id, #[trigger] hosts.hosts@[j].1)
}

/// The routing line for agent id `id`: where `hosts` sends it.
pub fn routing_line(hosts: &HostsConfig, id: &str) -> (r: String)
    requires
        hosts.wf(),
    ensures
        is_routing_line(*hosts, id@, r@),
{
    let host = hosts.resolve(id);
    let mut s = String::new();
    push_str(&mut s, "  ");
    push_padded(&mut s, id, 32);
    push_str(&mut s, "  \u{2192}  ");
    let label = host.label();
    push_str(&mut s, label.as_str());
    s
}

/// What `conductor hosts` prints: the header, one line per declared host
/// in name order, and, when agent ids are given, a blank line, `routing:`
/// and one routing line per id.
pub fn hosts_listing(hosts: &HostsConfig, resolve: &Vec<String>) -> (r: Vec<String>)
    requires
        hosts.wf(),
    ensures
        r@.len() == 1int + hosts.hosts@.len() + (if resolve@.len() > 0 {
            1 + resolve@.len()
        } else {
            0
        }),
        r@[0]@ == "hosts ("@ + decimal(hosts.hosts@.len()) + " declared):"@,
        exists|names: Seq<Seq<char>>|
            {
                &&& names.len() == hosts.hosts@.len()
                &&& strictly_sorted(names)
                &&& forall|k: int| 0 <= k < names.len() ==> names_of(hosts.hosts@).contains(#[trigger] names[k])
                &&& forall|k: int|
                    0 <= k < names.len() ==> exists|j: int|
                        0 <= j < hosts.hosts@.len() && hosts.hosts@[j].0@ == names[k] && (#[trigger] r@[1 + k])@
                            == host_line_text(names[k], hosts.hosts@[j].1, hosts.default@)
            },
        resolve@.len() > 0 ==> r@[1int + hosts.hosts@.len()]@ == "\nrouting:"@,
        forall|k: int|
            0 <= k < resolve@.len() ==> is_routing_line(
                *hosts,
                resolve@[k]@,
                (#[trigger] r@[2int + hosts.hosts@.len() + k])@,
            ),
{
    let names = hosts.host_names();
    let mut out: Vec<String> = Vec::new();
    out.push(hosts_header(names.len()));
    let mut i: usize = 0;
    while i < names.len()
        invariant
            hosts.wf(),
            names@.len() == hosts.hosts@.len(),
            strictly_sorted(str_views(names@)),
            forall|k: int| 0 <= k < names@.len() ==> names_of(hosts.hosts@).contains(#[trigger] names@[k]@),
            i <= names@.len(),
            out@.len() == 1 + i,
            out@[0]@ == "hosts ("@ + decimal(hosts.hosts@.len()) + " declared):"@,
            forall|k: int|
                0 <= k < i ==> exists|j: int|
                    0 <= j < hosts.hosts@.len() && hosts.hosts@[j].0@ == names@[k]@ && (#[trigger] out@[1 + k])@
                        == host_line_text(names@[k]@, hosts.hosts@[j].1, hosts.default@),
        decreases names.len() - i,
    {
        let name = names[i];
        assert(names_of(hosts.hosts@).contains(names@[i as int]@));
        let h = hosts.get(name);
        match h {
            Some(host) => {
                let line = host_line(name, host, hosts.default.as_str());
                out.push(line);
            },
            None => {
                assert(false);
            },
        }
        i = i + 1;
    }
    proof {
        let sv = str_views(names@);
        assert forall|k: int| 0 <= k < sv.len() implies names_of(hosts.hosts@).contains(#[trigger] sv[k]) by {
            assert(sv[k] == names@[k]@);
        }
        assert forall|k: int|
            0 <= k < sv.len() implies exists|j: int|
                0 <= j < hosts.hosts@.len() && hosts.hosts@[j].0@ == sv[k] && (#[trigger] out@[1 + k])@
                    == host_line_text(sv[k], hosts.hosts@[j].1, hosts.default@) by {
            assert(sv[k] == names@[k]@);
        }
    }
    let ghost listed = out@;
    if resolve.len() > 0 {
        out.push("\nrouting:".to_string());
        let mut k: usize = 0;
        while k < resolve.len()
            invariant
                hosts.wf(),
                k <= resolve@.len(),
                resolve@.len() > 0,
                out@.len() == 2int + hosts.hosts@.len() + k,
                out@.take(1int + hosts.hosts@.len()) == listed,
                listed.len() == 1int + hosts.hosts@.len(),
                out@[1int + hosts.hosts@.len()]@ == "\nrouting:"@,
                forall|m: int|
                    0 <= m < k ==> is_routing_line(
                        *hosts,
                        resolve@[m]@,
                        (#[trigger] out@[2int + hosts.hosts@.len() + m])@,
                    ),
            decreases resolve.len() - k,
        {
            let ghost before = out@;
            let line = routing_line(hosts, resolve[k].as_str());
            let ghost lv = line@;
            out.push(line);
            assert(out@[2int + hosts.hosts@.len() + k] == out@[out@.len() - 1]);
            assert(out@.take(1int + hosts.hosts@.len()) =~= before.take(1int + hosts.hosts@.len()));
            assert forall|m: int|
                0 <= m < k + 1 implies is_routing_line(
                    *hosts,
                    resolve@[m]@,
                    (#[trigger] out@[2int + hosts.hosts@.len() + m])@,
                ) by {
                if m < k {
                    assert(out@[2int + hosts.hosts@.len() + m] == before[2int + hosts.hosts@.len() + m]);
                } else {
                    assert(out@[2int + hosts.hosts@.len() + m]@ == lv);
                }
            }
            k = k + 1;
        }
        assert forall|m: int| 0 <= m < hosts.hosts@.len() implies #[trigger] out@[1 + m] == listed[1 + m] by {
            assert(out@.take(1int + hosts.hosts@.len())[1 + m] == out@[1 + m]);
        }
        assert(out@[0] == listed[0]) by {
            assert(out@.take(1int + hosts.hosts@.len())[0] == out@[0]);
        }
    }
    out
}

// ───────────────────────────── runs ─────────────────────────────

/// The error of `conductor run` and `dry-run` without any intent.
pub const INTENT_REQUIRED: &'static str = "--intent <path> required (repeatable)";

/// The worktree of a session: the `--worktree` override if given, else
/// the remote workdir of an SSH host, else the intent file's directory
/// (`.` when it has none).
pub open spec fn worktree_of(over: Option<Seq<char>>, host: Host, intent_dir: Option<Seq<char>>) -> Seq<char> {
    match over {
        Some(w) => w,
        None => match host {
            Host::Ssh(t) => t.remote_workdir@,
            _ => match intent_dir {
                Some(d) => d,
                None => "."@,
            },
        },
    }
}

/// The worktree a session of an intent routed to `host` runs in.
pub fn session_worktree(over: Option<&str>, host: &Host, intent_dir: Option<&str>) -> (r: String)
    ensures
        r@ == worktree_of(
            match over {
                Some(w) => Some(w@),
                None => None,
            },
            *host,
            match intent_dir {
                Some(d) => Some(d@),
                None => None,
            },
        ),
{
    match over {
        Some(w) => w.to_string(),
        None => match host {
            Host::Ssh(t) => t.remote_workdir.clone(),
            _ => match intent_dir {
                Some(d) => d.to_string(),
                None => ".".to_string(),
            },
        },
    }
}

/// The distinct names of `ns`, in order of first appearance.
pub open spec fn first_names(ns: Seq<Seq<char>>) -> Seq<Seq<char>>
    decreases ns.len(),
{
    if ns.len() == 0 {
        Seq::empty()
    } else if first_names(ns.drop_last()).contains(ns.last()) {
        first_names(ns.drop_last())
    } else {
        first_names(ns.drop_last()).push(ns.last())
    }
}

/// The sessions routed to host `name`, in order.
pub open spec fn routed_to(rs: Seq<(String, Session)>, name: Seq<char>) -> Seq<Session>
    decreases rs.len(),
{
    if rs.len() == 0 {
        Seq::empty()
    } else if rs.last().0@ == name {
        routed_to(rs.drop_last(), name).push(rs.last().1)
    } else {
        routed_to(rs.drop_last(), name)
    }
}

/// The host names of routed sessions.
pub open spec fn route_names(rs: Seq<(String, Session)>) -> Seq<Seq<char>> {
    rs.map_values(|p: (String, Session)| p.0@)
}

/// Every name of `first_names(ns)` occurs in `ns`, and no name twice.
proof fn lemma_first_names(ns: Seq<Seq<char>>)
    ensures
        forall|a: int, b: int|
            0 <= a < b < first_names(ns).len() ==> first_names(ns)[a] != first_names(ns)[b],
        forall|x: Seq<char>| ns.contains(x) <==> first_names(ns).contains(x),
    decreases ns.len(),
{
    if ns.len() > 0 {
        let init = ns.drop_last();
        lemma_first_names(init);
        let prev = first_names(init);
        assert forall|x: Seq<char>| ns.contains(x) implies first_names(ns).contains(x) by {
            let i = choose|i: int| 0 <= i < ns.len() && ns[i] == x;
            if i < ns.len() - 1 {
                assert(init[i] == x);
                assert(init.contains(x));
                assert(prev.contains(x));
                let j = choose|j: int| 0 <= j < prev.len() && prev[j] == x;
                assert(first_names(ns)[j] == x);
            } else if !prev.contains(x) {
                assert(first_names(ns)[prev.len() as int] == x);
            } else {
                let j = choose|j: int| 0 <= j < prev.len() && prev[j] == x;
                assert(first_names(ns)[j] == x);
            }
        }
        assert forall|x: Seq<char>| first_names(ns).contains(x) implies ns.contains(x) by {
            let i = choose|i: int| 0 <= i < first_names(ns).len() && first_names(ns)[i] == x;
            if i < prev.len() {
                assert(prev[i] == x);
                assert(prev.contains(x));
                assert(init.contains(x));
                let j = choose|j: int| 0 <= j < init.len() && init[j] == x;
                assert(ns[j] == init[j]);
            } else {
                assert(ns[ns.len() - 1] == x);
            }
        }
    }
}

/// Sessions grouped by the host they were routed to: one group per
/// distinct host name, in order of first appearance, each holding its
/// sessions in enrolment order.
pub fn group_by_host(routed: Vec<(String, Session)>) -> (r: Vec<(String, Vec<Session>)>)
    ensures
        string_views(r@.map_values(|g: (String, Vec<Session>)| g.0)) == first_names(route_names(routed@)),
        forall|k: int| 0 <= k < r@.len() ==> (#[trigger] r@[k]).1@ == routed_to(routed@, r@[k].0@),
{
    let ghost all = routed@;
    let mut groups: Vec<(String, Vec<Session>)> = Vec::new();
    let ghost mut i: int = 0;
    for item in it: routed
        invariant
            it.seq() == all,
            i == it.index(),
            i <= all.len(),
            string_views(groups@.map_values(|g: (String, Vec<Session>)| g.0)) == first_names(
                route_names(all.take(i as int)),
            ),
            forall|k: int|
                0 <= k < groups@.len() ==> (#[trigger] groups@[k]).1@ == routed_to(
                    all.take(i as int),
                    groups@[k].0@,
                ),
    {
        let ghost pre = all.take(i as int);
        let ghost nxt = all.take(i + 1);
        assert(nxt.drop_last() =~= pre);
        assert(nxt.last() == item);
        assert(route_names(nxt).drop_last() =~= route_names(pre));
        assert(route_names(nxt).last() == item.0@);
        let ghost names_before = string_views(groups@.map_values(|g: (String, Vec<Session>)| g.0));
        let (name, session) = item;
        let mut j: usize = 0;
        while j < groups.len() && !crate::text::str_eq(groups[j].0.as_str(), name.as_str())
            invariant
                j <= groups@.len(),
                names_before == string_views(groups@.map_values(|g: (String, Vec<Session>)| g.0)),
                forall|m: int| 0 <= m < j ==> (#[trigger] groups@[m]).0@ != name@,
            decreases groups.len() - j,
        {
            j = j + 1;
        }
        let ghost before = groups@;
        if j < groups.len() {
            assert(names_before[j as int] == name@);
            assert(names_before.contains(name@));
            let (gname, mut members) = groups.remove(j);
            members.push(session);
            groups.insert(j, (gname, members));
            proof {
                assert(string_views(groups@.map_values(|g: (String, Vec<Session>)| g.0)) =~= names_before);
                assert forall|k: int|
                    0 <= k < groups@.len() implies (#[trigger] groups@[k]).1@ == routed_to(
                        nxt,
                        groups@[k].0@,
                    ) by {
                    if k != j {
                        assert(groups@[k] == before[k]);
                        assert(before[k].0@ != name@) by {
                            if before[k].0@ == name@ {
                                lemma_first_names(route_names(pre));
                                assert(names_before[k] == before[k].0@);
                            }
                        }
                    }
                }
            }
        } else {
            assert(!names_before.contains(name@)) by {
                if names_before.contains(name@) {
                    let m = choose|m: int| 0 <= m < names_before.len() && names_before[m] == name@;
                    assert(groups@[m].0@ == names_before[m]);
                }
            }
            let ghost gname = name@;
            let mut members: Vec<Session> = Vec::new();
            members.push(session);
            groups.push((name, members));
            proof {
                assert(string_views(groups@.map_values(|g: (String, Vec<Session>)| g.0)) =~= names_before.push(
                    gname,
                ));
                lemma_first_names(route_names(pre));
                assert(!route_names(pre).contains(gname));
                assert(routed_to(pre, gname) =~= Seq::<Session>::empty()) by {
                    lemma_routed_to_absent(pre, gname);
                }
                assert forall|k: int|
                    0 <= k < groups@.len() implies (#[trigger] groups@[k]).1@ == routed_to(
                        nxt,
                        groups@[k].0@,
                    ) by {
                    if k < before.len() {
                        assert(groups@[k] == before[k]);
                        assert(names_before[k] == before[k].0@);
                    }
                }
            }
        }
        proof {
            i = i + 1;
        }
    }
    assert(all.take(i as int) =~= all);
    groups
}

/// No session is routed to a name that no routed session carries.
proof fn lemma_routed_to_absent(rs: Seq<(String, Session)>, name: Seq<char>)
    requires
        !route_names(rs).contains(name),
    ensures
        routed_to(rs, name) == Seq::<Session>::empty(),
    decreases rs.len(),
{
    if rs.len() > 0 {
        assert(route_names(rs.drop_last()) =~= route_names(rs).drop_last());
        assert(route_names(rs)[rs.len() - 1] == rs.last().0@);
        assert(!route_names(rs.drop_last()).contains(name)) by {
            if route_names(rs.drop_last()).contains(name) {
                let m = choose|m: int| 0 <= m < rs.len() - 1 && route_names(rs.drop_last())[m] == name;
                assert(route_names(rs)[m] == name);
            }
        }
        lemma_routed_to_absent(rs.drop_last(), name);
    }
}

/// The closing line of `conductor run`.
pub fn run_summary(groups: u32, sessions: u32) -> (r: String)
    ensures
        r@ == "conductor: "@ + decimal(groups as nat) + " group(s), "@ + decimal(sessions as nat)
            + " session(s) terminal"@,
{
    let mut s = String::new();
    push_str(&mut s, "conductor: ");
    push_decimal(&mut s, groups as u64);
    push_str(&mut s, " group(s), ");
    push_decimal(&mut s, sessions as u64);
    push_str(&mut s, " session(s) terminal");
    s
}

/// The driving loop's next move.
#[derive(Debug, Clone, Copy, PartialEq, Eq, Structural)]
pub enum DriveStep {
    /// Every session is terminal: drain the last events and report.
    Finished,
    /// The step cap was reached before every session finished.
    CapReached,
    /// Step the supervisor, print its events, wait the poll interval.
    Step,
}

/// The next move of a group's driving loop after `steps` steps.
pub fn next_drive_step(done: bool, steps: u32, max_steps: u32) -> (r: DriveStep)
    ensures
        r == (if done {
            DriveStep::Finished
        } else if steps >= max_steps {
            DriveStep::CapReached
        } else {
            DriveStep::Step
        }),
{
    if done {
        DriveStep::Finished
    } else if steps >= max_steps {
        DriveStep::CapReached
    } else {
        DriveStep::Step
    }
}

/// The error of a group that reached the step cap.
pub fn cap_message(label: Option<&str>, max_steps: u32) -> (r: String)
    ensures
        r@ == (match label {
            Some(l) => "["@ + l@ + "] "@,
            None => ""@,
        }) + "supervisor not done after "@ + decimal(max_steps as nat) + " steps"@,
{
    let mut s = String::new();
    match label {
        Some(l) => {
            push_str(&mut s, "[");
            push_str(&mut s, l);
            push_str(&mut s, "] ");
        },
        None => {},
    }
    push_str(&mut s, "supervisor not done after ");
    push_decimal(&mut s, max_steps as u64);
    push_str(&mut s, " steps");
    proof {
        reveal_strlit("");
    }
    assert(s@ =~= (match label {
        Some(l) => "["@ + l@ + "] "@,
        None => ""@,
    }) + "supervisor not done after "@ + decimal(max_steps as nat) + " steps"@);
    s
}

/// No event of the mock queue `q` is for the session `x`.
pub open spec fn no_key(q: Seq<(Seq<char>, DriverEvent)>, x: Seq<char>) -> bool {
    forall|i: int| 0 <= i < q.len() ==> (#[trigger] q[i]).0 != x
}

/// No session id occurs twice in `ss`.
pub open spec fn distinct_ids(ss: Seq<Session>) -> bool {
    forall|i: int, j: int| 0 <= i < j < ss.len() ==> (#[trigger] ss[i]).id.0@ != (#[trigger] ss[j]).id.0@
}

/// Every session of `ss` is queued, as a new session is.
pub open spec fn all_queued(ss: Seq<Session>) -> bool {
    forall|k: int| 0 <= k < ss.len() ==> (#[trigger] ss[k]).state@ == StateView::Queued
}

/// The mock script of a dry run: one `Done` per session, in order.
pub open spec fn script_queue(ss: Seq<Session>) -> Seq<(Seq<char>, DriverEvent)> {
    Seq::new(ss.len(), |k: int| (ss[k].id.0@, DriverEvent::Done))
}

/// The events of a dry run of `ss` that completed: a `Queued` event
/// per session, then a `Started` event per session, then a
/// `Terminal(Done)` event per session, each series in session order.
pub open spec fn completed_run(evs: Seq<SupervisorEvent>, ss: Seq<Session>) -> bool {
    let n = ss.len() as int;
    &&& evs.len() == 3 * n
    &&& forall|k: int|
        0 <= k < n ==> evs[k].kind@ == KindView::Queued && about(evs[k], (#[trigger] ss[k]).id.0@)
    &&& forall|k: int|
        0 <= k < n ==> evs[n + k].kind@ == KindView::Started && about(
            evs[n + k],
            (#[trigger] ss[k]).id.0@,
        )
    &&& forall|k: int|
        0 <= k < n ==> evs[2 * n + k].kind@ == KindView::Terminal(TerminalOutcome::Done) && about(
            evs[2 * n + k],
            (#[trigger] ss[k]).id.0@,
        )
}

/// A queue without events for `x` answers a poll of `x` with nothing
/// and keeps all its events.
proof fn lemma_absent_key(q: Seq<(Seq<char>, DriverEvent)>, x: Seq<char>)
    requires
        no_key(q, x),
    ensures
        pending_for(q, x) == Seq::<DriverEvent>::empty(),
        pending_except(q, x) == q,
    decreases q.len(),
{
    if q.len() > 0 {
        assert(q.last() == q[q.len() - 1]);
        lemma_absent_key(q.drop_last(), x);
        assert(q.drop_last().push(q.last()) =~= q);
    }
}

/// A poll of `y` leaves no event for `y`, and none for a session that
/// had none.
proof fn lemma_except_removes(q: Seq<(Seq<char>, DriverEvent)>, x: Seq<char>, y: Seq<char>)
    requires
        no_key(q, x) || x == y,
    ensures
        no_key(pending_except(q, y), x),
    decreases q.len(),
{
    if q.len() > 0 {
        assert(q.last() == q[q.len() - 1]);
        lemma_except_removes(q.drop_last(), x, y);
        let r = pending_except(q.drop_last(), y);
        if q.last().0 != y {
            assert forall|i: int| 0 <= i < r.push(q.last()).len() implies (#[trigger] r.push(
                q.last(),
            )[i]).0 != x by {
                if i < r.len() {
                    assert(r.push(q.last())[i] == r[i]);
                }
            }
        }
    }
}

/// In a queue whose sessions are distinct, a poll of the first
/// session's id returns its one event and leaves the rest.
proof fn lemma_head_key(q: Seq<(Seq<char>, DriverEvent)>)
    requires
        q.len() > 0,
        forall|i: int, j: int| 0 <= i < j < q.len() ==> (#[trigger] q[i]).0 != (#[trigger] q[j]).0,
    ensures
        pending_for(q, q[0].0) == seq![q[0].1],
        pending_except(q, q[0].0) == q.drop_first(),
    decreases q.len(),
{
    if q.len() == 1 {
        lemma_absent_key(q.drop_last(), q[0].0);
        assert(q.drop_first() =~= Seq::<(Seq<char>, DriverEvent)>::empty());
    } else {
        let d = q.drop_last();
        assert(d[0] == q[0]);
        assert(q.last() == q[q.len() - 1]);
        assert(q[0].0 != q[q.len() - 1].0);
        lemma_head_key(d);
        assert(d.drop_first().push(q.last()) =~= q.drop_first());
    }
}

/// A session of a dry run that is neither queued nor resumed, and that
/// holds a handle for its own id while running.
pub open spec fn settled(t: TrackedSession, s: Session) -> bool {
    &&& t.session.id == s.id
    &&& !(t.session.state@ is Queued)
    &&& !(t.session.state@ is Resumed)
    &&& t.session.state@ is Running ==> (t.handle matches Some(h) && h.id.0@ == s.id.0@)
}

/// Driver events never send a session back to the queue or to
/// `Resumed`.
proof fn lemma_drained_settled(
    policy: RecoveryPolicy,
    st: StateView,
    l: Option<Seq<char>>,
    rc: u32,
    evs: Seq<DriverEvent>,
)
    requires
        !(st is Queued),
        !(st is Resumed),
    ensures
        !(drained(policy, st, l, rc, evs).0 is Queued),
        !(drained(policy, st, l, rc, evs).0 is Resumed),
    decreases evs.len(),
{
    if evs.len() > 0 {
        let s2 = event_state(policy, st, rc, evs[0]);
        if !crate::supervisor::stops_batch(s2) {
            lemma_drained_settled(policy, s2, event_log(l, evs[0]), rc, evs.drop_first());
        }
    }
}

/// A turn keeps a settled session settled.
proof fn lemma_turn_settled(
    policy: RecoveryPolicy,
    d0: MockDriver,
    d1: MockDriver,
    a: TrackedSession,
    b: TrackedSession,
    ks: Seq<KindView>,
    s: Session,
)
    requires
        advanced(policy, d0, d1, a, b, ks),
        settled(a, s),
    ensures
        settled(b, s),
{
    if a.session.state@ is Running {
        let evs = choose|evs: Seq<DriverEvent>|
            #[trigger] drained(
                policy,
                StateView::Running,
                opt_view(a.session.last_log_line),
                a.session.resume_count,
                evs,
            ) == (b.session.state@, opt_view(b.session.last_log_line));
        lemma_drained_settled(
            policy,
            StateView::Running,
            opt_view(a.session.last_log_line),
            a.session.resume_count,
            evs,
        );
    }
}

/// A turn leaves the mock queue without events for `x` when it had
/// none, or when the turn polled `x`.
proof fn lemma_turn_keyless(
    policy: RecoveryPolicy,
    d0: MockDriver,
    d1: MockDriver,
    a: TrackedSession,
    b: TrackedSession,
    ks: Seq<KindView>,
    x: Seq<char>,
)
    requires
        advanced(policy, d0, d1, a, b, ks),
        no_key(d0.queue(), x) || (a.session.state@ is Running && handle_id(a) == x),
    ensures
        no_key(d1.queue(), x),
{
    if a.session.state@ is Running {
        lemma_except_removes(d0.queue(), x, handle_id(a));
    }
}

/// A running session with nothing scripted stays running through its
/// turn, with the same handle.
proof fn lemma_turn_idle(
    policy: RecoveryPolicy,
    d0: MockDriver,
    d1: MockDriver,
    a: TrackedSession,
    b: TrackedSession,
    ks: Seq<KindView>,
)
    requires
        advanced(policy, d0, d1, a, b, ks),
        a.session.state@ is Running,
        no_key(d0.queue(), handle_id(a)),
    ensures
        b.session.state@ == StateView::Running,
        b.handle == a.handle,
        b.session.id == a.session.id,
{
    lemma_absent_key(d0.queue(), handle_id(a));
    let v = choose|v: Vec<DriverEvent>|
        #[trigger] d0.poll_answer(d1, handle_id(a), Ok(v)) && drained(
            policy,
            StateView::Running,
            opt_view(a.session.last_log_line),
            a.session.resume_count,
            v@,
        ) == (b.session.state@, opt_view(b.session.last_log_line)) && ks == drained_kinds(
            policy,
            StateView::Running,
            a.session.resume_count,
            v@,
        );
    assert(v@ =~= Seq::<DriverEvent>::empty());
}

/// Over the turns `p..j` of a step, a mock queue without events for `x`
/// stays without them.
proof fn lemma_trace_keyless(
    policy: RecoveryPolicy,
    a: Seq<TrackedSession>,
    b: Seq<TrackedSession>,
    ds: Seq<MockDriver>,
    kss: Seq<Seq<KindView>>,
    x: Seq<char>,
    p: int,
    j: int,
)
    requires
        step_trace(policy, a, b, ds, kss),
        0 <= p <= j <= a.len(),
        no_key(ds[p].queue(), x),
    ensures
        no_key(ds[j].queue(), x),
    decreases j - p,
{
    if j > p {
        lemma_trace_keyless(policy, a, b, ds, kss, x, p, j - 1);
        assert(advanced(policy, ds[j - 1], ds[j - 1 + 1], a[j - 1], b[j - 1], kss[j - 1]));
        lemma_turn_keyless(policy, ds[j - 1], ds[j], a[j - 1], b[j - 1], kss[j - 1], x);
    }
}

/// Over the turns `0..j` of a step of queued sessions, the driver is
/// left as it was.
proof fn lemma_trace_unchanged(
    policy: RecoveryPolicy,
    a: Seq<TrackedSession>,
    b: Seq<TrackedSession>,
    ds: Seq<MockDriver>,
    kss: Seq<Seq<KindView>>,
    j: int,
)
    requires
        step_trace(policy, a, b, ds, kss),
        0 <= j <= a.len(),
        forall|k: int| 0 <= k < a.len() ==> (#[trigger] a[k]).session.state@ == StateView::Queued,
    ensures
        ds[j] == ds[0],
    decreases j,
{
    if j > 0 {
        lemma_trace_unchanged(policy, a, b, ds, kss, j - 1);
        assert(advanced(policy, ds[j - 1], ds[j - 1 + 1], a[j - 1], b[j - 1], kss[j - 1]));
        assert(a[j - 1].session.state@ == StateView::Queued);
    }
}

/// Over the turns `0..j` of a step in which every session runs with a
/// handle for its own distinct id and the queue is the dry-run script,
/// each session drains its one `Done` and completes.
proof fn lemma_trace_completes(
    policy: RecoveryPolicy,
    a: Seq<TrackedSession>,
    b: Seq<TrackedSession>,
    ds: Seq<MockDriver>,
    kss: Seq<Seq<KindView>>,
    ss: Seq<Session>,
    j: int,
)
    requires
        step_trace(policy, a, b, ds, kss),
        a.len() == ss.len(),
        0 <= j <= a.len(),
        distinct_ids(ss),
        ds[0].queue() == script_queue(ss),
        forall|k: int|
            0 <= k < a.len() ==> (#[trigger] a[k]).session.state@ == StateView::Running && settled(
                a[k],
                ss[k],
            ),
    ensures
        ds[j].queue() == script_queue(ss).skip(j),
        forall|k: int|
            0 <= k < j ==> (#[trigger] b[k]).session.state@ == StateView::Done && b[k].session.id
                == ss[k].id && kss[k] == seq![KindView::Terminal(TerminalOutcome::Done)],
    decreases j,
{
    if j == 0 {
        assert(script_queue(ss).skip(0) =~= script_queue(ss));
    } else {
        let k = j - 1;
        lemma_trace_completes(policy, a, b, ds, kss, ss, k);
        let q = script_queue(ss).skip(k);
        assert forall|i: int, m: int| 0 <= i < m < q.len() implies (#[trigger] q[i]).0 != (
        #[trigger] q[m]).0 by {
            assert(ss[k + i].id.0@ != ss[k + m].id.0@);
        }
        lemma_head_key(q);
        assert(q[0].0 == ss[k].id.0@);
        assert(handle_id(a[k]) == ss[k].id.0@);
        assert(advanced(policy, ds[k], ds[k + 1], a[k], b[k], kss[k]));
        let v = choose|v: Vec<DriverEvent>|
            #[trigger] ds[k].poll_answer(ds[k + 1], handle_id(a[k]), Ok(v)) && drained(
                policy,
                StateView::Running,
                opt_view(a[k].session.last_log_line),
                a[k].session.resume_count,
                v@,
            ) == (b[k].session.state@, opt_view(b[k].session.last_log_line)) && kss[k]
                == drained_kinds(policy, StateView::Running, a[k].session.resume_count, v@);
        assert(v@ == seq![DriverEvent::Done]);
        assert(v@.drop_first() =~= Seq::<DriverEvent>::empty());
        assert(q.drop_first() =~= script_queue(ss).skip(j));
        assert(kss[k] =~= seq![KindView::Terminal(TerminalOutcome::Done)]);
    }
}

/// A run of single appends of one kind: `c` is `b` followed by one event
/// of that kind per id, in order.
proof fn lemma_each_single(
    b: Seq<SupervisorEvent>,
    c: Seq<SupervisorEvent>,
    ids: Seq<Seq<char>>,
    kss: Seq<Seq<KindView>>,
    kind: KindView,
)
    requires
        appended_each(b, c, ids, kss),
        forall|k: int| 0 <= k < kss.len() ==> #[trigger] kss[k] == seq![kind],
    ensures
        c.len() == b.len() + kss.len(),
        ids.len() == kss.len(),
        c.take(b.len() as int) == b,
        forall|k: int|
            0 <= k < kss.len() ==> (#[trigger] c[b.len() + k]).kind@ == kind && about(
                c[b.len() + k],
                ids[k],
            ),
    decreases kss.len(),
{
    if kss.len() == 0 {
        assert(c.take(b.len() as int) =~= b);
    } else {
        let n = kss.len() - 1;
        assert(kss.last() == kss[n]);
        let mid = c.take(c.len() - 1);
        assert(kss.drop_last().len() == n);
        assert forall|k: int| 0 <= k < n implies #[trigger] kss.drop_last()[k] == seq![kind] by {
            assert(kss.drop_last()[k] == kss[k]);
        }
        lemma_each_single(b, mid, ids.drop_last(), kss.drop_last(), kind);
        assert(c.skip(mid.len() as int)[0] == c[mid.len() as int]);
        assert(crate::event::kinds_of(c.skip(mid.len() as int))[0] == c.skip(mid.len() as int)[0].kind@);
        assert(c.take(b.len() as int) =~= mid.take(b.len() as int));
        assert forall|k: int| 0 <= k < kss.len() implies (#[trigger] c[b.len() + k]).kind@ == kind
            && about(c[b.len() + k], ids[k]) by {
            if k < n {
                assert(c[b.len() + k] == mid[b.len() + k]);
                assert(ids.drop_last()[k] == ids[k]);
            } else {
                assert(b.len() + k == mid.len());
            }
        }
    }
}

/// Why a dry run failed.
#[derive(Debug)]
pub enum DryRunError {
    /// Some session was still live after the step cap.
    NotDone(u32),
    /// A supervisor step failed.
    Step(SupervisorError),
}

/// A dry run: the sessions are enrolled under the mock driver, each is
/// scripted to finish, and the supervisor is stepped until every session
/// is terminal, at most `max_steps` times. On success the recorded
/// events come back, the enrolment's `Queued` events first.
///
/// New (queued) sessions with distinct ids complete in two steps: each
/// is started, then drains its `Done`. Two sessions with one id share
/// the script, so one of them never completes and the run ends with
/// `NotDone`.
pub fn dry_run(sessions: Vec<Session>, max_steps: u32) -> (r: Result<Vec<SupervisorEvent>, DryRunError>)
    ensures
        r matches Ok(evs) ==> evs@.len() >= sessions@.len() && forall|k: int|
            0 <= k < sessions@.len() ==> (#[trigger] evs@[k]).kind@ == KindView::Queued && about(
                evs@[k],
                sessions@[k].id.0@,
            ),
        r matches Err(DryRunError::NotDone(n)) ==> n == max_steps,
        all_queued(sessions@) ==> if sessions@.len() == 0 {
            r matches Ok(evs) && evs@.len() == 0
        } else if max_steps >= 2 && distinct_ids(sessions@) {
            r matches Ok(evs) && completed_run(evs@, sessions@)
        } else {
            r matches Err(DryRunError::NotDone(n)) && n == max_steps
        },
{
    let ghost ss = sessions@;
    let ghost n = ss.len() as int;
    let ghost fresh = all_queued(ss);
    let ghost distinct = distinct_ids(ss);
    let mut sup = Supervisor::with_policy(MockDriver::new(), RecoveryPolicy::default());
    let ghost mut i: int = 0;
    for s in it: sessions
        invariant
            it.seq() == ss,
            i == it.index(),
            sup.log().len() == i,
            sup.driver_view().queue() == Seq::<(Seq<char>, DriverEvent)>::empty(),
            sup.entries().len() == i,
            forall|k: int|
                0 <= k < i ==> (#[trigger] sup.entries()[k]) == (TrackedSession {
                    session: ss[k],
                    handle: None,
                }),
            forall|k: int|
                0 <= k < i ==> (#[trigger] sup.log()[k]).kind@ == KindView::Queued && about(
                    sup.log()[k],
                    ss[k].id.0@,
                ),
    {
        let ghost before = sup.log();
        let ghost sid = s.id.0@;
        sup.enroll(s);
        proof {
            let l = sup.log();
            assert(l.skip(i as int)[0] == l[i as int]);
            assert(crate::event::kinds_of(l.skip(i as int))[0] == l.skip(i as int)[0].kind@);
            assert(about(l.skip(i as int)[0], sid));
            assert forall|k: int| 0 <= k < i implies #[trigger] l[k] == before[k] by {
                assert(l.take(i as int)[k] == l[k]);
            }
            i = i + 1;
        }
    }
    let snap = sup.snapshot();
    let mut k: usize = 0;
    while k < snap.len()
        invariant
            n == ss.len(),
            k <= snap@.len(),
            snap@.len() == n,
            sup.entries().len() == n,
            forall|m: int| 0 <= m < n ==> (#[trigger] snap@[m]).0 == sup.entries()[m].session.id,
            forall|m: int|
                0 <= m < n ==> (#[trigger] sup.entries()[m]) == (TrackedSession {
                    session: ss[m],
                    handle: None,
                }),
            sup.log().len() == n,
            forall|m: int|
                0 <= m < n ==> (#[trigger] sup.log()[m]).kind@ == KindView::Queued && about(
                    sup.log()[m],
                    ss[m].id.0@,
                ),
            sup.driver_view().queue() == script_queue(ss).take(k as int),
        decreases snap.len() - k,
    {
        sup.script(&snap[k].0, DriverEvent::Done);
        proof {
            assert(snap@[k as int].0 == ss[k as int].id);
            assert(script_queue(ss).take(k as int).push((ss[k as int].id.0@, DriverEvent::Done))
                =~= script_queue(ss).take(k + 1));
        }
        k = k + 1;
    }
    proof {
        assert(script_queue(ss).take(n) =~= script_queue(ss));
    }
    let mut steps: u32 = 0;
    while !sup.is_done()
        invariant
            n == ss.len(),
            ss == sessions@,
            steps <= max_steps,
            sup.log().len() >= n,
            sup.entries().len() == n,
            forall|m: int|
                0 <= m < n ==> (#[trigger] sup.log()[m]).kind@ == KindView::Queued && about(
                    sup.log()[m],
                    ss[m].id.0@,
                ),
            fresh == all_queued(ss),
            distinct == distinct_ids(ss),
            fresh && steps == 0 ==> sup.driver_view().queue() == script_queue(ss) && sup.log().len()
                == n && forall|m: int|
                0 <= m < n ==> (#[trigger] sup.entries()[m]) == (TrackedSession {
                    session: ss[m],
                    handle: None,
                }),
            fresh && steps == 1 ==> sup.driver_view().queue() == script_queue(ss) && sup.log().len()
                == 2 * n && (forall|m: int|
                0 <= m < n ==> (#[trigger] sup.entries()[m]).session.state@ == StateView::Running
                    && settled(sup.entries()[m], ss[m])) && forall|m: int|
                0 <= m < n ==> sup.log()[n + m].kind@ == KindView::Started && about(
                    sup.log()[n + m],
                    (#[trigger] ss[m]).id.0@,
                ),
            fresh && steps >= 2 && distinct ==> steps == 2 && completed_run(sup.log(), ss) && forall|
                m: int,
            | 0 <= m < n ==> (#[trigger] sup.entries()[m]).session.state@.terminal(),
            fresh && steps >= 2 && !distinct ==> (forall|m: int|
                0 <= m < n ==> settled(#[trigger] sup.entries()[m], ss[m])) && exists|q: int|
                0 <= q < n && (#[trigger] sup.entries()[q]).session.state@ == StateView::Running
                    && no_key(sup.driver_view().queue(), handle_id(sup.entries()[q])),
        decreases max_steps - steps,
    {
        if steps >= max_steps {
            proof {
                if fresh {
                    let w = choose|w: int|
                        0 <= w < sup.entries().len() && !(#[trigger] sup.entries()[w]).session.state@.terminal();
                    if steps >= 2 && distinct {
                        assert(sup.entries()[w].session.state@.terminal());
                    }
                }
            }
            return Err(DryRunError::NotDone(max_steps));
        }
        let ghost before = sup.log();
        let ghost a = sup.entries();
        let ghost d0 = sup.driver_view();
        let ghost policy = sup.policy_view();
        match sup.step() {
            Ok(()) => {},
            Err(e) => {
                proof {
                    if fresh {
                        let (kk, d) = choose|kk: int, d: MockDriver|
                            0 <= kk < a.len() && #[trigger] crate::supervisor::fails_at(d, a[kk], e);
                        if steps == 0 {
                            assert(a[kk] == (TrackedSession { session: ss[kk], handle: None }));
                            assert(ss[kk].state@ == StateView::Queued);
                        } else if steps == 1 {
                            assert(settled(a[kk], ss[kk]));
                        } else if distinct {
                            assert(a[kk].session.state@.terminal());
                        } else {
                            assert(settled(a[kk], ss[kk]));
                        }
                    }
                }
                return Err(DryRunError::Step(e));
            },
        }
        proof {
            let b = sup.entries();
            let (ds, kss) = choose|ds: Seq<MockDriver>, kss: Seq<Seq<KindView>>|
                #[trigger] step_trace(policy, a, b, ds, kss) && ds[0] == d0 && ds.last()
                    == sup.driver_view() && appended_each(before, sup.log(), crate::supervisor::session_ids(a), kss);
            assert(ds.last() == ds[n]);
            assert forall|m: int| 0 <= m < ss.len() implies #[trigger] sup.log()[m] == before[m] by {
                assert(sup.log().take(before.len() as int)[m] == sup.log()[m]);
            }
            assert forall|m: int| 0 <= m < n implies (#[trigger] crate::supervisor::session_ids(a)[m])
                == a[m].session.id.0@ by {}
            if fresh {
                if steps == 0 {
                    assert forall|m: int| 0 <= m < n implies (#[trigger] a[m]).session.state@
                        == StateView::Queued by {
                        assert(a[m] == (TrackedSession { session: ss[m], handle: None }));
                    }
                    lemma_trace_unchanged(policy, a, b, ds, kss, n);
                    assert forall|m: int| 0 <= m < n implies (#[trigger] b[m]).session.state@
                        == StateView::Running && settled(b[m], ss[m]) && kss[m] == seq![
                        KindView::Started,
                    ] by {
                        assert(advanced(policy, ds[m], ds[m + 1], a[m], b[m], kss[m]));
                        assert(a[m] == (TrackedSession { session: ss[m], handle: None }));
                    }
                    lemma_each_single(
                        before,
                        sup.log(),
                        crate::supervisor::session_ids(a),
                        kss,
                        KindView::Started,
                    );
                    assert forall|m: int| 0 <= m < n implies sup.log()[n + m].kind@
                        == KindView::Started && about(sup.log()[n + m], (#[trigger] ss[m]).id.0@) by {
                        assert(crate::supervisor::session_ids(a)[m] == a[m].session.id.0@);
                        assert(a[m] == (TrackedSession { session: ss[m], handle: None }));
                    }
                } else if steps == 1 {
                    if distinct {
                        lemma_trace_completes(policy, a, b, ds, kss, ss, n);
                        lemma_each_single(
                            before,
                            sup.log(),
                            crate::supervisor::session_ids(a),
                            kss,
                            KindView::Terminal(TerminalOutcome::Done),
                        );
                        assert forall|m: int| 0 <= m < n implies sup.log()[2 * n + m].kind@
                            == KindView::Terminal(TerminalOutcome::Done) && about(
                            sup.log()[2 * n + m],
                            (#[trigger] ss[m]).id.0@,
                        ) by {
                            assert(crate::supervisor::session_ids(a)[m] == a[m].session.id.0@);
                            assert(settled(a[m], ss[m]));
                            assert(before.len() + m == 2 * n + m);
                        }
                        assert forall|m: int| 0 <= m < n implies sup.log()[n + m].kind@
                            == KindView::Started && about(sup.log()[n + m], (#[trigger] ss[m]).id.0@) by {
                            assert(sup.log()[n + m] == before[n + m]);
                        }
                        assert forall|m: int| 0 <= m < n implies (#[trigger] b[m]).session.state@.terminal() by {
                            assert(b[m].session.state@ == StateView::Done);
                        }
                    } else {
                        let (p, q) = choose|p: int, q: int|
                            0 <= p < q < n && (#[trigger] ss[p]).id.0@ == (#[trigger] ss[q]).id.0@;
                        let x = ss[q].id.0@;
                        assert(settled(a[p], ss[p]));
                        assert(settled(a[q], ss[q]));
                        assert(a[p].session.state@ == StateView::Running);
                        assert(a[q].session.state@ == StateView::Running);
                        assert(handle_id(a[p]) == x);
                        assert(handle_id(a[q]) == x);
                        assert(advanced(policy, ds[p], ds[p + 1], a[p], b[p], kss[p]));
                        lemma_turn_keyless(policy, ds[p], ds[p + 1], a[p], b[p], kss[p], x);
                        lemma_trace_keyless(policy, a, b, ds, kss, x, p + 1, q);
                        assert(advanced(policy, ds[q], ds[q + 1], a[q], b[q], kss[q]));
                        lemma_turn_idle(policy, ds[q], ds[q + 1], a[q], b[q], kss[q]);
                        lemma_turn_keyless(policy, ds[q], ds[q + 1], a[q], b[q], kss[q], x);
                        lemma_trace_keyless(policy, a, b, ds, kss, x, q + 1, n);
                        assert(handle_id(b[q]) == x);
                        assert forall|m: int| 0 <= m < n implies settled(#[trigger] b[m], ss[m]) by {
                            assert(advanced(policy, ds[m], ds[m + 1], a[m], b[m], kss[m]));
                            lemma_turn_settled(policy, ds[m], ds[m + 1], a[m], b[m], kss[m], ss[m]);
                        }
                        assert(b[q].session.state@ == StateView::Running);
                    }
                } else if !distinct {
                    let q = choose|q: int|
                        0 <= q < n && (#[trigger] a[q]).session.state@ == StateView::Running && no_key(
                            d0.queue(),
                            handle_id(a[q]),
                        );
                    let x = handle_id(a[q]);
                    lemma_trace_keyless(policy, a, b, ds, kss, x, 0, q);
                    assert(advanced(policy, ds[q], ds[q + 1], a[q], b[q], kss[q]));
                    lemma_turn_idle(policy, ds[q], ds[q + 1], a[q], b[q], kss[q]);
                    lemma_turn_keyless(policy, ds[q], ds[q + 1], a[q], b[q], kss[q], x);
                    lemma_trace_keyless(policy, a, b, ds, kss, x, q + 1, n);
                    assert(handle_id(b[q]) == x);
                    assert forall|m: int| 0 <= m < n implies settled(#[trigger] b[m], ss[m]) by {
                        assert(advanced(policy, ds[m], ds[m + 1], a[m], b[m], kss[m]));
                        lemma_turn_settled(policy, ds[m], ds[m + 1], a[m], b[m], kss[m], ss[m]);
                    }
                    assert(b[q].session.state@ == StateView::Running);
                }
            }
        }
        steps = steps + 1;
    }
    proof {
        if fresh && n > 0 {
            if steps == 0 {
                assert(sup.entries()[0] == (TrackedSession { session: ss[0], handle: None }));
                assert(ss[0].state@ == StateView::Queued);
            } else if steps == 1 {
                assert(sup.entries()[0].session.state@ == StateView::Running);
            } else if !distinct {
                let q = choose|q: int|
                    0 <= q < n && (#[trigger] sup.entries()[q]).session.state@ == StateView::Running
                        && no_key(sup.driver_view().queue(), handle_id(sup.entries()[q]));
                assert(sup.entries()[q].session.state@.terminal());
            }
        }
    }
    Ok(sup.drain_events())
}

} // verus!
