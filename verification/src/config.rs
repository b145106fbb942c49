//! The conductor's hosts configuration: declared targets and routing
//! rules.
//!
//! Rules are tried in declaration order and the first whose glob matches
//! a session's agent id picks its host; when none matches, the default
//! host is used. `local` is always declared implicitly; a `[[host]]`
//! entry may shadow it only when it says `local = true`.

use vstd::prelude::*;

use crate::glob::{glob_match, glob_parse, glob_set_builds, glob_set_check, glob_set_is_match, glob_valid};
use crate::host::{
    has_ws, injectable, user_ok, Host, HostError, HostErrorKind, SshTarget,
};
use crate::newtype::{has_parent_component, path_is_absolute};
use crate::intent::clone_strings;
use crate::text::{
    chars_of, lemma_lex_irreflexive, lemma_lex_total, lemma_lex_transitive, lex_lt, str_eq, str_lt,
    string_views,
};

verus! {

/// One `[[host]]` entry as written in the file.
#[derive(Debug, Clone)]
pub struct RawHost {
    /// Name rules and `default` refer to.
    pub name: String,
    /// When `true`, the entry is the local machine.
    pub local: bool,
    /// SSH hostname (required unless `local`).
    pub host: Option<String>,
    /// SSH user.
    pub user: Option<String>,
    /// SSH port.
    pub port: Option<u16>,
    /// Identity file.
    pub identity_file: Option<String>,
    /// Remote working directory (required unless `local`).
    pub remote_workdir: Option<String>,
    /// Pass-through SSH options.
    pub ssh_options: Vec<String>,
    /// ControlMaster socket path.
    pub control_socket: Option<String>,
}

/// One `[[rule]]` entry as written in the file.
#[derive(Debug, Clone)]
pub struct RawRule {
    /// Glob matched against agent ids.
    pub pattern: String,
    /// Target host name.
    pub host: String,
}

/// The whole file, before validation.
#[derive(Debug, Clone)]
pub struct RawConfig {
    /// Default host name (`local` when the file does not say).
    pub default: String,
    /// `[[host]]` entries in file order.
    pub hosts: Vec<RawHost>,
    /// `[[rule]]` entries in file order.
    pub rules: Vec<RawRule>,
}

/// One routing rule whose glob compiled.
#[derive(Debug, Clone)]
#[non_exhaustive]
pub struct CompiledRule {
    /// Glob source.
    pub pattern: String,
    /// Target host name.
    pub host_name: String,
}

/// Loaded and validated hosts configuration.
#[derive(Debug)]
#[non_exhaustive]
pub struct HostsConfig {
    /// Name and host of every declared host; names are distinct and
    /// `local` is always among them.
    pub hosts: Vec<(String, Host)>,
    /// Name of the default host.
    pub default: String,
    /// Routing rules in declaration order.
    pub rules: Vec<CompiledRule>,
}

/// Errors from validating a configuration (and, for the first two, from
/// reading and parsing it).
#[derive(Debug)]
#[non_exhaustive]
pub enum ConfigError {
    /// The file could not be read.
    Io {
        /// Path attempted.
        path: String,
        /// What the system reported.
        message: String,
    },
    /// The file is not valid TOML for this schema.
    Toml(String),
    /// Empty `name` on a `[[host]]` entry.
    EmptyName,
    /// Two `[[host]]` entries declare the same name, or one redeclares
    /// `local` without `local = true`.
    DuplicateHost(String),
    /// Required field missing on a `[[host]]` entry.
    MissingField {
        /// Host name.
        host: String,
        /// Field name.
        field: &'static str,
    },
    /// The SSH target of a `[[host]]` entry is malformed.
    Ssh {
        /// Host name.
        host: String,
        /// Underlying validator error.
        source: HostError,
    },
    /// `default` names a host that is not declared.
    UnknownDefault(String),
    /// A `[[rule]]` names a host that is not declared.
    UnknownRuleHost {
        /// Glob pattern.
        pattern: String,
        /// Bad host name.
        host: String,
    },
    /// A `[[rule]] match` is not a valid glob.
    Glob {
        /// Glob pattern source.
        pattern: String,
        /// What `globset` reported.
        source: globset::Error,
    },
}

/// What a validation error says, with its texts as characters.
pub enum ConfigFault {
    /// Empty host name.
    EmptyName,
    /// Duplicate host name.
    DuplicateHost(Seq<char>),
    /// Missing field: host name, field name.
    MissingField(Seq<char>, Seq<char>),
    /// Malformed SSH target: host name, rule broken.
    Ssh(Seq<char>, HostErrorKind),
    /// Undeclared default.
    UnknownDefault(Seq<char>),
    /// Undeclared rule host: pattern, host.
    UnknownRuleHost(Seq<char>, Seq<char>),
    /// Invalid rule glob.
    Glob(Seq<char>),
    /// Reading or parsing failed before validation.
    Unreadable,
}

impl ConfigError {
    /// What the error says.
    pub open spec fn fault(self) -> ConfigFault {
        match self {
            ConfigError::Io { .. } => ConfigFault::Unreadable,
            ConfigError::Toml(_) => ConfigFault::Unreadable,
            ConfigError::EmptyName => ConfigFault::EmptyName,
            ConfigError::DuplicateHost(n) => ConfigFault::DuplicateHost(n@),
            ConfigError::MissingField { host, field } => ConfigFault::MissingField(host@, field@),
            ConfigError::Ssh { host, source } => ConfigFault::Ssh(host@, source.kind()),
            ConfigError::UnknownDefault(d) => ConfigFault::UnknownDefault(d@),
            ConfigError::UnknownRuleHost { pattern, host } => ConfigFault::UnknownRuleHost(
                pattern@,
                host@,
            ),
            ConfigError::Glob { pattern, .. } => ConfigFault::Glob(pattern@),
        }
    }
}

/// The characters of an optional string.
pub open spec fn opt_chars(o: Option<String>) -> Option<Seq<char>> {
    match o {
        Some(s) => Some(s@),
        None => None,
    }
}

/// The rule the SSH target of a non-local entry breaks, checked as the
/// target is built: host and workdir first, then user and options.
pub open spec fn ssh_fault(r: RawHost) -> Option<HostErrorKind> {
    let h = r.host->0@;
    let w = r.remote_workdir->0@;
    if h.len() == 0 {
        Some(HostErrorKind::EmptyHost)
    } else if has_ws(h) {
        Some(HostErrorKind::InvalidHost)
    } else if !path_is_absolute(w) {
        Some(HostErrorKind::WorkdirNotAbsolute)
    } else if has_parent_component(w) {
        Some(HostErrorKind::WorkdirParentTraversal)
    } else if r.user matches Some(u) && !user_ok(u@) {
        Some(HostErrorKind::InvalidUser)
    } else if exists|i: int| 0 <= i < r.ssh_options.len() && injectable(#[trigger] r.ssh_options[i]@) {
        Some(HostErrorKind::InjectableSshOption)
    } else {
        None
    }
}

/// What is wrong with the fields of one entry, apart from its name.
pub open spec fn entry_fault(r: RawHost) -> Option<ConfigFault> {
    if r.local {
        None
    } else if r.host is None {
        Some(ConfigFault::MissingField(r.name@, "host"@))
    } else if r.remote_workdir is None {
        Some(ConfigFault::MissingField(r.name@, "remote_workdir"@))
    } else if ssh_fault(r) is Some {
        Some(ConfigFault::Ssh(r.name@, ssh_fault(r)->0))
    } else {
        None
    }
}

/// `local` and the names of `raw`, in order.
pub open spec fn declared(raw: Seq<RawHost>) -> Seq<Seq<char>> {
    seq!["local"@] + raw.map_values(|h: RawHost| h.name@)
}

/// What is wrong with entry `r`, given the names declared before it.
pub open spec fn host_fault(prev: Seq<Seq<char>>, r: RawHost) -> Option<ConfigFault> {
    if r.name@.len() == 0 {
        Some(ConfigFault::EmptyName)
    } else if prev.contains(r.name@) && !(r.name@ == "local"@ && r.local) {
        Some(ConfigFault::DuplicateHost(r.name@))
    } else {
        entry_fault(r)
    }
}

/// The first fault among the `[[host]]` entries, in file order.
pub open spec fn hosts_fault(raw: Seq<RawHost>) -> Option<ConfigFault>
    decreases raw.len(),
{
    if raw.len() == 0 {
        None
    } else {
        match hosts_fault(raw.drop_last()) {
            Some(f) => Some(f),
            None => host_fault(declared(raw.drop_last()), raw.last()),
        }
    }
}

/// The first fault among the `[[rule]]` entries, given the declared
/// host names.
pub open spec fn rules_fault(names: Seq<Seq<char>>, rules: Seq<RawRule>) -> Option<ConfigFault>
    decreases rules.len(),
{
    if rules.len() == 0 {
        None
    } else {
        match rules_fault(names, rules.drop_last()) {
            Some(f) => Some(f),
            None => {
                let r = rules.last();
                if !names.contains(r.host@) {
                    Some(ConfigFault::UnknownRuleHost(r.pattern@, r.host@))
                } else if !rule_glob_ok(r.pattern@) {
                    Some(ConfigFault::Glob(r.pattern@))
                } else {
                    None
                }
            },
        }
    }
}

/// The entries that declare a host of their own: all but those that
/// shadow `local`.
pub open spec fn kept(raw: Seq<RawHost>) -> Seq<RawHost>
    decreases raw.len(),
{
    if raw.len() == 0 {
        Seq::empty()
    } else if raw.last().name@ == "local"@ {
        kept(raw.drop_last())
    } else {
        kept(raw.drop_last()).push(raw.last())
    }
}

/// `h` is the host entry `r` declares.
pub open spec fn built(r: RawHost, h: Host) -> bool {
    if r.local {
        h == Host::Local
    } else {
        h matches Host::Ssh(t) && t.host@ == r.host->0@ && t.remote_workdir@
            == r.remote_workdir->0@ && opt_chars(t.user) == opt_chars(r.user) && t.port == r.port
            && opt_chars(t.identity_file) == opt_chars(r.identity_file) && string_views(
            t.ssh_options@,
        ) == string_views(r.ssh_options@) && opt_chars(t.control_socket) == opt_chars(
            r.control_socket,
        )
    }
}

/// The names of host entries, in order.
pub open spec fn names_of(hosts: Seq<(String, Host)>) -> Seq<Seq<char>> {
    hosts.map_values(|e: (String, Host)| e.0@)
}

/// `hosts` holds `local` first, then one entry per kept `[[host]]`.
pub open spec fn laid_out(hosts: Seq<(String, Host)>, raw: Seq<RawHost>) -> bool {
    &&& hosts.len() == 1 + kept(raw).len()
    &&& hosts[0].0@ == "local"@
    &&& hosts[0].1 == Host::Local
    &&& forall|k: int|
        0 <= k < kept(raw).len() ==> #[trigger] hosts[k + 1].0@ == kept(raw)[k].name@ && built(
            kept(raw)[k],
            hosts[k + 1].1,
        )
}

/// No two entries share a name.
pub open spec fn distinct_names(hosts: Seq<(String, Host)>) -> bool {
    forall|i: int, j: int| 0 <= i < j < hosts.len() ==> #[trigger] hosts[i].0@ != #[trigger] hosts[j].0@
}

impl RawConfig {
    /// The first fault of the file, checked in order: host entries, then
    /// the default, then the rules.
    pub open spec fn fault(self) -> Option<ConfigFault> {
        match hosts_fault(self.hosts@) {
            Some(f) => Some(f),
            None => if !declared(self.hosts@).contains(self.default@) {
                Some(ConfigFault::UnknownDefault(self.default@))
            } else {
                rules_fault(declared(self.hosts@), self.rules@)
            },
        }
    }
}

impl HostsConfig {
    /// Names are distinct, `local` is declared, and the default and every
    /// rule's host are declared, every rule glob valid.
    pub open spec fn wf(self) -> bool {
        &&& distinct_names(self.hosts@)
        &&& names_of(self.hosts@).contains("local"@)
        &&& names_of(self.hosts@).contains(self.default@)
        &&& forall|j: int|
            0 <= j < self.rules@.len() ==> names_of(self.hosts@).contains(
                #[trigger] self.rules@[j].host_name@,
            ) && rule_glob_ok(self.rules@[j].pattern@)
    }

    /// The configuration validated from `raw`: its hosts, default and
    /// rules.
    pub open spec fn built_from(self, raw: RawConfig) -> bool {
        &&& laid_out(self.hosts@, raw.hosts@)
        &&& self.default@ == raw.default@
        &&& self.rules@.len() == raw.rules@.len()
        &&& forall|j: int|
            0 <= j < raw.rules@.len() ==> #[trigger] self.rules@[j].pattern@ == raw.rules@[j].pattern@
                && self.rules@[j].host_name@ == raw.rules@[j].host@
    }
}

/// A copy of an optional string.
fn clone_opt(o: &Option<String>) -> (r: Option<String>)
    ensures
        r == *o,
{
    match o {
        Some(s) => Some(s.clone()),
        None => None,
    }
}

/// Whether some entry of `hosts` has the name `name`.
fn names_contain(hosts: &Vec<(String, Host)>, name: &str) -> (r: bool)
    ensures
        r == names_of(hosts@).contains(name@),
{
    let mut i: usize = 0;
    while i < hosts.len()
        invariant
            i <= hosts@.len(),
            forall|j: int| 0 <= j < i ==> (#[trigger] hosts@[j]).0@ != name@,
        decreases hosts.len() - i,
    {
        if str_eq(hosts[i].0.as_str(), name) {
            assert(names_of(hosts@)[i as int] == name@);
            return true;
        }
        i = i + 1;
    }
    assert forall|k: int| 0 <= k < names_of(hosts@).len() implies names_of(hosts@)[k] != name@ by {
        assert(hosts@[k].0@ != name@);
    }
    false
}

/// Build the host one `[[host]]` entry declares: the local machine, or
/// an SSH target assembled from its fields and validated.
pub fn build_host(raw: &RawHost) -> (r: Result<Host, ConfigError>)
    ensures
        r is Ok <==> entry_fault(*raw) is None,
        r matches Err(e) ==> Some(e.fault()) == entry_fault(*raw),
        r matches Ok(h) ==> built(*raw, h),
{
    if raw.local {
        return Ok(Host::Local);
    }
    let h = match &raw.host {
        Some(h) => h,
        None => {
            return Err(ConfigError::MissingField { host: raw.name.clone(), field: "host" });
        },
    };
    let w = match &raw.remote_workdir {
        Some(w) => w,
        None => {
            return Err(ConfigError::MissingField { host: raw.name.clone(), field: "remote_workdir" });
        },
    };
    let mut t = match SshTarget::new(h.as_str(), w.as_str()) {
        Ok(t) => t,
        Err(source) => {
            return Err(ConfigError::Ssh { host: raw.name.clone(), source });
        },
    };
    t.user = clone_opt(&raw.user);
    t.port = raw.port;
    t.identity_file = clone_opt(&raw.identity_file);
    t.ssh_options = clone_strings(&raw.ssh_options);
    t.control_socket = clone_opt(&raw.control_socket);
    assert(string_views(t.ssh_options@) =~= string_views(raw.ssh_options@));
    assert((exists|i: int| 0 <= i < t.ssh_options.len() && injectable(#[trigger] t.ssh_options[i]@))
        == (exists|i: int| 0 <= i < raw.ssh_options.len() && injectable(#[trigger] raw.ssh_options[i]@)))
        by {
        assert forall|i: int| 0 <= i < t.ssh_options.len() implies t.ssh_options[i]@
            == raw.ssh_options[i]@ by {
            assert(string_views(t.ssh_options@)[i] == string_views(raw.ssh_options@)[i]);
        }
    }
    match t.validate() {
        Ok(()) => Ok(Host::Ssh(t)),
        Err(source) => Err(ConfigError::Ssh { host: raw.name.clone(), source }),
    }
}

impl RawConfig {
    /// Validate every entry and compile the rules: host entries in file
    /// order (non-empty, distinct names, required fields, valid SSH
    /// target), then the default, then each rule (declared host, valid
    /// glob). The first fault is reported.
    #[verifier::spinoff_prover]
    pub fn validate_and_compile(self) -> (r: Result<HostsConfig, ConfigError>)
        ensures
            r is Ok <==> self.fault() is None,
            r matches Err(e) ==> Some(e.fault()) == self.fault(),
            r matches Ok(c) ==> c.wf() && c.built_from(self),
    {
        let ghost all = self.hosts@;
        let mut hosts: Vec<(String, Host)> = Vec::new();
        hosts.push(("local".to_string(), Host::Local));
        proof {
            assert(all.take(0) =~= Seq::<RawHost>::empty());
            assert(declared(all.take(0)) =~= seq!["local"@]);
            assert(names_of(hosts@) =~= seq!["local"@]);
            assert(names_of(hosts@)[0] == "local"@);
        }
        let mut i: usize = 0;
        while i < self.hosts.len()
            invariant
                all == self.hosts@,
                i <= all.len(),
                hosts_fault(all.take(i as int)) is None,
                laid_out(hosts@, all.take(i as int)),
                distinct_names(hosts@),
                names_of(hosts@).contains("local"@),
                forall|n: Seq<char>|
                    #![trigger names_of(hosts@).contains(n)]
                    #![trigger declared(all.take(i as int)).contains(n)]
                    names_of(hosts@).contains(n) <==> declared(all.take(i as int)).contains(n),
            decreases all.len() - i,
        {
            let raw = &self.hosts[i];
            let ghost prev = all.take(i as int);
            let ghost next = all.take(i + 1);
            assert(next.drop_last() =~= prev);
            assert(next.last() == *raw);
            assert(declared(next) =~= declared(prev).push(raw.name@));
            if chars_of(raw.name.as_str()).len() == 0 {
                proof {
                    lemma_hosts_fault_prefix(all, i + 1);
                }
                return Err(ConfigError::EmptyName);
            }
            let is_local_name = str_eq(raw.name.as_str(), "local");
            if names_contain(&hosts, raw.name.as_str()) && !(is_local_name && raw.local) {
                proof {
                    lemma_hosts_fault_prefix(all, i + 1);
                }
                return Err(ConfigError::DuplicateHost(raw.name.clone()));
            }
            let host = match build_host(raw) {
                Ok(h) => h,
                Err(e) => {
                    proof {
                        lemma_hosts_fault_prefix(all, i + 1);
                    }
                    return Err(e);
                },
            };
            let ghost before = hosts@;
            if !is_local_name {
                hosts.push((raw.name.clone(), host));
                assert(names_of(hosts@) =~= names_of(before).push(raw.name@));
                assert(hosts@[0] == before[0]);
                assert(!names_of(before).contains(raw.name@));
                assert forall|x: int, y: int| 0 <= x < y < hosts@.len() implies #[trigger] hosts@[x].0@
                    != #[trigger] hosts@[y].0@ by {
                    if y == before.len() {
                        assert(names_of(before)[x] == before[x].0@);
                    } else {
                        assert(hosts@[x] == before[x] && hosts@[y] == before[y]);
                    }
                }
                assert(kept(next) =~= kept(prev).push(*raw));
                assert forall|k: int| 0 <= k < kept(next).len() implies #[trigger] hosts@[k + 1].0@
                    == kept(next)[k].name@ && built(kept(next)[k], hosts@[k + 1].1) by {
                    if k < kept(prev).len() {
                        assert(hosts@[k + 1] == before[k + 1]);
                        assert(kept(next)[k] == kept(prev)[k]);
                        assert(before[k + 1].0@ == kept(prev)[k].name@);
                    } else {
                        assert(k == kept(prev).len());
                        assert(kept(next)[k] == *raw);
                        assert(hosts@[k + 1] == hosts@[before.len() as int]);
                    }
                }
                assert(names_of(hosts@).contains("local"@)) by {
                    assert(names_of(before).contains("local"@));
                    let w = choose|w: int| 0 <= w < names_of(before).len() && names_of(before)[w] == "local"@;
                    assert(names_of(hosts@)[w] == "local"@);
                }
                assert forall|n: Seq<char>| names_of(hosts@).contains(n) <==> declared(next).contains(n) by {
                    if names_of(before).contains(n) {
                        let w = choose|w: int| 0 <= w < names_of(before).len() && names_of(before)[w] == n;
                        assert(names_of(hosts@)[w] == n);
                    }
                    if declared(prev).contains(n) {
                        let w = choose|w: int| 0 <= w < declared(prev).len() && declared(prev)[w] == n;
                        assert(declared(next)[w] == n);
                    }
                    if n == raw.name@ {
                        assert(names_of(hosts@)[names_of(before).len() as int] == n);
                        assert(declared(next)[declared(prev).len() as int] == n);
                    }
                }
                assert(laid_out(hosts@, next));
            } else {
                assert(kept(next) =~= kept(prev));
                assert(laid_out(hosts@, next));
                assert forall|n: Seq<char>| names_of(hosts@).contains(n) <==> declared(next).contains(n) by {
                    if declared(prev).contains(n) {
                        let w = choose|w: int| 0 <= w < declared(prev).len() && declared(prev)[w] == n;
                        assert(declared(next)[w] == n);
                    }
                    if n == raw.name@ {
                        assert(declared(prev)[0] == n);
                    }
                }
            }
            i = i + 1;
        }
        assert(all.take(i as int) =~= all);
        if !names_contain(&hosts, self.default.as_str()) {
            return Err(ConfigError::UnknownDefault(self.default.clone()));
        }
        let ghost names = declared(all);
        let mut rules: Vec<CompiledRule> = Vec::new();
        let mut j: usize = 0;
        while j < self.rules.len()
            invariant
                names == declared(self.hosts@),
                hosts_fault(self.hosts@) is None,
                names.contains(self.default@),
                j <= self.rules@.len(),
                forall|n: Seq<char>|
                    #![trigger names_of(hosts@).contains(n)]
                    #![trigger names.contains(n)]
                    names_of(hosts@).contains(n) <==> names.contains(n),
                rules_fault(names, self.rules@.take(j as int)) is None,
                rules@.len() == j,
                forall|k: int|
                    0 <= k < j ==> #[trigger] rules@[k].pattern@ == self.rules@[k].pattern@
                        && rules@[k].host_name@ == self.rules@[k].host@ && names.contains(
                        self.rules@[k].host@,
                    ) && rule_glob_ok(self.rules@[k].pattern@),
            decreases self.rules.len() - j,
        {
            let rr = &self.rules[j];
            assert(self.rules@.take(j + 1).drop_last() =~= self.rules@.take(j as int));
            assert(self.rules@.take(j + 1).last() == *rr);
            if !names_contain(&hosts, rr.host.as_str()) {
                proof {
                    lemma_rules_fault_prefix(names, self.rules@, j + 1);
                }
                return Err(
                    ConfigError::UnknownRuleHost { pattern: rr.pattern.clone(), host: rr.host.clone() },
                );
            }
            match glob_parse(rr.pattern.as_str()) {
                Ok(()) => {},
                Err(source) => {
                    proof {
                        lemma_rules_fault_prefix(names, self.rules@, j + 1);
                    }
                    return Err(ConfigError::Glob { pattern: rr.pattern.clone(), source });
                },
            }
            let one = vec![rr.pattern.clone()];
            proof {
                assert(string_views(one@) =~= seq![rr.pattern@]);
            }
            match glob_set_check(one.as_slice()) {
                Ok(()) => {},
                Err(source) => {
                    proof {
                        lemma_rules_fault_prefix(names, self.rules@, j + 1);
                    }
                    return Err(ConfigError::Glob { pattern: rr.pattern.clone(), source });
                },
            }
            rules.push(CompiledRule { pattern: rr.pattern.clone(), host_name: rr.host.clone() });
            j = j + 1;
        }
        assert(self.rules@.take(j as int) =~= self.rules@);
        proof {
            lemma_rules_fault_prefix(names, self.rules@, j as int);
        }
        let ghost input = self;
        let cfg = HostsConfig { hosts, default: self.default, rules };
        assert forall|k: int| 0 <= k < cfg.rules@.len() implies names_of(cfg.hosts@).contains(
            #[trigger] cfg.rules@[k].host_name@,
        ) && rule_glob_ok(cfg.rules@[k].pattern@) by {
            assert(rules@[k].pattern@ == input.rules@[k].pattern@);
            assert(names.contains(input.rules@[k].host@));
        }
        Ok(cfg)
    }
}

/// A fault among the first `k` host entries is the fault of all of them.
pub proof fn lemma_hosts_fault_prefix(s: Seq<RawHost>, k: int)
    requires
        0 <= k <= s.len(),
        hosts_fault(s.take(k)) is Some,
    ensures
        hosts_fault(s) == hosts_fault(s.take(k)),
    decreases s.len() - k,
{
    if k < s.len() {
        assert(s.take(k + 1).drop_last() =~= s.take(k));
        lemma_hosts_fault_prefix(s, k + 1);
    } else {
        assert(s.take(k) =~= s);
    }
}

/// A fault among the first `k` rules is the fault of all of them.
pub proof fn lemma_rules_fault_prefix(names: Seq<Seq<char>>, s: Seq<RawRule>, k: int)
    requires
        0 <= k <= s.len(),
        rules_fault(names, s.take(k)) is Some || k == s.len(),
    ensures
        rules_fault(names, s) == rules_fault(names, s.take(k)),
    decreases s.len() - k,
{
    if k < s.len() {
        assert(s.take(k + 1).drop_last() =~= s.take(k));
        lemma_rules_fault_prefix(names, s, k + 1);
    } else {
        assert(s.take(k) =~= s);
    }
}

/// A rule's glob is accepted: `globset` parses it and builds a set of it.
pub open spec fn rule_glob_ok(pattern: Seq<char>) -> bool {
    glob_valid(pattern) && glob_set_builds(seq![pattern])
}

/// Whether a rule's glob matches `agent`.
fn rule_matches(pattern: &String, agent: &str) -> (r: bool)
    requires
        rule_glob_ok(pattern@),
    ensures
        r == glob_match(pattern@, agent@),
{
    let one = vec![pattern.clone()];
    assert(string_views(one@) =~= seq![pattern@]);
    let r = glob_set_is_match(one.as_slice(), agent);
    proof {
        if r {
            let i = choose|i: int| 0 <= i < 1 && glob_match(#[trigger] string_views(one@)[i], agent@);
            assert(i == 0);
        } else {
            assert(string_views(one@)[0] == pattern@);
        }
    }
    r
}

/// The host name routing picks for `agent` among `rules`: the host of
/// the first rule whose glob matches, else `default`.
pub open spec fn route(rules: Seq<CompiledRule>, default: Seq<char>, agent: Seq<char>) -> Seq<char>
    decreases rules.len(),
{
    if rules.len() == 0 {
        default
    } else if glob_match(rules[0].pattern@, agent) {
        rules[0].host_name@
    } else {
        route(rules.drop_first(), default, agent)
    }
}

/// The characters of a sequence of string slices.
pub open spec fn str_views(v: Seq<&str>) -> Seq<Seq<char>> {
    v.map_values(|s: &str| s@)
}

/// Strictly increasing in `str` order.
pub open spec fn strictly_sorted(v: Seq<Seq<char>>) -> bool {
    forall|i: int, j: int| 0 <= i < j < v.len() ==> lex_lt(#[trigger] v[i], #[trigger] v[j])
}

impl HostsConfig {
    /// The configuration used when no file exists: only `local`, which is
    /// also the default, and no rules.
    pub fn local_only() -> (c: Self)
        ensures
            c.wf(),
            c.hosts@.len() == 1,
            c.hosts@[0].0@ == "local"@,
            c.hosts@[0].1 == Host::Local,
            c.default@ == "local"@,
            c.rules@.len() == 0,
    {
        let mut hosts: Vec<(String, Host)> = Vec::new();
        hosts.push(("local".to_string(), Host::Local));
        let c = HostsConfig { hosts, default: "local".to_string(), rules: Vec::new() };
        assert(names_of(c.hosts@)[0] == "local"@);
        c
    }

    /// The host declared under `name`, if any.
    pub fn get(&self, name: &str) -> (r: Option<&Host>)
        ensures
            r is None <==> !names_of(self.hosts@).contains(name@),
            r matches Some(h) ==> exists|k: int|
                0 <= k < self.hosts@.len() && self.hosts@[k].0@ == name@ && *h == #[trigger] self.hosts@[k].1,
    {
        let mut i: usize = 0;
        while i < self.hosts.len()
            invariant
                i <= self.hosts@.len(),
                forall|j: int| 0 <= j < i ==> (#[trigger] self.hosts@[j]).0@ != name@,
            decreases self.hosts.len() - i,
        {
            if str_eq(self.hosts[i].0.as_str(), name) {
                assert(names_of(self.hosts@)[i as int] == name@);
                return Some(&self.hosts[i].1);
            }
            i = i + 1;
        }
        assert forall|k: int| 0 <= k < names_of(self.hosts@).len() implies names_of(self.hosts@)[k]
            != name@ by {
            assert(self.hosts@[k].0@ != name@);
        }
        None
    }

    /// The name of the host a session's agent id routes to: the host of
    /// the first rule whose glob matches, otherwise the default.
    pub fn resolve_name(&self, agent_id: &str) -> (r: &str)
        requires
            self.wf(),
        ensures
            r@ == route(self.rules@, self.default@, agent_id@),
    {
        let mut i: usize = 0;
        assert(self.rules@.skip(0) =~= self.rules@);
        while i < self.rules.len()
            invariant
                self.wf(),
                i <= self.rules@.len(),
                route(self.rules@.skip(i as int), self.default@, agent_id@) == route(
                    self.rules@,
                    self.default@,
                    agent_id@,
                ),
            decreases self.rules.len() - i,
        {
            let rule = &self.rules[i];
            assert(self.rules@.skip(i as int)[0] == *rule);
            assert(names_of(self.hosts@).contains(self.rules@[i as int].host_name@));
            assert(rule_glob_ok(self.rules@[i as int].pattern@));
            if rule_matches(&rule.pattern, agent_id) {
                return rule.host_name.as_str();
            }
            assert(self.rules@.skip(i as int).drop_first() =~= self.rules@.skip(i + 1));
            i = i + 1;
        }
        assert(self.rules@.skip(i as int) =~= Seq::<CompiledRule>::empty());
        self.default.as_str()
    }

    /// Resolve a session's agent id to its host: the first rule whose
    /// glob matches picks the host; otherwise the default host.
    pub fn resolve(&self, agent_id: &str) -> (r: &Host)
        requires
            self.wf(),
        ensures
            exists|k: int|
                0 <= k < self.hosts@.len() && self.hosts@[k].0@ == route(
                    self.rules@,
                    self.default@,
                    agent_id@,
                ) && *r == #[trigger] self.hosts@[k].1,
    {
        let mut i: usize = 0;
        assert(self.rules@.skip(0) =~= self.rules@);
        while i < self.rules.len()
            invariant
                self.wf(),
                i <= self.rules@.len(),
                route(self.rules@.skip(i as int), self.default@, agent_id@) == route(
                    self.rules@,
                    self.default@,
                    agent_id@,
                ),
            decreases self.rules.len() - i,
        {
            let rule = &self.rules[i];
            assert(self.rules@.skip(i as int)[0] == *rule);
            assert(names_of(self.hosts@).contains(self.rules@[i as int].host_name@));
            assert(rule_glob_ok(self.rules@[i as int].pattern@));
            if rule_matches(&rule.pattern, agent_id) {
                let found = self.get(rule.host_name.as_str());
                match found {
                    Some(h) => {
                        return h;
                    },
                    None => {},
                }
            }
            assert(self.rules@.skip(i as int).drop_first() =~= self.rules@.skip(i + 1));
            i = i + 1;
        }
        assert(self.rules@.skip(i as int) =~= Seq::<CompiledRule>::empty());
        match self.get(self.default.as_str()) {
            Some(h) => h,
            None => {
                assert(false);
                &self.hosts[0].1
            },
        }
    }

    /// Every declared host name, sorted.
    pub fn host_names(&self) -> (r: Vec<&str>)
        requires
            distinct_names(self.hosts@),
        ensures
            r@.len() == self.hosts@.len(),
            strictly_sorted(str_views(r@)),
            forall|i: int| 0 <= i < r@.len() ==> names_of(self.hosts@).contains(#[trigger] r@[i]@),
            forall|k: int| 0 <= k < self.hosts@.len() ==> str_views(r@).contains(#[trigger] self.hosts@[k].0@),
    {
        let mut out: Vec<&str> = Vec::new();
        let mut i: usize = 0;
        while i < self.hosts.len()
            invariant
                distinct_names(self.hosts@),
                i <= self.hosts@.len(),
                out@.len() == i,
                strictly_sorted(str_views(out@)),
                forall|x: int| 0 <= x < out@.len() ==> exists|k: int|
                    0 <= k < i && (#[trigger] out@[x])@ == self.hosts@[k].0@,
                forall|k: int| 0 <= k < i ==> str_views(out@).contains(#[trigger] self.hosts@[k].0@),
            decreases self.hosts.len() - i,
        {
            let name = self.hosts[i].0.as_str();
            let mut p: usize = 0;
            while p < out.len() && !str_lt(name, out[p])
                invariant
                    p <= out@.len(),
                    forall|q: int| 0 <= q < p ==> !lex_lt(name@, #[trigger] out@[q]@),
                decreases out.len() - p,
            {
                p = p + 1;
            }
            let ghost before = out@;
            proof {
                assert forall|q: int| 0 <= q < p implies lex_lt(#[trigger] before[q]@, name@) by {
                    let k = choose|k: int| 0 <= k < i && before[q]@ == self.hosts@[k].0@;
                    assert(self.hosts@[k].0@ != self.hosts@[i as int].0@);
                    lemma_lex_total(before[q]@, name@);
                }
                assert forall|q: int| p <= q < before.len() implies lex_lt(name@, #[trigger] before[q]@) by {
                    if q > p {
                        assert(str_views(before)[p as int] == before[p as int]@);
                        assert(str_views(before)[q] == before[q]@);
                        lemma_lex_transitive(name@, before[p as int]@, before[q]@);
                    }
                }
            }
            out.insert(p, name);
            proof {
                assert(out@ == before.insert(p as int, name));
                assert forall|x: int, y: int| 0 <= x < y < out@.len() implies lex_lt(
                    #[trigger] str_views(out@)[x],
                    #[trigger] str_views(out@)[y],
                ) by {
                    if x < p && y < p {
                        assert(str_views(before)[x] == before[x]@);
                        assert(str_views(before)[y] == before[y]@);
                    } else if x < p && y == p {
                    } else if x < p && y > p {
                        assert(str_views(before)[x] == before[x]@);
                        assert(str_views(before)[y - 1] == before[y - 1]@);
                    } else if x == p {
                    } else {
                        assert(str_views(before)[x - 1] == before[x - 1]@);
                        assert(str_views(before)[y - 1] == before[y - 1]@);
                    }
                }
                assert forall|x: int| 0 <= x < out@.len() implies exists|k: int|
                    0 <= k < i + 1 && (#[trigger] out@[x])@ == self.hosts@[k].0@ by {
                    if x < p {
                        assert(out@[x] == before[x]);
                    } else if x == p {
                        assert(out@[x]@ == self.hosts@[i as int].0@);
                    } else {
                        assert(out@[x] == before[x - 1]);
                    }
                }
                assert forall|k: int| 0 <= k < i + 1 implies str_views(out@).contains(
                    #[trigger] self.hosts@[k].0@,
                ) by {
                    if k < i {
                        assert(str_views(before).contains(self.hosts@[k].0@));
                        let w = choose|w: int| 0 <= w < str_views(before).len() && str_views(before)[w]
                            == self.hosts@[k].0@;
                        if w < p {
                            assert(str_views(out@)[w] == str_views(before)[w]);
                        } else {
                            assert(str_views(out@)[w + 1] == str_views(before)[w]);
                        }
                    } else {
                        assert(str_views(out@)[p as int] == self.hosts@[k].0@);
                    }
                }
            }
            i = i + 1;
        }
        assert forall|x: int| 0 <= x < out@.len() implies names_of(self.hosts@).contains(#[trigger] out@[x]@) by {
            let k = choose|k: int| 0 <= k < i && out@[x]@ == self.hosts@[k].0@;
            assert(names_of(self.hosts@)[k] == out@[x]@);
        }
        out
    }
}

/// The first rule whose glob matches decides the host, whatever the
/// rules after it say.
pub proof fn lemma_first_matching_rule_wins(
    rules: Seq<CompiledRule>,
    default: Seq<char>,
    agent: Seq<char>,
    j: int,
)
    requires
        0 <= j < rules.len(),
        glob_match(rules[j].pattern@, agent),
        forall|q: int| 0 <= q < j ==> !glob_match(#[trigger] rules[q].pattern@, agent),
    ensures
        route(rules, default, agent) == rules[j].host_name@,
    decreases j,
{
    if j > 0 {
        assert(!glob_match(rules[0].pattern@, agent));
        assert forall|q: int| 0 <= q < j - 1 implies !glob_match(
            #[trigger] rules.drop_first()[q].pattern@,
            agent,
        ) by {
            assert(rules.drop_first()[q] == rules[q + 1]);
        }
        lemma_first_matching_rule_wins(rules.drop_first(), default, agent, j - 1);
    }
}

/// When no rule matches, the default host is used.
pub proof fn lemma_no_rule_falls_back_to_default(
    rules: Seq<CompiledRule>,
    default: Seq<char>,
    agent: Seq<char>,
)
    requires
        forall|q: int| 0 <= q < rules.len() ==> !glob_match(#[trigger] rules[q].pattern@, agent),
    ensures
        route(rules, default, agent) == default,
    decreases rules.len(),
{
    if rules.len() > 0 {
        assert(!glob_match(rules[0].pattern@, agent));
        assert forall|q: int| 0 <= q < rules.len() - 1 implies !glob_match(
            #[trigger] rules.drop_first()[q].pattern@,
            agent,
        ) by {
            assert(rules.drop_first()[q] == rules[q + 1]);
        }
        lemma_no_rule_falls_back_to_default(rules.drop_first(), default, agent);
    }
}

/// Some entry of `raw` is named `n`.
pub open spec fn has_name(raw: Seq<RawHost>, n: Seq<char>) -> bool {
    exists|k: int| 0 <= k < raw.len() && (#[trigger] raw[k]).name@ == n
}

/// Dropping the entries that shadow `local` keeps every other name.
proof fn lemma_kept_has_name(raw: Seq<RawHost>, n: Seq<char>)
    requires
        n != "local"@,
    ensures
        has_name(kept(raw), n) == has_name(raw, n),
    decreases raw.len(),
{
    if raw.len() > 0 {
        let d = raw.drop_last();
        lemma_kept_has_name(d, n);
        if has_name(raw, n) {
            let k = choose|k: int| 0 <= k < raw.len() && (#[trigger] raw[k]).name@ == n;
            if k < d.len() {
                assert(d[k] == raw[k]);
            } else {
                assert(raw.last() == raw[k]);
                assert(kept(raw) == kept(d).push(raw.last()));
                assert(kept(raw)[kept(d).len() as int] == raw.last());
            }
        }
        if has_name(d, n) {
            let k = choose|k: int| 0 <= k < d.len() && (#[trigger] d[k]).name@ == n;
            assert(raw[k] == d[k]);
        }
        if has_name(kept(raw), n) {
            let k = choose|k: int| 0 <= k < kept(raw).len() && (#[trigger] kept(raw)[k]).name@ == n;
            if raw.last().name@ == "local"@ {
                assert(kept(raw) == kept(d));
            } else {
                assert(kept(raw) == kept(d).push(raw.last()));
                if k < kept(d).len() {
                    assert(kept(d)[k] == kept(raw)[k]);
                } else {
                    assert(raw[raw.len() - 1] == raw.last());
                }
            }
        }
        if has_name(kept(d), n) {
            let k = choose|k: int| 0 <= k < kept(d).len() && (#[trigger] kept(d)[k]).name@ == n;
            if raw.last().name@ != "local"@ {
                assert(kept(raw)[k] == kept(d)[k]);
            }
        }
    }
}

/// A compiled configuration holds exactly the hosts `local` and those
/// declared, the default among them; its rules keep the patterns and
/// hosts declared, in order, each host among the compiled ones.
pub proof fn lemma_compiled_hosts(raw: RawConfig, cfg: HostsConfig)
    requires
        cfg.wf(),
        cfg.built_from(raw),
    ensures
        forall|n: Seq<char>|
            #![trigger names_of(cfg.hosts@).contains(n)]
            names_of(cfg.hosts@).contains(n) <==> (n == "local"@ || has_name(raw.hosts@, n)),
        names_of(cfg.hosts@).contains(cfg.default@),
        cfg.default@ == raw.default@,
        cfg.rules@.len() == raw.rules@.len(),
        forall|j: int|
            0 <= j < raw.rules@.len() ==> #[trigger] cfg.rules@[j].pattern@ == raw.rules@[j].pattern@
                && cfg.rules@[j].host_name@ == raw.rules@[j].host@ && names_of(cfg.hosts@).contains(
                raw.rules@[j].host@,
            ),
{
    let hs = cfg.hosts@;
    let kr = kept(raw.hosts@);
    assert forall|n: Seq<char>| names_of(hs).contains(n) <==> (n == "local"@ || has_name(
        raw.hosts@,
        n,
    )) by {
        if names_of(hs).contains(n) {
            let k = choose|k: int| 0 <= k < names_of(hs).len() && names_of(hs)[k] == n;
            if k > 0 && n != "local"@ {
                assert(hs[k - 1 + 1].0@ == kr[k - 1].name@);
                lemma_kept_has_name(raw.hosts@, n);
            }
        }
        if n == "local"@ {
            assert(names_of(hs)[0] == "local"@);
        } else if has_name(raw.hosts@, n) {
            lemma_kept_has_name(raw.hosts@, n);
            let k = choose|k: int| 0 <= k < kr.len() && (#[trigger] kr[k]).name@ == n;
            assert(hs[k + 1].0@ == kr[k].name@);
            assert(names_of(hs)[k + 1] == n);
        }
    }
    assert forall|j: int| 0 <= j < raw.rules@.len() implies #[trigger] cfg.rules@[j].pattern@
        == raw.rules@[j].pattern@ && cfg.rules@[j].host_name@ == raw.rules@[j].host@ && names_of(
        cfg.hosts@,
    ).contains(raw.rules@[j].host@) by {
        assert(names_of(cfg.hosts@).contains(cfg.rules@[j].host_name@));
    }
}

} // verus!
