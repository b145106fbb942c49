//! Where a coding-agent session runs: locally or over SSH.

use vstd::prelude::*;

use crate::newtype::{
    char_is_ascii_graphic, has_parent_component, has_parent_component_exec, is_ascii_graphic,
    path_is_absolute,
};
use crate::text::{chars_of, char_is_ws, has_char, has_char_exec, is_ws, push_char, push_decimal, push_str, decimal};

verus! {

/// Where a session runs.
#[derive(Debug, Clone, PartialEq, Eq)]
#[non_exhaustive]
pub enum Host {
    /// The conductor's own machine; spawn locally.
    Local,
    /// SSH-reachable remote.
    Ssh(SshTarget),
}

impl Default for Host {
    fn default() -> (h: Self)
        ensures
            h == Host::Local,
    {
        Host::Local
    }
}

impl Host {
    /// Human label: `local`, or `ssh:` followed by the target's display
    /// form.
    pub open spec fn label_spec(self) -> Seq<char> {
        match self {
            Host::Local => "local"@,
            Host::Ssh(t) => "ssh:"@ + t.display_spec(),
        }
    }

    /// Human label for log lines and status tables.
    pub fn label(&self) -> (r: String)
        ensures
            r@ == self.label_spec(),
    {
        match self {
            Host::Local => "local".to_string(),
            Host::Ssh(t) => {
                let mut s = "ssh:".to_string();
                let d = t.to_string();
                push_str(&mut s, d.as_str());
                s
            },
        }
    }

    /// True if this host requires network connectivity.
    pub fn is_remote(&self) -> (r: bool)
        ensures
            r == (self is Ssh),
    {
        match self {
            Host::Ssh(_) => true,
            _ => false,
        }
    }
}

/// SSH connection target. All fields but `host` and `remote_workdir` are
/// optional; absent ones fall through to `~/.ssh/config`.
#[derive(Debug, Clone, PartialEq, Eq)]
#[non_exhaustive]
pub struct SshTarget {
    /// Hostname or IP. Required.
    pub host: String,
    /// Login username.
    pub user: Option<String>,
    /// SSH port.
    pub port: Option<u16>,
    /// Identity file (private key).
    pub identity_file: Option<String>,
    /// Absolute working directory on the remote.
    pub remote_workdir: String,
    /// Pass-through SSH options (`-o Foo=bar`).
    pub ssh_options: Vec<String>,
    /// ControlMaster socket path.
    pub control_socket: Option<String>,
}

/// A user name is acceptable when non-empty and made of ASCII graphic
/// characters (so no whitespace).
pub open spec fn user_ok(u: Seq<char>) -> bool {
    u.len() > 0 && forall|i: int| 0 <= i < u.len() ==> is_ascii_graphic(#[trigger] u[i])
}

/// An option that would let a malformed config inject flags.
pub open spec fn injectable(o: Seq<char>) -> bool {
    has_char(o, '\n') || has_char(o, '\r')
}

/// Some character of `s` is whitespace.
pub open spec fn has_ws(s: Seq<char>) -> bool {
    exists|i: int| 0 <= i < s.len() && is_ws(#[trigger] s[i])
}

/// Validation rule a target breaks.
#[derive(Debug, Copy, Clone, PartialEq, Eq, Structural)]
pub enum HostErrorKind {
    EmptyHost,
    InvalidHost,
    InvalidUser,
    WorkdirNotAbsolute,
    WorkdirParentTraversal,
    InjectableSshOption,
}

impl SshTarget {
    /// `i` is the first injectable option.
    pub open spec fn first_injectable(self, i: int) -> bool {
        &&& 0 <= i < self.ssh_options.len()
        &&& injectable(self.ssh_options[i]@)
        &&& forall|j: int| 0 <= j < i ==> !injectable(#[trigger] self.ssh_options[j]@)
    }

    /// The first validation rule broken, checked in order: empty host,
    /// whitespace in host, bad user, relative workdir, `..` in workdir,
    /// injectable option.
    pub open spec fn error_kind(self) -> Option<HostErrorKind> {
        if self.host@.len() == 0 {
            Some(HostErrorKind::EmptyHost)
        } else if has_ws(self.host@) {
            Some(HostErrorKind::InvalidHost)
        } else if self.user matches Some(u) && !user_ok(u@) {
            Some(HostErrorKind::InvalidUser)
        } else if !path_is_absolute(self.remote_workdir@) {
            Some(HostErrorKind::WorkdirNotAbsolute)
        } else if has_parent_component(self.remote_workdir@) {
            Some(HostErrorKind::WorkdirParentTraversal)
        } else if exists|i: int|
            0 <= i < self.ssh_options.len() && injectable(#[trigger] self.ssh_options[i]@) {
            Some(HostErrorKind::InjectableSshOption)
        } else {
            None
        }
    }

    /// The value the error for `error_kind` carries.
    pub open spec fn error_payload(self, e: HostError) -> bool {
        match e {
            HostError::EmptyHost => true,
            HostError::InvalidHost(s) => s@ == self.host@,
            HostError::InvalidUser(s) => self.user matches Some(u) && s@ == u@,
            HostError::WorkdirNotAbsolute(s) => s@ == self.remote_workdir@,
            HostError::WorkdirParentTraversal(s) => s@ == self.remote_workdir@,
            HostError::InjectableSshOption(s) => exists|i: int|
                self.first_injectable(i) && s@ == #[trigger] self.ssh_options[i]@,
        }
    }

    /// `user@host`, or the bare host without a user.
    pub open spec fn user_at_host_spec(self) -> Seq<char> {
        match self.user {
            Some(u) => u@ + "@"@ + self.host@,
            None => self.host@,
        }
    }

    /// `user@host`, followed by `:port` when a port is set.
    pub open spec fn display_spec(self) -> Seq<char> {
        match self.port {
            Some(p) => self.user_at_host_spec() + ":"@ + decimal(p as nat),
            None => self.user_at_host_spec(),
        }
    }

    /// A target for `host` at `remote_workdir` with no optional fields,
    /// validated.
    pub fn new(host: &str, remote_workdir: &str) -> (r: Result<Self, HostError>)
        ensures
            r is Ok <==> host@.len() > 0 && !has_ws(host@) && path_is_absolute(remote_workdir@)
                && !has_parent_component(remote_workdir@),
            r matches Ok(t) ==> t.host@ == host@ && t.remote_workdir@ == remote_workdir@
                && t.user is None && t.port is None && t.identity_file is None
                && t.ssh_options@.len() == 0 && t.control_socket is None,
            r matches Err(e) ==> e.kind() == if host@.len() == 0 {
                HostErrorKind::EmptyHost
            } else if has_ws(host@) {
                HostErrorKind::InvalidHost
            } else if !path_is_absolute(remote_workdir@) {
                HostErrorKind::WorkdirNotAbsolute
            } else {
                HostErrorKind::WorkdirParentTraversal
            },
            r matches Err(e) ==> match e {
                HostError::InvalidHost(s) => s@ == host@,
                HostError::WorkdirNotAbsolute(s) => s@ == remote_workdir@,
                HostError::WorkdirParentTraversal(s) => s@ == remote_workdir@,
                _ => true,
            },
    {
        let me = SshTarget {
            host: host.to_string(),
            user: None,
            port: None,
            identity_file: None,
            remote_workdir: remote_workdir.to_string(),
            ssh_options: Vec::new(),
            control_socket: None,
        };
        match me.validate() {
            Ok(()) => Ok(me),
            Err(e) => Err(e),
        }
    }

    /// Validate field shapes; the first rule broken is reported, with the
    /// offending value.
    pub fn validate(&self) -> (r: Result<(), HostError>)
        ensures
            r is Ok <==> self.error_kind() is None,
            r matches Err(e) ==> Some(e.kind()) == self.error_kind() && self.error_payload(e),
    {
        let h = chars_of(self.host.as_str());
        if h.len() == 0 {
            return Err(HostError::EmptyHost);
        }
        let mut i: usize = 0;
        while i < h.len()
            invariant
                i <= h@.len(),
                h@ == self.host@,
                forall|j: int| 0 <= j < i ==> !is_ws(#[trigger] h@[j]),
            decreases h.len() - i,
        {
            if char_is_ws(h[i]) {
                return Err(HostError::InvalidHost(self.host.clone()));
            }
            i = i + 1;
        }
        assert(!has_ws(self.host@));
        if let Some(user) = &self.user {
            let u = chars_of(user.as_str());
            if u.len() == 0 {
                return Err(HostError::InvalidUser(user.clone()));
            }
            let mut k: usize = 0;
            while k < u.len()
                invariant
                    k <= u@.len(),
                    u@ == user@,
                    u@.len() > 0,
                    self.host@.len() > 0,
                    !has_ws(self.host@),
                    self.user == Some(*user),
                    forall|j: int| 0 <= j < k ==> is_ascii_graphic(#[trigger] u@[j]),
                decreases u.len() - k,
            {
                if !char_is_ascii_graphic(u[k]) {
                    return Err(HostError::InvalidUser(user.clone()));
                }
                k = k + 1;
            }
        }
        assert(self.user matches Some(u) ==> user_ok(u@));
        let w = chars_of(self.remote_workdir.as_str());
        if !(w.len() > 0 && w[0] == '/') {
            return Err(HostError::WorkdirNotAbsolute(self.remote_workdir.clone()));
        }
        if has_parent_component_exec(w.as_slice()) {
            return Err(HostError::WorkdirParentTraversal(self.remote_workdir.clone()));
        }
        let mut o: usize = 0;
        while o < self.ssh_options.len()
            invariant
                o <= self.ssh_options@.len(),
                forall|j: int| 0 <= j < o ==> !injectable(#[trigger] self.ssh_options@[j]@),
                self.host@.len() > 0,
                !has_ws(self.host@),
                self.user matches Some(u) ==> user_ok(u@),
                path_is_absolute(self.remote_workdir@),
                !has_parent_component(self.remote_workdir@),
            decreases self.ssh_options.len() - o,
        {
            let ov = chars_of(self.ssh_options[o].as_str());
            if has_char_exec(ov.as_slice(), '\n') || has_char_exec(ov.as_slice(), '\r') {
                assert(self.first_injectable(o as int));
                assert(self.ssh_options[o as int]@ == self.ssh_options@[o as int]@);
                return Err(HostError::InjectableSshOption(self.ssh_options[o].clone()));
            }
            o = o + 1;
        }
        Ok(())
    }

    /// The `user@host` form ssh accepts, or the bare host when no user is
    /// set.
    pub fn user_at_host(&self) -> (r: String)
        ensures
            r@ == self.user_at_host_spec(),
    {
        match &self.user {
            Some(u) => {
                let mut s = u.clone();
                push_char(&mut s, '@');
                push_str(&mut s, self.host.as_str());
                assert(s@ =~= u@ + "@"@ + self.host@) by {
                    reveal_strlit("@");
                }
                s
            },
            None => self.host.clone(),
        }
    }

    /// Display form: `user@host`, then `:port` when a port is set.
    pub fn to_string(&self) -> (r: String)
        ensures
            r@ == self.display_spec(),
    {
        let mut s = self.user_at_host();
        if let Some(p) = self.port {
            push_char(&mut s, ':');
            push_decimal(&mut s, p as u64);
            assert(s@ =~= self.user_at_host_spec() + ":"@ + decimal(p as nat)) by {
                reveal_strlit(":");
            }
        }
        s
    }
}

/// Validation errors for `SshTarget`; each carries the offending value.
#[derive(Debug, Clone, PartialEq, Eq)]
#[non_exhaustive]
pub enum HostError {
    /// Host string is empty.
    EmptyHost,
    /// Host string contains whitespace.
    InvalidHost(String),
    /// User string is empty or holds non-ASCII-graphic characters.
    InvalidUser(String),
    /// `remote_workdir` is relative.
    WorkdirNotAbsolute(String),
    /// `remote_workdir` contains `..`.
    WorkdirParentTraversal(String),
    /// An `ssh_options` entry contains a newline or carriage return.
    InjectableSshOption(String),
}

impl HostError {
    /// The rule this error reports.
    pub open spec fn kind(self) -> HostErrorKind {
        match self {
            HostError::EmptyHost => HostErrorKind::EmptyHost,
            HostError::InvalidHost(_) => HostErrorKind::InvalidHost,
            HostError::InvalidUser(_) => HostErrorKind::InvalidUser,
            HostError::WorkdirNotAbsolute(_) => HostErrorKind::WorkdirNotAbsolute,
            HostError::WorkdirParentTraversal(_) => HostErrorKind::WorkdirParentTraversal,
            HostError::InjectableSshOption(_) => HostErrorKind::InjectableSshOption,
        }
    }
}

} // verus!
