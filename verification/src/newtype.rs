//! Domain newtypes: a Cargo crate name, an accountable signer's email and
//! a repo-relative path, each validated on construction.

use vstd::prelude::*;

use crate::text::{chars_of, has_char, has_char_exec, slice_range};

verus! {

/// ASCII letter (`char::is_ascii_alphabetic`).
pub open spec fn is_ascii_alpha(c: char) -> bool {
    ('a' as u32 <= c as u32 <= 'z' as u32) || ('A' as u32 <= c as u32 <= 'Z' as u32)
}

/// ASCII digit (`char::is_ascii_digit`).
pub open spec fn is_ascii_digit(c: char) -> bool {
    '0' as u32 <= c as u32 <= '9' as u32
}

/// ASCII letter or digit (`char::is_ascii_alphanumeric`).
pub open spec fn is_ascii_alnum(c: char) -> bool {
    is_ascii_alpha(c) || is_ascii_digit(c)
}

/// Printable ASCII other than space (`char::is_ascii_graphic`).
pub open spec fn is_ascii_graphic(c: char) -> bool {
    0x21 <= c as u32 <= 0x7E
}

/// `char::is_ascii_alphabetic`.
pub fn char_is_ascii_alpha(c: char) -> (b: bool)
    ensures
        b == is_ascii_alpha(c),
{
    ('a' <= c && c <= 'z') || ('A' <= c && c <= 'Z')
}

/// `char::is_ascii_alphanumeric`.
pub fn char_is_ascii_alnum(c: char) -> (b: bool)
    ensures
        b == is_ascii_alnum(c),
{
    char_is_ascii_alpha(c) || ('0' <= c && c <= '9')
}

/// `char::is_ascii_graphic`.
pub fn char_is_ascii_graphic(c: char) -> (b: bool)
    ensures
        b == is_ascii_graphic(c),
{
    '!' <= c && c <= '~'
}

// ─────────────────────────────────────────────────────────────────────────
// CrateName
// ─────────────────────────────────────────────────────────────────────────

/// A character allowed after the first one in a crate name.
pub open spec fn crate_name_tail_char(c: char) -> bool {
    is_ascii_alnum(c) || c == '_' || c == '-'
}

/// `[A-Za-z][A-Za-z0-9_-]*`.
pub open spec fn valid_crate_name(s: Seq<char>) -> bool {
    &&& s.len() > 0
    &&& is_ascii_alpha(s[0])
    &&& forall|i: int| 1 <= i < s.len() ==> crate_name_tail_char(#[trigger] s[i])
}

/// The error `CrateName::new` reports for an invalid name.
pub open spec fn crate_name_error(s: Seq<char>) -> NewtypeErrorKind {
    if s.len() == 0 {
        NewtypeErrorKind::CrateNameEmpty
    } else if !is_ascii_alpha(s[0]) {
        NewtypeErrorKind::CrateNameStart
    } else {
        NewtypeErrorKind::CrateNameChar
    }
}

/// A Cargo crate name (`[package].name`): non-empty, ASCII, matching
/// `[A-Za-z][A-Za-z0-9_-]*`.
#[derive(Debug, Clone, PartialEq, Eq, Hash)]
pub struct CrateName(String);

impl View for CrateName {
    type V = Seq<char>;

    closed spec fn view(&self) -> Seq<char> {
        self.0@
    }
}

impl CrateName {
    /// The invariant every `CrateName` satisfies.
    pub open spec fn wf(&self) -> bool {
        valid_crate_name(self@)
    }

    /// Construct, validating the name. `Ok` exactly for valid names; the
    /// error names the first rule broken and carries the input.
    pub fn new(s: &str) -> (r: Result<Self, NewtypeError>)
        ensures
            r is Ok <==> valid_crate_name(s@),
            r matches Ok(c) ==> c@ == s@ && c.wf(),
            r matches Err(e) ==> e.kind() == crate_name_error(s@) && e.payload() == s@,
    {
        let v = chars_of(s);
        if v.len() == 0 {
            return Err(NewtypeError::CrateNameEmpty);
        }
        if !char_is_ascii_alpha(v[0]) {
            return Err(NewtypeError::CrateNameStart(s.to_string()));
        }
        let mut i: usize = 1;
        while i < v.len()
            invariant
                1 <= i <= v@.len(),
                v@ == s@,
                is_ascii_alpha(v@[0]),
                forall|j: int| 1 <= j < i ==> crate_name_tail_char(#[trigger] v@[j]),
            decreases v.len() - i,
        {
            let c = v[i];
            if !(char_is_ascii_alnum(c) || c == '_' || c == '-') {
                return Err(NewtypeError::CrateNameChar(s.to_string()));
            }
            i = i + 1;
        }
        Ok(CrateName(s.to_string()))
    }

    /// Borrowed view of the name.
    pub fn as_str(&self) -> (r: &str)
        ensures
            r@ == self@,
    {
        self.0.as_str()
    }

    /// A copy of this name.
    pub fn duplicate(&self) -> (r: Self)
        ensures
            r@ == self@,
    {
        CrateName(self.0.clone())
    }
}

// ─────────────────────────────────────────────────────────────────────────
// SignerEmail
// ─────────────────────────────────────────────────────────────────────────

/// `i` is the index of the first occurrence of `c` in `s`.
pub open spec fn first_index_of(s: Seq<char>, c: char, i: int) -> bool {
    &&& 0 <= i < s.len()
    &&& s[i] == c
    &&& forall|j: int| 0 <= j < i ==> s[j] != c
}

/// A permissive `local@domain.tld` shape: splitting at the first `@`,
/// the local part is non-empty and the domain is non-empty and holds a
/// `.`.
pub open spec fn valid_signer(s: Seq<char>) -> bool {
    exists|at: int|
        #![trigger first_index_of(s, '@', at)]
        first_index_of(s, '@', at) && at > 0 && at + 1 < s.len() && has_char(
            s.subrange(at + 1, s.len() as int),
            '.',
        )
}

/// The error `SignerEmail::new` reports for an invalid address.
pub open spec fn signer_error(s: Seq<char>) -> NewtypeErrorKind {
    if s.len() == 0 {
        NewtypeErrorKind::SignerEmpty
    } else if !has_char(s, '@') {
        NewtypeErrorKind::SignerNoAt
    } else {
        NewtypeErrorKind::SignerShape
    }
}

/// An accountable signer's email, required on every ratchet override.
#[derive(Debug, Clone, PartialEq, Eq, Hash)]
pub struct SignerEmail(String);

impl View for SignerEmail {
    type V = Seq<char>;

    closed spec fn view(&self) -> Seq<char> {
        self.0@
    }
}

impl SignerEmail {
    /// Construct, validating shape. `Ok` exactly for `valid_signer`
    /// inputs; otherwise the error names the first rule broken.
    pub fn new(s: &str) -> (r: Result<Self, NewtypeError>)
        ensures
            r is Ok <==> valid_signer(s@),
            r matches Ok(e) ==> e@ == s@,
            r matches Err(e) ==> e.kind() == signer_error(s@) && e.payload() == s@,
    {
        let v = chars_of(s);
        if v.len() == 0 {
            proof {
                assert forall|at: int| !first_index_of(s@, '@', at) by {}
            }
            return Err(NewtypeError::SignerEmpty);
        }
        let mut at: usize = 0;
        while at < v.len() && v[at] != '@'
            invariant
                at <= v@.len(),
                v@ == s@,
                forall|j: int| 0 <= j < at ==> v@[j] != '@',
            decreases v.len() - at,
        {
            at = at + 1;
        }
        if at == v.len() {
            proof {
                assert forall|at2: int| !first_index_of(s@, '@', at2) by {}
            }
            return Err(NewtypeError::SignerNoAt(s.to_string()));
        }
        assert(first_index_of(s@, '@', at as int));
        assert(has_char(s@, '@'));
        proof {
            assert forall|k: int| first_index_of(s@, '@', k) implies k == at by {
                if k < at {
                    assert(v@[k] != '@');
                } else if k > at {
                    assert(s@[at as int] != '@');
                }
            }
        }
        if at == 0 || at + 1 >= v.len() {
            return Err(NewtypeError::SignerShape(s.to_string()));
        }
        let domain = slice_range(v.as_slice(), at + 1, v.len());
        if !has_char_exec(domain.as_slice(), '.') {
            return Err(NewtypeError::SignerShape(s.to_string()));
        }
        Ok(SignerEmail(s.to_string()))
    }

    /// Borrowed view of the address.
    pub fn as_str(&self) -> (r: &str)
        ensures
            r@ == self@,
    {
        self.0.as_str()
    }
}

// ─────────────────────────────────────────────────────────────────────────
// RepoRelativePath
// ─────────────────────────────────────────────────────────────────────────

/// A Unix path is absolute when it starts with `/`.
pub open spec fn path_is_absolute(p: Seq<char>) -> bool {
    p.len() > 0 && p[0] == '/'
}

/// `s[i..j]` is a whole `/`-separated component of `p`.
pub open spec fn is_component(p: Seq<char>, i: int, j: int) -> bool {
    &&& 0 <= i <= j <= p.len()
    &&& (i == 0 || p[i - 1] == '/')
    &&& (j == p.len() || p[j] == '/')
}

/// Some component of `p` is `..` (a `Component::ParentDir`).
pub open spec fn has_parent_component(p: Seq<char>) -> bool {
    exists|i: int|
        #![trigger p[i]]
        is_component(p, i, i + 2) && p[i] == '.' && p[i + 1] == '.'
}

/// A path that is known to be relative to a repo root: not absolute and
/// free of `..` components.
#[derive(Debug, Clone, PartialEq, Eq, Hash)]
pub struct RepoRelativePath(String);

impl View for RepoRelativePath {
    type V = Seq<char>;

    closed spec fn view(&self) -> Seq<char> {
        self.0@
    }
}

/// Whether some component of `v` is `..`.
pub(crate) fn has_parent_component_exec(v: &[char]) -> (b: bool)
    ensures
        b == has_parent_component(v@),
{
    let n = v.len();
    let mut i: usize = 0;
    while i < n
        invariant
            i <= n,
            n == v@.len(),
            forall|k: int|
                #![trigger v@[k]]
                0 <= k < i ==> !(is_component(v@, k, k + 2) && v@[k] == '.' && v@[k + 1] == '.'),
        decreases n - i,
    {
        if n - i >= 2 && v[i] == '.' && v[i + 1] == '.' && (i == 0 || v[i - 1] == '/') && (i + 2
            == n || v[i + 2] == '/') {
            assert(is_component(v@, i as int, i + 2));
            return true;
        }
        i = i + 1;
    }
    proof {
        assert forall|k: int|
            #![trigger v@[k]]
            !(is_component(v@, k, k + 2) && v@[k] == '.' && v@[k + 1] == '.') by {
            if 0 <= k < i {
            }
        }
    }
    false
}

impl RepoRelativePath {
    /// Construct, rejecting absolute paths first and then paths with a
    /// `..` component.
    pub fn new(s: &str) -> (r: Result<Self, NewtypeError>)
        ensures
            r is Ok <==> !path_is_absolute(s@) && !has_parent_component(s@),
            r matches Ok(p) ==> p@ == s@,
            r matches Err(e) ==> e.payload() == s@ && e.kind() == (if path_is_absolute(s@) {
                NewtypeErrorKind::PathAbsolute
            } else {
                NewtypeErrorKind::PathParentTraversal
            }),
    {
        let v = chars_of(s);
        if v.len() > 0 && v[0] == '/' {
            return Err(NewtypeError::PathAbsolute(s.to_string()));
        }
        if has_parent_component_exec(v.as_slice()) {
            return Err(NewtypeError::PathParentTraversal(s.to_string()));
        }
        Ok(RepoRelativePath(s.to_string()))
    }

    /// Borrowed `&str` view of the path.
    pub fn as_str(&self) -> (r: &str)
        ensures
            r@ == self@,
    {
        self.0.as_str()
    }

    /// Borrowed `&Path` view.
    pub fn as_path(&self) -> (r: &std::path::Path)
        ensures
            r == path_new(self@),
    {
        path_of(self.0.as_str())
    }

    /// Owned `PathBuf` view.
    pub fn into_path_buf(self) -> (r: std::path::PathBuf)
        ensures
            r == path_buf_from(self@),
    {
        path_buf_of(self.0)
    }
}

/// Declares `std::path::Path` so signatures can name it.
#[verifier::external_type_specification]
#[verifier::external_body]
pub struct ExPath(std::path::Path);

/// Declares `std::path::PathBuf` so signatures can name it.
#[verifier::external_type_specification]
#[verifier::external_body]
pub struct ExPathBuf(std::path::PathBuf);

/// The path `std::path::Path::new` makes of a string.
pub uninterp spec fn path_new(s: Seq<char>) -> &'static std::path::Path;

/// The path `PathBuf::from` makes of a string.
pub uninterp spec fn path_buf_from(s: Seq<char>) -> std::path::PathBuf;

/// Trusted: wraps `std::path::Path::new`, which borrows a string as a
/// path. The result is named `path_new` of the string: a function of the
/// string alone; nothing more is stated of the opaque path.
#[verifier::external_body]
fn path_of(s: &str) -> (r: &std::path::Path)
    ensures
        r == path_new(s@),
{
    std::path::Path::new(s)
}

/// Trusted: wraps `PathBuf::from(String)`, which takes ownership of the
/// string as a path. The result is named `path_buf_from` of the string: a
/// function of the string alone; nothing more is stated of the opaque
/// path.
#[verifier::external_body]
fn path_buf_of(s: String) -> (r: std::path::PathBuf)
    ensures
        r == path_buf_from(s@),
{
    std::path::PathBuf::from(s)
}

// ─────────────────────────────────────────────────────────────────────────
// Errors
// ─────────────────────────────────────────────────────────────────────────

/// Which rule a newtype constructor rejected, without the payload.
#[derive(Debug, Copy, Clone, PartialEq, Eq, Structural)]
pub enum NewtypeErrorKind {
    CrateNameEmpty,
    CrateNameStart,
    CrateNameChar,
    SignerEmpty,
    SignerNoAt,
    SignerShape,
    PathAbsolute,
    PathParentTraversal,
    AgentIdEmpty,
    AgentIdTooLong,
    AgentIdShape,
}

/// Errors raised by newtype constructors; each carries the rejected input
/// except the empty-input variants.
#[derive(Debug, Clone, PartialEq, Eq)]
#[non_exhaustive]
pub enum NewtypeError {
    /// Empty crate name.
    CrateNameEmpty,
    /// Crate name doesn't begin with an ASCII letter.
    CrateNameStart(String),
    /// Crate name has an illegal character.
    CrateNameChar(String),
    /// Empty signer email.
    SignerEmpty,
    /// No `@` in email.
    SignerNoAt(String),
    /// Email shape rejected (empty local, empty domain, or domain has no dot).
    SignerShape(String),
    /// Path is absolute when it must be relative.
    PathAbsolute(String),
    /// Path tries to traverse upward.
    PathParentTraversal(String),
    /// Empty agent id.
    AgentIdEmpty,
    /// Agent id over the 128-byte cap.
    AgentIdTooLong(String),
    /// Agent id has whitespace or non-ASCII-graphic chars.
    AgentIdShape(String),
}

impl NewtypeError {
    /// The rule this error reports.
    pub open spec fn kind(self) -> NewtypeErrorKind {
        match self {
            NewtypeError::CrateNameEmpty => NewtypeErrorKind::CrateNameEmpty,
            NewtypeError::CrateNameStart(_) => NewtypeErrorKind::CrateNameStart,
            NewtypeError::CrateNameChar(_) => NewtypeErrorKind::CrateNameChar,
            NewtypeError::SignerEmpty => NewtypeErrorKind::SignerEmpty,
            NewtypeError::SignerNoAt(_) => NewtypeErrorKind::SignerNoAt,
            NewtypeError::SignerShape(_) => NewtypeErrorKind::SignerShape,
            NewtypeError::PathAbsolute(_) => NewtypeErrorKind::PathAbsolute,
            NewtypeError::PathParentTraversal(_) => NewtypeErrorKind::PathParentTraversal,
            NewtypeError::AgentIdEmpty => NewtypeErrorKind::AgentIdEmpty,
            NewtypeError::AgentIdTooLong(_) => NewtypeErrorKind::AgentIdTooLong,
            NewtypeError::AgentIdShape(_) => NewtypeErrorKind::AgentIdShape,
        }
    }

    /// The rejected input carried by the error (empty for the
    /// empty-input variants).
    pub open spec fn payload(self) -> Seq<char> {
        match self {
            NewtypeError::CrateNameStart(s) => s@,
            NewtypeError::CrateNameChar(s) => s@,
            NewtypeError::SignerNoAt(s) => s@,
            NewtypeError::SignerShape(s) => s@,
            NewtypeError::PathAbsolute(s) => s@,
            NewtypeError::PathParentTraversal(s) => s@,
            NewtypeError::AgentIdTooLong(s) => s@,
            NewtypeError::AgentIdShape(s) => s@,
            _ => Seq::empty(),
        }
    }
}

} // verus!
