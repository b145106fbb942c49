//! Repository root and language classification.

use vstd::prelude::*;

verus! {

/// A resolved repository root and the language stacks detected at it.
#[derive(Debug, Clone, PartialEq, Eq)]
#[non_exhaustive]
pub struct RepoRoot {
    /// Absolute path to the root.
    pub path: String,
    /// Languages detected by manifest probing, in probe order.
    pub languages: Vec<RepoLanguage>,
}

/// Which top-level manifest files exist at a repo root.
#[derive(Debug, Copy, Clone, PartialEq, Eq, Default, Structural)]
pub struct ManifestProbe {
    /// `Cargo.toml` is a file.
    pub cargo_toml: bool,
    /// `package.json` is a file.
    pub package_json: bool,
    /// `pyproject.toml` is a file.
    pub pyproject_toml: bool,
    /// `setup.py` is a file.
    pub setup_py: bool,
    /// `go.mod` is a file.
    pub go_mod: bool,
}

impl RepoRoot {
    /// A root at `path` with the given detected languages.
    pub fn new(path: String, languages: Vec<RepoLanguage>) -> (r: Self)
        ensures
            r.path == path,
            r.languages == languages,
    {
        RepoRoot { path, languages }
    }

    /// The languages the probe implies, in probe order: Rust, TypeScript,
    /// Python (pyproject or setup.py), Go.
    pub open spec fn languages_of(p: ManifestProbe) -> Seq<RepoLanguage> {
        let s0 = Seq::<RepoLanguage>::empty();
        let s1 = if p.cargo_toml { s0.push(RepoLanguage::Rust) } else { s0 };
        let s2 = if p.package_json { s1.push(RepoLanguage::TypeScript) } else { s1 };
        let s3 = if p.pyproject_toml || p.setup_py { s2.push(RepoLanguage::Python) } else { s2 };
        if p.go_mod { s3.push(RepoLanguage::Go) } else { s3 }
    }

    /// Classify the languages of a root from its top-level manifests. We
    /// don't recurse — this is a fast detector; a repo can be
    /// multi-language.
    pub fn detect_languages(probe: ManifestProbe) -> (r: Vec<RepoLanguage>)
        ensures
            r@ == Self::languages_of(probe),
    {
        let mut langs: Vec<RepoLanguage> = Vec::new();
        if probe.cargo_toml {
            langs.push(RepoLanguage::Rust);
        }
        if probe.package_json {
            langs.push(RepoLanguage::TypeScript);
        }
        if probe.pyproject_toml || probe.setup_py {
            langs.push(RepoLanguage::Python);
        }
        if probe.go_mod {
            langs.push(RepoLanguage::Go);
        }
        langs
    }
}

/// Languages the toolchain knows how to gate.
#[derive(Debug, Copy, Clone, PartialEq, Eq, Hash, Structural)]
#[non_exhaustive]
pub enum RepoLanguage {
    /// Cargo workspace or single crate.
    Rust,
    /// `package.json`-driven JS/TS surface.
    TypeScript,
    /// `pyproject.toml` Python project.
    Python,
    /// `go.mod` module; no gates yet.
    Go,
}

impl RepoLanguage {
    /// Whether this language has gate implementations today: every
    /// language but Go.
    pub fn has_gates(self) -> (r: bool)
        ensures
            r == (self != RepoLanguage::Go),
    {
        match self {
            RepoLanguage::Go => false,
            _ => true,
        }
    }
}

/// Errors raised by repo discovery.
#[derive(Debug, Clone, PartialEq, Eq)]
#[non_exhaustive]
pub enum RepoError {
    /// Path could not be canonicalized; holds the OS error text.
    Canonicalize {
        /// Underlying error text.
        source: String,
    },
    /// No `.git` directory in any ancestor.
    NoGitRoot {
        /// Path the search began at.
        started_at: String,
    },
}

} // verus!
