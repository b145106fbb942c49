//! Rust source files as the gates see them: their classification by
//! Cargo layout, their text with a line index, and an outline of the
//! syntax the gates inspect.
//!
//! The outline is built from the parsed file by the caller: `syn` does
//! the parsing; this module holds, as plain values, what the gates read
//! of it.

use vstd::prelude::*;

use crate::text::{
    chars_eq, chars_of, contains, contains_exec, ends_with, has_prefix, has_suffix, is_ws,
    slice_range, starts_with, str_eq, string_of, string_views, trim, trim_exec, trim_start,
    trim_start_exec,
};

verus! {

/// Canonical Cargo source classification.
///
/// `Bin` is `src/main.rs` or anything under `src/bin/`; `Test`, `Bench`
/// and `Example` are under `tests/`, `benches/` and `examples/`;
/// `Library` is anything else under `src/`; `Other` is everything else
/// (build scripts, xtask, fuzz harnesses).
#[derive(Debug, Copy, Clone, PartialEq, Eq, Hash, Structural)]
#[non_exhaustive]
pub enum SourceClass {
    /// Library code under `src/` (the most-restricted class).
    Library,
    /// Binary entry point: `src/main.rs` or `src/bin/*.rs`.
    Bin,
    /// Integration test under `tests/`.
    Test,
    /// Benchmark under `benches/`.
    Bench,
    /// Example under `examples/`.
    Example,
    /// Anything else.
    Other,
}

/// `s` with every backslash turned into a forward slash.
pub open spec fn slashed(s: Seq<char>) -> Seq<char> {
    s.map_values(|c: char| if c == '\\' { '/' } else { c })
}

/// `s` holds `dir` as a path component sequence: somewhere after a slash,
/// or at its start.
pub open spec fn under(s: Seq<char>, dir: Seq<char>) -> bool {
    contains(s, seq!['/'] + dir) || has_prefix(s, dir)
}

/// The class of a repo-relative path, checked in order: tests, benches,
/// examples, `src/bin/`, `src/main.rs`, `src/`.
pub open spec fn class_of(path: Seq<char>) -> SourceClass {
    let s = slashed(path);
    if under(s, "tests/"@) {
        SourceClass::Test
    } else if under(s, "benches/"@) {
        SourceClass::Bench
    } else if under(s, "examples/"@) {
        SourceClass::Example
    } else if under(s, "src/bin/"@) {
        SourceClass::Bin
    } else if has_suffix(s, "/src/main.rs"@) || s == "src/main.rs"@ {
        SourceClass::Bin
    } else if under(s, "src/"@) {
        SourceClass::Library
    } else {
        SourceClass::Other
    }
}

/// Whether `s` lies under `dir` (see `under`).
fn under_exec(s: &[char], dir: &str) -> (r: bool)
    ensures
        r == under(s@, dir@),
{
    let d = chars_of(dir);
    let mut sd: Vec<char> = Vec::new();
    sd.push('/');
    let mut i: usize = 0;
    while i < d.len()
        invariant
            i <= d@.len(),
            sd@ == seq!['/'] + d@.take(i as int),
        decreases d.len() - i,
    {
        sd.push(d[i]);
        assert(d@.take(i + 1) =~= d@.take(i as int).push(d@[i as int]));
        i = i + 1;
    }
    assert(d@.take(i as int) =~= d@);
    contains_exec(s, sd.as_slice()) || starts_with(s, d.as_slice())
}

impl SourceClass {
    /// Classify a repo-relative path (backslashes count as slashes).
    pub fn classify(rel: &str) -> (c: Self)
        ensures
            c == class_of(rel@),
    {
        let raw = chars_of(rel);
        let mut s: Vec<char> = Vec::new();
        let mut i: usize = 0;
        while i < raw.len()
            invariant
                i <= raw@.len(),
                raw@ == rel@,
                s@ == slashed(raw@.take(i as int)),
            decreases raw.len() - i,
        {
            let c = raw[i];
            s.push(if c == '\\' { '/' } else { c });
            assert(slashed(raw@.take(i + 1)) =~= slashed(raw@.take(i as int)).push(
                if c == '\\' { '/' } else { c },
            ));
            i = i + 1;
        }
        assert(raw@.take(i as int) =~= rel@);
        if under_exec(s.as_slice(), "tests/") {
            return SourceClass::Test;
        }
        if under_exec(s.as_slice(), "benches/") {
            return SourceClass::Bench;
        }
        if under_exec(s.as_slice(), "examples/") {
            return SourceClass::Example;
        }
        if under_exec(s.as_slice(), "src/bin/") {
            return SourceClass::Bin;
        }
        let main_suffix = chars_of("/src/main.rs");
        let main = chars_of("src/main.rs");
        if ends_with(s.as_slice(), main_suffix.as_slice()) || chars_eq(s.as_slice(), main.as_slice()) {
            return SourceClass::Bin;
        }
        if under_exec(s.as_slice(), "src/") {
            return SourceClass::Library;
        }
        SourceClass::Other
    }

    /// Whether this is library code, which the strict gates apply to.
    pub fn is_library(self) -> (r: bool)
        ensures
            r == (self == SourceClass::Library),
    {
        match self {
            SourceClass::Library => true,
            _ => false,
        }
    }

    /// Whether this class holds tests.
    pub fn is_test(self) -> (r: bool)
        ensures
            r == (self == SourceClass::Test),
    {
        match self {
            SourceClass::Test => true,
            _ => false,
        }
    }
}

/// `line` without a final carriage return.
pub open spec fn strip_cr(line: Seq<char>) -> Seq<char> {
    if line.len() > 0 && line.last() == '\r' {
        line.drop_last()
    } else {
        line
    }
}

/// The lines of `s` after the partial line `cur`, as `str::lines` yields
/// them: split at `\n`, a `\r` before it dropped, no empty last line.
pub open spec fn lines_from(s: Seq<char>, cur: Seq<char>) -> Seq<Seq<char>>
    decreases s.len(),
{
    if s.len() == 0 {
        if cur.len() > 0 {
            seq![cur]
        } else {
            Seq::empty()
        }
    } else if s[0] == '\n' {
        seq![strip_cr(cur)] + lines_from(s.drop_first(), Seq::empty())
    } else {
        lines_from(s.drop_first(), cur.push(s[0]))
    }
}

/// The lines of `s` (`str::lines`).
pub open spec fn lines_of(s: Seq<char>) -> Seq<Seq<char>> {
    lines_from(s, Seq::empty())
}

/// The characters of a sequence of character vectors.
pub open spec fn vec_views(v: Seq<Vec<char>>) -> Seq<Seq<char>> {
    v.map_values(|x: Vec<char>| x@)
}

/// The lines of `s`, as `str::lines` yields them.
pub fn split_lines(s: &[char]) -> (r: Vec<Vec<char>>)
    ensures
        vec_views(r@) == lines_of(s@),
{
    let mut out: Vec<Vec<char>> = Vec::new();
    let mut cur: Vec<char> = Vec::new();
    let mut i: usize = 0;
    assert(s@.skip(0) =~= s@);
    while i < s.len()
        invariant
            i <= s@.len(),
            vec_views(out@) + lines_from(s@.skip(i as int), cur@) == lines_of(s@),
        decreases s.len() - i,
    {
        let c = s[i];
        assert(s@.skip(i as int)[0] == c);
        assert(s@.skip(i as int).drop_first() =~= s@.skip(i + 1));
        if c == '\n' {
            let mut line = cur;
            if line.len() > 0 && line[line.len() - 1] == '\r' {
                line.pop();
            }
            let ghost before = vec_views(out@);
            assert(line@ == strip_cr(cur@)) by {
                if cur@.len() > 0 && cur@.last() == '\r' {
                    assert(line@ =~= cur@.drop_last());
                }
            }
            out.push(line);
            assert(vec_views(out@) =~= before.push(strip_cr(cur@)));
            assert(vec_views(out@) + lines_from(s@.skip(i + 1), Seq::empty()) =~= before + (seq![
                strip_cr(cur@),
            ] + lines_from(s@.skip(i + 1), Seq::empty())));
            cur = Vec::new();
        } else {
            cur.push(c);
        }
        i = i + 1;
    }
    if cur.len() > 0 {
        let ghost before = vec_views(out@);
        let ghost last = cur@;
        out.push(cur);
        assert(vec_views(out@) =~= before + seq![last]);
    } else {
        assert(vec_views(out@) + Seq::<Seq<char>>::empty() =~= vec_views(out@));
    }
    out
}

/// `line` up to (not including) its first `#`.
pub open spec fn before_hash(line: Seq<char>) -> Seq<char>
    decreases line.len(),
{
    if line.len() == 0 || line[0] == '#' {
        Seq::empty()
    } else {
        seq![line[0]] + before_hash(line.drop_first())
    }
}

/// The text of `body` up to the next `"`, or `None` when there is none.
pub open spec fn quoted_value(body: Seq<char>) -> Option<Seq<char>>
    decreases body.len(),
{
    if body.len() == 0 {
        None
    } else if body[0] == '"' {
        Some(Seq::empty())
    } else {
        match quoted_value(body.drop_first()) {
            Some(v) => Some(seq![body[0]] + v),
            None => None,
        }
    }
}

/// The crate name found in `lines` by the manifest peeker, given
/// whether the previous section header was `[package]`.
///
/// Comments (from `#`) are ignored; a section header switches sections;
/// in `[package]`, a line starting with `name` must continue with `=`
/// (else there is no name), and a quoted value is the name (an unclosed
/// quote means there is none); an unquoted value (`{ workspace = true }`)
/// is passed over.
pub open spec fn name_scan(lines: Seq<Seq<char>>, in_pkg: bool) -> Option<Seq<char>>
    decreases lines.len(),
{
    if lines.len() == 0 {
        None
    } else {
        let line = trim(before_hash(lines[0]));
        let rest = lines.drop_first();
        if has_prefix(line, "["@) {
            name_scan(rest, line == "[package]"@)
        } else if !in_pkg {
            name_scan(rest, false)
        } else if has_prefix(line, "name"@) {
            let r1 = trim_start(line.skip(4));
            if !has_prefix(r1, "="@) {
                None
            } else {
                let r2 = trim_start(r1.skip(1));
                if has_prefix(r2, "\""@) {
                    quoted_value(r2.skip(1))
                } else {
                    name_scan(rest, in_pkg)
                }
            }
        } else {
            name_scan(rest, in_pkg)
        }
    }
}

/// The `[package] name` of a manifest, as the peeker reads it.
pub open spec fn crate_name_of(manifest: Seq<char>) -> Option<Seq<char>> {
    name_scan(lines_of(manifest), false)
}

/// `line` up to its first `#`.
fn before_hash_exec(line: &[char]) -> (r: Vec<char>)
    ensures
        r@ == before_hash(line@),
{
    let mut i: usize = 0;
    while i < line.len() && line[i] != '#'
        invariant
            i <= line@.len(),
            forall|j: int| 0 <= j < i ==> line@[j] != '#',
        decreases line.len() - i,
    {
        i = i + 1;
    }
    proof {
        lemma_before_hash(line@, i as int);
    }
    slice_range(line, 0, i)
}

/// `before_hash` keeps the prefix up to the first `#`.
proof fn lemma_before_hash(line: Seq<char>, i: int)
    requires
        0 <= i <= line.len(),
        forall|j: int| 0 <= j < i ==> line[j] != '#',
        i == line.len() || line[i] == '#',
    ensures
        before_hash(line) == line.subrange(0, i),
    decreases i,
{
    if i > 0 {
        lemma_before_hash(line.drop_first(), i - 1);
        assert(line.subrange(0, i) =~= seq![line[0]] + line.drop_first().subrange(0, i - 1));
    } else {
        assert(line.subrange(0, 0) =~= Seq::<char>::empty());
    }
}

/// The text of `body` up to its first `"`, if any.
fn quoted_value_exec(body: &[char]) -> (r: Option<Vec<char>>)
    ensures
        match quoted_value(body@) {
            Some(v) => r matches Some(x) && x@ == v,
            None => r is None,
        },
{
    let mut i: usize = 0;
    while i < body.len() && body[i] != '"'
        invariant
            i <= body@.len(),
            forall|j: int| 0 <= j < i ==> body@[j] != '"',
        decreases body.len() - i,
    {
        i = i + 1;
    }
    proof {
        lemma_quoted_value(body@, i as int);
    }
    if i == body.len() {
        None
    } else {
        Some(slice_range(body, 0, i))
    }
}

/// `quoted_value` is the prefix before the first `"`, when there is one.
proof fn lemma_quoted_value(body: Seq<char>, i: int)
    requires
        0 <= i <= body.len(),
        forall|j: int| 0 <= j < i ==> body[j] != '"',
        i == body.len() || body[i] == '"',
    ensures
        i == body.len() ==> quoted_value(body) is None,
        i < body.len() ==> quoted_value(body) == Some(body.subrange(0, i)),
    decreases i,
{
    if i > 0 {
        lemma_quoted_value(body.drop_first(), i - 1);
        assert(body.subrange(0, i) =~= seq![body[0]] + body.drop_first().subrange(0, i - 1));
    } else {
        assert(body.subrange(0, 0) =~= Seq::<char>::empty());
    }
}

/// Read `[package] name = "x"` from a manifest without a TOML parser:
/// the name of a `[package]` section, or `None` when there is none (or
/// it is inherited from the workspace).
pub fn parse_crate_name(manifest: &str) -> (r: Option<String>)
    ensures
        match crate_name_of(manifest@) {
            Some(n) => r matches Some(x) && x@ == n,
            None => r is None,
        },
{
    let text = chars_of(manifest);
    let lines = split_lines(text.as_slice());
    let ghost all = vec_views(lines@);
    let lb = chars_of("[");
    let pkg = chars_of("[package]");
    let name = chars_of("name");
    let eq = chars_of("=");
    let quote = chars_of("\"");
    let mut in_package = false;
    let mut i: usize = 0;
    assert(all.skip(0) =~= all);
    proof {
        reveal_strlit("name");
        reveal_strlit("=");
        reveal_strlit("\"");
    }
    while i < lines.len()
        invariant
            i <= lines@.len(),
            all == vec_views(lines@),
            all == lines_of(manifest@),
            lb@ == "["@,
            pkg@ == "[package]"@,
            name@ == "name"@,
            eq@ == "="@,
            quote@ == "\""@,
            "name"@.len() == 4,
            "="@.len() == 1,
            "\""@.len() == 1,
            name_scan(all.skip(i as int), in_package) == crate_name_of(manifest@),
        decreases lines.len() - i,
    {
        assert(all.skip(i as int)[0] == lines@[i as int]@);
        assert(all.skip(i as int).drop_first() =~= all.skip(i + 1));
        let bh = before_hash_exec(lines[i].as_slice());
        let line = trim_exec(bh.as_slice());
        if starts_with(line.as_slice(), lb.as_slice()) {
            in_package = chars_eq(line.as_slice(), pkg.as_slice());
        } else if in_package && starts_with(line.as_slice(), name.as_slice()) {
            let after_name = slice_range(line.as_slice(), 4, line.len());
            assert(after_name@ =~= line@.skip(4));
            let r1 = trim_start_exec(after_name.as_slice());
            if !starts_with(r1.as_slice(), eq.as_slice()) {
                return None;
            }
            let after_eq = slice_range(r1.as_slice(), 1, r1.len());
            assert(after_eq@ =~= r1@.skip(1));
            let r2 = trim_start_exec(after_eq.as_slice());
            if starts_with(r2.as_slice(), quote.as_slice()) {
                let body = slice_range(r2.as_slice(), 1, r2.len());
                assert(body@ =~= r2@.skip(1));
                return match quoted_value_exec(body.as_slice()) {
                    Some(v) => Some(string_of(v.as_slice())),
                    None => None,
                };
            }
        }
        i = i + 1;
    }
    None
}

/// The attribute paths that mark a test function (written as
/// `::`-joined segments).
pub open spec fn test_attr_paths() -> Seq<Seq<char>> {
    seq![
        "test"@,
        "tokio::test"@,
        "async_std::test"@,
        "rstest"@,
        "proptest"@,
        "quickcheck"@,
        "test_log::test"@,
    ]
}

/// Whether an attribute with this path marks a test function.
pub fn is_test_attr_path(path: &str) -> (r: bool)
    ensures
        r == test_attr_paths().contains(path@),
{
    proof {
        let t = test_attr_paths();
        assert(t[0] == "test"@ && t[1] == "tokio::test"@ && t[2] == "async_std::test"@ && t[3]
            == "rstest"@ && t[4] == "proptest"@ && t[5] == "quickcheck"@ && t[6] == "test_log::test"@);
    }
    str_eq(path, "test") || str_eq(path, "tokio::test") || str_eq(path, "async_std::test") || str_eq(
        path,
        "rstest",
    ) || str_eq(path, "proptest") || str_eq(path, "quickcheck") || str_eq(path, "test_log::test")
}

/// Whether some attribute, given by its path, marks a test function.
pub fn has_test_attr(paths: &[String]) -> (r: bool)
    ensures
        r == exists|i: int| 0 <= i < paths@.len() && test_attr_paths().contains(#[trigger] paths@[i]@),
{
    let mut i: usize = 0;
    while i < paths.len()
        invariant
            i <= paths@.len(),
            forall|j: int| 0 <= j < i ==> !test_attr_paths().contains(#[trigger] paths@[j]@),
        decreases paths.len() - i,
    {
        if is_test_attr_path(paths[i].as_str()) {
            return true;
        }
        i = i + 1;
    }
    false
}

/// An attribute, given by its path and, when its argument is a bare
/// path, that path, is `#[cfg(test)]`.
pub open spec fn cfg_test_attr(attr: (String, Option<String>)) -> bool {
    attr.0@ == "cfg"@ && (attr.1 matches Some(a) && a@ == "test"@)
}

/// Whether some attribute is `#[cfg(test)]`; each attribute is its path
/// and, when its argument is a bare path, that path.
pub fn is_cfg_test(attrs: &[(String, Option<String>)]) -> (r: bool)
    ensures
        r == exists|i: int| 0 <= i < attrs@.len() && #[trigger] cfg_test_attr(attrs@[i]),
{
    let mut i: usize = 0;
    while i < attrs.len()
        invariant
            i <= attrs@.len(),
            forall|j: int| 0 <= j < i ==> !#[trigger] cfg_test_attr(attrs@[j]),
        decreases attrs.len() - i,
    {
        let (p, a) = &attrs[i];
        let hit = str_eq(p.as_str(), "cfg") && match a {
            Some(x) => str_eq(x.as_str(), "test"),
            None => false,
        };
        if hit {
            assert(cfg_test_attr(attrs@[i as int]));
            return true;
        }
        i = i + 1;
    }
    false
}

/// What the gates read of one piece of parsed Rust syntax, in the order
/// a syntax visitor meets it.
#[derive(Debug)]
pub enum Node {
    /// A function: a free item, an `impl` method or a `trait` method,
    /// according to where it stands.
    Fn {
        /// Its name.
        name: String,
        /// 1-based line of the `fn` keyword.
        line: u32,
        /// Declared fully `pub`.
        is_pub: bool,
        /// Carries `#[cfg(test)]`.
        cfg_test: bool,
        /// Carries a test attribute (`#[test]`, `#[tokio::test]`, …).
        test_attr: bool,
        /// 1-based line of its `unsafe` keyword, when it has one.
        unsafe_line: Option<u32>,
        /// What its signature and body hold.
        body: Vec<Node>,
    },
    /// An `impl` block.
    Impl {
        /// `impl Trait for Type` (as opposed to an inherent impl).
        trait_impl: bool,
        /// Carries `#[cfg(test)]`.
        cfg_test: bool,
        /// 1-based line of its `unsafe` keyword, when it has one.
        unsafe_line: Option<u32>,
        /// Its items.
        items: Vec<Node>,
    },
    /// A `trait` definition.
    Trait {
        /// 1-based line of its `unsafe` keyword, when it has one.
        unsafe_line: Option<u32>,
        /// Its items.
        items: Vec<Node>,
    },
    /// A module; `items` is `None` for an out-of-line `mod name;`.
    Mod {
        /// Carries `#[cfg(test)]`.
        cfg_test: bool,
        /// Its inline items.
        items: Option<Vec<Node>>,
    },
    /// A method call; `inner` holds what its receiver and arguments hold.
    MethodCall {
        /// The method's name.
        name: String,
        /// 1-based line of the method name.
        line: u32,
        /// Receiver, then arguments.
        inner: Vec<Node>,
    },
    /// A macro invocation in expression, statement or item position.
    Macro {
        /// The macro's name when its path is a single identifier.
        name: Option<String>,
        /// 1-based line of that identifier (or of the path).
        line: u32,
    },
    /// An `unsafe { … }` block.
    Unsafe {
        /// 1-based line of the `unsafe` keyword.
        line: u32,
        /// What the block holds.
        inner: Vec<Node>,
    },
    /// Any other syntax, with what it holds.
    Group(Vec<Node>),
}

/// The char offsets at which the lines of `t.take(n)` start (line 1 at
/// 0, and one after each newline).
pub open spec fn starts_upto(t: Seq<char>, n: int) -> Seq<int>
    decreases n,
{
    if n <= 0 {
        seq![0]
    } else if t[n - 1] == '\n' {
        starts_upto(t, n - 1).push(n)
    } else {
        starts_upto(t, n - 1)
    }
}

/// The line index of `t`: the start of each line, then `t.len()` as a
/// sentinel.
pub open spec fn line_starts_of(t: Seq<char>) -> Seq<int> {
    starts_upto(t, t.len() as int).push(t.len() as int)
}

/// Number of lines of `t`: one more than its newlines (an empty last
/// line counts).
pub open spec fn line_count_of(t: Seq<char>) -> int {
    line_starts_of(t).len() - 1
}

/// `x` clamped into `[lo, hi]`.
pub open spec fn clamp(x: int, lo: int, hi: int) -> int {
    if x < lo {
        lo
    } else if x > hi {
        hi
    } else {
        x
    }
}

/// The text of the 1-based, inclusive line range `[a, b]`, clamped to
/// the file.
pub open spec fn window_of(t: Seq<char>, a: int, b: int) -> Seq<char> {
    let total = if line_count_of(t) <= u32::MAX {
        line_count_of(t)
    } else {
        u32::MAX as int
    };
    let s = clamp(a, 1, total);
    let e = clamp(b, s, total);
    t.subrange(line_starts_of(t)[s - 1], line_starts_of(t)[e])
}

/// Facts about the line index: it starts at 0, never decreases and
/// stays within the text.
pub proof fn lemma_starts_shape(t: Seq<char>, n: int)
    requires
        0 <= n <= t.len(),
    ensures
        starts_upto(t, n).len() >= 1,
        starts_upto(t, n)[0] == 0,
        forall|i: int, j: int|
            0 <= i <= j < starts_upto(t, n).len() ==> starts_upto(t, n)[i] <= starts_upto(t, n)[j],
        forall|i: int| 0 <= i < starts_upto(t, n).len() ==> 0 <= #[trigger] starts_upto(t, n)[i] <= n,
    decreases n,
{
    if n > 0 {
        lemma_starts_shape(t, n - 1);
    }
}

/// The char offsets of the line starts of `t`, with the sentinel.
fn compute_line_starts(t: &[char]) -> (r: Vec<usize>)
    ensures
        r@.map_values(|x: usize| x as int) == line_starts_of(t@),
{
    let mut starts: Vec<usize> = Vec::new();
    starts.push(0);
    let mut i: usize = 0;
    assert(starts@.map_values(|x: usize| x as int) =~= starts_upto(t@, 0));
    while i < t.len()
        invariant
            i <= t@.len(),
            starts@.map_values(|x: usize| x as int) == starts_upto(t@, i as int),
        decreases t.len() - i,
    {
        let ghost before = starts@;
        if t[i] == '\n' {
            starts.push(i + 1);
            assert(starts@.map_values(|x: usize| x as int) =~= before.map_values(|x: usize| x as int).push(
                i + 1,
            ));
        }
        i = i + 1;
    }
    let ghost before = starts@;
    starts.push(t.len());
    assert(starts@.map_values(|x: usize| x as int) =~= before.map_values(|x: usize| x as int).push(
        t@.len() as int,
    ));
    starts
}

/// A Rust source file as the gates see it: paths, class, text, syntax
/// outline and line index.
#[derive(Debug)]
#[non_exhaustive]
pub struct RustSource {
    abs_path: String,
    rel_path: String,
    class: SourceClass,
    text: String,
    ast: Vec<Node>,
    chars: Vec<char>,
    line_starts: Vec<usize>,
}

impl RustSource {
    #[verifier::type_invariant]
    closed spec fn inv(self) -> bool {
        &&& self.chars@ == self.text@
        &&& self.line_starts@.map_values(|x: usize| x as int) == line_starts_of(self.text@)
    }

    /// Absolute path on disk.
    pub closed spec fn abs_view(self) -> Seq<char> {
        self.abs_path@
    }

    /// Path relative to the repo root.
    pub closed spec fn rel_view(self) -> Seq<char> {
        self.rel_path@
    }

    /// Classification.
    pub closed spec fn class_view(self) -> SourceClass {
        self.class
    }

    /// Source text.
    pub closed spec fn text_view(self) -> Seq<char> {
        self.text@
    }

    /// Syntax outline: the file's items.
    pub closed spec fn items(self) -> Seq<Node> {
        self.ast@
    }

    /// A source from its paths, text and syntax outline. The class comes
    /// from the repo-relative path, except that library code of a crate
    /// with no `src/lib.rs` (`binary_only_crate`) counts as binary.
    pub fn new(abs_path: String, rel_path: String, text: String, ast: Vec<Node>, binary_only_crate: bool) -> (r: Self)
        ensures
            r.abs_view() == abs_path@,
            r.rel_view() == rel_path@,
            r.text_view() == text@,
            r.items() == ast@,
            r.class_view() == if class_of(rel_path@) == SourceClass::Library && binary_only_crate {
                SourceClass::Bin
            } else {
                class_of(rel_path@)
            },
    {
        let mut class = SourceClass::classify(rel_path.as_str());
        if class == SourceClass::Library && binary_only_crate {
            class = SourceClass::Bin;
        }
        let chars = chars_of(text.as_str());
        let line_starts = compute_line_starts(chars.as_slice());
        RustSource { abs_path, rel_path, class, text, ast, chars, line_starts }
    }

    /// Absolute path on disk.
    pub fn abs_path(&self) -> (r: &str)
        ensures
            r@ == self.abs_view(),
    {
        self.abs_path.as_str()
    }

    /// Path relative to the repo root.
    pub fn rel_path(&self) -> (r: &str)
        ensures
            r@ == self.rel_view(),
    {
        self.rel_path.as_str()
    }

    /// Classification.
    pub fn class(&self) -> (r: SourceClass)
        ensures
            r == self.class_view(),
    {
        self.class
    }

    /// Source text.
    pub fn text(&self) -> (r: &str)
        ensures
            r@ == self.text_view(),
    {
        self.text.as_str()
    }

    /// Syntax outline.
    pub fn ast(&self) -> (r: &Vec<Node>)
        ensures
            r@ == self.items(),
    {
        &self.ast
    }

    /// Total number of lines (an empty last line counts).
    pub fn line_count(&self) -> (r: u32)
        ensures
            r == if line_count_of(self.text_view()) <= u32::MAX {
                line_count_of(self.text_view())
            } else {
                u32::MAX as int
            },
    {
        proof {
            use_type_invariant(self);
            lemma_starts_shape(self.text@, self.text@.len() as int);
        }
        assert(self.line_starts@.len() == line_starts_of(self.text@).len());
        let n = self.line_starts.len() - 1;
        assert(self.line_starts@.map_values(|x: usize| x as int).len() == self.line_starts@.len());
        if n > 0xffff_ffffusize {
            u32::MAX
        } else {
            n as u32
        }
    }

    /// The text of the 1-based, inclusive line range
    /// `[start_line, end_line]`, clamped to the file.
    pub fn line_window(&self, start_line: u32, end_line: u32) -> (r: String)
        ensures
            r@ == window_of(self.text_view(), start_line as int, end_line as int),
    {
        proof {
            use_type_invariant(self);
            lemma_starts_shape(self.text@, self.text@.len() as int);
        }
        let ghost st = line_starts_of(self.text@);
        assert(self.line_starts@.len() == st.len());
        let total = self.line_count();
        let s = if start_line < 1 {
            1
        } else if start_line > total {
            total
        } else {
            start_line
        };
        let e = if end_line < s {
            s
        } else if end_line > total {
            total
        } else {
            end_line
        };
        let s_idx = self.line_starts[(s - 1) as usize];
        let e_idx = self.line_starts[e as usize];
        assert(s_idx as int == st[s - 1]);
        assert(e_idx as int == st[e as int]);
        assert(st[s - 1] <= st[e as int]);
        assert(st[e as int] <= self.text@.len()) by {
            if (e as int) < st.len() - 1 {
                assert(starts_upto(self.text@, self.text@.len() as int)[e as int] <= self.text@.len());
            }
        }
        let v = slice_range(self.chars.as_slice(), s_idx, e_idx);
        string_of(v.as_slice())
    }

    /// The byte offsets of the line starts, with the sentinel.
    fn byte_line_starts(&self) -> (r: Vec<usize>)
        ensures
            r@.map_values(|x: usize| x as int) == byte_starts_of(vstd::utf8::encode_utf8(self.text_view())),
    {
        let b = self.text.as_str().as_bytes();
        let mut starts: Vec<usize> = Vec::new();
        starts.push(0);
        let mut i: usize = 0;
        assert(starts@.map_values(|x: usize| x as int) =~= byte_starts_upto(b@, 0));
        while i < b.len()
            invariant
                i <= b@.len(),
                b@ == vstd::utf8::encode_utf8(self.text_view()),
                starts@.map_values(|x: usize| x as int) == byte_starts_upto(b@, i as int),
            decreases b.len() - i,
        {
            let ghost before = starts@;
            if b[i] == 10u8 {
                starts.push(i + 1);
                assert(starts@.map_values(|x: usize| x as int) =~= before.map_values(|x: usize| x as int).push(
                    i + 1,
                ));
            }
            i = i + 1;
        }
        let ghost before = starts@;
        starts.push(b.len());
        assert(starts@.map_values(|x: usize| x as int) =~= before.map_values(|x: usize| x as int).push(
            b@.len() as int,
        ));
        starts
    }

    /// The 1-based line holding byte offset `byte_offset`: the line that
    /// starts exactly there, else the last line starting before it (line
    /// 1 at the least).
    pub fn line_for_offset(&self, byte_offset: usize) -> (r: u32)
        ensures
            r == line_at(byte_starts_of(vstd::utf8::encode_utf8(self.text_view())), byte_offset as int),
    {
        let starts = self.byte_line_starts();
        let ghost st = starts@.map_values(|x: usize| x as int);
        let mut k: usize = 0;
        while k < starts.len() && starts[k] < byte_offset
            invariant
                k <= starts@.len(),
                st == starts@.map_values(|x: usize| x as int),
                forall|j: int| 0 <= j < k ==> st[j] < byte_offset,
            decreases starts.len() - k,
        {
            k = k + 1;
        }
        assert(first_at_least(st, byte_offset as int) == k as int) by {
            lemma_first_at_least(st, byte_offset as int, k as int);
        }
        let found = k < starts.len() && starts[k] == byte_offset;
        let idx: usize = if found {
            k + 1
        } else if k < 1 {
            1
        } else {
            k
        };
        if idx > 0xffff_ffffusize {
            u32::MAX
        } else {
            idx as u32
        }
    }
}

/// The byte offsets at which the lines of `b.take(n)` start.
pub open spec fn byte_starts_upto(b: Seq<u8>, n: int) -> Seq<int>
    decreases n,
{
    if n <= 0 {
        seq![0]
    } else if b[n - 1] == 10u8 {
        byte_starts_upto(b, n - 1).push(n)
    } else {
        byte_starts_upto(b, n - 1)
    }
}

/// The byte line index of UTF-8 bytes `b`, with `b.len()` as sentinel.
pub open spec fn byte_starts_of(b: Seq<u8>) -> Seq<int> {
    byte_starts_upto(b, b.len() as int).push(b.len() as int)
}

/// The first position of `st` holding a value of at least `x` (or its
/// length).
pub open spec fn first_at_least(st: Seq<int>, x: int) -> int
    decreases st.len(),
{
    if st.len() == 0 {
        0
    } else if st[0] >= x {
        0
    } else {
        1 + first_at_least(st.drop_first(), x)
    }
}

/// The line `line_for_offset` reports, saturated to `u32`.
pub open spec fn line_at(st: Seq<int>, off: int) -> u32 {
    let k = first_at_least(st, off);
    let idx = if k < st.len() && st[k] == off {
        k + 1
    } else if k < 1 {
        1
    } else {
        k
    };
    if idx <= u32::MAX {
        idx as u32
    } else {
        u32::MAX
    }
}

/// `first_at_least` is the first position not below `x`.
proof fn lemma_first_at_least(st: Seq<int>, x: int, k: int)
    requires
        0 <= k <= st.len(),
        forall|j: int| 0 <= j < k ==> st[j] < x,
        k == st.len() || st[k] >= x,
    ensures
        first_at_least(st, x) == k,
    decreases k,
{
    if k > 0 {
        lemma_first_at_least(st.drop_first(), x, k - 1);
    }
}

/// The last `/`-separated component of `p`.
pub open spec fn file_name_of(p: Seq<char>) -> Seq<char>
    decreases p.len(),
{
    if p.len() == 0 {
        p
    } else if p.last() == '/' {
        Seq::empty()
    } else {
        file_name_of(p.drop_last()).push(p.last())
    }
}

/// The path's extension is `rs` (`Path::extension`): its file name ends
/// with `.rs` with something before the dot.
pub open spec fn has_rs_extension(p: Seq<char>) -> bool {
    let n = file_name_of(p);
    n.len() >= 4 && has_suffix(n, ".rs"@)
}

/// The `/`-separated components of `s`, the first continuing `cur`.
pub open spec fn comps_from(s: Seq<char>, cur: Seq<char>) -> Seq<Seq<char>>
    decreases s.len(),
{
    if s.len() == 0 {
        seq![cur]
    } else if s[0] == '/' {
        seq![cur] + comps_from(s.drop_first(), Seq::empty())
    } else {
        comps_from(s.drop_first(), cur.push(s[0]))
    }
}

/// Some `/`-separated component of `rel` is exactly `target`.
pub open spec fn has_target_component(rel: Seq<char>) -> bool {
    comps_from(rel, Seq::empty()).contains("target"@)
}

/// A sequence headed by `c` holds `x` exactly when `c` is `x` or the
/// rest holds it.
proof fn lemma_contains_cons(c: Seq<char>, r: Seq<Seq<char>>, x: Seq<char>)
    ensures
        (seq![c] + r).contains(x) == (c == x || r.contains(x)),
{
    let all = seq![c] + r;
    if c == x {
        assert(all[0] == x);
    }
    if r.contains(x) {
        let k = choose|k: int| 0 <= k < r.len() && r[k] == x;
        assert(all[k + 1] == x);
    }
    if all.contains(x) {
        let k = choose|k: int| 0 <= k < all.len() && all[k] == x;
        if k > 0 {
            assert(r[k - 1] == x);
        }
    }
}

/// Some `/`-separated component of `rel` starts with `.`: the path lies
/// in a hidden directory, or is a hidden file.
pub open spec fn has_hidden_component(rel: Seq<char>) -> bool {
    exists|i: int| 0 <= i < rel.len() && #[trigger] starts_hidden(rel, i)
}

/// A component of `rel` starts at `i`, and with a `.`.
pub open spec fn starts_hidden(rel: Seq<char>, i: int) -> bool {
    rel[i] == '.' && (i == 0 || rel[i - 1] == '/')
}

/// Whether the walker keeps a file at `path` (relative to the root as
/// `rel`, when it lies under the root): a `.rs` file outside any
/// `target/` directory and outside hidden directories.
pub open spec fn wanted_spec(path: Seq<char>, rel: Option<Seq<char>>) -> bool {
    has_rs_extension(path) && !(rel matches Some(r) && (has_target_component(r)
        || has_hidden_component(r)))
}

/// Whether some component of `rel` starts with `.`.
fn has_hidden_component_exec(rel: &[char]) -> (r: bool)
    ensures
        r == has_hidden_component(rel@),
{
    let mut i: usize = 0;
    while i < rel.len()
        invariant
            i <= rel@.len(),
            forall|j: int| 0 <= j < i ==> !#[trigger] starts_hidden(rel@, j),
        decreases rel.len() - i,
    {
        if rel[i] == '.' && (i == 0 || rel[i - 1] == '/') {
            assert(starts_hidden(rel@, i as int));
            return true;
        }
        i = i + 1;
    }
    false
}

/// The file name of `p` (after its last `/`).
fn file_name_exec(p: &[char]) -> (r: Vec<char>)
    ensures
        r@ == file_name_of(p@),
{
    let mut k: usize = p.len();
    while k > 0 && p[k - 1] != '/'
        invariant
            k <= p@.len(),
            forall|j: int| k <= j < p@.len() ==> p@[j] != '/',
        decreases k,
    {
        k = k - 1;
    }
    proof {
        lemma_file_name(p@, k as int);
    }
    slice_range(p, k, p.len())
}

/// `file_name_of` is what follows the last `/`.
proof fn lemma_file_name(p: Seq<char>, k: int)
    requires
        0 <= k <= p.len(),
        forall|j: int| k <= j < p.len() ==> p[j] != '/',
        k == 0 || p[k - 1] == '/',
    ensures
        file_name_of(p) == p.subrange(k, p.len() as int),
    decreases p.len(),
{
    if p.len() > k {
        lemma_file_name(p.drop_last(), k);
        assert(p.subrange(k, p.len() as int) =~= p.drop_last().subrange(k, p.len() - 1).push(p.last()));
    } else {
        assert(p.subrange(k, p.len() as int) =~= Seq::<char>::empty());
        if p.len() > 0 {
            assert(p.last() == '/');
        }
    }
}

/// Whether some component of `rel` is `target`.
fn has_target_component_exec(rel: &[char]) -> (r: bool)
    ensures
        r == has_target_component(rel@),
{
    let target = chars_of("target");
    let ghost t = "target"@;
    let mut cur: Vec<char> = Vec::new();
    let mut found = false;
    let mut i: usize = 0;
    assert(rel@.skip(0) =~= rel@);
    while i < rel.len()
        invariant
            i <= rel@.len(),
            target@ == t,
            t == "target"@,
            has_target_component(rel@) == (found || comps_from(rel@.skip(i as int), cur@).contains(t)),
        decreases rel.len() - i,
    {
        let c = rel[i];
        assert(rel@.skip(i as int)[0] == c);
        assert(rel@.skip(i as int).drop_first() =~= rel@.skip(i + 1));
        if c == '/' {
            proof {
                lemma_contains_cons(cur@, comps_from(rel@.skip(i + 1), Seq::empty()), t);
            }
            if chars_eq(cur.as_slice(), target.as_slice()) {
                found = true;
            }
            cur = Vec::new();
        } else {
            cur.push(c);
        }
        i = i + 1;
    }
    proof {
        assert(rel@.skip(i as int) =~= Seq::<char>::empty());
        assert(comps_from(rel@.skip(i as int), cur@) =~= seq![cur@]);
        if cur@ == t {
            assert(seq![cur@][0] == t);
        }
        if seq![cur@].contains(t) {
            let k = choose|k: int| 0 <= k < 1 && seq![cur@][k] == t;
        }
    }
    found || chars_eq(cur.as_slice(), target.as_slice())
}

/// Whether the walker keeps the file at `path`: a `.rs` file, not under
/// a `target/` directory of the root nor under a hidden directory (`rel`
/// is its path relative to the root, when it has one).
pub fn wanted_source(path: &str, rel: Option<&str>) -> (r: bool)
    ensures
        r == wanted_spec(
            path@,
            match rel {
                Some(x) => Some(x@),
                None => None,
            },
        ),
{
    let pv = chars_of(path);
    let name = file_name_exec(pv.as_slice());
    let suffix = chars_of(".rs");
    if !(name.len() >= 4 && ends_with(name.as_slice(), suffix.as_slice())) {
        return false;
    }
    match rel {
        Some(r) => {
            let rv = chars_of(r);
            !has_target_component_exec(rv.as_slice()) && !has_hidden_component_exec(rv.as_slice())
        },
        None => true,
    }
}

} // verus!
