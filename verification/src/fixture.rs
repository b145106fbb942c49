//! The scenario a fake agent binary plays in driver tests: read from the
//! `FIXTURE=<scenario>` token of its `--append-system-prompt` argument.

use vstd::prelude::*;

use crate::text::{char_is_ws, chars_of, has_prefix, is_ws, str_eq, string_views};

verus! {

/// What the fake agent does.
#[derive(Debug, Clone, Copy, PartialEq, Eq, Structural)]
pub enum Scenario {
    /// Init event, one text delta, a stop, exit 0.
    Happy,
    /// Init event, a stderr line, exit 1.
    Permission,
    /// Init event, a rate-limit retry event, exit 0.
    RateLimit,
    /// Exit 2.
    InvalidArgs,
    /// Sleep until killed.
    Hang,
}

/// The argument after the first `--append-system-prompt`, or nothing.
pub open spec fn prompt_of(args: Seq<Seq<char>>) -> Seq<char>
    decreases args.len(),
{
    if args.len() == 0 {
        Seq::empty()
    } else if args[0] == "--append-system-prompt"@ {
        if args.len() > 1 {
            args[1]
        } else {
            Seq::empty()
        }
    } else {
        prompt_of(args.drop_first())
    }
}

/// The whitespace-separated tokens of `s` after the partial token `cur`
/// (`str::split_whitespace`).
pub open spec fn tokens_from(s: Seq<char>, cur: Seq<char>) -> Seq<Seq<char>>
    decreases s.len(),
{
    if s.len() == 0 {
        if cur.len() > 0 {
            seq![cur]
        } else {
            Seq::empty()
        }
    } else if is_ws(s[0]) {
        (if cur.len() > 0 {
            seq![cur]
        } else {
            Seq::empty()
        }) + tokens_from(s.drop_first(), Seq::empty())
    } else {
        tokens_from(s.drop_first(), cur.push(s[0]))
    }
}

/// The name after `FIXTURE=` in the first token carrying it.
pub open spec fn fixture_name(tokens: Seq<Seq<char>>) -> Option<Seq<char>>
    decreases tokens.len(),
{
    if tokens.len() == 0 {
        None
    } else if has_prefix(tokens[0], "FIXTURE="@) {
        Some(tokens[0].skip(8))
    } else {
        fixture_name(tokens.drop_first())
    }
}

/// The scenario a name selects; unknown names and no name play `Happy`.
pub open spec fn scenario_named(name: Option<Seq<char>>) -> Scenario {
    match name {
        Some(n) => if n == "permission"@ {
            Scenario::Permission
        } else if n == "rate_limit"@ {
            Scenario::RateLimit
        } else if n == "invalid_args"@ {
            Scenario::InvalidArgs
        } else if n == "hang"@ {
            Scenario::Hang
        } else {
            Scenario::Happy
        },
        None => Scenario::Happy,
    }
}

/// The prompt argument of a command line.
fn prompt_arg(args: &Vec<String>) -> (r: Vec<char>)
    ensures
        r@ == prompt_of(string_views(args@)),
{
    let ghost all = string_views(args@);
    let mut i: usize = 0;
    assert(all.skip(0) =~= all);
    while i < args.len()
        invariant
            i <= args@.len(),
            all == string_views(args@),
            prompt_of(all.skip(i as int)) == prompt_of(all),
        decreases args.len() - i,
    {
        let ghost rest = all.skip(i as int);
        assert(rest[0] == args@[i as int]@);
        assert(rest.drop_first() =~= all.skip(i + 1));
        if str_eq(args[i].as_str(), "--append-system-prompt") {
            if i + 1 < args.len() {
                assert(rest[1] == args@[i + 1]@);
                return chars_of(args[i + 1].as_str());
            }
            return Vec::new();
        }
        i = i + 1;
    }
    assert(all.skip(i as int) =~= Seq::<Seq<char>>::empty());
    Vec::new()
}

/// The fixture name of a prompt, scanning its tokens in order.
fn fixture_of(p: &Vec<char>) -> (r: Option<Vec<char>>)
    ensures
        match r {
            Some(v) => fixture_name(tokens_from(p@, Seq::empty())) == Some(v@),
            None => fixture_name(tokens_from(p@, Seq::empty())) is None,
        },
{
    let mut cur: Vec<char> = Vec::new();
    let mut i: usize = 0;
    let key = chars_of("FIXTURE=");
    proof {
        reveal_strlit("FIXTURE=");
    }
    assert(p@.skip(0) =~= p@);
    while i < p.len()
        invariant
            i <= p@.len(),
            key@ == "FIXTURE="@,
            key@.len() == 8,
            fixture_name(tokens_from(p@.skip(i as int), cur@)) == fixture_name(tokens_from(p@, Seq::empty())),
        decreases p.len() - i,
    {
        let c = p[i];
        let ghost rest = p@.skip(i as int);
        assert(rest[0] == c);
        assert(rest.drop_first() =~= p@.skip(i + 1));
        if char_is_ws(c) {
            if cur.len() > 0 {
                if crate::text::starts_with(cur.as_slice(), key.as_slice()) {
                    let name = crate::text::slice_range(cur.as_slice(), 8, cur.len());
                    assert(name@ =~= cur@.skip(8));
                    return Some(name);
                }
                assert(tokens_from(rest, cur@) == seq![cur@] + tokens_from(p@.skip(i + 1), Seq::empty()));
                assert((seq![cur@] + tokens_from(p@.skip(i + 1), Seq::empty())).drop_first() =~= tokens_from(
                    p@.skip(i + 1),
                    Seq::empty(),
                ));
            } else {
                assert(Seq::<Seq<char>>::empty() + tokens_from(p@.skip(i + 1), Seq::empty()) =~= tokens_from(
                    p@.skip(i + 1),
                    Seq::empty(),
                ));
            }
            cur = Vec::new();
        } else {
            cur.push(c);
        }
        i = i + 1;
    }
    assert(p@.skip(i as int) =~= Seq::<char>::empty());
    if cur.len() > 0 && crate::text::starts_with(cur.as_slice(), key.as_slice()) {
        let name = crate::text::slice_range(cur.as_slice(), 8, cur.len());
        assert(name@ =~= cur@.skip(8));
        return Some(name);
    }
    proof {
        let t = tokens_from(p@.skip(i as int), cur@);
        if cur@.len() > 0 {
            assert(t == seq![cur@]);
            assert(!has_prefix(cur@, "FIXTURE="@));
            assert(seq![cur@].drop_first() =~= Seq::<Seq<char>>::empty());
            assert(fixture_name(seq![cur@]) == fixture_name(Seq::<Seq<char>>::empty()));
        } else {
            assert(t == Seq::<Seq<char>>::empty());
        }
    }
    None
}

/// The scenario a fake agent plays for its command line `args`.
pub fn fixture_scenario(args: &Vec<String>) -> (r: Scenario)
    ensures
        r == scenario_named(fixture_name(tokens_from(prompt_of(string_views(args@)), Seq::empty()))),
{
    let p = prompt_arg(args);
    match fixture_of(&p) {
        Some(n) => {
            let s = crate::text::string_of(n.as_slice());
            if str_eq(s.as_str(), "permission") {
                Scenario::Permission
            } else if str_eq(s.as_str(), "rate_limit") {
                Scenario::RateLimit
            } else if str_eq(s.as_str(), "invalid_args") {
                Scenario::InvalidArgs
            } else if str_eq(s.as_str(), "hang") {
                Scenario::Hang
            } else {
                Scenario::Happy
            }
        },
        None => Scenario::Happy,
    }
}

} // verus!
