//! The `User-Agent` sent upstream and the version it carries.

use vstd::prelude::*;
use crate::chars::{chars_of, string_of};
use crate::punctuation::{trim, trim_chars};

verus! {

/// Version used when neither the remote endpoint nor the build gives one.
pub const FALLBACK_VERSION: &'static str = "1.15.8";

/// The characters of `s` before its first `-`.
pub open spec fn before_dash(s: Seq<char>) -> Seq<char>
    decreases s.len(),
{
    if s.len() == 0 {
        s
    } else if s[0] == '-' {
        seq![]
    } else {
        seq![s[0]] + before_dash(s.drop_first())
    }
}

/// The version in a remote answer: trimmed, up to its first `-`; none when
/// that is empty.
pub open spec fn remote_version(text: Seq<char>) -> Option<Seq<char>> {
    let v = before_dash(trim(text));
    if v.len() > 0 {
        Some(v)
    } else {
        None
    }
}

pub fn clean_remote_version(text: &str) -> (r: Option<String>)
    ensures
        r matches Some(v) ==> remote_version(text@) == Some(v@),
        r is None ==> remote_version(text@) is None,
{
    let t = trim_chars(&chars_of(text));
    let mut v: Vec<char> = Vec::new();
    let mut i: usize = 0;
    assert(t@.subrange(0, t@.len() as int) =~= t@);
    assert(v@ + before_dash(t@) =~= before_dash(t@));
    while i < t.len() && t[i] != '-'
        invariant
            i <= t@.len(),
            v@ =~= t@.subrange(0, i as int),
            before_dash(t@) == v@ + before_dash(t@.subrange(i as int, t@.len() as int)),
        decreases t@.len() - i,
    {
        let ghost rest = t@.subrange(i as int, t@.len() as int);
        assert(rest[0] == t@[i as int]);
        assert(rest.drop_first() =~= t@.subrange(i + 1, t@.len() as int));
        v.push(t[i]);
        i += 1;
    }
    proof {
        let rest = t@.subrange(i as int, t@.len() as int);
        if i < t@.len() {
            assert(rest[0] == t@[i as int]);
        }
        assert(v@ + before_dash(rest) =~= v@);
    }
    if v.len() > 0 {
        Some(string_of(&v))
    } else {
        None
    }
}

pub open spec fn contains_char(s: Seq<char>, c: char) -> bool {
    exists|i: int| 0 <= i < s.len() && s[i] == c
}

/// The remote version when there is one; else the build's version when it
/// is non-empty and holds a `.`; else the fallback.
pub open spec fn chosen_version(remote: Option<Seq<char>>, build: Seq<char>) -> Seq<char> {
    match remote {
        Some(v) => v,
        None => if build.len() > 0 && contains_char(build, '.') {
            build
        } else {
            FALLBACK_VERSION@
        },
    }
}

pub fn resolve_version(remote: Option<String>, build_version: &str) -> (r: String)
    ensures
        r@ == chosen_version(
            match remote {
                Some(v) => Some(v@),
                None => None,
            },
            build_version@,
        ),
{
    if let Some(v) = remote {
        return v;
    }
    let b = chars_of(build_version);
    let mut i: usize = 0;
    while i < b.len()
        invariant
            i <= b@.len(),
            b@ == build_version@,
            remote is None,
            forall|j: int| 0 <= j < i ==> b@[j] != '.',
        decreases b@.len() - i,
    {
        if b[i] == '.' {
            assert(contains_char(b@, b@[i as int]));
            return string_of(&b);
        }
        i += 1;
    }
    String::from_str(FALLBACK_VERSION)
}

/// `antigravity/<version> <os>/<arch>`.
pub open spec fn user_agent_text(version: Seq<char>, os: Seq<char>, arch: Seq<char>) -> Seq<char> {
    "antigravity/"@ + version + seq![' '] + os + seq!['/'] + arch
}

pub fn build_user_agent(version: &str, os: &str, arch: &str) -> (r: String)
    ensures
        r@ == user_agent_text(version@, os@, arch@),
{
    let r = String::from_str("antigravity/").concat(version).concat(" ").concat(os).concat("/").concat(
        arch,
    );
    proof {
        reveal_strlit(" ");
        reveal_strlit("/");
        assert(" "@ =~= seq![' ']);
        assert("/"@ =~= seq!['/']);
    }
    r
}

} // verus!
