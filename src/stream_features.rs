//! Model identifiers that ask for emulated streaming.

use vstd::prelude::*;
use crate::chars::{chars_of, string_of};
use crate::punctuation::{find_chars, find_from, match_at};

verus! {

/// Marker in front of a model id asking for emulated streaming ("假流式/").
pub const FAKE_STREAM_PREFIX: &'static str = "\u{5047}\u{6d41}\u{5f0f}/";

pub open spec fn fake_stream_prefix() -> Seq<char> {
    seq!['\u{5047}', '\u{6d41}', '\u{5f0f}', '/']
}

pub open spec fn image_word() -> Seq<char> {
    seq!['i', 'm', 'a', 'g', 'e']
}

/// `p` occurs somewhere in `s`.
pub open spec fn contains_seq(s: Seq<char>, p: Seq<char>) -> bool {
    exists|k: int| match_at(s, p, k)
}

/// What `str::to_lowercase` returns for a string with characters `s`.
pub uninterp spec fn lowercase_of(s: Seq<char>) -> Seq<char>;

/// Relies on `str::to_lowercase`: the result depends on the characters alone.
#[verifier::external_body]
pub(crate) fn to_lowercase(s: &str) -> (r: String)
    ensures
        r@ == lowercase_of(s@),
{
    s.to_lowercase()
}

pub open spec fn image_model(model: Seq<char>) -> bool {
    contains_seq(lowercase_of(model), image_word())
}

proof fn lemma_find_none(t: Seq<char>, p: Seq<char>, k: int)
    requires
        0 <= k,
        find_from(t, p, k) is None,
    ensures
        forall|j: int| k <= j ==> !match_at(t, p, j),
    decreases t.len() + 1 - k,
{
    if !(k + p.len() > t.len()) {
        lemma_find_none(t, p, k + 1);
    }
}

proof fn lemma_find_some(t: Seq<char>, p: Seq<char>, k: int)
    ensures
        find_from(t, p, k) matches Some(j) ==> k <= j && match_at(t, p, j),
    decreases t.len() + 1 - k,
{
    if !(k < 0 || k + p.len() > t.len()) && !match_at(t, p, k) {
        lemma_find_some(t, p, k + 1);
    }
}

pub(crate) fn contains_chars(t: &Vec<char>, p: &Vec<char>) -> (r: bool)
    ensures
        r == contains_seq(t@, p@),
{
    let found = find_chars(t, p, 0);
    proof {
        lemma_find_some(t@, p@, 0);
        if found is None {
            lemma_find_none(t@, p@, 0);
        }
    }
    found.is_some()
}

/// Whether an already lower-cased model id names an image model.
pub fn mentions_image(lowered: &str) -> (r: bool)
    ensures
        r == contains_seq(lowered@, image_word()),
{
    let t = chars_of(lowered);
    let word = vec!['i', 'm', 'a', 'g', 'e'];
    assert(word@ =~= image_word());
    contains_chars(&t, &word)
}

pub fn is_image_model(model: &str) -> (r: bool)
    ensures
        r == image_model(model@),
{
    let lowered = to_lowercase(model);
    mentions_image(lowered.as_str())
}

/// Removes the emulated-streaming marker; the flag tells whether it was there.
pub fn strip_fake_stream_prefix(model: &str) -> (r: (String, bool))
    ensures
        r.1 == (model@.len() >= 4 && model@.subrange(0, 4) == fake_stream_prefix()),
        r.1 ==> r.0@ == model@.subrange(4, model@.len() as int),
        !r.1 ==> r.0@ == model@,
{
    let t = chars_of(model);
    let n = t.len();
    let prefix = vec!['\u{5047}', '\u{6d41}', '\u{5f0f}', '/'];
    assert(prefix@ =~= fake_stream_prefix());
    if n >= 4 && t[0] == prefix[0] && t[1] == prefix[1] && t[2] == prefix[2] && t[3] == prefix[3] {
        assert(t@.subrange(0, 4) =~= fake_stream_prefix());
        let mut rest: Vec<char> = Vec::new();
        let mut k: usize = 4;
        while k < n
            invariant
                4 <= k <= n == t@.len(),
                rest@ =~= t@.subrange(4, k as int),
            decreases n - k,
        {
            rest.push(t[k]);
            k += 1;
        }
        return (string_of(&rest), true);
    }
    proof {
        if n >= 4 {
            assert(t@.subrange(0, 4)[0] == t@[0]);
            assert(t@.subrange(0, 4)[1] == t@[1]);
            assert(t@.subrange(0, 4)[2] == t@[2]);
            assert(t@.subrange(0, 4)[3] == t@[3]);
        }
    }
    (string_of(&t), false)
}

pub open spec fn string_views(v: Seq<String>) -> Seq<Seq<char>> {
    v.map_values(|s: String| s@)
}

/// The prefixed copies of the ids in `models` that are not image models, in order.
pub open spec fn prefixed_models(models: Seq<Seq<char>>) -> Seq<Seq<char>>
    decreases models.len(),
{
    if models.len() == 0 {
        seq![]
    } else if image_model(models.last()) {
        prefixed_models(models.drop_last())
    } else {
        prefixed_models(models.drop_last()).push(fake_stream_prefix() + models.last())
    }
}

fn with_fake_stream_prefix(model: &String) -> (r: String)
    ensures
        r@ == fake_stream_prefix() + model@,
{
    let t = chars_of(model.as_str());
    let mut out = vec!['\u{5047}', '\u{6d41}', '\u{5f0f}', '/'];
    let mut k: usize = 0;
    while k < t.len()
        invariant
            k <= t@.len(),
            out@ =~= fake_stream_prefix() + t@.subrange(0, k as int),
        decreases t@.len() - k,
    {
        out.push(t[k]);
        k += 1;
    }
    assert(t@.subrange(0, t@.len() as int) =~= t@);
    string_of(&out)
}

/// When enabled, appends a marked copy of every model id that is not an image model.
pub fn append_fake_stream_prefixes(models: Vec<String>, enabled: bool) -> (r: Vec<String>)
    ensures
        !enabled ==> string_views(r@) == string_views(models@),
        enabled ==> string_views(r@) == string_views(models@) + prefixed_models(
            string_views(models@),
        ),
{
    if !enabled {
        return models;
    }
    let n = models.len();
    let ghost orig = string_views(models@);
    let mut prefixed: Vec<String> = Vec::new();
    let mut i: usize = 0;
    while i < n
        invariant
            i <= n == models@.len(),
            orig == string_views(models@),
            string_views(prefixed@) == prefixed_models(orig.subrange(0, i as int)),
        decreases n - i,
    {
        assert(orig.subrange(0, i + 1).drop_last() =~= orig.subrange(0, i as int));
        let ghost before = prefixed@;
        if !is_image_model(models[i].as_str()) {
            let p = with_fake_stream_prefix(&models[i]);
            prefixed.push(p);
            assert(string_views(prefixed@) =~= string_views(before).push(p@));
        }
        i += 1;
    }
    assert(orig.subrange(0, n as int) =~= orig);
    let mut all_models = models;
    let ghost front = all_models@;
    all_models.append(&mut prefixed);
    assert(string_views(all_models@) =~= string_views(front) + prefixed_models(orig));
    all_models
}

} // verus!
