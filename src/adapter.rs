//! Rewriting of a client request for the chosen upstream: model resolution,
//! thinking budget, system-instruction injection and context-usage levels.

use vstd::prelude::*;
use crate::chars::{chars_of, string_of};
use crate::punctuation::{trim, trim_chars};
use crate::config::{
    ExperimentalConfig, GlobalSystemPromptConfig, ThinkingBudgetConfig, ThinkingBudgetMode,
    ZaiConfig,
};
use crate::stream_features::{
    contains_chars, contains_seq, fake_stream_prefix, lowercase_of, strip_fake_stream_prefix,
    to_lowercase,
};

verus! {

// ---------------------------------------------------------------------------
// Thinking budget
// ---------------------------------------------------------------------------

/// Ceiling of the thinking budget of flash / thinking model families under `Auto`.
pub const AUTO_THINKING_BUDGET_CAP: u32 = 24576;

pub open spec fn flash_word() -> Seq<char> {
    seq!['f', 'l', 'a', 's', 'h']
}

pub open spec fn thinking_word() -> Seq<char> {
    seq!['t', 'h', 'i', 'n', 'k', 'i', 'n', 'g']
}

/// A lower-cased model id of the flash or thinking families.
pub open spec fn capped_family(lowered: Seq<char>) -> bool {
    contains_seq(lowered, flash_word()) || contains_seq(lowered, thinking_word())
}

/// The budget forwarded upstream for a caller's `requested` budget.
pub open spec fn budget_for(cfg: ThinkingBudgetConfig, capped: bool, requested: Option<u32>) -> Option<
    u32,
> {
    match cfg.mode {
        ThinkingBudgetMode::Passthrough => requested,
        ThinkingBudgetMode::Custom => Some(cfg.custom_value),
        ThinkingBudgetMode::Auto => match requested {
            Some(b) => if capped && b > AUTO_THINKING_BUDGET_CAP {
                Some(AUTO_THINKING_BUDGET_CAP)
            } else {
                Some(b)
            },
            None => None,
        },
    }
}

/// Whether an already lower-cased model id belongs to a capped family.
pub fn is_capped_family(lowered: &str) -> (r: bool)
    ensures
        r == capped_family(lowered@),
{
    let t = chars_of(lowered);
    let flash = vec!['f', 'l', 'a', 's', 'h'];
    let thinking = vec!['t', 'h', 'i', 'n', 'k', 'i', 'n', 'g'];
    assert(flash@ =~= flash_word());
    assert(thinking@ =~= thinking_word());
    contains_chars(&t, &flash) || contains_chars(&t, &thinking)
}

/// The thinking budget for a model whose family is already known.
pub fn thinking_budget_for_family(cfg: &ThinkingBudgetConfig, capped: bool, requested: Option<u32>) -> (r:
    Option<u32>)
    ensures
        r == budget_for(*cfg, capped, requested),
{
    match cfg.mode {
        ThinkingBudgetMode::Passthrough => requested,
        ThinkingBudgetMode::Custom => Some(cfg.custom_value),
        ThinkingBudgetMode::Auto => match requested {
            Some(b) => if capped && b > AUTO_THINKING_BUDGET_CAP {
                Some(AUTO_THINKING_BUDGET_CAP)
            } else {
                Some(b)
            },
            None => None,
        },
    }
}

/// Applies the thinking-budget policy to the caller's budget for `model`.
pub fn resolve_thinking_budget(cfg: &ThinkingBudgetConfig, model: &str, requested: Option<u32>) -> (r:
    Option<u32>)
    ensures
        r == budget_for(*cfg, capped_family(lowercase_of(model@)), requested),
{
    let lowered = to_lowercase(model);
    let capped = is_capped_family(lowered.as_str());
    thinking_budget_for_family(cfg, capped, requested)
}

// ---------------------------------------------------------------------------
// Model resolution
// ---------------------------------------------------------------------------

/// The value of the first pair whose key is `key`.
pub open spec fn lookup_pairs(pairs: Seq<(String, String)>, key: Seq<char>) -> Option<Seq<char>>
    decreases pairs.len(),
{
    if pairs.len() == 0 {
        None
    } else if pairs[0].0@ == key {
        Some(pairs[0].1@)
    } else {
        lookup_pairs(pairs.drop_first(), key)
    }
}

/// No two pairs share a key: the pairs are a map from keys to values.
pub open spec fn keys_unique(pairs: Seq<(String, String)>) -> bool {
    forall|i: int, j: int|
        0 <= i < j < pairs.len() ==> (#[trigger] pairs[i]).0@ != (#[trigger] pairs[j]).0@
}

/// With unique keys, looking a key up gives the value of the one pair with
/// that key, and nothing when no pair has it.
pub proof fn lemma_lookup_unique(pairs: Seq<(String, String)>, key: Seq<char>)
    requires
        keys_unique(pairs),
    ensures
        forall|i: int|
            0 <= i < pairs.len() && (#[trigger] pairs[i]).0@ == key ==> lookup_pairs(pairs, key)
                == Some(pairs[i].1@),
        (forall|i: int| 0 <= i < pairs.len() ==> (#[trigger] pairs[i]).0@ != key) ==> lookup_pairs(
            pairs,
            key,
        ) is None,
    decreases pairs.len(),
{
    if pairs.len() > 0 {
        let rest = pairs.drop_first();
        assert(keys_unique(rest)) by {
            assert forall|i: int, j: int| 0 <= i < j < rest.len() implies (#[trigger] rest[i]).0@
                != (#[trigger] rest[j]).0@ by {
                assert(rest[i] == pairs[i + 1] && rest[j] == pairs[j + 1]);
            }
        }
        lemma_lookup_unique(rest, key);
        assert forall|i: int|
            0 <= i < pairs.len() && (#[trigger] pairs[i]).0@ == key implies lookup_pairs(
            pairs,
            key,
        ) == Some(pairs[i].1@) by {
            if i > 0 {
                assert(pairs[0].0@ != pairs[i].0@);
                assert(rest[i - 1] == pairs[i]);
            }
        }
        if forall|i: int| 0 <= i < pairs.len() ==> (#[trigger] pairs[i]).0@ != key {
            assert forall|i: int| 0 <= i < rest.len() implies (#[trigger] rest[i]).0@ != key by {
                assert(rest[i] == pairs[i + 1]);
            }
        }
    }
}

/// Every key other than `key` looks up the same in `a` as in `b`.
pub open spec fn same_other_lookups(a: Seq<(String, String)>, b: Seq<(String, String)>, key: Seq<char>) -> bool {
    forall|k: Seq<char>| k != key ==> #[trigger] lookup_pairs(a, k) == lookup_pairs(b, k)
}

/// Maps `key` to `value`, replacing the value of a pair with that key or
/// adding a pair; keys stay unique and every other key keeps its value.
pub fn set_mapping(pairs: &mut Vec<(String, String)>, key: &String, value: String)
    requires
        keys_unique(old(pairs)@),
    ensures
        keys_unique(final(pairs)@),
        lookup_pairs(final(pairs)@, key@) == Some(value@),
        same_other_lookups(final(pairs)@, old(pairs)@, key@),
{
    let ghost before = pairs@;
    let mut i: usize = 0;
    while i < pairs.len()
        invariant
            pairs@ == before,
            before == old(pairs)@,
            keys_unique(before),
            i <= pairs@.len(),
            forall|j: int| 0 <= j < i ==> (#[trigger] pairs@[j]).0@ != key@,
        decreases pairs@.len() - i,
    {
        if pairs[i].0 == *key {
            let ghost idx = i as int;
            assert(before[idx].0@ == key@);
            pairs.set(i, (key.clone(), value));
            proof {
                let after = pairs@;
                assert(keys_unique(after)) by {
                    assert forall|a: int, b: int| 0 <= a < b < after.len() implies (
                    #[trigger] after[a]).0@ != (#[trigger] after[b]).0@ by {
                        assert(after[a].0@ == before[a].0@);
                        assert(after[b].0@ == before[b].0@);
                    }
                }
                lemma_lookup_unique(after, key@);
                assert(after[idx].0@ == key@);
                assert forall|k: Seq<char>| k != key@ implies #[trigger] lookup_pairs(after, k)
                    == lookup_pairs(before, k) by {
                    lemma_lookup_unique(after, k);
                    lemma_lookup_unique(before, k);
                    if exists|j: int| 0 <= j < before.len() && (#[trigger] before[j]).0@ == k {
                        let j = choose|j: int| 0 <= j < before.len() && (#[trigger] before[j]).0@ == k;
                        assert(j != idx);
                        assert(after[j] == before[j]);
                        assert(after[j].0@ == k);
                    } else {
                        assert forall|j: int| 0 <= j < after.len() implies (
                        #[trigger] after[j]).0@ != k by {
                            if j != idx {
                                assert(after[j] == before[j]);
                            }
                        }
                    }
                }
            }
            assert(same_other_lookups(pairs@, before, key@));
            return;
        }
        i += 1;
    }
    pairs.push((key.clone(), value));
    proof {
        let after = pairs@;
        let n = before.len() as int;
        assert(after[n].0@ == key@);
        assert forall|j: int| 0 <= j < n implies after[j] == before[j] by {}
        assert(keys_unique(after)) by {
            assert forall|a: int, b: int| 0 <= a < b < after.len() implies (
            #[trigger] after[a]).0@ != (#[trigger] after[b]).0@ by {
                assert(after[a] == before[a]);
                if b < n {
                    assert(after[b] == before[b]);
                }
            }
        }
        lemma_lookup_unique(after, key@);
        assert forall|k: Seq<char>| k != key@ implies #[trigger] lookup_pairs(after, k)
            == lookup_pairs(before, k) by {
            lemma_lookup_unique(after, k);
            lemma_lookup_unique(before, k);
            if exists|j: int| 0 <= j < before.len() && (#[trigger] before[j]).0@ == k {
                let j = choose|j: int| 0 <= j < before.len() && (#[trigger] before[j]).0@ == k;
                assert(after[j] == before[j]);
            } else {
                assert forall|j: int| 0 <= j < after.len() implies (#[trigger] after[j]).0@ != k by {
                    if j < n {
                        assert(after[j] == before[j]);
                    }
                }
            }
        }
    }
}

pub fn lookup_mapping(pairs: &Vec<(String, String)>, key: &String) -> (r: Option<String>)
    ensures
        r matches Some(v) ==> lookup_pairs(pairs@, key@) == Some(v@),
        r is None ==> lookup_pairs(pairs@, key@) is None,
{
    let mut i: usize = 0;
    assert(pairs@.subrange(0, pairs@.len() as int) =~= pairs@);
    while i < pairs.len()
        invariant
            i <= pairs@.len(),
            lookup_pairs(pairs@, key@) == lookup_pairs(
                pairs@.subrange(i as int, pairs@.len() as int),
                key@,
            ),
        decreases pairs@.len() - i,
    {
        let ghost rest = pairs@.subrange(i as int, pairs@.len() as int);
        assert(rest[0] == pairs@[i as int]);
        if pairs[i].0 == *key {
            return Some(pairs[i].1.clone());
        }
        assert(rest.drop_first() =~= pairs@.subrange(i + 1, pairs@.len() as int));
        i += 1;
    }
    None
}

#[derive(Clone, Copy, Debug, PartialEq, Eq, Structural)]
pub enum ClaudeFamily {
    Opus,
    Sonnet,
    Haiku,
}

pub open spec fn claude_family(model: Seq<char>) -> Option<ClaudeFamily> {
    if contains_seq(model, seq!['o', 'p', 'u', 's']) {
        Some(ClaudeFamily::Opus)
    } else if contains_seq(model, seq!['s', 'o', 'n', 'n', 'e', 't']) {
        Some(ClaudeFamily::Sonnet)
    } else if contains_seq(model, seq!['h', 'a', 'i', 'k', 'u']) {
        Some(ClaudeFamily::Haiku)
    } else {
        None
    }
}

pub fn detect_claude_family(model: &String) -> (r: Option<ClaudeFamily>)
    ensures
        r == claude_family(model@),
{
    let t = chars_of(model.as_str());
    let opus = vec!['o', 'p', 'u', 's'];
    let sonnet = vec!['s', 'o', 'n', 'n', 'e', 't'];
    let haiku = vec!['h', 'a', 'i', 'k', 'u'];
    assert(opus@ =~= seq!['o', 'p', 'u', 's']);
    assert(sonnet@ =~= seq!['s', 'o', 'n', 'n', 'e', 't']);
    assert(haiku@ =~= seq!['h', 'a', 'i', 'k', 'u']);
    if contains_chars(&t, &opus) {
        Some(ClaudeFamily::Opus)
    } else if contains_chars(&t, &sonnet) {
        Some(ClaudeFamily::Sonnet)
    } else if contains_chars(&t, &haiku) {
        Some(ClaudeFamily::Haiku)
    } else {
        None
    }
}

/// A request field that cannot be adapted to the upstream protocol.
pub struct ProtocolAdaptationError {
    /// Name of the offending field.
    pub field: String,
}

/// The upstream model and the flags that model resolution derives.
pub struct ResolvedModel {
    pub model: String,
    /// The client asked for emulated streaming through the model-id marker.
    pub fake_stream: bool,
    /// Thinking stays enabled although the model was mapped to a non-thinking one.
    pub thinking_enabled: bool,
}

pub open spec fn strip_marker(model: Seq<char>) -> (Seq<char>, bool) {
    if model.len() >= 4 && model.subrange(0, 4) == fake_stream_prefix() {
        (model.subrange(4, model.len() as int), true)
    } else {
        (model, false)
    }
}

/// The model id after the marker is removed and the custom mapping applied.
pub open spec fn mapped_model(model: Seq<char>, custom: Seq<(String, String)>) -> Seq<char> {
    let base = strip_marker(model).0;
    match lookup_pairs(custom, base) {
        Some(m) => m,
        None => base,
    }
}

/// The model id sent to the secondary vendor for a mapped id `m`.
pub open spec fn secondary_model(m: Seq<char>, zai: ZaiConfig) -> Seq<char> {
    match lookup_pairs(zai.model_mapping@, m) {
        Some(v) => v,
        None => match claude_family(m) {
            Some(ClaudeFamily::Opus) => zai.models.opus@,
            Some(ClaudeFamily::Sonnet) => zai.models.sonnet@,
            Some(ClaudeFamily::Haiku) => zai.models.haiku@,
            None => m,
        },
    }
}

/// Resolves the client's model id. The emulated-streaming marker is removed
/// and recorded; the custom exact-match mapping applies; for the secondary
/// vendor, its own exact mapping applies, else an id of the opus, sonnet or
/// haiku family goes to the vendor's default for the family, and a thinking
/// variant keeps thinking enabled when thinking mapping is on. A model id that
/// is blank once the marker is removed is refused, naming the `model` field.
pub fn resolve_model(
    model: &str,
    custom_mapping: &Vec<(String, String)>,
    zai: &ZaiConfig,
    to_secondary: bool,
    claude_thinking_mapping: bool,
) -> (res: Result<ResolvedModel, ProtocolAdaptationError>)
    ensures
        res is Err <==> trim(strip_marker(model@).0).len() == 0,
        res matches Err(e) ==> e.field@ == "model"@,
        res matches Ok(r) ==> resolved_model_ok(model@, custom_mapping@, *zai, to_secondary, claude_thinking_mapping, r),
{
    let (base, fake_stream) = strip_fake_stream_prefix(model);
    if trim_chars(&chars_of(base.as_str())).len() == 0 {
        return Err(ProtocolAdaptationError { field: String::from_str("model") });
    }
    Ok(resolve_stripped_model(base, fake_stream, custom_mapping, zai, to_secondary, claude_thinking_mapping))
}

/// What model resolution returns for a model id that is not blank.
pub open spec fn resolved_model_ok(
    model: Seq<char>,
    custom_mapping: Seq<(String, String)>,
    zai: ZaiConfig,
    to_secondary: bool,
    claude_thinking_mapping: bool,
    r: ResolvedModel,
) -> bool {
    &&& r.fake_stream == strip_marker(model).1
    &&& !to_secondary ==> r.model@ == mapped_model(model, custom_mapping)
    &&& to_secondary ==> r.model@ == secondary_model(mapped_model(model, custom_mapping), zai)
    &&& r.thinking_enabled == (to_secondary && claude_thinking_mapping && lookup_pairs(
        zai.model_mapping@,
        mapped_model(model, custom_mapping),
    ) is None && claude_family(mapped_model(model, custom_mapping)) is Some && contains_seq(
        mapped_model(model, custom_mapping),
        thinking_word(),
    ))
}

fn resolve_stripped_model(
    base: String,
    fake_stream: bool,
    custom_mapping: &Vec<(String, String)>,
    zai: &ZaiConfig,
    to_secondary: bool,
    claude_thinking_mapping: bool,
) -> (r: ResolvedModel)
    ensures
        r.fake_stream == fake_stream,
        !to_secondary ==> r.model@ == match lookup_pairs(custom_mapping@, base@) {
            Some(m) => m,
            None => base@,
        },
        to_secondary ==> r.model@ == secondary_model(
            match lookup_pairs(custom_mapping@, base@) {
                Some(m) => m,
                None => base@,
            },
            *zai,
        ),
        ({
            let m = match lookup_pairs(custom_mapping@, base@) {
                Some(m) => m,
                None => base@,
            };
            r.thinking_enabled == (to_secondary && claude_thinking_mapping && lookup_pairs(
                zai.model_mapping@,
                m,
            ) is None && claude_family(m) is Some && contains_seq(m, thinking_word()))
        }),
{
    let mapped = match lookup_mapping(custom_mapping, &base) {
        Some(m) => m,
        None => base,
    };
    if !to_secondary {
        return ResolvedModel { model: mapped, fake_stream, thinking_enabled: false };
    }
    if let Some(v) = lookup_mapping(&zai.model_mapping, &mapped) {
        return ResolvedModel { model: v, fake_stream, thinking_enabled: false };
    }
    let family = detect_claude_family(&mapped);
    let thinking = vec!['t', 'h', 'i', 'n', 'k', 'i', 'n', 'g'];
    assert(thinking@ =~= thinking_word());
    let wants_thinking = contains_chars(&chars_of(mapped.as_str()), &thinking);
    match family {
        Some(ClaudeFamily::Opus) => ResolvedModel {
            model: zai.models.opus.clone(),
            fake_stream,
            thinking_enabled: claude_thinking_mapping && wants_thinking,
        },
        Some(ClaudeFamily::Sonnet) => ResolvedModel {
            model: zai.models.sonnet.clone(),
            fake_stream,
            thinking_enabled: claude_thinking_mapping && wants_thinking,
        },
        Some(ClaudeFamily::Haiku) => ResolvedModel {
            model: zai.models.haiku.clone(),
            fake_stream,
            thinking_enabled: claude_thinking_mapping && wants_thinking,
        },
        None => ResolvedModel { model: mapped, fake_stream, thinking_enabled: false },
    }
}

// ---------------------------------------------------------------------------
// System instruction
// ---------------------------------------------------------------------------

pub open spec fn paragraph_break() -> Seq<char> {
    seq!['\n', '\n']
}

/// `a` and `b` joined by a blank line; either alone when the other is empty.
pub open spec fn join_paragraphs(a: Seq<char>, b: Seq<char>) -> Seq<char> {
    if a.len() == 0 {
        b
    } else if b.len() == 0 {
        a
    } else {
        a + paragraph_break() + b
    }
}

/// The system instruction with the identity instruction in front and the
/// global prompt, when enabled, at the end.
pub open spec fn injected_system(
    system: Seq<char>,
    identity: Option<Seq<char>>,
    global: GlobalSystemPromptConfig,
) -> Seq<char> {
    let front = match identity {
        Some(id) => join_paragraphs(id, system),
        None => system,
    };
    if global.enabled {
        join_paragraphs(front, global.content@)
    } else {
        front
    }
}

fn join_paragraph_chars(a: Vec<char>, b: &Vec<char>) -> (r: Vec<char>)
    ensures
        r@ == join_paragraphs(a@, b@),
{
    if b.len() == 0 {
        return a;
    }
    if a.len() == 0 {
        let mut r: Vec<char> = Vec::new();
        let mut k: usize = 0;
        while k < b.len()
            invariant
                k <= b@.len(),
                r@ =~= b@.subrange(0, k as int),
            decreases b@.len() - k,
        {
            r.push(b[k]);
            k += 1;
        }
        return r;
    }
    let mut r = a;
    let ghost front = r@;
    r.push('\n');
    r.push('\n');
    let mut k: usize = 0;
    while k < b.len()
        invariant
            k <= b@.len(),
            r@ =~= front + paragraph_break() + b@.subrange(0, k as int),
        decreases b@.len() - k,
    {
        r.push(b[k]);
        k += 1;
    }
    r
}

/// Injects the identity instruction (already resolved, `None` when disabled)
/// and the global system prompt into a request's system instruction.
pub fn inject_system_instruction(
    system: &str,
    identity: &Option<String>,
    global: &GlobalSystemPromptConfig,
) -> (r: String)
    ensures
        r@ == injected_system(
            system@,
            match identity {
                Some(id) => Some(id@),
                None => None,
            },
            *global,
        ),
{
    let sys = chars_of(system);
    let front = match identity {
        Some(id) => join_paragraph_chars(chars_of(id.as_str()), &sys),
        None => sys,
    };
    let all = if global.enabled {
        join_paragraph_chars(front, &chars_of(global.content.as_str()))
    } else {
        front
    };
    string_of(&all)
}

// ---------------------------------------------------------------------------
// Context usage
// ---------------------------------------------------------------------------

/// Measure taken as the context fills up, in increasing severity.
#[derive(Clone, Copy, Debug, PartialEq, Eq, Structural)]
pub enum CompressionLevel {
    Unneeded,
    TrimToolOutput,
    CompressThinking,
    ForkWithSummary,
}

/// Used share of the context window, in thousandths.
pub open spec fn usage_permille(used: u64, window: u64) -> int {
    (used as int * 1000) / window as int
}

pub open spec fn compression_level_spec(used: u64, window: u64, cfg: ExperimentalConfig) -> CompressionLevel {
    if !cfg.enable_usage_scaling || window == 0 {
        CompressionLevel::Unneeded
    } else if usage_permille(used, window) >= cfg.context_compression_threshold_l3 {
        CompressionLevel::ForkWithSummary
    } else if usage_permille(used, window) >= cfg.context_compression_threshold_l2 {
        CompressionLevel::CompressThinking
    } else if usage_permille(used, window) >= cfg.context_compression_threshold_l1 {
        CompressionLevel::TrimToolOutput
    } else {
        CompressionLevel::Unneeded
    }
}

/// The measure that `used` tokens of a `window`-token context call for; none
/// when usage scaling is off.
pub fn compression_level(used: u64, window: u64, cfg: &ExperimentalConfig) -> (r: CompressionLevel)
    ensures
        r == compression_level_spec(used, window, *cfg),
{
    if !cfg.enable_usage_scaling || window == 0 {
        return CompressionLevel::Unneeded;
    }
    let permille: u128 = (used as u128 * 1000) / (window as u128);
    if permille >= cfg.context_compression_threshold_l3 as u128 {
        CompressionLevel::ForkWithSummary
    } else if permille >= cfg.context_compression_threshold_l2 as u128 {
        CompressionLevel::CompressThinking
    } else if permille >= cfg.context_compression_threshold_l1 as u128 {
        CompressionLevel::TrimToolOutput
    } else {
        CompressionLevel::Unneeded
    }
}

} // verus!
