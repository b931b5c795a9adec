//! The built-in model catalogue: presets offered in the model picker, the
//! metadata used for a model slug, configuration overrides, and whether a
//! cached model list may be reused.
use vstd::prelude::*;
use crate::connectors::opt_view;
use crate::text::{chars_eq, chars_of, contains, contains_exec};

verus! {

/// How hard a model reasons.
#[derive(Debug, Clone, Copy, PartialEq, Eq)]
pub enum ReasoningEffort {
    Off,
    Minimal,
    Low,
    Medium,
    High,
    XHigh,
}

/// A reasoning effort offered for a model, with its description.
#[derive(Debug, Clone, PartialEq, Eq)]
pub struct ReasoningEffortPreset {
    pub effort: ReasoningEffort,
    pub description: String,
}

/// The kinds of input a model accepts.
#[derive(Debug, Clone, Copy, PartialEq, Eq)]
pub enum InputModality {
    Text,
    Image,
}

/// The model a preset suggests moving to.
#[derive(Debug, Clone, PartialEq, Eq)]
pub struct ModelUpgrade {
    pub id: String,
    pub migration_config_key: String,
}

/// A model offered in the model picker.
#[derive(Debug, Clone, PartialEq, Eq)]
pub struct ModelPreset {
    pub id: String,
    pub model: String,
    pub display_name: String,
    pub description: String,
    pub default_reasoning_effort: ReasoningEffort,
    pub supported_reasoning_efforts: Vec<ReasoningEffortPreset>,
    pub is_default: bool,
    pub upgrade: Option<ModelUpgrade>,
    pub show_in_picker: bool,
    pub supported_in_api: bool,
    pub input_modalities: Vec<InputModality>,
}

/// The configuration key that hides the migration prompt to the default model.
pub fn hide_migration_prompt_config() -> (r: &'static str)
    ensures
        r@ == "hide_gpt5_1_migration_prompt"@,
{
    "hide_gpt5_1_migration_prompt"
}

/// The configuration key that hides the migration prompt to the codex model.
pub fn hide_codex_max_migration_prompt_config() -> (r: &'static str)
    ensures
        r@ == "hide_big-pickle_migration_prompt"@,
{
    "hide_big-pickle_migration_prompt"
}

fn effort(e: ReasoningEffort, description: &str) -> (r: ReasoningEffortPreset)
    ensures
        r.effort == e,
        r.description@ == description@,
{
    ReasoningEffortPreset { effort: e, description: description.to_string() }
}

fn default_input_modalities() -> (r: Vec<InputModality>)
    ensures
        r@ == seq![InputModality::Text, InputModality::Image],
{
    let r = vec![InputModality::Text, InputModality::Image];
    assert(r@ =~= seq![InputModality::Text, InputModality::Image]);
    r
}

/// Efforts and their descriptions, as plain values.
pub open spec fn efforts_view(v: Seq<ReasoningEffortPreset>) -> Seq<(ReasoningEffort, Seq<char>)> {
    v.map_values(|p: ReasoningEffortPreset| (p.effort, p.description@))
}

/// The efforts the default model offers.
pub open spec fn default_model_efforts() -> Seq<(ReasoningEffort, Seq<char>)> {
    seq![
        (ReasoningEffort::Low, "Fast responses with lighter reasoning"@),
        (ReasoningEffort::Medium, "Dynamically adjusts reasoning based on the task"@),
        (ReasoningEffort::High, "Maximizes reasoning depth for complex or ambiguous problems"@),
        (ReasoningEffort::XHigh, "Extra high reasoning depth for complex problems"@),
    ]
}

/// The efforts the coding models offer, extra high among them or not.
pub open spec fn coding_model_efforts(with_xhigh: bool) -> Seq<(ReasoningEffort, Seq<char>)> {
    let base = seq![
        (ReasoningEffort::Low, "Fast responses with lighter reasoning"@),
        (ReasoningEffort::Medium, "Balances speed and reasoning depth for everyday tasks"@),
        (ReasoningEffort::High, "Greater reasoning depth for complex problems"@),
    ];
    if with_xhigh {
        base.push((ReasoningEffort::XHigh, "Extra high reasoning depth for complex problems"@))
    } else {
        base
    }
}

fn default_efforts() -> (r: Vec<ReasoningEffortPreset>)
    ensures
        efforts_view(r@) == default_model_efforts(),
{
    let r = vec![
        effort(ReasoningEffort::Low, "Fast responses with lighter reasoning"),
        effort(ReasoningEffort::Medium, "Dynamically adjusts reasoning based on the task"),
        effort(ReasoningEffort::High, "Maximizes reasoning depth for complex or ambiguous problems"),
        effort(ReasoningEffort::XHigh, "Extra high reasoning depth for complex problems"),
    ];
    assert(efforts_view(r@) =~= default_model_efforts());
    r
}

fn efforts(with_xhigh: bool) -> (r: Vec<ReasoningEffortPreset>)
    ensures
        efforts_view(r@) == coding_model_efforts(with_xhigh),
        r.len() == (if with_xhigh { 4nat } else { 3nat }),
{
    let mut v = vec![
        effort(ReasoningEffort::Low, "Fast responses with lighter reasoning"),
        effort(ReasoningEffort::Medium, "Balances speed and reasoning depth for everyday tasks"),
        effort(ReasoningEffort::High, "Greater reasoning depth for complex problems"),
    ];
    let ghost v0 = v@;
    if with_xhigh {
        v.push(effort(ReasoningEffort::XHigh, "Extra high reasoning depth for complex problems"));
    }
    assert(efforts_view(v@) =~= coding_model_efforts(with_xhigh));
    v
}

fn upgrade_to_default() -> (r: ModelUpgrade)
    ensures
        r.id@ == "big-pickle"@,
        r.migration_config_key@ == "hide_gpt5_1_migration_prompt"@,
{
    ModelUpgrade { id: "big-pickle".to_string(), migration_config_key: hide_migration_prompt_config().to_string() }
}

/// The number of presets marked as the default.
pub open spec fn default_count(p: Seq<ModelPreset>) -> nat
    decreases p.len(),
{
    if p.len() == 0 {
        0
    } else {
        default_count(p.drop_last()) + if p.last().is_default { 1nat } else { 0nat }
    }
}

/// The built-in presets: `big-pickle` (the default, shown in the picker),
/// then `big-pickle-codex` and `big-pickle-codex-mini`, both hidden and
/// suggesting an upgrade to `big-pickle`, with their descriptions and the
/// reasoning efforts each offers.
pub fn builtin_model_presets() -> (r: Vec<ModelPreset>)
    ensures
        r.len() == 3,
        r@[0].id@ == "big-pickle"@,
        r@[1].id@ == "big-pickle-codex"@,
        r@[2].id@ == "big-pickle-codex-mini"@,
        r@[0].is_default && r@[0].show_in_picker && r@[0].upgrade is None,
        !r@[1].is_default && !r@[1].show_in_picker && (r@[1].upgrade matches Some(u) && u.id@ == "big-pickle"@),
        !r@[2].is_default && !r@[2].show_in_picker && (r@[2].upgrade matches Some(u) && u.id@ == "big-pickle"@),
        r@[0].description@ == "big pickle"@,
        r@[1].description@ == "Advanced coding model with extended context."@,
        r@[2].description@ == "Compact coding model for everyday tasks."@,
        efforts_view(r@[0].supported_reasoning_efforts@) == default_model_efforts(),
        efforts_view(r@[1].supported_reasoning_efforts@) == coding_model_efforts(true),
        efforts_view(r@[2].supported_reasoning_efforts@) == coding_model_efforts(false),
        (r@[1].upgrade matches Some(u) && u.migration_config_key@ == "hide_gpt5_1_migration_prompt"@),
        (r@[2].upgrade matches Some(u) && u.migration_config_key@ == "hide_gpt5_1_migration_prompt"@),
        forall|i: int| 0 <= i < 3 ==> (#[trigger] r@[i]).input_modalities@ == seq![InputModality::Text, InputModality::Image],
        forall|i: int| 0 <= i < 3 ==> (#[trigger] r@[i]).supported_in_api && r@[i].default_reasoning_effort
            == ReasoningEffort::Medium && r@[i].model@ == r@[i].id@ && r@[i].display_name@ == r@[i].id@,
        default_count(r@) == 1,
{
    let r = vec![
        ModelPreset {
            id: "big-pickle".to_string(),
            model: "big-pickle".to_string(),
            display_name: "big-pickle".to_string(),
            description: "big pickle".to_string(),
            default_reasoning_effort: ReasoningEffort::Medium,
            supported_reasoning_efforts: default_efforts(),
            is_default: true,
            upgrade: None,
            show_in_picker: true,
            supported_in_api: true,
            input_modalities: default_input_modalities(),
        },
        ModelPreset {
            id: "big-pickle-codex".to_string(),
            model: "big-pickle-codex".to_string(),
            display_name: "big-pickle-codex".to_string(),
            description: "Advanced coding model with extended context.".to_string(),
            default_reasoning_effort: ReasoningEffort::Medium,
            supported_reasoning_efforts: efforts(true),
            is_default: false,
            upgrade: Some(upgrade_to_default()),
            show_in_picker: false,
            supported_in_api: true,
            input_modalities: default_input_modalities(),
        },
        ModelPreset {
            id: "big-pickle-codex-mini".to_string(),
            model: "big-pickle-codex-mini".to_string(),
            display_name: "big-pickle-codex-mini".to_string(),
            description: "Compact coding model for everyday tasks.".to_string(),
            default_reasoning_effort: ReasoningEffort::Medium,
            supported_reasoning_efforts: efforts(false),
            is_default: false,
            upgrade: Some(upgrade_to_default()),
            show_in_picker: false,
            supported_in_api: true,
            input_modalities: default_input_modalities(),
        },
    ];
    proof {
        reveal_with_fuel(default_count, 4);
    }
    r
}

/// All presets, as `builtin_model_presets` lists them.
pub fn all_model_presets() -> (r: Vec<ModelPreset>)
    ensures
        r.len() == 3,
        default_count(r@) == 1,
        r@[0].is_default,
{
    builtin_model_presets()
}

/// The shell tool a model is given.
#[derive(Debug, Clone, Copy, PartialEq, Eq)]
pub enum ConfigShellToolType {
    Default,
    Local,
    UnifiedExec,
    Disabled,
    ShellCommand,
}

/// Whether and where a model is listed.
#[derive(Debug, Clone, Copy, PartialEq, Eq)]
pub enum ModelVisibility {
    List,
    Hide,
    Unset,
}

/// How tool output is truncated: to a number of bytes or of tokens.
#[derive(Debug, Clone, Copy, PartialEq, Eq)]
pub enum TruncationPolicyConfig {
    Bytes(i64),
    Tokens(i64),
}

/// The base instructions of a model: one of the bundled prompts, or text
/// from the configuration.
#[derive(Debug, Clone, PartialEq, Eq)]
pub enum BaseInstructions {
    Default,
    Gemma4,
    Codex,
    Custom(String),
}

/// Metadata of a model.
#[derive(Debug, Clone, PartialEq, Eq)]
pub struct ModelInfo {
    pub slug: String,
    pub display_name: String,
    pub description: Option<String>,
    pub default_reasoning_level: Option<ReasoningEffort>,
    pub supported_reasoning_levels: Vec<ReasoningEffortPreset>,
    pub shell_type: ConfigShellToolType,
    pub visibility: ModelVisibility,
    pub supported_in_api: bool,
    pub priority: i32,
    pub base_instructions: BaseInstructions,
    pub model_messages: Option<String>,
    pub supports_reasoning_summaries: bool,
    pub support_verbosity: bool,
    pub truncation_policy: TruncationPolicyConfig,
    pub supports_parallel_tool_calls: bool,
    pub context_window: Option<i64>,
    pub auto_compact_token_limit: Option<i64>,
    pub effective_context_window_percent: i64,
    pub experimental_supported_tools: Vec<String>,
    pub input_modalities: Vec<InputModality>,
    pub supported_message_roles: Vec<String>,
    pub reasoning_field_name: Option<String>,
}

/// The context window assumed for every built-in model.
pub const CONTEXT_WINDOW_128K: i64 = 131_072;

pub open spec fn strs(v: Seq<String>) -> Seq<Seq<char>> {
    v.map_values(|s: String| s@)
}

/// The metadata used for a model slug: `gemma-4` models get the Gemma
/// prompt and the default shell, all others the Codex prompt and the
/// shell-command tool; every model reasons at low, medium or high effort,
/// supports reasoning summaries and verbosity, truncates tool output at
/// 10 000 bytes and has a 128K context window; `test-big-pickle-codex`
/// also lists the experimental tools used by tests.
pub fn find_model_info_for_slug(slug: &str) -> (r: ModelInfo)
    ensures
        r.slug@ == slug@,
        r.display_name@ == slug@,
        r.description is None,
        r.default_reasoning_level is None,
        r.supported_reasoning_levels.len() == 3,
        r.shell_type == (if contains(slug@, "gemma-4"@) {
            ConfigShellToolType::Default
        } else {
            ConfigShellToolType::ShellCommand
        }),
        r.base_instructions == (if contains(slug@, "gemma-4"@) {
            BaseInstructions::Gemma4
        } else {
            BaseInstructions::Codex
        }),
        r.visibility == ModelVisibility::Unset,
        r.supported_in_api,
        r.priority == 99,
        r.model_messages is None,
        r.supports_reasoning_summaries,
        r.support_verbosity,
        r.truncation_policy == TruncationPolicyConfig::Bytes(10_000),
        !r.supports_parallel_tool_calls,
        r.context_window == Some(CONTEXT_WINDOW_128K),
        r.auto_compact_token_limit is None,
        r.effective_context_window_percent == 95,
        strs(r.experimental_supported_tools@) == (if slug@ == "test-big-pickle-codex"@ {
            seq!["test_sync_tool"@, "read_file"@, "grep_files"@, "list_dir"@]
        } else {
            Seq::empty()
        }),
        r.input_modalities@ == seq![InputModality::Text, InputModality::Image],
        strs(r.supported_message_roles@) == seq!["system"@, "user"@, "assistant"@, "tool"@],
        r.reasoning_field_name is None,
{
    proof {
        reveal_strlit("gemma-4");
        reveal_strlit("test-big-pickle-codex");
    }
    let sc = chars_of(slug);
    let g = chars_of("gemma-4");
    let gemma = contains_exec(&sc, &g);
    let t = chars_of("test-big-pickle-codex");
    let tools: Vec<String> = if chars_eq(&sc, &t) {
        vec!["test_sync_tool".to_string(), "read_file".to_string(), "grep_files".to_string(), "list_dir".to_string()]
    } else {
        Vec::new()
    };
    let ghost tv = strs(tools@);
    assert(tv =~= (if slug@ == "test-big-pickle-codex"@ {
        seq!["test_sync_tool"@, "read_file"@, "grep_files"@, "list_dir"@]
    } else {
        Seq::empty()
    }));
    let roles = vec!["system".to_string(), "user".to_string(), "assistant".to_string(), "tool".to_string()];
    assert(strs(roles@) =~= seq!["system"@, "user"@, "assistant"@, "tool"@]);
    ModelInfo {
        slug: slug.to_string(),
        display_name: slug.to_string(),
        description: None,
        default_reasoning_level: None,
        supported_reasoning_levels: efforts(false),
        shell_type: if gemma { ConfigShellToolType::Default } else { ConfigShellToolType::ShellCommand },
        visibility: ModelVisibility::Unset,
        supported_in_api: true,
        priority: 99,
        base_instructions: if gemma { BaseInstructions::Gemma4 } else { BaseInstructions::Codex },
        model_messages: None,
        supports_reasoning_summaries: true,
        support_verbosity: true,
        truncation_policy: TruncationPolicyConfig::Bytes(10_000),
        supports_parallel_tool_calls: false,
        context_window: Some(CONTEXT_WINDOW_128K),
        auto_compact_token_limit: None,
        effective_context_window_percent: 95,
        experimental_supported_tools: tools,
        input_modalities: default_input_modalities(),
        supported_message_roles: roles,
        reasoning_field_name: None,
    }
}

/// The configuration settings that override model metadata.
#[derive(Debug, Clone, PartialEq, Eq, Default)]
pub struct ModelOverrides {
    pub model_supports_reasoning_summaries: Option<bool>,
    pub model_context_window: Option<i64>,
    pub model_auto_compact_token_limit: Option<i64>,
    pub tool_output_token_limit: Option<usize>,
    pub base_instructions: Option<String>,
}

/// Applies configuration overrides to model metadata: each setting present
/// replaces its field; a tool-output token limit (capped at `i64::MAX`)
/// becomes a token truncation policy; configured base instructions replace
/// the model's and drop its model messages.
pub fn with_config_overrides(model: ModelInfo, config: &ModelOverrides) -> (r: ModelInfo)
    ensures
        r.supports_reasoning_summaries == (match config.model_supports_reasoning_summaries {
            Some(b) => b,
            None => model.supports_reasoning_summaries,
        }),
        r.context_window == (match config.model_context_window {
            Some(c) => Some(c),
            None => model.context_window,
        }),
        r.auto_compact_token_limit == (match config.model_auto_compact_token_limit {
            Some(c) => Some(c),
            None => model.auto_compact_token_limit,
        }),
        r.truncation_policy == (match config.tool_output_token_limit {
            Some(t) => TruncationPolicyConfig::Tokens(if t <= i64::MAX { t as i64 } else { i64::MAX }),
            None => model.truncation_policy,
        }),
        r.base_instructions == (match config.base_instructions {
            Some(b) => BaseInstructions::Custom(b),
            None => model.base_instructions,
        }),
        r.model_messages == (match config.base_instructions {
            Some(_) => None,
            None => model.model_messages,
        }),
        r.slug == model.slug,
        r.display_name == model.display_name,
        r.shell_type == model.shell_type,
        r.supported_in_api == model.supported_in_api,
        r.priority == model.priority,
        r.context_window == (match config.model_context_window {
            Some(c) => Some(c),
            None => model.context_window,
        }),
        r.experimental_supported_tools == model.experimental_supported_tools,
        r.supported_message_roles == model.supported_message_roles,
        r.reasoning_field_name == model.reasoning_field_name,
{
    let mut model = model;
    if let Some(s) = config.model_supports_reasoning_summaries {
        model.supports_reasoning_summaries = s;
    }
    if let Some(c) = config.model_context_window {
        model.context_window = Some(c);
    }
    if let Some(c) = config.model_auto_compact_token_limit {
        model.auto_compact_token_limit = Some(c);
    }
    if let Some(t) = config.tool_output_token_limit {
        let limit: i64 = if t as u128 <= i64::MAX as u128 { t as i64 } else { i64::MAX };
        model.truncation_policy = TruncationPolicyConfig::Tokens(limit);
    }
    match &config.base_instructions {
        Some(b) => {
            model.base_instructions = BaseInstructions::Custom(b.clone());
            model.model_messages = None;
        },
        None => {},
    }
    model
}

// ---------------------------------------------------------------------------
// The models cache
// ---------------------------------------------------------------------------

/// A moment, as seconds and nanoseconds since the Unix epoch.
#[derive(Debug, Clone, Copy, PartialEq, Eq)]
pub struct Timestamp {
    pub secs: i64,
    pub nanos: u32,
}

pub open spec fn ts_nanos(t: Timestamp) -> int {
    t.secs * 1_000_000_000 + t.nanos
}

/// A snapshot of fetched models, as stored on disk.
#[derive(Debug, Clone, PartialEq, Eq)]
pub struct ModelsCache {
    pub fetched_at: Timestamp,
    pub etag: Option<String>,
    pub client_version: Option<String>,
    pub models: Vec<ModelInfo>,
    pub provider_base_url: Option<String>,
}

/// The longest span a TTL may have (`i64::MAX` milliseconds), in nanoseconds.
pub open spec fn max_span_nanos() -> int {
    9_223_372_036_854_775_807int * 1_000_000int
}

/// The cache is fresh at `now` when the TTL is not zero, fits a time delta,
/// and the time since it was fetched does not exceed it.
pub open spec fn fresh_at(fetched_at: Timestamp, ttl_secs: u64, ttl_nanos: u32, now: Timestamp) -> bool {
    let ttl = ttl_secs * 1_000_000_000 + ttl_nanos;
    ttl != 0 && ttl <= max_span_nanos() && ts_nanos(now) - ts_nanos(fetched_at) <= ttl
}

#[verifier::external_type_specification]
#[verifier::external_body]
pub struct ExSystemTime(std::time::SystemTime);

/// `SystemTime::now`: the system clock's reading. Nothing is stated of it.
#[verifier::external_body]
fn system_time_now() -> (r: std::time::SystemTime) {
    std::time::SystemTime::now()
}

/// `SystemTime::duration_since(UNIX_EPOCH)`: the time since the epoch as
/// whole seconds and the nanoseconds past them, or `None` when `t` lies
/// before the epoch. Of the value only this is stated: the nanoseconds stay
/// under a second (`Duration::subsec_nanos`).
#[verifier::external_body]
fn since_unix_epoch(t: &std::time::SystemTime) -> (r: Option<(u64, u32)>)
    ensures
        r matches Some((_, n)) ==> n < 1_000_000_000,
{
    t.duration_since(std::time::UNIX_EPOCH).ok().map(|d| (d.as_secs(), d.subsec_nanos()))
}

/// A clock reading as the library may get it: a time at or after the epoch
/// with nanoseconds under a second, or none.
pub open spec fn clock_reading(now: Option<Timestamp>) -> bool {
    now matches Some(t) ==> t.secs >= 0 && t.nanos < 1_000_000_000
}

/// The timestamp of a reading of seconds and nanoseconds since the epoch:
/// `None` for no reading, or for seconds beyond what `i64` holds.
pub open spec fn epoch_timestamp(reading: Option<(u64, u32)>) -> Option<Timestamp> {
    match reading {
        Some((secs, nanos)) => if secs <= i64::MAX {
            Some(Timestamp { secs: secs as i64, nanos })
        } else {
            None
        },
        None => None,
    }
}

/// Turns a reading of seconds and nanoseconds since the epoch into a
/// timestamp (`epoch_timestamp`).
pub fn timestamp_since_epoch(reading: Option<(u64, u32)>) -> (r: Option<Timestamp>)
    ensures
        r == epoch_timestamp(reading),
{
    match reading {
        Some((secs, nanos)) => if secs <= 9_223_372_036_854_775_807u64 {
            Some(Timestamp { secs: secs as i64, nanos })
        } else {
            None
        },
        None => None,
    }
}

/// The current time since the epoch; `None` when the clock reads before the
/// epoch or further on than `i64` seconds reach.
fn clock_now() -> (r: Option<Timestamp>)
    ensures
        clock_reading(r),
        exists|reading: Option<(u64, u32)>| r == epoch_timestamp(reading),
{
    let t = system_time_now();
    let reading = since_unix_epoch(&t);
    let r = timestamp_since_epoch(reading);
    assert(r == epoch_timestamp(reading));
    r
}

/// Freshness for a clock reading: none counts as not fresh.
pub open spec fn fresh_when(fetched_at: Timestamp, ttl_secs: u64, ttl_nanos: u32, now: Option<Timestamp>) -> bool {
    match now {
        Some(t) => fresh_at(fetched_at, ttl_secs, ttl_nanos, t),
        None => false,
    }
}

impl ModelsCache {
    /// Whether the cache is fresh at `now` for a TTL of `ttl_secs` seconds
    /// and `ttl_nanos` nanoseconds (`fresh_at`).
    pub fn is_fresh_at(&self, ttl_secs: u64, ttl_nanos: u32, now: Timestamp) -> (r: bool)
        ensures
            r == fresh_at(self.fetched_at, ttl_secs, ttl_nanos, now),
    {
        let ttl: i128 = ttl_secs as i128 * 1_000_000_000 + ttl_nanos as i128;
        let limit: i128 = 9_223_372_036_854_775_807i128 * 1_000_000;
        if ttl == 0 || ttl > limit {
            return false;
        }
        let now_n: i128 = now.secs as i128 * 1_000_000_000 + now.nanos as i128;
        let then_n: i128 = self.fetched_at.secs as i128 * 1_000_000_000 + self.fetched_at.nanos as i128;
        now_n - then_n <= ttl
    }

    /// Whether the cache is fresh now: `fresh_at` for the time the clock
    /// reads, whatever that is; not fresh when the clock cannot be read.
    pub fn is_fresh(&self, ttl_secs: u64, ttl_nanos: u32) -> (r: bool)
        ensures
            (ttl_secs == 0 && ttl_nanos == 0) ==> !r,
            exists|now: Option<Timestamp>|
                clock_reading(now) && r == #[trigger] fresh_when(self.fetched_at, ttl_secs, ttl_nanos, now),
    {
        let now = clock_now();
        let r = match now {
            Some(t) => self.is_fresh_at(ttl_secs, ttl_nanos, t),
            None => false,
        };
        assert(r == fresh_when(self.fetched_at, ttl_secs, ttl_nanos, now));
        r
    }
}

/// A URL without one trailing `/`.
pub open spec fn without_trailing_slash(u: Seq<char>) -> Seq<char> {
    if u.len() > 0 && u.last() == '/' {
        u.drop_last()
    } else {
        u
    }
}

/// The cache may be reused: it was written by the expected client
/// version, it is fresh, and it was fetched from the expected provider
/// (compared without a trailing `/`; a cache from some provider is not
/// reused when none is expected).
pub open spec fn cache_usable(
    client_version: Option<Seq<char>>,
    cached_url: Option<Seq<char>>,
    fresh: bool,
    expected_version: Seq<char>,
    expected_url: Option<Seq<char>>,
) -> bool {
    &&& client_version == Some(expected_version)
    &&& fresh
    &&& match expected_url {
        Some(e) => without_trailing_slash(match cached_url {
            Some(c) => c,
            None => Seq::empty(),
        }) == without_trailing_slash(e),
        None => cached_url is None,
    }
}

/// An optional URL as characters.
pub open spec fn url_view(u: Option<&str>) -> Option<Seq<char>> {
    match u {
        Some(u) => Some(u@),
        None => None,
    }
}

/// What loading a fresh cache gives at `now`: the loaded cache when it is
/// usable (`cache_usable`, fresh by `fresh_at` at `now`), nothing otherwise.
pub open spec fn reusable_at(
    loaded: Option<ModelsCache>,
    ttl_secs: u64,
    ttl_nanos: u32,
    expected_version: Seq<char>,
    expected_url: Option<Seq<char>>,
    now: Timestamp,
) -> Option<ModelsCache> {
    match loaded {
        None => None,
        Some(c) => if cache_usable(
            opt_view(c.client_version),
            opt_view(c.provider_base_url),
            fresh_at(c.fetched_at, ttl_secs, ttl_nanos, now),
            expected_version,
            expected_url,
        ) {
            Some(c)
        } else {
            None
        },
    }
}

/// What loading a fresh cache gives for a clock reading: nothing when the
/// clock could not be read.
pub open spec fn reusable_when(
    loaded: Option<ModelsCache>,
    ttl_secs: u64,
    ttl_nanos: u32,
    expected_version: Seq<char>,
    expected_url: Option<Seq<char>>,
    now: Option<Timestamp>,
) -> Option<ModelsCache> {
    match now {
        Some(t) => reusable_at(loaded, ttl_secs, ttl_nanos, expected_version, expected_url, t),
        None => None,
    }
}

fn strip_slash(u: &[char]) -> (r: Vec<char>)
    ensures
        r@ == without_trailing_slash(u@),
{
    let mut v: Vec<char> = Vec::new();
    let n = if u.len() > 0 && u[u.len() - 1] == '/' { u.len() - 1 } else { u.len() };
    let mut i: usize = 0;
    while i < n
        invariant
            i <= n,
            n <= u.len(),
            v@ == u@.take(i as int),
        decreases n - i,
    {
        v.push(u[i]);
        assert(u@.take(i as int).push(u@[i as int]) =~= u@.take(i + 1));
        i += 1;
    }
    assert(v@ =~= without_trailing_slash(u@));
    v
}

/// Decides whether a loaded cache may be reused (`cache_usable`), given
/// whether it is fresh.
pub fn cache_matches(
    cache: &ModelsCache,
    fresh: bool,
    expected_version: &str,
    provider_base_url: Option<&str>,
) -> (r: bool)
    ensures
        r == cache_usable(
            opt_view(cache.client_version),
            opt_view(cache.provider_base_url),
            fresh,
            expected_version@,
            match provider_base_url {
                Some(u) => Some(u@),
                None => None,
            },
        ),
{
    let version_ok = match &cache.client_version {
        Some(v) => {
            let a = chars_of(v.as_str());
            let b = chars_of(expected_version);
            chars_eq(&a, &b)
        },
        None => false,
    };
    if !version_ok || !fresh {
        return false;
    }
    match provider_base_url {
        Some(expected) => {
            let cached: Vec<char> = match &cache.provider_base_url {
                Some(c) => chars_of(c.as_str()),
                None => Vec::new(),
            };
            let e = chars_of(expected);
            let a = strip_slash(&cached);
            let b = strip_slash(&e);
            chars_eq(&a, &b)
        },
        None => cache.provider_base_url.is_none(),
    }
}

/// Where the models cache lives and how long it stays fresh.
#[derive(Debug, Clone, PartialEq, Eq)]
pub struct ModelsCacheManager {
    pub cache_path: String,
    pub ttl_secs: u64,
    pub ttl_nanos: u32,
}

impl ModelsCacheManager {
    /// A manager for the cache at `cache_path` with the given TTL.
    pub fn new(cache_path: String, ttl_secs: u64, ttl_nanos: u32) -> (r: Self)
        ensures
            r.cache_path == cache_path,
            r.ttl_secs == ttl_secs,
            r.ttl_nanos == ttl_nanos,
    {
        ModelsCacheManager { cache_path, ttl_secs, ttl_nanos }
    }

    /// Sets the TTL.
    pub fn set_ttl(&mut self, ttl_secs: u64, ttl_nanos: u32)
        ensures
            final(self).ttl_secs == ttl_secs,
            final(self).ttl_nanos == ttl_nanos,
            final(self).cache_path == old(self).cache_path,
    {
        self.ttl_secs = ttl_secs;
        self.ttl_nanos = ttl_nanos;
    }

    /// The snapshot stored after fetching models: the models, their tag,
    /// the client version and provider that fetched them, stamped with the
    /// current time; `None` when the clock cannot be read.
    pub fn snapshot(
        &self,
        models: Vec<ModelInfo>,
        etag: Option<String>,
        client_version: String,
        provider_base_url: Option<String>,
    ) -> (r: Option<ModelsCache>)
        ensures
            r matches Some(c) ==> c.models == models && c.etag == etag && c.client_version == Some(client_version)
                && c.provider_base_url == provider_base_url && clock_reading(Some(c.fetched_at)),
    {
        match clock_now() {
            Some(now) => Some(
                ModelsCache { fetched_at: now, etag, client_version: Some(client_version), models, provider_base_url },
            ),
            None => None,
        }
    }

    /// Renewing the TTL restamps the stored cache with the current time and
    /// keeps the rest; without a stored cache it fails with "cache not found",
    /// and when the clock cannot be read with "system time before Unix epoch".
    pub fn renewed(&self, loaded: Option<ModelsCache>) -> (r: Result<ModelsCache, String>)
        ensures
            loaded is None ==> (r matches Err(m) && m@ == "cache not found"@),
            loaded matches Some(c) ==> (r matches Ok(n) && n == (ModelsCache { fetched_at: n.fetched_at, ..c })
                && clock_reading(Some(n.fetched_at))) || (r matches Err(m) && m@
                == "system time before Unix epoch"@),
    {
        match loaded {
            None => Err("cache not found".to_string()),
            Some(c) => match clock_now() {
                Some(now) => {
                    let mut n = c;
                    n.fetched_at = now;
                    Ok(n)
                },
                None => Err("system time before Unix epoch".to_string()),
            },
        }
    }

    /// The loaded cache, when it may be reused at `now` (`reusable_at`).
    pub fn load_fresh_at(
        &self,
        loaded: Option<ModelsCache>,
        expected_version: &str,
        provider_base_url: Option<&str>,
        now: Timestamp,
    ) -> (r: Option<ModelsCache>)
        ensures
            r == reusable_at(
                loaded,
                self.ttl_secs,
                self.ttl_nanos,
                expected_version@,
                match provider_base_url {
                    Some(u) => Some(u@),
                    None => None,
                },
                now,
            ),
    {
        match loaded {
            None => None,
            Some(cache) => {
                let fresh = cache.is_fresh_at(self.ttl_secs, self.ttl_nanos, now);
                if cache_matches(&cache, fresh, expected_version, provider_base_url) {
                    Some(cache)
                } else {
                    None
                }
            },
        }
    }

    /// The loaded cache, when it may be reused now: `reusable_at` for the
    /// time the clock reads, whatever that is; `None` when nothing was
    /// loaded or the clock cannot be read (`reusable_when`).
    pub fn load_fresh(
        &self,
        loaded: Option<ModelsCache>,
        expected_version: &str,
        provider_base_url: Option<&str>,
    ) -> (r: Option<ModelsCache>)
        ensures
            loaded is None ==> r is None,
            r matches Some(c) ==> loaded == Some(c) && cache_usable(
                opt_view(c.client_version),
                opt_view(c.provider_base_url),
                true,
                expected_version@,
                match provider_base_url {
                    Some(u) => Some(u@),
                    None => None,
                },
            ),
            loaded matches Some(c) && (opt_view(c.client_version) != Some(expected_version@)
                || (self.ttl_secs == 0 && self.ttl_nanos == 0)) ==> r is None,
            exists|now: Option<Timestamp>|
                clock_reading(now) && r == #[trigger] reusable_when(
                    loaded,
                    self.ttl_secs,
                    self.ttl_nanos,
                    expected_version@,
                    url_view(provider_base_url),
                    now,
                ),
    {
        let now = clock_now();
        let ghost url = url_view(provider_base_url);
        let r = match now {
            Some(t) => self.load_fresh_at(loaded, expected_version, provider_base_url, t),
            None => None,
        };
        assert(r == reusable_when(loaded, self.ttl_secs, self.ttl_nanos, expected_version@, url, now));
        r
    }
}

} // verus!
