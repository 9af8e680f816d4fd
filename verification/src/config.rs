use vstd::prelude::*;

verus! {

/// Spec-level value of the default provider base URL.
pub open spec fn spec_default_base_url() -> Seq<char> {
    "https://generativelanguage.googleapis.com/v1beta/openai/"@
}

/// Spec-level value of the default API-key environment variable name.
pub open spec fn spec_default_api_key() -> Seq<char> {
    "GEMINI_API_KEY"@
}

/// Spec-level value of the default model for small change sets.
pub open spec fn spec_default_short_model() -> Seq<char> {
    "gemini-2.5-flash-lite"@
}

/// Spec-level value of the default model for large change sets.
pub open spec fn spec_default_long_model() -> Seq<char> {
    "gemini-2.5-flash"@
}

/// Spec-level value of the default change-size threshold.
pub open spec fn spec_default_threshold() -> u32 {
    200
}

/// Default for the trace flag: tracing is off unless requested.
pub fn default_trace() -> (t: bool)
    ensures
        t == false,
{
    false
}

/// Default provider base URL.
pub fn default_base_url() -> (s: String)
    ensures
        s@ == spec_default_base_url(),
{
    String::from_str("https://generativelanguage.googleapis.com/v1beta/openai/")
}

/// Default name of the environment variable that holds the bearer token.
pub fn default_api_key() -> (s: String)
    ensures
        s@ == spec_default_api_key(),
{
    String::from_str("GEMINI_API_KEY")
}

/// Default model used when the change set is below the threshold.
pub fn default_short_model() -> (s: String)
    ensures
        s@ == spec_default_short_model(),
{
    String::from_str("gemini-2.5-flash-lite")
}

/// Default model used when the change set meets the threshold.
pub fn default_long_model() -> (s: String)
    ensures
        s@ == spec_default_long_model(),
{
    String::from_str("gemini-2.5-flash")
}

/// Default number of changed lines at which the long model is chosen.
pub fn default_threshold() -> (t: u32)
    ensures
        t == spec_default_threshold(),
{
    200
}

/// Provider settings: where to send requests and which environment
/// variable names the bearer token.
pub struct ProviderConfig {
    pub base_url: String,
    pub api_key: String,
}

impl core::default::Default for ProviderConfig {
    fn default() -> (c: ProviderConfig)
        ensures
            c.base_url@ == spec_default_base_url(),
            c.api_key@ == spec_default_api_key(),
    {
        ProviderConfig { base_url: default_base_url(), api_key: default_api_key() }
    }
}

/// Model-choice settings: the two candidate models and the size threshold
/// that decides between them.
pub struct DiffConfig {
    pub short_model: String,
    pub long_model: String,
    pub threshold: u32,
}

impl core::default::Default for DiffConfig {
    fn default() -> (c: DiffConfig)
        ensures
            c.short_model@ == spec_default_short_model(),
            c.long_model@ == spec_default_long_model(),
            c.threshold == spec_default_threshold(),
    {
        DiffConfig {
            short_model: default_short_model(),
            long_model: default_long_model(),
            threshold: default_threshold(),
        }
    }
}

/// Fully resolved configuration: every field has a value.
pub struct Config {
    pub trace: bool,
    pub provider: ProviderConfig,
    pub diff: DiffConfig,
}

/// Provider settings as they appear in a configuration document, where any
/// field may be absent.
pub struct PartialProviderConfig {
    pub base_url: Option<String>,
    pub api_key: Option<String>,
}

/// Model-choice settings as they appear in a configuration document, where
/// any field may be absent.
pub struct PartialDiffConfig {
    pub short_model: Option<String>,
    pub long_model: Option<String>,
    pub threshold: Option<u32>,
}

/// A configuration document: each top-level entry may be absent, and absent
/// entries take their defaults on resolution.
pub struct PartialConfig {
    pub trace: Option<bool>,
    pub provider: Option<PartialProviderConfig>,
    pub diff: Option<PartialDiffConfig>,
}

impl PartialConfig {
    /// The document with every field absent: what an empty configuration
    /// file, or a missing one, denotes.
    pub fn empty() -> (p: PartialConfig)
        ensures
            p.trace is None,
            p.provider is None,
            p.diff is None,
    {
        PartialConfig { trace: None, provider: None, diff: None }
    }
}

pub open spec fn spec_resolved_trace(p: PartialConfig) -> bool {
    match p.trace {
        Some(t) => t,
        None => false,
    }
}

pub open spec fn spec_resolved_base_url(p: PartialConfig) -> Seq<char> {
    match p.provider {
        Some(pp) => match pp.base_url {
            Some(u) => u@,
            None => spec_default_base_url(),
        },
        None => spec_default_base_url(),
    }
}

pub open spec fn spec_resolved_api_key(p: PartialConfig) -> Seq<char> {
    match p.provider {
        Some(pp) => match pp.api_key {
            Some(k) => k@,
            None => spec_default_api_key(),
        },
        None => spec_default_api_key(),
    }
}

pub open spec fn spec_resolved_short_model(p: PartialConfig) -> Seq<char> {
    match p.diff {
        Some(pd) => match pd.short_model {
            Some(m) => m@,
            None => spec_default_short_model(),
        },
        None => spec_default_short_model(),
    }
}

pub open spec fn spec_resolved_long_model(p: PartialConfig) -> Seq<char> {
    match p.diff {
        Some(pd) => match pd.long_model {
            Some(m) => m@,
            None => spec_default_long_model(),
        },
        None => spec_default_long_model(),
    }
}

pub open spec fn spec_resolved_threshold(p: PartialConfig) -> u32 {
    match p.diff {
        Some(pd) => match pd.threshold {
            Some(t) => t,
            None => spec_default_threshold(),
        },
        None => spec_default_threshold(),
    }
}

/// Turns a configuration document into a full configuration, field by
/// field: a present field keeps its value, an absent one takes its default.
pub fn resolve_config(p: PartialConfig) -> (c: Config)
    ensures
        c.trace == spec_resolved_trace(p),
        c.provider.base_url@ == spec_resolved_base_url(p),
        c.provider.api_key@ == spec_resolved_api_key(p),
        c.diff.short_model@ == spec_resolved_short_model(p),
        c.diff.long_model@ == spec_resolved_long_model(p),
        c.diff.threshold == spec_resolved_threshold(p),
{
    let trace: bool = match p.trace {
        Some(t) => t,
        None => false,
    };
    let provider: ProviderConfig = match p.provider {
        Some(pp) => ProviderConfig {
            base_url: match pp.base_url {
                Some(u) => u,
                None => default_base_url(),
            },
            api_key: match pp.api_key {
                Some(k) => k,
                None => default_api_key(),
            },
        },
        None => ProviderConfig {
            base_url: default_base_url(),
            api_key: default_api_key(),
        },
    };
    let diff: DiffConfig = match p.diff {
        Some(pd) => DiffConfig {
            short_model: match pd.short_model {
                Some(m) => m,
                None => default_short_model(),
            },
            long_model: match pd.long_model {
                Some(m) => m,
                None => default_long_model(),
            },
            threshold: match pd.threshold {
                Some(t) => t,
                None => default_threshold(),
            },
        },
        None => DiffConfig {
            short_model: default_short_model(),
            long_model: default_long_model(),
            threshold: default_threshold(),
        },
    };
    Config { trace, provider, diff }
}

/// A document with every field absent resolves to the documented defaults.
/// In particular a missing configuration file, read as the empty document,
/// behaves exactly like a file that sets nothing.
pub proof fn lemma_absent_fields_resolve_to_defaults(p: PartialConfig)
    requires
        p.trace is None,
        p.provider is None,
        p.diff is None,
    ensures
        spec_resolved_trace(p) == false,
        spec_resolved_base_url(p) == spec_default_base_url(),
        spec_resolved_api_key(p) == spec_default_api_key(),
        spec_resolved_short_model(p) == spec_default_short_model(),
        spec_resolved_long_model(p) == spec_default_long_model(),
        spec_resolved_threshold(p) == spec_default_threshold(),
{
}

} // verus!
