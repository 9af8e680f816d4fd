use auto_commit_msg::config::{
    default_api_key, default_base_url, default_long_model, default_short_model, default_threshold,
    default_trace, resolve_config, DiffConfig, PartialConfig, PartialDiffConfig,
    PartialProviderConfig, ProviderConfig,
};

#[test]
fn default_values() {
    assert_eq!(default_trace(), false);
    assert_eq!(
        default_base_url(),
        "https://generativelanguage.googleapis.com/v1beta/openai/"
    );
    assert_eq!(default_api_key(), "GEMINI_API_KEY");
    assert_eq!(default_short_model(), "gemini-2.5-flash-lite");
    assert_eq!(default_long_model(), "gemini-2.5-flash");
    assert_eq!(default_threshold(), 200);
}

#[test]
fn default_impls_match_field_defaults() {
    let p = ProviderConfig::default();
    assert_eq!(p.base_url, default_base_url());
    assert_eq!(p.api_key, default_api_key());
    let d = DiffConfig::default();
    assert_eq!(d.short_model, default_short_model());
    assert_eq!(d.long_model, default_long_model());
    assert_eq!(d.threshold, default_threshold());
}

#[test]
fn empty_document_resolves_to_defaults() {
    let c = resolve_config(PartialConfig::empty());
    assert_eq!(c.trace, false);
    assert_eq!(
        c.provider.base_url,
        "https://generativelanguage.googleapis.com/v1beta/openai/"
    );
    assert_eq!(c.provider.api_key, "GEMINI_API_KEY");
    assert_eq!(c.diff.short_model, "gemini-2.5-flash-lite");
    assert_eq!(c.diff.long_model, "gemini-2.5-flash");
    assert_eq!(c.diff.threshold, 200);
}

#[test]
fn present_fields_keep_their_values() {
    let p = PartialConfig {
        trace: Some(true),
        provider: Some(PartialProviderConfig {
            base_url: Some("https://example.test/v1/".to_string()),
            api_key: None,
        }),
        diff: Some(PartialDiffConfig {
            short_model: None,
            long_model: Some("big-model".to_string()),
            threshold: Some(50),
        }),
    };
    let c = resolve_config(p);
    assert_eq!(c.trace, true);
    assert_eq!(c.provider.base_url, "https://example.test/v1/");
    assert_eq!(c.provider.api_key, "GEMINI_API_KEY");
    assert_eq!(c.diff.short_model, "gemini-2.5-flash-lite");
    assert_eq!(c.diff.long_model, "big-model");
    assert_eq!(c.diff.threshold, 50);
}

#[test]
fn partial_tables_fill_remaining_fields() {
    let p = PartialConfig {
        trace: None,
        provider: Some(PartialProviderConfig {
            base_url: None,
            api_key: Some("OTHER_KEY".to_string()),
        }),
        diff: None,
    };
    let c = resolve_config(p);
    assert_eq!(c.trace, false);
    assert_eq!(
        c.provider.base_url,
        "https://generativelanguage.googleapis.com/v1beta/openai/"
    );
    assert_eq!(c.provider.api_key, "OTHER_KEY");
}
