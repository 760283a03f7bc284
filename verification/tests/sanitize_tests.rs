use traylingo::sanitize::sanitize;
use traylingo::settings::Settings;

#[test]
fn test_sanitize_ascii_passes_through() {
    assert_eq!(sanitize("Hello, World!"), "Hello, World!");
}

#[test]
fn test_sanitize_japanese_passes_through() {
    assert_eq!(sanitize("こんにちは、世界！"), "こんにちは、世界！");
}

#[test]
fn test_sanitize_drops_symbols_keeps_spaces() {
    assert_eq!(sanitize("Hello ✨ World 🌍"), "Hello  World ");
}

#[test]
fn test_sanitize_idempotent_on_samples() {
    let samples = [
        "Hello, World!",
        "こんにちは、世界！",
        "Hello ✨ World 🌍",
        "tabs\tand\nnewlines\r kept",
        "ＡＢＣ full-width ﾊﾝｶｸ",
        "混ぜこぜ mixed 123 ✓✓",
    ];
    for s in samples {
        let once = sanitize(s);
        let twice = sanitize(&once);
        assert_eq!(once, twice);
    }
}

#[test]
fn test_default_settings() {
    let settings = Settings::default();
    // NOTE: the API key lives in the platform secret store, not in Settings
    assert_eq!(settings.model, "cheap-tier-4-5"); // Default model
    assert!(settings.send_telemetry); // Default: enabled (opt-out)
    assert!(settings.cache_enabled); // Default: enabled
}
