//! Settings service (with real AES-GCM and base64 underneath) and the
//! OAuth helpers.

use base64::Engine;
use contentflow::{
    auth_state_of, generate_pkce_challenge, needs_refresh, tokens_from_response, AuthTokens,
    BrandSettings, DescriptAuth, FileOrganization, Preferences, Settings, SettingsService,
    UsageStats,
};
use sha2::Digest;

fn test_service() -> SettingsService {
    let key = vec![7u8; 32];
    let settings = Settings::default_at("2024-01-01T00:00:00+00:00".to_string());
    SettingsService::new(key, settings).unwrap()
}

#[test]
fn default_settings_hold_documented_values() {
    let s = Settings::default_at("now".to_string());
    assert!(s.api_keys.is_empty());
    assert_eq!(s.preferences.theme, "light");
    assert_eq!(s.preferences.auto_save_interval, 30);
    assert_eq!(s.preferences.default_export_format, "png");
    assert!(s.preferences.show_tips);
    assert!(s.file_organization.watch_folder.is_none());
    assert!(s.file_organization.auto_organize);
    assert_eq!(s.file_organization.folder_pattern, "{year}/{month}/{orientation}");
    assert_eq!(s.file_organization.cleanup_after_days, 30);
    assert_eq!(s.brand_settings.primary_color, "#0066FF");
    assert_eq!(s.brand_settings.secondary_color, "#6B46C1");
    assert_eq!(s.brand_settings.font_family, "Inter");
    assert_eq!(s.usage_stats.descript_api_calls, 0);
    assert_eq!(s.usage_stats.last_updated, "now");
}

#[test]
fn service_rejects_bad_key_and_duplicate_services() {
    let settings = Settings::default_at("t".to_string());
    assert!(SettingsService::new(vec![1u8; 16], settings).is_err());
    let mut settings = Settings::default_at("t".to_string());
    settings.api_keys.push(contentflow::ApiKey {
        service: "openai".to_string(),
        encrypted_key: "aaa".to_string(),
        created_at: "t".to_string(),
        last_used: None,
    });
    settings.api_keys.push(contentflow::ApiKey {
        service: "openai".to_string(),
        encrypted_key: "bbb".to_string(),
        created_at: "t".to_string(),
        last_used: None,
    });
    assert!(SettingsService::new(vec![1u8; 32], settings).is_err());
}

#[test]
fn api_key_round_trips_through_real_encryption() {
    let mut service = test_service();
    service.update_api_key("openai", "sk-test-123").unwrap();
    let got = service.get_decrypted_api_key("openai").unwrap();
    assert_eq!(got.as_deref(), Some("sk-test-123"));
    // the stored text is not the plain key
    let stored = &service.settings().api_keys[0];
    assert_eq!(stored.service, "openai");
    assert_ne!(stored.encrypted_key, "sk-test-123");
    assert!(stored.last_used.is_none());
}

#[test]
fn updating_a_key_replaces_the_old_one() {
    let mut service = test_service();
    service.update_api_key("anthropic", "first".to_string().as_str()).unwrap();
    service.update_api_key("anthropic", "second").unwrap();
    assert_eq!(service.settings().api_keys.len(), 1);
    let got = service.get_decrypted_api_key("anthropic").unwrap();
    assert_eq!(got.as_deref(), Some("second"));
}

#[test]
fn removing_a_key_leaves_others() {
    let mut service = test_service();
    service.update_api_key("openai", "one").unwrap();
    service.update_api_key("anthropic", "two").unwrap();
    service.remove_api_key("openai");
    assert_eq!(service.settings().api_keys.len(), 1);
    assert_eq!(service.get_decrypted_api_key("openai").unwrap(), None);
    assert_eq!(
        service.get_decrypted_api_key("anthropic").unwrap().as_deref(),
        Some("two")
    );
    // removing an absent service is harmless
    service.remove_api_key("missing");
    assert_eq!(service.settings().api_keys.len(), 1);
}

#[test]
fn decrypting_garbage_fails() {
    let mut service = test_service();
    service.update_api_key("svc", "secret").unwrap();
    // corrupt the stored text by feeding a foreign blob through the store
    let mut settings = Settings::default_at("t".to_string());
    settings.api_keys.push(contentflow::ApiKey {
        service: "svc".to_string(),
        encrypted_key: "AAAA".to_string(),
        created_at: "t".to_string(),
        last_used: None,
    });
    let corrupt = SettingsService::new(vec![7u8; 32], settings).unwrap();
    assert!(corrupt.get_decrypted_api_key("svc").is_err());
}

#[test]
fn preference_updates_replace_only_their_section() {
    let mut service = test_service();
    service.update_preferences(Preferences {
        theme: "dark".to_string(),
        auto_save_interval: 60,
        default_export_format: "svg".to_string(),
        show_tips: false,
    });
    service.update_file_organization(FileOrganization {
        watch_folder: Some("/in".to_string()),
        auto_organize: false,
        folder_pattern: "{year}".to_string(),
        cleanup_after_days: 7,
    });
    service.update_brand_settings(BrandSettings {
        primary_color: "#000000".to_string(),
        secondary_color: "#FFFFFF".to_string(),
        font_family: "Mono".to_string(),
        logo_path: None,
    });
    service.update_usage_stats(UsageStats {
        descript_api_calls: 4,
        openai_tokens_used: 5,
        claude_tokens_used: 6,
        storage_used_mb: 7,
        last_updated: "ignored".to_string(),
    });
    let s = service.settings();
    assert_eq!(s.preferences.theme, "dark");
    assert_eq!(s.file_organization.cleanup_after_days, 7);
    assert_eq!(s.brand_settings.font_family, "Mono");
    assert_eq!(s.usage_stats.descript_api_calls, 4);
    assert_eq!(s.usage_stats.storage_used_mb, 7);
    // the update stamps its own freshness time
    assert_ne!(s.usage_stats.last_updated, "ignored");
}

#[test]
fn api_key_infos_hide_the_key() {
    let mut service = test_service();
    service.update_api_key("openai", "sk-secret").unwrap();
    let infos = service.api_key_infos();
    assert_eq!(infos.len(), 1);
    assert_eq!(infos[0].service, "openai");
    assert!(infos[0].is_set);
    assert!(infos[0].last_used.is_none());
}

fn tokens(expires_at: i64) -> AuthTokens {
    AuthTokens {
        access_token: "at".to_string(),
        refresh_token: Some("rt".to_string()),
        expires_at,
        token_type: "Bearer".to_string(),
    }
}

#[test]
fn refresh_needed_inside_five_minutes() {
    assert!(needs_refresh(&tokens(1000), 800));
    assert!(needs_refresh(&tokens(1000), 701));
    assert!(!needs_refresh(&tokens(1000), 700));
    assert!(!needs_refresh(&tokens(1000), 100));
}

#[test]
fn auth_state_reflects_expiry() {
    let state = auth_state_of(Some(&tokens(1000)), 999);
    assert!(state.is_authenticated);
    assert_eq!(state.expires_at, Some(1000));
    let state = auth_state_of(Some(&tokens(1000)), 1001);
    assert!(!state.is_authenticated);
    let state = auth_state_of(None, 0);
    assert!(!state.is_authenticated);
    assert_eq!(state.expires_at, None);
}

#[test]
fn token_assembly_defaults_and_errors() {
    let err = tokens_from_response(None, None, None, None, 0, None).unwrap_err();
    assert_eq!(err.code, "MISSING_TOKEN");
    let t = tokens_from_response(
        Some("abc".to_string()),
        None,
        None,
        None,
        1_000,
        Some("old-refresh".to_string()),
    )
    .unwrap();
    assert_eq!(t.access_token, "abc");
    assert_eq!(t.refresh_token.as_deref(), Some("old-refresh"));
    assert_eq!(t.expires_at, 4_600);
    assert_eq!(t.token_type, "Bearer");
    let t = tokens_from_response(
        Some("abc".to_string()),
        Some("new-refresh".to_string()),
        Some(60),
        Some("bearer".to_string()),
        100,
        None,
    )
    .unwrap();
    assert_eq!(t.refresh_token.as_deref(), Some("new-refresh"));
    assert_eq!(t.expires_at, 160);
    assert_eq!(t.token_type, "bearer");
}

#[test]
fn pkce_challenge_is_sha256_of_verifier() {
    let pair = generate_pkce_challenge();
    // the verifier encodes 32 random bytes without padding
    assert_eq!(pair.verifier.len(), 43);
    let digest = sha2::Sha256::digest(pair.verifier.as_bytes());
    let expected = base64::engine::general_purpose::URL_SAFE_NO_PAD.encode(digest);
    assert_eq!(pair.challenge, expected);
}

#[test]
fn auth_url_carries_encoded_parameters() {
    let auth = DescriptAuth::new("my client".to_string(), "secret".to_string());
    let (url, verifier) = auth.get_auth_url("state-1");
    let digest = sha2::Sha256::digest(verifier.as_bytes());
    let challenge = base64::engine::general_purpose::URL_SAFE_NO_PAD.encode(digest);
    let expected = format!(
        "https://api.descript.com/oauth/authorize?client_id={}&redirect_uri={}&response_type={}&scope={}&state={}&code_challenge={}&code_challenge_method={}",
        urlencoding::encode("my client"),
        urlencoding::encode("contentflow://auth/callback"),
        urlencoding::encode("code"),
        urlencoding::encode("read write"),
        urlencoding::encode("state-1"),
        urlencoding::encode(&challenge),
        urlencoding::encode("S256"),
    );
    assert_eq!(url, expected);
    assert_eq!(auth.client_id().as_str(), "my client");
    assert_eq!(auth.client_secret().as_str(), "secret");
}

#[test]
fn token_blobs_round_trip_through_real_encryption() {
    let auth = DescriptAuth::new("id".to_string(), "secret".to_string());
    let payload = b"{\"access_token\":\"abc\"}".to_vec();
    let sealed = auth.encrypt_tokens(&payload).unwrap();
    let opened = auth.decrypt_tokens(&sealed).unwrap();
    assert_eq!(opened, payload);
    // tampering is rejected by the authentication tag
    let mut tampered = sealed.clone();
    tampered.pop();
    tampered.push('A');
    assert!(auth.decrypt_tokens(&tampered).is_err());
    assert!(auth.decrypt_tokens("short").is_err());
}
