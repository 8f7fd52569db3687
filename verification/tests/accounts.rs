use posthaste::appearance::{normalize_account_appearance, validate_account_appearance};
use posthaste::account::{
    AccountAppearance, AccountDriver, AccountSettings, AccountTransportSettings, ProviderAuthKind,
    ProviderHint,
};
use posthaste::errors::{ApiError, ApiErrorCode, BAD_REQUEST};
use posthaste::logos::{
    account_appearance_fallback_parts, account_logo_extension, header_media_type,
    logo_file_candidates, logo_file_name, logo_upload_extension, new_logo_image_id,
    set_logo_appearance, superseded_logo,
};
use posthaste::oauth::{
    oauth_callback_code, oauth_completion_response, oauth_processing_html, oauth_success_html,
    require_oauth_profile, validate_oauth_start_request, OAuthFlowCompletion,
};
use posthaste::requests::OAuthCallbackQuery;

fn refused(code: ApiErrorCode, message: &str, error: ApiError) {
    assert_eq!(error.status, BAD_REQUEST);
    assert_eq!(error.body.code, code);
    assert_eq!(error.body.message, message);
}

fn callback(code: Option<&str>, error: Option<&str>, description: Option<&str>) -> OAuthCallbackQuery {
    OAuthCallbackQuery {
        state: "s".to_string(),
        code: code.map(|c| c.to_string()),
        error: error.map(|e| e.to_string()),
        error_description: description.map(|d| d.to_string()),
    }
}

#[test]
fn oauth_callbacks_need_a_code_and_report_provider_errors() {
    assert_eq!(oauth_callback_code(&callback(Some("  abc "), None, None)).ok(), Some("abc".to_string()));
    refused(
        ApiErrorCode::InvalidOauthCallback,
        "OAuth callback is missing code",
        oauth_callback_code(&callback(Some("   "), None, None)).unwrap_err(),
    );
    refused(
        ApiErrorCode::InvalidOauthCallback,
        "OAuth callback is missing code",
        oauth_callback_code(&callback(None, None, None)).unwrap_err(),
    );
    refused(
        ApiErrorCode::OauthDenied,
        "user said no",
        oauth_callback_code(&callback(Some("abc"), Some("access_denied"), Some("user said no"))).unwrap_err(),
    );
    refused(
        ApiErrorCode::OauthDenied,
        "access_denied",
        oauth_callback_code(&callback(None, Some("access_denied"), None)).unwrap_err(),
    );
}

#[test]
fn oauth_completion_answers_repeated_callbacks_with_pages() {
    assert_eq!(oauth_completion_response(OAuthFlowCompletion::Pending).ok(), Some(None));
    assert_eq!(
        oauth_completion_response(OAuthFlowCompletion::Completing).ok(),
        Some(Some(oauth_processing_html()))
    );
    assert_eq!(
        oauth_completion_response(OAuthFlowCompletion::Completed).ok(),
        Some(Some(oauth_success_html()))
    );
    refused(
        ApiErrorCode::InvalidOauthCallback,
        "OAuth callback state is unknown or already used",
        oauth_completion_response(OAuthFlowCompletion::Unknown).unwrap_err(),
    );
    assert!(oauth_success_html().contains("Authentication complete"));
}

#[test]
fn oauth_starts_need_a_profile_and_trimmed_fields() {
    assert_eq!(require_oauth_profile(Some(3), false).ok(), Some(3));
    refused(
        ApiErrorCode::InvalidProvider,
        "provider does not support built-in OAuth",
        require_oauth_profile::<u8>(None, false).unwrap_err(),
    );
    refused(
        ApiErrorCode::InvalidAccount,
        "account provider does not support built-in OAuth",
        require_oauth_profile::<u8>(None, true).unwrap_err(),
    );
    let (id, secret, uri) = validate_oauth_start_request(" id ", Some("  "), " http://cb ").unwrap();
    assert_eq!((id, secret, uri), ("id", None, "http://cb"));
    refused(
        ApiErrorCode::InvalidOauthRequest,
        "clientId is required",
        validate_oauth_start_request(" ", None, "").unwrap_err(),
    );
    refused(
        ApiErrorCode::InvalidOauthRequest,
        "redirectUri is required",
        validate_oauth_start_request("id", None, " ").unwrap_err(),
    );
}

fn account(appearance: Option<AccountAppearance>) -> AccountSettings {
    AccountSettings {
        id: "primary".to_string(),
        name: "Primary Mail".to_string(),
        full_name: None,
        email_patterns: Vec::new(),
        driver: AccountDriver::Jmap,
        enabled: true,
        appearance,
        transport: AccountTransportSettings {
            provider: ProviderHint("generic".to_string()),
            auth: ProviderAuthKind("password".to_string()),
            base_url: None,
            username: None,
            imap: None,
            smtp: None,
            secret_ref: None,
        },
        created_at: "t".to_string(),
        updated_at: "t".to_string(),
    }
}

#[test]
fn logo_uploads_are_checked_for_size_then_type() {
    let max = 1024;
    assert_eq!(logo_upload_extension(10, max, Some("image/png; charset=binary")).ok(), Some("png"));
    assert_eq!(logo_upload_extension(10, max, Some("  image/webp ")).ok(), Some("webp"));
    refused(
        ApiErrorCode::InvalidAccountLogo,
        "account logo file is empty",
        logo_upload_extension(0, max, Some("image/png")).unwrap_err(),
    );
    refused(
        ApiErrorCode::InvalidAccountLogo,
        "account logo file is too large",
        logo_upload_extension(1025, max, Some("image/png")).unwrap_err(),
    );
    refused(
        ApiErrorCode::InvalidAccountLogo,
        "account logo must be a PNG, JPEG, WebP, or GIF image",
        logo_upload_extension(10, max, None).unwrap_err(),
    );
    assert_eq!(account_logo_extension("image/jpeg").ok(), Some("jpg"));
    assert_eq!(header_media_type(Some(" text/plain ;x=y")), "text/plain");
    assert_eq!(header_media_type(None), "");
}

#[test]
fn logo_files_are_named_by_image_id_and_extension() {
    assert_eq!(logo_file_name("abc", "png"), "abc.png");
    let candidates = logo_file_candidates("abc");
    let names: Vec<&str> = candidates.iter().map(|(n, _)| n.as_str()).collect();
    assert_eq!(names, vec!["abc.png", "abc.jpg", "abc.webp", "abc.gif"]);
    assert_eq!(candidates[2].1, "image/webp");
    let id = new_logo_image_id();
    assert_eq!(id.len(), 32);
    assert!(id.chars().all(|c| c.is_ascii_hexdigit() && !c.is_ascii_uppercase()));
    assert_eq!(id.as_bytes()[12], b'4');
    assert!(matches!(id.as_bytes()[16], b'8' | b'9' | b'a' | b'b'));
    assert_ne!(new_logo_image_id(), id);
}

#[test]
fn a_new_logo_keeps_the_fallback_initials_and_reports_the_old_one() {
    let mut a = account(Some(AccountAppearance::Image {
        image_id: "old".to_string(),
        initials: "pm".to_string(),
        color_hue: 42,
    }));
    let (initials, hue) = account_appearance_fallback_parts(&a);
    let previous = set_logo_appearance(&mut a, "new".to_string());
    assert_eq!(previous.as_deref(), Some("old"));
    assert_eq!(
        a.appearance,
        Some(AccountAppearance::Image { image_id: "new".to_string(), initials, color_hue: hue })
    );
    assert_eq!(superseded_logo(previous, "new").as_deref(), Some("old"));
    assert_eq!(superseded_logo(Some("same".to_string()), "same"), None);
    assert_eq!(superseded_logo(None, "x"), None);

    let mut plain = account(None);
    assert_eq!(set_logo_appearance(&mut plain, "first".to_string()), None);
}

#[test]
fn a_normalized_initials_appearance_validates() {
    for (raw, hue, expected) in [
        ("  work  account ", 999u16, "WA"),
        ("   ", 10, "A"),
        ("x", 360, "X"),
        ("ab cd ef", 0, "AC"),
    ] {
        let normalized = normalize_account_appearance(AccountAppearance::Initials {
            initials: raw.to_string(),
            color_hue: hue,
        });
        match &normalized {
            AccountAppearance::Initials { initials, color_hue } => {
                assert_eq!(initials, expected);
                assert_eq!(*color_hue, hue.min(360));
            }
            other => panic!("mode changed: {other:?}"),
        }
        assert!(validate_account_appearance(&normalized).is_ok());
    }
}
