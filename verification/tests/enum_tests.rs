use tumblr::errors::{ApiError, ParseOAuthAccountProviderError, ParseUserRoleError};
use tumblr::models::{
    provider_text_round_trip, role_text_round_trip, OAuthAccountProvider, UserRole,
};

#[test]
fn provider_google_decodes() {
    assert_eq!(
        OAuthAccountProvider::from_str("GOOGLE"),
        Ok(OAuthAccountProvider::GOOGLE)
    );
}

#[test]
fn provider_facebook_is_rejected() {
    let err = OAuthAccountProvider::from_str("FACEBOOK").unwrap_err();
    assert_eq!(err, ParseOAuthAccountProviderError);
    assert_eq!(err.api_error(), ApiError::InvalidEnumValue);
}

#[test]
fn provider_decodes_every_variant_and_nothing_else() {
    assert_eq!(
        OAuthAccountProvider::from_str("APPLE"),
        Ok(OAuthAccountProvider::APPLE)
    );
    assert_eq!(
        OAuthAccountProvider::from_str("GITHUB"),
        Ok(OAuthAccountProvider::GITHUB)
    );
    assert!(OAuthAccountProvider::from_str("google").is_err());
    assert!(OAuthAccountProvider::from_str("GOOGL").is_err());
    assert!(OAuthAccountProvider::from_str("GOOGLEE").is_err());
    assert!(OAuthAccountProvider::from_str("").is_err());
}

#[test]
fn provider_text_round_trips() {
    for p in [
        OAuthAccountProvider::APPLE,
        OAuthAccountProvider::GITHUB,
        OAuthAccountProvider::GOOGLE,
    ] {
        assert_eq!(provider_text_round_trip(p), Ok(p));
        assert_eq!(OAuthAccountProvider::from_str(p.as_str()), Ok(p));
    }
}

#[test]
fn role_decodes_every_variant_and_nothing_else() {
    assert_eq!(UserRole::from_str("ADMIN"), Ok(UserRole::ADMIN));
    assert_eq!(UserRole::from_str("USER"), Ok(UserRole::USER));
    let err = UserRole::from_str("MEMBER").unwrap_err();
    assert_eq!(err, ParseUserRoleError);
    assert_eq!(err.api_error(), ApiError::InvalidEnumValue);
    assert!(UserRole::from_str("admin").is_err());
    assert!(UserRole::from_str("").is_err());
}

#[test]
fn role_text_round_trips() {
    for r in [UserRole::ADMIN, UserRole::USER] {
        assert_eq!(role_text_round_trip(r), Ok(r));
        assert_eq!(UserRole::from_str(r.as_str()), Ok(r));
    }
}
