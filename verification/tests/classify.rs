use tiss_greetd::greetd::{
    classify_auth_failure, classify_text, extract_pam_error_token, format_auth_error,
    map_pam_token, AuthError, AuthErrorCode, AuthFailureKind, AuthMessageType,
};

#[test]
fn error_codes_have_their_wire_names() {
    assert_eq!(AuthErrorCode::AuthFailed.as_str(), "auth_failed");
    assert_eq!(AuthErrorCode::AccountLocked.as_str(), "account_locked");
    assert_eq!(AuthErrorCode::PasswordExpired.as_str(), "password_expired");
    assert_eq!(AuthErrorCode::PamError.as_str(), "pam_error");
}

#[test]
fn failure_kinds_have_their_codes() {
    assert_eq!(AuthFailureKind::AuthErr.code(), AuthErrorCode::AuthFailed);
    assert_eq!(AuthFailureKind::AccountLocked.code(), AuthErrorCode::AccountLocked);
    assert_eq!(AuthFailureKind::Expired.code(), AuthErrorCode::PasswordExpired);
}

#[test]
fn message_kinds_that_ask() {
    assert!(AuthMessageType::Visible.is_prompt());
    assert!(AuthMessageType::Secret.is_prompt());
    assert!(!AuthMessageType::Info.is_prompt());
    assert!(!AuthMessageType::Error.is_prompt());
}

#[test]
fn auth_error_constructors() {
    let e = AuthError::pam_error("connect greetd socket");
    assert_eq!(e.code(), AuthErrorCode::PamError);
    assert_eq!(e.message(), "connect greetd socket");
    assert!(!e.return_to_idle());

    let e = AuthError::cancelled();
    assert_eq!(e.code(), AuthErrorCode::PamError);
    assert_eq!(e.message(), "authentication cancelled");
    assert!(e.return_to_idle());

    let e = AuthError::timeout();
    assert_eq!(e.code(), AuthErrorCode::PamError);
    assert_eq!(e.message(), "authentication timed out");
    assert!(e.return_to_idle());

    let e = AuthError::auth_failure(AuthFailureKind::Expired, " renew it ");
    assert_eq!(e.code(), AuthErrorCode::PasswordExpired);
    assert_eq!(e.message(), "Account or password expired (renew it)");
    assert!(!e.return_to_idle());
    assert_eq!(e.into_message(), "Account or password expired (renew it)");
}

#[test]
fn failure_messages() {
    assert_eq!(format_auth_error(AuthFailureKind::AuthErr, ""), "Authentication failed");
    assert_eq!(format_auth_error(AuthFailureKind::AuthErr, "  \n"), "Authentication failed");
    assert_eq!(
        format_auth_error(AuthFailureKind::AccountLocked, ""),
        "Account locked or disabled"
    );
    assert_eq!(format_auth_error(AuthFailureKind::Expired, ""), "Account or password expired");
    assert_eq!(
        format_auth_error(AuthFailureKind::AccountLocked, " three tries "),
        "Account locked or disabled (three tries)"
    );
}

#[test]
fn first_pam_token_is_found() {
    assert_eq!(extract_pam_error_token("PAM_AUTH_ERR"), Some("PAM_AUTH_ERR".to_string()));
    assert_eq!(
        extract_pam_error_token("pam: PAM_MAXTRIES (3)"),
        Some("PAM_MAXTRIES".to_string())
    );
    assert_eq!(
        extract_pam_error_token("x PAM_A, then PAM_B"),
        Some("PAM_A".to_string())
    );
    assert_eq!(extract_pam_error_token("PAM_"), Some("PAM_".to_string()));
    assert_eq!(extract_pam_error_token("LIBPAM_AUTH_ERR"), None);
    assert_eq!(extract_pam_error_token("_PAM_X"), None);
    assert_eq!(extract_pam_error_token("pam_auth_err"), None);
    assert_eq!(extract_pam_error_token("PAM"), None);
    assert_eq!(extract_pam_error_token(""), None);
    assert_eq!(extract_pam_error_token("éPAM_X y"), Some("PAM_X".to_string()));
    assert_eq!(extract_pam_error_token("PAM_Xé"), Some("PAM_X".to_string()));
}

#[test]
fn token_extraction_agrees_with_splitting() {
    for s in ["", "PAM_", "a PAM_B c", "aPAM_B PAM_C", "--PAM_1--", "P A M _", "PAM_X_Y9 z"] {
        let expected = s
            .split(|ch: char| !ch.is_ascii_alphanumeric() && ch != '_')
            .find(|token| token.starts_with("PAM_"))
            .map(|t| t.to_string());
        assert_eq!(extract_pam_error_token(s), expected);
    }
}

#[test]
fn known_pam_tokens() {
    for t in ["PAM_ACCT_EXPIRED", "PAM_CRED_EXPIRED", "PAM_AUTHTOK_EXPIRED", "PAM_NEW_AUTHTOK_REQD"] {
        assert_eq!(map_pam_token(t), Some(AuthFailureKind::Expired));
    }
    for t in ["PAM_MAXTRIES", "PAM_PERM_DENIED"] {
        assert_eq!(map_pam_token(t), Some(AuthFailureKind::AccountLocked));
    }
    for t in ["PAM_AUTH_ERR", "PAM_USER_UNKNOWN", "PAM_CRED_INSUFFICIENT"] {
        assert_eq!(map_pam_token(t), Some(AuthFailureKind::AuthErr));
    }
    assert_eq!(map_pam_token("PAM_SUCCESS"), None);
    assert_eq!(map_pam_token("pam_auth_err"), None);
    assert_eq!(map_pam_token(""), None);
}

#[test]
fn classification_by_token() {
    assert_eq!(classify_auth_failure("PAM_AUTH_ERR", ""), AuthFailureKind::AuthErr);
    assert_eq!(classify_auth_failure("PAM_MAXTRIES", ""), AuthFailureKind::AccountLocked);
    assert_eq!(classify_auth_failure("failed: PAM_NEW_AUTHTOK_REQD", ""), AuthFailureKind::Expired);
    assert_eq!(classify_auth_failure("failed", "PAM_PERM_DENIED"), AuthFailureKind::AccountLocked);
}

#[test]
fn a_known_token_decides_before_the_wording() {
    assert_eq!(
        classify_auth_failure("PAM_AUTH_ERR", "account locked"),
        AuthFailureKind::AuthErr
    );
    assert_eq!(
        classify_auth_failure("PAM_ACCT_EXPIRED", "too many failed attempts"),
        AuthFailureKind::Expired
    );
}

#[test]
fn an_unknown_first_token_leaves_it_to_the_wording() {
    assert_eq!(
        classify_auth_failure("PAM_SYSTEM_ERR", "password expired"),
        AuthFailureKind::Expired
    );
    assert_eq!(
        classify_auth_failure("PAM_SYSTEM_ERR then PAM_MAXTRIES", ""),
        AuthFailureKind::AuthErr
    );
}

#[test]
fn classification_by_wording() {
    for d in ["account locked", "too many failed logins", "maximum number of retries", "pam_faillock"] {
        assert_eq!(classify_auth_failure("authentication failed", d), AuthFailureKind::AccountLocked);
    }
    for d in [
        "password expired",
        "authentication token is no longer valid; new one required",
        "new password required",
        "password change required",
    ] {
        assert_eq!(classify_auth_failure("authentication failed", d), AuthFailureKind::Expired);
    }
    assert_eq!(classify_auth_failure("authentication failed", ""), AuthFailureKind::AuthErr);
    assert_eq!(classify_auth_failure("", ""), AuthFailureKind::AuthErr);
}

#[test]
fn wording_is_matched_in_lowercase() {
    assert_eq!(
        classify_auth_failure("Authentication failure", "ACCOUNT LOCKED"),
        AuthFailureKind::AccountLocked
    );
    assert_eq!(
        classify_auth_failure("Password Expired", ""),
        AuthFailureKind::Expired
    );
    // the Kelvin sign lowers to an ordinary k
    assert_eq!(
        classify_auth_failure("", "FAILLOC\u{212a}"),
        AuthFailureKind::AccountLocked
    );
}

#[test]
fn description_and_detail_are_joined_by_one_space() {
    assert_eq!(classify_auth_failure("account", "locked"), AuthFailureKind::AccountLocked);
    assert_eq!(classify_auth_failure("fail", "lock"), AuthFailureKind::AuthErr);
    assert_eq!(classify_auth_failure("x PAM", "_MAXTRIES"), AuthFailureKind::AuthErr);
}

#[test]
fn locked_wording_goes_before_expired_wording() {
    assert_eq!(
        classify_auth_failure("password expired", "account locked"),
        AuthFailureKind::AccountLocked
    );
}

#[test]
fn classify_text_takes_the_lowered_text_as_given() {
    assert_eq!(classify_text("ACCOUNT LOCKED", "account locked"), AuthFailureKind::AccountLocked);
    assert_eq!(classify_text("ACCOUNT LOCKED", "ACCOUNT LOCKED"), AuthFailureKind::AuthErr);
    assert_eq!(classify_text("PAM_MAXTRIES", "password expired"), AuthFailureKind::AccountLocked);
}

#[test]
fn classifying_twice_gives_the_same() {
    for (description, detail) in [
        ("PAM_AUTH_ERR", ""),
        ("authentication failed", "Account locked due to repeated failures"),
        ("", "Password Expired"),
        ("PAM_UNKNOWN", "x"),
    ] {
        let first = AuthError::auth_failure(classify_auth_failure(description, detail), detail);
        let second = AuthError::auth_failure(classify_auth_failure(description, detail), detail);
        assert_eq!(first.code(), second.code());
        assert_eq!(first.message(), second.message());
    }
}
