use otp::cli::{Config, CredentialsError, Secret};
use otp::commands::{compensation, export_line, is_base32_text, OtpError, StoreAction, OTP};

const RFC_BASE32: &str = "GEZDGNBVGY3TQOJQGEZDGNBVGY3TQOJQ";

fn s(x: &str) -> String {
    x.to_string()
}

#[test]
fn secret_default_is_six_digits() {
    assert_eq!(Secret::default().token_size, 6);
}

#[test]
fn config_starts_empty() {
    let c = Config::default();
    assert!(c.providers().is_empty());
    assert!(!c.contains(&s("svc")));
}

#[test]
fn config_insert_replace_remove() {
    let mut c = Config::new();
    c.insert(s("a"), Secret { token_size: 6 });
    c.insert(s("b"), Secret { token_size: 8 });
    c.insert(s("a"), Secret { token_size: 7 });
    assert_eq!(c.token_size(&s("a")), Some(7));
    assert_eq!(c.token_size(&s("b")), Some(8));
    assert_eq!(c.providers().len(), 2);
    assert!(c.remove(&s("a")));
    assert!(!c.remove(&s("a")));
    assert_eq!(c.token_size(&s("a")), None);
    assert_eq!(c.providers(), vec![s("b")]);
}

#[test]
fn add_returns_write_and_registers() {
    let mut otp = OTP::new(Config::new());
    let r = otp.add_secret(s(RFC_BASE32), s("svc"), None);
    assert_eq!(r, Ok(StoreAction::Write { provider: s("svc"), secret: s(RFC_BASE32) }));
    assert_eq!(otp.config.token_size(&s("svc")), Some(6));
    assert_eq!(otp.list_providers(), vec![s("svc")]);
}

#[test]
fn duplicate_add_is_rejected() {
    let mut otp = OTP::new(Config::new());
    let first = otp.add_secret(s(RFC_BASE32), s("svc"), None);
    assert!(first.is_ok());
    let second = otp.add_secret(s("AAAA"), s("svc"), Some(s(RFC_BASE32)));
    assert_eq!(second, Err(OtpError::AlreadyExists));
    assert_eq!(otp.config.token_size(&s("svc")), Some(6));
    assert_eq!(otp.list_providers().len(), 1);
}

#[test]
fn add_then_remove_then_generate() {
    let mut otp = OTP::new(Config::new());
    otp.add_secret(s(RFC_BASE32), s("other"), None).unwrap();
    otp.add_secret(s(RFC_BASE32), s("svc"), None).unwrap();
    let removed = otp.remove_provider(s("svc"), Some(s(RFC_BASE32)));
    assert_eq!(removed, Ok(StoreAction::Erase { provider: s("svc") }));
    assert!(!otp.config.contains(&s("svc")));
    assert!(otp.config.contains(&s("other")));
    assert_eq!(otp.generate_totp(&s("svc"), None, 59), Err(OtpError::NotFound));
}

#[test]
fn remove_unknown_provider() {
    let mut otp = OTP::new(Config::new());
    assert_eq!(otp.remove_provider(s("svc"), Some(s(RFC_BASE32))), Err(OtpError::NotFound));
}

#[test]
fn remove_without_stored_secret() {
    let mut otp = OTP::new(Config::new());
    otp.add_secret(s(RFC_BASE32), s("svc"), None).unwrap();
    assert_eq!(otp.remove_provider(s("svc"), None), Err(OtpError::NotFound));
    assert!(otp.config.contains(&s("svc")));
}

#[test]
fn generate_rfc_vector_through_registry() {
    let mut config = Config::new();
    config.insert(s("svc"), Secret { token_size: 8 });
    let otp = OTP::new(config);
    let token = otp.generate_totp(&s("svc"), Some(s(RFC_BASE32)), 59).unwrap();
    assert_eq!(token.code, "94287082");
    assert_eq!(token.remaining, 1);
}

#[test]
fn generate_default_digits() {
    let mut otp = OTP::new(Config::new());
    otp.add_secret(s(RFC_BASE32), s("svc"), None).unwrap();
    let token = otp.generate_totp(&s("svc"), Some(s(RFC_BASE32)), 30).unwrap();
    assert_eq!(token.code.len(), 6);
    assert_eq!(token.remaining, 30);
}

#[test]
fn generate_unknown_provider() {
    let otp = OTP::new(Config::new());
    assert_eq!(otp.generate_totp(&s("svc"), Some(s(RFC_BASE32)), 59), Err(OtpError::NotFound));
}

#[test]
fn generate_missing_secret() {
    let mut otp = OTP::new(Config::new());
    otp.add_secret(s(RFC_BASE32), s("svc"), None).unwrap();
    assert_eq!(otp.generate_totp(&s("svc"), None, 59), Err(OtpError::NotFound));
}

#[test]
fn generate_malformed_secret() {
    let mut otp = OTP::new(Config::new());
    otp.add_secret(s("not base32!"), s("svc"), None).unwrap();
    assert_eq!(otp.generate_totp(&s("svc"), Some(s("not base32!")), 59), Err(OtpError::Decode));
    assert_eq!(otp.generate_totp(&s("svc"), Some(s("GEZ1")), 59), Err(OtpError::Decode));
}

#[test]
fn generate_zero_digits() {
    let mut config = Config::new();
    config.insert(s("svc"), Secret { token_size: 0 });
    let otp = OTP::new(config);
    assert_eq!(
        otp.generate_totp(&s("svc"), Some(s(RFC_BASE32)), 59),
        Err(OtpError::InvalidParameter)
    );
}

#[test]
fn export_line_format() {
    assert_eq!(export_line(&s("svc"), &s(RFC_BASE32)), "svc: GEZDGNBVGY3TQOJQGEZDGNBVGY3TQOJQ");
}

#[test]
fn error_messages() {
    let e = OtpError::AlreadyExists.credentials_error();
    assert_eq!(e.message(), "provider already exists in keychain");
    assert_eq!(OtpError::NotFound.credentials_error().message(), "provider not found");
    let c = CredentialsError::new(s("boom"));
    assert_eq!(c.message(), "boom");
}

#[test]
fn generate_truncating_length_is_decode() {
    let mut otp = OTP::new(Config::new());
    otp.add_secret(s("ABC"), s("svc"), None).unwrap();
    assert_eq!(otp.generate_totp(&s("svc"), Some(s("ABC")), 59), Err(OtpError::Decode));
    assert_eq!(otp.generate_totp(&s("svc"), Some(s("A")), 59), Err(OtpError::Decode));
}

#[test]
fn generate_padding_character_is_decode() {
    let mut otp = OTP::new(Config::new());
    otp.add_secret(s("GEZDGNB="), s("svc"), None).unwrap();
    assert_eq!(otp.generate_totp(&s("svc"), Some(s("GEZDGNB=")), 59), Err(OtpError::Decode));
    assert_eq!(
        otp.generate_totp(&s("svc"), Some(s("GEZDGNBVGY3TQOJQGEZDGNBVGY3T====")), 59),
        Err(OtpError::Decode)
    );
}

#[test]
fn base32_text_recognised() {
    assert!(is_base32_text(RFC_BASE32));
    assert!(is_base32_text(""));
    assert!(is_base32_text("AB"));
    assert!(is_base32_text("ABCD"));
    assert!(is_base32_text("ABCDE"));
    assert!(is_base32_text("ABCDEFG"));
    assert!(!is_base32_text("A"));
    assert!(!is_base32_text("ABC"));
    assert!(!is_base32_text("ABCDEF"));
    assert!(!is_base32_text("ABCDEFGHA"));
    assert!(!is_base32_text("GEZDGNB="));
    assert!(!is_base32_text("gezdgnbv"));
    assert!(!is_base32_text("GEZDGNB1"));
    assert!(!is_base32_text("GEZDGNBÄ"));
}

#[test]
fn compensation_of_add_erases() {
    let write = StoreAction::Write { provider: s("svc"), secret: s(RFC_BASE32) };
    assert_eq!(compensation(&write, None), Some(StoreAction::Erase { provider: s("svc") }));
    assert_eq!(compensation(&write, Some(s(RFC_BASE32))), None);
    assert_eq!(
        compensation(&write, Some(s("AAAA"))),
        Some(StoreAction::Write { provider: s("svc"), secret: s("AAAA") })
    );
}

#[test]
fn compensation_of_remove_restores() {
    let erase = StoreAction::Erase { provider: s("svc") };
    assert_eq!(
        compensation(&erase, Some(s(RFC_BASE32))),
        Some(StoreAction::Write { provider: s("svc"), secret: s(RFC_BASE32) })
    );
    assert_eq!(compensation(&erase, None), None);
}

#[test]
fn partial_failure_message() {
    assert_eq!(
        OtpError::PartialFailure.credentials_error().message(),
        "configuration not saved and keychain change not undone"
    );
}
