use otp::totp::{
    code_from_digest, counter_at, dynamic_truncate, format_code, generate_code, generate_token,
    remaining_seconds, TotpParameters, DEFAULT_DIGITS, DIGEST_LEN, TIME_STEP,
};

fn rfc_secret() -> Vec<u8> {
    b"12345678901234567890".to_vec()
}

fn hex(s: &str) -> Vec<u8> {
    (0..s.len() / 2).map(|i| u8::from_str_radix(&s[2 * i..2 * i + 2], 16).unwrap()).collect()
}

#[test]
fn rfc_vector_at_59() {
    let params = TotpParameters::new(8);
    assert_eq!(generate_code(&rfc_secret(), &params, 59), "94287082");
}

#[test]
fn rfc_vectors_later_moments() {
    let params = TotpParameters::new(8);
    let cases: [(u64, &str); 5] = [
        (1111111109, "07081804"),
        (1111111111, "14050471"),
        (1234567890, "89005924"),
        (2000000000, "69279037"),
        (20000000000, "65353130"),
    ];
    for (moment, code) in cases {
        assert_eq!(generate_code(&rfc_secret(), &params, moment), code);
    }
}

#[test]
fn six_digit_code_is_last_six_of_eight() {
    let six = generate_code(&rfc_secret(), &TotpParameters::new(6), 59);
    assert_eq!(six, "287082");
}

#[test]
fn same_inputs_same_code() {
    let params = TotpParameters::new(6);
    let a = generate_code(&rfc_secret(), &params, 1_700_000_000);
    let b = generate_code(&rfc_secret(), &params, 1_700_000_000);
    assert_eq!(a, b);
}

#[test]
fn same_window_same_code() {
    let params = TotpParameters::new(6);
    let a = generate_code(&rfc_secret(), &params, 60);
    let b = generate_code(&rfc_secret(), &params, 89);
    let c = generate_code(&rfc_secret(), &params, 90);
    assert_eq!(a, b);
    assert_ne!(a, c);
}

#[test]
fn code_is_digits_only() {
    for digits in [6usize, 7, 8] {
        let code = generate_code(&rfc_secret(), &TotpParameters::new(digits), 1234);
        assert_eq!(code.len(), digits);
        assert!(code.chars().all(|c| c.is_ascii_digit()));
    }
}

#[test]
fn padding_of_small_value() {
    assert_eq!(format_code(42, 6), "000042");
}

#[test]
fn padding_reduces_large_value() {
    assert_eq!(format_code(1234567, 6), "234567");
    assert_eq!(format_code(2147483647, 8), "47483647");
}

#[test]
fn padding_zero_digits_and_wide_codes() {
    assert_eq!(format_code(42, 0), "");
    assert_eq!(format_code(2147483647, 10), "2147483647");
    assert_eq!(format_code(7, 12), "000000000007");
}

#[test]
fn truncation_of_rfc4226_digest() {
    let digest = hex("1f8698690e02ca16618550ef7f19da8e945b555a");
    assert_eq!(digest.len(), DIGEST_LEN);
    assert_eq!(dynamic_truncate(&digest), 0x50ef7f19);
    assert_eq!(code_from_digest(&digest, 6), "872921");
}

#[test]
fn truncation_clears_top_bit() {
    let mut digest = vec![0xffu8; 20];
    digest[19] = 0xf0;
    assert_eq!(dynamic_truncate(&digest), 0x7fffffff);
}

#[test]
fn window_boundary() {
    assert_eq!(remaining_seconds(0, TIME_STEP), 30);
    assert_eq!(remaining_seconds(29, TIME_STEP), 1);
    assert_eq!(remaining_seconds(30, TIME_STEP), 30);
    assert_eq!(remaining_seconds(31, TIME_STEP), 29);
    assert_eq!(remaining_seconds(59, TIME_STEP), 1);
    assert_eq!(remaining_seconds(1_700_000_000, TIME_STEP), 10);
}

#[test]
fn counter_counts_windows() {
    assert_eq!(counter_at(59, 30), 1);
    assert_eq!(counter_at(60, 30), 2);
    assert_eq!(counter_at(0, 30), 0);
}

#[test]
fn token_pairs_code_and_window() {
    let token = generate_token(&rfc_secret(), &TotpParameters::new(8), 59);
    assert_eq!(token.code, "94287082");
    assert_eq!(token.remaining, 1);
}

#[test]
fn default_parameters() {
    let p = TotpParameters::new(DEFAULT_DIGITS);
    assert_eq!(p.digits, 6);
    assert_eq!(p.step, 30);
}
