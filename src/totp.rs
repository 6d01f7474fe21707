//! The TOTP engine: counter, dynamic truncation, reduction and zero-padded
//! rendering, with the keyed hash itself computed by `totp_rs`.

use vstd::prelude::*;
use vstd::string::*;

verus! {

/// Length of window, in seconds, used by every provider.
pub const TIME_STEP: u64 = 30;

/// Digit count given to a newly added provider.
pub const DEFAULT_DIGITS: usize = 6;

/// Length in bytes of an HMAC-SHA1 digest.
pub const DIGEST_LEN: usize = 20;

/// `10^n`.
pub open spec fn pow10(n: nat) -> nat
    decreases n,
{
    if n == 0 {
        1
    } else {
        10 * pow10((n - 1) as nat)
    }
}

/// The ASCII decimal digit for `d` (which is below ten).
pub open spec fn digit_char(d: nat) -> char {
    if d == 0 {
        '0'
    } else if d == 1 {
        '1'
    } else if d == 2 {
        '2'
    } else if d == 3 {
        '3'
    } else if d == 4 {
        '4'
    } else if d == 5 {
        '5'
    } else if d == 6 {
        '6'
    } else if d == 7 {
        '7'
    } else if d == 8 {
        '8'
    } else {
        '9'
    }
}

pub open spec fn is_decimal_digit(c: char) -> bool {
    '0' <= c && c <= '9'
}

/// The last `width` decimal digits of `n`, most significant first, with
/// leading zeros: exactly `width` characters.
pub open spec fn decimal_padded(n: nat, width: nat) -> Seq<char>
    decreases width,
{
    if width == 0 {
        Seq::empty()
    } else {
        decimal_padded(n / 10, (width - 1) as nat).push(digit_char(n % 10))
    }
}

/// The last `width` bytes of `n` in big-endian order.
pub open spec fn be_bytes(n: nat, width: nat) -> Seq<u8>
    decreases width,
{
    if width == 0 {
        Seq::empty()
    } else {
        be_bytes(n / 256, (width - 1) as nat).push((n % 256) as u8)
    }
}

/// The moving factor: the counter as eight big-endian bytes.
pub open spec fn counter_bytes(counter: nat) -> Seq<u8> {
    be_bytes(counter, 8)
}

/// Name for the HMAC-SHA1 of `message` under `key`, as computed by `totp_rs`.
pub uninterp spec fn hmac_sha1(key: Seq<u8>, message: Seq<u8>) -> Seq<u8>;

/// Dynamic truncation: the low four bits of byte 19 pick an offset, and the
/// four bytes from there, read big-endian with the top bit cleared, are the
/// value.
pub open spec fn truncated(digest: Seq<u8>) -> nat {
    let o = (digest[19] % 16) as int;
    (digest[o] % 128) as nat * 16777216 + digest[o + 1] as nat * 65536 + digest[o + 2] as nat
        * 256 + digest[o + 3] as nat
}

/// The code rendered from a truncated value: reduced modulo `10^digits` and
/// written with exactly `digits` decimal digits.
pub open spec fn rendered_code(value: nat, digits: nat) -> Seq<char> {
    decimal_padded(value % pow10(digits), digits)
}

/// The code that a digest yields.
pub open spec fn code_of_digest(digest: Seq<u8>, digits: nat) -> Seq<char> {
    rendered_code(truncated(digest), digits)
}

/// The TOTP code for `secret` at `moment`, with windows of `step` seconds.
pub open spec fn code_at(secret: Seq<u8>, digits: nat, step: nat, moment: nat) -> Seq<char> {
    code_of_digest(hmac_sha1(secret, counter_bytes(moment / step)), digits)
}

/// Seconds left in the window that holds `moment`: in `1..=step`.
pub open spec fn remaining_in_window(moment: nat, step: nat) -> nat {
    (step - moment % step) as nat
}

/// The fixed parameters of code generation: SHA-1, a digit count, a window
/// length in seconds, and a counter that starts at the epoch.
#[derive(Debug, Clone, Copy, PartialEq, Eq)]
pub struct TotpParameters {
    pub digits: usize,
    pub step: u64,
}

impl TotpParameters {
    /// Parameters with `digits` digits and the standard window.
    pub fn new(digits: usize) -> (r: TotpParameters)
        ensures
            r.digits == digits,
            r.step == TIME_STEP,
    {
        TotpParameters { digits, step: TIME_STEP }
    }
}

/// Relies on `totp_rs::TOTP::sign` with SHA-1: the HMAC of `secret` over the
/// eight big-endian bytes of `moment / step`, twenty bytes long.
#[verifier::external_body]
fn sign_sha1(secret: &Vec<u8>, digits: usize, step: u64, moment: u64) -> (r: Vec<u8>)
    requires
        step > 0,
    ensures
        r@ == hmac_sha1(secret@, counter_bytes((moment / step) as nat)),
        r@.len() == DIGEST_LEN,
{
    totp_rs::TOTP::new(totp_rs::Algorithm::SHA1, digits, 0, step, secret.as_slice()).sign(moment)
}

/// `10^n` as a machine integer, for `n` up to nineteen.
fn pow10_u64(n: usize) -> (r: u64)
    requires
        n <= 19,
    ensures
        r as nat == pow10(n as nat),
    decreases n,
{
    if n == 0 {
        1
    } else {
        proof {
            lemma_pow10_monotone((n - 1) as nat, 18);
            reveal_with_fuel(pow10, 19);
        }
        10 * pow10_u64(n - 1)
    }
}

proof fn lemma_pow10_monotone(a: nat, b: nat)
    requires
        a <= b,
    ensures
        pow10(a) <= pow10(b),
    decreases b,
{
    if a < b {
        lemma_pow10_monotone(a, (b - 1) as nat);
    }
}

/// The numeral of a decimal digit.
fn digit_str(d: u64) -> (r: &'static str)
    requires
        d < 10,
    ensures
        r@ == seq![digit_char(d as nat)],
{
    proof {
        reveal_strlit("0");
        reveal_strlit("1");
        reveal_strlit("2");
        reveal_strlit("3");
        reveal_strlit("4");
        reveal_strlit("5");
        reveal_strlit("6");
        reveal_strlit("7");
        reveal_strlit("8");
        reveal_strlit("9");
    }
    if d == 0 {
        "0"
    } else if d == 1 {
        "1"
    } else if d == 2 {
        "2"
    } else if d == 3 {
        "3"
    } else if d == 4 {
        "4"
    } else if d == 5 {
        "5"
    } else if d == 6 {
        "6"
    } else if d == 7 {
        "7"
    } else if d == 8 {
        "8"
    } else {
        "9"
    }
}

/// Appends the last `width` decimal digits of `n` to `out`, zero-padded.
fn push_padded(n: u64, width: usize, out: &mut String)
    ensures
        final(out)@ == old(out)@ + decimal_padded(n as nat, width as nat),
    decreases width,
{
    if width > 0 {
        push_padded(n / 10, width - 1, out);
        out.append(digit_str(n % 10));
        proof {
            assert(decimal_padded(n as nat, width as nat) == decimal_padded(
                (n / 10) as nat,
                (width - 1) as nat,
            ).push(digit_char((n % 10) as nat)));
        }
    } else {
        proof {
            assert(old(out)@ + Seq::<char>::empty() =~= old(out)@);
        }
    }
}

/// Dynamic truncation of a twenty-byte digest to a 31-bit value.
pub fn dynamic_truncate(digest: &Vec<u8>) -> (r: u32)
    requires
        digest@.len() == DIGEST_LEN,
    ensures
        r as nat == truncated(digest@),
{
    let offset: usize = (digest[19] % 16) as usize;
    let b0: u32 = (digest[offset] % 128) as u32;
    let b1: u32 = digest[offset + 1] as u32;
    let b2: u32 = digest[offset + 2] as u32;
    let b3: u32 = digest[offset + 3] as u32;
    b0 * 16777216 + b1 * 65536 + b2 * 256 + b3
}

/// Renders a truncated value as a code of `digits` decimal digits: the value
/// modulo `10^digits`, left-padded with zeros.
pub fn format_code(value: u32, digits: usize) -> (r: String)
    ensures
        r@ == rendered_code(value as nat, digits as nat),
        r@.len() == digits,
{
    let code: u64 = if digits < 10 {
        (value as u64) % pow10_u64(digits)
    } else {
        proof {
            reveal_with_fuel(pow10, 11);
            lemma_pow10_monotone(10, digits as nat);
            vstd::arithmetic::div_mod::lemma_small_mod(value as nat, pow10(digits as nat));
        }
        value as u64
    };
    let mut out = String::new();
    push_padded(code, digits, &mut out);
    proof {
        assert(Seq::<char>::empty() + decimal_padded(code as nat, digits as nat) =~= decimal_padded(
            code as nat,
            digits as nat,
        ));
        lemma_padded_shape(code as nat, digits as nat);
    }
    out
}

/// The code that a twenty-byte digest yields.
pub fn code_from_digest(digest: &Vec<u8>, digits: usize) -> (r: String)
    requires
        digest@.len() == DIGEST_LEN,
    ensures
        r@ == code_of_digest(digest@, digits as nat),
{
    format_code(dynamic_truncate(digest), digits)
}

/// The window counter: whole steps elapsed since the epoch.
pub fn counter_at(moment: u64, step: u64) -> (r: u64)
    requires
        step > 0,
    ensures
        r == moment / step,
{
    moment / step
}

/// Seconds until the code for `moment` expires; a full window exactly on a
/// boundary, never zero.
pub fn remaining_seconds(moment: u64, step: u64) -> (r: u64)
    requires
        step > 0,
    ensures
        r as nat == remaining_in_window(moment as nat, step as nat),
        0 < r <= step,
{
    step - moment % step
}

/// The TOTP code for `secret` at `moment` under `params`.
pub fn generate_code(secret: &Vec<u8>, params: &TotpParameters, moment: u64) -> (r: String)
    requires
        params.step > 0,
    ensures
        r@ == code_at(secret@, params.digits as nat, params.step as nat, moment as nat),
{
    let digest = sign_sha1(secret, params.digits, params.step, moment);
    code_from_digest(&digest, params.digits)
}

/// A code together with the seconds for which it stays valid.
#[derive(Debug, PartialEq, Eq)]
pub struct Token {
    pub code: String,
    pub remaining: u64,
}

/// The code for `moment` and the seconds left in its window.
pub fn generate_token(secret: &Vec<u8>, params: &TotpParameters, moment: u64) -> (r: Token)
    requires
        params.step > 0,
    ensures
        r.code@ == code_at(secret@, params.digits as nat, params.step as nat, moment as nat),
        r.remaining as nat == remaining_in_window(moment as nat, params.step as nat),
{
    let code = generate_code(secret, params, moment);
    let remaining = remaining_seconds(moment, params.step);
    Token { code, remaining }
}

/// A padded rendering has exactly `width` characters, each a decimal digit.
pub proof fn lemma_padded_shape(n: nat, width: nat)
    ensures
        decimal_padded(n, width).len() == width,
        forall|i: int| 0 <= i < width ==> is_decimal_digit(#[trigger] decimal_padded(n, width)[i]),
    decreases width,
{
    if width > 0 {
        lemma_padded_shape(n / 10, (width - 1) as nat);
    }
}

/// Every code has exactly `digits` characters, all decimal digits.
pub proof fn lemma_code_shape(secret: Seq<u8>, digits: nat, step: nat, moment: nat)
    ensures
        code_at(secret, digits, step, moment).len() == digits,
        forall|i: int|
            0 <= i < digits ==> is_decimal_digit(#[trigger] code_at(secret, digits, step, moment)[i]),
{
    let d = hmac_sha1(secret, counter_bytes(moment / step));
    lemma_padded_shape(truncated(d) % pow10(digits), digits);
}

/// The code is a function of the secret, the digit count, the step and the
/// moment alone, and it stays the same for every moment of one window.
pub proof fn lemma_code_fixed_within_window(
    secret: Seq<u8>,
    digits: nat,
    step: nat,
    m1: nat,
    m2: nat,
)
    requires
        step > 0,
        m1 / step == m2 / step,
    ensures
        code_at(secret, digits, step, m1) == code_at(secret, digits, step, m2),
{
}

/// A moment on a window boundary leaves a full window; otherwise the seconds
/// left are the step less the seconds already spent, never zero.
pub proof fn lemma_window_boundary(moment: nat, step: nat)
    requires
        step > 0,
    ensures
        moment % step == 0 ==> remaining_in_window(moment, step) == step,
        moment % step != 0 ==> remaining_in_window(moment, step) == step - moment % step,
        0 < remaining_in_window(moment, step) <= step,
{
}

} // verus!
