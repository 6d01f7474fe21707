//! The decisions of the commands. Each takes the registry, what the secret
//! store holds for the provider, and the moment where it matters; it returns
//! the outcome and, on success, the one write to the secret store that the
//! caller performs. The outcomes are stated over a model in which the
//! registry maps names to digit counts and the store's entry for the
//! provider is either absent or a base32 string.

use vstd::prelude::*;
use vstd::string::*;
use crate::cli::{Config, CredentialsError, Secret};
use crate::totp::{
    code_at, generate_token, remaining_in_window, Token, TotpParameters, DEFAULT_DIGITS, TIME_STEP,
};

verus! {

/// The failures of a command.
#[derive(Debug, Clone, Copy, PartialEq, Eq)]
pub enum OtpError {
    /// The stored secret is not unpadded RFC 4648 base32 text.
    Decode,
    /// The provider is missing from the registry or from the secret store.
    NotFound,
    /// The secret store already holds a secret for the provider.
    AlreadyExists,
    /// The provider's digit count is not positive.
    InvalidParameter,
    /// The secret store could not be reached or refused the operation.
    StoreAccess,
    /// The registry file could not be read or written.
    Persistence,
    /// The registry could not be saved and the secret store change that
    /// preceded it could not be undone: the two disagree.
    PartialFailure,
}

pub open spec fn error_text(e: OtpError) -> Seq<char> {
    match e {
        OtpError::Decode => "secret is not valid base32"@,
        OtpError::NotFound => "provider not found"@,
        OtpError::AlreadyExists => "provider already exists in keychain"@,
        OtpError::InvalidParameter => "token size must be positive"@,
        OtpError::StoreAccess => "keychain is not accessible"@,
        OtpError::Persistence => "configuration could not be saved"@,
        OtpError::PartialFailure => "configuration not saved and keychain change not undone"@,
    }
}

impl OtpError {
    /// The error with its message.
    pub fn credentials_error(&self) -> (r: CredentialsError)
        ensures
            r@ == error_text(*self),
    {
        let text = match self {
            OtpError::Decode => "secret is not valid base32",
            OtpError::NotFound => "provider not found",
            OtpError::AlreadyExists => "provider already exists in keychain",
            OtpError::InvalidParameter => "token size must be positive",
            OtpError::StoreAccess => "keychain is not accessible",
            OtpError::Persistence => "configuration could not be saved",
            OtpError::PartialFailure => "configuration not saved and keychain change not undone",
        };
        CredentialsError::new(String::from_str(text))
    }
}

/// A write to the secret store.
#[derive(Debug, PartialEq, Eq)]
pub enum StoreAction {
    /// Store `secret` under `provider`.
    Write { provider: String, secret: String },
    /// Delete the secret stored under `provider`.
    Erase { provider: String },
}

impl StoreAction {
    /// The provider whose entry the action writes.
    pub open spec fn target(&self) -> Seq<char> {
        match self {
            StoreAction::Write { provider, .. } => provider@,
            StoreAction::Erase { provider } => provider@,
        }
    }

    /// The entry that the action leaves behind.
    pub open spec fn entry(&self) -> Option<Seq<char>> {
        match self {
            StoreAction::Write { secret, .. } => Some(secret@),
            StoreAction::Erase { .. } => None,
        }
    }
}

pub open spec fn opt_view(s: Option<String>) -> Option<Seq<char>> {
    match s {
        Some(x) => Some(x@),
        None => None,
    }
}

/// Registry, store entry and result after `add`.
pub open spec fn add_outcome(
    reg: Map<Seq<char>, usize>,
    entry: Option<Seq<char>>,
    secret: Seq<char>,
    provider: Seq<char>,
) -> (Map<Seq<char>, usize>, Option<Seq<char>>, Result<(), OtpError>) {
    if entry is Some {
        (reg, entry, Err(OtpError::AlreadyExists))
    } else {
        (reg.insert(provider, DEFAULT_DIGITS), Some(secret), Ok(()))
    }
}

/// Registry, store entry and result after `remove`.
pub open spec fn remove_outcome(
    reg: Map<Seq<char>, usize>,
    entry: Option<Seq<char>>,
    provider: Seq<char>,
) -> (Map<Seq<char>, usize>, Option<Seq<char>>, Result<(), OtpError>) {
    if !reg.contains_key(provider) || entry is None {
        (reg, entry, Err(OtpError::NotFound))
    } else {
        (reg.remove(provider), None, Ok(()))
    }
}

/// The code that `generate` shows at `moment`, or its failure.
pub open spec fn generate_outcome(
    reg: Map<Seq<char>, usize>,
    entry: Option<Seq<char>>,
    provider: Seq<char>,
    moment: nat,
) -> Result<Seq<char>, OtpError> {
    if !reg.contains_key(provider) || entry is None {
        Err(OtpError::NotFound)
    } else {
        if !base32_text(entry->Some_0) {
            Err(OtpError::Decode)
        } else {
            match base32_decoded(entry->Some_0) {
                None => Err(OtpError::Decode),
                Some(bytes) => if reg[provider] == 0 {
                    Err(OtpError::InvalidParameter)
                } else {
                    Ok(code_at(bytes, reg[provider] as nat, TIME_STEP as nat, moment))
                },
            }
        }
    }
}

/// A character of the RFC 4648 base32 alphabet.
pub open spec fn is_base32_char(c: char) -> bool {
    ('A' <= c && c <= 'Z') || ('2' <= c && c <= '7')
}

/// Unpadded RFC 4648 base32 text: every character in the alphabet (so no
/// `=`), and a length that leaves no partial byte, that is, not 1, 3 or 6
/// beyond a multiple of eight.
pub open spec fn base32_text(text: Seq<char>) -> bool {
    &&& forall|i: int| 0 <= i < text.len() ==> is_base32_char(#[trigger] text[i])
    &&& text.len() % 8 != 1
    &&& text.len() % 8 != 3
    &&& text.len() % 8 != 6
}

/// Whether `text` is unpadded RFC 4648 base32 text.
pub fn is_base32_text(text: &str) -> (r: bool)
    ensures
        r == base32_text(text@),
{
    let n = text.unicode_len();
    let rest: usize = n % 8;
    if rest == 1 || rest == 3 || rest == 6 {
        return false;
    }
    let mut i: usize = 0;
    while i < n
        invariant
            n == text@.len(),
            i <= n,
            forall|j: int| 0 <= j < i ==> is_base32_char(#[trigger] text@[j]),
        decreases n - i,
    {
        let c = text.get_char(i);
        if !(('A' <= c && c <= 'Z') || ('2' <= c && c <= '7')) {
            return false;
        }
        i = i + 1;
    }
    true
}

/// Name for what `base32::decode` makes of a text under the RFC 4648
/// alphabet. The decoder folds lower case to upper case, reads `=` as zero
/// wherever it stands and drops the bits of a partial last byte; it gives
/// `None` for a character that is none of a letter, a digit 2 to 7 or `=`.
pub uninterp spec fn base32_decoded(text: Seq<char>) -> Option<Seq<u8>>;

/// Relies on `base32::decode` with the RFC 4648 alphabet: the decoded
/// bytes, or `None` where the decoder refuses a character.
#[verifier::external_body]
fn decode_base32(text: &str) -> (r: Option<Vec<u8>>)
    ensures
        match r {
            Some(b) => base32_decoded(text@) == Some(b@),
            None => base32_decoded(text@) is None,
        },
{
    base32::decode(base32::Alphabet::RFC4648 { padding: false }, text)
}

/// The tool's state: the provider registry.
#[derive(Debug)]
pub struct OTP {
    pub config: Config,
}

impl OTP {
    pub open spec fn wf(&self) -> bool {
        self.config.wf()
    }

    pub fn new(config: Config) -> (r: OTP)
        ensures
            r.config == config,
    {
        OTP { config }
    }

    /// The registered providers, each once, in registration order.
    pub fn list_providers(&self) -> (r: Vec<String>)
        requires
            self.wf(),
        ensures
            r@.len() == self.config@.len(),
            forall|k: Seq<char>|
                self.config@.contains_key(k) <==> exists|i: int|
                    0 <= i < r@.len() && #[trigger] r@[i]@ == k,
            forall|i: int, j: int|
                0 <= i < r@.len() && 0 <= j < r@.len() && i != j ==> #[trigger] r@[i]@
                    != #[trigger] r@[j]@,
    {
        self.config.providers()
    }

    /// Adds `provider` with `secret`, given what the store holds for it.
    /// On success the caller stores the returned entry.
    pub fn add_secret(&mut self, secret: String, provider: String, stored: Option<String>) -> (r:
        Result<StoreAction, OtpError>)
        requires
            old(self).wf(),
        ensures
            final(self).wf(),
            final(self).config@ == add_outcome(
                old(self).config@,
                opt_view(stored),
                secret@,
                provider@,
            ).0,
            match r {
                Ok(a) => add_outcome(old(self).config@, opt_view(stored), secret@, provider@).2 is Ok
                    && a.target() == provider@ && a.entry() == add_outcome(
                    old(self).config@,
                    opt_view(stored),
                    secret@,
                    provider@,
                ).1,
                Err(e) => add_outcome(old(self).config@, opt_view(stored), secret@, provider@).2
                    == Err::<(), OtpError>(e),
            },
    {
        match stored {
            Some(_) => Err(OtpError::AlreadyExists),
            None => {
                let name = provider.clone();
                self.config.insert(provider, Secret::default());
                Ok(StoreAction::Write { provider: name, secret })
            },
        }
    }

    /// Removes `provider`, given what the store holds for it. On success the
    /// caller erases the returned entry.
    pub fn remove_provider(&mut self, provider: String, stored: Option<String>) -> (r: Result<
        StoreAction,
        OtpError,
    >)
        requires
            old(self).wf(),
        ensures
            final(self).wf(),
            final(self).config@ == remove_outcome(old(self).config@, opt_view(stored), provider@).0,
            match r {
                Ok(a) => remove_outcome(old(self).config@, opt_view(stored), provider@).2 is Ok
                    && a.target() == provider@ && a.entry() == remove_outcome(
                    old(self).config@,
                    opt_view(stored),
                    provider@,
                ).1,
                Err(e) => remove_outcome(old(self).config@, opt_view(stored), provider@).2 == Err::<
                    (),
                    OtpError,
                >(e),
            },
    {
        if !self.config.contains(&provider) {
            return Err(OtpError::NotFound);
        }
        match stored {
            None => Err(OtpError::NotFound),
            Some(_) => {
                self.config.remove(&provider);
                Ok(StoreAction::Erase { provider })
            },
        }
    }

    /// The code for `provider` at `moment` and the seconds it stays valid,
    /// given what the store holds for it.
    pub fn generate_totp(&self, provider: &String, stored: Option<String>, moment: u64) -> (r:
        Result<Token, OtpError>)
        requires
            self.wf(),
        ensures
            match r {
                Ok(t) => generate_outcome(self.config@, opt_view(stored), provider@, moment as nat)
                    == Ok::<Seq<char>, OtpError>(t.code@) && t.remaining as nat
                    == remaining_in_window(moment as nat, TIME_STEP as nat),
                Err(e) => generate_outcome(self.config@, opt_view(stored), provider@, moment as nat)
                    == Err::<Seq<char>, OtpError>(e),
            },
    {
        let digits = match self.config.token_size(provider) {
            None => return Err(OtpError::NotFound),
            Some(d) => d,
        };
        let text = match stored {
            None => return Err(OtpError::NotFound),
            Some(t) => t,
        };
        if !is_base32_text(text.as_str()) {
            return Err(OtpError::Decode);
        }
        let bytes = match decode_base32(text.as_str()) {
            None => return Err(OtpError::Decode),
            Some(b) => b,
        };
        if digits == 0 {
            return Err(OtpError::InvalidParameter);
        }
        let params = TotpParameters::new(digits);
        Ok(generate_token(&bytes, &params, moment))
    }
}

/// The export line of one provider: `<provider>: <secret>`.
pub fn export_line(provider: &String, secret: &String) -> (r: String)
    ensures
        r@ == provider@ + ": "@ + secret@,
{
    let mut line = provider.clone();
    line.append(": ");
    line.append(secret.as_str());
    line
}

/// The store action that undoes `action`, given the entry that the store
/// held for its provider before: `None` where the action left that entry as
/// it was.
pub fn compensation(action: &StoreAction, previous: Option<String>) -> (r: Option<StoreAction>)
    ensures
        match r {
            Some(u) => u.target() == action.target() && u.entry() == opt_view(previous)
                && opt_view(previous) != action.entry(),
            None => opt_view(previous) == action.entry(),
        },
{
    let provider = match action {
        StoreAction::Write { provider, .. } => provider.clone(),
        StoreAction::Erase { provider } => provider.clone(),
    };
    match previous {
        None => match action {
            StoreAction::Write { .. } => Some(StoreAction::Erase { provider }),
            StoreAction::Erase { .. } => None,
        },
        Some(before) => match action {
            StoreAction::Write { secret, .. } => {
                if *secret == before {
                    None
                } else {
                    Some(StoreAction::Write { provider, secret: before })
                }
            },
            StoreAction::Erase { .. } => Some(StoreAction::Write { provider, secret: before }),
        },
    }
}

/// Adding a provider whose store entry is absent and then removing it
/// succeeds both times, leaves the provider in neither the registry nor the
/// store, restores every other registration, and makes a later `generate`
/// fail with `NotFound`.
pub proof fn lemma_add_then_remove(
    reg: Map<Seq<char>, usize>,
    secret: Seq<char>,
    provider: Seq<char>,
    moment: nat,
)
    ensures
        ({
            let added = add_outcome(reg, None, secret, provider);
            let removed = remove_outcome(added.0, added.1, provider);
            &&& added.2 is Ok
            &&& removed.2 is Ok
            &&& !removed.0.contains_key(provider)
            &&& removed.1 is None
            &&& removed.0 == reg.remove(provider)
            &&& generate_outcome(removed.0, removed.1, provider, moment) == Err::<
                Seq<char>,
                OtpError,
            >(OtpError::NotFound)
        }),
{
    assert(reg.insert(provider, DEFAULT_DIGITS).remove(provider) =~= reg.remove(provider));
}

/// A second `add` of the same provider fails with `AlreadyExists` and
/// changes neither the registry nor the store: the first secret stays.
pub proof fn lemma_duplicate_add(
    reg: Map<Seq<char>, usize>,
    entry: Option<Seq<char>>,
    first: Seq<char>,
    second: Seq<char>,
    provider: Seq<char>,
)
    ensures
        ({
            let once = add_outcome(reg, entry, first, provider);
            let twice = add_outcome(once.0, once.1, second, provider);
            &&& twice.2 == Err::<(), OtpError>(OtpError::AlreadyExists)
            &&& twice.0 == once.0
            &&& twice.1 == once.1
            &&& entry is None ==> twice.1 == Some(first)
        }),
{
}

/// `generate` on a provider registered and present in the store, whose
/// stored text is not unpadded base32 text or is refused by the decoder,
/// fails with `Decode`.
pub proof fn lemma_malformed_secret(
    reg: Map<Seq<char>, usize>,
    text: Seq<char>,
    provider: Seq<char>,
    moment: nat,
)
    requires
        reg.contains_key(provider),
        !base32_text(text) || base32_decoded(text) is None,
    ensures
        generate_outcome(reg, Some(text), provider, moment) == Err::<Seq<char>, OtpError>(
            OtpError::Decode,
        ),
{
}

} // verus!
