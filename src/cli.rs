//! The command surface and the provider registry's data.

use vstd::prelude::*;
use crate::totp::DEFAULT_DIGITS;

verus! {

/// Parsed command line.
#[derive(Debug)]
pub struct Cli {
    pub cmd: Command,
}

/// The commands of the tool.
#[derive(Debug)]
pub enum Command {
    /// List the registered providers.
    List,
    /// Generate a code for a provider.
    Generate { provider: String },
    /// Register a provider with its base32 secret.
    Add { secret: String, provider: String },
    /// Print every provider with its secret.
    Export,
    /// Remove a provider.
    Remove { provider: String },
}

/// Non-secret settings of one provider.
#[derive(Debug, Clone, Copy, PartialEq, Eq)]
pub struct Secret {
    pub token_size: usize,
}

impl Default for Secret {
    fn default() -> (r: Secret)
        ensures
            r.token_size == DEFAULT_DIGITS,
    {
        Secret { token_size: DEFAULT_DIGITS }
    }
}

/// The provider registry: each provider's name with its settings, in the
/// order of registration, no name twice.
#[derive(Debug)]
pub struct Config {
    secrets: Vec<(String, Secret)>,
}

impl View for Config {
    type V = Map<Seq<char>, usize>;

    /// Provider name to digit count.
    closed spec fn view(&self) -> Map<Seq<char>, usize> {
        Map::new(
            |k: Seq<char>| self.has_key(k),
            |k: Seq<char>| self.secrets@[self.index_of(k)].1.token_size,
        )
    }
}

impl Default for Config {
    fn default() -> (r: Config)
        ensures
            r.wf(),
            r@ == Map::<Seq<char>, usize>::empty(),
    {
        Config::new()
    }
}

impl Config {
    closed spec fn has_key(&self, k: Seq<char>) -> bool {
        exists|i: int| 0 <= i < self.secrets@.len() && self.secrets@[i].0@ == k
    }

    closed spec fn index_of(&self, k: Seq<char>) -> int {
        choose|i: int| 0 <= i < self.secrets@.len() && self.secrets@[i].0@ == k
    }

    /// No provider name occurs twice.
    pub closed spec fn wf(&self) -> bool {
        forall|i: int, j: int|
            0 <= i < self.secrets@.len() && 0 <= j < self.secrets@.len() && i != j
                ==> #[trigger] self.secrets@[i].0@ != #[trigger] self.secrets@[j].0@
    }

    proof fn lemma_view(&self)
        requires
            self.wf(),
        ensures
            forall|i: int|
                0 <= i < self.secrets@.len() ==> self@.contains_key(#[trigger] self.secrets@[i].0@)
                    && self@[self.secrets@[i].0@] == self.secrets@[i].1.token_size,
            forall|k: Seq<char>| #[trigger]
                self@.contains_key(k) ==> exists|i: int|
                    0 <= i < self.secrets@.len() && self.secrets@[i].0@ == k,
    {
        assert forall|i: int| 0 <= i < self.secrets@.len() implies self@.contains_key(
            #[trigger] self.secrets@[i].0@,
        ) && self@[self.secrets@[i].0@] == self.secrets@[i].1.token_size by {
            let k = self.secrets@[i].0@;
            assert(self.has_key(k));
            let j = self.index_of(k);
            assert(self.secrets@[j].0@ == k);
        }
    }

    /// An empty registry.
    pub fn new() -> (r: Config)
        ensures
            r.wf(),
            r@ == Map::<Seq<char>, usize>::empty(),
    {
        let r = Config { secrets: Vec::new() };
        assert(r@ =~= Map::<Seq<char>, usize>::empty());
        r
    }

    fn position(&self, provider: &String) -> (r: Option<usize>)
        requires
            self.wf(),
        ensures
            match r {
                Some(i) => i < self.secrets@.len() && self.secrets@[i as int].0@ == provider@,
                None => !self@.contains_key(provider@),
            },
    {
        let mut i: usize = 0;
        while i < self.secrets.len()
            invariant
                i <= self.secrets@.len(),
                forall|j: int| 0 <= j < i ==> self.secrets@[j].0@ != provider@,
            decreases self.secrets@.len() - i,
        {
            if self.secrets[i].0 == *provider {
                return Some(i);
            }
            i = i + 1;
        }
        None
    }

    /// Whether `provider` is registered.
    pub fn contains(&self, provider: &String) -> (r: bool)
        requires
            self.wf(),
        ensures
            r == self@.contains_key(provider@),
    {
        proof {
            self.lemma_view();
        }
        self.position(provider).is_some()
    }

    /// The digit count of `provider`, if it is registered.
    pub fn token_size(&self, provider: &String) -> (r: Option<usize>)
        requires
            self.wf(),
        ensures
            r == (if self@.contains_key(provider@) {
                Some(self@[provider@])
            } else {
                None
            }),
    {
        proof {
            self.lemma_view();
        }
        match self.position(provider) {
            Some(i) => Some(self.secrets[i].1.token_size),
            None => None,
        }
    }

    /// Removes `provider`; returns whether it was registered.
    pub fn remove(&mut self, provider: &String) -> (r: bool)
        requires
            old(self).wf(),
        ensures
            final(self).wf(),
            final(self)@ == old(self)@.remove(provider@),
            r == old(self)@.contains_key(provider@),
    {
        proof {
            self.lemma_view();
        }
        match self.position(provider) {
            None => {
                assert(self@ =~= self@.remove(provider@));
                false
            },
            Some(i) => {
                let ghost m0 = self@;
                let ghost s0 = self.secrets@;
                self.secrets.remove(i);
                let ghost s1 = self.secrets@;
                assert forall|a: int| 0 <= a < s1.len() implies #[trigger] s1[a] == s0[
                    if a < i {
                        a
                    } else {
                        a + 1
                    }
                ] by {}
                assert(self.wf());
                proof {
                    self.lemma_view();
                }
                assert forall|k: Seq<char>| #[trigger]
                    self@.contains_key(k) <==> m0.remove(provider@).contains_key(k) by {
                    if m0.contains_key(k) && k != provider@ {
                        let j = choose|j: int| 0 <= j < s0.len() && s0[j].0@ == k;
                        if j < i {
                            assert(s1[j] == s0[j]);
                        } else {
                            assert(s1[j - 1] == s0[j]);
                        }
                    }
                    if self@.contains_key(k) {
                        let j = choose|j: int| 0 <= j < s1.len() && s1[j].0@ == k;
                        assert(s1[j] == s0[if j < i { j } else { j + 1 }]);
                    }
                }
                assert forall|k: Seq<char>| #[trigger]
                    self@.contains_key(k) implies self@[k] == m0[k] by {
                    let j = choose|j: int| 0 <= j < s1.len() && s1[j].0@ == k;
                    assert(s1[j] == s0[if j < i { j } else { j + 1 }]);
                }
                assert(self@ =~= m0.remove(provider@));
                true
            },
        }
    }

    /// Registers `provider` with `secret`, replacing an earlier entry of the
    /// same name.
    pub fn insert(&mut self, provider: String, secret: Secret)
        requires
            old(self).wf(),
        ensures
            final(self).wf(),
            final(self)@ == old(self)@.insert(provider@, secret.token_size),
    {
        self.remove(&provider);
        let ghost m0 = self@;
        let ghost s0 = self.secrets@;
        proof {
            self.lemma_view();
        }
        self.secrets.push((provider, secret));
        let ghost s1 = self.secrets@;
        assert forall|a: int| 0 <= a < s0.len() implies #[trigger] s1[a] == s0[a] by {}
        assert(self.wf());
        proof {
            self.lemma_view();
        }
        assert forall|k: Seq<char>| #[trigger]
            self@.contains_key(k) <==> m0.insert(provider@, secret.token_size).contains_key(k) by {
            assert(s1[s0.len() as int].0@ == provider@);
            if m0.contains_key(k) {
                let j = choose|j: int| 0 <= j < s0.len() && s0[j].0@ == k;
                assert(s1[j] == s0[j]);
            }
            if self@.contains_key(k) && k != provider@ {
                let j = choose|j: int| 0 <= j < s1.len() && s1[j].0@ == k;
                if j < s0.len() {
                    assert(s1[j] == s0[j]);
                }
            }
        }
        assert forall|k: Seq<char>| #[trigger]
            self@.contains_key(k) implies self@[k] == m0.insert(provider@, secret.token_size)[k] by {
            let j = choose|j: int| 0 <= j < s1.len() && s1[j].0@ == k;
            if j < s0.len() {
                assert(s1[j] == s0[j]);
            }
        }
        assert(self@ =~= m0.insert(provider@, secret.token_size));
    }

    /// The registered provider names, each once, in registration order.
    pub fn providers(&self) -> (r: Vec<String>)
        requires
            self.wf(),
        ensures
            r@.len() == self@.len(),
            forall|k: Seq<char>|
                self@.contains_key(k) <==> exists|i: int| 0 <= i < r@.len() && #[trigger] r@[i]@ == k,
            forall|i: int, j: int|
                0 <= i < r@.len() && 0 <= j < r@.len() && i != j ==> #[trigger] r@[i]@ != #[trigger] r@[j]@,
    {
        let mut r: Vec<String> = Vec::new();
        let mut i: usize = 0;
        while i < self.secrets.len()
            invariant
                i <= self.secrets@.len(),
                r@.len() == i,
                forall|j: int| 0 <= j < i ==> #[trigger] r@[j]@ == self.secrets@[j].0@,
            decreases self.secrets@.len() - i,
        {
            r.push(self.secrets[i].0.clone());
            i = i + 1;
        }
        proof {
            self.lemma_view();
            assert forall|k: Seq<char>|
                self@.contains_key(k) <==> exists|i: int| 0 <= i < r@.len() && #[trigger] r@[i]@ == k by {
                if self@.contains_key(k) {
                    let j = choose|j: int| 0 <= j < self.secrets@.len() && self.secrets@[j].0@ == k;
                    assert(r@[j]@ == k);
                }
            }
            lemma_len_of_keys(self);
        }
        r
    }
}

/// An error of the credential layer, carrying its message.
#[derive(Debug, Clone)]
pub struct CredentialsError {
    source: String,
}

impl View for CredentialsError {
    type V = Seq<char>;

    closed spec fn view(&self) -> Seq<char> {
        self.source@
    }
}

impl CredentialsError {
    pub fn new(source: String) -> (r: CredentialsError)
        ensures
            r@ == source@,
    {
        CredentialsError { source }
    }

    /// The message.
    pub fn message(&self) -> (r: &String)
        ensures
            r@ == self@,
    {
        &self.source
    }
}

proof fn lemma_len_of_keys(c: &Config)
    requires
        c.wf(),
    ensures
        c@.len() == c.secrets@.len(),
{
    c.lemma_view();
    let keys = c.secrets@.map_values(|e: (String, Secret)| e.0@);
    assert forall|k: Seq<char>| c@.dom().contains(k) <==> #[trigger] keys.to_set().contains(k) by {
        if c@.contains_key(k) {
            let j = choose|j: int| 0 <= j < c.secrets@.len() && c.secrets@[j].0@ == k;
            assert(keys[j] == k);
        }
        if keys.to_set().contains(k) {
            assert(keys.contains(k));
            let j = choose|j: int| 0 <= j < keys.len() && keys[j] == k;
            assert(c.secrets@[j].0@ == k);
        }
    }
    assert(c@.dom() =~= keys.to_set());
    assert forall|i: int, j: int| 0 <= i < keys.len() && 0 <= j < keys.len() && i != j implies keys[i]
        != keys[j] by {
        assert(c.secrets@[i].0@ != c.secrets@[j].0@);
    }
    assert(keys.no_duplicates());
    keys.unique_seq_to_set();
}

} // verus!
