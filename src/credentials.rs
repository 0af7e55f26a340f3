//! Secrets per provider, and which stored secret a provider uses.
use vstd::prelude::*;
use crate::provider::Provider;

verus! {

/// A secret for one provider.
#[derive(Clone, Debug)]
pub struct Key {
    pub provider: Provider,
    pub key: String,
}

impl Key {
    /// A copy of this key.
    pub fn duplicate(&self) -> (r: Key)
        ensures
            r == *self,
    {
        Key { provider: self.provider.duplicate(), key: self.key.clone() }
    }
}

/// Whether a secret stored under `stored` serves requests to `query`.
///
/// Any `Other` provider uses the secret stored under any `Other` provider,
/// whatever the base URLs; a named vendor uses only its own.
pub open spec fn credential_matches(query: Provider, stored: Provider) -> bool {
    match query {
        Provider::Other(_) => stored is Other,
        _ => query == stored,
    }
}

/// Whether `query` uses a secret stored under `stored`.
pub fn matches_credential(query: &Provider, stored: &Provider) -> (r: bool)
    ensures
        r == credential_matches(*query, *stored),
{
    match query {
        Provider::Other(_) => matches!(stored, Provider::Other(_)),
        _ => {
            match stored {
                Provider::Other(_) => false,
                _ => query == stored,
            }
        },
    }
}

/// A custom provider uses the secret stored under any custom provider,
/// whatever the base URL that either carries, and never one stored under a
/// named vendor.
pub proof fn lemma_custom_credentials(domain: String, stored_domain: String, named: Provider)
    requires
        !(named is Other),
    ensures
        credential_matches(Provider::Other(domain), Provider::Other(stored_domain)),
        !credential_matches(Provider::Other(domain), named),
{
}

/// The secrets that were found, in the order of lookup.
#[derive(Clone, Debug)]
pub struct Keys {
    keys: Vec<Key>,
}

impl Keys {
    pub closed spec fn entries(&self) -> Seq<Key> {
        self.keys@
    }

    /// The secrets given, in this order.
    pub fn new(keys: Vec<Key>) -> (r: Keys)
        ensures
            r.entries() == keys@,
    {
        Keys { keys }
    }

    /// The secrets held, in order.
    pub fn keys(&self) -> (r: &Vec<Key>)
        ensures
            r@ == self.entries(),
    {
        &self.keys
    }

    /// The first secret that serves `provider`, if any does.
    pub fn for_provider(&self, provider: &Provider) -> (r: Option<Key>)
        ensures
            r is None <==> (forall|i: int|
                0 <= i < self.entries().len() ==> !credential_matches(*provider, #[trigger] self.entries()[i].provider)),
            r matches Some(k) ==> exists|i: int|
                0 <= i < self.entries().len() && k == self.entries()[i]
                    && credential_matches(*provider, #[trigger] self.entries()[i].provider)
                    && forall|j: int| 0 <= j < i ==> !credential_matches(*provider, #[trigger] self.entries()[j].provider),
    {
        let mut i: usize = 0;
        while i < self.keys.len()
            invariant
                i <= self.keys@.len(),
                forall|j: int| 0 <= j < i ==> !credential_matches(*provider, #[trigger] self.keys@[j].provider),
            decreases self.keys@.len() - i,
        {
            if matches_credential(provider, &self.keys[i].provider) {
                return Some(self.keys[i].duplicate());
            }
            i = i + 1;
        }
        None
    }
}

} // verus!
