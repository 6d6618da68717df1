//! The provider registry: the ordered list of available price sources
//! and resolution of a provider by its short id.
//!
//! The key-gated source is always listed; whether a key was supplied
//! decides between its authenticated and unauthenticated (fails at call
//! time) variants. An unknown id is never silently defaulted: callers
//! surface a configuration error naming `--list-providers`.

use vstd::prelude::*;

use crate::strutil::{upper_seq, eq_ignore_ascii};

verus! {

/// One entry of the provider registry: a descriptor of a price source
/// the application can construct a client for.
#[derive(Debug, Clone)]
pub struct ProviderEntry {
    /// Stable lowercase token used in CLI flags.
    pub id: String,
    /// Human-readable provider name.
    pub name: String,
    /// The source needs an API key to serve requests.
    pub requires_api_key: bool,
    /// The key it was given, if any.
    pub api_key: Option<String>,
}

/// Mathematical image of a [`ProviderEntry`].
pub struct ProviderEntryV {
    pub id: Seq<char>,
    pub name: Seq<char>,
    pub requires_api_key: bool,
    pub api_key: Option<Seq<char>>,
}

impl View for ProviderEntry {
    type V = ProviderEntryV;

    open spec fn view(&self) -> ProviderEntryV {
        ProviderEntryV {
            id: self.id@,
            name: self.name@,
            requires_api_key: self.requires_api_key,
            api_key: match self.api_key {
                Some(ref k) => Some(k@),
                None => None,
            },
        }
    }
}

/// The view of an optional key.
pub open spec fn key_view(k: Option<String>) -> Option<Seq<char>> {
    match k {
        Some(s) => Some(s@),
        None => None,
    }
}

/// Build the ordered list of available providers: the no-key sources
/// first, then the key-gated source, carrying the key it was given.
pub fn available_providers(api_key: Option<String>) -> (r: Vec<ProviderEntry>)
    ensures
        r@.len() == 4,
        r@[0]@ =~= (ProviderEntryV {
            id: "coingecko"@,
            name: "CoinGecko"@,
            requires_api_key: false,
            api_key: None,
        }),
        r@[1]@ =~= (ProviderEntryV {
            id: "stooq"@,
            name: "Stooq"@,
            requires_api_key: false,
            api_key: None,
        }),
        r@[2]@ =~= (ProviderEntryV {
            id: "yahoo"@,
            name: "Yahoo Finance"@,
            requires_api_key: false,
            api_key: None,
        }),
        r@[3]@ =~= (ProviderEntryV {
            id: "cmc"@,
            name: "CoinMarketCap"@,
            requires_api_key: true,
            api_key: key_view(api_key),
        }),
{
    let mut providers: Vec<ProviderEntry> = Vec::new();
    providers.push(
        ProviderEntry {
            id: "coingecko".to_owned(),
            name: "CoinGecko".to_owned(),
            requires_api_key: false,
            api_key: None,
        },
    );
    providers.push(
        ProviderEntry {
            id: "stooq".to_owned(),
            name: "Stooq".to_owned(),
            requires_api_key: false,
            api_key: None,
        },
    );
    providers.push(
        ProviderEntry {
            id: "yahoo".to_owned(),
            name: "Yahoo Finance".to_owned(),
            requires_api_key: false,
            api_key: None,
        },
    );
    providers.push(
        ProviderEntry {
            id: "cmc".to_owned(),
            name: "CoinMarketCap".to_owned(),
            requires_api_key: true,
            api_key,
        },
    );
    providers
}

/// The entry id at `j` matches `id` case-insensitively.
pub open spec fn id_matches(providers: Seq<ProviderEntry>, j: int, id: Seq<char>) -> bool {
    upper_seq(providers[j]@.id) == upper_seq(id)
}

/// Look a provider up by its short id: the first case-insensitive
/// exact match, `None` when no id matches (never a silent default).
pub fn get_provider(providers: &Vec<ProviderEntry>, id: &str) -> (r: Option<usize>)
    ensures
        match r {
            Some(i) => 0 <= i < providers@.len() && id_matches(providers@, i as int, id@)
                && forall|j: int| 0 <= j < i ==> !id_matches(providers@, j, id@),
            None => forall|j: int|
                0 <= j < providers@.len() ==> !id_matches(providers@, j, id@),
        },
{
    let n = providers.len();
    let mut i: usize = 0;
    while i < n
        invariant
            0 <= i <= n,
            n == providers@.len(),
            forall|j: int| 0 <= j < i ==> !id_matches(providers@, j, id@),
        decreases n - i,
    {
        if eq_ignore_ascii(providers[i].id.as_str(), id) {
            return Some(i);
        }
        i += 1;
    }
    None
}

} // verus!
