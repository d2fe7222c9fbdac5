//! The program's configuration as plain data, and lookups into it.
//!
//! Maps of the configuration file are held as lists of pairs in file order, so
//! that "first match" follows the order in which entries were written.

use vstd::prelude::*;

verus! {

/// A regular-expression pattern.
#[derive(Debug)]
pub struct RegexPattern(pub String);

/// Code of a general-ledger account, e.g. `1302`.
#[derive(Debug)]
pub struct ExactGLAccountCode(pub String);

/// Code of a cost center, e.g. `TRX`.
#[derive(Debug)]
pub struct ExactCostCenterCode(pub String);

/// The short form of a ticketing event, e.g. `intro-2024-2025`.
#[derive(Debug)]
pub struct PretixEventId(pub String);

impl RegexPattern {
    pub fn as_str(&self) -> (r: &str)
        ensures
            r@ == self.0@,
    {
        self.0.as_str()
    }
}

impl ExactGLAccountCode {
    pub fn as_str(&self) -> (r: &str)
        ensures
            r@ == self.0@,
    {
        self.0.as_str()
    }
}

impl ExactCostCenterCode {
    pub fn as_str(&self) -> (r: &str)
        ensures
            r@ == self.0@,
    {
        self.0.as_str()
    }
}

impl PretixEventId {
    pub fn as_str(&self) -> (r: &str)
        ensures
            r@ == self.0@,
    {
        self.0.as_str()
    }
}

#[derive(Debug)]
pub struct Config {
    /// Logging directive.
    pub log: String,
    /// The local callback server used during authorization.
    pub web_server: WebServer,
    pub pretix: Pretix,
    pub exact: Exact,
    /// Tokens obtained by authorizing; not edited by hand.
    pub credentials: Option<Credentials>,
}

#[derive(Debug)]
pub struct Credentials {
    pub pretix: Option<OAuthTokenPair>,
    pub exact: Option<OAuthTokenPair>,
}

#[derive(Debug)]
pub struct OAuthTokenPair {
    pub access_token: String,
    pub refresh_token: String,
}

#[derive(Debug)]
pub struct OAuth2Config {
    pub client_id: String,
    pub client_secret: String,
    pub redirect_uri: String,
}

#[derive(Debug)]
pub struct Pretix {
    pub oauth: OAuth2Config,
    /// Base address of the ticketing platform, without a trailing slash.
    pub url: String,
    /// Configuration per event.
    pub event_specific: Vec<(PretixEventId, PretixEventConfig)>,
}

#[derive(Debug)]
pub struct PretixEventConfig {
    /// Book each product on a line of its own rather than one line per event.
    pub split_per_product: bool,
    /// Cost center per product: the first pattern that matches a product name
    /// gives its cost center code.
    pub cost_centers_per_product: Vec<(RegexPattern, ExactCostCenterCode)>,
    /// Products whose names match any of these patterns are not booked.
    pub ignore_products: Vec<RegexPattern>,
    /// General-ledger account of the event's sales.
    pub gl_account: ExactGLAccountCode,
    /// VAT code of the event's sales when they are booked on one line.
    pub vat_code: Option<String>,
}

/// A VAT code of the bookkeeping system and the rate it stands for.
#[derive(Debug)]
pub struct VatCode {
    pub code: String,
    /// Hundredths of a percent (`2100` is 21%).
    pub percentage: i64,
}

#[derive(Debug)]
pub struct Exact {
    pub oauth: OAuth2Config,
    pub gl_accounts: ExactGlAccounts,
    pub journals: ExactJournals,
    pub vat_codes: Vec<VatCode>,
}

#[derive(Debug)]
pub struct ExactJournals {
    /// The sales journal, e.g. `0302`.
    pub sales: String,
}

#[derive(Debug)]
pub struct ExactGlAccounts {
    /// Account of unassigned payments, e.g. `1302`.
    pub unassigned_payments: ExactGLAccountCode,
    /// Account of bookkeeping costs, e.g. `5007`.
    pub bookkeeping: ExactGLAccountCode,
    /// Account per ticketing event.
    pub pretix_events: Vec<(PretixEventId, ExactGLAccountCode)>,
}

#[derive(Debug)]
pub struct WebServer {
    /// Path of the TLS certificate.
    pub ssl_cert: String,
    /// Path of the TLS private key.
    pub ssl_key: String,
}

/// A service whose credentials the configuration holds.
#[derive(Debug)]
pub enum Service {
    Pretix,
    Exact,
}

/// The token pair stored for a service, if any.
pub open spec fn stored_tokens(config: Config, service: Service) -> Option<OAuthTokenPair> {
    match config.credentials {
        None => None,
        Some(c) => match service {
            Service::Pretix => c.pretix,
            Service::Exact => c.exact,
        },
    }
}

/// Index of the first event entry with the given identifier.
pub open spec fn event_entry(entries: Seq<(PretixEventId, PretixEventConfig)>, event: Seq<char>) -> Option<
    int,
>
    decreases entries.len(),
{
    if entries.len() == 0 {
        None
    } else {
        match event_entry(entries.drop_last(), event) {
            Some(i) => Some(i),
            None => if entries.last().0.0@ == event {
                Some(entries.len() - 1)
            } else {
                None
            },
        }
    }
}

proof fn lemma_event_entry_prefix(entries: Seq<(PretixEventId, PretixEventConfig)>, event: Seq<char>, k: int)
    requires
        0 <= k <= entries.len(),
        event_entry(entries.take(k), event) is Some,
    ensures
        event_entry(entries, event) == event_entry(entries.take(k), event),
    decreases entries.len(),
{
    if k == entries.len() {
        assert(entries.take(k) =~= entries);
    } else {
        assert(entries.drop_last().take(k) =~= entries.take(k));
        lemma_event_entry_prefix(entries.drop_last(), event, k);
    }
}

/// The access token stored for a service.
pub fn access_token(config: &Config, service: Service) -> (r: Option<String>)
    ensures
        r is Some <==> stored_tokens(*config, service) is Some,
        r matches Some(t) ==> t@ == stored_tokens(*config, service)->0.access_token@,
{
    match &config.credentials {
        None => None,
        Some(c) => {
            let pair = match service {
                Service::Pretix => &c.pretix,
                Service::Exact => &c.exact,
            };
            match pair {
                Some(p) => Some(p.access_token.clone()),
                None => None,
            }
        },
    }
}

impl Config {
    /// The configuration of an event, if the file has one.
    pub fn event_config(&self, event: &PretixEventId) -> (r: Option<&PretixEventConfig>)
        ensures
            r is Some <==> event_entry(self.pretix.event_specific@, event.0@) is Some,
            r matches Some(c) ==> *c == self.pretix.event_specific@[event_entry(
                self.pretix.event_specific@,
                event.0@,
            )->0].1,
    {
        let entries = &self.pretix.event_specific;
        let mut i: usize = 0;
        while i < entries.len()
            invariant
                i <= entries.len(),
                entries@ == self.pretix.event_specific@,
                event_entry(entries@.take(i as int), event.0@) is None,
            decreases entries.len() - i,
        {
            let ghost prefix = entries@.take(i as int + 1);
            assert(prefix.drop_last() =~= entries@.take(i as int));
            assert(prefix.last() == entries@[i as int]);
            if entries[i].0.0 == event.0 {
                proof {
                    assert(event_entry(prefix, event.0@) == Some(i as int));
                    lemma_event_entry_prefix(entries@, event.0@, i as int + 1);
                }
                return Some(&entries[i].1);
            }
            i = i + 1;
        }
        assert(entries@.take(i as int) =~= entries@);
        None
    }
}


impl Config {
    /// Stores a newly granted token pair for a service, keeping the other
    /// service's tokens.
    pub fn set_tokens(&mut self, service: Service, pair: OAuthTokenPair)
        ensures
            stored_tokens(*final(self), service) == Some(pair),
            forall|other: Service|
                other != service ==> #[trigger] stored_tokens(*final(self), other) == stored_tokens(
                    *old(self),
                    other,
                ),
            final(self).log == old(self).log,
            final(self).web_server == old(self).web_server,
            final(self).pretix == old(self).pretix,
            final(self).exact == old(self).exact,
    {
        let credentials = match self.credentials.take() {
            Some(c) => c,
            None => Credentials { pretix: None, exact: None },
        };
        let Credentials { pretix, exact } = credentials;
        let updated = match service {
            Service::Pretix => Credentials { pretix: Some(pair), exact },
            Service::Exact => Credentials { pretix, exact: Some(pair) },
        };
        self.credentials = Some(updated);
    }
}

} // verus!
