//! Addresses and payloads of the bookkeeping system's API.
//!
//! Most endpoints live under the tenant's accounting division,
//! `/api/v1/<division>/...`; the division is looked up once and then held by
//! the client.

use vstd::prelude::*;
use vstd::string::*;
use crate::filter::{condition, Filter, FilterOp, FilterValue, Guid};
use crate::text::{decimal, push_decimal};

verus! {

pub open spec fn host() -> Seq<char> {
    "https://start.exactonline.nl"@
}

/// `https://start.exactonline.nl<path>`.
pub open spec fn api_url(path: Seq<char>) -> Seq<char> {
    host() + path
}

/// `/api/v1/<division><path>`.
pub open spec fn divisioned_path(division: i32, path: Seq<char>) -> Seq<char> {
    "/api/v1/"@ + decimal(division as int) + path
}

/// No accounting division has been set on the client.
#[derive(Debug)]
pub struct NoDivisionError;

/// The division state of a bookkeeping client.
#[derive(Debug)]
pub struct ExactClient {
    accounting_division: Option<i32>,
}

impl ExactClient {
    pub closed spec fn division(&self) -> Option<i32> {
        self.accounting_division
    }

    /// A client whose division is not known yet.
    pub fn new() -> (r: Self)
        ensures
            r.division() is None,
    {
        ExactClient { accounting_division: None }
    }

    /// The address of an endpoint outside the division namespace, such as
    /// `/api/v1/current/Me`.
    pub fn url(s: &str) -> (r: String)
        ensures
            r@ == api_url(s@),
    {
        let mut r = String::from_str("https://start.exactonline.nl");
        r.append(s);
        r
    }

    /// The address of an endpoint within the division namespace: for
    /// `/salesentry/SalesEntries`, `/api/v1/<division>/salesentry/SalesEntries`.
    pub fn divisioned_url(&self, s: &str) -> (r: Result<String, NoDivisionError>)
        ensures
            r is Err <==> self.division() is None,
            r matches Ok(u) ==> u@ == api_url(divisioned_path(self.division()->0, s@)),
    {
        match self.accounting_division {
            None => Err(NoDivisionError),
            Some(div) => {
                let mut path = String::from_str("/api/v1/");
                push_decimal(&mut path, div);
                path.append(s);
                Ok(Self::url(path.as_str()))
            },
        }
    }

    /// Sets the accounting division used by [`Self::divisioned_url`].
    pub fn set_division(&mut self, accounting_division: i32)
        ensures
            final(self).division() == Some(accounting_division),
    {
        self.accounting_division = Some(accounting_division);
    }
}

/// The envelope of a query response, `{"d": {"results": [...]}}`.
#[derive(Debug)]
pub struct ExactPayload<T> {
    pub d: ExactData<T>,
}

#[derive(Debug)]
pub struct ExactData<T> {
    pub results: Vec<ExactResult<T>>,
}

#[derive(Debug)]
pub struct ExactResult<T> {
    pub value: T,
}

impl<T> ExactPayload<T> {
    /// The first result.
    pub fn value(self) -> (r: T)
        requires
            self.d.results@.len() > 0,
        ensures
            r == self.d.results@[0].value,
    {
        let mut results = self.d.results;
        let first = results.swap_remove(0);
        first.value
    }

    /// All results, in order.
    pub fn values(self) -> (r: Vec<T>)
        ensures
            r@ == self.d.results@.map_values(|x: ExactResult<T>| x.value),
    {
        let ghost all = self.d.results@;
        let mut values: Vec<T> = Vec::new();
        for x in it: self.d.results.into_iter()
            invariant
                it.seq() == all,
                values@ =~= all.take(it.index()).map_values(|x: ExactResult<T>| x.value),
        {
            values.push(x.value);
        }
        assert(all.take(all.len() as int) =~= all);
        values
    }
}

/// `/api/v1/current/Me?$select=AccountingDivision`, which names the user's
/// current division.
pub fn current_division_path() -> (r: String)
    ensures
        r@ == "/api/v1/current/Me?$select=AccountingDivision"@,
{
    String::from_str("/api/v1/current/Me?$select=AccountingDivision")
}

/// `/hrm/Costcenters?$filter=Code+eq+'<code>'&$select=ID`.
pub fn cost_center_by_code_path(code: &str) -> (r: String)
    ensures
        r@ == "/hrm/Costcenters?$filter="@ + condition("Code"@, FilterOp::Equals, code.serialized())
            + "&$select=ID"@,
{
    let filter = Filter::new("Code", code, FilterOp::Equals).finalize();
    proof {
        crate::filter::lemma_condition_finalizes_to_itself("Code"@, FilterOp::Equals, code);
    }
    let mut r = String::from_str("/hrm/Costcenters?$filter=");
    r.append(filter.as_str());
    r.append("&$select=ID");
    r
}

/// `/financial/GLAccounts?$filter=Code+eq+'<code>'&$select=ID`.
pub fn gl_account_by_code_path(code: &str) -> (r: String)
    ensures
        r@ == "/financial/GLAccounts?$filter="@ + condition(
            "Code"@,
            FilterOp::Equals,
            code.serialized(),
        ) + "&$select=ID"@,
{
    let filter = Filter::new("Code", code, FilterOp::Equals).finalize();
    proof {
        crate::filter::lemma_condition_finalizes_to_itself("Code"@, FilterOp::Equals, code);
    }
    let mut r = String::from_str("/financial/GLAccounts?$filter=");
    r.append(filter.as_str());
    r.append("&$select=ID");
    r
}

/// `/salesentry/SalesEntries?$filter=EntryNumber+eq+<number>&$select=EntryID`.
pub fn sales_entry_by_number_path(number: i32) -> (r: String)
    ensures
        r@ == "/salesentry/SalesEntries?$filter=EntryNumber+eq+"@ + decimal(number as int)
            + "&$select=EntryID"@,
{
    let mut r = String::from_str("/salesentry/SalesEntries?$filter=EntryNumber+eq+");
    push_decimal(&mut r, number);
    r.append("&$select=EntryID");
    r
}

/// The lines of a sales entry, selected by the entry's identifier.
pub fn sales_entry_lines_path(entry_id: &Guid) -> (r: String)
    ensures
        r@ == "/salesentry/SalesEntryLines?$select=ID,AmountFC,VATCode,VATPercentage,CostCenter,Description&$filter="@
            + condition("EntryID"@, FilterOp::Equals, entry_id.serialized()),
{
    let filter = Filter::new("EntryID", entry_id, FilterOp::Equals).finalize();
    proof {
        crate::filter::lemma_condition_finalizes_to_itself("EntryID"@, FilterOp::Equals, entry_id);
    }
    let mut r = String::from_str(
        "/salesentry/SalesEntryLines?$select=ID,AmountFC,VATCode,VATPercentage,CostCenter,Description&$filter=",
    );
    r.append(filter.as_str());
    r
}

/// The address at which a user authorizes this program.
pub fn login_url(client_id: &str, redirect_uri: &str) -> (r: String)
    ensures
        r@ == "https://start.exactonline.nl/api/oauth2/auth?client_id="@ + client_id@
            + "&redirect_uri="@ + redirect_uri@ + "&response_type=code&force_login=0"@,
{
    let mut r = String::from_str("https://start.exactonline.nl/api/oauth2/auth?client_id=");
    r.append(client_id);
    r.append("&redirect_uri=");
    r.append(redirect_uri);
    r.append("&response_type=code&force_login=0");
    r
}

/// Tokens granted by the authorization server.
#[derive(Debug)]
pub struct OAuthTokenPair {
    pub access_token: String,
    pub refresh_token: String,
}

} // verus!
