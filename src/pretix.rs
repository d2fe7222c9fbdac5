//! The ticketing platform's data: organizers, events, exporters and the
//! records of an order-data export.
//!
//! Amounts are integer cents and tax rates hundredths of a percent; instants
//! are Unix seconds.

use vstd::prelude::*;
use vstd::string::*;

verus! {

/// One fee charged on an order.
#[derive(Debug)]
pub struct OrderDataExportOrderItemFee {
    /// Cents.
    pub value: i64,
}

/// One position of an order: a product and the price it sold for.
#[derive(Debug)]
pub struct OrderDataExportOrderedItem {
    /// Product identifier within the event.
    pub item: u32,
    /// Cents.
    pub price: i64,
}

/// One order of an order-data export.
#[derive(Debug)]
pub struct OrderDataExportOrderItem {
    pub fees: Vec<OrderDataExportOrderItemFee>,
    /// When the order was placed, in Unix seconds.
    pub datetime: i64,
    /// Total value of the order in cents, fees included.
    pub total: i64,
    pub ordered_items: Vec<OrderDataExportOrderedItem>,
}

/// A product that an event sells.
#[derive(Debug)]
pub struct ExportResponseSaleItem {
    pub id: u32,
    pub name: String,
    /// VAT rate in hundredths of a percent (`2100` is 21%).
    pub tax_rate: i64,
}

/// The payload of an order-data export: the orders and the event's catalog.
#[derive(Debug)]
pub struct OrderExport {
    pub orders: Vec<OrderDataExportOrderItem>,
    pub items: Vec<ExportResponseSaleItem>,
}


/// The base address of the ticketing platform.
#[derive(Debug)]
pub struct PretixClient {
    pretix_url: String,
}

impl PretixClient {
    pub closed spec fn base(&self) -> Seq<char> {
        self.pretix_url@
    }

    /// A client for the platform at `pretix_url`, given without a trailing slash.
    pub fn new(pretix_url: String) -> (r: Self)
        ensures
            r.base() == pretix_url@,
    {
        PretixClient { pretix_url }
    }

    /// The address of `path` on the platform.
    pub fn url(&self, path: &str) -> (r: String)
        ensures
            r@ == self.base() + path@,
    {
        let mut r = self.pretix_url.clone();
        r.append(path);
        r
    }
}

/// The short form of an organizer.
#[derive(Debug)]
pub struct OrganizerId(pub String);

impl OrganizerId {
    pub fn as_str(&self) -> (r: &str)
        ensures
            r@ == self.0@,
    {
        self.0.as_str()
    }
}

#[derive(Debug)]
pub struct Organizer {
    pub name: String,
    pub slug: OrganizerId,
}

/// The short form of an event, unique within its organizer.
#[derive(Debug)]
pub struct EventId(pub String);

impl EventId {
    pub fn as_str(&self) -> (r: &str)
        ensures
            r@ == self.0@,
    {
        self.0.as_str()
    }
}

#[derive(Debug)]
pub struct Event {
    /// The event's name per language code, such as `en`.
    pub name: Vec<(String, String)>,
    pub slug: EventId,
    /// Only live events are reported.
    pub live: bool,
    /// Unix seconds.
    pub date_from: Option<i64>,
    /// Unix seconds.
    pub date_to: Option<i64>,
}

/// The name of the first entry for the given language.
pub open spec fn name_in(names: Seq<(String, String)>, language: Seq<char>) -> Option<Seq<char>>
    decreases names.len(),
{
    if names.len() == 0 {
        None
    } else {
        match name_in(names.drop_last(), language) {
            Some(n) => Some(n),
            None => if names.last().0@ == language {
                Some(names.last().1@)
            } else {
                None
            },
        }
    }
}

proof fn lemma_name_in_prefix(names: Seq<(String, String)>, language: Seq<char>, k: int)
    requires
        0 <= k <= names.len(),
        name_in(names.take(k), language) is Some,
    ensures
        name_in(names, language) == name_in(names.take(k), language),
    decreases names.len(),
{
    if k == names.len() {
        assert(names.take(k) =~= names);
    } else {
        assert(names.drop_last().take(k) =~= names.take(k));
        lemma_name_in_prefix(names.drop_last(), language, k);
    }
}

impl Event {
    /// The English name, or the short form when there is none.
    pub fn display_name(&self) -> (r: String)
        ensures
            r@ == (match name_in(self.name@, "en"@) {
                Some(n) => n,
                None => self.slug.0@,
            }),
    {
        let english = String::from_str("en");
        let names = &self.name;
        let mut i: usize = 0;
        while i < names.len()
            invariant
                i <= names.len(),
                names@ == self.name@,
                english@ == "en"@,
                name_in(names@.take(i as int), "en"@) is None,
            decreases names.len() - i,
        {
            let ghost prefix = names@.take(i as int + 1);
            assert(prefix.drop_last() =~= names@.take(i as int));
            assert(prefix.last() == names@[i as int]);
            if names[i].0 == english {
                proof {
                    assert(name_in(prefix, "en"@) == Some(names@[i as int].1@));
                    lemma_name_in_prefix(names@, "en"@, i as int + 1);
                }
                return names[i].1.clone();
            }
            i = i + 1;
        }
        assert(names@.take(i as int) =~= names@);
        self.slug.0.clone()
    }
}

/// The live events among the given ones, in the order given.
pub open spec fn live_only(events: Seq<Event>) -> Seq<Event>
    decreases events.len(),
{
    if events.len() == 0 {
        events
    } else if events.last().live {
        live_only(events.drop_last()).push(events.last())
    } else {
        live_only(events.drop_last())
    }
}

/// Keeps the events that are live; closed events are not reported.
pub fn live_events(events: Vec<Event>) -> (r: Vec<Event>)
    ensures
        r@ == live_only(events@),
{
    let ghost all = events@;
    let mut kept: Vec<Event> = Vec::new();
    for e in it: events.into_iter()
        invariant
            it.seq() == all,
            kept@ == live_only(all.take(it.index())),
    {
        let ghost i = it.index();
        let ghost prefix = all.take(i + 1);
        assert(prefix.drop_last() =~= all.take(i));
        if e.live {
            kept.push(e);
        }
    }
    assert(all.take(all.len() as int) =~= all);
    kept
}

/// An exporter that an event offers.
#[derive(Debug)]
pub struct DataExporter {
    pub identifier: String,
    pub verbose_name: String,
    pub input_parameters: Vec<DataExporterInput>,
}

/// A parameter of an exporter.
#[derive(Debug)]
pub struct DataExporterInput {
    pub name: String,
    pub required: bool,
    pub choices: Option<Vec<String>>,
}

/// `/api/v1/organizers`.
pub fn organizers_path() -> (r: String)
    ensures
        r@ == "/api/v1/organizers"@,
{
    String::from_str("/api/v1/organizers")
}

/// `/api/v1/organizers/<organizer>/events`.
pub fn events_path(organizer: &OrganizerId) -> (r: String)
    ensures
        r@ == "/api/v1/organizers/"@ + organizer.0@ + "/events"@,
{
    let mut r = String::from_str("/api/v1/organizers/");
    r.append(organizer.as_str());
    r.append("/events");
    r
}

/// `/api/v1/organizers/<organizer>/events/<event>/exporters`.
pub fn exporters_path(organizer: &OrganizerId, event: &EventId) -> (r: String)
    ensures
        r@ == "/api/v1/organizers/"@ + organizer.0@ + "/events/"@ + event.0@ + "/exporters"@,
{
    let mut r = String::from_str("/api/v1/organizers/");
    r.append(organizer.as_str());
    r.append("/events/");
    r.append(event.as_str());
    r.append("/exporters");
    r
}

/// `/api/v1/organizers/<organizer>/events/<event>/exporters/<exporter>/run/`,
/// which starts an export.
pub fn run_exporter_path(organizer: &OrganizerId, event: &EventId, exporter: &str) -> (r: String)
    ensures
        r@ == "/api/v1/organizers/"@ + organizer.0@ + "/events/"@ + event.0@ + "/exporters/"@
            + exporter@ + "/run/"@,
{
    let mut r = String::from_str("/api/v1/organizers/");
    r.append(organizer.as_str());
    r.append("/events/");
    r.append(event.as_str());
    r.append("/exporters/");
    r.append(exporter);
    r.append("/run/");
    r
}

/// The parameters of the PDF report over a window: dated by last payment,
/// from `date_from` until `date_until` (both `YYYY-MM-DD`).
pub fn pdf_report_parameters(date_from: &str, date_until: &str) -> (r: Vec<(String, String)>)
    ensures
        r@.len() == 3,
        r@[0].0@ == "date_axis"@ && r@[0].1@ == "last_payment_date"@,
        r@[1].0@ == "date_from"@ && r@[1].1@ == date_from@,
        r@[2].0@ == "date_until"@ && r@[2].1@ == date_until@,
{
    let mut r: Vec<(String, String)> = Vec::new();
    r.push((String::from_str("date_axis"), String::from_str("last_payment_date")));
    r.push((String::from_str("date_from"), String::from_str(date_from)));
    r.push((String::from_str("date_until"), String::from_str(date_until)));
    r
}

/// One page of a paginated list, and the address of the next page if any.
#[derive(Debug)]
pub struct ListPage<T> {
    pub next: Option<String>,
    pub results: Vec<T>,
}

/// Takes in one page: its results are appended in order, and the address of
/// the page to fetch next, if any, is returned.
pub fn collect_page<T>(data: &mut Vec<T>, page: ListPage<T>) -> (r: Option<String>)
    ensures
        final(data)@ == old(data)@ + page.results@,
        r == page.next,
{
    let ListPage { next, results } = page;
    let mut results = results;
    data.append(&mut results);
    next
}

/// The address at which a user authorizes this program on the platform at
/// `pretix_uri`.
pub fn login_url(client_id: &str, redirect_uri: &str, pretix_uri: &str) -> (r: String)
    ensures
        r@ == pretix_uri@ + "/api/v1/oauth/authorize?client_id="@ + client_id@
            + "&response_type=code&scope=read+write&redirect_uri="@ + redirect_uri@,
{
    let mut r = String::from_str(pretix_uri);
    r.append("/api/v1/oauth/authorize?client_id=");
    r.append(client_id);
    r.append("&response_type=code&scope=read+write&redirect_uri=");
    r.append(redirect_uri);
    r
}

/// Tokens granted by the authorization server.
#[derive(Debug)]
pub struct OAuthTokenPair {
    pub access_token: String,
    pub refresh_token: String,
}

} // verus!
