use knaaktomatisering::config::{
    access_token, Config, Credentials, Exact, ExactGLAccountCode, ExactGlAccounts, ExactJournals,
    OAuth2Config, OAuthTokenPair, Pretix, PretixEventConfig, PretixEventId, Service, WebServer,
};
use knaaktomatisering::exact::{
    self, cost_center_by_code_path, current_division_path, gl_account_by_code_path,
    sales_entry_by_number_path, sales_entry_lines_path, ExactClient, ExactData, ExactPayload,
    ExactResult,
};
use knaaktomatisering::filter::Guid;
use knaaktomatisering::pretix::{
    self, collect_page, events_path, live_events, pdf_report_parameters, exporters_path, organizers_path, run_exporter_path, Event,
    EventId, ListPage, OrganizerId, PretixClient,
};
use knaaktomatisering::text::{push_cents, push_decimal};

#[test]
fn exact_urls() {
    assert_eq!(ExactClient::url("/api/v1/current/Me"), "https://start.exactonline.nl/api/v1/current/Me");
    let mut client = ExactClient::new();
    assert!(client.divisioned_url("/salesentry/SalesEntries").is_err());
    client.set_division(55861);
    assert_eq!(
        client.divisioned_url("/salesentry/SalesEntries").unwrap(),
        "https://start.exactonline.nl/api/v1/55861/salesentry/SalesEntries"
    );
    client.set_division(-7);
    assert_eq!(client.divisioned_url("/x").unwrap(), "https://start.exactonline.nl/api/v1/-7/x");
}

#[test]
fn exact_paths() {
    assert_eq!(current_division_path(), "/api/v1/current/Me?$select=AccountingDivision");
    assert_eq!(cost_center_by_code_path("TRX"), "/hrm/Costcenters?$filter=Code+eq+'TRX'&$select=ID");
    assert_eq!(gl_account_by_code_path("8000"), "/financial/GLAccounts?$filter=Code+eq+'8000'&$select=ID");
    assert_eq!(
        sales_entry_by_number_path(1042),
        "/salesentry/SalesEntries?$filter=EntryNumber+eq+1042&$select=EntryID"
    );
    assert_eq!(
        sales_entry_lines_path(&Guid::new("0f-1a")),
        "/salesentry/SalesEntryLines?$select=ID,AmountFC,VATCode,VATPercentage,CostCenter,Description&$filter=EntryID+eq+guid'0f-1a'"
    );
}

#[test]
fn exact_login_url() {
    assert_eq!(
        exact::login_url("cid", "https://k.local/callback"),
        "https://start.exactonline.nl/api/oauth2/auth?client_id=cid&redirect_uri=https://k.local/callback&response_type=code&force_login=0"
    );
}

#[test]
fn exact_payload_values() {
    let payload = ExactPayload {
        d: ExactData { results: vec![ExactResult { value: 3 }, ExactResult { value: 4 }] },
    };
    assert_eq!(payload.values(), vec![3, 4]);
    let payload = ExactPayload {
        d: ExactData { results: vec![ExactResult { value: "a" }, ExactResult { value: "b" }] },
    };
    assert_eq!(payload.value(), "a");
}

#[test]
fn decimal_notation() {
    let cases = [(0, "0"), (7, "7"), (10, "10"), (1042, "1042"), (-5, "-5"), (i32::MIN, "-2147483648"), (i32::MAX, "2147483647")];
    for (n, expected) in cases {
        let mut s = String::from("n=");
        push_decimal(&mut s, n);
        assert_eq!(s, format!("n={}", expected));
    }
}

#[test]
fn pretix_urls_and_paths() {
    let client = PretixClient::new("https://pretix.example".to_string());
    assert_eq!(client.url("/api/v1/organizers"), "https://pretix.example/api/v1/organizers");
    let org = OrganizerId("sticky".to_string());
    let ev = EventId("intro-2024".to_string());
    assert_eq!(organizers_path(), "/api/v1/organizers");
    assert_eq!(events_path(&org), "/api/v1/organizers/sticky/events");
    assert_eq!(exporters_path(&org, &ev), "/api/v1/organizers/sticky/events/intro-2024/exporters");
    assert_eq!(
        run_exporter_path(&org, &ev, "json"),
        "/api/v1/organizers/sticky/events/intro-2024/exporters/json/run/"
    );
    assert_eq!(
        pretix::login_url("cid", "https://k.local/callback", "https://pretix.example"),
        "https://pretix.example/api/v1/oauth/authorize?client_id=cid&response_type=code&scope=read+write&redirect_uri=https://k.local/callback"
    );
}

#[test]
fn event_display_name() {
    let mut event = Event {
        name: vec![("nl".to_string(), "Feest".to_string()), ("en".to_string(), "Party".to_string())],
        slug: EventId("party-2024".to_string()),
        live: true,
        date_from: None,
        date_to: None,
    };
    assert_eq!(event.display_name(), "Party");
    event.name.remove(1);
    assert_eq!(event.display_name(), "party-2024");
}

#[test]
fn pages_are_collected_in_order() {
    let mut data = vec![1, 2];
    let next = collect_page(&mut data, ListPage { next: Some("https://p/2".to_string()), results: vec![3] });
    assert_eq!(next.as_deref(), Some("https://p/2"));
    let next = collect_page(&mut data, ListPage { next: None, results: vec![4, 5] });
    assert_eq!(next, None);
    assert_eq!(data, vec![1, 2, 3, 4, 5]);
}

fn oauth() -> OAuth2Config {
    OAuth2Config { client_id: "c".to_string(), client_secret: "s".to_string(), redirect_uri: "r".to_string() }
}

fn sample_config(credentials: Option<Credentials>) -> Config {
    Config {
        log: "info".to_string(),
        web_server: WebServer { ssl_cert: "cert.pem".to_string(), ssl_key: "key.pem".to_string() },
        pretix: Pretix {
            oauth: oauth(),
            url: "https://pretix.example".to_string(),
            event_specific: vec![
                (
                    PretixEventId("a".to_string()),
                    PretixEventConfig {
                        split_per_product: false,
                        cost_centers_per_product: vec![],
                        ignore_products: vec![],
                        gl_account: ExactGLAccountCode("8001".to_string()),
                        vat_code: None,
                    },
                ),
                (
                    PretixEventId("b".to_string()),
                    PretixEventConfig {
                        split_per_product: true,
                        cost_centers_per_product: vec![],
                        ignore_products: vec![],
                        gl_account: ExactGLAccountCode("8002".to_string()),
                        vat_code: None,
                    },
                ),
            ],
        },
        exact: Exact {
            oauth: oauth(),
            gl_accounts: ExactGlAccounts {
                unassigned_payments: ExactGLAccountCode("1302".to_string()),
                bookkeeping: ExactGLAccountCode("5007".to_string()),
                pretix_events: vec![],
            },
            journals: ExactJournals { sales: "0302".to_string() },
            vat_codes: vec![],
        },
        credentials,
    }
}

#[test]
fn access_tokens_per_service() {
    let none = sample_config(None);
    assert_eq!(access_token(&none, Service::Pretix), None);
    let some = sample_config(Some(Credentials {
        pretix: Some(OAuthTokenPair { access_token: "p-token".to_string(), refresh_token: "p-r".to_string() }),
        exact: None,
    }));
    assert_eq!(access_token(&some, Service::Pretix).as_deref(), Some("p-token"));
    assert_eq!(access_token(&some, Service::Exact), None);
}

#[test]
fn event_configuration_lookup() {
    let config = sample_config(None);
    let b = config.event_config(&PretixEventId("b".to_string())).unwrap();
    assert_eq!(b.gl_account.as_str(), "8002");
    assert!(b.split_per_product);
    assert!(config.event_config(&PretixEventId("c".to_string())).is_none());
}

#[test]
fn cents_notation() {
    let cases = [(0, "0.00"), (5, "0.05"), (120, "1.20"), (123456, "1234.56"), (-5, "-0.05"), (-1999, "-19.99"), (i64::MIN, "-92233720368547758.08")];
    for (amount, expected) in cases {
        let mut s = String::from("EUR ");
        push_cents(&mut s, amount);
        assert_eq!(s, format!("EUR {}", expected));
    }
}

#[test]
fn storing_tokens_keeps_the_other_service() {
    let mut config = sample_config(None);
    config.set_tokens(Service::Exact, OAuthTokenPair { access_token: "e1".to_string(), refresh_token: "r1".to_string() });
    assert_eq!(access_token(&config, Service::Exact).as_deref(), Some("e1"));
    assert_eq!(access_token(&config, Service::Pretix), None);
    config.set_tokens(Service::Pretix, OAuthTokenPair { access_token: "p1".to_string(), refresh_token: "r2".to_string() });
    config.set_tokens(Service::Exact, OAuthTokenPair { access_token: "e2".to_string(), refresh_token: "r3".to_string() });
    assert_eq!(access_token(&config, Service::Exact).as_deref(), Some("e2"));
    assert_eq!(access_token(&config, Service::Pretix).as_deref(), Some("p1"));
}

#[test]
fn only_live_events_are_kept() {
    let event = |slug: &str, live: bool| Event {
        name: vec![],
        slug: EventId(slug.to_string()),
        live,
        date_from: None,
        date_to: None,
    };
    let kept = live_events(vec![event("a", true), event("b", false), event("c", true)]);
    let slugs: Vec<&str> = kept.iter().map(|e| e.slug.as_str()).collect();
    assert_eq!(slugs, vec!["a", "c"]);
}

#[test]
fn pdf_report_parameters_cover_the_window() {
    let params = pdf_report_parameters("2024-10-07", "2024-10-13");
    assert_eq!(
        params,
        vec![
            ("date_axis".to_string(), "last_payment_date".to_string()),
            ("date_from".to_string(), "2024-10-07".to_string()),
            ("date_until".to_string(), "2024-10-13".to_string()),
        ]
    );
}
