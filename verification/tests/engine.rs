use cloudflare_ddns::engine::{
    find_record, tasks_of_config, CycleReport, Engine, Outcome, ProviderCall, ReconcileTask,
};
use cloudflare_ddns::errors::DdnsError;
use cloudflare_ddns::ip::Ipv4;
use cloudflare_ddns::models::{ApiDnsRecord, ApiResponse, Config, Domain, Zone};

fn home_task() -> ReconcileTask {
    ReconcileTask {
        zone_id: "zone123".to_string(),
        name: "home.example.com".to_string(),
        record: "home".to_string(),
    }
}

fn record(id: &str, name: &str, content: &str) -> ApiDnsRecord {
    ApiDnsRecord {
        id: id.to_string(),
        name: name.to_string(),
        content: content.to_string(),
        record_type: "A".to_string(),
        proxied: true,
        ttl: 120,
    }
}

fn ok_envelope(rec: ApiDnsRecord) -> ApiResponse<ApiDnsRecord> {
    ApiResponse { result: rec, success: true, errors: Vec::new() }
}

fn ok_listing(records: Vec<ApiDnsRecord>) -> ApiResponse<Vec<ApiDnsRecord>> {
    ApiResponse { result: records, success: true, errors: Vec::new() }
}

fn run_to_report(mut engine: Engine) -> CycleReport {
    assert!(engine.is_done());
    engine.into_report()
}

#[test]
fn unchanged_content_is_skipped_without_update() {
    // One managed domain whose provider record already holds the resolved
    // address: no update call may be offered.
    let ip = Ipv4 { a: 1, b: 2, c: 3, d: 4 };
    let mut engine = Engine::begin(vec![home_task()], 300, Ok(ip));
    match engine.next_call() {
        Some(ProviderCall::FetchRecords { zone_id }) => assert_eq!(zone_id, "zone123"),
        other => panic!("expected a fetch, got {:?}", other),
    }
    engine.on_fetch(Ok(ok_listing(vec![record("record123", "home.example.com", "1.2.3.4")])));
    assert!(engine.next_call().is_none());
    let report = run_to_report(engine);
    assert_eq!(report.resolved_ip, Some(ip));
    assert_eq!(report.cycle_error, None);
    assert_eq!(report.reports.len(), 1);
    assert_eq!(report.reports[0].name, "home.example.com");
    assert_eq!(report.reports[0].outcome, Outcome::SkippedUnchanged);
}

#[test]
fn changed_content_updates_once_with_new_ip_and_ttl() {
    // Same domain, resolved address differs: exactly one update call with
    // the resolved address and configured TTL, preserving type and proxy.
    let ip = Ipv4 { a: 5, b: 6, c: 7, d: 8 };
    let mut engine = Engine::begin(vec![home_task()], 300, Ok(ip));
    engine.next_call().expect("fetch expected");
    engine.on_fetch(Ok(ok_listing(vec![record("record123", "home.example.com", "1.2.3.4")])));
    match engine.next_call() {
        Some(ProviderCall::UpdateRecord { zone_id, update }) => {
            assert_eq!(zone_id, "zone123");
            assert_eq!(update.id, "record123");
            assert_eq!(update.name, "home");
            assert_eq!(update.content, "5.6.7.8");
            assert_eq!(update.ttl, 300);
            assert!(update.proxied);
            assert_eq!(update.record_type, "A");
        },
        other => panic!("expected an update, got {:?}", other),
    }
    engine.on_update(Ok(ok_envelope(record("record123", "home.example.com", "5.6.7.8"))));
    assert!(engine.next_call().is_none());
    let report = run_to_report(engine);
    assert_eq!(report.reports.len(), 1);
    assert_eq!(report.reports[0].outcome, Outcome::Updated);
}

#[test]
fn envelope_failure_marks_failed_but_other_domains_proceed() {
    // The provider answers the update transport-successfully but reports
    // success: false in the envelope; the domain fails, the next one runs.
    let ip = Ipv4 { a: 5, b: 6, c: 7, d: 8 };
    let second = ReconcileTask {
        zone_id: "zone123".to_string(),
        name: "other.example.com".to_string(),
        record: "other".to_string(),
    };
    let mut engine = Engine::begin(vec![home_task(), second], 300, Ok(ip));
    engine.on_fetch(Ok(ok_listing(vec![record("record123", "home.example.com", "1.2.3.4")])));
    engine.on_update(Ok(ApiResponse {
        result: record("record123", "home.example.com", "1.2.3.4"),
        success: false,
        errors: vec!["quota exceeded".to_string()],
    }));
    assert!(!engine.is_done());
    match engine.next_call() {
        Some(ProviderCall::FetchRecords { zone_id }) => assert_eq!(zone_id, "zone123"),
        other => panic!("expected a fetch for the second domain, got {:?}", other),
    }
    engine.on_fetch(Ok(ok_listing(vec![record("r2", "other.example.com", "5.6.7.8")])));
    let report = run_to_report(engine);
    assert_eq!(report.reports.len(), 2);
    assert_eq!(report.reports[0].outcome, Outcome::Failed(DdnsError::Api));
    assert_eq!(report.reports[1].outcome, Outcome::SkippedUnchanged);
    assert_eq!(report.cycle_error, None);
}

#[test]
fn missing_record_fails_with_not_found_and_others_run() {
    // The listing holds no record under the requested name: NotFound, no
    // update attempted, and the remaining domain is unaffected.
    let ip = Ipv4 { a: 1, b: 2, c: 3, d: 4 };
    let second = ReconcileTask {
        zone_id: "zone123".to_string(),
        name: "other.example.com".to_string(),
        record: "other".to_string(),
    };
    let mut engine = Engine::begin(vec![home_task(), second], 300, Ok(ip));
    engine.on_fetch(Ok(ok_listing(vec![record("rx", "unrelated.example.com", "9.9.9.9")])));
    assert!(!engine.is_done());
    match engine.next_call() {
        Some(ProviderCall::FetchRecords { .. }) => {},
        other => panic!("expected a fetch for the second domain, got {:?}", other),
    }
    engine.on_fetch(Ok(ok_listing(vec![record("r2", "other.example.com", "1.2.3.4")])));
    let report = run_to_report(engine);
    assert_eq!(report.reports[0].outcome, Outcome::Failed(DdnsError::NotFound));
    assert_eq!(report.reports[1].outcome, Outcome::SkippedUnchanged);
}

#[test]
fn failed_resolution_makes_no_provider_calls() {
    // Address resolution failed: the cycle is complete at once and offers
    // no provider call for any configured domain.
    let engine = Engine::begin(vec![home_task()], 300, Err(DdnsError::Network));
    assert!(engine.is_done());
    assert!(engine.next_call().is_none());
    let report = run_to_report(engine);
    assert_eq!(report.resolved_ip, None);
    assert_eq!(report.cycle_error, Some(DdnsError::Network));
    assert!(report.reports.is_empty());
}

#[test]
fn fetch_envelope_failure_is_contained() {
    // The listing request itself can report success: false in its envelope.
    let ip = Ipv4 { a: 1, b: 2, c: 3, d: 4 };
    let mut engine = Engine::begin(vec![home_task()], 300, Ok(ip));
    engine.on_fetch(Ok(ApiResponse {
        result: vec![record("record123", "home.example.com", "1.2.3.4")],
        success: false,
        errors: vec!["invalid token".to_string()],
    }));
    let report = run_to_report(engine);
    assert_eq!(report.reports[0].outcome, Outcome::Failed(DdnsError::Api));
}

#[test]
fn transport_failure_on_fetch_is_contained() {
    let ip = Ipv4 { a: 1, b: 2, c: 3, d: 4 };
    let mut engine = Engine::begin(vec![home_task()], 300, Ok(ip));
    engine.on_fetch(Err(DdnsError::Network));
    let report = run_to_report(engine);
    assert_eq!(report.reports[0].outcome, Outcome::Failed(DdnsError::Network));
}

#[test]
fn transport_failure_on_update_is_contained() {
    let ip = Ipv4 { a: 5, b: 6, c: 7, d: 8 };
    let mut engine = Engine::begin(vec![home_task()], 300, Ok(ip));
    engine.on_fetch(Ok(ok_listing(vec![record("record123", "home.example.com", "1.2.3.4")])));
    engine.on_update(Err(DdnsError::Parse));
    let report = run_to_report(engine);
    assert_eq!(report.reports[0].outcome, Outcome::Failed(DdnsError::Parse));
}

#[test]
fn find_record_picks_first_match() {
    let records = vec![
        record("r1", "a.example.com", "1.1.1.1"),
        record("r2", "b.example.com", "2.2.2.2"),
        record("r3", "b.example.com", "3.3.3.3"),
    ];
    assert_eq!(find_record(&records, &"b.example.com".to_string()), Some(1));
    assert_eq!(find_record(&records, &"c.example.com".to_string()), None);
}

#[test]
fn tasks_flatten_in_configuration_order() {
    let config = Config {
        api_token: "test_token".to_string(),
        update_interval: 5,
        record_ttl: 300,
        zones: vec![
            Zone {
                id: "z1".to_string(),
                domains: vec![
                    Domain {
                        name: "a.example.com".to_string(),
                        records: vec!["a".to_string(), "a2".to_string()],
                    },
                    Domain { name: "b.example.com".to_string(), records: vec!["b".to_string()] },
                ],
            },
            Zone {
                id: "z2".to_string(),
                domains: vec![Domain {
                    name: "c.example.com".to_string(),
                    records: vec!["c".to_string()],
                }],
            },
        ],
    };
    let tasks = tasks_of_config(&config);
    let got: Vec<(String, String, String)> =
        tasks.into_iter().map(|t| (t.zone_id, t.name, t.record)).collect();
    assert_eq!(
        got,
        vec![
            ("z1".to_string(), "a.example.com".to_string(), "a".to_string()),
            ("z1".to_string(), "a.example.com".to_string(), "a2".to_string()),
            ("z1".to_string(), "b.example.com".to_string(), "b".to_string()),
            ("z2".to_string(), "c.example.com".to_string(), "c".to_string()),
        ]
    );
}

#[test]
fn cycle_success_accounting() {
    let ip = Ipv4 { a: 1, b: 2, c: 3, d: 4 };
    let mut engine = Engine::begin(vec![home_task()], 300, Ok(ip));
    engine.on_fetch(Ok(ok_listing(vec![record("record123", "home.example.com", "1.2.3.4")])));
    let report = run_to_report(engine);
    assert!(report.fully_successful());

    let mut engine = Engine::begin(vec![home_task()], 300, Ok(ip));
    engine.on_fetch(Err(DdnsError::Network));
    let report = run_to_report(engine);
    assert!(!report.fully_successful());

    let engine = Engine::begin(vec![home_task()], 300, Err(DdnsError::Network));
    let report = run_to_report(engine);
    assert!(!report.fully_successful());
}
