use uptimer::checkers::{dummy, reason, tcp, Checker as _, Probe, ProbeError};
use uptimer::config::{Check, Checker, Realm, Service};
use uptimer::dispatch::{DispatchError, Dispatcher, SetupError, Settings, DEFAULT_TIMEOUT_MS};
use uptimer::engine::{expand, Outcome};
use uptimer::report::{aggregate, Report};
use uptimer::run::Engine;

fn service(name: &str, checks: Vec<(&str, Checker)>, hosts: &[&str]) -> Service {
    Service {
        name: name.to_string(),
        description: None,
        tags: None,
        checks: checks
            .into_iter()
            .map(|(n, c)| Check { name: n.to_string(), checker: c })
            .collect(),
        hosts: hosts.iter().map(|h| h.to_string()).collect(),
    }
}

fn dummy_checker() -> Checker {
    Checker::Dummy(dummy::Checker {})
}

fn tcp_checker(port: u16) -> Checker {
    Checker::TCP(tcp::Checker { port })
}

/// Runs a whole pass sequentially, answering each probe with `answer`.
fn run(realm: &Realm, limit: usize, answer: impl Fn(&str, Probe) -> Result<(), ProbeError>) -> Report {
    let settings = Settings::new(limit, DEFAULT_TIMEOUT_MS).unwrap();
    let mut engine = Engine::new(realm, &settings);
    while let Some((i, probe)) = engine.start_next() {
        let host = engine.item(i).host.clone();
        engine.record(i, answer(&host, probe)).unwrap();
    }
    assert!(engine.is_done());
    engine.report(realm).unwrap()
}

fn failure_reason(o: &Outcome) -> Option<String> {
    match o {
        Outcome::Success => None,
        Outcome::Failure(r) => Some(r.clone()),
    }
}

#[test]
fn dummy_checks_always_pass() {
    let c = dummy::Checker {};
    assert_eq!(c.probe(), Probe::Nothing);
    assert_eq!(c.check("", Ok(())), Ok(()));
    assert_eq!(c.check("localhost", Ok(())), Ok(()));
    assert_eq!(c.check("example.invalid", Err(ProbeError::Refused)), Ok(()));
}

#[test]
fn tcp_check_reasons() {
    let c = tcp::Checker { port: 22 };
    assert_eq!(c.probe(), Probe::Connect(22));
    assert_eq!(c.check("localhost", Ok(())), Ok(()));
    assert_eq!(c.check("localhost", Err(ProbeError::Refused)), Err("connection refused".to_string()));
    assert_eq!(c.check("localhost", Err(ProbeError::TimedOut)), Err("timed out".to_string()));
    assert_eq!(
        c.check("nowhere.invalid", Err(ProbeError::Unresolved)),
        Err("address resolution failed".to_string())
    );
    assert_eq!(c.check("localhost", Err(ProbeError::Other)), Err("i/o error".to_string()));
}

#[test]
fn reasons_are_distinct() {
    let all = [ProbeError::Unresolved, ProbeError::Refused, ProbeError::TimedOut, ProbeError::Other];
    for a in all.iter() {
        for b in all.iter() {
            if a != b {
                assert_ne!(reason(*a), reason(*b));
            }
        }
    }
}

#[test]
fn config_checker_dispatches_to_variant() {
    assert_eq!(tcp_checker(443).probe(), Probe::Connect(443));
    assert_eq!(dummy_checker().probe(), Probe::Nothing);
    assert_eq!(tcp_checker(443).check("h", Err(ProbeError::Refused)), Err("connection refused".to_string()));
    assert_eq!(dummy_checker().check("h", Err(ProbeError::Refused)), Ok(()));
}

#[test]
fn expansion_order_and_count() {
    let realm = Realm {
        services: vec![
            service("s1", vec![("c1", dummy_checker()), ("c2", tcp_checker(22))], &["h1", "h2"]),
            service("s2", vec![], &["h3"]),
            service("s3", vec![("c3", dummy_checker())], &[]),
            service("s4", vec![("c4", tcp_checker(80))], &["h4", "h4", "h5"]),
        ],
    };
    let items = expand(&realm);
    let got: Vec<(String, String, String)> =
        items.iter().map(|w| (w.service.clone(), w.check.clone(), w.host.clone())).collect();
    let want: Vec<(String, String, String)> = [
        ("s1", "c1", "h1"),
        ("s1", "c1", "h2"),
        ("s1", "c2", "h1"),
        ("s1", "c2", "h2"),
        ("s4", "c4", "h4"),
        ("s4", "c4", "h4"),
        ("s4", "c4", "h5"),
    ]
    .iter()
    .map(|(a, b, c)| (a.to_string(), b.to_string(), c.to_string()))
    .collect();
    assert_eq!(got, want);
    assert_eq!(items[2].checker, tcp_checker(22));
    assert_eq!(items[4].checker, tcp_checker(80));
}

#[test]
fn outcome_count_matches_items() {
    let realm = Realm {
        services: vec![
            service("a", vec![("x", dummy_checker()), ("y", dummy_checker())], &["h"]),
            service("b", vec![("z", tcp_checker(1))], &["p", "q", "r"]),
        ],
    };
    let report = run(&realm, 3, |_, _| Ok(()));
    assert_eq!(report.summary.total, 5);
    let n: usize = report.services.iter().map(|s| s.checks.iter().map(|c| c.hosts.len()).sum::<usize>()).sum();
    assert_eq!(n, 5);
}

#[test]
fn closed_port_reports_connection_refused() {
    let realm = Realm { services: vec![service("web", vec![("reachability", tcp_checker(22))], &["localhost"])] };
    let report = run(&realm, 4, |_, p| {
        assert_eq!(p, Probe::Connect(22));
        Err(ProbeError::Refused)
    });
    assert_eq!(report.services.len(), 1);
    assert_eq!(report.services[0].name, "web");
    assert_eq!(report.services[0].checks[0].name, "reachability");
    let h = &report.services[0].checks[0].hosts[0];
    assert_eq!(h.host, "localhost");
    assert_eq!(failure_reason(&h.outcome), Some("connection refused".to_string()));
    assert_eq!((report.summary.total, report.summary.success, report.summary.failure), (1, 0, 1));
    assert_eq!(report.failures.len(), 1);
    assert_eq!(report.failures[0].service, "web");
    assert_eq!(report.failures[0].check, "reachability");
    assert_eq!(report.failures[0].host, "localhost");
    assert_eq!(report.failures[0].reason, "connection refused");
}

#[test]
fn dummy_realm_all_success() {
    let realm = Realm { services: vec![service("placeholder", vec![("noop", dummy_checker())], &["a", "b", "c"])] };
    let report = run(&realm, 2, |_, p| {
        assert_eq!(p, Probe::Nothing);
        Ok(())
    });
    let hosts = &report.services[0].checks[0].hosts;
    assert_eq!(hosts.len(), 3);
    for (h, name) in hosts.iter().zip(["a", "b", "c"]) {
        assert_eq!(h.host, name);
        assert!(matches!(h.outcome, Outcome::Success));
    }
    assert_eq!((report.summary.total, report.summary.success, report.summary.failure), (3, 3, 0));
    assert!(report.failures.is_empty());
}

#[test]
fn empty_realm_empty_report() {
    let realm = Realm { services: vec![] };
    let report = run(&realm, 1, |_, _| Ok(()));
    assert!(report.services.is_empty());
    assert!(report.failures.is_empty());
    assert_eq!((report.summary.total, report.summary.success, report.summary.failure), (0, 0, 0));
}

fn shape(r: &Report) -> Vec<(String, Vec<(String, Vec<String>)>)> {
    r.services
        .iter()
        .map(|s| {
            (
                s.name.clone(),
                s.checks.iter().map(|c| (c.name.clone(), c.hosts.iter().map(|h| h.host.clone()).collect())).collect(),
            )
        })
        .collect()
}

#[test]
fn two_passes_same_shape() {
    let realm = Realm {
        services: vec![
            service("db", vec![("port", tcp_checker(5432))], &["db1", "db2"]),
            service("db", vec![("noop", dummy_checker())], &["db3"]),
        ],
    };
    let r1 = run(&realm, 1, |_, _| Ok(()));
    let r2 = run(&realm, 8, |h, _| if h == "db1" { Err(ProbeError::TimedOut) } else { Ok(()) });
    assert_eq!(shape(&r1), shape(&r2));
    assert_eq!(r1.services.len(), 2);
    assert_eq!(r1.summary.failure, 0);
    assert_eq!(r2.summary.failure, 1);
    assert_eq!(r2.failures[0].reason, "timed out");
}

#[test]
fn failures_list_is_deterministic() {
    let realm = Realm {
        services: vec![
            service("s", vec![("c1", tcp_checker(1)), ("c2", tcp_checker(2))], &["h1", "h2"]),
        ],
    };
    let outs = || {
        vec![
            Outcome::Failure("x".to_string()),
            Outcome::Success,
            Outcome::Success,
            Outcome::Failure("y".to_string()),
        ]
    };
    let a = aggregate(&realm, &outs());
    let b = aggregate(&realm, &outs());
    let list = |r: &Report| {
        r.failures
            .iter()
            .map(|f| (f.service.clone(), f.check.clone(), f.host.clone(), f.reason.clone()))
            .collect::<Vec<_>>()
    };
    assert_eq!(list(&a), list(&b));
    assert_eq!(
        list(&a),
        vec![
            ("s".to_string(), "c1".to_string(), "h1".to_string(), "x".to_string()),
            ("s".to_string(), "c2".to_string(), "h2".to_string(), "y".to_string()),
        ]
    );
    assert_eq!((a.summary.total, a.summary.success, a.summary.failure), (4, 2, 2));
}

#[test]
fn duplicate_services_stay_distinct() {
    let realm = Realm {
        services: vec![
            service("svc", vec![("c", dummy_checker())], &["h"]),
            service("svc", vec![("c", dummy_checker())], &["h"]),
        ],
    };
    let report = run(&realm, 4, |_, _| Ok(()));
    assert_eq!(report.services.len(), 2);
    assert_eq!(report.summary.total, 2);
}

#[test]
fn limit_one_serializes_dispatch() {
    let settings = Settings::new(1, 100).unwrap();
    let mut d = Dispatcher::new(&settings, 3);
    assert_eq!(d.start_next(), Some(0));
    assert_eq!(d.start_next(), None);
    assert_eq!(d.in_flight(), 1);
    assert_eq!(d.complete(0, Outcome::Success), Ok(()));
    assert_eq!(d.start_next(), Some(1));
    assert_eq!(d.start_next(), None);
    assert_eq!(d.complete(1, Outcome::Success), Ok(()));
    assert_eq!(d.start_next(), Some(2));
    assert!(!d.is_done());
    assert_eq!(d.complete(2, Outcome::Failure("f".to_string())), Ok(()));
    assert!(d.is_done());
    let outs = d.into_outcomes().unwrap();
    assert_eq!(outs.len(), 3);
    assert_eq!(failure_reason(&outs[2]), Some("f".to_string()));
}

#[test]
fn wide_limit_starts_everything() {
    let settings = Settings::new(5, 100).unwrap();
    let mut d = Dispatcher::new(&settings, 3);
    assert_eq!(d.start_next(), Some(0));
    assert_eq!(d.start_next(), Some(1));
    assert_eq!(d.start_next(), Some(2));
    assert_eq!(d.start_next(), None);
    assert_eq!(d.in_flight(), 3);
    assert!(d.into_outcomes().is_none());
}

#[test]
fn completion_errors() {
    let settings = Settings::new(2, 100).unwrap();
    let mut d = Dispatcher::new(&settings, 2);
    assert_eq!(d.complete(0, Outcome::Success), Err(DispatchError::NotStarted));
    assert_eq!(d.complete(7, Outcome::Success), Err(DispatchError::NotStarted));
    assert_eq!(d.start_next(), Some(0));
    assert_eq!(d.complete(0, Outcome::Success), Ok(()));
    assert_eq!(d.complete(0, Outcome::Success), Err(DispatchError::AlreadyCompleted));
    let slots = d.into_slots();
    assert_eq!(slots.len(), 2);
    assert!(slots[0].is_some());
    assert!(slots[1].is_none());
}

#[test]
fn setup_rejects_zero_concurrency() {
    assert_eq!(Settings::new(0, 1000).err(), Some(SetupError::ZeroConcurrency));
    let s = Settings::new(3, 1500).unwrap();
    assert_eq!((s.concurrency(), s.timeout_ms()), (3, 1500));
    assert_eq!(Settings::for_parallelism(0).concurrency(), 1);
    assert_eq!(Settings::for_parallelism(4).concurrency(), 8);
    assert_eq!(Settings::for_parallelism(usize::MAX).concurrency(), usize::MAX);
    assert_eq!(Settings::for_parallelism(4).timeout_ms(), 3000);
}

#[test]
fn internal_error_becomes_failure() {
    let realm = Realm { services: vec![service("s", vec![("c", tcp_checker(9))], &["h1", "h2"])] };
    let settings = Settings::new(2, 100).unwrap();
    let mut engine = Engine::new(&realm, &settings);
    assert_eq!(engine.len(), 2);
    let (a, _) = engine.start_next().unwrap();
    let (b, _) = engine.start_next().unwrap();
    assert_eq!(engine.record_internal_error(b), Ok(()));
    assert_eq!(engine.record(a, Ok(())), Ok(()));
    assert_eq!(engine.record(a, Ok(())), Err(DispatchError::AlreadyCompleted));
    let report = engine.report(&realm).unwrap();
    assert_eq!(report.failures.len(), 1);
    assert_eq!(report.failures[0].host, "h2");
    assert_eq!(report.failures[0].reason, "internal checker error");
    assert_eq!(failure_reason(&Outcome::internal_error()), Some("internal checker error".to_string()));
}

#[test]
fn outcome_from_check_result() {
    assert!(matches!(Outcome::from_check(Ok(())), Outcome::Success));
    assert_eq!(failure_reason(&Outcome::from_check(Err("boom".to_string()))), Some("boom".to_string()));
    assert!(Outcome::from_check(Err("boom".to_string())).failed());
    assert!(!Outcome::Success.failed());
}

#[test]
fn report_unavailable_until_done() {
    let realm = Realm { services: vec![service("s", vec![("c", dummy_checker())], &["h"])] };
    let settings = Settings::new(1, 100).unwrap();
    let mut engine = Engine::new(&realm, &settings);
    let _ = engine.start_next();
    assert!(!engine.is_done());
    assert!(engine.report(&realm).is_none());
}

#[test]
fn abandoned_pass_keeps_completed_outcomes() {
    let realm = Realm { services: vec![service("s", vec![("c", tcp_checker(7))], &["h1", "h2", "h3"])] };
    let settings = Settings::new(2, 100).unwrap();
    let mut engine = Engine::new(&realm, &settings);
    let (a, _) = engine.start_next().unwrap();
    let (_b, _) = engine.start_next().unwrap();
    assert_eq!(engine.start_next(), None);
    assert_eq!(engine.record(a, Err(ProbeError::Refused)), Ok(()));
    let slots = engine.abandon();
    assert_eq!(slots.len(), 3);
    assert_eq!(slots[0].as_ref().and_then(failure_reason), Some("connection refused".to_string()));
    assert!(slots[1].is_none());
    assert!(slots[2].is_none());
}
