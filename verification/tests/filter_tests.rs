use rbuster::baseline::{capture, preflight, Preflight};
use rbuster::filter::{includes, FilterPolicy};
use rbuster::outcome::{BaselineSignature, IpAddress, Mode, ProbeOutcome};

fn policy() -> FilterPolicy {
    FilterPolicy {
        allow_status: vec![200, 301],
        deny_status: vec![301],
        deny_sizes: vec![1234],
        deny_substring: Some(String::from("Not Found")),
        baseline_size: Some(500),
    }
}

fn http(status: u16, size: usize) -> ProbeOutcome {
    ProbeOutcome::http(status, size, None)
}

fn ips(list: &[u32]) -> ProbeOutcome {
    ProbeOutcome::resolved(list.iter().map(|n| IpAddress::V4(*n)).collect())
}

#[test]
fn dir_filter_needs_allowed_status_and_free_size() {
    let p = policy();
    assert!(includes(Mode::Dir, &http(200, 10), &p, &None));
    assert!(!includes(Mode::Dir, &http(404, 10), &p, &None));
    assert!(!includes(Mode::Dir, &http(301, 10), &p, &None));
    assert!(!includes(Mode::Dir, &http(200, 1234), &p, &None));
}

#[test]
fn fuzz_filter_excludes_status_size_and_text() {
    let p = policy();
    let body = |status: u16, text: &str| ProbeOutcome::http_body(status, String::from(text));
    assert!(includes(Mode::Fuzz, &body(404, "hello"), &p, &None));
    assert!(!includes(Mode::Fuzz, &body(301, "hello"), &p, &None));
    assert!(!includes(Mode::Fuzz, &body(200, "page Not Found here"), &p, &None));
    assert!(!includes(Mode::Fuzz, &http(200, 1234), &p, &None));
    assert!(includes(Mode::Fuzz, &http(200, 9), &p, &None));
}

#[test]
fn fuzz_body_size_is_counted_in_bytes() {
    match ProbeOutcome::http_body(200, String::from("héllo")) {
        ProbeOutcome::Success { byte_size, .. } => assert_eq!(byte_size, Some(6)),
        ProbeOutcome::Failure { .. } => panic!("a body is a success"),
    }
}

#[test]
fn vhost_filter_compares_with_the_baseline_size() {
    let p = policy();
    assert!(includes(Mode::Vhost, &http(200, 10), &p, &None));
    assert!(!includes(Mode::Vhost, &http(200, 500), &p, &None));
    assert!(!includes(Mode::Vhost, &http(200, 1234), &p, &None));
    assert!(!includes(Mode::Vhost, &http(400, 10), &p, &None));
    assert!(includes(Mode::Vhost, &http(404, 10), &p, &None));
}

#[test]
fn dns_filter_reports_what_is_not_all_noise() {
    let p = FilterPolicy::empty();
    let noise = Some(BaselineSignature::Dns(vec![IpAddress::V4(1), IpAddress::V4(2)]));
    assert!(includes(Mode::Dns, &ips(&[1]), &p, &None));
    assert!(!includes(Mode::Dns, &ips(&[1]), &p, &noise));
    assert!(!includes(Mode::Dns, &ips(&[2, 1]), &p, &noise));
    assert!(includes(Mode::Dns, &ips(&[1, 3]), &p, &noise));
    assert!(!includes(Mode::Dns, &ips(&[]), &p, &noise));
    assert!(includes(Mode::Dns, &ips(&[]), &p, &None));
    assert!(includes(
        Mode::Dns,
        &ProbeOutcome::resolved(vec![IpAddress::V6(1)]),
        &p,
        &noise
    ));
}

#[test]
fn bucket_and_tftp_filters_read_the_status() {
    let p = FilterPolicy::empty();
    assert!(includes(Mode::Bucket, &http(200, 0), &p, &None));
    assert!(includes(Mode::Bucket, &http(403, 0), &p, &None));
    assert!(!includes(Mode::Bucket, &http(404, 0), &p, &None));
    assert!(includes(Mode::Tftp, &http(3, 4), &p, &None));
    assert!(includes(Mode::Tftp, &http(6, 20), &p, &None));
    assert!(!includes(Mode::Tftp, &http(5, 20), &p, &None));
    assert!(!includes(Mode::Tftp, &http(3, 3), &p, &None));
}

#[test]
fn failures_and_absent_fields_never_match() {
    let p = policy();
    let failed = ProbeOutcome::failure(String::from("timeout"));
    for mode in [Mode::Dir, Mode::Dns, Mode::Vhost, Mode::Fuzz, Mode::Bucket, Mode::Tftp] {
        assert!(!includes(mode, &failed, &p, &None));
        assert!(!includes(mode, &ProbeOutcome::empty(), &p, &None));
    }
}

#[test]
fn filter_gives_the_same_answer_for_the_same_input() {
    let p = policy();
    let noise = Some(BaselineSignature::Http(vec![(200, 77)]));
    let outcomes = [http(200, 10), http(200, 77), http(404, 1), ips(&[1])];
    for mode in [Mode::Dir, Mode::Dns, Mode::Vhost, Mode::Fuzz, Mode::Bucket, Mode::Tftp] {
        for o in &outcomes {
            let first = includes(mode, o, &p, &noise);
            let second = includes(mode, &o.clone(), &p.clone(), &noise.clone());
            assert_eq!(first, second);
        }
    }
}

#[test]
fn http_signature_suppresses_equal_responses_only() {
    let p = policy();
    let noise = Some(BaselineSignature::Http(vec![(200, 77)]));
    assert!(!includes(Mode::Dir, &http(200, 77), &p, &noise));
    assert!(includes(Mode::Dir, &http(200, 78), &p, &noise));
    assert!(includes(Mode::Dir, &http(200, 77), &p, &None));
}

#[test]
fn capture_records_what_the_filter_would_report() {
    let p = policy();
    let outcomes = vec![http(404, 5), http(200, 77), http(200, 1234), http(200, 9)];
    match capture(Mode::Dir, &outcomes, &p) {
        Some(BaselineSignature::Http(pairs)) => assert_eq!(pairs, vec![(200, 77), (200, 9)]),
        other => panic!("unexpected signature {:?}", other),
    }
    assert!(capture(Mode::Dir, &vec![http(404, 5)], &p).is_none());
    assert!(capture(Mode::Dir, &Vec::new(), &p).is_none());
    assert!(capture(Mode::Tftp, &outcomes, &p).is_none());
    assert!(capture(Mode::Bucket, &outcomes, &p).is_none());
}

#[test]
fn capture_records_resolved_addresses() {
    let p = FilterPolicy::empty();
    let outcomes = vec![
        ips(&[1, 2]),
        ProbeOutcome::failure(String::from("nx")),
        ips(&[]),
        ips(&[3]),
    ];
    match capture(Mode::Dns, &outcomes, &p) {
        Some(BaselineSignature::Dns(noise)) => {
            assert_eq!(noise, vec![IpAddress::V4(1), IpAddress::V4(2), IpAddress::V4(3)])
        }
        other => panic!("unexpected signature {:?}", other),
    }
    assert!(capture(Mode::Dns, &vec![ips(&[])], &p).is_none());
}

#[test]
fn captured_noise_is_filtered_when_probed_again() {
    let p = policy();
    let http_outcomes = vec![http(200, 77), http(404, 5), http(200, 9)];
    for mode in [Mode::Dir, Mode::Fuzz, Mode::Vhost] {
        let signature = capture(mode, &http_outcomes, &p);
        assert!(signature.is_some());
        for o in &http_outcomes {
            assert!(!includes(mode, o, &p, &signature));
        }
    }
    let dns_outcomes = vec![ips(&[1, 2]), ips(&[2])];
    let signature = capture(Mode::Dns, &dns_outcomes, &p);
    for o in &dns_outcomes {
        assert!(!includes(Mode::Dns, o, &p, &signature));
    }
}

#[test]
fn preflight_stops_unless_forced() {
    let noise = BaselineSignature::Http(vec![(200, 1)]);
    assert!(matches!(preflight(None, false), Preflight::Clean));
    assert!(matches!(preflight(None, true), Preflight::Clean));
    assert!(matches!(preflight(Some(noise.clone()), false), Preflight::Stop(_)));
    match preflight(Some(noise), true) {
        Preflight::Suppress(BaselineSignature::Http(pairs)) => assert_eq!(pairs, vec![(200, 1)]),
        other => panic!("unexpected start {:?}", other),
    }
}
