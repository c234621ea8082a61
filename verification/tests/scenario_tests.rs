use rbuster::args::{DirArgs, GlobalOpts, HttpOpts};
use rbuster::baseline::{capture, preflight, Preflight};
use rbuster::candidate::{generate_dir, generate_dns, generate_words, total_requests};
use rbuster::filter::FilterPolicy;
use rbuster::governor::Dispatch;
use rbuster::outcome::{BaselineSignature, IpAddress, Mode, ProbeOutcome};
use rbuster::report::dir_record;
use rbuster::run::{Run, Verdict};
use rbuster::tftp::{outcome_of_reply, TftpReply};

fn words(items: &[&str]) -> Vec<String> {
    items.iter().map(|s| String::from(*s)).collect()
}

fn dir_args(status_codes: &str) -> DirArgs {
    DirArgs {
        global: GlobalOpts {
            wordlist: String::from("w.txt"),
            threads: 2,
            output: None,
            quiet: false,
            verbose: false,
            no_progress: false,
            delay: None,
            no_color: false,
        },
        http: HttpOpts {
            headers: Vec::new(),
            cookies: None,
            user_agent: String::from("rbuster/1.0"),
            insecure: false,
            proxy: None,
            username: None,
            password: None,
            timeout: 10,
            follow_redirect: false,
            method: String::from("GET"),
        },
        url: String::from("http://target/"),
        extensions: None,
        status_codes: String::from(status_codes),
        status_codes_blacklist: None,
        add_slash: false,
        expanded: false,
        show_length: false,
        exclude_length: None,
        discover_backup: false,
        wildcard: false,
    }
}

fn run_all(run: &mut Run, outcomes: &[ProbeOutcome]) -> (Vec<(usize, Verdict)>, usize) {
    let mut outstanding: Vec<usize> = Vec::new();
    let mut verdicts = Vec::new();
    let mut high_water = 0;
    loop {
        match run.next() {
            Dispatch::Start(i) => {
                outstanding.push(i);
                high_water = high_water.max(outstanding.len());
            }
            Dispatch::Wait => {
                let i = outstanding.pop().unwrap();
                verdicts.push((i, run.settle(&outcomes[i])));
            }
            Dispatch::Finished => break,
        }
    }
    (verdicts, high_water)
}

#[test]
fn directory_run_reports_two_of_three_words() {
    let args = dir_args("200");
    let policy = FilterPolicy::for_dir(&args);
    assert_eq!(policy.allow_status, vec![200]);
    let candidates = generate_dir(&args.url, &words(&["admin", "login", "xyz123"]), &Vec::new(), false);
    let urls: Vec<&str> = candidates.iter().map(|c| c.value.as_str()).collect();
    assert_eq!(urls, vec!["http://target/admin", "http://target/login", "http://target/xyz123"]);
    let outcomes = vec![
        ProbeOutcome::http(200, 120, None),
        ProbeOutcome::http(200, 340, None),
        ProbeOutcome::http(404, 9, None),
    ];
    let total = total_requests(&words(&["admin", "login", "xyz123"]), &Vec::new(), false);
    assert_eq!(total, candidates.len() as u64);
    let mut run = Run::new(Mode::Dir, policy, None, args.global.threads, candidates.len(), total)
        .expect("two threads");
    let (verdicts, high_water) = run_all(&mut run, &outcomes);
    assert!(high_water <= 2);
    let mut matched: Vec<String> = verdicts
        .iter()
        .filter(|(_, v)| *v == Verdict::Match)
        .map(|(i, _)| dir_record(urls[*i], "http://target", &outcomes[*i]).unwrap().path)
        .collect();
    matched.sort();
    assert_eq!(matched, vec!["/admin", "/login"]);
    assert_eq!(verdicts.iter().filter(|(_, v)| *v == Verdict::Miss).count(), 1);
    assert_eq!((run.done(), run.found(), run.errored()), (3, 2, 0));
    assert_eq!(run.percent(), 100);
    assert!(run.is_finished());
}

#[test]
fn dns_run_suppresses_the_wildcard_address() {
    let policy = FilterPolicy::empty();
    let synthetic = vec![ProbeOutcome::resolved(vec![IpAddress::V4(0x01020304)])];
    let baseline = match preflight(capture(Mode::Dns, &synthetic, &policy), true) {
        Preflight::Suppress(noise) => Some(noise),
        other => panic!("unexpected start {:?}", other),
    };
    assert!(matches!(baseline, Some(BaselineSignature::Dns(_))));
    let candidates = generate_dns("example.com", &words(&["www", "mail"]));
    assert_eq!(candidates[0].value, "www.example.com");
    assert_eq!(candidates[1].value, "mail.example.com");
    let outcomes = vec![
        ProbeOutcome::resolved(vec![IpAddress::V4(0x01020304)]),
        ProbeOutcome::resolved(vec![IpAddress::V4(0x05060708)]),
    ];
    let mut run = Run::new(Mode::Dns, policy, baseline, 10, 2, 2).unwrap();
    let (mut verdicts, _) = run_all(&mut run, &outcomes);
    verdicts.sort_by_key(|(i, _)| *i);
    assert_eq!(verdicts, vec![(0, Verdict::Miss), (1, Verdict::Match)]);
    assert_eq!((run.done(), run.found(), run.errored()), (2, 1, 0));
}

#[test]
fn dns_wildcard_stops_a_run_that_is_not_forced() {
    let policy = FilterPolicy::empty();
    let synthetic = vec![ProbeOutcome::resolved(vec![IpAddress::V4(0x01020304)])];
    assert!(matches!(
        preflight(capture(Mode::Dns, &synthetic, &policy), false),
        Preflight::Stop(_)
    ));
    let quiet = vec![ProbeOutcome::failure(String::from("No records found"))];
    assert!(matches!(
        preflight(capture(Mode::Dns, &quiet, &policy), false),
        Preflight::Clean
    ));
}

#[test]
fn tftp_silence_is_absent_and_no_error() {
    let outcome = outcome_of_reply(&TftpReply::TimedOut);
    let names = generate_words(&words(&["boot.cfg"]));
    let mut run = Run::new(Mode::Tftp, FilterPolicy::empty(), None, 50, names.len(), 1).unwrap();
    assert_eq!(run.next(), Dispatch::Start(0));
    assert_eq!(run.settle(&outcome), Verdict::Miss);
    assert_eq!((run.done(), run.found(), run.errored()), (1, 0, 0));
}

#[test]
fn tftp_data_is_found_and_socket_failure_is_an_error() {
    let replies = [
        TftpReply::Datagram(vec![0, 3, 0, 1, 65]),
        TftpReply::Datagram(vec![0, 5, 0, 1]),
        TftpReply::Failed { stage: rbuster::tftp::TftpStage::Send, detail: String::from("x") },
    ];
    let outcomes: Vec<ProbeOutcome> = replies.iter().map(outcome_of_reply).collect();
    let mut run = Run::new(Mode::Tftp, FilterPolicy::empty(), None, 1, 3, 3).unwrap();
    let (mut verdicts, high_water) = run_all(&mut run, &outcomes);
    verdicts.sort_by_key(|(i, _)| *i);
    assert_eq!(high_water, 1);
    assert_eq!(
        verdicts,
        vec![(0, Verdict::Match), (1, Verdict::Miss), (2, Verdict::Error)]
    );
    assert_eq!((run.done(), run.found(), run.errored()), (3, 1, 1));
}

#[test]
fn run_without_threads_does_not_exist() {
    assert!(Run::new(Mode::Dir, FilterPolicy::empty(), None, 0, 3, 3).is_none());
}

#[test]
fn settling_without_an_outstanding_probe_counts_nothing() {
    let mut run = Run::new(Mode::Bucket, FilterPolicy::empty(), None, 3, 1, 1).unwrap();
    assert_eq!(run.settle(&ProbeOutcome::http(200, 0, None)), Verdict::Idle);
    assert_eq!((run.done(), run.found(), run.errored()), (0, 0, 0));
    assert_eq!(run.next(), Dispatch::Start(0));
    assert_eq!(run.in_flight(), 1);
    assert_eq!(run.next(), Dispatch::Wait);
    assert_eq!(run.settle(&ProbeOutcome::http(403, 0, None)), Verdict::Match);
    assert_eq!(run.settle(&ProbeOutcome::http(403, 0, None)), Verdict::Idle);
    assert_eq!(run.next(), Dispatch::Finished);
    assert_eq!((run.done(), run.found()), (1, 1));
}

#[test]
fn policies_are_read_from_the_options() {
    let mut args = dir_args("200, 301,x");
    args.status_codes_blacklist = Some(String::from("301"));
    args.exclude_length = Some(String::from("0,42"));
    let p = FilterPolicy::for_dir(&args);
    assert_eq!((p.allow_status, p.deny_status, p.deny_sizes), (vec![200, 301], vec![301], vec![0, 42]));
    assert_eq!((p.deny_substring, p.baseline_size), (None, None));
    let config = rbuster::plan::RunConfig::for_dir(&args);
    assert_eq!((config.mode, config.threads, config.timeout), (Mode::Dir, 2, 10));
    assert!(config.show_progress && !config.force_wildcard);
}

#[test]
fn run_draws_progress_only_when_the_percentage_moves() {
    let mut run = Run::new(Mode::Bucket, FilterPolicy::empty(), None, 1, 4, 4).unwrap();
    assert!(run.render_due());
    assert!(!run.render_due());
    assert_eq!(run.next(), Dispatch::Start(0));
    assert!(!run.render_due());
    assert_eq!(run.settle(&ProbeOutcome::empty()), Verdict::Miss);
    assert_eq!(run.percent(), 25);
    assert!(run.render_due());
    assert!(!run.render_due());
    assert_eq!((run.done(), run.found(), run.errored()), (1, 0, 0));
    assert_eq!(run.in_flight(), 0);
}
