use rbuster::candidate::{
    generate_dir, generate_dns, generate_vhost, generate_words, total_requests, Candidate,
};
use rbuster::report::backup_candidates;

fn strings(items: &[&str]) -> Vec<String> {
    items.iter().map(|s| String::from(*s)).collect()
}

fn values(candidates: &[Candidate]) -> Vec<String> {
    candidates.iter().map(|c| c.value.clone()).collect()
}

fn tags(candidates: &[Candidate]) -> Vec<Option<String>> {
    candidates.iter().map(|c| c.tag.clone()).collect()
}

#[test]
fn dir_candidates_without_extensions() {
    let out = generate_dir("http://host/", &strings(&["admin", "/login"]), &Vec::new(), false);
    assert_eq!(values(&out), vec!["http://host/admin", "http://host/login"]);
    assert_eq!(tags(&out), vec![None, None]);
}

#[test]
fn dir_base_url_loses_all_trailing_slashes() {
    let out = generate_dir("http://host///", &strings(&["a"]), &Vec::new(), false);
    assert_eq!(values(&out), vec!["http://host/a"]);
    let out = generate_dir("", &strings(&["a"]), &Vec::new(), false);
    assert_eq!(values(&out), vec!["/a"]);
}

#[test]
fn dir_extensions_get_a_leading_dot() {
    let out = generate_dir(
        "http://host",
        &strings(&["index"]),
        &strings(&["php", ".html", ""]),
        false,
    );
    assert_eq!(
        values(&out),
        vec![
            "http://host/index",
            "http://host/index.php",
            "http://host/index.html",
            "http://host/index.",
        ]
    );
    assert_eq!(
        tags(&out),
        vec![
            None,
            Some(String::from("php")),
            Some(String::from(".html")),
            Some(String::new()),
        ]
    );
}

#[test]
fn dir_slash_variant_follows_each_path_that_has_no_slash() {
    let out = generate_dir("http://host", &strings(&["a", "b/", ""]), &strings(&["x", "y/"]), true);
    assert_eq!(
        values(&out),
        vec![
            "http://host/a",
            "http://host/a/",
            "http://host/a.x",
            "http://host/a.x/",
            "http://host/a.y/",
            "http://host/b/",
            "http://host/b/.x",
            "http://host/b/.x/",
            "http://host/b/.y/",
            "http://host/",
            "http://host/.x",
            "http://host/.x/",
            "http://host/.y/",
        ]
    );
    assert_eq!(
        tags(&out)[..5],
        [
            None,
            Some(String::from("/")),
            Some(String::from("x")),
            Some(String::from("x/")),
            Some(String::from("y/")),
        ]
    );
    assert_eq!(
        total_requests(&strings(&["a", "b/", ""]), &strings(&["x", "y/"]), true),
        13
    );
}

#[test]
fn dir_progress_total_is_the_number_of_candidates() {
    let word_lists: [&[&str]; 5] = [&[], &["a"], &["a", "b/"], &["", "/", "/x", "y/z"], &["a", "a"]];
    let ext_lists: [&[&str]; 4] = [&[], &["php"], &[".php", "", "x/"], &["/", "a", "b"]];
    for ws in word_lists {
        for es in ext_lists {
            for add_slash in [false, true] {
                let words = strings(ws);
                let exts = strings(es);
                let out = generate_dir("http://host/", &words, &exts, add_slash);
                assert_eq!(
                    total_requests(&words, &exts, add_slash),
                    out.len() as u64,
                    "{:?} {:?} {}",
                    ws,
                    es,
                    add_slash
                );
            }
        }
    }
}

#[test]
fn dir_candidate_count_is_words_times_extensions_plus_one() {
    for w in 0..5usize {
        for e in 0..4usize {
            let words: Vec<String> = (0..w).map(|i| format!("w{}", i)).collect();
            let exts: Vec<String> = (0..e).map(|i| format!("e{}", i)).collect();
            let out = generate_dir("http://host", &words, &exts, false);
            assert_eq!(out.len(), w * (e + 1));
            assert_eq!(total_requests(&words, &exts, false), (w * (e + 1)) as u64);
            let slashed = generate_dir("http://host", &words, &exts, true);
            assert_eq!(slashed.len(), 2 * w * (e + 1));
            assert_eq!(total_requests(&words, &exts, true), (2 * w * (e + 1)) as u64);
        }
    }
}

#[test]
fn dir_generation_is_deterministic() {
    let words = strings(&["a", "b", "c"]);
    let exts = strings(&["php", "txt"]);
    let first = generate_dir("http://host/", &words, &exts, true);
    let second = generate_dir("http://host/", &words, &exts, true);
    assert_eq!(values(&first), values(&second));
    assert_eq!(tags(&first), tags(&second));
}

#[test]
fn total_requests_has_exact_values() {
    let three = strings(&["a", "b", "c"]);
    let two = strings(&["x", "y"]);
    assert_eq!(total_requests(&three, &Vec::new(), false), 3);
    assert_eq!(total_requests(&three, &two, false), 9);
    assert_eq!(total_requests(&three, &two, true), 18);
    assert_eq!(total_requests(&Vec::new(), &two, true), 0);
    assert_eq!(total_requests(&strings(&["a/", "b"]), &two, true), 11);
    assert_eq!(total_requests(&three, &strings(&["x/"]), true), 9);
}

#[test]
fn dns_candidates_stand_below_the_domain() {
    let out = generate_dns("..example.com", &strings(&["www", "mail", ""]));
    assert_eq!(
        values(&out),
        vec!["www.example.com", "mail.example.com", ".example.com"]
    );
}

#[test]
fn vhost_candidates_append_the_domain_only_when_asked() {
    let words = strings(&["dev", "stage"]);
    let domain = Some(String::from("example.com"));
    assert_eq!(
        values(&generate_vhost(&words, true, &domain)),
        vec!["dev.example.com", "stage.example.com"]
    );
    assert_eq!(values(&generate_vhost(&words, false, &domain)), vec!["dev", "stage"]);
    assert_eq!(values(&generate_vhost(&words, true, &None)), vec!["dev", "stage"]);
}

#[test]
fn plain_candidates_are_the_words() {
    let out = generate_words(&strings(&["a", "", "c d"]));
    assert_eq!(values(&out), vec!["a", "", "c d"]);
    assert_eq!(tags(&out), vec![None, None, None]);
}

#[test]
fn backup_candidates_try_every_ending() {
    let out = backup_candidates("http://host/index.php");
    assert_eq!(
        values(&out),
        vec![
            "http://host/index.php.bak",
            "http://host/index.php.backup",
            "http://host/index.php.old",
            "http://host/index.php.orig",
            "http://host/index.php.save",
            "http://host/index.php~",
            "http://host/index.php.swp",
            "http://host/index.php.tmp",
            "http://host/index.php.copy",
        ]
    );
    assert_eq!(out[5].tag, Some(String::from("~")));
}
