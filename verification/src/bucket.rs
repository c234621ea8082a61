//! Bucket probes: the URLs under which a bucket name is tried, what the
//! status of the answer says, and the object keys that a public bucket
//! lists.

use crate::filter::bucket_rule;
use crate::outcome::ProbeOutcome;
use crate::record::BucketResult;
use crate::search::{contains, find_from, first_occurrence, occurs_at};
use crate::text::{chars_of, concat2, string_of_range, views};
use vstd::prelude::*;

verus! {

/// The object stores whose buckets are enumerated.
#[derive(Clone, Copy, Debug, PartialEq, Eq, Structural)]
pub enum BucketProvider {
    S3,
    Gcs,
}

/// The host of a provider.
pub open spec fn provider_host(provider: BucketProvider) -> Seq<char> {
    match provider {
        BucketProvider::S3 => "s3.amazonaws.com"@,
        BucketProvider::Gcs => "storage.googleapis.com"@,
    }
}

/// The virtual-hosted URL of a bucket: the name as a label of the host.
pub open spec fn virtual_hosted_url(provider: BucketProvider, name: Seq<char>) -> Seq<char> {
    "https://"@ + name + "."@ + provider_host(provider)
}

/// The path-style URL of a bucket: the name as the path on the host.
pub open spec fn path_style_url(provider: BucketProvider, name: Seq<char>) -> Seq<char> {
    "https://"@ + provider_host(provider) + "/"@ + name
}

/// The URLs under which a bucket is tried, in order: virtual-hosted, then
/// path-style.
pub fn bucket_urls(provider: BucketProvider, name: &str) -> (urls: Vec<String>)
    ensures
        urls@.len() == 2,
        urls@[0]@ == virtual_hosted_url(provider, name@),
        urls@[1]@ == path_style_url(provider, name@),
{
    let host = match provider {
        BucketProvider::S3 => "s3.amazonaws.com",
        BucketProvider::Gcs => "storage.googleapis.com",
    };
    let a = concat2("https://", name);
    let b = concat2(a.as_str(), ".");
    let first = concat2(b.as_str(), host);
    let c = concat2("https://", host);
    let d = concat2(c.as_str(), "/");
    let second = concat2(d.as_str(), name);
    let mut urls: Vec<String> = Vec::new();
    urls.push(first);
    urls.push(second);
    urls
}

/// Whether an outcome shows that the bucket is there: it answered as
/// public or private.
pub open spec fn shows_bucket(outcome: ProbeOutcome) -> bool {
    outcome matches ProbeOutcome::Success { status_code: Some(status), .. } && bucket_rule(status)
}

/// Which of the URLs of a bucket is tried next, after `tried` of them were
/// tried and the one tried last gave `last`: the next in order, as long as
/// one is left and the last answer did not show the bucket. So at most one
/// match comes of a bucket, whatever number of URLs is probed.
pub fn next_bucket_url(tried: usize, last: &Option<ProbeOutcome>) -> (next: Option<usize>)
    ensures
        next == if tried < 2 && !(*last matches Some(o) && shows_bucket(o)) {
            Some(tried)
        } else {
            None
        },
{
    let shown = match last {
        Some(ProbeOutcome::Success { status_code: Some(status), .. }) => *status == 200 || *status
            == 403,
        _ => false,
    };
    if tried < 2 && !shown {
        Some(tried)
    } else {
        None
    }
}

/// The tag that opens an object key.
pub open spec fn key_open() -> Seq<char> {
    seq!['<', 'K', 'e', 'y', '>']
}

/// The tag that closes an object key.
pub open spec fn key_close() -> Seq<char> {
    seq!['<', '/', 'K', 'e', 'y', '>']
}

/// The first position at which `needle` stands in `hay`, if it stands in
/// it at all.
pub open spec fn first_index(hay: Seq<char>, needle: Seq<char>) -> Option<int> {
    if contains(hay, needle) {
        Some(choose|i: int| first_occurrence(hay, needle, i))
    } else {
        None
    }
}

/// There is one first occurrence.
pub proof fn lemma_first_index(hay: Seq<char>, needle: Seq<char>, i: int)
    requires
        first_occurrence(hay, needle, i),
    ensures
        first_index(hay, needle) == Some(i),
{
    let j = choose|j: int| first_occurrence(hay, needle, j);
    assert(first_occurrence(hay, needle, j));
    if j < i {
        assert(!occurs_at(hay, needle, j));
    }
    if i < j {
        assert(!occurs_at(hay, needle, i));
    }
}

/// What is left of `s` from position `from` on.
pub open spec fn tail(s: Seq<char>, from: int) -> Seq<char> {
    s.subrange(from, s.len() as int)
}

/// The object keys of the listing `xml`, in order. A key is the text
/// between an opening tag and the first closing tag behind it; the search
/// for the next key goes on behind that closing tag. An opening tag that no
/// closing tag follows ends the listing. Line feeds play no part.
pub open spec fn keys_of(xml: Seq<char>) -> Seq<Seq<char>>
    decreases xml.len(),
{
    match first_index(xml, key_open()) {
        Some(a) => if 0 <= a && a + 5 <= xml.len() {
            let rest = tail(xml, a + 5);
            match first_index(rest, key_close()) {
                Some(b) => if 0 <= b && b + 6 <= rest.len() {
                    seq![rest.subrange(0, b)] + keys_of(tail(rest, b + 6))
                } else {
                    Seq::empty()
                },
                None => Seq::empty(),
            }
        } else {
            Seq::empty()
        },
        None => Seq::empty(),
    }
}

/// The first `max_files` object keys of the listing `xml`.
pub open spec fn s3_listing(xml: Seq<char>, max_files: nat) -> Seq<Seq<char>> {
    let keys = keys_of(xml);
    if keys.len() <= max_files {
        keys
    } else {
        keys.subrange(0, max_files as int)
    }
}

/// An occurrence in what is left of `s` from `from` on is an occurrence in
/// `s`, `from` positions further on.
pub proof fn lemma_occurs_in_tail(s: Seq<char>, needle: Seq<char>, from: int, i: int)
    requires
        0 <= from <= s.len(),
        0 <= i,
    ensures
        occurs_at(tail(s, from), needle, i) == occurs_at(s, needle, from + i),
{
    let t = tail(s, from);
    if i + needle.len() <= t.len() {
        assert(t.subrange(i, i + needle.len()) =~= s.subrange(from + i, from + i + needle.len()));
    }
}

/// The first position from `from` on at which `needle` stands in `s` is
/// the first position at which it stands in what is left of `s`.
proof fn lemma_first_in_tail(s: Seq<char>, needle: Seq<char>, from: int, found: Option<int>)
    requires
        0 <= from <= s.len(),
        match found {
            Some(i) => from <= i && occurs_at(s, needle, i) && forall|j: int|
                from <= j < i ==> !occurs_at(s, needle, j),
            None => forall|j: int| from <= j ==> !occurs_at(s, needle, j),
        },
    ensures
        first_index(tail(s, from), needle) == match found {
            Some(i) => Some(i - from),
            None => None,
        },
{
    let t = tail(s, from);
    match found {
        Some(i) => {
            lemma_occurs_in_tail(s, needle, from, i - from);
            assert forall|j: int| 0 <= j < i - from implies !occurs_at(t, needle, j) by {
                lemma_occurs_in_tail(s, needle, from, j);
            }
            lemma_first_index(t, needle, i - from);
        },
        None => {
            assert forall|j: int| !occurs_at(t, needle, j) by {
                if 0 <= j {
                    lemma_occurs_in_tail(s, needle, from, j);
                }
            }
        },
    }
}

/// Reads the object keys out of the listing `xml`, at most `max_files` of
/// them.
pub fn parse_s3_listing(xml: &str, max_files: usize) -> (files: Vec<String>)
    ensures
        views(files@) == s3_listing(xml@, max_files as nat),
        files@.len() <= max_files,
{
    let v = chars_of(xml);
    let n = v.len();
    let open = chars_of("<Key>");
    let close = chars_of("</Key>");
    proof {
        reveal_strlit("<Key>");
        reveal_strlit("</Key>");
        assert(open@ =~= key_open());
        assert(close@ =~= key_close());
    }
    let mut files: Vec<String> = Vec::new();
    let mut pos: usize = 0;
    let mut open_left: bool = true;
    proof {
        assert(tail(v@, 0) =~= v@);
        assert(views(files@) =~= Seq::<Seq<char>>::empty());
        assert(Seq::<Seq<char>>::empty() + keys_of(v@) =~= keys_of(v@));
    }
    while open_left && files.len() < max_files
        invariant
            pos <= n == v@.len(),
            v@ == xml@,
            open@ == key_open(),
            close@ == key_close(),
            files@.len() <= max_files,
            open_left ==> keys_of(xml@) == views(files@) + keys_of(tail(v@, pos as int)),
            !open_left ==> keys_of(xml@) == views(files@),
        decreases n - pos + (if open_left {
            1int
        } else {
            0int
        }),
    {
        let ghost here = tail(v@, pos as int);
        let start = find_from(&v, &open, pos);
        proof {
            lemma_first_in_tail(
                v@,
                key_open(),
                pos as int,
                match start {
                    Some(i) => Some(i as int),
                    None => None,
                },
            );
        }
        match start {
            None => {
                proof {
                    assert(keys_of(here) =~= Seq::<Seq<char>>::empty());
                    assert(views(files@) + Seq::<Seq<char>>::empty() =~= views(files@));
                }
                open_left = false;
            },
            Some(a) => {
                // `a + 5 <= n`, since the opening tag stands at `a`
                let from = a + 5;
                let ghost rest = tail(here, a - pos + 5);
                let end = find_from(&v, &close, from);
                proof {
                    assert(rest =~= tail(v@, from as int));
                    lemma_first_in_tail(
                        v@,
                        key_close(),
                        from as int,
                        match end {
                            Some(i) => Some(i as int),
                            None => None,
                        },
                    );
                }
                match end {
                    None => {
                        proof {
                            assert(keys_of(here) =~= Seq::<Seq<char>>::empty());
                            assert(views(files@) + Seq::<Seq<char>>::empty() =~= views(files@));
                        }
                        open_left = false;
                    },
                    Some(b) => {
                        let key = string_of_range(&v, from, b);
                        let ghost before = views(files@);
                        proof {
                            assert(rest.subrange(0, b - from) =~= v@.subrange(from as int, b as int));
                            assert(tail(rest, b - from + 6) =~= tail(v@, b + 6));
                            assert(keys_of(here) == seq![key@] + keys_of(tail(v@, b + 6)));
                            assert(before + (seq![key@] + keys_of(tail(v@, b + 6))) =~= before.push(
                                key@,
                            ) + keys_of(tail(v@, b + 6)));
                        }
                        files.push(key);
                        proof {
                            assert(views(files@) =~= before.push(key@));
                        }
                        pos = b + 6;
                    },
                }
            },
        }
    }
    proof {
        let all = keys_of(xml@);
        let got = views(files@);
        assert(got.len() == files@.len());
        if open_left {
            // the cap is reached: what was read is the head of all keys
            assert(got =~= all.subrange(0, got.len() as int));
        }
    }
    files
}

/// What the status of a bucket's answer says: public with its listed keys
/// for 200, private without keys for 403, and no bucket for anything
/// else.
pub fn check_s3_bucket(outcome: &ProbeOutcome, max_files: usize) -> (found: Option<
    (String, Vec<String>),
>)
    ensures
        match *outcome {
            ProbeOutcome::Success { status_code: Some(status), extra_text, .. } => if status == 200 {
                found matches Some(pair) && pair.0@ == "public"@ && views(pair.1@) == s3_listing(
                    crate::filter::body_text(extra_text),
                    max_files as nat,
                )
            } else if status == 403 {
                found matches Some(pair) && pair.0@ == "private"@ && pair.1@.len() == 0
            } else {
                found is None
            },
            _ => found is None,
        },
{
    match outcome {
        ProbeOutcome::Success { status_code: Some(status), extra_text, .. } => {
            if *status == 200 {
                let files = match extra_text {
                    Some(body) => parse_s3_listing(body.as_str(), max_files),
                    None => parse_s3_listing("", max_files),
                };
                proof {
                    reveal_strlit("");
                    assert(""@ =~= Seq::<char>::empty());
                }
                Some(("public".to_owned(), files))
            } else if *status == 403 {
                Some(("private".to_owned(), Vec::new()))
            } else {
                None
            }
        },
        _ => None,
    }
}

/// The record of the bucket `name`, if the outcome shows that it exists.
pub fn bucket_record(name: &str, outcome: &ProbeOutcome, max_files: usize) -> (record: Option<
    BucketResult,
>)
    ensures
        match *outcome {
            ProbeOutcome::Success { status_code: Some(status), extra_text, .. } => if status == 200 {
                record matches Some(r) && r.name@ == name@ && r.status@ == "public"@ && views(
                    r.files@,
                ) == s3_listing(crate::filter::body_text(extra_text), max_files as nat)
            } else if status == 403 {
                record matches Some(r) && r.name@ == name@ && r.status@ == "private"@
                    && r.files@.len() == 0
            } else {
                record is None
            },
            _ => record is None,
        },
{
    match check_s3_bucket(outcome, max_files) {
        Some((status, files)) => Some(BucketResult { name: name.to_owned(), status, files }),
        None => None,
    }
}

} // verus!
