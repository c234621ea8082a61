//! From a candidate and its outcome to the record that is reported, and
//! the follow-up candidates of a file found in directory mode.

use crate::candidate::{models, Candidate, CandidateModel};
use crate::counting::{count_lines, count_words, line_count, word_count};
use crate::filter::{body_text, contains_code, FilterPolicy};
use crate::outcome::ProbeOutcome;
use crate::record::{DirResult, DnsResultJson, FuzzResult, VhostResult};
use crate::search::matches_at;
use crate::text::{chars_of, concat2, string_of_range};
use vstd::prelude::*;

verus! {

/// `s` without the leading `prefix`, or `s` itself if it does not begin
/// with it.
pub open spec fn without_prefix(s: Seq<char>, prefix: Seq<char>) -> Seq<char> {
    if prefix.len() <= s.len() && s.subrange(0, prefix.len() as int) == prefix {
        s.subrange(prefix.len() as int, s.len() as int)
    } else {
        s
    }
}

/// `s` without the leading `prefix`.
pub fn strip_prefix(s: &str, prefix: &str) -> (rest: String)
    ensures
        rest@ == without_prefix(s@, prefix@),
{
    let v = chars_of(s);
    let p = chars_of(prefix);
    if matches_at(&v, &p, 0) {
        string_of_range(&v, p.len(), v.len())
    } else {
        proof {
            assert(v@.subrange(0, v@.len() as int) == v@);
        }
        string_of_range(&v, 0, v.len())
    }
}

/// The record of a URL found in directory mode: its path below the base
/// URL, with status, size and redirect target of the response. An outcome
/// without status or size gives no record.
pub fn dir_record(url: &str, base: &str, outcome: &ProbeOutcome) -> (record: Option<DirResult>)
    ensures
        match *outcome {
            ProbeOutcome::Success {
                status_code: Some(status),
                byte_size: Some(size),
                redirect_target,
                ..
            } => record matches Some(r) && r.path@ == without_prefix(url@, base@) && r.status
                == status && r.size == size && r.redirect == redirect_target,
            _ => record is None,
        },
{
    match outcome {
        ProbeOutcome::Success {
            status_code: Some(status),
            byte_size: Some(size),
            redirect_target,
            ..
        } => Some(
            DirResult {
                path: strip_prefix(url, base),
                status: *status,
                size: *size,
                redirect: redirect_target.clone(),
            },
        ),
        _ => None,
    }
}

/// The record of a host found in virtual-host mode.
pub fn vhost_record(host: &str, outcome: &ProbeOutcome) -> (record: Option<VhostResult>)
    ensures
        match *outcome {
            ProbeOutcome::Success { status_code: Some(status), byte_size: Some(size), .. } => record
                matches Some(r) && r.host@ == host@ && r.status == status && r.size == size,
            _ => record is None,
        },
{
    match outcome {
        ProbeOutcome::Success { status_code: Some(status), byte_size: Some(size), .. } => Some(
            VhostResult { host: host.to_owned(), status: *status, size: *size },
        ),
        _ => None,
    }
}

/// The record of a payload that matched in fuzz mode, with the words and
/// lines of the response body counted.
pub fn fuzz_record(payload: &str, outcome: &ProbeOutcome) -> (record: Option<FuzzResult>)
    ensures
        match *outcome {
            ProbeOutcome::Success {
                status_code: Some(status),
                byte_size: Some(size),
                extra_text,
                ..
            } => record matches Some(r) && r.payload@ == payload@ && r.status == status && r.size
                == size && r.words == word_count(body_text(extra_text)) && r.lines == line_count(
                body_text(extra_text),
            ),
            _ => record is None,
        },
{
    match outcome {
        ProbeOutcome::Success {
            status_code: Some(status),
            byte_size: Some(size),
            extra_text,
            ..
        } => {
            let (words, lines) = match extra_text {
                Some(body) => (count_words(body.as_str()), count_lines(body.as_str())),
                None => (0, 0),
            };
            Some(
                FuzzResult { payload: payload.to_owned(), status: *status, size: *size, words, lines },
            )
        },
        _ => None,
    }
}

/// The record of a name found in DNS mode, from its addresses as text.
pub fn dns_record(subdomain: &str, ips: Vec<String>, cnames: Vec<String>) -> (record: DnsResultJson)
    ensures
        record.subdomain@ == subdomain@,
        record.ips == ips,
        record.cnames == cnames,
{
    DnsResultJson { subdomain: subdomain.to_owned(), ips, cnames }
}

/// The endings under which a backup copy of a file is looked for.
pub open spec fn backup_suffixes() -> Seq<Seq<char>> {
    seq![
        ".bak"@,
        ".backup"@,
        ".old"@,
        ".orig"@,
        ".save"@,
        "~"@,
        ".swp"@,
        ".tmp"@,
        ".copy"@,
    ]
}

/// The candidates that follow up a file found at `url`: the URL with each
/// backup ending, tagged with the ending.
pub open spec fn backup_models(url: Seq<char>) -> Seq<CandidateModel> {
    Seq::new(
        backup_suffixes().len(),
        |k: int| CandidateModel { value: url + backup_suffixes()[k], tag: Some(backup_suffixes()[k]) },
    )
}

/// One follow-up candidate.
fn backup_candidate(url: &str, suffix: &str) -> (c: Candidate)
    ensures
        c@ == (CandidateModel { value: url@ + suffix@, tag: Some(suffix@) }),
{
    Candidate { value: concat2(url, suffix), tag: Some(suffix.to_owned()) }
}

/// The follow-up candidates of a file found at `url`.
pub fn backup_candidates(url: &str) -> (out: Vec<Candidate>)
    ensures
        models(out@) == backup_models(url@),
        out@.len() == 9,
{
    let mut out: Vec<Candidate> = Vec::new();
    out.push(backup_candidate(url, ".bak"));
    out.push(backup_candidate(url, ".backup"));
    out.push(backup_candidate(url, ".old"));
    out.push(backup_candidate(url, ".orig"));
    out.push(backup_candidate(url, ".save"));
    out.push(backup_candidate(url, "~"));
    out.push(backup_candidate(url, ".swp"));
    out.push(backup_candidate(url, ".tmp"));
    out.push(backup_candidate(url, ".copy"));
    proof {
        assert(models(out@) =~= backup_models(url@));
    }
    out
}

/// Whether a follow-up answer is reported: its status is among the
/// allowed ones.
pub fn backup_matches(outcome: &ProbeOutcome, policy: &FilterPolicy) -> (b: bool)
    ensures
        b == (*outcome matches ProbeOutcome::Success { status_code: Some(status), .. }
            && policy.allow_status@.contains(status)),
{
    match outcome {
        ProbeOutcome::Success { status_code: Some(status), .. } => contains_code(
            &policy.allow_status,
            *status,
        ),
        _ => false,
    }
}

} // verus!
