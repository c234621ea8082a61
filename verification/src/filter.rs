//! The result filter: which outcomes are reported, per mode, and how a
//! noise signature captured before the run suppresses false positives.

use crate::outcome::{BaselineSignature, IpAddress, Mode, ProbeOutcome};
use crate::search::{contains, find};
use crate::text::chars_of;
use vstd::prelude::*;

verus! {

/// The configured rules that decide whether an outcome is a match.
#[derive(Clone, Debug)]
pub struct FilterPolicy {
    /// Status codes that may be reported (directory mode)
    pub allow_status: Vec<u16>,
    /// Status codes that are never reported
    pub deny_status: Vec<u16>,
    /// Body sizes that are never reported
    pub deny_sizes: Vec<usize>,
    /// Responses whose body holds this text are not reported
    pub deny_substring: Option<String>,
    /// Responses of exactly this size are not reported
    pub baseline_size: Option<usize>,
}

/// Whether a response of `status` and `size` equals a recorded catch-all
/// response.
pub open spec fn suppressed(status: u16, size: usize, baseline: Option<BaselineSignature>) -> bool {
    match baseline {
        Some(BaselineSignature::Http(pairs)) => pairs@.contains((status, size)),
        _ => false,
    }
}

/// Whether every address of `addresses` is among `noise`.
pub open spec fn within(addresses: Seq<IpAddress>, noise: Seq<IpAddress>) -> bool {
    forall|i: int| 0 <= i < addresses.len() ==> noise.contains(#[trigger] addresses[i])
}

/// Directory mode: the status is allowed, not denied, and the size is not
/// excluded.
pub open spec fn dir_rule(status: u16, size: usize, policy: FilterPolicy) -> bool {
    &&& policy.allow_status@.contains(status)
    &&& !policy.deny_status@.contains(status)
    &&& !policy.deny_sizes@.contains(size)
}

/// Fuzz mode: neither status nor size is excluded, and the body does not
/// hold the filter text.
pub open spec fn fuzz_rule(status: u16, size: usize, body: Seq<char>, policy: FilterPolicy) -> bool {
    &&& !policy.deny_status@.contains(status)
    &&& !policy.deny_sizes@.contains(size)
    &&& match policy.deny_substring {
        Some(text) => !contains(body, text@),
        None => true,
    }
}

/// Virtual-host mode: the size differs from the baseline response and is
/// not excluded, and the status is not 400.
pub open spec fn vhost_rule(status: u16, size: usize, policy: FilterPolicy) -> bool {
    &&& policy.baseline_size != Some(size)
    &&& !policy.deny_sizes@.contains(size)
    &&& status != 400
}

/// DNS mode: with a recorded signature, some resolved address is not
/// among the catch-all addresses; without one, every answer counts.
pub open spec fn dns_rule(addresses: Seq<IpAddress>, baseline: Option<BaselineSignature>) -> bool {
    match baseline {
        Some(BaselineSignature::Dns(noise)) => !within(addresses, noise@),
        _ => true,
    }
}

/// Bucket mode: the bucket answers as public (200) or private (403).
pub open spec fn bucket_rule(status: u16) -> bool {
    status == 200 || status == 403
}

/// TFTP mode: a reply of at least four bytes whose opcode is DATA (3) or
/// OACK (6).
pub open spec fn tftp_rule(opcode: u16, size: usize) -> bool {
    size >= 4 && (opcode == 3 || opcode == 6)
}

/// The text of an optional body: empty where there is none.
pub open spec fn body_text(extra_text: Option<String>) -> Seq<char> {
    match extra_text {
        Some(text) => text@,
        None => Seq::empty(),
    }
}

/// The result filter. A failure is never a match. A success is judged by
/// the rule of its mode on the fields that the mode reads; where one of
/// them is absent it is no match. In the HTTP modes a match that equals a
/// recorded catch-all response is suppressed.
pub open spec fn passes(
    mode: Mode,
    outcome: ProbeOutcome,
    policy: FilterPolicy,
    baseline: Option<BaselineSignature>,
) -> bool {
    match outcome {
        ProbeOutcome::Failure { .. } => false,
        ProbeOutcome::Success {
            status_code,
            byte_size,
            resolved_addresses,
            redirect_target,
            extra_text,
        } => match mode {
            Mode::Dir => status_code is Some && byte_size is Some && dir_rule(
                status_code->0,
                byte_size->0,
                policy,
            ) && !suppressed(status_code->0, byte_size->0, baseline),
            Mode::Fuzz => status_code is Some && byte_size is Some && fuzz_rule(
                status_code->0,
                byte_size->0,
                body_text(extra_text),
                policy,
            ) && !suppressed(status_code->0, byte_size->0, baseline),
            Mode::Vhost => status_code is Some && byte_size is Some && vhost_rule(
                status_code->0,
                byte_size->0,
                policy,
            ) && !suppressed(status_code->0, byte_size->0, baseline),
            Mode::Dns => resolved_addresses is Some && dns_rule(resolved_addresses->0@, baseline),
            Mode::Bucket => status_code is Some && bucket_rule(status_code->0),
            Mode::Tftp => status_code is Some && byte_size is Some && tftp_rule(
                status_code->0,
                byte_size->0,
            ),
        },
    }
}

/// Whether `x` is among the status codes `v`.
pub fn contains_code(v: &Vec<u16>, x: u16) -> (b: bool)
    ensures
        b == v@.contains(x),
{
    let mut i: usize = 0;
    while i < v.len()
        invariant
            i <= v@.len(),
            forall|j: int| 0 <= j < i ==> v@[j] != x,
        decreases v@.len() - i,
    {
        if v[i] == x {
            return true;
        }
        i += 1;
    }
    false
}

/// Whether `x` is among the sizes `v`.
pub fn contains_size(v: &Vec<usize>, x: usize) -> (b: bool)
    ensures
        b == v@.contains(x),
{
    let mut i: usize = 0;
    while i < v.len()
        invariant
            i <= v@.len(),
            forall|j: int| 0 <= j < i ==> v@[j] != x,
        decreases v@.len() - i,
    {
        if v[i] == x {
            return true;
        }
        i += 1;
    }
    false
}

/// Whether `x` is among the addresses `v`.
pub fn contains_address(v: &Vec<IpAddress>, x: IpAddress) -> (b: bool)
    ensures
        b == v@.contains(x),
{
    let mut i: usize = 0;
    while i < v.len()
        invariant
            i <= v@.len(),
            forall|j: int| 0 <= j < i ==> v@[j] != x,
        decreases v@.len() - i,
    {
        if v[i] == x {
            return true;
        }
        i += 1;
    }
    false
}

/// Whether the pair of `status` and `size` is among `v`.
pub fn contains_pair(v: &Vec<(u16, usize)>, status: u16, size: usize) -> (b: bool)
    ensures
        b == v@.contains((status, size)),
{
    let mut i: usize = 0;
    while i < v.len()
        invariant
            i <= v@.len(),
            forall|j: int| 0 <= j < i ==> v@[j] != (status, size),
        decreases v@.len() - i,
    {
        if v[i].0 == status && v[i].1 == size {
            return true;
        }
        i += 1;
    }
    false
}

/// Whether every address of `addresses` is among `noise`.
pub fn all_within(addresses: &Vec<IpAddress>, noise: &Vec<IpAddress>) -> (b: bool)
    ensures
        b == within(addresses@, noise@),
{
    let mut i: usize = 0;
    while i < addresses.len()
        invariant
            i <= addresses@.len(),
            forall|j: int| 0 <= j < i ==> noise@.contains(#[trigger] addresses@[j]),
        decreases addresses@.len() - i,
    {
        if !contains_address(noise, addresses[i]) {
            return false;
        }
        i += 1;
    }
    true
}

/// Whether a response of `status` and `size` equals a recorded catch-all
/// response.
pub fn is_suppressed(status: u16, size: usize, baseline: &Option<BaselineSignature>) -> (b: bool)
    ensures
        b == suppressed(status, size, *baseline),
{
    match baseline {
        Some(BaselineSignature::Http(pairs)) => contains_pair(pairs, status, size),
        _ => false,
    }
}

/// Whether the body `extra_text` is free of the policy's filter text.
fn body_allowed(extra_text: &Option<String>, policy: &FilterPolicy) -> (b: bool)
    ensures
        b == match policy.deny_substring {
            Some(text) => !contains(body_text(*extra_text), text@),
            None => true,
        },
{
    match &policy.deny_substring {
        None => true,
        Some(text) => {
            let needle = chars_of(text.as_str());
            let hay = match extra_text {
                Some(body) => chars_of(body.as_str()),
                None => Vec::new(),
            };
            find(&hay, &needle).is_none()
        },
    }
}

/// The result filter: whether `outcome` is a match to report.
pub fn includes(
    mode: Mode,
    outcome: &ProbeOutcome,
    policy: &FilterPolicy,
    baseline: &Option<BaselineSignature>,
) -> (b: bool)
    ensures
        b == passes(mode, *outcome, *policy, *baseline),
{
    match outcome {
        ProbeOutcome::Failure { .. } => false,
        ProbeOutcome::Success {
            status_code,
            byte_size,
            resolved_addresses,
            redirect_target,
            extra_text,
        } => match mode {
            Mode::Dns => match resolved_addresses {
                None => false,
                Some(addresses) => match baseline {
                    Some(BaselineSignature::Dns(noise)) => !all_within(addresses, noise),
                    _ => true,
                },
            },
            _ => match (status_code, byte_size) {
                (Some(status), Some(size)) => {
                    let status: u16 = *status;
                    let size: usize = *size;
                    match mode {
                        Mode::Dir => contains_code(&policy.allow_status, status) && !contains_code(
                            &policy.deny_status,
                            status,
                        ) && !contains_size(&policy.deny_sizes, size) && !is_suppressed(
                            status,
                            size,
                            baseline,
                        ),
                        Mode::Fuzz => !contains_code(&policy.deny_status, status) && !contains_size(
                            &policy.deny_sizes,
                            size,
                        ) && body_allowed(extra_text, policy) && !is_suppressed(
                            status,
                            size,
                            baseline,
                        ),
                        Mode::Vhost => !(match policy.baseline_size {
                            Some(b) => b == size,
                            None => false,
                        }) && !contains_size(&policy.deny_sizes, size) && status != 400
                            && !is_suppressed(status, size, baseline),
                        Mode::Bucket => status == 200 || status == 403,
                        Mode::Tftp => size >= 4 && (status == 3 || status == 6),
                        Mode::Dns => false,
                    }
                },
                (Some(status), None) => match mode {
                    Mode::Bucket => *status == 200 || *status == 403,
                    _ => false,
                },
                _ => false,
            },
        },
    }
}

/// The filter is a function of its arguments: equal outcome, policy and
/// baseline give the same decision.
pub proof fn lemma_filter_is_pure(
    mode: Mode,
    first: ProbeOutcome,
    second: ProbeOutcome,
    policy: FilterPolicy,
    baseline: Option<BaselineSignature>,
)
    requires
        first == second,
    ensures
        passes(mode, first, policy, baseline) == passes(mode, second, policy, baseline),
{
}

/// A recorded catch-all response never lets through an outcome that the
/// filter rejects without it.
pub proof fn lemma_baseline_only_suppresses(
    mode: Mode,
    outcome: ProbeOutcome,
    policy: FilterPolicy,
    baseline: Option<BaselineSignature>,
)
    ensures
        passes(mode, outcome, policy, baseline) ==> passes(mode, outcome, policy, None),
{
}

} // verus!
