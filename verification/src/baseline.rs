//! The wildcard detector: what the probes of synthetic candidates say about
//! a target's noise, and whether the run may go on.

use crate::filter::{includes, passes, within, FilterPolicy};
use crate::outcome::{BaselineSignature, IpAddress, Mode, ProbeOutcome};
use vstd::prelude::*;

verus! {

/// Status and size of each outcome among `outcomes` that the filter of
/// `mode` would report, in order.
pub open spec fn http_noise(mode: Mode, outcomes: Seq<ProbeOutcome>, policy: FilterPolicy) -> Seq<
    (u16, usize),
>
    decreases outcomes.len(),
{
    if outcomes.len() == 0 {
        Seq::empty()
    } else {
        let head = http_noise(mode, outcomes.drop_last(), policy);
        match outcomes.last() {
            ProbeOutcome::Success { status_code: Some(status), byte_size: Some(size), .. } => if passes(
                mode,
                outcomes.last(),
                policy,
                None,
            ) {
                head.push((status, size))
            } else {
                head
            },
            _ => head,
        }
    }
}

/// The addresses that the synthetic names among `outcomes` resolved to, in
/// order.
pub open spec fn dns_noise(outcomes: Seq<ProbeOutcome>) -> Seq<IpAddress>
    decreases outcomes.len(),
{
    if outcomes.len() == 0 {
        Seq::empty()
    } else {
        let head = dns_noise(outcomes.drop_last());
        match outcomes.last() {
            ProbeOutcome::Success { resolved_addresses: Some(addresses), .. } => head + addresses@,
            _ => head,
        }
    }
}

/// Whether `signature` is what the outcomes of the synthetic probes give:
/// in DNS mode the addresses they resolved to, in the HTTP modes status
/// and size of those that the filter would report, and nothing where there
/// are none or the mode has no catch-all responses.
pub open spec fn is_signature_of(
    signature: Option<BaselineSignature>,
    mode: Mode,
    outcomes: Seq<ProbeOutcome>,
    policy: FilterPolicy,
) -> bool {
    match mode {
        Mode::Dns => match signature {
            Some(BaselineSignature::Dns(noise)) => noise@.len() > 0 && noise@ == dns_noise(outcomes),
            Some(_) => false,
            None => dns_noise(outcomes).len() == 0,
        },
        Mode::Dir | Mode::Vhost | Mode::Fuzz => match signature {
            Some(BaselineSignature::Http(pairs)) => pairs@.len() > 0 && pairs@ == http_noise(
                mode,
                outcomes,
                policy,
            ),
            Some(_) => false,
            None => http_noise(mode, outcomes, policy).len() == 0,
        },
        Mode::Bucket | Mode::Tftp => signature is None,
    }
}

/// How a run starts once the synthetic candidates were probed.
#[derive(Clone, Debug)]
pub enum Preflight {
    /// No catch-all response: every match is reported
    Clean,
    /// Catch-all responses, and the operator forces the run: matches that
    /// equal the signature are suppressed
    Suppress(BaselineSignature),
    /// Catch-all responses: the run ends before any real candidate
    Stop(BaselineSignature),
}

/// Records the noise signature of a target from the outcomes of the
/// synthetic probes.
pub fn capture(mode: Mode, outcomes: &Vec<ProbeOutcome>, policy: &FilterPolicy) -> (signature: Option<
    BaselineSignature,
>)
    ensures
        is_signature_of(signature, mode, outcomes@, *policy),
{
    match mode {
        Mode::Bucket | Mode::Tftp => None,
        Mode::Dns => {
            let mut noise: Vec<IpAddress> = Vec::new();
            let mut i: usize = 0;
            proof {
                assert(outcomes@.subrange(0, 0) == Seq::<ProbeOutcome>::empty());
            }
            while i < outcomes.len()
                invariant
                    i <= outcomes@.len(),
                    noise@ == dns_noise(outcomes@.subrange(0, i as int)),
                decreases outcomes@.len() - i,
            {
                proof {
                    let next = outcomes@.subrange(0, i + 1);
                    assert(next.drop_last() == outcomes@.subrange(0, i as int));
                    assert(next.last() == outcomes@[i as int]);
                }
                match &outcomes[i] {
                    ProbeOutcome::Success { resolved_addresses: Some(addresses), .. } => {
                        let ghost before = noise@;
                        let mut k: usize = 0;
                        while k < addresses.len()
                            invariant
                                k <= addresses@.len(),
                                noise@ == before + addresses@.subrange(0, k as int),
                            decreases addresses@.len() - k,
                        {
                            noise.push(addresses[k]);
                            k += 1;
                        }
                        proof {
                            assert(addresses@.subrange(0, addresses@.len() as int) == addresses@);
                        }
                    },
                    _ => {},
                }
                i += 1;
            }
            proof {
                assert(outcomes@.subrange(0, outcomes@.len() as int) == outcomes@);
            }
            if noise.len() == 0 {
                None
            } else {
                Some(BaselineSignature::Dns(noise))
            }
        },
        Mode::Dir | Mode::Vhost | Mode::Fuzz => {
            let mut pairs: Vec<(u16, usize)> = Vec::new();
            let mut i: usize = 0;
            let unfiltered: Option<BaselineSignature> = None;
            proof {
                assert(outcomes@.subrange(0, 0) == Seq::<ProbeOutcome>::empty());
            }
            while i < outcomes.len()
                invariant
                    i <= outcomes@.len(),
                    unfiltered is None,
                    pairs@ == http_noise(mode, outcomes@.subrange(0, i as int), *policy),
                decreases outcomes@.len() - i,
            {
                proof {
                    let next = outcomes@.subrange(0, i + 1);
                    assert(next.drop_last() == outcomes@.subrange(0, i as int));
                    assert(next.last() == outcomes@[i as int]);
                }
                match &outcomes[i] {
                    ProbeOutcome::Success { status_code: Some(status), byte_size: Some(size), .. } => {
                        if includes(mode, &outcomes[i], policy, &unfiltered) {
                            pairs.push((*status, *size));
                        }
                    },
                    _ => {},
                }
                i += 1;
            }
            proof {
                assert(outcomes@.subrange(0, outcomes@.len() as int) == outcomes@);
            }
            if pairs.len() == 0 {
                None
            } else {
                Some(BaselineSignature::Http(pairs))
            }
        },
    }
}

/// Decides how the run starts: without a signature it is clean; with one
/// it stops, unless the operator forces it, and then it suppresses.
pub fn preflight(signature: Option<BaselineSignature>, force: bool) -> (start: Preflight)
    ensures
        match signature {
            None => start is Clean,
            Some(noise) => if force {
                start == Preflight::Suppress(noise)
            } else {
                start == Preflight::Stop(noise)
            },
        },
{
    match signature {
        None => Preflight::Clean,
        Some(noise) => if force {
            Preflight::Suppress(noise)
        } else {
            Preflight::Stop(noise)
        },
    }
}

/// The baseline under which the real candidates are judged, if the run
/// goes on at all.
pub open spec fn baseline_of(start: Preflight) -> Option<BaselineSignature> {
    match start {
        Preflight::Suppress(noise) => Some(noise),
        _ => None,
    }
}

/// Every address of a synthetic outcome is part of the recorded noise.
proof fn lemma_dns_noise_covers(outcomes: Seq<ProbeOutcome>, i: int)
    requires
        0 <= i < outcomes.len(),
    ensures
        outcomes[i] matches ProbeOutcome::Success { resolved_addresses: Some(addresses), .. }
            ==> within(addresses@, dns_noise(outcomes)),
    decreases outcomes.len(),
{
    let head = dns_noise(outcomes.drop_last());
    if i == outcomes.len() - 1 {
        if let ProbeOutcome::Success { resolved_addresses: Some(addresses), .. } = outcomes[i] {
            let all = dns_noise(outcomes);
            assert(all == head + addresses@);
            assert forall|k: int| 0 <= k < addresses@.len() implies all.contains(
                #[trigger] addresses@[k],
            ) by {
                assert(all[head.len() + k] == addresses@[k]);
            }
        }
    } else {
        lemma_dns_noise_covers(outcomes.drop_last(), i);
        assert(outcomes.drop_last()[i] == outcomes[i]);
        if let ProbeOutcome::Success { resolved_addresses: Some(addresses), .. } = outcomes[i] {
            let all = dns_noise(outcomes);
            assert forall|k: int| 0 <= k < addresses@.len() implies all.contains(
                #[trigger] addresses@[k],
            ) by {
                let a = addresses@[k];
                assert(head.contains(a));
                let w = choose|w: int| 0 <= w < head.len() && head[w] == a;
                assert(all[w] == a);
            }
        }
    }
}

/// Status and size of a synthetic outcome that the filter would report
/// are part of the recorded noise.
proof fn lemma_http_noise_covers(
    mode: Mode,
    outcomes: Seq<ProbeOutcome>,
    policy: FilterPolicy,
    i: int,
)
    requires
        0 <= i < outcomes.len(),
        passes(mode, outcomes[i], policy, None),
        mode == Mode::Dir || mode == Mode::Vhost || mode == Mode::Fuzz,
    ensures
        outcomes[i] matches ProbeOutcome::Success {
            status_code: Some(status),
            byte_size: Some(size),
            ..
        } && http_noise(mode, outcomes, policy).contains((status, size)),
    decreases outcomes.len(),
{
    let head = http_noise(mode, outcomes.drop_last(), policy);
    let all = http_noise(mode, outcomes, policy);
    if i == outcomes.len() - 1 {
        assert(all.last() == (outcomes[i]->status_code->0, outcomes[i]->byte_size->0));
    } else {
        assert(outcomes.drop_last()[i] == outcomes[i]);
        lemma_http_noise_covers(mode, outcomes.drop_last(), policy, i);
        let pair = (outcomes[i]->status_code->0, outcomes[i]->byte_size->0);
        let w = choose|w: int| 0 <= w < head.len() && head[w] == pair;
        assert(all[w] == pair);
    }
}

/// Once a signature is captured, probing any of the synthetic candidates
/// again with the same outcome is no match: the filter rejects every
/// outcome that the signature was recorded from.
pub proof fn lemma_captured_noise_is_filtered(
    mode: Mode,
    outcomes: Seq<ProbeOutcome>,
    policy: FilterPolicy,
    signature: BaselineSignature,
    i: int,
)
    requires
        is_signature_of(Some(signature), mode, outcomes, policy),
        0 <= i < outcomes.len(),
    ensures
        !passes(mode, outcomes[i], policy, Some(signature)),
{
    match mode {
        Mode::Dns => {
            lemma_dns_noise_covers(outcomes, i);
        },
        Mode::Dir | Mode::Vhost | Mode::Fuzz => {
            if passes(mode, outcomes[i], policy, None) {
                lemma_http_noise_covers(mode, outcomes, policy, i);
            }
        },
        _ => {},
    }
}

} // verus!
