//! DNS lookups as values: the resolver that is asked, what the records of
//! a name amount to, and the name of the synthetic candidate.

use crate::candidate::{base_domain, below};
use crate::error::RbusterError;
use crate::outcome::{IpAddress, ProbeOutcome};
use crate::search::{str_contains_char, strip_leading_len};
use crate::text::{append_chars, append_str, chars_of, concat2, string_of};
use vstd::prelude::*;

verus! {

/// The port of a resolver that names none.
pub const DNS_PORT: u16 = 53;

/// How the resolver is reached.
#[derive(Clone, Debug)]
pub struct DnsConfig {
    /// The resolver to ask, `IP` or `IP:port`; the system's where absent
    pub resolver: Option<String>,
    /// Time allowed for one lookup, in seconds
    pub timeout: u64,
}

impl Default for DnsConfig {
    fn default() -> (config: DnsConfig)
        ensures
            config.resolver is None,
            config.timeout == 5,
    {
        DnsConfig { resolver: None, timeout: 5 }
    }
}

/// The records of a name.
#[derive(Clone, Debug)]
pub struct DnsResult {
    pub subdomain: String,
    pub ips: Vec<IpAddress>,
    pub cnames: Vec<String>,
}

/// How a configured resolver address is to be read.
#[derive(Clone, Debug)]
pub enum ResolverTarget {
    /// An address with its port, `IP:port`
    Socket(String),
    /// An address without a port, asked at the DNS port
    Host { ip: String, port: u16 },
}

/// Decides how the resolver address `addr` is read: as `IP:port` if it
/// holds a colon, else as an address for the DNS port.
pub fn parse_resolver_address(addr: &str) -> (target: ResolverTarget)
    ensures
        match target {
            ResolverTarget::Socket(text) => addr@.contains(':') && text@ == addr@,
            ResolverTarget::Host { ip, port } => !addr@.contains(':') && ip@ == addr@ && port
                == DNS_PORT,
        },
{
    if str_contains_char(addr, ':') {
        ResolverTarget::Socket(addr.to_owned())
    } else {
        ResolverTarget::Host { ip: addr.to_owned(), port: DNS_PORT }
    }
}

/// The message for a resolver address that cannot be read.
pub open spec fn resolver_error(addr: Seq<char>, detail: Seq<char>) -> Seq<char> {
    if addr.contains(':') {
        "Invalid resolver address '"@ + addr + "': "@ + detail
    } else {
        "Invalid resolver IP '"@ + addr + "': "@ + detail
    }
}

/// The error for the resolver address `addr` that could not be read, with
/// the parser's words in `detail`.
pub fn invalid_resolver(addr: &str, detail: &str) -> (e: RbusterError)
    ensures
        e matches RbusterError::DnsError(text) && text@ == resolver_error(addr@, detail@),
{
    let mut v = if str_contains_char(addr, ':') {
        chars_of("Invalid resolver address '")
    } else {
        chars_of("Invalid resolver IP '")
    };
    append_str(&mut v, addr);
    append_str(&mut v, "': ");
    append_str(&mut v, detail);
    RbusterError::DnsError(string_of(&v))
}

/// What the records found for `domain` amount to: a result if there is an
/// address or a canonical name, and an error if there is neither.
pub fn resolve(domain: &str, ips: Vec<IpAddress>, cnames: Vec<String>) -> (r: Result<
    DnsResult,
    RbusterError,
>)
    ensures
        r is Err <==> ips@.len() == 0 && cnames@.len() == 0,
        r matches Ok(found) ==> found.subdomain@ == domain@ && found.ips == ips && found.cnames
            == cnames,
        r matches Err(e) ==> e matches RbusterError::DnsError(text) && text@
            == "No records found for "@ + domain@,
{
    if ips.len() == 0 && cnames.len() == 0 {
        Err(RbusterError::DnsError(concat2("No records found for ", domain)))
    } else {
        Ok(DnsResult { subdomain: domain.to_owned(), ips, cnames })
    }
}

/// The outcome of a lookup as the engine counts it: the addresses of a
/// result, or the failure with its message.
pub fn outcome_of_lookup(lookup: &Result<DnsResult, RbusterError>) -> (o: ProbeOutcome)
    ensures
        match *lookup {
            Ok(found) => o matches ProbeOutcome::Success {
                status_code: None,
                byte_size: None,
                resolved_addresses: Some(addresses),
                redirect_target: None,
                extra_text: None,
            } && addresses@ == found.ips@,
            Err(e) => o matches ProbeOutcome::Failure { reason } && reason@ == e.message_model(),
        },
{
    match lookup {
        Ok(found) => {
            let mut addresses: Vec<IpAddress> = Vec::new();
            let mut i: usize = 0;
            while i < found.ips.len()
                invariant
                    i <= found.ips@.len(),
                    addresses@ == found.ips@.subrange(0, i as int),
                decreases found.ips@.len() - i,
            {
                addresses.push(found.ips[i]);
                i += 1;
            }
            proof {
                assert(found.ips@.subrange(0, found.ips@.len() as int) == found.ips@);
            }
            ProbeOutcome::resolved(addresses)
        },
        Err(e) => ProbeOutcome::Failure { reason: e.message() },
    }
}

/// The label of the synthetic candidates.
pub open spec fn wildcard_label(token: Seq<char>) -> Seq<char> {
    "rbuster-wildcard-test-"@ + token
}

/// The name that is looked up to detect a wildcard domain: a label that
/// no zone should hold, below the base domain.
pub fn wildcard_name(token: &str, domain: &str) -> (name: String)
    ensures
        name@ == below(wildcard_label(token@), base_domain(domain@)),
{
    let full = chars_of(domain);
    let skip = strip_leading_len(&full, '.');
    let base = crate::list::slice_chars(&full, skip, full.len());
    let mut v = chars_of("rbuster-wildcard-test-");
    append_str(&mut v, token);
    v.push('.');
    append_chars(&mut v, &base);
    string_of(&v)
}

/// The URL that is requested to detect a catch-all directory: a path that
/// no site should hold, below the base URL.
pub fn wildcard_url(token: &str, url: &str) -> (probe: String)
    ensures
        probe@ == crate::candidate::base_url(url@) + "/"@ + wildcard_label(token@),
{
    let mut v = crate::candidate::base_url_chars(url);
    append_str(&mut v, "/");
    append_str(&mut v, "rbuster-wildcard-test-");
    append_str(&mut v, token);
    proof {
        let b = crate::candidate::base_url(url@);
        assert(b + "/"@ + "rbuster-wildcard-test-"@ + token@ =~= b + "/"@ + wildcard_label(token@));
    }
    string_of(&v)
}

} // verus!
