//! What a probe reports, and the noise signature of a target.

use vstd::prelude::*;
use vstd::utf8::encode_utf8;

verus! {

/// The modes of enumeration.
#[derive(Clone, Copy, Debug, PartialEq, Eq, Structural)]
pub enum Mode {
    /// Paths below a base URL
    Dir,
    /// Subdomains of a domain
    Dns,
    /// Host header values against one URL
    Vhost,
    /// Payloads put in place of a keyword
    Fuzz,
    /// Object-storage bucket names
    Bucket,
    /// File names on a TFTP server
    Tftp,
}

/// An IP address as a number: 32 bits for version 4, 128 for version 6.
#[derive(Clone, Copy, Debug, PartialEq, Eq, Structural)]
pub enum IpAddress {
    V4(u32),
    V6(u128),
}

/// The normalized outcome of one probe. Which fields of a success are
/// present depends on the mode; an absent field means "not applicable".
#[derive(Clone, Debug)]
pub enum ProbeOutcome {
    Success {
        /// HTTP status, or the opcode of a TFTP reply
        status_code: Option<u16>,
        /// Length of the body or datagram in bytes
        byte_size: Option<usize>,
        /// Addresses that a name resolved to
        resolved_addresses: Option<Vec<IpAddress>>,
        /// Where a redirect points
        redirect_target: Option<String>,
        /// Response body, where the mode reads it
        extra_text: Option<String>,
    },
    Failure { reason: String },
}

/// The responses of a target to candidates that cannot exist. Matches that
/// equal the signature are noise.
#[derive(Clone, Debug)]
pub enum BaselineSignature {
    /// Status and size of each catch-all response
    Http(Vec<(u16, usize)>),
    /// Addresses that every name resolves to
    Dns(Vec<IpAddress>),
}

impl ProbeOutcome {
    /// A success with no field present.
    pub fn empty() -> (o: ProbeOutcome)
        ensures
            o == (ProbeOutcome::Success {
                status_code: None,
                byte_size: None,
                resolved_addresses: None,
                redirect_target: None,
                extra_text: None,
            }),
    {
        ProbeOutcome::Success {
            status_code: None,
            byte_size: None,
            resolved_addresses: None,
            redirect_target: None,
            extra_text: None,
        }
    }

    /// An HTTP response of which only status and size were read.
    pub fn http(status: u16, size: usize, redirect: Option<String>) -> (o: ProbeOutcome)
        ensures
            o == (ProbeOutcome::Success {
                status_code: Some(status),
                byte_size: Some(size),
                resolved_addresses: None,
                redirect_target: redirect,
                extra_text: None,
            }),
    {
        ProbeOutcome::Success {
            status_code: Some(status),
            byte_size: Some(size),
            resolved_addresses: None,
            redirect_target: redirect,
            extra_text: None,
        }
    }

    /// An HTTP response with its body; the size is the length of the body's
    /// UTF-8 encoding in bytes.
    pub fn http_body(status: u16, body: String) -> (o: ProbeOutcome)
        ensures
            o == (ProbeOutcome::Success {
                status_code: Some(status),
                byte_size: Some(encode_utf8(body@).len() as usize),
                resolved_addresses: None,
                redirect_target: None,
                extra_text: Some(body),
            }),
    {
        let size = body.as_str().len();
        ProbeOutcome::Success {
            status_code: Some(status),
            byte_size: Some(size),
            resolved_addresses: None,
            redirect_target: None,
            extra_text: Some(body),
        }
    }

    /// The addresses that a name resolved to.
    pub fn resolved(addresses: Vec<IpAddress>) -> (o: ProbeOutcome)
        ensures
            o == (ProbeOutcome::Success {
                status_code: None,
                byte_size: None,
                resolved_addresses: Some(addresses),
                redirect_target: None,
                extra_text: None,
            }),
    {
        ProbeOutcome::Success {
            status_code: None,
            byte_size: None,
            resolved_addresses: Some(addresses),
            redirect_target: None,
            extra_text: None,
        }
    }

    /// A probe that failed, with the reason.
    pub fn failure(reason: String) -> (o: ProbeOutcome)
        ensures
            o == (ProbeOutcome::Failure { reason }),
    {
        ProbeOutcome::Failure { reason }
    }
}

} // verus!
