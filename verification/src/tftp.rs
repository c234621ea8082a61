//! TFTP probes: the read request that is sent, and what the first reply
//! says about the file.

use crate::outcome::ProbeOutcome;
use crate::search::str_contains_char;
use crate::text::concat2;
use vstd::prelude::*;
use vstd::slice::slice_to_vec;
use vstd::string::StringSliceAdditionalSpecFns;

verus! {

/// Opcode of a read request.
pub const TFTP_RRQ: u16 = 1;

/// Opcode of a data packet.
pub const TFTP_DATA: u8 = 3;

/// Opcode of an error packet.
pub const TFTP_ERROR: u8 = 5;

/// Opcode of an option acknowledgement.
pub const TFTP_OACK: u8 = 6;

/// The port of a TFTP server that names none.
pub const TFTP_PORT: u16 = 69;

/// The bytes of `octet`, the transfer mode.
pub open spec fn mode_octet() -> Seq<u8> {
    seq![111u8, 99u8, 116u8, 101u8, 116u8]
}

/// The bytes of `blksize`, the one option sent.
pub open spec fn option_blksize() -> Seq<u8> {
    seq![98u8, 108u8, 107u8, 115u8, 105u8, 122u8, 101u8]
}

/// The bytes of `512`, the block size asked for.
pub open spec fn value_512() -> Seq<u8> {
    seq![53u8, 49u8, 50u8]
}

/// The read request for a file: the opcode in two bytes, big end first,
/// then file name, transfer mode, option name and option value, each
/// closed by a zero byte.
pub open spec fn read_request(filename: Seq<u8>) -> Seq<u8> {
    seq![0u8, 1u8] + filename + seq![0u8] + mode_octet() + seq![0u8] + option_blksize() + seq![0u8]
        + value_512() + seq![0u8]
}

/// The datagram that asks a TFTP server for the file `filename`.
pub fn build_read_request(filename: &str) -> (packet: Vec<u8>)
    ensures
        packet@ == read_request(filename.spec_bytes()),
{
    let mut packet: Vec<u8> = Vec::new();
    packet.push((TFTP_RRQ >> 8) as u8);
    packet.push((TFTP_RRQ & 0xff) as u8);
    assert(TFTP_RRQ >> 8 == 0 && TFTP_RRQ & 0xff == 1) by (bit_vector)
        requires
            TFTP_RRQ == 1,
    ;
    let name = slice_to_vec(filename.as_bytes());
    let mut i: usize = 0;
    while i < name.len()
        invariant
            i <= name@.len(),
            packet@ == seq![0u8, 1u8] + name@.subrange(0, i as int),
        decreases name@.len() - i,
    {
        packet.push(name[i]);
        i += 1;
    }
    assert(name@.subrange(0, name@.len() as int) == name@);
    packet.push(0);
    let octet: [u8; 5] = [111, 99, 116, 101, 116];
    for k in 0..5
        invariant
            octet@ == mode_octet(),
            packet@ == seq![0u8, 1u8] + name@ + seq![0u8] + mode_octet().subrange(0, k as int),
    {
        packet.push(octet[k]);
    }
    assert(mode_octet().subrange(0, 5) == mode_octet());
    packet.push(0);
    let ghost head = seq![0u8, 1u8] + name@ + seq![0u8] + mode_octet() + seq![0u8];
    let blksize: [u8; 7] = [98, 108, 107, 115, 105, 122, 101];
    for k in 0..7
        invariant
            blksize@ == option_blksize(),
            packet@ == head + option_blksize().subrange(0, k as int),
    {
        packet.push(blksize[k]);
    }
    assert(option_blksize().subrange(0, 7) == option_blksize());
    packet.push(0);
    let ghost head2 = head + option_blksize() + seq![0u8];
    let size: [u8; 3] = [53, 49, 50];
    for k in 0..3
        invariant
            size@ == value_512(),
            packet@ == head2 + value_512().subrange(0, k as int),
    {
        packet.push(size[k]);
    }
    assert(value_512().subrange(0, 3) == value_512());
    packet.push(0);
    packet
}

/// The address of a TFTP server: `server` itself if it names a port, else
/// `server` with the TFTP port.
pub open spec fn server_address_model(server: Seq<char>) -> Seq<char> {
    if server.contains(':') {
        server
    } else {
        server + ":69"@
    }
}

/// The address of a TFTP server, with the TFTP port where `server` names
/// none.
pub fn server_address(server: &str) -> (address: String)
    ensures
        address@ == server_address_model(server@),
{
    if str_contains_char(server, ':') {
        server.to_owned()
    } else {
        concat2(server, ":69")
    }
}

/// The step of a probe at which the socket failed.
#[derive(Clone, Copy, Debug, PartialEq, Eq, Structural)]
pub enum TftpStage {
    Bind,
    SetTimeout,
    Send,
    Receive,
}

/// What came back from the server, or did not.
#[derive(Clone, Debug)]
pub enum TftpReply {
    /// The first datagram received
    Datagram(Vec<u8>),
    /// No datagram within the timeout
    TimedOut,
    /// The socket failed at `stage`
    Failed { stage: TftpStage, detail: String },
}

/// The message of a socket failure.
pub open spec fn failure_reason(stage: TftpStage, detail: Seq<char>) -> Seq<char> {
    match stage {
        TftpStage::Bind => "Failed to bind socket: "@ + detail,
        TftpStage::SetTimeout => "Failed to set timeout: "@ + detail,
        TftpStage::Send => "Failed to send request: "@ + detail,
        TftpStage::Receive => "Failed to receive response: "@ + detail,
    }
}

/// Whether a datagram says that the file exists: at least four bytes, and
/// the opcode in its second byte is DATA or OACK.
pub open spec fn datagram_confirms(bytes: Seq<u8>) -> bool {
    bytes.len() >= 4 && (bytes[1] == TFTP_DATA || bytes[1] == TFTP_OACK)
}

/// What a reply says about the file: `Ok(true)` if it exists, `Ok(false)`
/// if it is absent, an error if the socket failed. An error packet, any
/// other or shorter datagram, and silence until the timeout all mean
/// absent.
pub open spec fn reply_verdict(reply: TftpReply) -> Result<bool, Seq<char>> {
    match reply {
        TftpReply::Datagram(bytes) => Ok(datagram_confirms(bytes@)),
        TftpReply::TimedOut => Ok(false),
        TftpReply::Failed { stage, detail } => Err(failure_reason(stage, detail@)),
    }
}

/// Classifies the reply to a read request.
pub fn check_tftp_file(reply: &TftpReply) -> (r: Result<bool, String>)
    ensures
        match reply_verdict(*reply) {
            Ok(exists) => r == Ok::<bool, String>(exists),
            Err(reason) => r matches Err(text) && text@ == reason,
        },
{
    match reply {
        TftpReply::Datagram(bytes) => {
            if bytes.len() >= 4 {
                let opcode = bytes[1];
                Ok(opcode == TFTP_DATA || opcode == TFTP_OACK)
            } else {
                Ok(false)
            }
        },
        TftpReply::TimedOut => Ok(false),
        TftpReply::Failed { stage, detail } => {
            let text = match stage {
                TftpStage::Bind => concat2("Failed to bind socket: ", detail.as_str()),
                TftpStage::SetTimeout => concat2("Failed to set timeout: ", detail.as_str()),
                TftpStage::Send => concat2("Failed to send request: ", detail.as_str()),
                TftpStage::Receive => concat2("Failed to receive response: ", detail.as_str()),
            };
            Err(text)
        },
    }
}

/// The outcome of a probe as the engine counts it: a datagram is a success
/// with its length and, from two bytes on, its opcode; silence is a
/// success without any field, so that it counts as absent and not as an
/// error; a socket failure is a failure.
pub fn outcome_of_reply(reply: &TftpReply) -> (o: ProbeOutcome)
    ensures
        match *reply {
            TftpReply::Datagram(bytes) => o == (ProbeOutcome::Success {
                status_code: if bytes@.len() >= 2 {
                    Some(bytes@[1] as u16)
                } else {
                    None
                },
                byte_size: Some(bytes@.len() as usize),
                resolved_addresses: None,
                redirect_target: None,
                extra_text: None,
            }),
            TftpReply::TimedOut => o == (ProbeOutcome::Success {
                status_code: None,
                byte_size: None,
                resolved_addresses: None,
                redirect_target: None,
                extra_text: None,
            }),
            TftpReply::Failed { stage, detail } => o matches ProbeOutcome::Failure { reason }
                && reason@ == failure_reason(stage, detail@),
        },
{
    match reply {
        TftpReply::Datagram(bytes) => ProbeOutcome::Success {
            status_code: if bytes.len() >= 2 {
                Some(bytes[1] as u16)
            } else {
                None
            },
            byte_size: Some(bytes.len()),
            resolved_addresses: None,
            redirect_target: None,
            extra_text: None,
        },
        TftpReply::TimedOut => ProbeOutcome::empty(),
        TftpReply::Failed { .. } => match check_tftp_file(reply) {
            Err(reason) => ProbeOutcome::Failure { reason },
            Ok(_) => ProbeOutcome::empty(),
        },
    }
}

} // verus!
