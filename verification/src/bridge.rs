use vstd::prelude::*;

use crate::apdu::{parse_response, status_word, STATUS_SUCCESS};
use crate::codec::{HidMessage, BROADCAST_CID, CMD_ERROR, CMD_INIT, CMD_MSG};

verus! {

/// The closed set of conditions the contactless reader can report.
#[derive(Clone, Copy, Debug, PartialEq, Eq, Structural)]
pub enum Error {
    ContextInitializationFailed,
    DeviceInitializationFailed,
    IoError,
    InvalidArgument,
    NotSupported,
    NoSuchDevice,
    BufferOverflow,
    TimedOut,
    Aborted,
    NotImplemented,
    TargetReleased,
    RfTransmissionError,
    MifareAuthenticationFailed,
    SoftwareError,
    DeviceChipError,
}

/// The reader condition a native status code stands for, or nothing for a
/// code outside the closed set.
pub open spec fn error_code_spec(code: int) -> Option<Error> {
    if code == -1 {
        Some(Error::IoError)
    } else if code == -2 {
        Some(Error::InvalidArgument)
    } else if code == -3 {
        Some(Error::NotSupported)
    } else if code == -4 {
        Some(Error::NoSuchDevice)
    } else if code == -5 {
        Some(Error::BufferOverflow)
    } else if code == -6 {
        Some(Error::TimedOut)
    } else if code == -7 {
        Some(Error::Aborted)
    } else if code == -8 {
        Some(Error::NotImplemented)
    } else if code == -10 {
        Some(Error::TargetReleased)
    } else if code == -20 {
        Some(Error::RfTransmissionError)
    } else if code == -30 {
        Some(Error::MifareAuthenticationFailed)
    } else if code == -80 {
        Some(Error::SoftwareError)
    } else if code == -90 {
        Some(Error::DeviceChipError)
    } else {
        None
    }
}

/// Map a native reader status code to its condition; a code outside the
/// closed set yields `None` and is an internal-contract violation the
/// caller must treat as fatal.
pub fn error_from_code(code: i32) -> (r: Option<Error>)
    ensures
        r == error_code_spec(code as int),
{
    match code {
        -1 => Some(Error::IoError),
        -2 => Some(Error::InvalidArgument),
        -3 => Some(Error::NotSupported),
        -4 => Some(Error::NoSuchDevice),
        -5 => Some(Error::BufferOverflow),
        -6 => Some(Error::TimedOut),
        -7 => Some(Error::Aborted),
        -8 => Some(Error::NotImplemented),
        -10 => Some(Error::TargetReleased),
        -20 => Some(Error::RfTransmissionError),
        -30 => Some(Error::MifareAuthenticationFailed),
        -80 => Some(Error::SoftwareError),
        -90 => Some(Error::DeviceChipError),
        _ => None,
    }
}

impl Error {
    /// A diagnostic description of the condition.
    pub fn message(&self) -> &'static str {
        match self {
            Error::ContextInitializationFailed => "Failed to initialize the reader context",
            Error::DeviceInitializationFailed => "Failed to open the reader device",
            Error::IoError => "I/O error",
            Error::InvalidArgument => "Invalid argument",
            Error::NotSupported => "Operation not supported by the reader device",
            Error::NoSuchDevice => "No such device",
            Error::BufferOverflow => "Buffer overflow",
            Error::TimedOut => "Operation timed out",
            Error::Aborted => "Operation aborted by user",
            Error::NotImplemented => "Not implemented",
            Error::TargetReleased => "Target was released",
            Error::RfTransmissionError => "RF transmission error",
            Error::MifareAuthenticationFailed => "MIFARE Classic authentication failed",
            Error::SoftwareError => "Software error",
            Error::DeviceChipError => "Reader device chip error",
        }
    }
}

/// The fixed record appended to the echoed nonce in an INIT reply: an
/// allocated channel id, the protocol version, a device version triplet and
/// a capability flags byte.
pub open spec fn init_capabilities() -> Seq<u8> {
    seq![0xaau8, 0xbb, 0xcc, 0xdd, 0x01, 0x01, 0x00, 0x00, 0x00]
}

/// What the bridge does with one complete host message.
pub enum Action {
    /// Send this reply on the broadcast channel: the INIT handshake is
    /// answered locally.
    InitReply(HidMessage),
    /// Hand the payload to the token as an opaque command and reply with
    /// whatever comes back on the same channel.
    Relay { cid: u32, apdu: Vec<u8> },
    /// The command is not understood: send the fixed one-byte error reply.
    ErrorReply(HidMessage),
}

/// Decide what one complete host message asks of the bridge: the INIT
/// handshake on the broadcast channel is answered with the echoed nonce and
/// the fixed capabilities record, a MSG command is relayed to the token,
/// and anything else draws the one-byte error reply on the error command
/// code.
pub fn dispatch(msg: HidMessage) -> (a: Action)
    requires
        msg.cid == BROADCAST_CID && msg.cmd == CMD_INIT ==> msg.data@.len() >= 8,
    ensures
        match a {
            Action::InitReply(r) => {
                &&& msg.cid == BROADCAST_CID && msg.cmd == CMD_INIT
                &&& r.cid == BROADCAST_CID
                &&& r.cmd == CMD_INIT
                &&& r.data@ == msg.data@.subrange(0, 8) + init_capabilities()
            },
            Action::Relay { cid, apdu } => {
                &&& !(msg.cid == BROADCAST_CID && msg.cmd == CMD_INIT)
                &&& msg.cmd == CMD_MSG
                &&& cid == msg.cid
                &&& apdu@ == msg.data@
            },
            Action::ErrorReply(r) => {
                &&& !(msg.cid == BROADCAST_CID && msg.cmd == CMD_INIT)
                &&& msg.cmd != CMD_MSG
                &&& r.cid == msg.cid
                &&& r.cmd == CMD_ERROR
                &&& r.data@ == seq![0x01u8]
            },
        },
{
    if msg.cid == BROADCAST_CID && msg.cmd == CMD_INIT {
        let nonce = vstd::slice::slice_subrange(msg.data.as_slice(), 0, 8);
        let mut reply = vstd::slice::slice_to_vec(nonce);
        reply.push(0xaa);
        reply.push(0xbb);
        reply.push(0xcc);
        reply.push(0xdd);
        reply.push(0x01);
        reply.push(0x01);
        reply.push(0x00);
        reply.push(0x00);
        reply.push(0x00);
        proof {
            assert(reply@ =~= msg.data@.subrange(0, 8) + init_capabilities());
        }
        Action::InitReply(HidMessage { cid: BROADCAST_CID, cmd: CMD_INIT, data: reply })
    } else if msg.cmd == CMD_MSG {
        Action::Relay { cid: msg.cid, apdu: msg.data }
    } else {
        let mut reply: Vec<u8> = Vec::new();
        reply.push(0x01);
        proof {
            assert(reply@ =~= seq![0x01u8]);
        }
        Action::ErrorReply(HidMessage { cid: msg.cid, cmd: CMD_ERROR, data: reply })
    }
}

/// The reply a successful relay sends back: the token's raw response bytes
/// on the same channel, under the MSG command code.
pub fn relay_reply(cid: u32, response: &[u8]) -> (m: HidMessage)
    ensures
        m.cid == cid,
        m.cmd == CMD_MSG,
        m.data@ == response@,
{
    HidMessage { cid, cmd: CMD_MSG, data: vstd::slice::slice_to_vec(response) }
}

/// How the bridge recovers from a failed relay transceive.
#[derive(Clone, Copy, Debug, PartialEq, Eq, Structural)]
pub enum RelayAction {
    /// The token is gone: tear the session down and search again.
    EndSession,
    /// A known chip quirk: report it and wait for the host to resend.
    RetryExchange,
    /// Anything else cannot be recovered from.
    Fatal,
}

/// The recovery the failure classification prescribes for each reader
/// condition during a relay.
pub open spec fn relay_error_spec(err: Error) -> RelayAction {
    match err {
        Error::RfTransmissionError => RelayAction::EndSession,
        Error::DeviceChipError => RelayAction::RetryExchange,
        _ => RelayAction::Fatal,
    }
}

/// Classify a failed relay transceive: an RF transmission error means the
/// token was removed, a device chip error is retried at the next host
/// message, and every other condition is fatal.
pub fn classify_relay_error(err: Error) -> (a: RelayAction)
    ensures
        a == relay_error_spec(err),
{
    match err {
        Error::RfTransmissionError => RelayAction::EndSession,
        Error::DeviceChipError => RelayAction::RetryExchange,
        _ => RelayAction::Fatal,
    }
}

/// What the searching loop does after a SELECT exchange.
#[derive(Clone, Copy, Debug, PartialEq, Eq, Structural)]
pub enum SearchAction {
    /// The token answered selection: open a session.
    Connect,
    /// No usable answer: keep polling for a target.
    TryAgain,
    /// An unrecoverable reader condition.
    Fatal,
}

/// The view of a transceive result that the search decision is taken over.
pub open spec fn transceive_view(r: &Result<Vec<u8>, Error>) -> Result<Seq<u8>, Error> {
    match r {
        Ok(v) => Ok(v@),
        Err(e) => Err(*e),
    }
}

/// The decision owed for each SELECT outcome: connect exactly on a response
/// ending in the success status word; poll again on a timeout, on any other
/// status word, or on a response too short to carry one; anything else is
/// fatal.
pub open spec fn search_step_spec(r: Result<Seq<u8>, Error>) -> SearchAction {
    match r {
        Err(Error::TimedOut) => SearchAction::TryAgain,
        Err(_) => SearchAction::Fatal,
        Ok(resp) => if resp.len() >= 2 && status_word(resp) == STATUS_SUCCESS {
            SearchAction::Connect
        } else {
            SearchAction::TryAgain
        },
    }
}

/// Decide whether a SELECT exchange found a usable token.
pub fn search_step(select_result: &Result<Vec<u8>, Error>) -> (a: SearchAction)
    ensures
        a == search_step_spec(transceive_view(select_result)),
{
    match select_result {
        Err(e) => match e {
            Error::TimedOut => SearchAction::TryAgain,
            _ => SearchAction::Fatal,
        },
        Ok(resp) => {
            if resp.len() >= 2 {
                match parse_response(resp.as_slice()) {
                    Ok(_) => SearchAction::Connect,
                    Err(_) => SearchAction::TryAgain,
                }
            } else {
                SearchAction::TryAgain
            }
        },
    }
}

} // verus!
