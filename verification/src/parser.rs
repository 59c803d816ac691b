//! The request parser: it decodes the client's request and turns down what
//! this server does not serve.

use vstd::prelude::*;
use crate::codec::{decode_request, spec_decode_request, Request, RequestView};
use crate::wire::{AddressKind, Command, MalformedMessage, ReplyStatus, VERSION};

verus! {

/// Why a request is turned down.
#[derive(Clone, Copy, Debug, PartialEq, Eq, Structural)]
pub enum RequestError {
    /// The bytes are no request, or end before the request does. The
    /// session is closed without a reply.
    Protocol(MalformedMessage),
    /// The request asks for what this server does not serve. The client is
    /// told so by a reply with this status, and the session is closed.
    Unsupported(ReplyStatus),
}

impl RequestError {
    /// The status of the reply that tells the client of the error, where one
    /// is sent.
    pub open spec fn spec_reply_status(self) -> Option<ReplyStatus> {
        match self {
            RequestError::Protocol(_) => None,
            RequestError::Unsupported(status) => Some(status),
        }
    }

    #[verifier::when_used_as_spec(spec_reply_status)]
    pub fn reply_status(self) -> (status: Option<ReplyStatus>)
        ensures
            status == self.spec_reply_status(),
    {
        match self {
            RequestError::Protocol(_) => None,
            RequestError::Unsupported(status) => Some(status),
        }
    }
}

/// What the parser makes of the bytes of a request. The header is judged
/// in wire order: a version other than 5 is a protocol error; any command
/// but CONNECT is not supported; an address kind other than IPv4, domain
/// name and IPv6 is not supported. What passes is decoded.
pub open spec fn spec_parse_protocol(bytes: Seq<u8>) -> Result<RequestView, RequestError> {
    if bytes.len() >= 1 && bytes[0] != VERSION {
        Err(RequestError::Protocol(MalformedMessage::Version))
    } else if bytes.len() >= 2 && bytes[1] != Command::Connect.spec_code() {
        Err(RequestError::Unsupported(ReplyStatus::CommandNotSupported))
    } else if bytes.len() >= 4 && AddressKind::spec_from_code(bytes[3]) is None {
        Err(RequestError::Unsupported(ReplyStatus::AddressTypeNotSupported))
    } else {
        match spec_decode_request(bytes) {
            Ok(request) => Ok(request),
            Err(error) => Err(RequestError::Protocol(error)),
        }
    }
}

/// Parses the client's request. It accepts a well-formed CONNECT request
/// and nothing else.
pub fn parse_protocol(bytes: &[u8]) -> (result: Result<Request, RequestError>)
    ensures
        match result {
            Ok(request) => spec_parse_protocol(bytes@) == Ok::<RequestView, RequestError>(request@),
            Err(error) => spec_parse_protocol(bytes@) == Err::<RequestView, RequestError>(error),
        },
        result matches Ok(request) ==> request@.command == Command::Connect && request@.wf()
            && spec_decode_request(bytes@) == Ok::<RequestView, MalformedMessage>(request@),
        result == Err::<Request, RequestError>(RequestError::Protocol(MalformedMessage::Version))
            <==> bytes@.len() >= 1 && bytes@[0] != VERSION,
        result == Err::<Request, RequestError>(
            RequestError::Unsupported(ReplyStatus::CommandNotSupported),
        ) <==> bytes@.len() >= 2 && bytes@[0] == VERSION && bytes@[1] != 0x01,
        result == Err::<Request, RequestError>(
            RequestError::Unsupported(ReplyStatus::AddressTypeNotSupported),
        ) <==> bytes@.len() >= 4 && bytes@[0] == VERSION && bytes@[1] == 0x01 && bytes@[3] != 0x01
            && bytes@[3] != 0x03 && bytes@[3] != 0x04,
{
    let n: usize = bytes.len();
    if n >= 1 && bytes[0] != VERSION {
        return Err(RequestError::Protocol(MalformedMessage::Version));
    }
    if n >= 2 && bytes[1] != Command::Connect.code() {
        return Err(RequestError::Unsupported(ReplyStatus::CommandNotSupported));
    }
    if n >= 4 && AddressKind::from_code(bytes[3]).is_none() {
        return Err(RequestError::Unsupported(ReplyStatus::AddressTypeNotSupported));
    }
    match decode_request(bytes) {
        Ok(request) => {
            proof {
                use_type_invariant(&request);
            }
            Ok(request)
        },
        Err(error) => Err(RequestError::Protocol(error)),
    }
}

} // verus!
