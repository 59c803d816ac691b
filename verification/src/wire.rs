//! The binary structures of SOCKS5: greeting, method selection, request and
//! reply. Every function here is pure; multi-byte integers are in network
//! byte order.

use vstd::prelude::*;

verus! {

/// The protocol version byte that opens every greeting, request and reply.
pub const VERSION: u8 = 5;

/// The method byte of a selection that accepts none of the offered methods.
pub const NO_ACCEPTABLE_METHOD: u8 = 0xFF;

/// The reserved byte of a request or reply.
pub const RESERVED: u8 = 0;

/// Why a byte string is not the message it was taken for.
#[derive(Clone, Copy, Debug, PartialEq, Eq, Structural)]
pub enum MalformedMessage {
    /// The version byte is not 5.
    Version,
    /// The command byte names no command.
    Command,
    /// The address-kind byte names no address kind.
    AddressKind,
    /// The bytes at hand do not have the length that the message declares.
    Length,
}

/// An authentication method that a client may offer.
#[derive(Clone, Copy, Debug, PartialEq, Eq, Structural)]
pub enum AuthMethod {
    NoAuthenticationRequired,
    Gssapi,
    UsernamePassword,
}

impl AuthMethod {
    /// The byte that stands for the method on the wire.
    pub open spec fn spec_code(self) -> u8 {
        match self {
            AuthMethod::NoAuthenticationRequired => 0x00,
            AuthMethod::Gssapi => 0x01,
            AuthMethod::UsernamePassword => 0x02,
        }
    }

    /// The method that a wire byte stands for, if any.
    pub open spec fn spec_from_code(code: u8) -> Option<AuthMethod> {
        if code == 0x00 {
            Some(AuthMethod::NoAuthenticationRequired)
        } else if code == 0x01 {
            Some(AuthMethod::Gssapi)
        } else if code == 0x02 {
            Some(AuthMethod::UsernamePassword)
        } else {
            None
        }
    }

    #[verifier::when_used_as_spec(spec_code)]
    pub fn code(self) -> (code: u8)
        ensures
            code == self.spec_code(),
    {
        match self {
            AuthMethod::NoAuthenticationRequired => 0x00,
            AuthMethod::Gssapi => 0x01,
            AuthMethod::UsernamePassword => 0x02,
        }
    }

    pub fn from_code(code: u8) -> (method: Option<AuthMethod>)
        ensures
            method == Self::spec_from_code(code),
    {
        if code == 0x00 {
            Some(AuthMethod::NoAuthenticationRequired)
        } else if code == 0x01 {
            Some(AuthMethod::Gssapi)
        } else if code == 0x02 {
            Some(AuthMethod::UsernamePassword)
        } else {
            None
        }
    }
}

/// What a client asks the server to do.
#[derive(Clone, Copy, Debug, PartialEq, Eq, Structural)]
pub enum Command {
    Connect,
    Bind,
    UdpAssociate,
}

impl Command {
    pub open spec fn spec_code(self) -> u8 {
        match self {
            Command::Connect => 0x01,
            Command::Bind => 0x02,
            Command::UdpAssociate => 0x03,
        }
    }

    pub open spec fn spec_from_code(code: u8) -> Option<Command> {
        if code == 0x01 {
            Some(Command::Connect)
        } else if code == 0x02 {
            Some(Command::Bind)
        } else if code == 0x03 {
            Some(Command::UdpAssociate)
        } else {
            None
        }
    }

    #[verifier::when_used_as_spec(spec_code)]
    pub fn code(self) -> (code: u8)
        ensures
            code == self.spec_code(),
    {
        match self {
            Command::Connect => 0x01,
            Command::Bind => 0x02,
            Command::UdpAssociate => 0x03,
        }
    }

    pub fn from_code(code: u8) -> (command: Option<Command>)
        ensures
            command == Self::spec_from_code(code),
    {
        if code == 0x01 {
            Some(Command::Connect)
        } else if code == 0x02 {
            Some(Command::Bind)
        } else if code == 0x03 {
            Some(Command::UdpAssociate)
        } else {
            None
        }
    }
}

/// How the address of a request or reply is written.
#[derive(Clone, Copy, Debug, PartialEq, Eq, Structural)]
pub enum AddressKind {
    IPv4,
    DomainName,
    IPv6,
}

impl AddressKind {
    pub open spec fn spec_code(self) -> u8 {
        match self {
            AddressKind::IPv4 => 0x01,
            AddressKind::DomainName => 0x03,
            AddressKind::IPv6 => 0x04,
        }
    }

    pub open spec fn spec_from_code(code: u8) -> Option<AddressKind> {
        if code == 0x01 {
            Some(AddressKind::IPv4)
        } else if code == 0x03 {
            Some(AddressKind::DomainName)
        } else if code == 0x04 {
            Some(AddressKind::IPv6)
        } else {
            None
        }
    }

    /// The number of address bytes of this kind, given the first of them:
    /// for a domain name the first byte counts the bytes of the name that
    /// follow it.
    pub open spec fn spec_address_len(self, first: u8) -> nat {
        match self {
            AddressKind::IPv4 => 4,
            AddressKind::DomainName => 1 + first as nat,
            AddressKind::IPv6 => 16,
        }
    }

    #[verifier::when_used_as_spec(spec_code)]
    pub fn code(self) -> (code: u8)
        ensures
            code == self.spec_code(),
    {
        match self {
            AddressKind::IPv4 => 0x01,
            AddressKind::DomainName => 0x03,
            AddressKind::IPv6 => 0x04,
        }
    }

    pub fn from_code(code: u8) -> (kind: Option<AddressKind>)
        ensures
            kind == Self::spec_from_code(code),
    {
        if code == 0x01 {
            Some(AddressKind::IPv4)
        } else if code == 0x03 {
            Some(AddressKind::DomainName)
        } else if code == 0x04 {
            Some(AddressKind::IPv6)
        } else {
            None
        }
    }

    pub fn address_len(self, first: u8) -> (len: usize)
        ensures
            len == self.spec_address_len(first),
    {
        match self {
            AddressKind::IPv4 => 4,
            AddressKind::DomainName => 1 + first as usize,
            AddressKind::IPv6 => 16,
        }
    }
}

/// The outcome that a reply reports to the client.
#[derive(Clone, Copy, Debug, PartialEq, Eq, Structural)]
pub enum ReplyStatus {
    Succeeded,
    GeneralFailure,
    ConnectionNotAllowed,
    NetworkUnreachable,
    HostUnreachable,
    ConnectionRefused,
    TtlExpired,
    CommandNotSupported,
    AddressTypeNotSupported,
}

impl ReplyStatus {
    pub open spec fn spec_code(self) -> u8 {
        match self {
            ReplyStatus::Succeeded => 0x00,
            ReplyStatus::GeneralFailure => 0x01,
            ReplyStatus::ConnectionNotAllowed => 0x02,
            ReplyStatus::NetworkUnreachable => 0x03,
            ReplyStatus::HostUnreachable => 0x04,
            ReplyStatus::ConnectionRefused => 0x05,
            ReplyStatus::TtlExpired => 0x06,
            ReplyStatus::CommandNotSupported => 0x07,
            ReplyStatus::AddressTypeNotSupported => 0x08,
        }
    }

    pub open spec fn spec_from_code(code: u8) -> Option<ReplyStatus> {
        if code == 0x00 {
            Some(ReplyStatus::Succeeded)
        } else if code == 0x01 {
            Some(ReplyStatus::GeneralFailure)
        } else if code == 0x02 {
            Some(ReplyStatus::ConnectionNotAllowed)
        } else if code == 0x03 {
            Some(ReplyStatus::NetworkUnreachable)
        } else if code == 0x04 {
            Some(ReplyStatus::HostUnreachable)
        } else if code == 0x05 {
            Some(ReplyStatus::ConnectionRefused)
        } else if code == 0x06 {
            Some(ReplyStatus::TtlExpired)
        } else if code == 0x07 {
            Some(ReplyStatus::CommandNotSupported)
        } else if code == 0x08 {
            Some(ReplyStatus::AddressTypeNotSupported)
        } else {
            None
        }
    }

    #[verifier::when_used_as_spec(spec_code)]
    pub fn code(self) -> (code: u8)
        ensures
            code == self.spec_code(),
    {
        match self {
            ReplyStatus::Succeeded => 0x00,
            ReplyStatus::GeneralFailure => 0x01,
            ReplyStatus::ConnectionNotAllowed => 0x02,
            ReplyStatus::NetworkUnreachable => 0x03,
            ReplyStatus::HostUnreachable => 0x04,
            ReplyStatus::ConnectionRefused => 0x05,
            ReplyStatus::TtlExpired => 0x06,
            ReplyStatus::CommandNotSupported => 0x07,
            ReplyStatus::AddressTypeNotSupported => 0x08,
        }
    }

    pub fn from_code(code: u8) -> (status: Option<ReplyStatus>)
        ensures
            status == Self::spec_from_code(code),
    {
        if code == 0x00 {
            Some(ReplyStatus::Succeeded)
        } else if code == 0x01 {
            Some(ReplyStatus::GeneralFailure)
        } else if code == 0x02 {
            Some(ReplyStatus::ConnectionNotAllowed)
        } else if code == 0x03 {
            Some(ReplyStatus::NetworkUnreachable)
        } else if code == 0x04 {
            Some(ReplyStatus::HostUnreachable)
        } else if code == 0x05 {
            Some(ReplyStatus::ConnectionRefused)
        } else if code == 0x06 {
            Some(ReplyStatus::TtlExpired)
        } else if code == 0x07 {
            Some(ReplyStatus::CommandNotSupported)
        } else if code == 0x08 {
            Some(ReplyStatus::AddressTypeNotSupported)
        } else {
            None
        }
    }
}

/// The 16-bit integer that two bytes in network byte order stand for.
pub open spec fn spec_be16(hi: u8, lo: u8) -> u16 {
    (hi as int * 256 + lo as int) as u16
}

/// The two bytes that stand for a 16-bit integer in network byte order.
pub open spec fn spec_be16_bytes(value: u16) -> Seq<u8> {
    seq![(value / 256) as u8, (value % 256) as u8]
}

/// Reads a 16-bit integer in network byte order.
#[verifier::when_used_as_spec(spec_be16)]
pub fn be16(hi: u8, lo: u8) -> (value: u16)
    ensures
        value == spec_be16(hi, lo),
        value == hi as int * 256 + lo as int,
{
    (hi as u16) * 256 + (lo as u16)
}

/// Appends a 16-bit integer in network byte order.
pub fn push_be16(out: &mut Vec<u8>, value: u16)
    ensures
        final(out)@ == old(out)@ + spec_be16_bytes(value),
{
    out.push((value / 256) as u8);
    out.push((value % 256) as u8);
}

/// Writing a 16-bit integer and reading it back gives the integer, and
/// reading two bytes and writing the result back gives the two bytes.
pub proof fn lemma_be16_round_trip(value: u16, hi: u8, lo: u8)
    ensures
        spec_be16(spec_be16_bytes(value)[0], spec_be16_bytes(value)[1]) == value,
        spec_be16_bytes(spec_be16(hi, lo)) == seq![hi, lo],
{
    assert(spec_be16_bytes(spec_be16(hi, lo)) =~= seq![hi, lo]);
}

/// The status bytes 0x00 to 0x08 and the nine statuses stand for each other,
/// one for one.
pub proof fn lemma_reply_status_codes(status: ReplyStatus, code: u8)
    ensures
        ReplyStatus::spec_from_code(status.spec_code()) == Some(status),
        ReplyStatus::spec_from_code(code) matches Some(s) ==> s.spec_code() == code,
        ReplyStatus::spec_from_code(code) is Some <==> code <= 0x08,
{
}

/// The bytes of the commands and of the address kinds stand for them one
/// for one.
pub proof fn lemma_header_codes(command: Command, kind: AddressKind, method: AuthMethod, code: u8)
    ensures
        Command::spec_from_code(command.spec_code()) == Some(command),
        Command::spec_from_code(code) matches Some(c) ==> c.spec_code() == code,
        AddressKind::spec_from_code(kind.spec_code()) == Some(kind),
        AddressKind::spec_from_code(code) matches Some(k) ==> k.spec_code() == code,
        AuthMethod::spec_from_code(method.spec_code()) == Some(method),
        AuthMethod::spec_from_code(code) matches Some(m) ==> m.spec_code() == code,
{
}

} // verus!
