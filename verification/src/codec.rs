//! The messages of SOCKS5 and their encodings: the client's greeting, the
//! server's method selection, the client's request and the server's reply.

use vstd::prelude::*;
use vstd::slice::slice_to_vec;
use crate::wire::{
    be16, lemma_be16_round_trip, push_be16, spec_be16, spec_be16_bytes, AddressKind, AuthMethod,
    Command, MalformedMessage, ReplyStatus, NO_ACCEPTABLE_METHOD, RESERVED, VERSION,
};

verus! {

/// The greeting as a mathematical value.
pub struct GreetingView {
    pub version: u8,
    pub methods: Seq<u8>,
}

/// The client's opening message: the protocol version and the methods,
/// as wire bytes, that the client can authenticate with.
#[derive(Debug, PartialEq, Eq)]
pub struct Greeting {
    pub version: u8,
    pub methods: Vec<u8>,
}

impl View for Greeting {
    type V = GreetingView;

    open spec fn view(&self) -> GreetingView {
        GreetingView { version: self.version, methods: self.methods@ }
    }
}

impl Clone for Greeting {
    fn clone(&self) -> (copy: Self)
        ensures
            copy@ == self@,
    {
        Greeting { version: self.version, methods: slice_to_vec(self.methods.as_slice()) }
    }
}

/// What `decode_greeting` makes of a byte string: a greeting is the version
/// byte 5, a count, and exactly that many method bytes.
pub open spec fn spec_decode_greeting(bytes: Seq<u8>) -> Result<GreetingView, MalformedMessage> {
    if bytes.len() >= 1 && bytes[0] != VERSION {
        Err(MalformedMessage::Version)
    } else if bytes.len() < 2 || bytes.len() != 2 + bytes[1] {
        Err(MalformedMessage::Length)
    } else {
        Ok(GreetingView { version: VERSION, methods: bytes.subrange(2, bytes.len() as int) })
    }
}

/// Decodes a greeting. It fails on a version other than 5, and where the
/// declared method count is not the number of bytes that follow it.
pub fn decode_greeting(bytes: &[u8]) -> (result: Result<Greeting, MalformedMessage>)
    ensures
        match result {
            Ok(greeting) => spec_decode_greeting(bytes@) == Ok::<GreetingView, MalformedMessage>(
                greeting@,
            ),
            Err(error) => spec_decode_greeting(bytes@) == Err::<GreetingView, MalformedMessage>(
                error,
            ),
        },
{
    let n: usize = bytes.len();
    if n >= 1 && bytes[0] != VERSION {
        return Err(MalformedMessage::Version);
    }
    if n < 2 || n - 2 != bytes[1] as usize {
        return Err(MalformedMessage::Length);
    }
    let methods = slice_to_vec(&bytes[2..n]);
    Ok(Greeting { version: VERSION, methods })
}

/// The two bytes of a method selection: the version and the selected method,
/// or 0xFF where none of the offered methods is acceptable.
pub open spec fn spec_encode_method_selection(method: Option<AuthMethod>) -> Seq<u8> {
    match method {
        Some(m) => seq![VERSION, m.spec_code()],
        None => seq![VERSION, NO_ACCEPTABLE_METHOD],
    }
}

/// Encodes the server's method selection.
pub fn encode_method_selection(method: Option<AuthMethod>) -> (frame: Vec<u8>)
    ensures
        frame@ == spec_encode_method_selection(method),
        frame@.len() == 2,
{
    let code: u8 = match method {
        Some(m) => m.code(),
        None => NO_ACCEPTABLE_METHOD,
    };
    let mut frame: Vec<u8> = Vec::new();
    frame.push(VERSION);
    frame.push(code);
    assert(frame@ =~= spec_encode_method_selection(method));
    frame
}

/// The request as a mathematical value.
pub struct RequestView {
    pub command: Command,
    pub address_kind: AddressKind,
    pub address: Seq<u8>,
    pub port: u16,
}

impl RequestView {
    /// The address has the length that its kind asks for: 4 bytes for IPv4,
    /// 16 for IPv6, and for a domain name a count followed by as many bytes.
    pub open spec fn wf(self) -> bool {
        &&& self.address.len() >= 1
        &&& self.address.len() == self.address_kind.spec_address_len(self.address[0])
    }

    /// The number of bytes of the encoded request.
    pub open spec fn encoded_len(self) -> nat {
        4 + self.address.len() + 2
    }
}

/// A client's request: what to do, and the destination as the raw address
/// bytes of the given kind with a port. Every value of this type has an
/// address of the length that its kind asks for.
#[derive(Debug, PartialEq, Eq)]
pub struct Request {
    command: Command,
    address_kind: AddressKind,
    address: Vec<u8>,
    port: u16,
}

impl View for Request {
    type V = RequestView;

    closed spec fn view(&self) -> RequestView {
        RequestView {
            command: self.command,
            address_kind: self.address_kind,
            address: self.address@,
            port: self.port,
        }
    }
}

impl Request {
    /// The invariant of the type.
    #[verifier::type_invariant]
    pub open spec fn wf(&self) -> bool {
        self@.wf()
    }

    /// Makes a request of its parts. It fails with `Length` where the
    /// address has not the length that its kind asks for.
    pub fn new(command: Command, address_kind: AddressKind, address: Vec<u8>, port: u16) -> (result:
        Result<Request, MalformedMessage>)
        ensures
            result is Ok <==> (RequestView {
                command,
                address_kind,
                address: address@,
                port,
            }).wf(),
            result matches Ok(request) ==> request@ == (RequestView {
                command,
                address_kind,
                address: address@,
                port,
            }),
            result matches Err(error) ==> error == MalformedMessage::Length,
    {
        if address.len() >= 1 && address.len() == address_kind.address_len(address[0]) {
            Ok(Request { command, address_kind, address, port })
        } else {
            Err(MalformedMessage::Length)
        }
    }

    pub fn command(&self) -> (command: Command)
        ensures
            command == self@.command,
    {
        self.command
    }

    pub fn address_kind(&self) -> (kind: AddressKind)
        ensures
            kind == self@.address_kind,
    {
        self.address_kind
    }

    /// The raw address bytes; for a domain name the count comes first.
    pub fn address(&self) -> (address: &[u8])
        ensures
            address@ == self@.address,
            self@.wf(),
    {
        proof {
            use_type_invariant(self);
        }
        self.address.as_slice()
    }

    pub fn port(&self) -> (port: u16)
        ensures
            port == self@.port,
    {
        self.port
    }
}

impl Clone for Request {
    fn clone(&self) -> (copy: Self)
        ensures
            copy@ == self@,
    {
        proof {
            use_type_invariant(self);
        }
        let address = slice_to_vec(self.address.as_slice());
        Request {
            command: self.command,
            address_kind: self.address_kind,
            address,
            port: self.port,
        }
    }
}

/// What `decode_request` makes of a byte string. The header is checked byte
/// by byte in wire order, so the first offending byte decides the error; the
/// address is as long as its kind says and the port is the two bytes after
/// it. Bytes after the port are not looked at.
pub open spec fn spec_decode_request(bytes: Seq<u8>) -> Result<RequestView, MalformedMessage> {
    if bytes.len() >= 1 && bytes[0] != VERSION {
        Err(MalformedMessage::Version)
    } else if bytes.len() >= 2 && Command::spec_from_code(bytes[1]) is None {
        Err(MalformedMessage::Command)
    } else if bytes.len() >= 4 && AddressKind::spec_from_code(bytes[3]) is None {
        Err(MalformedMessage::AddressKind)
    } else if bytes.len() < 5 {
        Err(MalformedMessage::Length)
    } else {
        let kind = AddressKind::spec_from_code(bytes[3])->0;
        let end = 4 + kind.spec_address_len(bytes[4]) as int;
        if bytes.len() < end + 2 {
            Err(MalformedMessage::Length)
        } else {
            Ok(
                RequestView {
                    command: Command::spec_from_code(bytes[1])->0,
                    address_kind: kind,
                    address: bytes.subrange(4, end),
                    port: spec_be16(bytes[end], bytes[end + 1]),
                },
            )
        }
    }
}

/// The bytes of a request: version, command, the reserved zero, the address
/// kind, the address and the port.
pub open spec fn spec_encode_request(request: RequestView) -> Seq<u8> {
    seq![VERSION, request.command.spec_code(), RESERVED, request.address_kind.spec_code()]
        + request.address + spec_be16_bytes(request.port)
}

/// Decodes a request. It fails on a version other than 5, on a command or
/// address-kind byte that names nothing, and where the bytes end before the
/// address and the port do.
pub fn decode_request(bytes: &[u8]) -> (result: Result<Request, MalformedMessage>)
    ensures
        match result {
            Ok(request) => spec_decode_request(bytes@) == Ok::<RequestView, MalformedMessage>(
                request@,
            ),
            Err(error) => spec_decode_request(bytes@) == Err::<RequestView, MalformedMessage>(
                error,
            ),
        },
{
    let n: usize = bytes.len();
    if n >= 1 && bytes[0] != VERSION {
        return Err(MalformedMessage::Version);
    }
    if n >= 2 && Command::from_code(bytes[1]).is_none() {
        return Err(MalformedMessage::Command);
    }
    if n >= 4 && AddressKind::from_code(bytes[3]).is_none() {
        return Err(MalformedMessage::AddressKind);
    }
    if n < 5 {
        return Err(MalformedMessage::Length);
    }
    let command = match Command::from_code(bytes[1]) {
        Some(command) => command,
        None => { return Err(MalformedMessage::Command); },
    };
    let address_kind = match AddressKind::from_code(bytes[3]) {
        Some(kind) => kind,
        None => { return Err(MalformedMessage::AddressKind); },
    };
    let end: usize = 4 + address_kind.address_len(bytes[4]);
    if n - 2 < end {
        return Err(MalformedMessage::Length);
    }
    let address = slice_to_vec(&bytes[4..end]);
    let port = be16(bytes[end], bytes[end + 1]);
    Ok(Request { command, address_kind, address, port })
}

/// Encodes a request. Decoding the result gives the request back.
pub fn encode_request(request: &Request) -> (frame: Vec<u8>)
    ensures
        frame@ == spec_encode_request(request@),
        frame@.len() == request@.encoded_len(),
        spec_decode_request(frame@) == Ok::<RequestView, MalformedMessage>(request@),
{
    proof {
        use_type_invariant(request);
        lemma_request_round_trip(request@);
    }
    let mut frame: Vec<u8> = Vec::new();
    frame.push(VERSION);
    frame.push(request.command.code());
    frame.push(RESERVED);
    frame.push(request.address_kind.code());
    let address = request.address();
    frame.extend_from_slice(address);
    push_be16(&mut frame, request.port);
    assert(frame@ =~= spec_encode_request(request@));
    frame
}

/// Round trip: decoding the encoding of a request gives the request back,
/// whatever its command and address kind.
pub proof fn lemma_request_round_trip(request: RequestView)
    requires
        request.wf(),
    ensures
        spec_decode_request(spec_encode_request(request)) == Ok::<RequestView, MalformedMessage>(
            request,
        ),
{
    let bytes = spec_encode_request(request);
    let end = 4 + request.address.len() as int;
    assert(bytes.len() == end + 2);
    assert(bytes[1] == request.command.spec_code());
    assert(bytes[3] == request.address_kind.spec_code());
    assert(bytes[4] == request.address[0]);
    assert(bytes.subrange(4, end) =~= request.address);
    assert(bytes[end] == spec_be16_bytes(request.port)[0]);
    assert(bytes[end + 1] == spec_be16_bytes(request.port)[1]);
    lemma_be16_round_trip(request.port, 0, 0);
}

/// The local endpoint of the connection that the server opened to the
/// destination, as a reply carries it.
#[derive(Clone, Copy, Debug, PartialEq, Eq)]
#[allow(inconsistent_fields)]
pub enum BoundAddress {
    V4 { octets: [u8; 4], port: u16 },
    V6 { octets: [u8; 16], port: u16 },
}

impl BoundAddress {
    pub open spec fn spec_kind(self) -> AddressKind {
        match self {
            BoundAddress::V4 { .. } => AddressKind::IPv4,
            BoundAddress::V6 { .. } => AddressKind::IPv6,
        }
    }

    pub open spec fn spec_octets(self) -> Seq<u8> {
        match self {
            BoundAddress::V4 { octets, .. } => octets@,
            BoundAddress::V6 { octets, .. } => octets@,
        }
    }

    pub open spec fn spec_port(self) -> u16 {
        match self {
            BoundAddress::V4 { port, .. } => port,
            BoundAddress::V6 { port, .. } => port,
        }
    }

    /// The endpoint that a reply carries where there is none to report:
    /// the IPv4 address 0.0.0.0 with port 0.
    pub open spec fn spec_unspecified() -> BoundAddress {
        BoundAddress::V4 { octets: [0u8, 0u8, 0u8, 0u8], port: 0 }
    }

    pub fn unspecified() -> (bound: BoundAddress)
        ensures
            bound == Self::spec_unspecified(),
    {
        BoundAddress::V4 { octets: [0u8, 0u8, 0u8, 0u8], port: 0 }
    }
}

/// The bytes of a reply: version, status, the reserved zero, the address
/// kind, the address and the port of the bound endpoint. Without an
/// endpoint the unspecified one stands in.
pub open spec fn spec_encode_reply(status: ReplyStatus, bound: Option<BoundAddress>) -> Seq<u8> {
    let endpoint = match bound {
        Some(endpoint) => endpoint,
        None => BoundAddress::spec_unspecified(),
    };
    seq![VERSION, status.spec_code(), RESERVED, endpoint.spec_kind().spec_code()]
        + endpoint.spec_octets() + spec_be16_bytes(endpoint.spec_port())
}

/// Encodes the server's reply.
pub fn encode_reply(status: ReplyStatus, bound: Option<BoundAddress>) -> (frame: Vec<u8>)
    ensures
        frame@ == spec_encode_reply(status, bound),
{
    let endpoint = match bound {
        Some(endpoint) => endpoint,
        None => BoundAddress::unspecified(),
    };
    let mut frame: Vec<u8> = Vec::new();
    frame.push(VERSION);
    frame.push(status.code());
    frame.push(RESERVED);
    match endpoint {
        BoundAddress::V4 { octets, port } => {
            frame.push(AddressKind::IPv4.code());
            frame.extend_from_slice(octets.as_slice());
            push_be16(&mut frame, port);
        },
        BoundAddress::V6 { octets, port } => {
            frame.push(AddressKind::IPv6.code());
            frame.extend_from_slice(octets.as_slice());
            push_be16(&mut frame, port);
        },
    }
    assert(frame@ =~= spec_encode_reply(status, bound));
    frame
}

/// The shape of a reply: its second byte is the status and nothing else
/// in it depends on the status; it is 10 bytes long for an IPv4 endpoint or
/// none, and 22 for an IPv6 endpoint.
pub proof fn lemma_reply_shape(status: ReplyStatus, bound: Option<BoundAddress>)
    ensures
        spec_encode_reply(status, bound).len() == (if bound matches Some(BoundAddress::V6 { .. }) {
            22int
        } else {
            10int
        }),
        spec_encode_reply(status, bound)[0] == VERSION,
        spec_encode_reply(status, bound)[1] == status.spec_code(),
        spec_encode_reply(status, bound) == spec_encode_reply(ReplyStatus::Succeeded, bound).update(
            1,
            status.spec_code(),
        ),
{
    assert(spec_encode_reply(status, bound) =~= spec_encode_reply(
        ReplyStatus::Succeeded,
        bound,
    ).update(1, status.spec_code()));
}

/// Once a byte string decodes to a request or is refused for its header,
/// bytes that follow it change nothing: only a string that ends too early
/// can be turned into another result by more bytes.
pub proof fn lemma_decode_request_ignores_tail(bytes: Seq<u8>, tail: Seq<u8>)
    requires
        spec_decode_request(bytes) != Err::<RequestView, MalformedMessage>(MalformedMessage::Length),
    ensures
        spec_decode_request(bytes + tail) == spec_decode_request(bytes),
{
    let all = bytes + tail;
    assert(forall|i: int| 0 <= i < bytes.len() ==> all[i] == bytes[i]);
    if spec_decode_request(bytes) is Ok {
        let kind = AddressKind::spec_from_code(bytes[3])->0;
        let end = 4 + kind.spec_address_len(bytes[4]) as int;
        assert(all.subrange(4, end) =~= bytes.subrange(4, end));
    }
}

/// What was decoded is what was sent: the bytes that a request was decoded
/// from begin with the encoding of that request, but for the reserved byte,
/// which decoding does not look at.
pub proof fn lemma_decode_request_inverts_encode(bytes: Seq<u8>)
    requires
        spec_decode_request(bytes) is Ok,
    ensures
        ({
            let request = spec_decode_request(bytes)->Ok_0;
            &&& request.wf()
            &&& request.encoded_len() <= bytes.len()
            &&& spec_encode_request(request) == bytes.subrange(
                0,
                request.encoded_len() as int,
            ).update(2, RESERVED)
        }),
{
    let request = spec_decode_request(bytes)->Ok_0;
    let end = 4 + request.address.len() as int;
    lemma_be16_round_trip(0, bytes[end], bytes[end + 1]);
    assert(spec_encode_request(request) =~= bytes.subrange(
        0,
        request.encoded_len() as int,
    ).update(2, RESERVED));
}

} // verus!
