//! The destination of a request, the order in which the addresses of a
//! destination are tried, and the status that a failed attempt is reported
//! with.

use vstd::prelude::*;
use crate::codec::{Request, RequestView};
use crate::wire::{be16, spec_be16, AddressKind, ReplyStatus};

verus! {

/// The text that a domain name's bytes are read as: the result of
/// `String::from_utf8_lossy` on them.
pub uninterp spec fn spec_utf8_lossy(bytes: Seq<u8>) -> Seq<char>;

/// Calls `String::from_utf8_lossy`, which reads bytes as UTF-8 text and puts
/// the replacement character where they are not. Taken on trust: that the
/// text depends on the bytes alone.
#[verifier::external_body]
fn utf8_lossy(bytes: &[u8]) -> (text: String)
    ensures
        text@ == spec_utf8_lossy(bytes@),
{
    String::from_utf8_lossy(bytes).into_owned()
}

/// The destination as a mathematical value.
pub enum TargetView {
    V4 { octets: Seq<u8>, port: u16 },
    V6 { segments: Seq<u16>, port: u16 },
    Domain { name: Seq<char>, port: u16 },
}

/// Where the client wants to be connected to: an IPv4 address by its four
/// octets, an IPv6 address by its eight 16-bit segments, or a host by its
/// name, each with a port.
#[derive(Debug, PartialEq, Eq)]
pub enum Target {
    V4 { octets: [u8; 4], port: u16 },
    V6 { segments: [u16; 8], port: u16 },
    Domain { name: String, port: u16 },
}

impl View for Target {
    type V = TargetView;

    open spec fn view(&self) -> TargetView {
        match self {
            Target::V4 { octets, port } => TargetView::V4 { octets: octets@, port: *port },
            Target::V6 { segments, port } => TargetView::V6 { segments: segments@, port: *port },
            Target::Domain { name, port } => TargetView::Domain { name: name@, port: *port },
        }
    }
}

/// The destination that a request names. The octets of an IPv4 address are
/// its four address bytes; the segments of an IPv6 address are its sixteen
/// address bytes taken two by two in network byte order; the name of a host
/// is the text of the bytes that follow the count.
pub open spec fn spec_target(request: RequestView) -> TargetView {
    match request.address_kind {
        AddressKind::IPv4 => TargetView::V4 { octets: request.address, port: request.port },
        AddressKind::IPv6 => TargetView::V6 {
            segments: Seq::new(
                8,
                |i: int| spec_be16(request.address[2 * i], request.address[2 * i + 1]),
            ),
            port: request.port,
        },
        AddressKind::DomainName => TargetView::Domain {
            name: spec_utf8_lossy(request.address.subrange(1, request.address.len() as int)),
            port: request.port,
        },
    }
}

/// The destination that the request names.
pub fn target(request: &Request) -> (target: Target)
    ensures
        target@ == spec_target(request@),
{
    let address = request.address();
    let port = request.port();
    match request.address_kind() {
        AddressKind::IPv4 => {
            let octets: [u8; 4] = [address[0], address[1], address[2], address[3]];
            assert(octets@ =~= request@.address);
            Target::V4 { octets, port }
        },
        AddressKind::IPv6 => {
            let segments: [u16; 8] = [
                be16(address[0], address[1]),
                be16(address[2], address[3]),
                be16(address[4], address[5]),
                be16(address[6], address[7]),
                be16(address[8], address[9]),
                be16(address[10], address[11]),
                be16(address[12], address[13]),
                be16(address[14], address[15]),
            ];
            assert(segments@ =~= Seq::new(
                8,
                |i: int| spec_be16(request@.address[2 * i], request@.address[2 * i + 1]),
            ));
            Target::V6 { segments, port }
        },
        AddressKind::DomainName => {
            let name = utf8_lossy(&address[1..address.len()]);
            Target::Domain { name, port }
        },
    }
}

/// Why no connection to the destination was made.
#[derive(Clone, Copy, Debug, PartialEq, Eq, Structural)]
pub enum ConnectFailure {
    /// The name of the host did not resolve to an address.
    Resolution,
    /// The destination refused the connection.
    Refused,
    /// No route leads to the network of the destination.
    NetworkUnreachable,
    /// Any other failure.
    Other,
}

impl ConnectFailure {
    /// The status that the failure is reported to the client with.
    pub open spec fn spec_reply_status(self) -> ReplyStatus {
        match self {
            ConnectFailure::Resolution => ReplyStatus::HostUnreachable,
            ConnectFailure::Refused => ReplyStatus::ConnectionRefused,
            ConnectFailure::NetworkUnreachable => ReplyStatus::NetworkUnreachable,
            ConnectFailure::Other => ReplyStatus::GeneralFailure,
        }
    }

    #[verifier::when_used_as_spec(spec_reply_status)]
    pub fn reply_status(self) -> (status: ReplyStatus)
        ensures
            status == self.spec_reply_status(),
            status != ReplyStatus::Succeeded,
    {
        match self {
            ConnectFailure::Resolution => ReplyStatus::HostUnreachable,
            ConnectFailure::Refused => ReplyStatus::ConnectionRefused,
            ConnectFailure::NetworkUnreachable => ReplyStatus::NetworkUnreachable,
            ConnectFailure::Other => ReplyStatus::GeneralFailure,
        }
    }
}

/// What to do next about a destination with several addresses.
#[derive(Clone, Copy, Debug, PartialEq, Eq, Structural)]
pub enum NextAttempt {
    /// Try the address with this index.
    Try(usize),
    /// Every address failed, or there was none: report this failure.
    GiveUp(ConnectFailure),
}

/// The attempts on the addresses of one destination: they are tried in
/// their order, each once, until one connects; when the last has failed,
/// its failure is the one reported. A destination without any address counts
/// as a name that did not resolve.
#[derive(Clone, Copy, Debug, PartialEq, Eq)]
pub struct Attempts {
    pub candidates: usize,
    pub failed: usize,
    pub last: ConnectFailure,
}

impl Attempts {
    /// What is to be done next.
    pub open spec fn spec_next(self) -> NextAttempt {
        if self.failed < self.candidates {
            NextAttempt::Try(self.failed)
        } else {
            NextAttempt::GiveUp(self.last)
        }
    }

    /// The attempts after one more failure.
    pub open spec fn spec_record(self, failure: ConnectFailure) -> Attempts {
        if self.failed < self.candidates {
            Attempts {
                candidates: self.candidates,
                failed: (self.failed + 1) as usize,
                last: failure,
            }
        } else {
            self
        }
    }

    /// The attempts after the failures, one after another.
    pub open spec fn spec_record_all(self, failures: Seq<ConnectFailure>) -> Attempts
        decreases failures.len(),
    {
        if failures.len() == 0 {
            self
        } else {
            self.spec_record(failures[0]).spec_record_all(failures.drop_first())
        }
    }

    /// The attempts on a destination with `candidates` addresses, none of
    /// them tried yet.
    pub fn new(candidates: usize) -> (attempts: Attempts)
        ensures
            attempts == (Attempts { candidates, failed: 0, last: ConnectFailure::Resolution }),
    {
        Attempts { candidates, failed: 0, last: ConnectFailure::Resolution }
    }

    #[verifier::when_used_as_spec(spec_next)]
    pub fn next(self) -> (next: NextAttempt)
        ensures
            next == self.spec_next(),
    {
        if self.failed < self.candidates {
            NextAttempt::Try(self.failed)
        } else {
            NextAttempt::GiveUp(self.last)
        }
    }

    /// Records that the attempt on the address that was to be tried has
    /// failed, and says what to do next.
    pub fn record_failure(&mut self, failure: ConnectFailure) -> (next: NextAttempt)
        ensures
            *final(self) == old(self).spec_record(failure),
            next == final(self).spec_next(),
    {
        if self.failed < self.candidates {
            self.failed = self.failed + 1;
            self.last = failure;
        }
        self.next()
    }
}

/// The addresses are tried in their order and the last failure is the one
/// reported: after `failures`, no more of them than there are addresses, the
/// next address to try is the one after them; when every address has
/// failed the failure of the last is reported, and where there was no
/// address at all, a failed resolution.
pub proof fn lemma_attempts_in_order(candidates: usize, failures: Seq<ConnectFailure>)
    requires
        failures.len() <= candidates,
    ensures
        ({
            let start = Attempts { candidates, failed: 0, last: ConnectFailure::Resolution };
            let next = start.spec_record_all(failures).spec_next();
            &&& failures.len() < candidates ==> next == NextAttempt::Try(failures.len() as usize)
            &&& failures.len() == candidates && candidates > 0 ==> next == NextAttempt::GiveUp(
                failures.last(),
            )
            &&& candidates == 0 ==> next == NextAttempt::GiveUp(ConnectFailure::Resolution)
        }),
{
    let start = Attempts { candidates, failed: 0, last: ConnectFailure::Resolution };
    lemma_record_all(start, failures);
}

/// The state after a run of failures that the remaining addresses have
/// room for.
pub proof fn lemma_record_all(start: Attempts, failures: Seq<ConnectFailure>)
    requires
        start.failed + failures.len() <= start.candidates,
    ensures
        start.spec_record_all(failures) == (Attempts {
            candidates: start.candidates,
            failed: (start.failed + failures.len()) as usize,
            last: if failures.len() == 0 {
                start.last
            } else {
                failures.last()
            },
        }),
    decreases failures.len(),
{
    if failures.len() > 0 {
        let rest = failures.drop_first();
        lemma_record_all(start.spec_record(failures[0]), rest);
        if rest.len() > 0 {
            assert(rest.last() == failures.last());
        }
    }
}

} // verus!
