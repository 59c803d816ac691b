//! Framing: how many bytes of a greeting or a request are still to come.
//! A stream delivers a message in pieces of any size; the reader takes the
//! pieces as they come and stops exactly where the message ends.

use vstd::prelude::*;
use crate::codec::{
    lemma_request_round_trip, spec_decode_greeting, spec_decode_request, spec_encode_request,
    GreetingView, RequestView,
};
use crate::wire::{lemma_header_codes, AddressKind, AuthMethod, MalformedMessage, VERSION};

verus! {

/// The two messages that a client sends before the relay begins.
#[derive(Clone, Copy, Debug, PartialEq, Eq, Structural)]
pub enum FrameKind {
    Greeting,
    Request,
}

/// The length up to which a message that begins with `prefix` is read
/// next. A greeting is read as its two header bytes, then its methods. A
/// request is read as its four header bytes, then its address, then the two
/// bytes of its port; the address of a domain name is read as its count,
/// then the name.
pub open spec fn spec_frame_goal(kind: FrameKind, prefix: Seq<u8>) -> nat {
    match kind {
        FrameKind::Greeting => if prefix.len() < 2 {
            2
        } else {
            2 + prefix[1] as nat
        },
        FrameKind::Request => if prefix.len() < 4 {
            4
        } else {
            match AddressKind::spec_from_code(prefix[3]) {
                None => 4,
                Some(AddressKind::IPv4) => if prefix.len() < 8 {
                    8
                } else {
                    10
                },
                Some(AddressKind::IPv6) => if prefix.len() < 20 {
                    20
                } else {
                    22
                },
                Some(AddressKind::DomainName) => if prefix.len() < 5 {
                    5
                } else if prefix.len() < 5 + prefix[4] as nat {
                    5 + prefix[4] as nat
                } else {
                    7 + prefix[4] as nat
                },
            }
        },
    }
}

/// The number of bytes to read next after `prefix`. It is zero where the
/// message is complete, and where its header already rules it out: a wrong
/// version, or an address kind that gives the message no length.
pub open spec fn spec_frame_need(kind: FrameKind, prefix: Seq<u8>) -> nat {
    if prefix.len() >= 1 && prefix[0] != VERSION {
        0
    } else if spec_frame_goal(kind, prefix) > prefix.len() {
        (spec_frame_goal(kind, prefix) - prefix.len()) as nat
    } else {
        0
    }
}

/// No byte of `bytes` was read after the message was complete or ruled out.
pub open spec fn spec_frame_exact(kind: FrameKind, bytes: Seq<u8>) -> bool {
    forall|k: int| 0 <= k < bytes.len() ==> spec_frame_need(kind, #[trigger] bytes.take(k)) > 0
}

/// What a reader holds after it was offered `chunk` while holding `buffer`:
/// it takes byte after byte as long as more is needed.
pub open spec fn spec_absorb(kind: FrameKind, buffer: Seq<u8>, chunk: Seq<u8>) -> Seq<u8>
    decreases chunk.len(),
{
    if chunk.len() == 0 || spec_frame_need(kind, buffer) == 0 {
        buffer
    } else {
        spec_absorb(kind, buffer.push(chunk[0]), chunk.drop_first())
    }
}

/// What a reader holds after it was offered the chunks one after another.
pub open spec fn spec_absorb_all(kind: FrameKind, buffer: Seq<u8>, chunks: Seq<Seq<u8>>) -> Seq<u8>
    decreases chunks.len(),
{
    if chunks.len() == 0 {
        buffer
    } else {
        spec_absorb_all(kind, spec_absorb(kind, buffer, chunks[0]), chunks.drop_first())
    }
}

/// The chunks laid end to end.
pub open spec fn spec_concat(chunks: Seq<Seq<u8>>) -> Seq<u8>
    decreases chunks.len(),
{
    if chunks.len() == 0 {
        Seq::<u8>::empty()
    } else {
        chunks[0] + spec_concat(chunks.drop_first())
    }
}

/// The number of bytes to read next after `prefix`.
pub fn frame_need(kind: FrameKind, prefix: &[u8]) -> (need: usize)
    ensures
        need == spec_frame_need(kind, prefix@),
{
    let n: usize = prefix.len();
    if n >= 1 && prefix[0] != VERSION {
        return 0;
    }
    let goal: usize = match kind {
        FrameKind::Greeting => if n < 2 {
            2
        } else {
            2 + prefix[1] as usize
        },
        FrameKind::Request => if n < 4 {
            4
        } else {
            match AddressKind::from_code(prefix[3]) {
                None => 4,
                Some(AddressKind::IPv4) => if n < 8 {
                    8
                } else {
                    10
                },
                Some(AddressKind::IPv6) => if n < 20 {
                    20
                } else {
                    22
                },
                Some(AddressKind::DomainName) => if n < 5 {
                    5
                } else if n < 5 + prefix[4] as usize {
                    5 + prefix[4] as usize
                } else {
                    7 + prefix[4] as usize
                },
            }
        },
    };
    if goal > n {
        goal - n
    } else {
        0
    }
}

/// The reader as a mathematical value.
pub struct FrameReaderView {
    pub kind: FrameKind,
    pub bytes: Seq<u8>,
}

/// Collects one message from the pieces in which a stream delivers it. It
/// never holds a byte from beyond the end of the message.
#[derive(Debug)]
pub struct FrameReader {
    kind: FrameKind,
    buffer: Vec<u8>,
}

impl View for FrameReader {
    type V = FrameReaderView;

    closed spec fn view(&self) -> FrameReaderView {
        FrameReaderView { kind: self.kind, bytes: self.buffer@ }
    }
}

impl FrameReader {
    /// The invariant of the type.
    #[verifier::type_invariant]
    pub open spec fn wf(&self) -> bool {
        spec_frame_exact(self@.kind, self@.bytes)
    }

    /// A reader that holds nothing yet.
    pub fn new(kind: FrameKind) -> (reader: FrameReader)
        ensures
            reader@.kind == kind,
            reader@.bytes == Seq::<u8>::empty(),
    {
        FrameReader { kind, buffer: Vec::new() }
    }

    pub fn kind(&self) -> (kind: FrameKind)
        ensures
            kind == self@.kind,
    {
        self.kind
    }

    /// The number of bytes to read next; zero where nothing more is to be
    /// read.
    pub fn needed(&self) -> (need: usize)
        ensures
            need == spec_frame_need(self@.kind, self@.bytes),
    {
        frame_need(self.kind, self.buffer.as_slice())
    }

    /// Offers the reader the bytes that a read returned. It takes what it
    /// still needs and says how many bytes that was; the others belong to
    /// what follows the message.
    pub fn feed(&mut self, chunk: &[u8]) -> (taken: usize)
        ensures
            final(self)@.kind == old(self)@.kind,
            final(self)@.bytes == spec_absorb(old(self)@.kind, old(self)@.bytes, chunk@),
            taken <= chunk@.len(),
            final(self)@.bytes == old(self)@.bytes + chunk@.take(taken as int),
            spec_frame_exact(final(self)@.kind, final(self)@.bytes),
    {
        proof {
            use_type_invariant(&*self);
        }
        let kind = self.kind;
        let mut buffer: Vec<u8> = Vec::new();
        core::mem::swap(&mut self.buffer, &mut buffer);
        let mut taken: usize = 0;
        assert(chunk@.skip(0) =~= chunk@);
        while taken < chunk.len() && frame_need(kind, buffer.as_slice()) > 0
            invariant
                taken <= chunk@.len(),
                kind == old(self)@.kind,
                buffer@ == old(self)@.bytes + chunk@.take(taken as int),
                spec_frame_exact(kind, buffer@),
                spec_absorb(kind, old(self)@.bytes, chunk@) == spec_absorb(
                    kind,
                    buffer@,
                    chunk@.skip(taken as int),
                ),
            decreases chunk@.len() - taken,
        {
            proof {
                let before = buffer@;
                let after = before.push(chunk@[taken as int]);
                assert forall|k: int| 0 <= k < after.len() implies spec_frame_need(
                    kind,
                    #[trigger] after.take(k),
                ) > 0 by {
                    if k < before.len() {
                        assert(after.take(k) =~= before.take(k));
                    } else {
                        assert(after.take(k) =~= before);
                    }
                }
                assert(chunk@.skip(taken as int).drop_first() =~= chunk@.skip(taken + 1));
                assert(chunk@.skip(taken as int)[0] == chunk@[taken as int]);
                assert(old(self)@.bytes + chunk@.take(taken + 1) =~= after);
            }
            buffer.push(chunk[taken]);
            taken = taken + 1;
        }
        proof {
            if taken == chunk@.len() {
                assert(chunk@.skip(taken as int).len() == 0);
            }
        }
        self.buffer = buffer;
        taken
    }

    /// The bytes taken so far.
    pub fn bytes(&self) -> (bytes: &[u8])
        ensures
            bytes@ == self@.bytes,
            spec_frame_exact(self@.kind, self@.bytes),
    {
        proof {
            use_type_invariant(self);
        }
        self.buffer.as_slice()
    }

    /// The bytes taken, given up by the reader.
    pub fn into_bytes(self) -> (bytes: Vec<u8>)
        ensures
            bytes@ == self@.bytes,
            spec_frame_exact(self@.kind, self@.bytes),
    {
        proof {
            use_type_invariant(&self);
        }
        self.buffer
    }
}

/// Offering a reader two chunks one after the other is offering it the two
/// laid end to end.
pub proof fn lemma_absorb_split(kind: FrameKind, buffer: Seq<u8>, first: Seq<u8>, second: Seq<u8>)
    ensures
        spec_absorb(kind, spec_absorb(kind, buffer, first), second) == spec_absorb(
            kind,
            buffer,
            first + second,
        ),
    decreases first.len(),
{
    if first.len() == 0 {
        assert(first + second =~= second);
    } else if spec_frame_need(kind, buffer) == 0 {
        lemma_absorb_done(kind, buffer, second);
        lemma_absorb_done(kind, buffer, first + second);
    } else {
        assert((first + second).drop_first() =~= first.drop_first() + second);
        lemma_absorb_split(kind, buffer.push(first[0]), first.drop_first(), second);
    }
}

/// A reader that needs nothing takes nothing.
pub proof fn lemma_absorb_done(kind: FrameKind, buffer: Seq<u8>, chunk: Seq<u8>)
    requires
        spec_frame_need(kind, buffer) == 0,
    ensures
        spec_absorb(kind, buffer, chunk) == buffer,
{
}

/// Fragmented delivery: in whatever chunks a stream delivers its bytes, the
/// reader ends up holding what it would hold had the bytes come at once.
pub proof fn lemma_absorb_all_is_absorb_concat(
    kind: FrameKind,
    buffer: Seq<u8>,
    chunks: Seq<Seq<u8>>,
)
    ensures
        spec_absorb_all(kind, buffer, chunks) == spec_absorb(kind, buffer, spec_concat(chunks)),
    decreases chunks.len(),
{
    if chunks.len() > 0 {
        lemma_absorb_all_is_absorb_concat(
            kind,
            spec_absorb(kind, buffer, chunks[0]),
            chunks.drop_first(),
        );
        lemma_absorb_split(kind, buffer, chunks[0], spec_concat(chunks.drop_first()));
    }
}

/// Where the reader stops: it takes the first `count` bytes of `chunk` if
/// more is needed before each of them, and nothing is needed after the last
/// of them or the chunk ends there.
pub proof fn lemma_absorb_stops(kind: FrameKind, buffer: Seq<u8>, chunk: Seq<u8>, count: int)
    requires
        0 <= count <= chunk.len(),
        forall|j: int|
            0 <= j < count ==> spec_frame_need(kind, #[trigger] (buffer + chunk.take(j))) > 0,
        count == chunk.len() || spec_frame_need(kind, buffer + chunk.take(count)) == 0,
    ensures
        spec_absorb(kind, buffer, chunk) == buffer + chunk.take(count),
    decreases chunk.len(),
{
    assert(buffer + chunk.take(0) =~= buffer);
    if count == 0 {
    } else {
        let next = buffer.push(chunk[0]);
        let rest = chunk.drop_first();
        assert forall|j: int| 0 <= j < count - 1 implies spec_frame_need(
            kind,
            #[trigger] (next + rest.take(j)),
        ) > 0 by {
            assert(next + rest.take(j) =~= buffer + chunk.take(j + 1));
        }
        assert(next + rest.take(count - 1) =~= buffer + chunk.take(count));
        lemma_absorb_stops(kind, next, rest, count - 1);
    }
}

/// A reader of requests needs more before the end of an encoded request and
/// nothing at its end.
pub proof fn lemma_request_frame(request: RequestView, count: int)
    requires
        request.wf(),
        0 <= count <= spec_encode_request(request).len(),
    ensures
        spec_frame_need(FrameKind::Request, spec_encode_request(request).take(count)) == 0
            <==> count == spec_encode_request(request).len(),
{
    let whole = spec_encode_request(request);
    let prefix = whole.take(count);
    lemma_header_codes(request.command, request.address_kind, AuthMethod::NoAuthenticationRequired, 0);
    assert(whole[0] == VERSION);
    assert(whole[3] == request.address_kind.spec_code());
    assert(whole[4] == request.address[0]);
    assert(whole.len() == 6 + request.address.len());
    if count >= 1 {
        assert(prefix[0] == whole[0]);
    }
    if count >= 4 {
        assert(prefix[3] == whole[3]);
    }
    if count >= 5 {
        assert(prefix[4] == whole[4]);
    }
}

/// Fragmented delivery of a request: however an encoded request is cut
/// into chunks, and whatever follows it in the last of them, the reader ends
/// up holding exactly the encoded request, which decodes to the request.
pub proof fn lemma_request_survives_fragmentation(
    request: RequestView,
    chunks: Seq<Seq<u8>>,
    tail: Seq<u8>,
)
    requires
        request.wf(),
        spec_concat(chunks) == spec_encode_request(request) + tail,
    ensures
        spec_absorb_all(FrameKind::Request, Seq::<u8>::empty(), chunks) == spec_encode_request(
            request,
        ),
        spec_absorb(
            FrameKind::Request,
            Seq::<u8>::empty(),
            spec_encode_request(request),
        ) == spec_encode_request(request),
        spec_decode_request(spec_absorb_all(FrameKind::Request, Seq::<u8>::empty(), chunks)) == Ok::<
            RequestView,
            MalformedMessage,
        >(request),
{
    let whole = spec_encode_request(request);
    let empty = Seq::<u8>::empty();
    let stream = whole + tail;
    let count = whole.len() as int;
    assert forall|j: int| 0 <= j < count implies spec_frame_need(
        FrameKind::Request,
        #[trigger] (empty + stream.take(j)),
    ) > 0 by {
        assert(empty + stream.take(j) =~= whole.take(j));
        lemma_request_frame(request, j);
    }
    assert(empty + stream.take(count) =~= whole);
    assert(whole.take(count) =~= whole);
    lemma_request_frame(request, count);
    lemma_absorb_stops(FrameKind::Request, empty, stream, count);
    lemma_absorb_all_is_absorb_concat(FrameKind::Request, empty, chunks);
    assert forall|j: int| 0 <= j < count implies spec_frame_need(
        FrameKind::Request,
        #[trigger] (empty + whole.take(j)),
    ) > 0 by {
        assert(empty + whole.take(j) =~= whole.take(j));
        lemma_request_frame(request, j);
    }
    lemma_absorb_stops(FrameKind::Request, empty, whole, count);
    lemma_request_round_trip(request);
}

/// Fragmented delivery of a greeting: however a greeting is cut into
/// chunks, and whatever follows it in the last of them, the reader ends up
/// holding exactly the greeting, which decodes to the methods it offers.
pub proof fn lemma_greeting_survives_fragmentation(
    methods: Seq<u8>,
    chunks: Seq<Seq<u8>>,
    tail: Seq<u8>,
)
    requires
        methods.len() <= 255,
        spec_concat(chunks) == seq![VERSION, methods.len() as u8] + methods + tail,
    ensures
        spec_absorb_all(FrameKind::Greeting, Seq::<u8>::empty(), chunks) == seq![
            VERSION,
            methods.len() as u8,
        ] + methods,
        spec_decode_greeting(
            spec_absorb_all(FrameKind::Greeting, Seq::<u8>::empty(), chunks),
        ) == Ok::<GreetingView, MalformedMessage>(GreetingView { version: VERSION, methods }),
{
    let whole = seq![VERSION, methods.len() as u8] + methods;
    let empty = Seq::<u8>::empty();
    let stream = whole + tail;
    let count = whole.len() as int;
    assert(whole[0] == VERSION);
    assert(whole[1] == methods.len() as u8);
    assert forall|j: int| 0 <= j < count implies spec_frame_need(
        FrameKind::Greeting,
        #[trigger] (empty + stream.take(j)),
    ) > 0 by {
        let prefix = empty + stream.take(j);
        assert(prefix =~= whole.take(j));
        if j >= 1 {
            assert(prefix[0] == whole[0]);
        }
        if j >= 2 {
            assert(prefix[1] == whole[1]);
        }
    }
    assert(empty + stream.take(count) =~= whole);
    lemma_absorb_stops(FrameKind::Greeting, empty, stream, count);
    lemma_absorb_all_is_absorb_concat(FrameKind::Greeting, empty, chunks);
    assert(whole.subrange(2, count) =~= methods);
}

/// What a finished reader holds can be judged: where nothing more is
/// needed, the bytes held decode or fail for another reason than their
/// length; and bytes that decode are a whole message with nothing after it.
pub proof fn lemma_frame_decided(kind: FrameKind, bytes: Seq<u8>)
    requires
        spec_frame_exact(kind, bytes),
    ensures
        kind == FrameKind::Greeting ==> (spec_frame_need(kind, bytes) == 0 <==> spec_decode_greeting(
            bytes,
        ) != Err::<GreetingView, MalformedMessage>(MalformedMessage::Length)),
        kind == FrameKind::Request && spec_frame_need(kind, bytes) == 0 ==> spec_decode_request(
            bytes,
        ) != Err::<RequestView, MalformedMessage>(MalformedMessage::Length),
        kind == FrameKind::Request && spec_decode_request(bytes) is Ok ==> spec_frame_need(
            kind,
            bytes,
        ) == 0 && bytes.len() == spec_decode_request(bytes)->Ok_0.encoded_len(),
{
    match kind {
        FrameKind::Greeting => {
            if bytes.len() >= 2 && bytes.len() > 2 + bytes[1] {
                let cut = 2 + bytes[1] as int;
                assert(bytes.take(cut)[0] == bytes[0]);
                assert(bytes.take(cut)[1] == bytes[1]);
                assert(spec_frame_need(kind, bytes.take(cut)) > 0);
            }
            if bytes.len() >= 2 && bytes[0] != VERSION {
                assert(bytes.take(1)[0] == bytes[0]);
                assert(spec_frame_need(kind, bytes.take(1)) > 0);
            }
        },
        FrameKind::Request => {
            if spec_decode_request(bytes) is Ok {
                let request = spec_decode_request(bytes)->Ok_0;
                let cut = request.encoded_len() as int;
                if bytes.len() > cut {
                    assert(bytes.take(cut)[0] == bytes[0]);
                    assert(bytes.take(cut)[3] == bytes[3]);
                    assert(bytes.take(cut)[4] == bytes[4]);
                    assert(spec_frame_need(kind, bytes.take(cut)) > 0);
                }
            }
        },
    }
}

/// A reader holds little: never more than the 257 bytes of the longest
/// greeting or the 262 bytes of the longest request, whatever the client
/// sends.
pub proof fn lemma_frame_is_bounded(kind: FrameKind, bytes: Seq<u8>)
    requires
        spec_frame_exact(kind, bytes),
    ensures
        kind == FrameKind::Greeting ==> bytes.len() <= 257,
        kind == FrameKind::Request ==> bytes.len() <= 262,
{
    if bytes.len() > 5 {
        let cut: int = if bytes[0] != VERSION {
            1
        } else {
            match kind {
                FrameKind::Greeting => 2 + bytes[1] as int,
                FrameKind::Request => match AddressKind::spec_from_code(bytes[3]) {
                    None => 4,
                    Some(AddressKind::IPv4) => 10,
                    Some(AddressKind::IPv6) => 22,
                    Some(AddressKind::DomainName) => 7 + bytes[4] as int,
                },
            }
        };
        if cut < bytes.len() {
            let prefix = bytes.take(cut);
            assert(prefix[0] == bytes[0]);
            if cut >= 2 {
                assert(prefix[1] == bytes[1]);
            }
            if cut >= 5 {
                assert(prefix[3] == bytes[3]);
                assert(prefix[4] == bytes[4]);
            }
            if cut == 4 {
                assert(prefix[3] == bytes[3]);
            }
            assert(spec_frame_need(kind, prefix) == 0);
        }
    }
}

} // verus!
