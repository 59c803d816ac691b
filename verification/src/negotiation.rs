//! The handshake: of the methods that the client offers, the server takes
//! the one that stands first in its own order of preference.

use vstd::prelude::*;
use crate::codec::{decode_greeting, spec_decode_greeting};
use crate::wire::{AuthMethod, MalformedMessage};

verus! {

/// `index` is the first place in `supported` that holds a method whose wire
/// byte is among `offered`.
pub open spec fn is_first_offered(supported: Seq<AuthMethod>, offered: Seq<u8>, index: int) -> bool {
    &&& 0 <= index < supported.len()
    &&& offered.contains(supported[index].spec_code())
    &&& forall|j: int| 0 <= j < index ==> !offered.contains(#[trigger] supported[j].spec_code())
}

/// The method that the server selects: the first of its own list that the
/// client offers, or none where the client offers none of them.
pub open spec fn spec_select_method(supported: Seq<AuthMethod>, offered: Seq<u8>) -> Option<
    AuthMethod,
> {
    if exists|i: int| is_first_offered(supported, offered, i) {
        Some(supported[choose|i: int| is_first_offered(supported, offered, i)])
    } else {
        None
    }
}

/// There is at most one first place.
pub proof fn lemma_first_offered_unique(
    supported: Seq<AuthMethod>,
    offered: Seq<u8>,
    i: int,
    k: int,
)
    requires
        is_first_offered(supported, offered, i),
        is_first_offered(supported, offered, k),
    ensures
        i == k,
{
    if i < k {
        assert(!offered.contains(supported[i].spec_code()));
    }
    if k < i {
        assert(!offered.contains(supported[k].spec_code()));
    }
}

/// Whether `byte` occurs in `bytes`.
pub fn contains_byte(bytes: &[u8], byte: u8) -> (found: bool)
    ensures
        found == bytes@.contains(byte),
{
    let mut i: usize = 0;
    while i < bytes.len()
        invariant
            i <= bytes.len(),
            forall|j: int| 0 <= j < i ==> bytes@[j] != byte,
        decreases bytes.len() - i,
    {
        if bytes[i] == byte {
            return true;
        }
        i = i + 1;
    }
    false
}

/// Selects the authentication method: the first entry of `supported`, the
/// server's list in its order of preference, that appears among the method
/// bytes that the client offered.
pub fn select_method(supported: &[AuthMethod], offered: &[u8]) -> (selected: Option<AuthMethod>)
    ensures
        selected == spec_select_method(supported@, offered@),
        selected matches Some(method) ==> offered@.contains(method.spec_code())
            && supported@.contains(method),
        selected is None ==> forall|i: int|
            0 <= i < supported@.len() ==> !offered@.contains(#[trigger] supported@[i].spec_code()),
{
    let mut i: usize = 0;
    while i < supported.len()
        invariant
            i <= supported.len(),
            forall|j: int| 0 <= j < i ==> !offered@.contains(#[trigger] supported@[j].spec_code()),
        decreases supported.len() - i,
    {
        if contains_byte(offered, supported[i].code()) {
            proof {
                assert(is_first_offered(supported@, offered@, i as int));
                let k = choose|k: int| is_first_offered(supported@, offered@, k);
                lemma_first_offered_unique(supported@, offered@, i as int, k);
            }
            return Some(supported[i]);
        }
        i = i + 1;
    }
    proof {
        assert forall|k: int| !is_first_offered(supported@, offered@, k) by {
            if 0 <= k < supported@.len() {
                assert(!offered@.contains(supported@[k].spec_code()));
            }
        }
    }
    None
}

/// What the handshake makes of the client's greeting: a greeting that does
/// not decode fails it, and one that decodes selects a method or none.
pub open spec fn spec_handshake(greeting: Seq<u8>, supported: Seq<AuthMethod>) -> Result<
    Option<AuthMethod>,
    MalformedMessage,
> {
    match spec_decode_greeting(greeting) {
        Ok(decoded) => Ok(spec_select_method(supported, decoded.methods)),
        Err(error) => Err(error),
    }
}

/// Runs the handshake on the bytes of the client's greeting. `Ok(None)`
/// says that none of the offered methods is acceptable.
pub fn handshake(greeting: &[u8], supported: &[AuthMethod]) -> (result: Result<
    Option<AuthMethod>,
    MalformedMessage,
>)
    ensures
        result == spec_handshake(greeting@, supported@),
{
    match decode_greeting(greeting) {
        Ok(decoded) => Ok(select_method(supported, decoded.methods.as_slice())),
        Err(error) => Err(error),
    }
}

} // verus!
