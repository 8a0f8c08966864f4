//! Service keys: the identity under which a request is routed.

use crate::addr::{
    decimal, host_port, is_decimal_digit, law_host_port_names_one_address, push_decimal,
    SocketAddress,
};
use vstd::prelude::*;

verus! {

/// Which way traffic flows through a listener.
#[derive(Clone, Copy, Debug, PartialEq, Eq, Structural, Hash)]
pub enum Direction {
    /// From outside to the local application.
    Inbound,
    /// From the local application to other services.
    Outbound,
}

/// No service key could be derived from a request.
#[derive(Clone, Copy, Debug, PartialEq, Eq, Structural)]
pub struct NotRecognized;

/// What routing reads of a request: the `:authority` of an HTTP/2 request and
/// the `Host` header of an HTTP/1 request, where present.
#[derive(Debug)]
pub struct RequestHead {
    pub authority: Option<Vec<u8>>,
    pub host: Option<Vec<u8>>,
}

/// The canonical identity of a routed service: an authority with its host in
/// lower case, or the `host:port` text of a socket address.
#[derive(Debug, Hash)]
pub struct Key {
    bytes: Vec<u8>,
}

/// The listener-wide part of key derivation.
#[derive(Clone, Copy, Debug, PartialEq, Eq, Structural)]
pub struct Recognize {
    /// The direction of the listener's traffic.
    pub direction: Direction,
    /// The address the listener is bound to.
    pub local: SocketAddress,
    /// Where inbound traffic goes when a connection carries no original
    /// destination.
    pub forward: Option<SocketAddress>,
}

/// An ASCII letter in lower case; any other byte unchanged.
pub open spec fn lower(b: u8) -> u8 {
    if 0x41 <= b <= 0x5a {
        (b + 0x20) as u8
    } else {
        b
    }
}

/// `text` with every ASCII letter in lower case.
///
/// In an authority only the host can hold letters: the port and the colon
/// before it stay as they are.
pub open spec fn lowercase(text: Seq<u8>) -> Seq<u8> {
    Seq::new(text.len(), |i: int| lower(text[i]))
}

/// The first of the two that is there and not empty.
pub open spec fn first_present(a: Option<Seq<u8>>, b: Option<Seq<u8>>) -> Option<Seq<u8>> {
    if a is Some && a->0.len() > 0 {
        a
    } else if b is Some && b->0.len() > 0 {
        b
    } else {
        None
    }
}

/// The key for a request with the given authority on a connection with the
/// given original destination.
///
/// A connection whose original destination is the listener itself would loop
/// and is never recognized. Outbound, the authority decides and the original
/// destination stands in where there is none. Inbound, the authority is not
/// looked at: the original destination decides, and the configured forward
/// address stands in where there is none.
pub open spec fn spec_recognize(
    rule: Recognize,
    authority: Option<Seq<u8>>,
    original_dst: Option<SocketAddress>,
) -> Result<Seq<u8>, NotRecognized> {
    if original_dst == Some(rule.local) {
        Err(NotRecognized)
    } else {
        match rule.direction {
            Direction::Outbound => {
                if authority is Some {
                    Ok(lowercase(authority->0))
                } else if original_dst is Some {
                    Ok(host_port(original_dst->0))
                } else {
                    Err(NotRecognized)
                }
            },
            Direction::Inbound => {
                if original_dst is Some {
                    Ok(host_port(original_dst->0))
                } else if rule.forward is Some {
                    Ok(host_port(rule.forward->0))
                } else {
                    Err(NotRecognized)
                }
            },
        }
    }
}

/// Where the requests of a connection are forwarded without asking
/// discovery: inbound, to the original destination, or to the configured
/// forward address where there is none; outbound, nowhere. A connection
/// whose original destination is the listener itself is forwarded nowhere.
pub open spec fn spec_destination(rule: Recognize, original_dst: Option<SocketAddress>) -> Option<
    SocketAddress,
> {
    if original_dst == Some(rule.local) {
        None
    } else {
        match rule.direction {
            Direction::Inbound => if original_dst is Some {
                original_dst
            } else {
                rule.forward
            },
            Direction::Outbound => None,
        }
    }
}

/// Whether `text` ends in a port: a colon and, after it, decimal digits to
/// the end.
pub open spec fn ends_in_port(text: Seq<u8>) -> bool {
    exists|i: int|
        0 <= i < text.len() - 1 && #[trigger] text[i] == 0x3a && forall|k: int|
            i < k < text.len() ==> is_decimal_digit(#[trigger] text[k])
}

/// The name under which discovery is asked about a key, always of the form
/// `host:port`: the key itself where it ends in a port, else the key with
/// the default port after it.
pub open spec fn spec_subscription(key: Seq<u8>, default_port: u16) -> Seq<u8> {
    if ends_in_port(key) {
        key
    } else {
        key.push(0x3a) + decimal(default_port as nat)
    }
}

/// The view of an optional byte string.
pub open spec fn bytes_view(text: Option<Vec<u8>>) -> Option<Seq<u8>> {
    match text {
        Some(v) => Some(v@),
        None => None,
    }
}

impl RequestHead {
    /// The authority that routing goes by: `:authority` where the request has
    /// one, else its `Host` header; an empty value counts as absent.
    pub open spec fn effective_authority(&self) -> Option<Seq<u8>> {
        first_present(bytes_view(self.authority), bytes_view(self.host))
    }
}

impl View for Key {
    type V = Seq<u8>;

    closed spec fn view(&self) -> Seq<u8> {
        self.bytes@
    }
}

/// `text` with every ASCII letter in lower case.
pub fn to_lowercase(text: &[u8]) -> (out: Vec<u8>)
    ensures
        out@ == lowercase(text@),
{
    let mut out: Vec<u8> = Vec::new();
    let mut i: usize = 0;
    while i < text.len()
        invariant
            i <= text.len(),
            out@.len() == i,
            forall|k: int| 0 <= k < i ==> out@[k] == lower(text@[k]),
        decreases text.len() - i,
    {
        let b = text[i];
        if 0x41 <= b && b <= 0x5a {
            out.push(b + 0x20);
        } else {
            out.push(b);
        }
        i += 1;
    }
    assert(out@ =~= lowercase(text@));
    out
}

/// Whether `text` ends in a port: a colon and, after it, decimal digits to
/// the end.
pub fn has_port(text: &[u8]) -> (found: bool)
    ensures
        found == ends_in_port(text@),
{
    let n = text.len();
    let mut i: usize = n;
    while i > 0 && 0x30 <= text[i - 1] && text[i - 1] <= 0x39
        invariant
            i <= n == text.len(),
            forall|k: int| i <= k < n ==> is_decimal_digit(#[trigger] text@[k]),
        decreases i,
    {
        i -= 1;
    }
    if i == n || i == 0 {
        assert(!ends_in_port(text@)) by {
            if ends_in_port(text@) {
                let j = choose|j: int|
                    0 <= j < text@.len() - 1 && #[trigger] text@[j] == 0x3a && forall|k: int|
                        j < k < text@.len() ==> is_decimal_digit(#[trigger] text@[k]);
                if i == n {
                    assert(is_decimal_digit(text@[n - 1]));
                } else {
                    assert(is_decimal_digit(text@[j]));
                }
            }
        }
        return false;
    }
    if text[i - 1] == 0x3a {
        assert(text@[i - 1] == 0x3a);
        true
    } else {
        assert(!ends_in_port(text@)) by {
            if ends_in_port(text@) {
                let j = choose|j: int|
                    0 <= j < text@.len() - 1 && #[trigger] text@[j] == 0x3a && forall|k: int|
                        j < k < text@.len() ==> is_decimal_digit(#[trigger] text@[k]);
                if j < i - 1 {
                    assert(is_decimal_digit(text@[i - 1]));
                } else if j >= i {
                    assert(is_decimal_digit(text@[j]));
                }
            }
        }
        false
    }
}

impl Key {
    /// The name under which discovery is asked about the key: `host:port`,
    /// with `default_port` where the key names no port.
    pub fn subscription(&self, default_port: u16) -> (name: Vec<u8>)
        ensures
            name@ == spec_subscription(self@, default_port),
    {
        let mut name = self.duplicate().bytes;
        if !has_port(self.bytes.as_slice()) {
            name.push(0x3a);
            push_decimal(&mut name, default_port);
        }
        name
    }

    /// The key for an authority: the same bytes, letters in lower case.
    pub fn from_authority(authority: &[u8]) -> (key: Key)
        ensures
            key@ == lowercase(authority@),
    {
        Key { bytes: to_lowercase(authority) }
    }

    /// The key for a socket address: its `host:port` text.
    pub fn from_address(addr: &SocketAddress) -> (key: Key)
        ensures
            key@ == host_port(*addr),
    {
        Key { bytes: addr.to_host_port() }
    }

    /// The key's bytes.
    pub fn as_bytes(&self) -> (bytes: &[u8])
        ensures
            bytes@ == self@,
    {
        self.bytes.as_slice()
    }

    /// A copy of the key.
    pub fn duplicate(&self) -> (copy: Key)
        ensures
            copy@ == self@,
    {
        let mut bytes: Vec<u8> = Vec::new();
        let mut i: usize = 0;
        while i < self.bytes.len()
            invariant
                i <= self.bytes.len(),
                bytes@ == self.bytes@.subrange(0, i as int),
            decreases self.bytes.len() - i,
        {
            bytes.push(self.bytes[i]);
            assert(bytes@ =~= self.bytes@.subrange(0, i + 1));
            i += 1;
        }
        assert(bytes@ =~= self.bytes@);
        Key { bytes }
    }

    /// Whether two keys are the same, byte for byte.
    pub fn same(&self, other: &Key) -> (equal: bool)
        ensures
            equal == (self@ == other@),
    {
        if self.bytes.len() != other.bytes.len() {
            return false;
        }
        let mut i: usize = 0;
        while i < self.bytes.len()
            invariant
                i <= self.bytes.len(),
                self.bytes.len() == other.bytes.len(),
                forall|k: int| 0 <= k < i ==> self.bytes@[k] == other.bytes@[k],
            decreases self.bytes.len() - i,
        {
            if self.bytes[i] != other.bytes[i] {
                return false;
            }
            i += 1;
        }
        assert(self.bytes@ =~= other.bytes@);
        true
    }
}

impl Recognize {
    /// Says where the requests of a connection are forwarded without asking
    /// discovery, if anywhere.
    pub fn destination(&self, original_dst: Option<SocketAddress>) -> (to: Option<SocketAddress>)
        ensures
            to == spec_destination(*self, original_dst),
    {
        if let Some(dst) = original_dst {
            if dst == self.local {
                return None;
            }
        }
        match self.direction {
            Direction::Inbound => match original_dst {
                Some(dst) => Some(dst),
                None => self.forward,
            },
            Direction::Outbound => None,
        }
    }

    /// Derives the service key of a request from its head and from the
    /// original destination of the connection it came on.
    pub fn recognize(&self, request: &RequestHead, original_dst: Option<SocketAddress>) -> (key:
        Result<Key, NotRecognized>)
        ensures
            key is Ok == spec_recognize(*self, request.effective_authority(), original_dst) is Ok,
            key is Ok ==> Ok::<Seq<u8>, NotRecognized>(key->Ok_0@) == spec_recognize(
                *self,
                request.effective_authority(),
                original_dst,
            ),
    {
        if let Some(dst) = original_dst {
            if dst == self.local {
                return Err(NotRecognized);
            }
        }
        match self.direction {
            Direction::Outbound => {
                if let Some(authority) = &request.authority {
                    if authority.len() > 0 {
                        return Ok(Key::from_authority(authority.as_slice()));
                    }
                }
                if let Some(host) = &request.host {
                    if host.len() > 0 {
                        return Ok(Key::from_authority(host.as_slice()));
                    }
                }
                match original_dst {
                    Some(dst) => Ok(Key::from_address(&dst)),
                    None => Err(NotRecognized),
                }
            },
            Direction::Inbound => {
                match original_dst {
                    Some(dst) => Ok(Key::from_address(&dst)),
                    None => match self.forward {
                        Some(fwd) => Ok(Key::from_address(&fwd)),
                        None => Err(NotRecognized),
                    },
                }
            },
        }
    }
}

/// An inbound request is recognized exactly when it has a destination, and
/// its key is the text of that destination.
pub proof fn law_inbound_key_is_destination(
    rule: Recognize,
    authority: Option<Seq<u8>>,
    original_dst: Option<SocketAddress>,
)
    requires
        rule.direction is Inbound,
    ensures
        spec_recognize(rule, authority, original_dst) is Ok <==> spec_destination(
            rule,
            original_dst,
        ) is Some,
        spec_recognize(rule, authority, original_dst) matches Ok(key) ==> key == host_port(
            spec_destination(rule, original_dst)->0,
        ),
{
}

/// The name under which discovery is asked always ends in a port, and a key
/// that ends in one is asked about as it is.
pub proof fn law_subscription_names_a_port(key: Seq<u8>, default_port: u16)
    ensures
        ends_in_port(spec_subscription(key, default_port)),
        ends_in_port(key) ==> spec_subscription(key, default_port) == key,
{
    if !ends_in_port(key) {
        let name = spec_subscription(key, default_port);
        crate::addr::lemma_decimal(default_port as nat);
        let digits = decimal(default_port as nat);
        let at = key.len() as int;
        assert(name[at] == 0x3a);
        assert forall|k: int| at < k < name.len() implies is_decimal_digit(#[trigger] name[k]) by {
            assert(name[k] == digits[k - at - 1]);
        }
    }
}

/// Key stability: two requests with the same authority, on connections with
/// the same original destination, get the same key from one listener.
pub proof fn law_key_stability(
    rule: Recognize,
    first: RequestHead,
    second: RequestHead,
    first_dst: Option<SocketAddress>,
    second_dst: Option<SocketAddress>,
)
    requires
        first.effective_authority() == second.effective_authority(),
        first_dst == second_dst,
    ensures
        spec_recognize(rule, first.effective_authority(), first_dst) == spec_recognize(
            rule,
            second.effective_authority(),
            second_dst,
        ),
{
}

/// Inbound keys tell destinations apart: two connections with original
/// destinations that differ never share a key.
pub proof fn law_inbound_keys_tell_destinations_apart(
    rule: Recognize,
    first_authority: Option<Seq<u8>>,
    second_authority: Option<Seq<u8>>,
    first_dst: SocketAddress,
    second_dst: SocketAddress,
)
    requires
        rule.direction is Inbound,
        spec_recognize(rule, first_authority, Some(first_dst)) is Ok,
        spec_recognize(rule, first_authority, Some(first_dst)) == spec_recognize(
            rule,
            second_authority,
            Some(second_dst),
        ),
    ensures
        first_dst == second_dst,
{
    law_host_port_names_one_address(first_dst, second_dst);
}

/// Keys ignore the case of letters in an authority.
pub proof fn law_key_ignores_case(a: Seq<u8>, b: Seq<u8>)
    requires
        a.len() == b.len(),
        forall|i: int| 0 <= i < a.len() ==> lower(a[i]) == lower(#[trigger] b[i]),
    ensures
        lowercase(a) == lowercase(b),
{
    assert(lowercase(a) =~= lowercase(b));
}

/// Lowercasing a key that is already in lower case changes nothing.
pub proof fn law_lowercase_idempotent(text: Seq<u8>)
    ensures
        lowercase(lowercase(text)) == lowercase(text),
{
    assert(lowercase(lowercase(text)) =~= lowercase(text));
}

} // verus!
