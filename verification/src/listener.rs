//! The accept loop's decisions: when it ends, and what it does about a
//! failed accept.

use crate::addr::{IpAddress, SocketAddress};
use vstd::prelude::*;

verus! {

/// A future that can be cancelled by a flag.
#[derive(Clone, Copy, Debug, PartialEq, Eq, Structural)]
pub struct Cancelable {
    pub canceled: bool,
}

/// What a poll of a cancelable future does.
#[derive(Clone, Copy, Debug, PartialEq, Eq, Structural)]
pub enum PollStep {
    /// Resolve successfully, without polling the inner future.
    Ready,
    /// Poll the inner future and pass on what it says.
    Inner,
}

/// Why an accept failed.
#[derive(Clone, Copy, Debug, PartialEq, Eq, Structural)]
pub enum AcceptFault {
    /// The process has no file descriptor left.
    ProcessFilesExhausted,
    /// The system has no file descriptor left.
    SystemFilesExhausted,
    /// Anything else.
    Other,
}

/// What the accept loop does after a failed accept. It goes on either way.
#[derive(Clone, Copy, Debug, PartialEq, Eq, Structural)]
pub enum AcceptAction {
    /// Accept again at once.
    Retry,
    /// Wait this many milliseconds, then accept again.
    Backoff(u64),
}

/// How long the accept loop waits when file descriptors have run out.
pub const ACCEPT_BACKOFF_MS: u64 = 1000;

/// The address family of IPv4 in a raw socket address.
pub const FAMILY_V4: u16 = 2;

/// The address family of IPv6 in a raw socket address.
pub const FAMILY_V6: u16 = 10;

/// The size of a raw IPv4 socket address.
pub const RAW_V4_LEN: usize = 16;

/// The size of a raw IPv6 socket address.
pub const RAW_V6_LEN: usize = 28;

/// What the accept loop does after an accept failed with `fault`.
pub open spec fn spec_on_accept_error(fault: AcceptFault) -> AcceptAction {
    match fault {
        AcceptFault::ProcessFilesExhausted => AcceptAction::Backoff(ACCEPT_BACKOFF_MS),
        AcceptFault::SystemFilesExhausted => AcceptAction::Backoff(ACCEPT_BACKOFF_MS),
        AcceptFault::Other => AcceptAction::Retry,
    }
}

/// The number that `bytes` spell, most significant byte first.
pub open spec fn big_endian(bytes: Seq<u8>) -> nat
    decreases bytes.len(),
{
    if bytes.len() == 0 {
        0
    } else {
        big_endian(bytes.drop_last()) * 256 + bytes.last() as nat
    }
}

/// The socket address that a raw socket address of the given family holds:
/// after the two bytes of the family come the port and, for IPv6 after four
/// more bytes, the address, both most significant byte first. Anything of
/// another family or size holds none.
pub open spec fn spec_parse_raw(family: u16, raw: Seq<u8>) -> Option<SocketAddress> {
    if family == FAMILY_V4 && raw.len() == RAW_V4_LEN {
        Some(
            SocketAddress {
                ip: IpAddress::V4(big_endian(raw.subrange(4, 8)) as u32),
                port: big_endian(raw.subrange(2, 4)) as u16,
            },
        )
    } else if family == FAMILY_V6 && raw.len() == RAW_V6_LEN {
        Some(
            SocketAddress {
                ip: IpAddress::V6(big_endian(raw.subrange(8, 24)) as u128),
                port: big_endian(raw.subrange(2, 4)) as u16,
            },
        )
    } else {
        None
    }
}

impl Cancelable {
    /// What a poll does: a cancelled future is ready, another polls on.
    pub open spec fn spec_poll(self) -> PollStep {
        if self.canceled {
            PollStep::Ready
        } else {
            PollStep::Inner
        }
    }

    /// A future that has not been cancelled.
    pub fn new() -> (fresh: Cancelable)
        ensures
            fresh == (Cancelable { canceled: false }),
    {
        Cancelable { canceled: false }
    }

    /// Cancels the future: every poll from now on is ready at once.
    pub fn cancel(&mut self)
        ensures
            *final(self) == (Cancelable { canceled: true }),
    {
        self.canceled = true;
    }

    /// Decides a poll.
    pub fn poll(&self) -> (step: PollStep)
        ensures
            step == self.spec_poll(),
    {
        if self.canceled {
            PollStep::Ready
        } else {
            PollStep::Inner
        }
    }
}

/// Decides what the accept loop does after a failed accept: it backs off for
/// a second where file descriptors have run out, and retries at once
/// otherwise.
pub fn on_accept_error(fault: AcceptFault) -> (action: AcceptAction)
    ensures
        action == spec_on_accept_error(fault),
{
    match fault {
        AcceptFault::ProcessFilesExhausted => AcceptAction::Backoff(ACCEPT_BACKOFF_MS),
        AcceptFault::SystemFilesExhausted => AcceptAction::Backoff(ACCEPT_BACKOFF_MS),
        AcceptFault::Other => AcceptAction::Retry,
    }
}

/// Reads `raw[from..to]` as a number, most significant byte first.
fn read_big_endian(raw: &[u8], from: usize, to: usize) -> (value: u128)
    requires
        from <= to <= raw.len(),
        to - from <= 16,
    ensures
        value == big_endian(raw@.subrange(from as int, to as int)),
{
    let mut value: u128 = 0;
    let mut i: usize = from;
    assert(raw@.subrange(from as int, from as int) =~= Seq::<u8>::empty());
    while i < to
        invariant
            from <= i <= to <= raw.len(),
            to - from <= 16,
            value == big_endian(raw@.subrange(from as int, i as int)),
            value < pow256((i - from) as nat),
        decreases to - i,
    {
        proof {
            let next = raw@.subrange(from as int, i + 1);
            assert(next.drop_last() =~= raw@.subrange(from as int, i as int));
            assert(next.last() == raw@[i as int]);
            lemma_pow256_bound((i - from) as nat);
        }
        value = value * 256 + raw[i] as u128;
        i += 1;
    }
    value
}

/// 256 to the power of `n`.
spec fn pow256(n: nat) -> nat
    decreases n,
{
    if n == 0 {
        1
    } else {
        256 * pow256((n - 1) as nat)
    }
}

proof fn lemma_pow256_bound(n: nat)
    requires
        n < 16,
    ensures
        pow256(n) * 256 == pow256(n + 1),
        pow256(n + 1) <= 0x1_0000_0000_0000_0000_0000_0000_0000_0000,
    decreases n,
{
    reveal_with_fuel(pow256, 18);
}

/// Reads the socket address out of a raw socket address, as the operating
/// system hands over the original destination of a redirected connection.
pub fn parse_raw(family: u16, raw: &[u8]) -> (addr: Option<SocketAddress>)
    ensures
        addr == spec_parse_raw(family, raw@),
{
    if family == FAMILY_V4 && raw.len() == RAW_V4_LEN {
        let port = read_big_endian(raw, 2, 4);
        let bits = read_big_endian(raw, 4, 8);
        Some(SocketAddress { ip: IpAddress::V4(bits as u32), port: port as u16 })
    } else if family == FAMILY_V6 && raw.len() == RAW_V6_LEN {
        let port = read_big_endian(raw, 2, 4);
        let bits = read_big_endian(raw, 8, 24);
        Some(SocketAddress { ip: IpAddress::V6(bits), port: port as u16 })
    } else {
        None
    }
}

/// A cancelled accept loop stays cancelled: nothing but `cancel` touches the
/// flag, and `cancel` only sets it.
pub proof fn law_cancel_is_final(state: Cancelable)
    ensures
        (Cancelable { canceled: true }).spec_poll() == PollStep::Ready,
        state.canceled ==> state.spec_poll() == PollStep::Ready,
{
}

} // verus!
