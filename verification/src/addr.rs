//! Network addresses as plain values, and their textual `host:port` form.

use vstd::prelude::*;

verus! {

/// An IP address: the 32 bits of an IPv4 address or the 128 bits of an IPv6
/// address, most significant byte first.
#[derive(Clone, Copy, Debug, PartialEq, Eq, Structural, Hash)]
pub enum IpAddress {
    V4(u32),
    V6(u128),
}

/// An IP address and a TCP port.
#[derive(Clone, Copy, Debug, PartialEq, Eq, Structural, Hash)]
pub struct SocketAddress {
    pub ip: IpAddress,
    pub port: u16,
}

/// The ASCII digit for `d`, in lower case from ten on.
pub open spec fn digit_char(d: nat) -> u8 {
    if d < 10 {
        (0x30 + d) as u8
    } else {
        (0x57 + d) as u8
    }
}

/// `n` in decimal, without leading zeros.
pub open spec fn decimal(n: nat) -> Seq<u8>
    decreases n,
{
    if n < 10 {
        seq![digit_char(n)]
    } else {
        decimal(n / 10).push(digit_char(n % 10))
    }
}

/// `n` in lower-case hexadecimal, without leading zeros.
pub open spec fn hexadecimal(n: nat) -> Seq<u8>
    decreases n,
{
    if n < 16 {
        seq![digit_char(n)]
    } else {
        hexadecimal(n / 16).push(digit_char(n % 16))
    }
}

/// Byte `i` of an IPv4 address, counted from the most significant.
pub open spec fn octet(ip: u32, i: int) -> u8 {
    ((ip >> (((3 - i) * 8) as u32)) & 0xff) as u8
}

/// Group `i` of an IPv6 address, counted from the most significant.
pub open spec fn group(ip: u128, i: int) -> u16 {
    ((ip >> (((7 - i) * 16) as u128)) & 0xffff) as u16
}

/// The first `n` groups of an IPv6 address in hexadecimal, a colon between
/// each two.
pub open spec fn groups_text(ip: u128, n: int) -> Seq<u8>
    decreases n,
{
    if n <= 0 {
        Seq::empty()
    } else if n == 1 {
        hexadecimal(group(ip, 0) as nat)
    } else {
        groups_text(ip, n - 1).push(0x3a) + hexadecimal(group(ip, n - 1) as nat)
    }
}

/// The textual form of an IP address: dotted decimal for IPv4; for IPv6 the
/// eight groups in lower-case hexadecimal, in square brackets.
pub open spec fn ip_text(ip: IpAddress) -> Seq<u8> {
    match ip {
        IpAddress::V4(bits) => decimal(octet(bits, 0) as nat).push(0x2e) + decimal(
            octet(bits, 1) as nat,
        ).push(0x2e) + decimal(octet(bits, 2) as nat).push(0x2e) + decimal(octet(bits, 3) as nat),
        IpAddress::V6(bits) => seq![0x5bu8] + groups_text(bits, 8).push(0x5d),
    }
}

/// The `host:port` form of a socket address.
pub open spec fn host_port(addr: SocketAddress) -> Seq<u8> {
    ip_text(addr.ip).push(0x3a) + decimal(addr.port as nat)
}

/// Appends `n` in decimal to `out`.
pub fn push_decimal(out: &mut Vec<u8>, n: u16)
    ensures
        final(out)@ == old(out)@ + decimal(n as nat),
    decreases n,
{
    if n >= 10 {
        push_decimal(out, n / 10);
    }
    let d: u16 = n % 10;
    out.push((0x30 + d) as u8);
    assert(final(out)@ =~= old(out)@ + decimal(n as nat));
}

/// Appends `n` in lower-case hexadecimal to `out`.
pub fn push_hex(out: &mut Vec<u8>, n: u16)
    ensures
        final(out)@ == old(out)@ + hexadecimal(n as nat),
    decreases n,
{
    if n >= 16 {
        push_hex(out, n / 16);
    }
    let d: u16 = n % 16;
    if d < 10 {
        out.push((0x30 + d) as u8);
    } else {
        out.push((0x57 + d) as u8);
    }
    assert(final(out)@ =~= old(out)@ + hexadecimal(n as nat));
}

impl SocketAddress {
    /// The address as `host:port` text.
    pub fn to_host_port(&self) -> (text: Vec<u8>)
        ensures
            text@ == host_port(*self),
    {
        let mut out: Vec<u8> = Vec::new();
        match self.ip {
            IpAddress::V4(bits) => {
                push_decimal(&mut out, ((bits >> 24) & 0xff) as u8 as u16);
                out.push(0x2e);
                push_decimal(&mut out, ((bits >> 16) & 0xff) as u8 as u16);
                out.push(0x2e);
                push_decimal(&mut out, ((bits >> 8) & 0xff) as u8 as u16);
                out.push(0x2e);
                push_decimal(&mut out, ((bits >> 0) & 0xff) as u8 as u16);
                assert(out@ =~= ip_text(IpAddress::V4(bits)));
            },
            IpAddress::V6(bits) => {
                out.push(0x5b);
                let mut i: usize = 0;
                while i < 8
                    invariant
                        i <= 8,
                        out@ == seq![0x5bu8] + groups_text(bits, i as int),
                    decreases 8 - i,
                {
                    if i > 0 {
                        out.push(0x3a);
                    }
                    let shift: u128 = ((7 - i) * 16) as u128;
                    let part: u16 = ((bits >> shift) & 0xffff) as u16;
                    assert(part == group(bits, i as int));
                    let ghost before = out@;
                    push_hex(&mut out, part);
                    assert(out@ =~= seq![0x5bu8] + groups_text(bits, i + 1));
                    i += 1;
                }
                out.push(0x5d);
                assert(out@ =~= ip_text(IpAddress::V6(bits)));
            },
        }
        out.push(0x3a);
        let ghost before = out@;
        push_decimal(&mut out, self.port);
        assert(out@ =~= host_port(*self));
        out
    }
}

/// Whether `b` is a decimal digit.
pub open spec fn is_decimal_digit(b: u8) -> bool {
    0x30 <= b <= 0x39
}

/// Whether `b` is a hexadecimal digit in lower case.
pub open spec fn is_hex_digit(b: u8) -> bool {
    0x30 <= b <= 0x39 || 0x61 <= b <= 0x66
}

/// The number that a digit stands for.
pub open spec fn digit_value(b: u8) -> nat {
    if b <= 0x39 {
        (b - 0x30) as nat
    } else {
        (b - 0x57) as nat
    }
}

/// The number that decimal digits spell.
pub open spec fn decimal_value(text: Seq<u8>) -> nat
    decreases text.len(),
{
    if text.len() == 0 {
        0
    } else {
        decimal_value(text.drop_last()) * 10 + digit_value(text.last())
    }
}

/// The number that hexadecimal digits spell.
pub open spec fn hexadecimal_value(text: Seq<u8>) -> nat
    decreases text.len(),
{
    if text.len() == 0 {
        0
    } else {
        hexadecimal_value(text.drop_last()) * 16 + digit_value(text.last())
    }
}

/// A number in decimal is made of decimal digits, and they spell the number.
pub proof fn lemma_decimal(n: nat)
    ensures
        decimal(n).len() > 0,
        forall|k: int| 0 <= k < decimal(n).len() ==> is_decimal_digit(#[trigger] decimal(n)[k]),
        decimal_value(decimal(n)) == n,
    decreases n,
{
    if n < 10 {
        assert(decimal(n).drop_last() =~= Seq::<u8>::empty());
        assert(decimal_value(decimal(n).drop_last()) == 0);
    } else {
        lemma_decimal(n / 10);
        assert(decimal(n).drop_last() =~= decimal(n / 10));
    }
}

/// A number in hexadecimal is made of hexadecimal digits, and they spell the
/// number.
pub proof fn lemma_hexadecimal(n: nat)
    ensures
        hexadecimal(n).len() > 0,
        forall|k: int|
            0 <= k < hexadecimal(n).len() ==> is_hex_digit(#[trigger] hexadecimal(n)[k]),
        hexadecimal_value(hexadecimal(n)) == n,
    decreases n,
{
    if n < 16 {
        assert(hexadecimal(n).drop_last() =~= Seq::<u8>::empty());
        assert(hexadecimal_value(hexadecimal(n).drop_last()) == 0);
    } else {
        lemma_hexadecimal(n / 16);
        assert(hexadecimal(n).drop_last() =~= hexadecimal(n / 16));
    }
}

/// Where two texts are the same, and each begins with digits that a byte
/// which is no digit follows, the digits are the same, and so are the
/// bytes that follow them and what comes after those.
pub proof fn lemma_split(
    digit: spec_fn(u8) -> bool,
    first: Seq<u8>,
    first_end: u8,
    first_rest: Seq<u8>,
    second: Seq<u8>,
    second_end: u8,
    second_rest: Seq<u8>,
)
    requires
        forall|k: int| 0 <= k < first.len() ==> digit(#[trigger] first[k]),
        forall|k: int| 0 <= k < second.len() ==> digit(#[trigger] second[k]),
        !digit(first_end),
        !digit(second_end),
        first.push(first_end) + first_rest == second.push(second_end) + second_rest,
    ensures
        first == second,
        first_end == second_end,
        first_rest == second_rest,
{
    let left = first.push(first_end) + first_rest;
    let right = second.push(second_end) + second_rest;
    if first.len() < second.len() {
        assert(left[first.len() as int] == first_end);
        assert(right[first.len() as int] == second[first.len() as int]);
    } else if second.len() < first.len() {
        assert(right[second.len() as int] == second_end);
        assert(left[second.len() as int] == first[second.len() as int]);
    }
    assert(first.len() == second.len());
    assert forall|k: int| 0 <= k < first.len() implies first[k] == second[k] by {
        assert(left[k] == first[k]);
        assert(right[k] == second[k]);
    }
    assert(first =~= second);
    assert(left[first.len() as int] == first_end);
    assert(right[first.len() as int] == second_end);
    assert(left.len() == right.len());
    assert forall|k: int| 0 <= k < first_rest.len() implies first_rest[k] == second_rest[k] by {
        assert(left[first.len() + 1 + k] == first_rest[k]);
        assert(right[first.len() + 1 + k] == second_rest[k]);
    }
    assert(first_rest =~= second_rest);
}

/// The byte that follows group `i` in the text of an IPv6 address: a colon
/// between groups, the closing bracket after the last.
pub open spec fn group_end(i: int) -> u8 {
    if i == 7 {
        0x5d
    } else {
        0x3a
    }
}

/// The groups of an IPv6 address from `from` on, each with the byte that
/// follows it, and then `tail`.
pub open spec fn groups_from(ip: u128, from: int, tail: Seq<u8>) -> Seq<u8>
    decreases 8 - from,
{
    if from < 0 || from >= 8 {
        tail
    } else {
        hexadecimal(group(ip, from) as nat).push(group_end(from)) + groups_from(ip, from + 1, tail)
    }
}

/// The first groups, the byte after them, and the groups from there on make
/// up all the groups.
proof fn lemma_groups_regroup(ip: u128, k: int, tail: Seq<u8>)
    requires
        1 <= k <= 8,
    ensures
        groups_text(ip, k).push(group_end(k - 1)) + groups_from(ip, k, tail) == groups_from(
            ip,
            0,
            tail,
        ),
    decreases k,
{
    if k == 1 {
        assert(groups_text(ip, 1).push(group_end(0)) + groups_from(ip, 1, tail) =~= groups_from(
            ip,
            0,
            tail,
        ));
    } else {
        lemma_groups_regroup(ip, k - 1, tail);
        let text = hexadecimal(group(ip, k - 1) as nat);
        assert(groups_text(ip, k).push(group_end(k - 1)) + groups_from(ip, k, tail) =~= groups_text(
            ip,
            k - 1,
        ).push(0x3a) + (text.push(group_end(k - 1)) + groups_from(ip, k, tail)));
    }
}

/// Texts of groups that are the same come from the same groups and end in
/// the same tail.
proof fn lemma_groups_from_injective(a: u128, b: u128, from: int, a_tail: Seq<u8>, b_tail: Seq<u8>)
    requires
        0 <= from <= 8,
        groups_from(a, from, a_tail) == groups_from(b, from, b_tail),
    ensures
        a_tail == b_tail,
        forall|i: int| from <= i < 8 ==> group(a, i) == group(b, i),
    decreases 8 - from,
{
    if from < 8 {
        let a_text = hexadecimal(group(a, from) as nat);
        let b_text = hexadecimal(group(b, from) as nat);
        lemma_hexadecimal(group(a, from) as nat);
        lemma_hexadecimal(group(b, from) as nat);
        lemma_split(
            |c: u8| is_hex_digit(c),
            a_text,
            group_end(from),
            groups_from(a, from + 1, a_tail),
            b_text,
            group_end(from),
            groups_from(b, from + 1, b_tail),
        );
        lemma_groups_from_injective(a, b, from + 1, a_tail, b_tail);
        assert(group(a, from) == group(b, from));
    }
}

/// The four bytes of an IPv4 address determine it.
proof fn lemma_octets_determine(a: u32, b: u32)
    requires
        forall|i: int| 0 <= i < 4 ==> octet(a, i) == octet(b, i),
    ensures
        a == b,
{
    assert(octet(a, 0) == octet(b, 0) && octet(a, 1) == octet(b, 1) && octet(a, 2) == octet(b, 2)
        && octet(a, 3) == octet(b, 3));
    assert(a == b) by (bit_vector)
        requires
            ((a >> 24u32) & 0xff) as u8 == ((b >> 24u32) & 0xff) as u8,
            ((a >> 16u32) & 0xff) as u8 == ((b >> 16u32) & 0xff) as u8,
            ((a >> 8u32) & 0xff) as u8 == ((b >> 8u32) & 0xff) as u8,
            ((a >> 0u32) & 0xff) as u8 == ((b >> 0u32) & 0xff) as u8,
    ;
}

/// The eight groups of an IPv6 address determine it.
proof fn lemma_groups_determine(a: u128, b: u128)
    requires
        forall|i: int| 0 <= i < 8 ==> group(a, i) == group(b, i),
    ensures
        a == b,
{
    assert(group(a, 0) == group(b, 0) && group(a, 1) == group(b, 1) && group(a, 2) == group(b, 2)
        && group(a, 3) == group(b, 3));
    assert(group(a, 4) == group(b, 4) && group(a, 5) == group(b, 5) && group(a, 6) == group(b, 6)
        && group(a, 7) == group(b, 7));
    assert(a == b) by (bit_vector)
        requires
            ((a >> 112u128) & 0xffff) as u16 == ((b >> 112u128) & 0xffff) as u16,
            ((a >> 96u128) & 0xffff) as u16 == ((b >> 96u128) & 0xffff) as u16,
            ((a >> 80u128) & 0xffff) as u16 == ((b >> 80u128) & 0xffff) as u16,
            ((a >> 64u128) & 0xffff) as u16 == ((b >> 64u128) & 0xffff) as u16,
            ((a >> 48u128) & 0xffff) as u16 == ((b >> 48u128) & 0xffff) as u16,
            ((a >> 32u128) & 0xffff) as u16 == ((b >> 32u128) & 0xffff) as u16,
            ((a >> 16u128) & 0xffff) as u16 == ((b >> 16u128) & 0xffff) as u16,
            ((a >> 0u128) & 0xffff) as u16 == ((b >> 0u128) & 0xffff) as u16,
    ;
}

/// The text of an IPv4 socket address, taken apart from the left.
spec fn v4_parts(bits: u32, port: u16, from: int) -> Seq<u8>
    decreases 4 - from,
{
    if from < 0 || from >= 4 {
        decimal(port as nat)
    } else {
        decimal(octet(bits, from) as nat).push(
            if from == 3 {
                0x3au8
            } else {
                0x2eu8
            },
        ) + v4_parts(bits, port, from + 1)
    }
}

proof fn lemma_v4_parts_injective(a: u32, b: u32, a_port: u16, b_port: u16, from: int)
    requires
        0 <= from <= 4,
        v4_parts(a, a_port, from) == v4_parts(b, b_port, from),
    ensures
        a_port == b_port,
        forall|i: int| from <= i < 4 ==> octet(a, i) == octet(b, i),
    decreases 4 - from,
{
    if from < 4 {
        let end = if from == 3 {
            0x3au8
        } else {
            0x2eu8
        };
        lemma_decimal(octet(a, from) as nat);
        lemma_decimal(octet(b, from) as nat);
        lemma_split(
            |c: u8| is_decimal_digit(c),
            decimal(octet(a, from) as nat),
            end,
            v4_parts(a, a_port, from + 1),
            decimal(octet(b, from) as nat),
            end,
            v4_parts(b, b_port, from + 1),
        );
        lemma_v4_parts_injective(a, b, a_port, b_port, from + 1);
        assert(octet(a, from) == octet(b, from));
    } else {
        lemma_decimal(a_port as nat);
        lemma_decimal(b_port as nat);
    }
}

proof fn lemma_v4_unfold(bits: u32, port: u16)
    ensures
        host_port(SocketAddress { ip: IpAddress::V4(bits), port }) == v4_parts(bits, port, 0),
{
    let p4 = decimal(port as nat);
    let p3 = decimal(octet(bits, 3) as nat).push(0x3a) + p4;
    let p2 = decimal(octet(bits, 2) as nat).push(0x2e) + p3;
    let p1 = decimal(octet(bits, 1) as nat).push(0x2e) + p2;
    let p0 = decimal(octet(bits, 0) as nat).push(0x2e) + p1;
    assert(v4_parts(bits, port, 4) == p4);
    assert(v4_parts(bits, port, 3) == p3);
    assert(v4_parts(bits, port, 2) == p2);
    assert(v4_parts(bits, port, 1) == p1);
    assert(v4_parts(bits, port, 0) == p0);
    assert(host_port(SocketAddress { ip: IpAddress::V4(bits), port }) =~= p0);
}

proof fn lemma_v6_unfold(bits: u128, port: u16)
    ensures
        host_port(SocketAddress { ip: IpAddress::V6(bits), port }) == seq![0x5bu8] + groups_from(
            bits,
            0,
            seq![0x3au8] + decimal(port as nat),
        ),
{
    let tail = seq![0x3au8] + decimal(port as nat);
    lemma_groups_regroup(bits, 8, tail);
    assert(groups_from(bits, 8, tail) == tail);
    assert(host_port(SocketAddress { ip: IpAddress::V6(bits), port }) =~= seq![0x5bu8] + (
    groups_text(bits, 8).push(0x5d) + tail));
}

proof fn lemma_v4_names_one_address(x: u32, y: u32, x_port: u16, y_port: u16)
    requires
        host_port(SocketAddress { ip: IpAddress::V4(x), port: x_port }) == host_port(
            SocketAddress { ip: IpAddress::V4(y), port: y_port },
        ),
    ensures
        x == y,
        x_port == y_port,
{
    lemma_v4_unfold(x, x_port);
    lemma_v4_unfold(y, y_port);
    lemma_v4_parts_injective(x, y, x_port, y_port, 0);
    lemma_octets_determine(x, y);
}

proof fn lemma_v6_names_one_address(x: u128, y: u128, x_port: u16, y_port: u16)
    requires
        host_port(SocketAddress { ip: IpAddress::V6(x), port: x_port }) == host_port(
            SocketAddress { ip: IpAddress::V6(y), port: y_port },
        ),
    ensures
        x == y,
        x_port == y_port,
{
    let x_tail = seq![0x3au8] + decimal(x_port as nat);
    let y_tail = seq![0x3au8] + decimal(y_port as nat);
    let x_groups = groups_from(x, 0, x_tail);
    let y_groups = groups_from(y, 0, y_tail);
    lemma_v6_unfold(x, x_port);
    lemma_v6_unfold(y, y_port);
    let x_text = seq![0x5bu8] + x_groups;
    let y_text = seq![0x5bu8] + y_groups;
    assert(x_text == y_text);
    assert(x_groups =~= x_text.subrange(1, x_text.len() as int));
    assert(y_groups =~= y_text.subrange(1, y_text.len() as int));
    lemma_groups_from_injective(x, y, 0, x_tail, y_tail);
    lemma_groups_determine(x, y);
    assert(decimal(x_port as nat) =~= x_tail.subrange(1, x_tail.len() as int));
    assert(decimal(y_port as nat) =~= y_tail.subrange(1, y_tail.len() as int));
    lemma_decimal(x_port as nat);
    lemma_decimal(y_port as nat);
}

proof fn lemma_v4_is_no_v6(x: u32, y: u128, x_port: u16, y_port: u16)
    ensures
        host_port(SocketAddress { ip: IpAddress::V4(x), port: x_port }) != host_port(
            SocketAddress { ip: IpAddress::V6(y), port: y_port },
        ),
{
    lemma_decimal(octet(x, 0) as nat);
    let first = decimal(octet(x, 0) as nat);
    assert(is_decimal_digit(first[0]));
    lemma_v4_unfold(x, x_port);
    lemma_v6_unfold(y, y_port);
    let a = host_port(SocketAddress { ip: IpAddress::V4(x), port: x_port });
    let b = host_port(SocketAddress { ip: IpAddress::V6(y), port: y_port });
    assert(a[0] == first[0]);
    assert(b[0] == 0x5bu8);
}

/// Socket addresses that differ have texts that differ: the `host:port`
/// form names one address only.
pub proof fn law_host_port_names_one_address(a: SocketAddress, b: SocketAddress)
    requires
        host_port(a) == host_port(b),
    ensures
        a == b,
{
    match (a.ip, b.ip) {
        (IpAddress::V4(x), IpAddress::V4(y)) => {
            lemma_v4_names_one_address(x, y, a.port, b.port);
        },
        (IpAddress::V6(x), IpAddress::V6(y)) => {
            lemma_v6_names_one_address(x, y, a.port, b.port);
        },
        (IpAddress::V4(x), IpAddress::V6(y)) => {
            lemma_v4_is_no_v6(x, y, a.port, b.port);
        },
        (IpAddress::V6(x), IpAddress::V4(y)) => {
            lemma_v4_is_no_v6(y, x, b.port, a.port);
        },
    }
}

} // verus!
