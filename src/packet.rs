use vstd::prelude::*;

verus! {

/// ICMP message type of an IPv4 echo request.
pub const ICMP_ECHO_REQUEST: u8 = 8;

/// ICMPv6 message type of an IPv6 echo request.
pub const ICMPV6_ECHO_REQUEST: u8 = 128;

/// Smallest buffer that holds an ICMP echo-request header.
pub const ECHO_HEADER_LEN: usize = 8;

/// Smallest buffer that holds an ICMPv6 header.
pub const ICMPV6_HEADER_LEN: usize = 4;

/// Largest packet whose checksum is computed without overflow.
pub const MAX_PACKET_LEN: usize = 131072;

/// The one's-complement checksum that `pnet::util::checksum` computes over
/// `data`, leaving out the 16-bit word at index `skipword`.
pub uninterp spec fn checksum_of(data: Seq<u8>, skipword: nat) -> u16;

/// Relies on `pnet::util::checksum`: the Internet checksum of the bytes,
/// skipping one 16-bit word. Its 32-bit running sum
/// stays in range for buffers up to `MAX_PACKET_LEN` bytes.
#[verifier::external_body]
fn checksum(data: &[u8], skipword: usize) -> (r: u16)
    requires
        data@.len() <= MAX_PACKET_LEN,
    ensures
        r == checksum_of(data@, skipword as nat),
{
    pnet::util::checksum(data, skipword)
}

/// The high byte of a 16-bit value.
pub open spec fn hi(x: u16) -> u8 {
    (x / 256) as u8
}

/// The low byte of a 16-bit value.
pub open spec fn lo(x: u16) -> u8 {
    (x % 256) as u8
}

/// An IPv4 echo request of `size` bytes with its checksum field still zero:
/// type, zero code, identifier and sequence number in network byte order,
/// and a zero payload.
pub open spec fn echo_request_unsummed(size: nat, identifier: u16, seq: u16) -> Seq<u8> {
    Seq::new(
        size,
        |i: int|
            if i == 0 {
                ICMP_ECHO_REQUEST
            } else if i == 4 {
                hi(identifier)
            } else if i == 5 {
                lo(identifier)
            } else if i == 6 {
                hi(seq)
            } else if i == 7 {
                lo(seq)
            } else {
                0u8
            },
    )
}

/// An ICMPv6 echo request of `size` bytes with its checksum field still zero.
pub open spec fn echov6_request_unsummed(size: nat) -> Seq<u8> {
    Seq::new(size, |i: int| if i == 0 { ICMPV6_ECHO_REQUEST } else { 0u8 })
}

/// `bytes` with the checksum over them (skipping the checksum word) stored
/// in bytes 2 and 3, in network byte order.
pub open spec fn with_checksum(bytes: Seq<u8>) -> Seq<u8> {
    let c = checksum_of(bytes, 1);
    bytes.update(2, hi(c)).update(3, lo(c))
}

/// The complete IPv4 echo request for the given size, identifier and sequence.
pub open spec fn echo_request(size: nat, identifier: u16, seq: u16) -> Seq<u8> {
    with_checksum(echo_request_unsummed(size, identifier, seq))
}

/// The complete ICMPv6 echo request of the given size.
pub open spec fn echov6_request(size: nat) -> Seq<u8> {
    with_checksum(echov6_request_unsummed(size))
}

/// Writes `x` in network byte order at `at` and `at + 1`.
fn put_u16(buf: &mut Vec<u8>, at: usize, x: u16)
    requires
        at + 1 < old(buf)@.len(),
    ensures
        final(buf)@ == old(buf)@.update(at as int, hi(x)).update(at + 1, lo(x)),
{
    let len = buf.len();
    assert(at + 1 < len);
    let next = at + 1;
    buf[at] = (x / 256) as u8;
    buf[next] = (x % 256) as u8;
}

/// Computes the checksum of `buf` and stores it in bytes 2 and 3.
fn store_checksum(buf: &mut Vec<u8>)
    requires
        4 <= old(buf)@.len() <= MAX_PACKET_LEN,
    ensures
        final(buf)@ == with_checksum(old(buf)@),
{
    let c = checksum(buf.as_slice(), 1);
    put_u16(buf, 2, c);
}

/// Builds an IPv4 echo request of `size` bytes carrying `identifier` and
/// `seq`, with a correct checksum.
pub fn build_echo_request(size: usize, identifier: u16, seq: u16) -> (r: Vec<u8>)
    requires
        ECHO_HEADER_LEN <= size <= MAX_PACKET_LEN,
    ensures
        r@ == echo_request(size as nat, identifier, seq),
{
    let mut buf: Vec<u8> = vec![0u8; size];
    buf[0] = ICMP_ECHO_REQUEST;
    put_u16(&mut buf, 4, identifier);
    put_u16(&mut buf, 6, seq);
    assert(buf@ =~= echo_request_unsummed(size as nat, identifier, seq));
    store_checksum(&mut buf);
    buf
}

/// Builds an ICMPv6 echo request of `size` bytes with a checksum over the
/// packet. Identifier and sequence number are not written.
pub fn build_echov6_request(size: usize) -> (r: Vec<u8>)
    requires
        ICMPV6_HEADER_LEN <= size <= MAX_PACKET_LEN,
    ensures
        r@ == echov6_request(size as nat),
{
    let mut buf: Vec<u8> = vec![0u8; size];
    buf[0] = ICMPV6_ECHO_REQUEST;
    assert(buf@ =~= echov6_request_unsummed(size as nat));
    store_checksum(&mut buf);
    buf
}

} // verus!
