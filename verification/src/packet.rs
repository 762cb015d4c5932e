//! Frames as the prober sees them: the slices of a received frame, and the
//! headers of a frame to be written.
use etherparse::{PacketBuilder, TcpHeader};
use vstd::prelude::*;

verus! {

/// The two hardware addresses of an Ethernet II header.
#[derive(Clone, Copy, Debug, PartialEq, Eq)]
pub struct LinkSlice {
    pub source: [u8; 6],
    pub destination: [u8; 6],
}

/// The two addresses of an IP header, both of one family.
#[derive(Clone, Copy, Debug, PartialEq, Eq, Structural)]
#[allow(inconsistent_fields)]
pub enum InternetSlice {
    Ipv4 { source: u32, destination: u32 },
    Ipv6 { source: u128, destination: u128 },
}

/// What the prober reads of a TCP header.
#[derive(Clone, Copy, Debug, PartialEq, Eq, Structural)]
pub struct TcpSlice {
    pub source_port: u16,
    pub destination_port: u16,
    pub sequence_number: u32,
    pub acknowledgment_number: u32,
    pub window_size: u16,
    pub syn: bool,
    pub ack: bool,
    pub fin: bool,
    pub rst: bool,
}

/// The transport protocol of a frame; only TCP is looked into.
#[derive(Clone, Copy, Debug, PartialEq, Eq, Structural)]
pub enum TransportSlice {
    Icmpv4,
    Icmpv6,
    Igmp,
    Udp,
    Tcp(TcpSlice),
}

/// A received frame, split into its layers.
#[derive(Clone, Debug, PartialEq, Eq)]
pub struct SlicedFrame {
    pub link: Option<LinkSlice>,
    pub ip: Option<InternetSlice>,
    pub transport: Option<TransportSlice>,
    /// The bytes that follow the TCP header; empty without one.
    pub payload: Vec<u8>,
}

/// A `SlicedFrame` with its payload as a sequence.
pub struct SlicedView {
    pub link: Option<LinkSlice>,
    pub ip: Option<InternetSlice>,
    pub transport: Option<TransportSlice>,
    pub payload: Seq<u8>,
}

impl View for SlicedFrame {
    type V = SlicedView;

    open spec fn view(&self) -> SlicedView {
        SlicedView {
            link: self.link,
            ip: self.ip,
            transport: self.transport,
            payload: self.payload@,
        }
    }
}

#[verifier::external_type_specification]
#[verifier::external_body]
pub struct ExSlicedPacket<'a>(etherparse::SlicedPacket<'a>);

/// The frame that an `etherparse::SlicedPacket` borrows: the bytes that were
/// handed to `from_ethernet` when it was made. Every layer of the packet is a
/// part of them.
pub uninterp spec fn sliced_frame(p: etherparse::SlicedPacket<'_>) -> Seq<u8>;

/// What `etherparse::SlicedPacket::from_ethernet` makes of a frame: nothing
/// where the frame does not parse, else its layers as far as they are
/// present.
pub uninterp spec fn sliced(frame: Seq<u8>) -> Option<SlicedView>;

/// Calls `etherparse::SlicedPacket::from_ethernet`. Trusted: whether the call
/// succeeds depends on the bytes alone, and the packet it gives borrows the
/// bytes it was given.
#[verifier::external_body]
fn slice_ethernet<'a>(frame: &'a [u8]) -> (r: Option<etherparse::SlicedPacket<'a>>)
    ensures
        r.is_some() == sliced(frame@).is_some(),
        r matches Some(p) ==> sliced_frame(p) == frame@,
{
    etherparse::SlicedPacket::from_ethernet(frame).ok()
}

/// Reads `source()` and `destination()` of the `Ethernet2Slice` in the `link`
/// field. Trusted: the result depends on the bytes of the sliced frame alone.
#[verifier::external_body]
fn sliced_link(p: &etherparse::SlicedPacket<'_>) -> (r: Option<LinkSlice>)
    ensures
        sliced(sliced_frame(*p)) matches Some(layers) ==> r == layers.link,
{
    match &p.link {
        Some(etherparse::LinkSlice::Ethernet2(e)) => Some(
            LinkSlice { source: e.source(), destination: e.destination() },
        ),
        _ => None,
    }
}

/// Reads `source()` and `destination()` of the IPv4 or IPv6 header slice in the
/// `net` field, each as a big-endian integer. Trusted: the result depends on
/// the bytes of the sliced frame alone.
#[verifier::external_body]
fn sliced_net(p: &etherparse::SlicedPacket<'_>) -> (r: Option<InternetSlice>)
    ensures
        sliced(sliced_frame(*p)) matches Some(layers) ==> r == layers.ip,
{
    match &p.net {
        Some(etherparse::NetSlice::Ipv4(s)) => Some(
            InternetSlice::Ipv4 {
                source: u32::from_be_bytes(s.header().source()),
                destination: u32::from_be_bytes(s.header().destination()),
            },
        ),
        Some(etherparse::NetSlice::Ipv6(s)) => Some(
            InternetSlice::Ipv6 {
                source: u128::from_be_bytes(s.header().source()),
                destination: u128::from_be_bytes(s.header().destination()),
            },
        ),
        _ => None,
    }
}

/// Tells the variants of `etherparse::TransportSlice` in the `transport` field
/// apart and reads the accessors of a `TcpSlice` of the same names as the
/// fields. Trusted: the result depends on the bytes of the sliced frame alone.
#[verifier::external_body]
fn sliced_transport(p: &etherparse::SlicedPacket<'_>) -> (r: Option<TransportSlice>)
    ensures
        sliced(sliced_frame(*p)) matches Some(layers) ==> r == layers.transport,
{
    Some(match p.transport.as_ref()? {
        etherparse::TransportSlice::Icmpv4(_) => TransportSlice::Icmpv4,
        etherparse::TransportSlice::Icmpv6(_) => TransportSlice::Icmpv6,
        etherparse::TransportSlice::Igmp(_) => TransportSlice::Igmp,
        etherparse::TransportSlice::Udp(_) => TransportSlice::Udp,
        etherparse::TransportSlice::Tcp(t) => TransportSlice::Tcp(TcpSlice {
            source_port: t.source_port(), destination_port: t.destination_port(),
            sequence_number: t.sequence_number(),
            acknowledgment_number: t.acknowledgment_number(),
            window_size: t.window_size(), syn: t.syn(), ack: t.ack(),
            fin: t.fin(), rst: t.rst(),
        }),
    })
}

/// Copies `payload()` of the `TcpSlice` in the `transport` field, and gives
/// no bytes where there is none. Trusted: the result depends on the bytes of
/// the sliced frame alone.
#[verifier::external_body]
fn sliced_payload(p: &etherparse::SlicedPacket<'_>) -> (r: Vec<u8>)
    ensures
        sliced(sliced_frame(*p)) matches Some(layers) ==> r@ == layers.payload,
{
    match &p.transport {
        Some(etherparse::TransportSlice::Tcp(t)) => t.payload().to_vec(),
        _ => Vec::new(),
    }
}

impl SlicedFrame {
    /// Slices a frame that starts with an Ethernet II header.
    pub fn from_ethernet(frame: &[u8]) -> (r: Option<SlicedFrame>)
        ensures
            match r {
                Some(s) => sliced(frame@) == Some(s@),
                None => sliced(frame@).is_none(),
            },
    {
        match slice_ethernet(frame) {
            None => None,
            Some(p) => Some(
                SlicedFrame {
                    link: sliced_link(&p),
                    ip: sliced_net(&p),
                    transport: sliced_transport(&p),
                    payload: sliced_payload(&p),
                },
            ),
        }
    }
}

/// Time to live, or hop limit, of every frame that is written.
pub const TIME_TO_LIVE: u8 = 20;

/// The headers of a TCP frame to be written.
#[derive(Clone, Copy, Debug, PartialEq, Eq)]
pub struct TcpFrame {
    pub link: LinkSlice,
    pub ip: InternetSlice,
    pub time_to_live: u8,
    pub tcp: TcpSlice,
}

/// Length of the Ethernet II, IP and TCP headers that are written.
pub open spec fn headers_len(ip: InternetSlice) -> nat {
    match ip {
        InternetSlice::Ipv4 { .. } => 54,
        InternetSlice::Ipv6 { .. } => 74,
    }
}

/// Length of a written frame that carries `payload_len` bytes.
pub open spec fn tcp_frame_len(ip: InternetSlice, payload_len: nat) -> nat {
    headers_len(ip) + payload_len
}

/// The longest TCP payload that the IP header's length field admits.
pub open spec fn max_tcp_payload(ip: InternetSlice) -> nat {
    match ip {
        InternetSlice::Ipv4 { .. } => 65495,
        InternetSlice::Ipv6 { .. } => 65515,
    }
}

/// Whether a frame with these addresses and so many payload bytes can be
/// written into a buffer of `capacity` bytes.
pub open spec fn frame_fits(ip: InternetSlice, payload_len: nat, capacity: nat) -> bool {
    payload_len <= max_tcp_payload(ip) && tcp_frame_len(ip, payload_len) <= capacity
}

/// Tells whether a frame with these addresses and so many payload bytes can
/// be written into a buffer of `capacity` bytes.
pub fn fits(ip: &InternetSlice, payload_len: usize, capacity: usize) -> (r: bool)
    ensures
        r == frame_fits(*ip, payload_len as nat, capacity as nat),
{
    match *ip {
        InternetSlice::Ipv4 { .. } => payload_len <= 65495 && payload_len + 54 <= capacity,
        InternetSlice::Ipv6 { .. } => payload_len <= 65515 && payload_len + 74 <= capacity,
    }
}

/// The bytes that `etherparse::PacketBuilder` writes for these headers and
/// this payload.
pub uninterp spec fn tcp_frame(headers: TcpFrame, payload: Seq<u8>) -> Seq<u8>;

/// Builds the frame with `etherparse::PacketBuilder` (`ethernet2`, `ipv4` or
/// `ipv6`, `tcp_header`) and writes it with `write_to_slice`. Trusted: the
/// call writes the Ethernet II header (14 bytes), the IP header without
/// extensions (20 or 40), the TCP header without options (20) and the payload
/// to the front of the buffer, leaves the rest as it was, and returns the
/// number of bytes written. It fails, and is not called, where the buffer is
/// shorter than that or the payload is longer than the IP length field admits.
#[verifier::external_body]
fn write_tcp_frame(
    link: &LinkSlice,
    ip: &InternetSlice,
    ttl: u8,
    tcp: &TcpSlice,
    payload: &[u8],
    buffer: &mut [u8],
) -> (len: usize)
    requires
        frame_fits(*ip, payload@.len(), old(buffer)@.len()),
    ensures
        len == tcp_frame_len(*ip, payload@.len()),
        tcp_frame(TcpFrame { link: *link, ip: *ip, time_to_live: ttl, tcp: *tcp }, payload@).len()
            == len,
        final(buffer)@ == tcp_frame(
            TcpFrame { link: *link, ip: *ip, time_to_live: ttl, tcp: *tcp },
            payload@,
        ) + old(buffer)@.subrange(len as int, old(buffer)@.len() as int),
{
    let b = PacketBuilder::ethernet2(link.source, link.destination);
    let b = match *ip {
        InternetSlice::Ipv4 { source, destination } => b.ipv4(source.to_be_bytes(), destination.to_be_bytes(), ttl),
        InternetSlice::Ipv6 { source, destination } => b.ipv6(source.to_be_bytes(), destination.to_be_bytes(), ttl),
    };
    let mut t = TcpHeader::new(tcp.source_port, tcp.destination_port, tcp.sequence_number, tcp.window_size);
    t.acknowledgment_number = tcp.acknowledgment_number;
    t.syn = tcp.syn;
    t.ack = tcp.ack;
    t.fin = tcp.fin;
    t.rst = tcp.rst;
    b.tcp_header(t).write_to_slice(buffer, payload).unwrap()
}

impl TcpFrame {
    /// Writes the frame with `payload` to the front of `buffer` and returns
    /// its length.
    pub(crate) fn write(&self, payload: &[u8], buffer: &mut [u8]) -> (len: usize)
        requires
            frame_fits(self.ip, payload@.len(), old(buffer)@.len()),
        ensures
            len == tcp_frame_len(self.ip, payload@.len()),
            tcp_frame(*self, payload@).len() == len,
            final(buffer)@ == tcp_frame(*self, payload@) + old(buffer)@.subrange(
                len as int,
                old(buffer)@.len() as int,
            ),
    {
        write_tcp_frame(&self.link, &self.ip, self.time_to_live, &self.tcp, payload, buffer)
    }
}

/// The addresses of an IP header with source and destination exchanged.
pub open spec fn swapped_ip(ip: InternetSlice) -> InternetSlice {
    match ip {
        InternetSlice::Ipv4 { source, destination } => InternetSlice::Ipv4 {
            source: destination,
            destination: source,
        },
        InternetSlice::Ipv6 { source, destination } => InternetSlice::Ipv6 {
            source: destination,
            destination: source,
        },
    }
}

/// The hardware addresses of a link header with source and destination
/// exchanged.
pub open spec fn swapped_link(link: LinkSlice) -> LinkSlice {
    LinkSlice { source: link.destination, destination: link.source }
}

/// The sequence number after `n`; the numbers wrap round.
pub open spec fn next_sequence(n: u32) -> u32 {
    if n == u32::MAX {
        0
    } else {
        (n + 1) as u32
    }
}

/// The TCP header that answers `tcp`, without a decision on its flags: ports
/// exchanged, the sequence number one on, the window kept, and the received
/// sequence number acknowledged.
pub open spec fn answering_tcp(tcp: TcpSlice) -> TcpSlice {
    TcpSlice {
        source_port: tcp.destination_port,
        destination_port: tcp.source_port,
        sequence_number: next_sequence(tcp.sequence_number),
        acknowledgment_number: tcp.sequence_number,
        window_size: tcp.window_size,
        syn: false,
        ack: true,
        fin: false,
        rst: false,
    }
}

/// The TCP header of the response to a received transport layer, and whether
/// the response may carry a payload. SYN+ACK and ACK are answered by a bare
/// ACK, which alone may carry one; SYN by SYN+ACK, FIN by FIN+ACK, RST by
/// RST+ACK, each tried in this order. Anything else is not answered.
pub open spec fn response_tcp(transport: Option<TransportSlice>) -> Option<(TcpSlice, bool)> {
    match transport {
        Some(TransportSlice::Tcp(tcp)) => {
            let answer = answering_tcp(tcp);
            if tcp.ack {
                Some((answer, true))
            } else if tcp.syn {
                Some((TcpSlice { syn: true, ..answer }, false))
            } else if tcp.fin {
                Some((TcpSlice { fin: true, ..answer }, false))
            } else if tcp.rst {
                Some((TcpSlice { rst: true, ..answer }, false))
            } else {
                None
            }
        },
        _ => None,
    }
}

/// The response to a received frame: its headers and the payload it carries.
/// There is none unless the frame has an Ethernet II header, an IP header and
/// a TCP header that is answered.
pub open spec fn response(rx: SlicedView, payload: Seq<u8>) -> Option<(TcpFrame, Seq<u8>)> {
    match (rx.link, rx.ip, response_tcp(rx.transport)) {
        (Some(link), Some(ip), Some((tcp, carries))) => Some(
            (
                TcpFrame {
                    link: swapped_link(link),
                    ip: swapped_ip(ip),
                    time_to_live: TIME_TO_LIVE,
                    tcp,
                },
                if carries {
                    payload
                } else {
                    Seq::empty()
                },
            ),
        ),
        _ => None,
    }
}

/// The IP addresses of the response to a received frame: those of the frame,
/// exchanged. `None` where the frame has no IP header.
pub fn build_response_ip_header(rx_sliced: &SlicedFrame) -> (r: Option<InternetSlice>)
    ensures
        r == match rx_sliced.ip {
            Some(ip) => Some(swapped_ip(ip)),
            None => None,
        },
{
    match rx_sliced.ip {
        None => None,
        Some(InternetSlice::Ipv4 { source, destination }) => Some(
            InternetSlice::Ipv4 { source: destination, destination: source },
        ),
        Some(InternetSlice::Ipv6 { source, destination }) => Some(
            InternetSlice::Ipv6 { source: destination, destination: source },
        ),
    }
}

/// The TCP header of the response to a received frame, chosen by the flags
/// received, and whether the response may carry a payload.
pub fn build_response_tcp_header(rx_sliced: &SlicedFrame) -> (r: Option<(TcpSlice, bool)>)
    ensures
        r == response_tcp(rx_sliced.transport),
{
    let tcp = match rx_sliced.transport {
        Some(TransportSlice::Tcp(tcp)) => tcp,
        _ => {
            return None;
        },
    };
    let answer = TcpSlice {
        source_port: tcp.destination_port,
        destination_port: tcp.source_port,
        sequence_number: tcp.sequence_number.wrapping_add(1),
        acknowledgment_number: tcp.sequence_number,
        window_size: tcp.window_size,
        syn: false,
        ack: true,
        fin: false,
        rst: false,
    };
    if tcp.syn && tcp.ack {
        Some((answer, true))
    } else if tcp.syn {
        Some((TcpSlice { syn: true, ..answer }, false))
    } else if tcp.ack {
        Some((answer, true))
    } else if tcp.fin {
        Some((TcpSlice { fin: true, ..answer }, false))
    } else if tcp.rst {
        Some((TcpSlice { rst: true, ..answer }, false))
    } else {
        None
    }
}

/// Writes the response to a received frame to the front of `tx_pkt` and
/// returns its length. Where the frame is not answered, nothing is written
/// and `None` is returned. `payload` is carried only by a bare ACK.
pub fn build_tcp_response(rx_sliced: &SlicedFrame, payload: &[u8], tx_pkt: &mut [u8]) -> (r:
    Option<usize>)
    requires
        response(rx_sliced@, payload@) matches Some((headers, carried)) ==> frame_fits(
            headers.ip,
            carried.len(),
            old(tx_pkt)@.len(),
        ),
    ensures
        match response(rx_sliced@, payload@) {
            None => r.is_none() && final(tx_pkt)@ == old(tx_pkt)@,
            Some((headers, carried)) => {
                &&& r == Some(tcp_frame_len(headers.ip, carried.len()) as usize)
                &&& tcp_frame(headers, carried).len() == tcp_frame_len(headers.ip, carried.len())
                &&& final(tx_pkt)@ == tcp_frame(headers, carried) + old(tx_pkt)@.subrange(
                    tcp_frame_len(headers.ip, carried.len()) as int,
                    old(tx_pkt)@.len() as int,
                )
            },
        },
{
    let link = match rx_sliced.link {
        Some(link) => LinkSlice { source: link.destination, destination: link.source },
        None => {
            return None;
        },
    };
    let ip = match build_response_ip_header(rx_sliced) {
        Some(ip) => ip,
        None => {
            return None;
        },
    };
    let (tcp, can_include_payload) = match build_response_tcp_header(rx_sliced) {
        Some(answer) => answer,
        None => {
            return None;
        },
    };
    let headers = TcpFrame { link, ip, time_to_live: TIME_TO_LIVE, tcp };
    if can_include_payload {
        Some(headers.write(payload, tx_pkt))
    } else {
        let empty: [u8; 0] = [];
        assert(empty@ =~= Seq::<u8>::empty());
        Some(headers.write(&empty, tx_pkt))
    }
}

/// What is read of a written frame: the headers it was written with, and the
/// payload.
pub open spec fn as_sliced(headers: TcpFrame, payload: Seq<u8>) -> SlicedView {
    SlicedView {
        link: Some(headers.link),
        ip: Some(headers.ip),
        transport: Some(TransportSlice::Tcp(headers.tcp)),
        payload,
    }
}

/// A frame as its peer would have sent it: hardware addresses, IP addresses
/// and TCP ports exchanged, the rest kept.
pub open spec fn peer_swapped(frame: SlicedView) -> SlicedView {
    SlicedView {
        link: match frame.link {
            Some(link) => Some(swapped_link(link)),
            None => None,
        },
        ip: match frame.ip {
            Some(ip) => Some(swapped_ip(ip)),
            None => None,
        },
        transport: match frame.transport {
            Some(TransportSlice::Tcp(tcp)) => Some(
                TransportSlice::Tcp(
                    TcpSlice {
                        source_port: tcp.destination_port,
                        destination_port: tcp.source_port,
                        ..tcp
                    },
                ),
            ),
            other => other,
        },
        payload: frame.payload,
    }
}

/// A response mirrors the frame it answers: the headers of the response, read
/// as a frame and with the peers exchanged, have the hardware addresses, the
/// IP addresses and the TCP ports of the frame. Exchanging the peers twice
/// changes nothing.
pub proof fn lemma_response_mirrors(rx: SlicedView, payload: Seq<u8>)
    requires
        response(rx, payload).is_some(),
    ensures
        ({
            let (headers, carried) = response(rx, payload).unwrap();
            let back = peer_swapped(as_sliced(headers, carried));
            &&& back.link == rx.link
            &&& back.ip == rx.ip
            &&& back.transport matches Some(TransportSlice::Tcp(mirrored))
            &&& rx.transport matches Some(TransportSlice::Tcp(received))
            &&& mirrored.source_port == received.source_port
            &&& mirrored.destination_port == received.destination_port
        }),
        peer_swapped(peer_swapped(rx)) == rx,
{
}

} // verus!
