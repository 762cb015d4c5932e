//! The receiving side: the table of probed hosts, the fingerprint matcher
//! and the decision taken on each received frame.
use crate::handshake::Handshake;
use crate::packet::{
    build_tcp_response, fits, frame_fits, response, sliced, tcp_frame, tcp_frame_len,
    InternetSlice, SlicedFrame, SlicedView, TcpFrame, TcpSlice, TransportSlice,
};
use crate::{IpAddress, ScanConfig, ScanResult, ScanResultView, TcpFlags, IP_NUMBER_TCP};
use std::collections::HashMap;
use vstd::prelude::*;

verus! {

broadcast use vstd::std_specs::hash::group_hash_axioms;

/// A remote peer: its address and port.
#[derive(Clone, Copy, Debug, Hash, PartialEq, Eq, Structural)]
pub struct Host {
    pub ip: IpAddress,
    pub port: u16,
}

/// How far a host has been probed.
#[derive(Clone, Copy, Debug, Hash, PartialEq, Eq, Structural)]
pub struct State {
    pub handshakes_attempted: usize,
    pub tcp_flags: TcpFlags,
}

/// The key of an IPv4 host: its address and port side by side.
spec fn v4_key(address: u32, port: u16) -> u64 {
    (address * 65536 + port) as u64
}

/// The probed hosts, each with its state. No host is ever taken out.
pub struct HostTable {
    v4: HashMap<u64, State>,
    v6: HashMap<u128, HashMap<u16, State>>,
}

impl View for HostTable {
    type V = Map<Host, State>;

    closed spec fn view(&self) -> Map<Host, State> {
        Map::new(
            |host: Host|
                match host.ip {
                    IpAddress::V4(address) => self.v4@.contains_key(v4_key(address, host.port)),
                    IpAddress::V6(address) => self.v6@.contains_key(address)
                        && self.v6@[address]@.contains_key(host.port),
                },
            |host: Host|
                match host.ip {
                    IpAddress::V4(address) => self.v4@[v4_key(address, host.port)],
                    IpAddress::V6(address) => self.v6@[address]@[host.port],
                },
        )
    }
}

impl HostTable {
    /// A table without hosts.
    pub fn new() -> (table: HostTable)
        ensures
            table@ == Map::<Host, State>::empty(),
    {
        let table = HostTable { v4: HashMap::new(), v6: HashMap::new() };
        table
    }

    /// The state of a host, if it is in the table.
    pub fn get(&self, host: &Host) -> (r: Option<State>)
        ensures
            r == if self@.contains_key(*host) {
                Some(self@[*host])
            } else {
                None
            },
    {
        match host.ip {
            IpAddress::V4(address) => {
                let key: u64 = (address as u64) * 65536 + (host.port as u64);
                match self.v4.get(&key) {
                    Some(state) => Some(*state),
                    None => None,
                }
            },
            IpAddress::V6(address) => match self.v6.get(&address) {
                Some(ports) => match ports.get(&host.port) {
                    Some(state) => Some(*state),
                    None => None,
                },
                None => None,
            },
        }
    }

    /// Puts a host into the table, or gives it a new state.
    pub fn insert(&mut self, host: Host, state: State)
        ensures
            final(self)@ == old(self)@.insert(host, state),
    {
        match host.ip {
            IpAddress::V4(address) => {
                let key: u64 = (address as u64) * 65536 + (host.port as u64);
                self.v4.insert(key, state);
            },
            IpAddress::V6(address) => {
                let mut ports = match self.v6.remove(&address) {
                    Some(ports) => ports,
                    None => HashMap::new(),
                };
                ports.insert(host.port, state);
                self.v6.insert(address, ports);
            },
        }
        assert(self@ =~= old(self)@.insert(host, state));
    }
}

/// Whether `needle` stands in `haystack` at the index `at`.
pub open spec fn occurs_at(haystack: Seq<u8>, needle: Seq<u8>, at: int) -> bool {
    &&& 0 <= at
    &&& at + needle.len() <= haystack.len()
    &&& haystack.subrange(at, at + needle.len()) == needle
}

/// Whether `needle` is a contiguous part of `haystack`.
pub open spec fn occurs(haystack: Seq<u8>, needle: Seq<u8>) -> bool {
    exists|at: int| occurs_at(haystack, needle, at)
}

/// `memchr::memmem::find` returns the index of the first occurrence of the
/// needle in the haystack, and `None` where there is none.
pub assume_specification[ memchr::memmem::find ](haystack: &[u8], needle: &[u8]) -> (r: Option<
    usize,
>)
    ensures
        match r {
            Some(at) => occurs_at(haystack@, needle@, at as int) && forall|before: int|
                0 <= before < at ==> !occurs_at(haystack@, needle@, before),
            None => forall|at: int| !occurs_at(haystack@, needle@, at),
        },
;

/// Whether the handshake at `index` is the first whose response is a part of
/// the payload.
pub open spec fn first_match(payload: Seq<u8>, handshakes: Seq<Handshake>, index: int) -> bool {
    &&& 0 <= index < handshakes.len()
    &&& occurs(payload, handshakes[index].response@)
    &&& forall|j: int| 0 <= j < index ==> !occurs(payload, (#[trigger] handshakes[j]).response@)
}

/// Whether no handshake's response is a part of the payload.
pub open spec fn no_match(payload: Seq<u8>, handshakes: Seq<Handshake>) -> bool {
    forall|j: int|
        0 <= j < handshakes.len() ==> !occurs(payload, (#[trigger] handshakes[j]).response@)
}

/// The service of the first handshake whose response is a part of the
/// payload, if there is one.
pub open spec fn matched_service(payload: Seq<u8>, handshakes: Seq<Handshake>) -> Option<
    Seq<char>,
> {
    if exists|i: int| first_match(payload, handshakes, i) {
        Some(handshakes[choose|i: int| first_match(payload, handshakes, i)].service@)
    } else {
        None
    }
}

/// The index of the first handshake whose response is a part of the payload.
pub fn find_service(payload: &[u8], handshakes: &[Handshake]) -> (r: Option<usize>)
    ensures
        match r {
            Some(index) => first_match(payload@, handshakes@, index as int),
            None => no_match(payload@, handshakes@),
        },
{
    let mut i: usize = 0;
    while i < handshakes.len()
        invariant
            i <= handshakes@.len(),
            forall|j: int| 0 <= j < i ==> !occurs(payload@, (#[trigger] handshakes@[j]).response@),
        decreases handshakes@.len() - i,
    {
        match memchr::memmem::find(payload, handshakes[i].response.as_slice()) {
            Some(_) => {
                return Some(i);
            },
            None => {},
        }
        i += 1;
    }
    None
}

/// The service that a payload gives away: that of the first handshake whose
/// response is a part of it.
pub fn match_service(payload: &[u8], handshakes: &[Handshake]) -> (r: Option<String>)
    ensures
        match r {
            Some(name) => matched_service(payload@, handshakes@) == Some(name@),
            None => matched_service(payload@, handshakes@).is_none(),
        },
{
    match find_service(payload, handshakes) {
        Some(index) => {
            proof {
                lemma_first_match_is_one(payload@, handshakes@, index as int);
            }
            Some(handshakes[index].service.clone())
        },
        None => None,
    }
}

/// Only one index is that of the first match, and `matched_service` names its
/// service.
pub proof fn lemma_first_match_is_one(payload: Seq<u8>, handshakes: Seq<Handshake>, index: int)
    requires
        first_match(payload, handshakes, index),
    ensures
        forall|other: int| first_match(payload, handshakes, other) ==> other == index,
        matched_service(payload, handshakes) == Some(handshakes[index].service@),
{
    assert forall|other: int| first_match(payload, handshakes, other) implies other
        == index by {
        if other < index {
            assert(!occurs(payload, handshakes[other].response@));
        } else if index < other {
            assert(!occurs(payload, handshakes[index].response@));
        }
    }
}

/// A service is matched only by a handshake whose response is a part of the
/// payload, and it is that of the first such handshake.
pub proof fn lemma_matched_service_is_first(
    payload: Seq<u8>,
    handshakes: Seq<Handshake>,
    service: Seq<char>,
)
    ensures
        matched_service(payload, handshakes) == Some(service) <==> exists|i: int|
            first_match(payload, handshakes, i) && handshakes[i].service@ == service,
{
    if exists|i: int| first_match(payload, handshakes, i) && handshakes[i].service@ == service {
        let i = choose|i: int|
            first_match(payload, handshakes, i) && handshakes[i].service@ == service;
        lemma_first_match_is_one(payload, handshakes, i);
    }
    if matched_service(payload, handshakes) == Some(service) {
        let i = choose|i: int| first_match(payload, handshakes, i);
        assert(first_match(payload, handshakes, i) && handshakes[i].service@ == service);
    }
}

/// Why a frame could not be handled.
#[derive(Clone, Copy, Debug, PartialEq, Eq, Structural)]
pub enum HandleError {
    /// A first SYN+ACK came from a host, and there is no handshake to send.
    NoHandshakes,
    /// A further SYN+ACK came from a host with which every handshake has
    /// been attempted.
    HandshakesExhausted,
    /// The frame to answer has no Ethernet II header.
    NoLinkHeader,
    /// The response does not fit into the buffer, or its payload not into an
    /// IP packet.
    ResponseTooLong,
}

/// What handling a frame brings about: the table afterwards, the result to
/// report, and the response to send with the payload it carries.
pub struct Step {
    pub table: Map<Host, State>,
    pub result: ScanResultView,
    pub response: Option<(TcpFrame, Seq<u8>)>,
}

/// The source address of an IP header.
pub open spec fn source_address(ip: InternetSlice) -> IpAddress {
    match ip {
        InternetSlice::Ipv4 { source, .. } => IpAddress::V4(source),
        InternetSlice::Ipv6 { source, .. } => IpAddress::V6(source),
    }
}

/// The peer that sent a frame and the frame's TCP header, for a TCP frame over
/// IP that is sent to `port`. Other frames are not looked at.
pub open spec fn addressed(rx: SlicedView, port: u16) -> Option<(Host, TcpSlice)> {
    match (rx.ip, rx.transport) {
        (Some(ip), Some(TransportSlice::Tcp(tcp))) => if tcp.destination_port == port {
            Some((Host { ip: source_address(ip), port: tcp.source_port }, tcp))
        } else {
            None
        },
        _ => None,
    }
}

/// The result that reports `flags` from `host`, with no service and no data.
pub open spec fn bare_result(host: Host, flags: TcpFlags) -> ScanResultView {
    ScanResultView {
        ip: host.ip,
        port: host.port,
        transport_protocol: IP_NUMBER_TCP,
        service: None,
        tcp_flags: Some(flags),
        data: Seq::empty(),
    }
}

/// The decision on a received frame.
///
/// A frame that is not TCP over IP to `port` is passed over, and so is one
/// with none of the flags below.
/// - SYN+ACK from a host that is not in the table: the host is put in with
///   one handshake attempted, and the frame is answered with the request of
///   the first handshake.
/// - SYN+ACK from a host in the table: one more handshake counts as
///   attempted, and nothing is sent.
/// - ACK without SYN: the payload is reported, with the service it matches.
/// - RST without SYN or ACK: reported.
pub open spec fn handled(
    port: u16,
    rx: SlicedView,
    handshakes: Seq<Handshake>,
    table: Map<Host, State>,
    capacity: nat,
) -> Result<Option<Step>, HandleError> {
    match addressed(rx, port) {
        None => Ok(None),
        Some((host, tcp)) => if tcp.syn && tcp.ack {
            if table.contains_key(host) {
                if table[host].handshakes_attempted >= handshakes.len() {
                    Err(HandleError::HandshakesExhausted)
                } else {
                    Ok(
                        Some(
                            Step {
                                table: table.insert(
                                    host,
                                    State {
                                        handshakes_attempted: (table[host].handshakes_attempted
                                            + 1) as usize,
                                        tcp_flags: TcpFlags::Synack,
                                    },
                                ),
                                result: bare_result(host, TcpFlags::Synack),
                                response: None,
                            },
                        ),
                    )
                }
            } else if handshakes.len() == 0 {
                Err(HandleError::NoHandshakes)
            } else {
                match response(rx, handshakes[0].request@) {
                    None => Err(HandleError::NoLinkHeader),
                    Some((headers, carried)) => if !frame_fits(
                        headers.ip,
                        carried.len(),
                        capacity,
                    ) {
                        Err(HandleError::ResponseTooLong)
                    } else {
                        Ok(
                            Some(
                                Step {
                                    table: table.insert(
                                        host,
                                        State {
                                            handshakes_attempted: 1,
                                            tcp_flags: TcpFlags::Synack,
                                        },
                                    ),
                                    result: bare_result(host, TcpFlags::Synack),
                                    response: Some((headers, carried)),
                                },
                            ),
                        )
                    },
                }
            }
        } else if tcp.ack {
            Ok(
                Some(
                    Step {
                        table,
                        result: ScanResultView {
                            service: matched_service(rx.payload, handshakes),
                            data: rx.payload,
                            ..bare_result(host, TcpFlags::Ack)
                        },
                        response: None,
                    },
                ),
            )
        } else if tcp.rst {
            Ok(Some(Step { table, result: bare_result(host, TcpFlags::Rst), response: None }))
        } else {
            Ok(None)
        },
    }
}

/// Whether a call that returned `r` and left the table and the buffer as
/// given has done what `expected` asks: on an error, or a frame passed over,
/// nothing is changed; else the result is the step's, the length is that of
/// the response written to the front of the buffer, or zero without one.
pub open spec fn carried_out(
    expected: Result<Option<Step>, HandleError>,
    r: Result<Option<(ScanResult, usize)>, HandleError>,
    table_before: Map<Host, State>,
    table_after: Map<Host, State>,
    buffer_before: Seq<u8>,
    buffer_after: Seq<u8>,
) -> bool {
    match expected {
        Err(e) => {
            &&& r == Err::<Option<(ScanResult, usize)>, _>(e)
            &&& table_after == table_before
            &&& buffer_after == buffer_before
        },
        Ok(None) => {
            &&& r == Ok::<Option<(ScanResult, usize)>, HandleError>(None)
            &&& table_after == table_before
            &&& buffer_after == buffer_before
        },
        Ok(Some(step)) => {
            &&& r matches Ok(Some((result, len)))
            &&& result@ == step.result
            &&& table_after == step.table
            &&& match step.response {
                None => len == 0 && buffer_after == buffer_before,
                Some((headers, carried)) => {
                    &&& len == tcp_frame_len(headers.ip, carried.len())
                    &&& tcp_frame(headers, carried).len() == len
                    &&& buffer_after == tcp_frame(headers, carried) + buffer_before.subrange(
                        len as int,
                        buffer_before.len() as int,
                    )
                },
            }
        },
    }
}

/// Handles a sliced frame: decides as `handled` says, keeps the table of
/// hosts, and writes the response, if there is one, to the front of
/// `resp_pkt`. Returns the result to report and the length of the response,
/// zero without one.
pub fn handle_sliced(
    conf: &ScanConfig,
    rx: &SlicedFrame,
    resp_pkt: &mut [u8],
    handshakes: &[Handshake],
    host_state: &mut HostTable,
) -> (r: Result<Option<(ScanResult, usize)>, HandleError>)
    ensures
        carried_out(
            handled(conf.src_port, rx@, handshakes@, old(host_state)@, old(resp_pkt)@.len()),
            r,
            old(host_state)@,
            final(host_state)@,
            old(resp_pkt)@,
            final(resp_pkt)@,
        ),
        final(host_state)@ == table_after(
            conf.src_port,
            rx@,
            handshakes@,
            old(host_state)@,
            old(resp_pkt)@.len(),
        ),
        final(resp_pkt)@.len() == old(resp_pkt)@.len(),
{
    let (ip, tcp) = match (rx.ip, rx.transport) {
        (Some(ip), Some(TransportSlice::Tcp(tcp))) => (ip, tcp),
        _ => {
            return Ok(None);
        },
    };
    if tcp.destination_port != conf.src_port {
        return Ok(None);
    }
    let source = match ip {
        InternetSlice::Ipv4 { source, .. } => IpAddress::V4(source),
        InternetSlice::Ipv6 { source, .. } => IpAddress::V6(source),
    };
    let host = Host { ip: source, port: tcp.source_port };
    if tcp.syn && tcp.ack {
        let scan_result = ScanResult {
            ip: source,
            port: tcp.source_port,
            transport_protocol: IP_NUMBER_TCP,
            service: None,
            tcp_flags: Some(TcpFlags::Synack),
            data: Vec::new(),
        };
        match host_state.get(&host) {
            Some(state) => {
                if state.handshakes_attempted >= handshakes.len() {
                    return Err(HandleError::HandshakesExhausted);
                }
                host_state.insert(
                    host,
                    State {
                        handshakes_attempted: state.handshakes_attempted + 1,
                        tcp_flags: TcpFlags::Synack,
                    },
                );
                Ok(Some((scan_result, 0)))
            },
            None => {
                if handshakes.len() == 0 {
                    return Err(HandleError::NoHandshakes);
                }
                let next_handshake = &handshakes[0];
                if rx.link.is_none() {
                    return Err(HandleError::NoLinkHeader);
                }
                if !fits(&ip, next_handshake.request.len(), resp_pkt.len()) {
                    return Err(HandleError::ResponseTooLong);
                }
                let resp_len = match build_tcp_response(
                    rx,
                    next_handshake.request.as_slice(),
                    resp_pkt,
                ) {
                    Some(len) => len,
                    None => 0,
                };
                host_state.insert(
                    host,
                    State { handshakes_attempted: 1, tcp_flags: TcpFlags::Synack },
                );
                Ok(Some((scan_result, resp_len)))
            },
        }
    } else if tcp.ack {
        let service = match_service(rx.payload.as_slice(), handshakes);
        let scan_result = ScanResult {
            ip: source,
            port: tcp.source_port,
            transport_protocol: IP_NUMBER_TCP,
            service,
            tcp_flags: Some(TcpFlags::Ack),
            data: rx.payload.clone(),
        };
        Ok(Some((scan_result, 0)))
    } else if tcp.rst {
        let scan_result = ScanResult {
            ip: source,
            port: tcp.source_port,
            transport_protocol: IP_NUMBER_TCP,
            service: None,
            tcp_flags: Some(TcpFlags::Rst),
            data: Vec::new(),
        };
        Ok(Some((scan_result, 0)))
    } else {
        Ok(None)
    }
}

/// Slices a received frame and handles it. A frame that cannot be sliced is
/// passed over.
pub fn handle_packet(
    conf: &ScanConfig,
    recvd_pkt: &[u8],
    resp_pkt: &mut [u8],
    handshakes: &[Handshake],
    host_state: &mut HostTable,
) -> (r: Result<Option<(ScanResult, usize)>, HandleError>)
    ensures
        carried_out(
            match sliced(recvd_pkt@) {
                None => Ok(None),
                Some(rx) => handled(
                    conf.src_port,
                    rx,
                    handshakes@,
                    old(host_state)@,
                    old(resp_pkt)@.len(),
                ),
            },
            r,
            old(host_state)@,
            final(host_state)@,
            old(resp_pkt)@,
            final(resp_pkt)@,
        ),
        final(host_state)@ == match sliced(recvd_pkt@) {
            None => old(host_state)@,
            Some(rx) => table_after(
                conf.src_port,
                rx,
                handshakes@,
                old(host_state)@,
                old(resp_pkt)@.len(),
            ),
        },
        final(resp_pkt)@.len() == old(resp_pkt)@.len(),
{
    match SlicedFrame::from_ethernet(recvd_pkt) {
        None => Ok(None),
        Some(rx) => handle_sliced(conf, &rx, resp_pkt, handshakes, host_state),
    }
}

/// Whether no host of the table has more than `limit` handshakes attempted.
pub open spec fn attempts_within(table: Map<Host, State>, limit: nat) -> bool {
    forall|host: Host| #[trigger]
        table.contains_key(host) ==> table[host].handshakes_attempted <= limit
}

/// The table after a frame has been handled; an error, or a frame passed
/// over, leaves it as it was.
pub open spec fn table_after(
    port: u16,
    rx: SlicedView,
    handshakes: Seq<Handshake>,
    table: Map<Host, State>,
    capacity: nat,
) -> Map<Host, State> {
    match handled(port, rx, handshakes, table, capacity) {
        Ok(Some(step)) => step.table,
        _ => table,
    }
}

/// The table after the frames have been handled one after the other.
pub open spec fn table_after_all(
    port: u16,
    frames: Seq<SlicedView>,
    handshakes: Seq<Handshake>,
    table: Map<Host, State>,
    capacity: nat,
) -> Map<Host, State>
    decreases frames.len(),
{
    if frames.len() == 0 {
        table
    } else {
        table_after_all(
            port,
            frames.drop_first(),
            handshakes,
            table_after(port, frames[0], handshakes, table, capacity),
            capacity,
        )
    }
}

/// Whether handling the frame sends a response to `host`.
pub open spec fn answers(
    host: Host,
    port: u16,
    rx: SlicedView,
    handshakes: Seq<Handshake>,
    table: Map<Host, State>,
    capacity: nat,
) -> bool {
    &&& addressed(rx, port) matches Some((sender, _))
    &&& sender == host
    &&& handled(port, rx, handshakes, table, capacity) matches Ok(Some(step))
    &&& step.response.is_some()
}

/// How many responses are sent to `host` while the frames are handled one
/// after the other.
pub open spec fn answers_sent(
    host: Host,
    port: u16,
    frames: Seq<SlicedView>,
    handshakes: Seq<Handshake>,
    table: Map<Host, State>,
    capacity: nat,
) -> nat
    decreases frames.len(),
{
    if frames.len() == 0 {
        0
    } else {
        let first: nat = if answers(host, port, frames[0], handshakes, table, capacity) {
            1
        } else {
            0
        };
        first + answers_sent(
            host,
            port,
            frames.drop_first(),
            handshakes,
            table_after(port, frames[0], handshakes, table, capacity),
            capacity,
        )
    }
}

/// Handling a frame takes no host out of the table and lowers no count of
/// attempted handshakes. Where no count was above the number of handshakes
/// before, none is afterwards.
pub proof fn lemma_step_keeps_table(
    port: u16,
    rx: SlicedView,
    handshakes: Seq<Handshake>,
    table: Map<Host, State>,
    capacity: nat,
)
    requires
        handshakes.len() <= usize::MAX,
    ensures
        forall|host: Host| #[trigger]
            table.contains_key(host) ==> {
                let after = table_after(port, rx, handshakes, table, capacity);
                after.contains_key(host) && after[host].handshakes_attempted
                    >= table[host].handshakes_attempted
            },
        attempts_within(table, handshakes.len()) ==> attempts_within(
            table_after(port, rx, handshakes, table, capacity),
            handshakes.len(),
        ),
{
    let after = table_after(port, rx, handshakes, table, capacity);
    if attempts_within(table, handshakes.len()) {
        assert forall|host: Host| #[trigger]
            after.contains_key(host) implies after[host].handshakes_attempted
            <= handshakes.len() by {
            if table.contains_key(host) {
            }
        }
    }
}

/// At all times the count of attempted handshakes of every host is at most
/// the number of handshakes: it is so after any frames have been handled,
/// from a table in which it was so, such as the empty one.
pub proof fn lemma_attempts_stay_within(
    port: u16,
    frames: Seq<SlicedView>,
    handshakes: Seq<Handshake>,
    table: Map<Host, State>,
    capacity: nat,
)
    requires
        handshakes.len() <= usize::MAX,
        attempts_within(table, handshakes.len()),
    ensures
        attempts_within(
            table_after_all(port, frames, handshakes, table, capacity),
            handshakes.len(),
        ),
    decreases frames.len(),
{
    if frames.len() > 0 {
        lemma_step_keeps_table(port, frames[0], handshakes, table, capacity);
        lemma_attempts_stay_within(
            port,
            frames.drop_first(),
            handshakes,
            table_after(port, frames[0], handshakes, table, capacity),
            capacity,
        );
    }
}

/// A response is sent only to a host that is not in the table, and the host is
/// in the table from then on.
pub proof fn lemma_answer_enters_host(
    host: Host,
    port: u16,
    rx: SlicedView,
    handshakes: Seq<Handshake>,
    table: Map<Host, State>,
    capacity: nat,
)
    requires
        answers(host, port, rx, handshakes, table, capacity),
    ensures
        !table.contains_key(host),
        table_after(port, rx, handshakes, table, capacity).contains_key(host),
{
}

/// No response is sent to a host that is in the table, whatever frames come.
pub proof fn lemma_known_host_is_not_answered(
    host: Host,
    port: u16,
    frames: Seq<SlicedView>,
    handshakes: Seq<Handshake>,
    table: Map<Host, State>,
    capacity: nat,
)
    requires
        handshakes.len() <= usize::MAX,
        table.contains_key(host),
    ensures
        answers_sent(host, port, frames, handshakes, table, capacity) == 0,
    decreases frames.len(),
{
    if frames.len() > 0 {
        lemma_step_keeps_table(port, frames[0], handshakes, table, capacity);
        lemma_known_host_is_not_answered(
            host,
            port,
            frames.drop_first(),
            handshakes,
            table_after(port, frames[0], handshakes, table, capacity),
            capacity,
        );
    }
}

/// Whatever frames come, and however often a host sends SYN+ACK, at most one
/// response is sent to it.
pub proof fn lemma_at_most_one_answer(
    host: Host,
    port: u16,
    frames: Seq<SlicedView>,
    handshakes: Seq<Handshake>,
    table: Map<Host, State>,
    capacity: nat,
)
    requires
        handshakes.len() <= usize::MAX,
    ensures
        answers_sent(host, port, frames, handshakes, table, capacity) <= 1,
    decreases frames.len(),
{
    if frames.len() > 0 {
        let after = table_after(port, frames[0], handshakes, table, capacity);
        if answers(host, port, frames[0], handshakes, table, capacity) {
            lemma_answer_enters_host(host, port, frames[0], handshakes, table, capacity);
            lemma_known_host_is_not_answered(
                host,
                port,
                frames.drop_first(),
                handshakes,
                after,
                capacity,
            );
        } else {
            lemma_at_most_one_answer(
                host,
                port,
                frames.drop_first(),
                handshakes,
                after,
                capacity,
            );
        }
    }
}

/// A host enters the table when a SYN+ACK from it is handled, and in no other
/// way: one entry for each host that a SYN+ACK was seen from.
pub proof fn lemma_synack_enters_host(
    host: Host,
    port: u16,
    rx: SlicedView,
    handshakes: Seq<Handshake>,
    table: Map<Host, State>,
    capacity: nat,
)
    ensures
        handled(port, rx, handshakes, table, capacity) matches Ok(Some(step)) ==> {
            &&& addressed(rx, port) matches Some((sender, tcp))
            &&& (tcp.syn && tcp.ack ==> step.table.contains_key(sender))
            &&& (step.table.contains_key(host) && !table.contains_key(host) ==> host == sender
                && tcp.syn && tcp.ack)
        },
{
}

/// A result names a service only for an ACK without SYN whose payload has
/// the response of a handshake as a part, and the service is that of the
/// first such handshake.
pub proof fn lemma_service_needs_match(
    port: u16,
    rx: SlicedView,
    handshakes: Seq<Handshake>,
    table: Map<Host, State>,
    capacity: nat,
    service: Seq<char>,
)
    requires
        handled(port, rx, handshakes, table, capacity) matches Ok(Some(step))
            && step.result.service == Some(service),
    ensures
        addressed(rx, port) matches Some((_, tcp)) && tcp.ack && !tcp.syn,
        exists|i: int|
            first_match(rx.payload, handshakes, i) && handshakes[i].service@ == service,
{
    lemma_matched_service_is_first(rx.payload, handshakes, service);
}

/// The length that is returned with a result is above zero exactly where a
/// response was written.
pub proof fn lemma_length_tells_response(
    step: Step,
    r: Result<Option<(ScanResult, usize)>, HandleError>,
    table_before: Map<Host, State>,
    table_after: Map<Host, State>,
    buffer_before: Seq<u8>,
    buffer_after: Seq<u8>,
)
    requires
        carried_out(Ok(Some(step)), r, table_before, table_after, buffer_before, buffer_after),
    ensures
        r matches Ok(Some((_, len))) && (len > 0 <==> step.response.is_some()),
{
}

} // verus!
