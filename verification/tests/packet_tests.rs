use etherparse::PacketBuilder;
use rscan::packet::{
    build_response_ip_header, build_response_tcp_header, build_tcp_response, fits, InternetSlice,
    LinkSlice, SlicedFrame, TcpSlice, TransportSlice,
};

const PEER_MAC: [u8; 6] = [1, 2, 3, 4, 5, 6];
const OUR_MAC: [u8; 6] = [7, 8, 9, 10, 11, 12];
const PEER_V4: [u8; 4] = [192, 168, 69, 2];
const OUR_V4: [u8; 4] = [192, 168, 69, 1];
const PEER_V6: [u8; 16] = [0x20, 1, 0xd, 0xb8, 0, 0, 0, 0, 0, 0, 0, 0, 0, 0, 0, 2];
const OUR_V6: [u8; 16] = [0x20, 1, 0xd, 0xb8, 0, 0, 0, 0, 0, 0, 0, 0, 0, 0, 0, 1];

fn received_tcp(syn: bool, ack: bool, fin: bool, rst: bool) -> TcpSlice {
    TcpSlice {
        source_port: 80,
        destination_port: 10000,
        sequence_number: 1000,
        acknowledgment_number: 77,
        window_size: 4096,
        syn,
        ack,
        fin,
        rst,
    }
}

fn received_v4(tcp: TcpSlice, payload: &[u8]) -> SlicedFrame {
    SlicedFrame {
        link: Some(LinkSlice { source: PEER_MAC, destination: OUR_MAC }),
        ip: Some(InternetSlice::Ipv4 {
            source: u32::from_be_bytes(PEER_V4),
            destination: u32::from_be_bytes(OUR_V4),
        }),
        transport: Some(TransportSlice::Tcp(tcp)),
        payload: payload.to_vec(),
    }
}

fn received_v6(tcp: TcpSlice) -> SlicedFrame {
    SlicedFrame {
        link: Some(LinkSlice { source: PEER_MAC, destination: OUR_MAC }),
        ip: Some(InternetSlice::Ipv6 {
            source: u128::from_be_bytes(PEER_V6),
            destination: u128::from_be_bytes(OUR_V6),
        }),
        transport: Some(TransportSlice::Tcp(tcp)),
        payload: Vec::new(),
    }
}

fn respond(rx: &SlicedFrame, payload: &[u8]) -> Option<Vec<u8>> {
    let mut buffer = vec![0xaau8; 1500];
    let len = build_tcp_response(rx, payload, &mut buffer)?;
    assert!(buffer[len..].iter().all(|b| *b == 0xaa));
    Some(buffer[..len].to_vec())
}

fn answer_flags(rx: &SlicedFrame) -> (bool, bool, bool, bool, usize) {
    let frame = respond(rx, b"data").expect("a response");
    let sliced = SlicedFrame::from_ethernet(&frame).expect("a frame that slices");
    match sliced.transport {
        Some(TransportSlice::Tcp(t)) => (t.syn, t.ack, t.fin, t.rst, sliced.payload.len()),
        other => panic!("no tcp in the response: {:?}", other),
    }
}

#[test]
fn short_frame_is_not_sliced() {
    assert!(SlicedFrame::from_ethernet(&[0u8; 3]).is_none());
}

#[test]
fn slicing_reads_every_layer_of_an_ipv4_frame() {
    let builder = PacketBuilder::ethernet2(PEER_MAC, OUR_MAC)
        .ipv4(PEER_V4, OUR_V4, 64)
        .tcp(443, 10000, 0xdead_beef, 1234)
        .syn()
        .ack(0x0102_0304);
    let mut frame = Vec::new();
    builder.write(&mut frame, b"hello").unwrap();
    let sliced = SlicedFrame::from_ethernet(&frame).unwrap();
    assert_eq!(sliced.link, Some(LinkSlice { source: PEER_MAC, destination: OUR_MAC }));
    assert_eq!(
        sliced.ip,
        Some(InternetSlice::Ipv4 { source: 0xc0a8_4502, destination: 0xc0a8_4501 })
    );
    assert_eq!(
        sliced.transport,
        Some(TransportSlice::Tcp(TcpSlice {
            source_port: 443,
            destination_port: 10000,
            sequence_number: 0xdead_beef,
            acknowledgment_number: 0x0102_0304,
            window_size: 1234,
            syn: true,
            ack: true,
            fin: false,
            rst: false,
        }))
    );
    assert_eq!(sliced.payload, b"hello".to_vec());
}

#[test]
fn slicing_reads_an_ipv6_frame_with_fin_and_rst() {
    let builder = PacketBuilder::ethernet2(PEER_MAC, OUR_MAC)
        .ipv6(PEER_V6, OUR_V6, 9)
        .tcp(1, 2, 3, 4)
        .fin()
        .rst();
    let mut frame = Vec::new();
    builder.write(&mut frame, &[]).unwrap();
    let sliced = SlicedFrame::from_ethernet(&frame).unwrap();
    assert_eq!(
        sliced.ip,
        Some(InternetSlice::Ipv6 {
            source: u128::from_be_bytes(PEER_V6),
            destination: u128::from_be_bytes(OUR_V6),
        })
    );
    match sliced.transport {
        Some(TransportSlice::Tcp(t)) => {
            assert!(t.fin && t.rst && !t.syn && !t.ack);
            assert_eq!((t.source_port, t.destination_port), (1, 2));
            assert_eq!((t.sequence_number, t.window_size), (3, 4));
        }
        other => panic!("no tcp: {:?}", other),
    }
    assert!(sliced.payload.is_empty());
}

#[test]
fn slicing_tells_udp_from_tcp() {
    let builder = PacketBuilder::ethernet2(PEER_MAC, OUR_MAC).ipv4(PEER_V4, OUR_V4, 64).udp(53, 10000);
    let mut frame = Vec::new();
    builder.write(&mut frame, b"abc").unwrap();
    let sliced = SlicedFrame::from_ethernet(&frame).unwrap();
    assert_eq!(sliced.transport, Some(TransportSlice::Udp));
    assert!(sliced.payload.is_empty());
    assert!(sliced.ip.is_some());
}

#[test]
fn frame_with_unknown_ether_type_has_only_a_link() {
    let mut frame = vec![0u8; 20];
    frame[..6].copy_from_slice(&OUR_MAC);
    frame[6..12].copy_from_slice(&PEER_MAC);
    frame[12] = 0x88;
    frame[13] = 0xb5;
    let sliced = SlicedFrame::from_ethernet(&frame).unwrap();
    assert_eq!(sliced.link, Some(LinkSlice { source: PEER_MAC, destination: OUR_MAC }));
    assert_eq!(sliced.ip, None);
    assert_eq!(sliced.transport, None);
}

#[test]
fn written_response_is_what_the_builder_writes() {
    let mut tcp = received_tcp(false, false, true, false);
    tcp.sequence_number = 4;
    let mut buffer = vec![0u8; 100];
    let len = build_tcp_response(&received_v4(tcp, &[]), b"xyz", &mut buffer).unwrap();
    let mut expected = Vec::new();
    PacketBuilder::ethernet2(OUR_MAC, PEER_MAC)
        .ipv4(OUR_V4, PEER_V4, 20)
        .tcp(10000, 80, 5, 4096)
        .fin()
        .ack(4)
        .write(&mut expected, &[])
        .unwrap();
    assert_eq!(len, 54);
    assert_eq!(&buffer[..len], &expected[..]);
    assert!(buffer[len..].iter().all(|b| *b == 0));
    let len = build_tcp_response(
        &received_v4(received_tcp(false, true, false, false), &[]),
        b"xyz",
        &mut buffer,
    )
    .unwrap();
    let mut expected = Vec::new();
    PacketBuilder::ethernet2(OUR_MAC, PEER_MAC)
        .ipv4(OUR_V4, PEER_V4, 20)
        .tcp(10000, 80, 1001, 4096)
        .ack(1000)
        .write(&mut expected, b"xyz")
        .unwrap();
    assert_eq!(len, 57);
    assert_eq!(&buffer[..len], &expected[..]);
}

#[test]
fn written_ipv6_response_has_seventy_four_bytes_of_headers() {
    let rx = received_v6(received_tcp(true, false, false, false));
    let mut buffer = vec![0u8; 74];
    assert_eq!(build_tcp_response(&rx, b"dropped", &mut buffer), Some(74));
    let mut expected = Vec::new();
    PacketBuilder::ethernet2(OUR_MAC, PEER_MAC)
        .ipv6(OUR_V6, PEER_V6, 20)
        .tcp(10000, 80, 1001, 4096)
        .syn()
        .ack(1000)
        .write(&mut expected, &[])
        .unwrap();
    assert_eq!(buffer, expected);
}

#[test]
fn fits_counts_headers_and_payload() {
    let v4 = InternetSlice::Ipv4 { source: 1, destination: 2 };
    let v6 = InternetSlice::Ipv6 { source: 1, destination: 2 };
    assert!(fits(&v4, 0, 54));
    assert!(!fits(&v4, 0, 53));
    assert!(fits(&v4, 1446, 1500));
    assert!(!fits(&v4, 1447, 1500));
    assert!(fits(&v6, 0, 74));
    assert!(!fits(&v6, 0, 73));
    assert!(fits(&v4, 65495, 70000));
    assert!(!fits(&v4, 65496, 70000));
    assert!(fits(&v6, 65515, 70000));
    assert!(!fits(&v6, 65516, 70000));
    assert!(!fits(&v6, usize::MAX, usize::MAX));
}

#[test]
fn response_ip_header_swaps_the_addresses() {
    let rx = received_v4(received_tcp(true, false, false, false), &[]);
    assert_eq!(
        build_response_ip_header(&rx),
        Some(InternetSlice::Ipv4 {
            source: u32::from_be_bytes(OUR_V4),
            destination: u32::from_be_bytes(PEER_V4),
        })
    );
    let rx = received_v6(received_tcp(true, false, false, false));
    assert_eq!(
        build_response_ip_header(&rx),
        Some(InternetSlice::Ipv6 {
            source: u128::from_be_bytes(OUR_V6),
            destination: u128::from_be_bytes(PEER_V6),
        })
    );
    let mut rx = received_v4(received_tcp(true, false, false, false), &[]);
    rx.ip = None;
    assert_eq!(build_response_ip_header(&rx), None);
}

#[test]
fn response_tcp_header_follows_the_flags() {
    let base = TcpSlice {
        source_port: 10000,
        destination_port: 80,
        sequence_number: 1001,
        acknowledgment_number: 1000,
        window_size: 4096,
        syn: false,
        ack: true,
        fin: false,
        rst: false,
    };
    let answer = |syn, ack, fin, rst| {
        build_response_tcp_header(&received_v4(received_tcp(syn, ack, fin, rst), &[]))
    };
    assert_eq!(answer(true, true, false, false), Some((base, true)));
    assert_eq!(answer(true, false, false, false), Some((TcpSlice { syn: true, ..base }, false)));
    assert_eq!(answer(false, true, false, false), Some((base, true)));
    assert_eq!(answer(false, false, true, false), Some((TcpSlice { fin: true, ..base }, false)));
    assert_eq!(answer(false, false, false, true), Some((TcpSlice { rst: true, ..base }, false)));
    assert_eq!(answer(false, false, false, false), None);
    assert_eq!(answer(true, false, true, true), Some((TcpSlice { syn: true, ..base }, false)));
    assert_eq!(answer(false, true, true, true), Some((base, true)));
    assert_eq!(answer(false, false, true, true), Some((TcpSlice { fin: true, ..base }, false)));
}

#[test]
fn response_sequence_number_wraps_round() {
    let mut tcp = received_tcp(true, false, false, false);
    tcp.sequence_number = u32::MAX;
    let (answer, _) = build_response_tcp_header(&received_v4(tcp, &[])).unwrap();
    assert_eq!(answer.sequence_number, 0);
    assert_eq!(answer.acknowledgment_number, u32::MAX);
}

#[test]
fn response_flags_on_the_wire() {
    assert_eq!(
        answer_flags(&received_v4(received_tcp(true, false, false, false), &[])),
        (true, true, false, false, 0)
    );
    assert_eq!(
        answer_flags(&received_v4(received_tcp(true, true, false, false), &[])),
        (false, true, false, false, 4)
    );
    assert_eq!(
        answer_flags(&received_v4(received_tcp(false, true, false, false), &[])),
        (false, true, false, false, 4)
    );
    assert_eq!(
        answer_flags(&received_v4(received_tcp(false, false, true, false), &[])),
        (false, true, true, false, 0)
    );
    assert_eq!(
        answer_flags(&received_v4(received_tcp(false, false, false, true), &[])),
        (false, true, false, true, 0)
    );
}

#[test]
fn nothing_is_written_where_there_is_no_response() {
    let mut buffer = vec![0x55u8; 200];
    let silent = received_v4(received_tcp(false, false, false, false), &[]);
    assert_eq!(build_tcp_response(&silent, b"x", &mut buffer), None);
    let mut udp = received_v4(received_tcp(true, false, false, false), &[]);
    udp.transport = Some(TransportSlice::Udp);
    assert_eq!(build_tcp_response(&udp, b"x", &mut buffer), None);
    for other in [TransportSlice::Icmpv4, TransportSlice::Icmpv6, TransportSlice::Igmp] {
        udp.transport = Some(other);
        assert_eq!(build_tcp_response(&udp, b"x", &mut buffer), None);
    }
    udp.transport = None;
    assert_eq!(build_tcp_response(&udp, b"x", &mut buffer), None);
    let mut no_link = received_v4(received_tcp(true, false, false, false), &[]);
    no_link.link = None;
    assert_eq!(build_tcp_response(&no_link, b"x", &mut buffer), None);
    let mut no_ip = received_v4(received_tcp(true, false, false, false), &[]);
    no_ip.ip = None;
    assert_eq!(build_tcp_response(&no_ip, b"x", &mut buffer), None);
    assert!(buffer.iter().all(|b| *b == 0x55));
}

#[test]
fn response_length_counts_the_payload_only_on_a_bare_ack() {
    let mut buffer = vec![0u8; 1500];
    let syn = received_v4(received_tcp(true, false, false, false), &[]);
    assert_eq!(build_tcp_response(&syn, b"payload", &mut buffer), Some(54));
    let synack = received_v4(received_tcp(true, true, false, false), &[]);
    assert_eq!(build_tcp_response(&synack, b"payload", &mut buffer), Some(61));
    let synack6 = received_v6(received_tcp(true, true, false, false));
    assert_eq!(build_tcp_response(&synack6, b"payload", &mut buffer), Some(81));
    let mut exact = vec![0u8; 61];
    assert_eq!(build_tcp_response(&synack, b"payload", &mut exact), Some(61));
}

fn assert_mirrored(rx: &SlicedFrame) {
    let frame = respond(rx, b"request").expect("a response");
    let back = SlicedFrame::from_ethernet(&frame).expect("a frame that slices");
    let link = back.link.unwrap();
    assert_eq!(
        Some(LinkSlice { source: link.destination, destination: link.source }),
        rx.link
    );
    let swapped = match back.ip.unwrap() {
        InternetSlice::Ipv4 { source, destination } => {
            InternetSlice::Ipv4 { source: destination, destination: source }
        }
        InternetSlice::Ipv6 { source, destination } => {
            InternetSlice::Ipv6 { source: destination, destination: source }
        }
    };
    assert_eq!(Some(swapped), rx.ip);
    let (sent, received) = match (back.transport, rx.transport) {
        (Some(TransportSlice::Tcp(sent)), Some(TransportSlice::Tcp(received))) => (sent, received),
        other => panic!("not tcp: {:?}", other),
    };
    assert_eq!(sent.source_port, received.destination_port);
    assert_eq!(sent.destination_port, received.source_port);
    assert_eq!(sent.sequence_number, received.sequence_number.wrapping_add(1));
    assert_eq!(sent.acknowledgment_number, received.sequence_number);
    assert_eq!(sent.window_size, received.window_size);
}

#[test]
fn response_sliced_again_mirrors_the_frame() {
    for (syn, ack, fin, rst) in [
        (true, false, false, false),
        (true, true, false, false),
        (false, true, false, false),
        (false, false, true, false),
        (false, false, false, true),
    ] {
        assert_mirrored(&received_v4(received_tcp(syn, ack, fin, rst), &[]));
        assert_mirrored(&received_v6(received_tcp(syn, ack, fin, rst)));
    }
}

#[test]
fn response_has_time_to_live_twenty() {
    let frame = respond(&received_v4(received_tcp(true, false, false, false), &[]), &[]).unwrap();
    let sliced = etherparse::SlicedPacket::from_ethernet(&frame).unwrap();
    match sliced.net {
        Some(etherparse::NetSlice::Ipv4(ip)) => assert_eq!(ip.header().ttl(), 20),
        _ => panic!("no ipv4"),
    }
    let frame = respond(&received_v6(received_tcp(true, false, false, false)), &[]).unwrap();
    let sliced = etherparse::SlicedPacket::from_ethernet(&frame).unwrap();
    match sliced.net {
        Some(etherparse::NetSlice::Ipv6(ip)) => assert_eq!(ip.header().hop_limit(), 20),
        _ => panic!("no ipv6"),
    }
}
