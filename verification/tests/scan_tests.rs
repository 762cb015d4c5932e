use std::collections::VecDeque;

use rscan::handshake::Handshake;
use rscan::packet::{build_tcp_response, SlicedFrame, TransportSlice};
use rscan::recv::{handle_packet, HostTable};
use rscan::{
    scan_target, IpAddress, ScanConfig, ScanResult, Target, TcpFlags, IP_NUMBER_TCP,
    MAX_PACKET_SIZE,
};

const SRC_IP: [u8; 4] = [192, 168, 69, 1];
const DST_IP: [u8; 4] = [192, 168, 69, 2];

fn scan_config() -> ScanConfig {
    ScanConfig {
        src_mac: [0, 0, 0, 0, 0, 0],
        dst_mac: [0, 0, 0, 0, 0, 0],
        src_ipv4: Some(u32::from_be_bytes(SRC_IP)),
        src_ipv6: None,
        src_port: 10000,
        handshakes_file: "handshakes.yaml".into(),
    }
}

fn handshakes() -> Vec<Handshake> {
    vec![Handshake {
        service: "http".into(),
        request: b"GET / HTTP/1.0\r\n\r\n".to_vec(),
        response: b"HTTP/1.".to_vec(),
    }]
}

fn targets(max_port: u16) -> Vec<Target> {
    (1..max_port)
        .map(|port| Target {
            ip: IpAddress::V4(u32::from_be_bytes(DST_IP)),
            port,
            ip_number: IP_NUMBER_TCP,
            data: None,
        })
        .collect()
}

/// Sends a probe for each target over a wire kept in memory. On the far side
/// every frame is answered as `build_tcp_response` answers it, with `body` as
/// the payload. Returns the results and the frames that were sent in answer
/// to what came back.
fn scan(targets: &[Target], body: &[u8]) -> (Vec<ScanResult>, Vec<Vec<u8>>) {
    let conf = scan_config();
    let handshakes = handshakes();
    let mut table = HostTable::new();
    let mut wire: VecDeque<Vec<u8>> = VecDeque::new();
    for target in targets {
        wire.push_back(scan_target(target, &conf).expect("a probe"));
    }
    let mut results = Vec::new();
    let mut answers = Vec::new();
    let mut tx_pkt = vec![0u8; MAX_PACKET_SIZE];
    let mut resp_pkt = vec![0u8; MAX_PACKET_SIZE];
    while let Some(frame) = wire.pop_front() {
        let sliced = SlicedFrame::from_ethernet(&frame).expect("a frame that slices");
        let len = match build_tcp_response(&sliced, body, &mut tx_pkt) {
            Some(len) => len,
            None => continue,
        };
        let handled = handle_packet(&conf, &tx_pkt[..len], &mut resp_pkt, &handshakes, &mut table)
            .expect("a frame that is handled");
        if let Some((result, resp_len)) = handled {
            results.push(result);
            if resp_len > 0 {
                answers.push(resp_pkt[..resp_len].to_vec());
                wire.push_back(resp_pkt[..resp_len].to_vec());
            }
        }
    }
    (results, answers)
}

#[test]
fn syn_test() {
    let targets = targets(65000);
    let (results, _) = scan(&targets, &[]);
    let responders: Vec<&ScanResult> =
        results.iter().filter(|r| r.tcp_flags == Some(TcpFlags::Synack)).collect();
    assert_eq!(targets.len(), 64999);
    assert_eq!(targets.len(), responders.len());
}

#[test]
fn send_recv_test() {
    let targets = targets(65000);
    let (results, answers) = scan(&targets, &[]);
    let mut ports: Vec<u16> = results
        .iter()
        .filter(|r| r.tcp_flags == Some(TcpFlags::Synack))
        .map(|r| r.port)
        .collect();
    ports.sort();
    ports.dedup();
    assert_eq!(targets.len(), ports.len());
    assert_eq!(targets.len(), answers.len());
    assert!(results.iter().all(|r| r.ip == IpAddress::V4(u32::from_be_bytes(DST_IP))));
}

#[test]
fn http_test() {
    let targets = targets(5);
    let (results, _) = scan(&targets, b"HTTP/1.1 302 Found\r\nLocation: http://www.example.com/\r\n\r\n");
    let mut syn_results = vec![];
    let mut handshake_results = vec![];
    for scan_result in results {
        if scan_result.ip == IpAddress::V4(u32::from_be_bytes(DST_IP)) {
            if scan_result.tcp_flags == Some(TcpFlags::Synack) {
                syn_results.push(scan_result);
            } else if scan_result.tcp_flags == Some(TcpFlags::Ack) {
                if scan_result.service == Some("http".into()) {
                    handshake_results.push(scan_result);
                }
            }
        }
    }
    assert_eq!(targets.len(), syn_results.len());
    assert_eq!(targets.len(), handshake_results.len());
}

#[test]
fn synack_is_answered_once_with_the_first_request() {
    let (results, answers) = scan(&targets(2), &[]);
    assert_eq!(results.len(), 2);
    assert_eq!(results[0].tcp_flags, Some(TcpFlags::Synack));
    assert_eq!(results[0].service, None);
    assert_eq!(results[1].tcp_flags, Some(TcpFlags::Ack));
    assert_eq!(answers.len(), 1);
    let answer = SlicedFrame::from_ethernet(&answers[0]).unwrap();
    assert_eq!(answer.payload, handshakes()[0].request);
    match answer.transport {
        Some(TransportSlice::Tcp(tcp)) => {
            assert!(tcp.ack && !tcp.syn && !tcp.fin && !tcp.rst);
            assert_eq!(tcp.sequence_number, tcp.acknowledgment_number.wrapping_add(1));
            assert_eq!((tcp.source_port, tcp.destination_port), (10000, 1));
        }
        other => panic!("no tcp: {:?}", other),
    }
}
