//! A raw-frame TCP service prober: SYN probes, peer-swapped responses, the
//! per-host probe state machine and the service fingerprint matcher.
use crate::packet::{
    frame_fits, headers_len, tcp_frame, InternetSlice, LinkSlice, TcpFrame, TcpSlice, TIME_TO_LIVE,
};
use vstd::prelude::*;

pub mod handshake;
pub mod mac;
pub mod packet;
pub mod recv;

verus! {

/// Largest frame, in bytes, that is written or read.
pub const MAX_PACKET_SIZE: usize = 1500;

/// An IPv4 or IPv6 address, held as the big-endian integer of its octets.
#[derive(Clone, Copy, Debug, PartialEq, Eq, Hash, Structural)]
pub enum IpAddress {
    V4(u32),
    V6(u128),
}

/// The TCP flag combinations that a result reports.
#[derive(Clone, Copy, Debug, PartialEq, Eq, Hash, Structural)]
pub enum TcpFlags {
    Syn,
    Synack,
    Ack,
    Rst,
}

/// The IP protocol number of TCP.
pub const IP_NUMBER_TCP: u8 = 6;

/// The window that a probe announces.
pub const PROBE_WINDOW: u16 = 65535;

/// A host and port to probe.
#[derive(Clone, Debug)]
pub struct Target {
    pub ip: IpAddress,
    pub port: u16,
    pub ip_number: u8,
    pub data: Option<Vec<u8>>,
}

/// What was learnt from one received frame.
#[derive(Clone, Debug)]
pub struct ScanResult {
    pub ip: IpAddress,
    pub port: u16,
    pub transport_protocol: u8,
    pub service: Option<String>,
    pub tcp_flags: Option<TcpFlags>,
    pub data: Vec<u8>,
}

/// A `ScanResult` with its service name and data as sequences.
pub struct ScanResultView {
    pub ip: IpAddress,
    pub port: u16,
    pub transport_protocol: u8,
    pub service: Option<Seq<char>>,
    pub tcp_flags: Option<TcpFlags>,
    pub data: Seq<u8>,
}

impl View for ScanResult {
    type V = ScanResultView;

    open spec fn view(&self) -> ScanResultView {
        ScanResultView {
            ip: self.ip,
            port: self.port,
            transport_protocol: self.transport_protocol,
            service: match self.service {
                Some(name) => Some(name@),
                None => None,
            },
            tcp_flags: self.tcp_flags,
            data: self.data@,
        }
    }
}

/// The addresses and the port that probes are sent from, and where the
/// handshakes are kept.
#[derive(Clone, Debug)]
pub struct ScanConfig {
    pub src_mac: [u8; 6],
    pub dst_mac: [u8; 6],
    pub src_ipv4: Option<u32>,
    pub src_ipv6: Option<u128>,
    pub src_port: u16,
    pub handshakes_file: String,
}

/// Why no probe could be made for a target.
#[derive(Clone, Copy, Debug, PartialEq, Eq, Structural)]
pub enum PacketGenError {
    MissingIpv4,
    MissingIpv6,
}

impl PacketGenError {
    /// The error in words.
    pub fn description(&self) -> (r: &'static str)
        ensures
            r@ == match *self {
                PacketGenError::MissingIpv4 => "Missing source Ipv4 address"@,
                PacketGenError::MissingIpv6 => "Missing source Ipv6 address"@,
            },
    {
        match *self {
            PacketGenError::MissingIpv4 => "Missing source Ipv4 address",
            PacketGenError::MissingIpv6 => "Missing source Ipv6 address",
        }
    }
}

/// The IP addresses of a probe for `target`: from the configured source
/// address of the target's family to the target. Without such a source
/// address there is no probe.
pub open spec fn probe_addresses(
    target: IpAddress,
    src_ipv4: Option<u32>,
    src_ipv6: Option<u128>,
) -> Result<InternetSlice, PacketGenError> {
    match target {
        IpAddress::V4(destination) => match src_ipv4 {
            Some(source) => Ok(InternetSlice::Ipv4 { source, destination }),
            None => Err(PacketGenError::MissingIpv4),
        },
        IpAddress::V6(destination) => match src_ipv6 {
            Some(source) => Ok(InternetSlice::Ipv6 { source, destination }),
            None => Err(PacketGenError::MissingIpv6),
        },
    }
}

/// The headers of a SYN probe: the configured hardware addresses and source
/// port, the target's port, the given sequence number, nothing acknowledged,
/// and SYN as the only flag.
pub open spec fn probe_headers(
    ip: InternetSlice,
    port: u16,
    conf: ScanConfig,
    sequence_number: u32,
) -> TcpFrame {
    TcpFrame {
        link: LinkSlice { source: conf.src_mac, destination: conf.dst_mac },
        ip,
        time_to_live: TIME_TO_LIVE,
        tcp: TcpSlice {
            source_port: conf.src_port,
            destination_port: port,
            sequence_number,
            acknowledgment_number: 0,
            window_size: PROBE_WINDOW,
            syn: true,
            ack: false,
            fin: false,
            rst: false,
        },
    }
}

/// Calls `rand::random::<u32>()`. Nothing is known of the number.
#[verifier::external_body]
fn random_sequence_number() -> u32 {
    rand::random()
}

impl Target {
    /// Writes the SYN probe for this target, with the given sequence number,
    /// to the front of `pkt` and returns its length. Fails, and writes
    /// nothing, where no source address of the target's family is configured.
    pub fn to_pkt_numbered(
        &self,
        pkt: &mut [u8],
        scan_config: &ScanConfig,
        sequence_number: u32,
    ) -> (r: Result<usize, PacketGenError>)
        requires
            probe_addresses(self.ip, scan_config.src_ipv4, scan_config.src_ipv6) matches Ok(ip)
                ==> frame_fits(ip, 0, old(pkt)@.len()),
        ensures
            match probe_addresses(self.ip, scan_config.src_ipv4, scan_config.src_ipv6) {
                Err(e) => r == Err::<usize, _>(e) && final(pkt)@ == old(pkt)@,
                Ok(ip) => {
                    let frame = tcp_frame(
                        probe_headers(ip, self.port, *scan_config, sequence_number),
                        Seq::empty(),
                    );
                    &&& r == Ok::<_, PacketGenError>(headers_len(ip) as usize)
                    &&& frame.len() == headers_len(ip)
                    &&& final(pkt)@ == frame + old(pkt)@.subrange(
                        headers_len(ip) as int,
                        old(pkt)@.len() as int,
                    )
                },
            },
    {
        let ip = match self.ip {
            IpAddress::V4(destination) => match scan_config.src_ipv4 {
                Some(source) => InternetSlice::Ipv4 { source, destination },
                None => {
                    return Err(PacketGenError::MissingIpv4);
                },
            },
            IpAddress::V6(destination) => match scan_config.src_ipv6 {
                Some(source) => InternetSlice::Ipv6 { source, destination },
                None => {
                    return Err(PacketGenError::MissingIpv6);
                },
            },
        };
        let headers = TcpFrame {
            link: LinkSlice { source: scan_config.src_mac, destination: scan_config.dst_mac },
            ip,
            time_to_live: TIME_TO_LIVE,
            tcp: TcpSlice {
                source_port: scan_config.src_port,
                destination_port: self.port,
                sequence_number,
                acknowledgment_number: 0,
                window_size: PROBE_WINDOW,
                syn: true,
                ack: false,
                fin: false,
                rst: false,
            },
        };
        let empty: [u8; 0] = [];
        assert(empty@ =~= Seq::<u8>::empty());
        Ok(headers.write(&empty, pkt))
    }

    /// Writes the SYN probe for this target, with a random sequence number,
    /// to the front of `pkt` and returns its length. Fails, and writes
    /// nothing, where no source address of the target's family is configured.
    pub fn to_pkt(&self, pkt: &mut [u8], scan_config: &ScanConfig) -> (r: Result<
        usize,
        PacketGenError,
    >)
        requires
            probe_addresses(self.ip, scan_config.src_ipv4, scan_config.src_ipv6) matches Ok(ip)
                ==> frame_fits(ip, 0, old(pkt)@.len()),
        ensures
            match probe_addresses(self.ip, scan_config.src_ipv4, scan_config.src_ipv6) {
                Err(e) => r == Err::<usize, _>(e) && final(pkt)@ == old(pkt)@,
                Ok(ip) => {
                    &&& r == Ok::<_, PacketGenError>(headers_len(ip) as usize)
                    &&& exists|sequence_number: u32|
                        {
                            let frame = #[trigger] tcp_frame(
                                probe_headers(ip, self.port, *scan_config, sequence_number),
                                Seq::empty(),
                            );
                            &&& frame.len() == headers_len(ip)
                            &&& final(pkt)@ == frame + old(pkt)@.subrange(
                                headers_len(ip) as int,
                                old(pkt)@.len() as int,
                            )
                        }
                },
            },
    {
        let sequence_number = random_sequence_number();
        self.to_pkt_numbered(pkt, scan_config, sequence_number)
    }
}

/// The frame to send for a target: its SYN probe, with a random sequence
/// number, in a buffer of its own. One frame for a target, and none where no
/// source address of the target's family is configured.
pub fn scan_target(target: &Target, scan_config: &ScanConfig) -> (r: Result<
    Vec<u8>,
    PacketGenError,
>)
    ensures
        match probe_addresses(target.ip, scan_config.src_ipv4, scan_config.src_ipv6) {
            Err(e) => r == Err::<Vec<u8>, _>(e),
            Ok(ip) => {
                &&& r matches Ok(frame)
                &&& frame@.len() == headers_len(ip)
                &&& exists|sequence_number: u32|
                    frame@ == #[trigger] tcp_frame(
                        probe_headers(ip, target.port, *scan_config, sequence_number),
                        Seq::empty(),
                    )
            },
        },
{
    let mut pkt: Vec<u8> = vec![0u8; MAX_PACKET_SIZE];
    let ghost blank = pkt@;
    match target.to_pkt(pkt.as_mut_slice(), scan_config) {
        Ok(len) => {
            let ghost written = pkt@;
            pkt.truncate(len);
            proof {
                let ip = probe_addresses(
                    target.ip,
                    scan_config.src_ipv4,
                    scan_config.src_ipv6,
                ).unwrap();
                let sequence_number = choose|sequence_number: u32|
                    {
                        let frame = #[trigger] tcp_frame(
                            probe_headers(ip, target.port, *scan_config, sequence_number),
                            Seq::empty(),
                        );
                        &&& frame.len() == headers_len(ip)
                        &&& written == frame + blank.subrange(
                            headers_len(ip) as int,
                            blank.len() as int,
                        )
                    };
                let frame = tcp_frame(
                    probe_headers(ip, target.port, *scan_config, sequence_number),
                    Seq::empty(),
                );
                assert(pkt@ =~= frame);
            }
            Ok(pkt)
        },
        Err(e) => Err(e),
    }
}

} // verus!
