use demikernel_core::buffer::DemiBuffer;
use demikernel_core::fail::{EBADMSG, ENOTSUP};
use demikernel_core::ipv4::{build_ipv4_header, compute_checksum, IpProtocol, Ipv4Addr, Ipv4Header};

fn alice_ipv4() -> Ipv4Addr {
    Ipv4Addr::new(192, 168, 1, 1)
}

fn bob_ipv4() -> Ipv4Addr {
    Ipv4Addr::new(192, 168, 1, 2)
}

fn build_default(raw_bytes: &mut [u8], version: u8, ihl: u8, total_length: u16, flags: u8, ttl: u8, protocol: u8) {
    build_ipv4_header(
        raw_bytes,
        version,
        ihl,
        0,
        0,
        total_length,
        0,
        flags,
        0,
        ttl,
        protocol,
        &alice_ipv4().octets(),
        &bob_ipv4().octets(),
        None,
    );
}

#[test]
fn test_ipv4_header_parse_good() {
    const HEADER_MAX_SIZE: usize = (5 + 10) << 2;
    const PAYLOAD_SIZE: usize = 8;
    const DATAGRAM_SIZE: usize = HEADER_MAX_SIZE + PAYLOAD_SIZE;

    let mut raw_bytes = [0u8; DATAGRAM_SIZE];
    let data = [1u8, 2, 3, 4, 5, 6, 7, 8];

    let data_bytes = DemiBuffer::from_slice(&data).expect("'data' should fit in a DemiBuffer");
    let ihl_values = 5..16;

    for ihl in ihl_values {
        let header_size = (ihl as usize) << 2;
        let datagram_size = header_size + PAYLOAD_SIZE;

        build_ipv4_header(
            &mut raw_bytes[..header_size],
            4,
            ihl,
            0,
            0,
            datagram_size as u16,
            0,
            0x2,
            0,
            1,
            IpProtocol::UDP.as_u8(),
            &alice_ipv4().octets(),
            &bob_ipv4().octets(),
            None,
        );

        // Payload
        raw_bytes[header_size..datagram_size].copy_from_slice(&data);

        let mut buffer = match DemiBuffer::from_slice(&raw_bytes[..datagram_size]) {
            Ok(b) => b,
            Err(e) => panic!("failed to create buffer: {:?}", e),
        };

        match Ipv4Header::parse_and_strip(&mut buffer) {
            Ok(ipv4_hdr) => {
                assert_eq!(ipv4_hdr.src_addr(), alice_ipv4());
                assert_eq!(ipv4_hdr.dst_addr(), bob_ipv4());
                assert_eq!(ipv4_hdr.protocol(), IpProtocol::UDP);
                assert_eq!(buffer.len(), PAYLOAD_SIZE);
                assert_eq!(buffer.as_slice(), data_bytes.as_slice());
            },
            Err(e) => panic!("{:?}", e),
        }
    }
}

#[test]
fn test_ipv4_header_parse_invalid_version() {
    const HEADER_SIZE: usize = 20;
    const PAYLOAD_SIZE: usize = 0;
    const DATAGRAM_SIZE: usize = HEADER_SIZE + PAYLOAD_SIZE;

    let mut raw_bytes = [0u8; DATAGRAM_SIZE];
    let invalid_versions = [0u8, 1, 2, 3, 5, 7, 8, 9, 10, 11, 12, 13, 14, 15];

    for version in invalid_versions {
        build_default(&mut raw_bytes, version, 5, DATAGRAM_SIZE as u16, 0x2, 1, IpProtocol::UDP.as_u8());

        let mut buffer = match DemiBuffer::from_slice(&raw_bytes) {
            Ok(b) => b,
            Err(e) => panic!("failed to create buffer: {:?}", e),
        };

        if Ipv4Header::parse_and_strip(&mut buffer).is_ok() {
            panic!("parsed ipv4_header with invalid version: {:?}", version);
        }
    }
}

/// IHL is Internet Header Length
#[test]
fn test_ipv4_header_parse_invalid_ihl() {
    const HEADER_SIZE: usize = 20;
    const PAYLOAD_SIZE: usize = 0;
    const DATAGRAM_SIZE: usize = HEADER_SIZE + PAYLOAD_SIZE;

    let mut raw_bytes = [0u8; DATAGRAM_SIZE];
    let invalid_ihl_values = [0u8, 1, 2, 3, 4];

    for ihl in invalid_ihl_values {
        build_default(&mut raw_bytes, 4, ihl, DATAGRAM_SIZE as u16, 0x2, 1, IpProtocol::UDP.as_u8());

        let mut buffer = match DemiBuffer::from_slice(&raw_bytes) {
            Ok(buf) => buf,
            Err(e) => panic!("failed to create buffer: {:?}", e),
        };

        if Ipv4Header::parse_and_strip(&mut buffer).is_ok() {
            panic!("parsed ipv4 header with invalid IHL: {:?}", ihl)
        };
    }
}

#[test]
fn test_ipv4_header_parse_invalid_total_length() {
    const HEADER_SIZE: usize = 20;
    const PAYLOAD_SIZE: usize = 0;
    const DATAGRAM_SIZE: usize = HEADER_SIZE + PAYLOAD_SIZE;

    let mut raw_bytes = [0u8; DATAGRAM_SIZE];
    let invalid_total_lengths = 0..20u16;

    for total_length in invalid_total_lengths {
        build_default(&mut raw_bytes, 4, 5, total_length, 0x2, 1, IpProtocol::UDP.as_u8());

        let mut buffer = match DemiBuffer::from_slice(&raw_bytes) {
            Ok(b) => b,
            Err(e) => panic!("failed to create buffer: {:?}", e),
        };

        if Ipv4Header::parse_and_strip(&mut buffer).is_ok() {
            panic!("parsed ipv4 header with invalid total_length: {:?}", total_length)
        };
    }
}

#[test]
fn test_ipv4_header_parse_invalid_flags() {
    const HEADER_SIZE: usize = 20;
    const PAYLOAD_SIZE: usize = 0;
    const DATAGRAM_SIZE: usize = HEADER_SIZE + PAYLOAD_SIZE;

    let mut raw_bytes = [0u8; DATAGRAM_SIZE];
    // Flags field must have bit 3 zeroed as it is marked Reserved.
    let flags = 0x4;

    build_ipv4_header(
        &mut raw_bytes,
        4,
        5,
        0,
        0,
        DATAGRAM_SIZE as u16,
        0x1d,
        flags,
        0,
        1,
        IpProtocol::UDP.as_u8(),
        &alice_ipv4().octets(),
        &bob_ipv4().octets(),
        None,
    );

    let mut buffer = match DemiBuffer::from_slice(&raw_bytes) {
        Ok(b) => b,
        Err(e) => panic!("failed to create buffer: {:?}", e),
    };

    if Ipv4Header::parse_and_strip(&mut buffer).is_ok() {
        panic!("parsed ipv4 header with invalid flags: {:?}", flags)
    }
}

/// TTL is Time To Live
#[test]
fn test_ipv4_header_parse_invalid_ttl() {
    const HEADER_SIZE: usize = 20;
    const PAYLOAD_SIZE: usize = 0;
    const DATAGRAM_SIZE: usize = HEADER_SIZE + PAYLOAD_SIZE;

    let mut raw_bytes = [0u8; DATAGRAM_SIZE];
    // Datagrams with zeroed TTL values must me dropped.
    let ttl = 0x0;

    build_default(&mut raw_bytes, 4, 5, DATAGRAM_SIZE as u16, 0x2, ttl, IpProtocol::UDP.as_u8());

    let mut buffer = match DemiBuffer::from_slice(&raw_bytes) {
        Ok(b) => b,
        Err(e) => panic!("failed to create buffer: {:?}", e),
    };

    if Ipv4Header::parse_and_strip(&mut buffer).is_ok() {
        panic!("parsed ipv4 header with invalid ttl: {:?}", ttl);
    }
}

#[test]
fn test_ipv4_header_parse_invalid_protocol() {
    const HEADER_SIZE: usize = 20;
    const PAYLOAD_SIZE: usize = 0;
    const DATAGRAM_SIZE: usize = HEADER_SIZE + PAYLOAD_SIZE;

    let mut raw_bytes = [0u8; DATAGRAM_SIZE];
    let invalid_protocol_values = 144..252u8;

    for protocol in invalid_protocol_values {
        build_default(&mut raw_bytes, 4, 5, DATAGRAM_SIZE as u16, 0x2, 1, protocol);

        let mut buffer = match DemiBuffer::from_slice(&raw_bytes) {
            Ok(b) => b,
            Err(e) => panic!("failed to create buffer: {:?}", e),
        };

        if Ipv4Header::parse_and_strip(&mut buffer).is_ok() {
            panic!("parsed ipv4 header with invalid protocol: {:?}", protocol)
        };
    }
}

#[test]
fn test_ipv4_header_parse_invalid_header_checksum() {
    const HEADER_SIZE: usize = 20;
    const PAYLOAD_SIZE: usize = 0;
    const DATAGRAM_SIZE: usize = HEADER_SIZE + PAYLOAD_SIZE;

    let mut raw_bytes = [0u8; DATAGRAM_SIZE];
    // Datagrams with invalid header checksum must me dropped.
    let hdr_checksum = 0x1;

    build_ipv4_header(
        &mut raw_bytes,
        4,
        5,
        0,
        0,
        DATAGRAM_SIZE as u16,
        0,
        0x2,
        0,
        1,
        IpProtocol::UDP.as_u8(),
        &alice_ipv4().octets(),
        &bob_ipv4().octets(),
        Some(hdr_checksum),
    );

    let mut buffer = match DemiBuffer::from_slice(&raw_bytes) {
        Ok(b) => b,
        Err(e) => panic!("failed to create buffer: {:?}", e),
    };

    if Ipv4Header::parse_and_strip(&mut buffer).is_ok() {
        panic!("parsed ipv4 header with invalid header checksum: {:?}", hdr_checksum);
    }
}

#[test]
fn test_ipv4_header_parse_unsupported_dscp() {
    const HEADER_SIZE: usize = 20;
    const PAYLOAD_SIZE: usize = 0;
    const DATAGRAM_SIZE: usize = HEADER_SIZE + PAYLOAD_SIZE;

    let mut raw_bytes = [0u8; DATAGRAM_SIZE];
    let unsupported_dscp_values = 1..63u8;

    for dscp in unsupported_dscp_values {
        build_ipv4_header(
            &mut raw_bytes,
            4,
            5,
            dscp,
            0,
            DATAGRAM_SIZE as u16,
            0,
            0x2,
            0,
            1,
            IpProtocol::UDP.as_u8(),
            &alice_ipv4().octets(),
            &bob_ipv4().octets(),
            None,
        );

        let mut buffer = match DemiBuffer::from_slice(&raw_bytes) {
            Ok(b) => b,
            Err(e) => panic!("failed to create buffer: {:?}", e),
        };

        if Ipv4Header::parse_and_strip(&mut buffer).is_err() {
            panic!("dscp field should be ignored (dscp: {:?})", dscp);
        }
    }
}

#[test]
fn test_ipv4_header_parse_unsupported_ecn() {
    const HEADER_SIZE: usize = 20;
    const PAYLOAD_SIZE: usize = 0;
    const DATAGRAM_SIZE: usize = HEADER_SIZE + PAYLOAD_SIZE;

    let mut raw_bytes = [0u8; DATAGRAM_SIZE];
    let unsupported_ecn_values = 1..3u8;

    for ecn in unsupported_ecn_values {
        build_ipv4_header(
            &mut raw_bytes,
            4,
            5,
            0,
            ecn,
            DATAGRAM_SIZE as u16,
            0,
            0x2,
            0,
            1,
            IpProtocol::UDP.as_u8(),
            &alice_ipv4().octets(),
            &bob_ipv4().octets(),
            None,
        );

        let mut buffer = match DemiBuffer::from_slice(&raw_bytes) {
            Ok(b) => b,
            Err(e) => panic!("failed to create buffer: {:?}", e),
        };

        if Ipv4Header::parse_and_strip(&mut buffer).is_err() {
            panic!("ecn field should be ignored (ecn: {:?})", ecn);
        };
    }
}

#[test]
fn test_ipv4_header_parse_unsupported_fragmentation() {
    const HEADER_SIZE: usize = 20;
    const PAYLOAD_SIZE: usize = 0;
    const DATAGRAM_SIZE: usize = HEADER_SIZE + PAYLOAD_SIZE;

    let mut raw_bytes = [0u8; DATAGRAM_SIZE];
    // Fragmented packets are unsupported.
    // Fragments are detected by having either the MF bit set in Flags or a non-zero Fragment Offset field.
    let flags = 0x1; // Set MF bit.

    build_ipv4_header(
        &mut raw_bytes,
        4,
        5,
        0,
        0,
        DATAGRAM_SIZE as u16,
        0x1d,
        flags,
        0,
        1,
        IpProtocol::UDP.as_u8(),
        &alice_ipv4().octets(),
        &bob_ipv4().octets(),
        None,
    );

    let mut buffer = match DemiBuffer::from_slice(&raw_bytes) {
        Ok(b) => b,
        Err(e) => panic!("failed to create buffer: {:?}", e),
    };

    if Ipv4Header::parse_and_strip(&mut buffer).is_ok() {
        panic!("parsed ipv4 header with Flags: {:?}. Do we support it now?", flags);
    };

    // Fragmented packets are unsupported.
    // Fragments are detected by having either the MF bit set in Flags or a non-zero Fragment Offset field.
    let fragment_offset = 1;

    // The header is written over the bytes of the buffer that was refused.
    let mut bytes = buffer.as_slice().to_vec();
    build_ipv4_header(
        &mut bytes,
        4,
        5,
        0,
        0,
        DATAGRAM_SIZE as u16,
        0x1d,
        0x2,
        fragment_offset,
        1,
        IpProtocol::UDP.as_u8(),
        &alice_ipv4().octets(),
        &bob_ipv4().octets(),
        None,
    );

    let mut buffer = match DemiBuffer::from_slice(&bytes) {
        Ok(b) => b,
        Err(e) => panic!("failed to create buffer: {:?}", e),
    };

    if Ipv4Header::parse_and_strip(&mut buffer).is_ok() {
        panic!(
            "parsed ipv4 header with fragment_offset: {:?}. Do we support it now?",
            fragment_offset,
        );
    }
}

#[test]
fn test_ipv4_header_parse_unsupported_protocol() {
    const HEADER_SIZE: usize = 20;
    const PAYLOAD_SIZE: usize = 0;
    const DATAGRAM_SIZE: usize = HEADER_SIZE + PAYLOAD_SIZE;
    let mut raw_bytes = [0u8; DATAGRAM_SIZE];

    // Iterate over unsupported values for fragment flags.
    for protocol in 0..143u8 {
        match protocol {
            // Skip supported protocols.
            1 | 6 | 17 => continue,
            _ => {
                build_default(&mut raw_bytes, 4, 5, DATAGRAM_SIZE as u16, 0x2, 1, protocol);

                let mut buffer = match DemiBuffer::from_slice(&raw_bytes) {
                    Ok(buf) => buf,
                    Err(e) => panic!("failed to create buffer: {:?}", e),
                };

                if Ipv4Header::parse_and_strip(&mut buffer).is_ok() {
                    panic!("parsed ipv4 header with protocol: {:?}. Now supported?", protocol);
                };
            },
        };
    }
}

// Further cases of the parser and the header writer.

#[test]
fn ipv4_checksum_known_value() {
    // A textbook header: 4500 0073 0000 4000 4011 b861 c0a8 0001 c0a8 00c7.
    let header: [u8; 20] = [
        0x45, 0x00, 0x00, 0x73, 0x00, 0x00, 0x40, 0x00, 0x40, 0x11, 0x00, 0x00, 0xc0, 0xa8, 0x00, 0x01, 0xc0, 0xa8,
        0x00, 0xc7,
    ];
    assert_eq!(compute_checksum(&header), 0xb861);
    // The checksum word itself does not enter the sum.
    let mut with_checksum = header;
    with_checksum[10] = 0xb8;
    with_checksum[11] = 0x61;
    assert_eq!(compute_checksum(&with_checksum), 0xb861);
    // Short inputs are accepted.
    assert_eq!(compute_checksum(&[]), 0);
}

#[test]
fn ipv4_parse_strips_padding_and_reports_errors() {
    let mut raw = [0u8; 30];
    build_ipv4_header(
        &mut raw[..20],
        4,
        5,
        0,
        0,
        24,
        7,
        0,
        0,
        64,
        6,
        &alice_ipv4().octets(),
        &bob_ipv4().octets(),
        None,
    );
    for i in 20..30 {
        raw[i] = i as u8;
    }
    let mut buffer = DemiBuffer::from_slice(&raw).unwrap();
    let hdr = Ipv4Header::parse_and_strip(&mut buffer).unwrap();
    assert_eq!(hdr.protocol(), IpProtocol::TCP);
    assert_eq!(hdr.identification, 7);
    assert_eq!(hdr.time_to_live, 64);
    assert_eq!(buffer.as_slice(), &[20u8, 21, 22, 23]);

    // Too short.
    let mut short = DemiBuffer::from_slice(&raw[..19]).unwrap();
    assert_eq!(Ipv4Header::parse_and_strip(&mut short).unwrap_err().errno, EBADMSG);
    assert_eq!(short.len(), 19);

    // Wrong version.
    let mut v6 = raw;
    build_default(&mut v6, 6, 5, 20, 0, 1, 17);
    let mut b = DemiBuffer::from_slice(&v6).unwrap();
    assert_eq!(Ipv4Header::parse_and_strip(&mut b).unwrap_err().errno, ENOTSUP);

    // Unknown protocol.
    let mut unknown = raw;
    build_default(&mut unknown, 4, 5, 20, 0, 1, 200);
    let mut b = DemiBuffer::from_slice(&unknown).unwrap();
    assert_eq!(Ipv4Header::parse_and_strip(&mut b).unwrap_err().errno, ENOTSUP);
    assert_eq!(b.len(), 30);
}

#[test]
fn ipv4_written_header_fields() {
    let mut raw = [0xffu8; 24];
    build_ipv4_header(
        &mut raw,
        0x14,
        0x25,
        0xff,
        0x7,
        0x1234,
        0xabcd,
        0xff,
        0xffff,
        9,
        17,
        &[1, 2, 3, 4],
        &[5, 6, 7, 8],
        Some(0x0102),
    );
    assert_eq!(raw[0], 0x45);
    assert_eq!(raw[1], 0xff);
    assert_eq!(&raw[2..4], &[0x12, 0x34]);
    assert_eq!(&raw[4..6], &[0xab, 0xcd]);
    assert_eq!(&raw[6..8], &[0xff, 0xff]);
    assert_eq!(raw[8], 9);
    assert_eq!(raw[9], 17);
    assert_eq!(&raw[10..12], &[0x01, 0x02]);
    assert_eq!(&raw[12..20], &[1, 2, 3, 4, 5, 6, 7, 8]);
    assert_eq!(&raw[20..24], &[0xff, 0xff, 0xff, 0xff]);
}
