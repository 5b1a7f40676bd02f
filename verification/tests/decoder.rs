use dnslogger::parse::dns::{
    dns_message, parse_compressed_chain, parse_compressed_token, parse_dns_message,
    parse_dnsclass, parse_dnstype, parse_edns_option, parse_flags, parse_query,
    parse_resource_record, AAAARecord, ARecord, CNameRecord, CompressedName,
    CompressedNameChain, DnsClass, DnsType, MxRecord, NsRecord, Opcode, OptRecord, PtrRecord, Qr,
    Rcode, SoaRecord, SrvRecord, TxtRecord,
};

/// A response to an MX query for google.com: one question, six answers
/// and six additional address records, with compressed names throughout.
fn dns_response() -> Vec<u8> {
    let mut m: Vec<u8> = vec![
        0xf7, 0x6f, 0x81, 0x80, 0x00, 0x01, 0x00, 0x06, 0x00, 0x00, 0x00, 0x06,
    ];
    m.extend_from_slice(&[
        0x06, 0x67, 0x6f, 0x6f, 0x67, 0x6c, 0x65, 0x03, 0x63, 0x6f, 0x6d, 0x00, 0x00, 0x0f, 0x00,
        0x01,
    ]);
    let hosts: [(u16, u8); 6] = [(40, b'4'), (10, b'5'), (10, b'6'), (10, b'1'), (10, b'2'), (40, b'3')];
    for (preference, digit) in hosts.iter() {
        m.extend_from_slice(&[0xc0, 0x0c, 0x00, 0x0f, 0x00, 0x01, 0x00, 0x00, 0x02, 0x28, 0x00, 0x0a]);
        m.extend_from_slice(&preference.to_be_bytes());
        m.extend_from_slice(&[0x05, b's', b'm', b't', b'p', *digit, 0xc0, 0x0c]);
    }
    let addresses: [(u8, [u8; 4]); 6] = [
        (0x2a, [216, 239, 37, 26]),
        (0x40, [64, 233, 167, 25]),
        (0x56, [66, 102, 9, 25]),
        (0x6c, [216, 239, 57, 25]),
        (0x82, [216, 239, 37, 25]),
        (0x98, [216, 239, 57, 26]),
    ];
    for (offset, address) in addresses.iter() {
        m.extend_from_slice(&[0xc0, *offset, 0x00, 0x01, 0x00, 0x01, 0x00, 0x00, 0x02, 0x58, 0x00, 0x04]);
        m.extend_from_slice(address);
    }
    m
}

/// A query whose name is a pointer to itself.
fn dns_looping_pointer() -> Vec<u8> {
    vec![
        0x12, 0x34, 0x01, 0x00, 0x00, 0x01, 0x00, 0x00, 0x00, 0x00, 0x00, 0x00, 0xc0, 0x0c, 0x00,
        0x01, 0x00, 0x01,
    ]
}

#[test]
fn test_parse_compressed_token() {
    let data: [u8; 12] = [
        0x06, 0x67, 0x6f, 0x6f, 0x67, 0x6c, 0x65, 0x03, 0x63, 0x6f, 0x6d, 0x00,
    ];
    let (_rest, name) = parse_compressed_token(&data).unwrap();
    assert_eq!(Some(CompressedName::Label("google")), name)
}

#[test]
fn test_compressed_name_chain() {
    let response = dns_response();
    let mut cn = CompressedNameChain::default();
    let l1 = String::from("host");
    let l2 = String::from("subdomain");
    cn.push(CompressedName::Label(&l1));
    cn.push(CompressedName::Label(&l2));
    cn.push(CompressedName::Pointer(12));

    let name = cn.resolve_name(0, &response);
    let should_be = &Some("host.subdomain.google.com".to_string());
    assert_eq!(should_be, name);
}

#[test]
fn test_parse_compressed_chain() {
    let response = dns_response();
    let data: [u8; 12] = [
        0x06, 0x67, 0x6f, 0x6f, 0x67, 0x6c, 0x65, 0x03, 0x63, 0x6f, 0x6d, 0x00,
    ];

    let (rest, mut nc) = parse_compressed_chain(&data).unwrap();
    println!("{:?}", nc);
    let name = nc.resolve_name(0, &response);
    let should_be: &Option<String> = &Some("google.com".to_string());
    assert_eq!(should_be, name);
    assert_eq!(0, rest.len(), "should eat nullbyte at end");
}

#[test]
fn test_parse_flags() {
    let flag_data: [u8; 2] = [0x81, 0x80];
    let (_, flags) = parse_flags(&flag_data).unwrap();
    println!("{:?}", flags);

    assert_eq!(flags.qr, Qr::Response);
    assert_eq!(flags.opcode, Opcode::Query);
    assert_eq!(flags.rcode, Rcode::NoError);
    assert!(!flags.aa);
    assert!(flags.rd);
}

#[test]
fn test_parse_dnsclass() {
    let data: [u8; 2] = [0, 255];
    let (_, x) = parse_dnsclass(&data).unwrap();
    assert_eq!(DnsClass::ALL, x);
}

#[test]
fn test_parse_dnstype() {
    let data: [u8; 2] = [0, 33];
    let (_, x) = parse_dnstype(&data).unwrap();
    assert_eq!(DnsType::SRV, x);
}

#[test]
fn test_parse_query() {
    let response = dns_response();
    let (offset, len) = (12, 16);
    let query = &response[offset..offset + len];
    let (_rest, query) = parse_query(query).unwrap();
    println!("{:?}", query);
    assert_eq!(query.qtype, DnsType::MX);
    assert_eq!(query.qclass, DnsClass::IN);
}

#[test]
fn test_parse_dns_message() {
    let response = dns_response();
    let (_res, mut dns_message) = parse_dns_message(&response).unwrap();
    println!("{:?}", dns_message);
    assert_eq!(dns_message.header.id, 63343);
    assert_eq!(dns_message.header.qdcount, 1);
    assert_eq!(dns_message.header.ancount, 6);
    assert_eq!(dns_message.header.nscount, 0);
    assert_eq!(dns_message.header.arcount, 6);

    println!("--");
    println!("Queries:");
    for (i, anrr) in dns_message.queries.iter_mut().enumerate() {
        anrr.name_chain.resolve_name(0, &response);
        println!("  {}: {:?}", i, anrr);
    }

    println!("Answers:");
    for (i, anrr) in dns_message.answers.iter_mut().enumerate() {
        anrr.resolve(&response).unwrap();
        println!("  {}: {:?}", i, anrr);
    }

    println!("Additional records:");
    for (i, anrr) in dns_message.arecords.iter_mut().enumerate() {
        anrr.resolve(&response).unwrap();
        println!("  {}: {:?}", i, anrr);
    }
}

#[test]
fn test_dns_message() {
    let response = dns_response();
    let (_rest, dns_message) = dns_message(&response, true).unwrap();
    println!("{:#x?}", dns_message);
    assert_eq!(dns_message.header.arcount, 6);
    let should_be = Some("smtp3.google.com".to_string());
    assert_eq!(should_be, dns_message.arecords[5].name_chain.name);
}

#[test]
fn test_should_handle_looping_pointers() {
    let dns_data = dns_looping_pointer();
    let (_rest, dns_message) = dns_message(&dns_data, false).unwrap();
    println!("{:?}", dns_message);
    assert!(true);
}

#[test]
fn test_parse_resource_record() {
    let response = dns_response();
    let (offset, len) = (28, 22);
    let rr1 = &response[offset..offset + len];
    let (_, rr) = parse_resource_record(rr1).unwrap();
    println!("{:?}", rr);
    assert_eq!(rr.rrtype, DnsType::MX);
    assert_eq!(rr.rrclass, DnsClass::IN);
}

#[test]
fn test_mx_record_parser() {
    let rdata: [u8; 10] = [0, 40, 5, 115, 109, 116, 112, 52, 192, 12];
    let (_, v) = MxRecord::parse_rdata(&rdata).unwrap();
    println!("MxRecord::parse_rdata -> {:?}", v);
    assert!(true);
}

#[test]
fn test_a_record_parser() {
    let rdata: [u8; 4] = [216, 239, 37, 26];
    let (_, v) = ARecord::parse_rdata(&rdata).unwrap();
    println!("ARecord::parse_rdata -> {:?}", v);
    assert_eq!(u32::from_be_bytes([216, 239, 37, 26]), v);
}

#[test]
fn test_aaaa_record_parser() {
    let rdata: [u8; 16] = [
        32, 1, 4, 248, 0, 4, 0, 7, 2, 224, 129, 255, 254, 82, 154, 107,
    ];
    let (_, v) = AAAARecord::parse_rdata(&rdata).unwrap();
    println!("AAAARecord::parse_rdata -> {:?}", v);
}

#[test]
fn test_ptr_record_parser() {
    let rdata: [u8; 32] = [
        12, 54, 54, 45, 49, 57, 50, 45, 57, 45, 49, 48, 52, 3, 103, 101, 110, 9, 116, 119, 116,
        101, 108, 101, 99, 111, 109, 3, 110, 101, 116, 0,
    ];
    let (_, v) = PtrRecord::parse_rdata(&rdata).unwrap();
    println!("PtrRecord::parse_rdata -> {:?}", v);
}

#[test]
fn test_txt_record_parser() {
    let rdata: [u8; 16] = [
        15, 118, 61, 115, 112, 102, 49, 32, 112, 116, 114, 32, 63, 97, 108, 108,
    ];
    let (_, (len, v)) = TxtRecord::parse_rdata(&rdata).unwrap();
    println!(
        "TxtRecord::parse_rdata -> len:{}, bytes: {:x?}, string: {:?}",
        len,
        v,
        String::from_utf8_lossy(v)
    );
}

#[test]
fn test_cname_record_parser() {
    let rdata: [u8; 8] = [3, 119, 119, 119, 1, 108, 192, 16];
    let (_, v) = CNameRecord::parse_rdata(&rdata).unwrap();
    println!("CnameRecord::parse_rdata -> {:?}", v);
}

#[test]
fn test_ns_record_parser() {
    let rdata: [u8; 14] = [
        6, 110, 115, 45, 101, 120, 116, 4, 110, 114, 116, 49, 192, 12,
    ];
    let (_, v) = NsRecord::parse_rdata(&rdata).unwrap();
    println!("NsRecord::parse_rdata -> {:?}", v);
}

#[test]
fn test_srv_record_parser() {
    let rdata: [u8; 8] = [0, 0, 0, 0, 1, 189, 192, 12];
    let (_, v) = SrvRecord::parse_rdata(&rdata).unwrap();
    println!("SrvRecord::parse_rdata -> {:?}", v);
}

#[test]
fn test_soa_record_parser() {
    let rdata: [u8; 38] = [
        3, 110, 115, 49, 192, 16, 9, 100, 110, 115, 45, 97, 100, 109, 105, 110, 192, 16, 13,
        158, 42, 169, 0, 0, 3, 132, 0, 0, 3, 132, 0, 0, 7, 8, 0, 0, 0, 60,
    ];
    let (_, v) = SoaRecord::parse_rdata(&rdata).unwrap();
    println!("SoaRecord::parse_rdata -> {:?}", v);
}

#[test]
fn test_edns_option_parser() {
    let rdata: [u8; 12] = [
        0x00, 0x0a, 0x00, 0x08, 0x8e, 0xa0, 0xf3, 0xd3, 0x6b, 0x19, 0x5c, 0xf7,
    ];

    let (r, edns_option) = parse_edns_option(&rdata).unwrap();
    println!("{:?}", edns_option);
    assert!(r.len() == 0);
}

#[test]
fn test_opt_record_parser() {
    let rdata: [u8; 23] = [
        0x00, 0x00, 0x29, 0x10, 0x00, 0x00, 0x00, 0x00, 0x00, 0x00, 0x0c, 0x00, 0x0a, 0x00,
        0x08, 0x8e, 0xa0, 0xf3, 0xd3, 0x6b, 0x19, 0x5c, 0xf7,
    ];

    let (_, rr) = parse_resource_record(&rdata).unwrap();
    assert_eq!(rr.rrtype, DnsType::OPT);

    let v = OptRecord::new(&rr, &rdata);
    println!("{:#?}", v);
    assert_eq!(v.udp_payload_size, 4096);
}
