use dnslogger::parse::dns::{
    dnsclass_of, parse_edns_option, parse_resource_record, AAAARecord, ARecord, CNameRecord,
    CompressedNameChain, DecodeError, DnsClass, DnsType, EdnsOption, MxRecord, NsRecord,
    OptRecord, OptionCookie, PtrRecord, RRecordTypes, ResourceRecord, SoaRecord, SrvRecord,
    TxtRecord,
};

/// Twelve bytes of header, then the name `example.org` at offset 12.
fn message() -> Vec<u8> {
    let mut m = vec![0u8; 12];
    m.extend_from_slice(&[7, b'e', b'x', b'a', b'm', b'p', b'l', b'e', 3, b'o', b'r', b'g', 0]);
    m
}

fn class_field_of(rrclass: DnsClass) -> u16 {
    match rrclass {
        DnsClass::IN => 1,
        DnsClass::CS => 2,
        DnsClass::CH => 3,
        DnsClass::HS => 4,
        DnsClass::ALL => 255,
        DnsClass::UnknownClass(code) => code,
        DnsClass::OtherUsage(code) => code,
    }
}

fn record<'a>(rrtype: DnsType, rrclass: DnsClass, ttl: u32, rdata: &'a [u8]) -> ResourceRecord<'a> {
    ResourceRecord {
        name_chain: CompressedNameChain::default(),
        rrtype,
        rrclass,
        class_field: class_field_of(rrclass),
        ttl,
        rdlength: rdata.len() as u16,
        rdata,
        record: None,
    }
}

#[test]
fn a_record_on_the_wire_is_read_field_by_field() {
    let data = [
        3, b'w', b'w', b'w', 0xc0, 0x0c, 0x00, 0x10, 0x00, 0x01, 0x00, 0x01, 0x51, 0x80, 0x00,
        0x03, 2, b'h', b'i', 0xee,
    ];
    let (rest, rr) = parse_resource_record(&data).unwrap();
    assert_eq!(rest, &[0xee]);
    assert_eq!(rr.rrtype, DnsType::TXT);
    assert_eq!(rr.rrclass, DnsClass::IN);
    assert_eq!(rr.class_field, 1);
    assert_eq!(rr.ttl, 86400);
    assert_eq!(rr.rdlength, 3);
    assert_eq!(rr.rdata, &[2, b'h', b'i']);
    assert_eq!(rr.record, None);
    assert_eq!(rr.name_chain.name, None);
}

#[test]
fn a_record_cut_short_is_incomplete() {
    let whole = [0, 0x00, 0x01, 0x00, 0x01, 0, 0, 0, 60, 0x00, 0x04, 1, 2, 3, 4];
    assert!(parse_resource_record(&whole).is_ok());
    let needs = [1usize, 2, 2, 2, 2, 4, 4, 4, 4, 2, 2, 4, 4, 4, 4];
    for len in 0..whole.len() {
        assert_eq!(
            parse_resource_record(&whole[..len]).unwrap_err(),
            DecodeError::Incomplete(needs[len]),
            "{} bytes",
            len
        );
    }
}

#[test]
fn mx_data_is_a_preference_and_a_name() {
    let msg = message();
    let rdata = [0, 40, 4, b'm', b'a', b'i', b'l', 0xc0, 0x0c];
    let rr = record(DnsType::MX, DnsClass::IN, 0, &rdata);
    let mx = MxRecord::new(&rr, &msg).unwrap();
    assert_eq!(mx, MxRecord { preference: 40, exchange: "mail.example.org".to_string() });
    assert_eq!(MxRecord::new(&record(DnsType::MX, DnsClass::IN, 0, &[0]), &msg).unwrap_err(), DecodeError::Incomplete(2));
    assert_eq!(MxRecord::new(&record(DnsType::MX, DnsClass::IN, 0, &[0, 1]), &msg).unwrap_err(), DecodeError::Incomplete(1));
}

#[test]
fn a_name_that_cannot_be_resolved_is_written_empty() {
    let msg = message();
    let rdata = [0, 10, 4, b'm', b'a', b'i', b'l', 0xc3, 0xff];
    let rr = record(DnsType::MX, DnsClass::IN, 0, &rdata);
    let mx = MxRecord::new(&rr, &msg).unwrap();
    assert_eq!(mx, MxRecord { preference: 10, exchange: String::new() });
    let ns = NsRecord::new(&record(DnsType::NS, DnsClass::IN, 0, &[0xc0, 0x19]), &msg).unwrap();
    assert_eq!(ns.name, "");
}

#[test]
fn address_data_is_one_number() {
    let a = ARecord::new(&record(DnsType::A, DnsClass::IN, 0, &[216, 239, 37, 26])).unwrap();
    assert_eq!(a.address, 0xd8ef_251a);
    let more = ARecord::new(&record(DnsType::A, DnsClass::IN, 0, &[1, 2, 3, 4, 5])).unwrap();
    assert_eq!(more.address, 0x0102_0304);
    assert_eq!(
        ARecord::new(&record(DnsType::A, DnsClass::IN, 0, &[1, 2, 3])).unwrap_err(),
        DecodeError::Incomplete(4)
    );
    let rdata: [u8; 16] = [32, 1, 4, 248, 0, 4, 0, 7, 2, 224, 129, 255, 254, 82, 154, 107];
    let aaaa = AAAARecord::new(&record(DnsType::AAAA, DnsClass::IN, 0, &rdata)).unwrap();
    assert_eq!(aaaa.address, 0x2001_04f8_0004_0007_02e0_81ff_fe52_9a6b);
    assert_eq!(AAAARecord::parse_rdata(&rdata).unwrap().1, u128::from_be_bytes(rdata));
    assert_eq!(
        AAAARecord::new(&record(DnsType::AAAA, DnsClass::IN, 0, &rdata[..15])).unwrap_err(),
        DecodeError::Incomplete(16)
    );
}

#[test]
fn name_data_is_resolved_against_the_message() {
    let msg = message();
    let rdata = [3, b'w', b'w', b'w', 0xc0, 0x0c];
    let ptr = PtrRecord::new(&record(DnsType::PTR, DnsClass::IN, 0, &rdata), &msg).unwrap();
    assert_eq!(ptr, PtrRecord { name: "www.example.org".to_string() });
    let cname = CNameRecord::new(&record(DnsType::CNAME, DnsClass::IN, 0, &rdata), &msg).unwrap();
    assert_eq!(cname, CNameRecord { name: "www.example.org".to_string() });
    let ns = NsRecord::new(&record(DnsType::NS, DnsClass::IN, 0, &rdata), &msg).unwrap();
    assert_eq!(ns, NsRecord { name: "www.example.org".to_string() });
    assert_eq!(
        PtrRecord::new(&record(DnsType::PTR, DnsClass::IN, 0, &[]), &msg).unwrap_err(),
        DecodeError::Incomplete(1)
    );
    assert_eq!(
        CNameRecord::new(&record(DnsType::CNAME, DnsClass::IN, 0, &[2, b'a']), &msg).unwrap_err(),
        DecodeError::Incomplete(2)
    );
    assert_eq!(
        NsRecord::new(&record(DnsType::NS, DnsClass::IN, 0, &[1, 0x80, 0]), &msg).unwrap_err(),
        DecodeError::InvalidLabel
    );
}

#[test]
fn srv_data_is_three_numbers_and_a_name() {
    let msg = message();
    let rdata = [0, 1, 0, 2, 0x01, 0xbd, 3, b's', b'i', b'p', 0xc0, 0x0c];
    let srv = SrvRecord::new(&record(DnsType::SRV, DnsClass::IN, 0, &rdata), &msg).unwrap();
    assert_eq!(
        srv,
        SrvRecord { prio: 1, weight: 2, port: 445, target: "sip.example.org".to_string() }
    );
    for len in 0..6 {
        assert_eq!(
            SrvRecord::new(&record(DnsType::SRV, DnsClass::IN, 0, &rdata[..len]), &msg).unwrap_err(),
            DecodeError::Incomplete(2)
        );
    }
    assert_eq!(
        SrvRecord::new(&record(DnsType::SRV, DnsClass::IN, 0, &rdata[..6]), &msg).unwrap_err(),
        DecodeError::Incomplete(1)
    );
}

#[test]
fn soa_data_is_two_names_and_four_numbers() {
    let msg = message();
    let rdata: [u8; 38] = [
        3, 110, 115, 49, 192, 12, 9, 100, 110, 115, 45, 97, 100, 109, 105, 110, 192, 12, 13, 158,
        42, 169, 0, 0, 3, 132, 0, 0, 3, 133, 0, 0, 7, 8, 0, 0, 0, 60,
    ];
    let soa = SoaRecord::new(&record(DnsType::SOA, DnsClass::IN, 0, &rdata), &msg).unwrap();
    assert_eq!(
        soa,
        SoaRecord {
            mname: "ns1.example.org".to_string(),
            rname: "dns-admin.example.org".to_string(),
            serial: 228_469_417,
            refresh: 900,
            retry: 901,
            expire: 1800,
        }
    );
    assert_eq!(
        SoaRecord::new(&record(DnsType::SOA, DnsClass::IN, 0, &rdata[..33]), &msg).unwrap_err(),
        DecodeError::Incomplete(4)
    );
    assert_eq!(
        SoaRecord::new(&record(DnsType::SOA, DnsClass::IN, 0, &rdata[..6]), &msg).unwrap_err(),
        DecodeError::Incomplete(1)
    );
}

#[test]
fn txt_data_is_kept_as_bytes_and_as_text() {
    let rdata: [u8; 16] = [15, 118, 61, 115, 112, 102, 49, 32, 112, 116, 114, 32, 63, 97, 108, 108];
    let txt = TxtRecord::new(&record(DnsType::TXT, DnsClass::IN, 0, &rdata)).unwrap();
    assert_eq!(
        txt,
        TxtRecord { len: 15, bytes: rdata[1..].to_vec(), text: "v=spf1 ptr ?all".to_string() }
    );
    let empty = TxtRecord::new(&record(DnsType::TXT, DnsClass::IN, 0, &[0])).unwrap();
    assert_eq!(empty, TxtRecord { len: 0, bytes: vec![], text: String::new() });
}

#[test]
fn txt_data_that_is_not_utf8_keeps_its_bytes() {
    let rdata = [4, b'a', 0xff, b'b', 0xc3];
    let txt = TxtRecord::new(&record(DnsType::TXT, DnsClass::IN, 0, &rdata)).unwrap();
    assert_eq!(txt.len, 4);
    assert_eq!(txt.bytes, vec![b'a', 0xff, b'b', 0xc3]);
    assert_eq!(txt.text, "a\u{fffd}b\u{fffd}");
}

#[test]
fn a_txt_length_that_asks_for_too_much_is_an_error() {
    let rdata = [15, b'a', b'b', b'c'];
    assert_eq!(
        TxtRecord::new(&record(DnsType::TXT, DnsClass::IN, 0, &rdata)).unwrap_err(),
        DecodeError::Incomplete(15)
    );
    assert_eq!(
        TxtRecord::new(&record(DnsType::TXT, DnsClass::IN, 0, &[])).unwrap_err(),
        DecodeError::Incomplete(1)
    );
    assert_eq!(
        TxtRecord::new(&record(DnsType::TXT, DnsClass::IN, 0, &[1])).unwrap_err(),
        DecodeError::Incomplete(1)
    );
}

#[test]
fn a_txt_length_that_asks_for_too_little_is_an_error() {
    let rdata = [2, b'a', b'b', b'c'];
    assert_eq!(
        TxtRecord::new(&record(DnsType::TXT, DnsClass::IN, 0, &rdata)).unwrap_err(),
        DecodeError::TrailingData
    );
    assert_eq!(
        TxtRecord::new(&record(DnsType::TXT, DnsClass::IN, 0, &[0, 0])).unwrap_err(),
        DecodeError::TrailingData
    );
    let (rest, (len, bytes)) = TxtRecord::parse_rdata(&rdata).unwrap();
    assert_eq!((rest, len, bytes), (&[b'c'][..], 2, &[b'a', b'b'][..]));
}

#[test]
fn an_opt_record_with_zero_ttl_and_class_4096() {
    let data = [0, 0x00, 0x29, 0x10, 0x00, 0x00, 0x00, 0x00, 0x00, 0x00, 0x00];
    let (_, rr) = parse_resource_record(&data).unwrap();
    assert_eq!(rr.rrclass, DnsClass::UnknownClass(4096));
    let opt = OptRecord::new(&rr, &data);
    assert_eq!(
        opt,
        OptRecord { udp_payload_size: 4096, e_rcode: 0, version: 0, opt_do: 0, z: 0, options: vec![] }
    );
}

#[test]
fn the_ttl_of_an_opt_record_holds_four_fields() {
    let rr = record(DnsType::OPT, DnsClass::UnknownClass(1232), 0x1234_8001, &[]);
    let opt = OptRecord::new(&rr, &[]);
    assert_eq!((opt.e_rcode, opt.version, opt.opt_do, opt.z), (0x12, 0x34, 1, 1));
    assert_eq!(opt.udp_payload_size, 1232);
    let rr = record(DnsType::OPT, DnsClass::UnknownClass(512), 0xff00_7fff, &[]);
    let opt = OptRecord::new(&rr, &[]);
    assert_eq!((opt.e_rcode, opt.version, opt.opt_do, opt.z), (0xff, 0, 0, 0x7fff));
    let rr = record(DnsType::OPT, DnsClass::UnknownClass(512), 0x00ff_8000, &[]);
    let opt = OptRecord::new(&rr, &[]);
    assert_eq!((opt.e_rcode, opt.version, opt.opt_do, opt.z), (0, 0xff, 1, 0));
}

#[test]
fn the_payload_size_is_the_class_field_as_it_stood() {
    for field in [0u16, 1, 2, 3, 4, 255, 512, 1232, 4096, 0x8001, 0x8002, 0x8003, 0x8004, 0x80ff, 0xffff] {
        let mut data = vec![0, 0x00, 0x29];
        data.extend_from_slice(&field.to_be_bytes());
        data.extend_from_slice(&[0, 0, 0, 0, 0, 0]);
        let (rest, mut rr) = parse_resource_record(&data).unwrap();
        assert!(rest.is_empty());
        assert_eq!(rr.class_field, field);
        assert_eq!(rr.rrclass, dnsclass_of(field));
        assert_eq!(OptRecord::new(&rr, &data).udp_payload_size, field);
        assert_eq!(rr.resolve(&data), Ok(()));
        assert_eq!(rr.rrclass, DnsClass::OtherUsage(field));
        assert_eq!(rr.class_field, field);
        assert_eq!(
            rr.record,
            Some(RRecordTypes::OPT(OptRecord {
                udp_payload_size: field,
                e_rcode: 0,
                version: 0,
                opt_do: 0,
                z: 0,
                options: vec![],
            }))
        );
    }
}

#[test]
fn a_class_field_with_the_top_bit_over_a_named_class() {
    let data = [0, 0x00, 0x29, 0x80, 0x01, 0x00, 0x00, 0x00, 0x00, 0x00, 0x00];
    let (_, mut rr) = parse_resource_record(&data).unwrap();
    assert_eq!(rr.rrclass, DnsClass::IN);
    assert_eq!(rr.class_field, 0x8001);
    rr.resolve(&data).unwrap();
    assert_eq!(rr.rrclass, DnsClass::OtherUsage(32769));
    match rr.record {
        Some(RRecordTypes::OPT(opt)) => assert_eq!(opt.udp_payload_size, 32769),
        other => panic!("not an OPT record: {:?}", other),
    }
}

#[test]
fn the_class_field_of_any_record_is_kept() {
    let data = [0, 0x00, 0x01, 0x80, 0x01, 0, 0, 0, 60, 0x00, 0x04, 1, 2, 3, 4];
    let (_, mut rr) = parse_resource_record(&data).unwrap();
    assert_eq!(rr.rrclass, DnsClass::IN);
    assert_eq!(rr.class_field, 0x8001);
    rr.resolve(&data).unwrap();
    assert_eq!(rr.rrclass, DnsClass::IN);
    assert_eq!(rr.class_field, 0x8001);
    assert_eq!(rr.record, Some(RRecordTypes::A(ARecord { address: 0x0102_0304 })));
}

#[test]
fn a_cookie_without_a_server_part_is_marked_missing() {
    let rdata = [0x00, 0x0a, 0x00, 0x08, 0x8e, 0xa0, 0xf3, 0xd3, 0x6b, 0x19, 0x5c, 0xf7];
    let (rest, option) = parse_edns_option(&rdata).unwrap();
    assert!(rest.is_empty());
    assert_eq!(
        option,
        EdnsOption::COOKIE(OptionCookie {
            client_cookie: "8ea0f3d36b195cf7".to_string(),
            server_cookie: "<MISSING>".to_string(),
        })
    );
}

#[test]
fn a_cookie_with_a_server_part_holds_both_in_hexadecimal() {
    let rdata = [
        0x00, 0x0a, 0x00, 0x10, 0x00, 0x01, 0x02, 0x0f, 0x10, 0xab, 0xcd, 0xef, 0xff, 0xfe, 0x80,
        0x7f, 0x09, 0x0a, 0x9a, 0xa9, 0x55,
    ];
    let (rest, option) = parse_edns_option(&rdata).unwrap();
    assert_eq!(rest, &[0x55]);
    assert_eq!(
        option,
        EdnsOption::COOKIE(OptionCookie {
            client_cookie: "0001020f10abcdef".to_string(),
            server_cookie: "fffe807f090a9aa9".to_string(),
        })
    );
}

#[test]
fn a_cookie_of_another_length() {
    let mut twelve = vec![0x00, 0x0a, 0x00, 0x0c];
    twelve.extend_from_slice(&[0x11; 12]);
    assert_eq!(
        parse_edns_option(&twelve).unwrap().1,
        EdnsOption::COOKIE(OptionCookie {
            client_cookie: "1111111111111111".to_string(),
            server_cookie: "<MISSING>".to_string(),
        })
    );
    let mut twenty = vec![0x00, 0x0a, 0x00, 0x14];
    twenty.extend_from_slice(&[0x22; 8]);
    twenty.extend_from_slice(&[0x33; 8]);
    twenty.extend_from_slice(&[0x44; 4]);
    assert_eq!(
        parse_edns_option(&twenty).unwrap().1,
        EdnsOption::COOKIE(OptionCookie {
            client_cookie: "2222222222222222".to_string(),
            server_cookie: "3333333333333333".to_string(),
        })
    );
    let short = [0x00, 0x0a, 0x00, 0x07, 1, 2, 3, 4, 5, 6, 7];
    assert_eq!(parse_edns_option(&short).unwrap_err(), DecodeError::Incomplete(8));
}

#[test]
fn an_option_that_is_not_interpreted_keeps_code_and_length() {
    let rdata = [0x00, 0x08, 0x00, 0x03, 1, 2, 3, 9];
    let (rest, option) = parse_edns_option(&rdata).unwrap();
    assert_eq!(rest, &[9]);
    assert_eq!(option, EdnsOption::UnknownCode(8, 3));
    assert_eq!(parse_edns_option(&[0xff, 0xff, 0, 0]).unwrap().1, EdnsOption::UnknownCode(65535, 0));
}

#[test]
fn an_option_cut_short_is_incomplete() {
    assert_eq!(parse_edns_option(&[]).unwrap_err(), DecodeError::Incomplete(2));
    assert_eq!(parse_edns_option(&[0, 8, 0]).unwrap_err(), DecodeError::Incomplete(2));
    assert_eq!(parse_edns_option(&[0, 8, 0, 3, 1, 2]).unwrap_err(), DecodeError::Incomplete(3));
}

#[test]
fn options_are_read_up_to_the_first_in_error() {
    let rdata = [0, 1, 0, 1, 0xaa, 0, 2, 0, 0, 0, 3, 0, 9, 1];
    let opt = OptRecord::new(&record(DnsType::OPT, DnsClass::UnknownClass(512), 0, &rdata), &[]);
    assert_eq!(opt.options, vec![EdnsOption::UnknownCode(1, 1), EdnsOption::UnknownCode(2, 0)]);
    let bad_cookie = [0, 1, 0, 0, 0, 10, 0, 2, 1, 2, 0, 5, 0, 0];
    let opt = OptRecord::new(&record(DnsType::OPT, DnsClass::UnknownClass(512), 0, &bad_cookie), &[]);
    assert_eq!(opt.options, vec![EdnsOption::UnknownCode(1, 0)]);
}

#[test]
fn at_most_twenty_options_are_read() {
    let mut rdata: Vec<u8> = Vec::new();
    for code in 0..25u8 {
        rdata.extend_from_slice(&[0, 100 + code, 0, 0]);
    }
    let opt = OptRecord::new(&record(DnsType::OPT, DnsClass::UnknownClass(512), 0, &rdata), &[]);
    assert_eq!(opt.options.len(), 20);
    for (i, option) in opt.options.iter().enumerate() {
        assert_eq!(*option, EdnsOption::UnknownCode(100 + i as u16, 0));
    }
    let opt = OptRecord::new(&record(DnsType::OPT, DnsClass::UnknownClass(512), 0, &rdata[..80]), &[]);
    assert_eq!(opt.options.len(), 20);
    let opt = OptRecord::new(&record(DnsType::OPT, DnsClass::UnknownClass(512), 0, &rdata[..76]), &[]);
    assert_eq!(opt.options.len(), 19);
}

#[test]
fn resolve_decodes_by_class_and_type() {
    let msg = message();
    let mut a = record(DnsType::A, DnsClass::IN, 5, &[10, 0, 0, 1]);
    a.name_chain = dnslogger::parse::dns::parse_compressed_chain(&[0xc0, 0x0c]).unwrap().1;
    a.resolve(&msg).unwrap();
    assert_eq!(a.name_chain.name, Some("example.org".to_string()));
    assert_eq!(a.record, Some(RRecordTypes::A(ARecord { address: 0x0a00_0001 })));
    assert_eq!(a.rrclass, DnsClass::IN);

    let rdata = [0, 5, 0xc0, 0x0c];
    let mut mx = record(DnsType::MX, DnsClass::IN, 5, &rdata);
    mx.resolve(&msg).unwrap();
    assert_eq!(
        mx.record,
        Some(RRecordTypes::MX(MxRecord { preference: 5, exchange: "example.org".to_string() }))
    );
    let mut txt = record(DnsType::TXT, DnsClass::IN, 5, &[1, b'x']);
    txt.resolve(&msg).unwrap();
    assert_eq!(
        txt.record,
        Some(RRecordTypes::TXT(TxtRecord { len: 1, bytes: vec![b'x'], text: "x".to_string() }))
    );
    let name = [0xc0, 0x0c];
    for (rrtype, want) in [
        (DnsType::PTR, RRecordTypes::PTR(PtrRecord { name: "example.org".to_string() })),
        (DnsType::CNAME, RRecordTypes::CNAME(CNameRecord { name: "example.org".to_string() })),
        (DnsType::NS, RRecordTypes::NS(NsRecord { name: "example.org".to_string() })),
    ] {
        let mut rr = record(rrtype, DnsClass::IN, 5, &name);
        rr.resolve(&msg).unwrap();
        assert_eq!(rr.record, Some(want));
    }
}

#[test]
fn a_class_and_type_without_a_decoder_is_no_error() {
    let msg = message();
    for (rrtype, rrclass) in [
        (DnsType::A, DnsClass::CH),
        (DnsType::MX, DnsClass::UnknownClass(7)),
        (DnsType::HINFO, DnsClass::IN),
        (DnsType::UnknownType(65000), DnsClass::IN),
        (DnsType::TXT, DnsClass::ALL),
        (DnsType::NSEC, DnsClass::HS),
    ] {
        let mut rr = record(rrtype, rrclass, 1, &[]);
        assert_eq!(rr.resolve(&msg), Ok(()));
        assert_eq!(rr.record, Some(RRecordTypes::ParserNotImpl));
        assert_eq!(rr.rrclass, rrclass);
    }
}

#[test]
fn an_opt_record_is_decoded_whatever_its_class() {
    let rdata = [0x00, 0x0a, 0x00, 0x08, 1, 2, 3, 4, 5, 6, 7, 8];
    for (rrclass, size) in [
        (DnsClass::UnknownClass(4096), 4096u16),
        (DnsClass::IN, 1),
        (DnsClass::ALL, 255),
        (DnsClass::UnknownClass(0x8200), 0x8200),
    ] {
        let mut rr = record(DnsType::OPT, rrclass, 0x0000_8000, &rdata);
        assert_eq!(rr.resolve(&[]), Ok(()));
        assert_eq!(rr.rrclass, DnsClass::OtherUsage(size));
        assert_eq!(
            rr.record,
            Some(RRecordTypes::OPT(OptRecord {
                udp_payload_size: size,
                e_rcode: 0,
                version: 0,
                opt_do: 1,
                z: 0,
                options: vec![EdnsOption::COOKIE(OptionCookie {
                    client_cookie: "0102030405060708".to_string(),
                    server_cookie: "<MISSING>".to_string(),
                })],
            }))
        );
    }
}

#[test]
fn data_that_was_decoded_before_stays() {
    let msg = message();
    let mut rr = record(DnsType::A, DnsClass::IN, 5, &[1, 2]);
    rr.record = Some(RRecordTypes::ParserNotImpl);
    assert_eq!(rr.resolve(&msg), Ok(()));
    assert_eq!(rr.record, Some(RRecordTypes::ParserNotImpl));
    let mut opt = record(DnsType::OPT, DnsClass::UnknownClass(4096), 0, &[]);
    opt.resolve(&msg).unwrap();
    let first = opt.record.clone();
    opt.resolve(&msg).unwrap();
    assert_eq!(opt.record, first);
    assert_eq!(opt.rrclass, DnsClass::OtherUsage(4096));
}

#[test]
fn data_that_cannot_be_decoded_is_an_error_and_leaves_none() {
    let msg = message();
    let mut rr = record(DnsType::A, DnsClass::IN, 5, &[1, 2]);
    rr.name_chain = dnslogger::parse::dns::parse_compressed_chain(&[0xc0, 0x0c]).unwrap().1;
    assert_eq!(rr.resolve(&msg), Err(DecodeError::Incomplete(4)));
    assert_eq!(rr.record, None);
    assert_eq!(rr.name_chain.name, Some("example.org".to_string()));
    let mut txt = record(DnsType::TXT, DnsClass::IN, 5, &[1, b'x', b'y']);
    assert_eq!(txt.resolve(&msg), Err(DecodeError::TrailingData));
    assert_eq!(txt.record, None);
}
