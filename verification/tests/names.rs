use dnslogger::parse::dns::{
    be_u128, be_u16, be_u32, be_u8, dns_message, parse_compressed_chain, parse_compressed_token,
    take, CompressedName, CompressedNameChain, DecodeError,
};

/// A message that holds nothing but names: twelve bytes of header, then
/// `body`.
fn with_header(body: &[u8]) -> Vec<u8> {
    let mut m = vec![0u8; 12];
    m.extend_from_slice(body);
    m
}

/// A name that is `hops` pointers in a row, each to the next two bytes, and
/// then the name `a`.
fn pointer_ladder(hops: usize) -> Vec<u8> {
    let mut body: Vec<u8> = Vec::new();
    for hop in 0..hops {
        let target = (12 + 2 * (hop + 1)) as u16;
        body.push(0xc0 | (target >> 8) as u8);
        body.push((target & 0xff) as u8);
    }
    body.extend_from_slice(&[1, b'a', 0]);
    with_header(&body)
}

#[test]
fn readers_take_numbers_most_significant_byte_first() {
    assert_eq!(be_u8(&[0xab, 1]).unwrap(), (&[1u8][..], 0xab));
    assert_eq!(be_u16(&[0x12, 0x34, 9]).unwrap(), (&[9u8][..], 0x1234));
    assert_eq!(be_u32(&[0x12, 0x34, 0x56, 0x78]).unwrap(), (&[][..], 0x1234_5678));
    let bytes: [u8; 17] = [
        0x00, 0x11, 0x22, 0x33, 0x44, 0x55, 0x66, 0x77, 0x88, 0x99, 0xaa, 0xbb, 0xcc, 0xdd, 0xee,
        0xff, 0x01,
    ];
    assert_eq!(
        be_u128(&bytes).unwrap(),
        (&[1u8][..], 0x0011_2233_4455_6677_8899_aabb_ccdd_eeff)
    );
    assert_eq!(be_u128(&[0xff; 16]).unwrap().1, u128::MAX);
}

#[test]
fn readers_say_how_many_bytes_they_need() {
    assert_eq!(be_u8(&[]).unwrap_err(), DecodeError::Incomplete(1));
    assert_eq!(be_u16(&[1]).unwrap_err(), DecodeError::Incomplete(2));
    assert_eq!(be_u32(&[1, 2, 3]).unwrap_err(), DecodeError::Incomplete(4));
    assert_eq!(be_u128(&[0; 15]).unwrap_err(), DecodeError::Incomplete(16));
    assert_eq!(take(&[1, 2], 3).unwrap_err(), DecodeError::Incomplete(3));
}

#[test]
fn take_splits_the_input() {
    assert_eq!(take(&[1, 2, 3], 2).unwrap(), (&[3u8][..], &[1u8, 2][..]));
    assert_eq!(take(&[1, 2, 3], 0).unwrap(), (&[1u8, 2, 3][..], &[][..]));
    assert_eq!(take(&[1, 2, 3], 3).unwrap(), (&[][..], &[1u8, 2, 3][..]));
}

#[test]
fn a_pointer_token_holds_fourteen_bits() {
    let (rest, token) = parse_compressed_token(&[0xc0, 0x0c, 7]).unwrap();
    assert_eq!(token, Some(CompressedName::Pointer(12)));
    assert_eq!(rest, &[7]);
    let (_, token) = parse_compressed_token(&[0xff, 0xff]).unwrap();
    assert_eq!(token, Some(CompressedName::Pointer(0x3fff)));
    let (_, token) = parse_compressed_token(&[0xc1, 0x00]).unwrap();
    assert_eq!(token, Some(CompressedName::Pointer(256)));
}

#[test]
fn a_zero_byte_gives_no_token() {
    let (rest, token) = parse_compressed_token(&[0, 5]).unwrap();
    assert_eq!(token, None);
    assert_eq!(rest, &[5]);
}

#[test]
fn a_byte_of_another_kind_ends_the_name() {
    let (rest, token) = parse_compressed_token(&[0x41, 5]).unwrap();
    assert_eq!(token, None);
    assert_eq!(rest, &[5]);
    let (rest, token) = parse_compressed_token(&[0x80, 5]).unwrap();
    assert_eq!(token, None);
    assert_eq!(rest, &[5]);
    let (rest, chain) = parse_compressed_chain(&[1, b'a', 0x80, 9]).unwrap();
    assert_eq!(rest, &[9]);
    let mut chain = chain;
    assert_eq!(chain.resolve_name(0, &[]), &Some("a".to_string()));
}

#[test]
fn a_token_cut_short_is_incomplete() {
    assert_eq!(parse_compressed_token(&[]).unwrap_err(), DecodeError::Incomplete(1));
    assert_eq!(parse_compressed_token(&[3, b'a', b'b']).unwrap_err(), DecodeError::Incomplete(3));
    assert_eq!(parse_compressed_token(&[0xc0]).unwrap_err(), DecodeError::Incomplete(1));
    assert_eq!(parse_compressed_chain(&[]).unwrap_err(), DecodeError::Incomplete(1));
    assert_eq!(
        parse_compressed_chain(&[1, b'a', 2, b'b']).unwrap_err(),
        DecodeError::Incomplete(2)
    );
    assert_eq!(parse_compressed_chain(&[1, b'a']).unwrap_err(), DecodeError::Incomplete(1));
}

#[test]
fn a_label_that_is_not_utf8_is_refused() {
    assert_eq!(
        parse_compressed_token(&[2, 0xff, 0xfe, 0]).unwrap_err(),
        DecodeError::InvalidLabel
    );
    assert_eq!(
        parse_compressed_chain(&[1, b'a', 2, 0xc3, 0x28, 0]).unwrap_err(),
        DecodeError::InvalidLabel
    );
}

#[test]
fn a_label_may_hold_any_utf8() {
    let (_, token) = parse_compressed_token(&[3, 0xe2, 0x82, 0xac, 0]).unwrap();
    assert_eq!(token, Some(CompressedName::Label("\u{20ac}")));
    let longest = [b'x'; 63];
    let mut data = vec![63u8];
    data.extend_from_slice(&longest);
    data.push(0);
    let (rest, token) = parse_compressed_token(&data).unwrap();
    assert_eq!(rest, &[0]);
    assert_eq!(token, Some(CompressedName::Label(std::str::from_utf8(&longest).unwrap())));
}

#[test]
fn the_root_name_comes_out_resolved() {
    let (rest, mut chain) = parse_compressed_chain(&[0, 1, 2]).unwrap();
    assert_eq!(rest, &[1, 2]);
    assert_eq!(chain.name, Some("<ROOT>".to_string()));
    assert_eq!(chain.resolve_name(0, &[]), &Some("<ROOT>".to_string()));
}

#[test]
fn a_pointer_ends_the_chain() {
    let data = [1, b'a', 0xc0, 0x0c, 3, b'x', b'y', b'z', 0];
    let (rest, _chain) = parse_compressed_chain(&data).unwrap();
    assert_eq!(rest, &[3, b'x', b'y', b'z', 0]);
}

#[test]
fn a_chain_holds_at_most_a_hundred_tokens() {
    let mut data: Vec<u8> = Vec::new();
    for _ in 0..150 {
        data.extend_from_slice(&[1, b'a']);
    }
    data.push(0);
    let (rest, mut chain) = parse_compressed_chain(&data).unwrap();
    assert_eq!(rest.len(), 50 * 2 + 1);
    let name = chain.resolve_name(0, &data).clone().unwrap();
    assert_eq!(name.len(), 100 + 99);
    assert_eq!(name, vec!["a"; 100].join("."));

    let mut exact: Vec<u8> = Vec::new();
    for _ in 0..100 {
        exact.extend_from_slice(&[1, b'b']);
    }
    exact.push(0);
    let (rest, _) = parse_compressed_chain(&exact).unwrap();
    assert_eq!(rest, &[0]);
}

#[test]
fn resolving_twice_gives_the_same_text() {
    let message = with_header(&[3, b'c', b'o', b'm', 0]);
    let mut chain = CompressedNameChain::default();
    chain.push(CompressedName::Label("www"));
    chain.push(CompressedName::Pointer(12));
    let first = chain.resolve_name(0, &message).clone();
    let kept = chain.clone();
    let second = chain.resolve_name(0, &message).clone();
    assert_eq!(first, Some("www.com".to_string()));
    assert_eq!(first, second);
    assert_eq!(chain, kept);
    assert_eq!(chain.name, first);
}

#[test]
fn a_resolved_chain_gives_its_text_whatever_the_message() {
    let message = with_header(&[3, b'c', b'o', b'm', 0]);
    let mut chain = CompressedNameChain::default();
    chain.push(CompressedName::Pointer(12));
    assert_eq!(chain.resolve_name(0, &message), &Some("com".to_string()));
    assert_eq!(chain.resolve_name(0, &[]), &Some("com".to_string()));
    assert_eq!(chain.resolve_name(9, &[]), &Some("com".to_string()));
}

#[test]
fn a_failed_resolution_leaves_the_chain_as_it_was() {
    let mut chain = CompressedNameChain::default();
    chain.push(CompressedName::Label("www"));
    chain.push(CompressedName::Pointer(500));
    let before = chain.clone();
    assert_eq!(chain.resolve_name(0, &[0u8; 20]), &None);
    assert_eq!(chain, before);
    assert_eq!(chain.resolve_name(0, &[0u8; 20]), &None);
}

#[test]
fn at_the_depth_limit_there_is_no_text() {
    let mut chain = CompressedNameChain::default();
    chain.push(CompressedName::Label("www"));
    assert_eq!(chain.resolve_name(10, &[]), &None);
    assert_eq!(chain.resolve_name(11, &[]), &None);
    assert_eq!(chain.resolve_name(usize::MAX, &[]), &None);
    assert_eq!(chain.name, None);
    assert_eq!(chain.resolve_name(9, &[]), &Some("www".to_string()));
    assert_eq!(chain.resolve_name(10, &[]), &None);
    assert_eq!(chain.name, Some("www".to_string()));
}

#[test]
fn labels_alone_are_joined_with_dots() {
    let mut chain = CompressedNameChain::default();
    assert_eq!(chain.resolve_name(0, &[]), &Some(String::new()));
    let mut one = CompressedNameChain::default();
    one.push(CompressedName::Label("a"));
    assert_eq!(one.resolve_name(0, &[]), &Some("a".to_string()));
    let mut three = CompressedNameChain::default();
    three.push(CompressedName::Label("a"));
    three.push(CompressedName::Label("bc"));
    three.push(CompressedName::Label("def"));
    assert_eq!(three.resolve_name(0, &[]), &Some("a.bc.def".to_string()));
}

#[test]
fn a_pointer_at_or_past_the_end_gives_no_name() {
    let message = with_header(&[1, b'a', 0]);
    for offset in [15u16, 16, 100, 0x3fff].iter() {
        let mut chain = CompressedNameChain::default();
        chain.push(CompressedName::Label("www"));
        chain.push(CompressedName::Pointer(*offset));
        assert_eq!(chain.resolve_name(0, &message), &None);
        assert_eq!(chain.name, None);
    }
    let mut last_byte = CompressedNameChain::default();
    last_byte.push(CompressedName::Pointer(14));
    assert_eq!(last_byte.resolve_name(0, &message), &Some("<ROOT>".to_string()));
}

#[test]
fn a_pointer_to_bytes_that_hold_no_chain_gives_no_name() {
    let message = with_header(&[5, b'a', b'b']);
    let mut chain = CompressedNameChain::default();
    chain.push(CompressedName::Label("www"));
    chain.push(CompressedName::Pointer(12));
    assert_eq!(chain.resolve_name(0, &message), &None);
    let not_text = with_header(&[1, 0xff, 0]);
    let mut other = CompressedNameChain::default();
    other.push(CompressedName::Pointer(12));
    assert_eq!(other.resolve_name(0, &not_text), &None);
}

#[test]
fn a_pointer_to_the_root_adds_the_root_text() {
    let message = with_header(&[0]);
    let mut chain = CompressedNameChain::default();
    chain.push(CompressedName::Label("foo"));
    chain.push(CompressedName::Pointer(12));
    assert_eq!(chain.resolve_name(0, &message), &Some("foo.<ROOT>".to_string()));
}

#[test]
fn a_pointer_to_itself_gives_no_name() {
    let message = with_header(&[0xc0, 0x0c]);
    let (_, mut chain) = parse_compressed_chain(&message[12..]).unwrap();
    assert_eq!(chain.resolve_name(0, &message), &None);
    assert_eq!(chain.name, None);
}

#[test]
fn two_pointers_to_each_other_give_no_name() {
    let message = with_header(&[3, b'w', b'w', b'w', 0xc0, 0x12, 1, b'x', 0xc0, 0x0c]);
    let (_, mut at_x) = parse_compressed_chain(&message[12..]).unwrap();
    assert_eq!(at_x.resolve_name(0, &message), &None);
    let (_, mut at_y) = parse_compressed_chain(&message[18..]).unwrap();
    assert_eq!(at_y.resolve_name(0, &message), &None);
    let mut outside = CompressedNameChain::default();
    outside.push(CompressedName::Label("host"));
    outside.push(CompressedName::Pointer(12));
    assert_eq!(outside.resolve_name(0, &message), &None);
    for depth in 0..12 {
        let mut chain = CompressedNameChain::default();
        chain.push(CompressedName::Pointer(18));
        assert_eq!(chain.resolve_name(depth, &message), &None);
    }
}

#[test]
fn a_query_with_a_pointer_cycle_decodes_without_a_name() {
    let mut message = vec![0x12, 0x34, 0x01, 0x00, 0, 1, 0, 0, 0, 0, 0, 0];
    message.extend_from_slice(&[0xc0, 0x12, 0x00, 0x01, 0x00, 0x01, 0xc0, 0x0c]);
    let (rest, decoded) = dns_message(&message, true).unwrap();
    assert_eq!(rest, &[0xc0, 0x0c]);
    assert_eq!(decoded.queries.len(), 1);
    assert_eq!(decoded.queries[0].name_chain.name, None);
}

#[test]
fn nine_pointers_in_a_row_are_followed() {
    for hops in 0..=9 {
        let message = pointer_ladder(hops);
        let (_, mut chain) = parse_compressed_chain(&message[12..]).unwrap();
        assert_eq!(chain.resolve_name(0, &message), &Some("a".to_string()), "{} hops", hops);
    }
}

#[test]
fn ten_pointers_in_a_row_are_too_deep() {
    for hops in 10..=14 {
        let message = pointer_ladder(hops);
        let (_, mut chain) = parse_compressed_chain(&message[12..]).unwrap();
        assert_eq!(chain.resolve_name(0, &message), &None, "{} hops", hops);
    }
    let message = pointer_ladder(9);
    let (_, mut chain) = parse_compressed_chain(&message[12..]).unwrap();
    assert_eq!(chain.resolve_name(1, &message), &None);
}

#[test]
fn push_appends_in_order() {
    let mut chain = CompressedNameChain::default();
    assert!(chain.tokens.is_empty());
    chain.push(CompressedName::Label("a"));
    chain.push(CompressedName::Pointer(3));
    chain.push(CompressedName::Label("b"));
    assert_eq!(
        chain.tokens,
        vec![
            CompressedName::Label("a"),
            CompressedName::Pointer(3),
            CompressedName::Label("b")
        ]
    );
    assert_eq!(chain.name, None);
}
