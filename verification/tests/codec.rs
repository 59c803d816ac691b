use my_socks5_server::codec::{
    decode_greeting, decode_request, encode_method_selection, encode_reply, encode_request,
    BoundAddress, Greeting, Request,
};
use my_socks5_server::wire::{
    be16, push_be16, AddressKind, AuthMethod, Command, MalformedMessage, ReplyStatus,
    NO_ACCEPTABLE_METHOD, RESERVED, VERSION,
};

fn request(command: Command, kind: AddressKind, address: &[u8], port: u16) -> Request {
    Request::new(command, kind, address.to_vec(), port).unwrap()
}

#[test]
fn constants_are_those_of_the_protocol() {
    assert_eq!(VERSION, 5);
    assert_eq!(NO_ACCEPTABLE_METHOD, 0xFF);
    assert_eq!(RESERVED, 0);
}

#[test]
fn be16_reads_network_byte_order() {
    assert_eq!(be16(0x00, 0x50), 80);
    assert_eq!(be16(0x01, 0x02), 258);
    assert_eq!(be16(0x1F, 0x90), 8080);
    assert_eq!(be16(0xFF, 0xFF), 65535);
    assert_eq!(be16(0, 0), 0);
}

#[test]
fn push_be16_writes_network_byte_order() {
    let mut out = vec![9u8];
    push_be16(&mut out, 8080);
    push_be16(&mut out, 0);
    push_be16(&mut out, 65535);
    assert_eq!(out, vec![9, 0x1F, 0x90, 0, 0, 0xFF, 0xFF]);
}

#[test]
fn be16_round_trips_every_value() {
    let mut value: u32 = 0;
    while value <= 65535 {
        let mut out = Vec::new();
        push_be16(&mut out, value as u16);
        assert_eq!(out.len(), 2);
        assert_eq!(be16(out[0], out[1]), value as u16);
        value += 257;
    }
}

#[test]
fn auth_method_codes() {
    assert_eq!(AuthMethod::NoAuthenticationRequired.code(), 0x00);
    assert_eq!(AuthMethod::Gssapi.code(), 0x01);
    assert_eq!(AuthMethod::UsernamePassword.code(), 0x02);
    assert_eq!(AuthMethod::from_code(0x00), Some(AuthMethod::NoAuthenticationRequired));
    assert_eq!(AuthMethod::from_code(0x01), Some(AuthMethod::Gssapi));
    assert_eq!(AuthMethod::from_code(0x02), Some(AuthMethod::UsernamePassword));
    assert_eq!(AuthMethod::from_code(0x03), None);
    assert_eq!(AuthMethod::from_code(0xFF), None);
}

#[test]
fn command_codes() {
    assert_eq!(Command::Connect.code(), 0x01);
    assert_eq!(Command::Bind.code(), 0x02);
    assert_eq!(Command::UdpAssociate.code(), 0x03);
    assert_eq!(Command::from_code(0x00), None);
    assert_eq!(Command::from_code(0x01), Some(Command::Connect));
    assert_eq!(Command::from_code(0x02), Some(Command::Bind));
    assert_eq!(Command::from_code(0x03), Some(Command::UdpAssociate));
    assert_eq!(Command::from_code(0x04), None);
}

#[test]
fn address_kind_codes_and_lengths() {
    assert_eq!(AddressKind::IPv4.code(), 0x01);
    assert_eq!(AddressKind::DomainName.code(), 0x03);
    assert_eq!(AddressKind::IPv6.code(), 0x04);
    assert_eq!(AddressKind::from_code(0x00), None);
    assert_eq!(AddressKind::from_code(0x01), Some(AddressKind::IPv4));
    assert_eq!(AddressKind::from_code(0x02), None);
    assert_eq!(AddressKind::from_code(0x03), Some(AddressKind::DomainName));
    assert_eq!(AddressKind::from_code(0x04), Some(AddressKind::IPv6));
    assert_eq!(AddressKind::from_code(0x05), None);
    assert_eq!(AddressKind::IPv4.address_len(200), 4);
    assert_eq!(AddressKind::IPv6.address_len(200), 16);
    assert_eq!(AddressKind::DomainName.address_len(0), 1);
    assert_eq!(AddressKind::DomainName.address_len(15), 16);
    assert_eq!(AddressKind::DomainName.address_len(255), 256);
}

#[test]
fn reply_status_codes_are_one_to_one() {
    let all = [
        (ReplyStatus::Succeeded, 0x00u8),
        (ReplyStatus::GeneralFailure, 0x01),
        (ReplyStatus::ConnectionNotAllowed, 0x02),
        (ReplyStatus::NetworkUnreachable, 0x03),
        (ReplyStatus::HostUnreachable, 0x04),
        (ReplyStatus::ConnectionRefused, 0x05),
        (ReplyStatus::TtlExpired, 0x06),
        (ReplyStatus::CommandNotSupported, 0x07),
        (ReplyStatus::AddressTypeNotSupported, 0x08),
    ];
    for (status, code) in all {
        assert_eq!(status.code(), code);
        assert_eq!(ReplyStatus::from_code(code), Some(status));
    }
    let mut code: u16 = 9;
    while code <= 255 {
        assert_eq!(ReplyStatus::from_code(code as u8), None);
        code += 1;
    }
}

#[test]
fn greeting_with_one_method_decodes() {
    let greeting = decode_greeting(&[0x05, 0x01, 0x00]).unwrap();
    assert_eq!(greeting, Greeting { version: 5, methods: vec![0x00] });
    assert_eq!(greeting.clone(), greeting);
}

#[test]
fn greeting_keeps_the_offered_methods_in_order() {
    let greeting = decode_greeting(&[0x05, 0x03, 0x02, 0x80, 0x00]).unwrap();
    assert_eq!(greeting.version, 5);
    assert_eq!(greeting.methods, vec![0x02, 0x80, 0x00]);
}

#[test]
fn greeting_without_methods_decodes() {
    let greeting = decode_greeting(&[0x05, 0x00]).unwrap();
    assert_eq!(greeting.methods, Vec::<u8>::new());
}

#[test]
fn greeting_with_a_wrong_version_is_malformed() {
    assert_eq!(decode_greeting(&[0x04, 0x01, 0x00]), Err(MalformedMessage::Version));
    assert_eq!(decode_greeting(&[0x00]), Err(MalformedMessage::Version));
    assert_eq!(decode_greeting(&[0x06, 0x05, 0x00]), Err(MalformedMessage::Version));
}

#[test]
fn greeting_whose_count_does_not_match_is_malformed() {
    assert_eq!(decode_greeting(&[]), Err(MalformedMessage::Length));
    assert_eq!(decode_greeting(&[0x05]), Err(MalformedMessage::Length));
    assert_eq!(decode_greeting(&[0x05, 0x02, 0x00]), Err(MalformedMessage::Length));
    assert_eq!(decode_greeting(&[0x05, 0x01, 0x00, 0x02]), Err(MalformedMessage::Length));
    assert_eq!(decode_greeting(&[0x05, 0x00, 0x00]), Err(MalformedMessage::Length));
}

#[test]
fn greeting_with_255_methods_decodes() {
    let mut bytes = vec![0x05, 0xFF];
    bytes.extend(std::iter::repeat(0x02).take(255));
    let greeting = decode_greeting(&bytes).unwrap();
    assert_eq!(greeting.methods.len(), 255);
    bytes.pop();
    assert_eq!(decode_greeting(&bytes), Err(MalformedMessage::Length));
}

#[test]
fn method_selection_is_two_bytes() {
    assert_eq!(
        encode_method_selection(Some(AuthMethod::NoAuthenticationRequired)),
        vec![0x05, 0x00]
    );
    assert_eq!(encode_method_selection(Some(AuthMethod::Gssapi)), vec![0x05, 0x01]);
    assert_eq!(encode_method_selection(Some(AuthMethod::UsernamePassword)), vec![0x05, 0x02]);
    assert_eq!(encode_method_selection(None), vec![0x05, 0xFF]);
}

#[test]
fn connect_request_to_an_ipv4_address_decodes() {
    let decoded =
        decode_request(&[0x05, 0x01, 0x00, 0x01, 0x7F, 0x00, 0x00, 0x01, 0x00, 0x50]).unwrap();
    assert_eq!(decoded.command(), Command::Connect);
    assert_eq!(decoded.address_kind(), AddressKind::IPv4);
    assert_eq!(decoded.address(), &[127, 0, 0, 1]);
    assert_eq!(decoded.port(), 80);
}

#[test]
fn request_for_a_domain_name_decodes() {
    let mut bytes = vec![0x05, 0x01, 0x00, 0x03, 11];
    bytes.extend_from_slice(b"example.com");
    bytes.extend_from_slice(&[0x01, 0xBB]);
    let decoded = decode_request(&bytes).unwrap();
    assert_eq!(decoded.command(), Command::Connect);
    assert_eq!(decoded.address_kind(), AddressKind::DomainName);
    let mut address = vec![11u8];
    address.extend_from_slice(b"example.com");
    assert_eq!(decoded.address(), address.as_slice());
    assert_eq!(decoded.port(), 443);
}

#[test]
fn request_for_an_ipv6_address_decodes() {
    let mut bytes = vec![0x05, 0x02, 0x00, 0x04];
    let address: Vec<u8> = (1..=16).collect();
    bytes.extend_from_slice(&address);
    bytes.extend_from_slice(&[0x1F, 0x90]);
    let decoded = decode_request(&bytes).unwrap();
    assert_eq!(decoded.command(), Command::Bind);
    assert_eq!(decoded.address_kind(), AddressKind::IPv6);
    assert_eq!(decoded.address(), address.as_slice());
    assert_eq!(decoded.port(), 8080);
}

#[test]
fn request_for_udp_associate_decodes() {
    let decoded =
        decode_request(&[0x05, 0x03, 0x00, 0x01, 10, 0, 0, 1, 0x00, 0x35]).unwrap();
    assert_eq!(decoded.command(), Command::UdpAssociate);
    assert_eq!(decoded.port(), 53);
}

#[test]
fn request_with_an_empty_domain_name_decodes() {
    let decoded = decode_request(&[0x05, 0x01, 0x00, 0x03, 0x00, 0x00, 0x50]).unwrap();
    assert_eq!(decoded.address(), &[0u8]);
    assert_eq!(decoded.port(), 80);
}

#[test]
fn request_with_the_longest_domain_name_decodes() {
    let mut bytes = vec![0x05, 0x01, 0x00, 0x03, 255];
    bytes.extend(std::iter::repeat(b'a').take(255));
    bytes.extend_from_slice(&[0xFF, 0xFE]);
    assert_eq!(bytes.len(), 262);
    let decoded = decode_request(&bytes).unwrap();
    assert_eq!(decoded.address().len(), 256);
    assert_eq!(decoded.port(), 0xFFFE);
    bytes.pop();
    assert_eq!(decode_request(&bytes), Err(MalformedMessage::Length));
}

#[test]
fn request_ignores_the_reserved_byte_and_what_follows_the_port() {
    let plain = decode_request(&[0x05, 0x01, 0x00, 0x01, 1, 2, 3, 4, 0x00, 0x50]).unwrap();
    let reserved = decode_request(&[0x05, 0x01, 0x7E, 0x01, 1, 2, 3, 4, 0x00, 0x50]).unwrap();
    let followed =
        decode_request(&[0x05, 0x01, 0x00, 0x01, 1, 2, 3, 4, 0x00, 0x50, 0xAA, 0xBB]).unwrap();
    assert_eq!(plain, reserved);
    assert_eq!(plain, followed);
}

#[test]
fn request_never_reads_past_the_declared_name_length() {
    let decoded =
        decode_request(&[0x05, 0x01, 0x00, 0x03, 2, b'a', b'b', 0x00, 0x50, b'c', b'd']).unwrap();
    assert_eq!(decoded.address(), &[2, b'a', b'b']);
    assert_eq!(decoded.port(), 80);
}

#[test]
fn request_with_a_wrong_version_is_malformed() {
    assert_eq!(
        decode_request(&[0x04, 0x01, 0x00, 0x01, 127, 0, 0, 1, 0, 80]),
        Err(MalformedMessage::Version)
    );
    assert_eq!(decode_request(&[0x00]), Err(MalformedMessage::Version));
    assert_eq!(decode_request(&[0xFF, 0x09, 0x00, 0x09]), Err(MalformedMessage::Version));
}

#[test]
fn request_with_an_unknown_command_is_malformed() {
    assert_eq!(
        decode_request(&[0x05, 0x00, 0x00, 0x01, 127, 0, 0, 1, 0, 80]),
        Err(MalformedMessage::Command)
    );
    assert_eq!(
        decode_request(&[0x05, 0x04, 0x00, 0x01, 127, 0, 0, 1, 0, 80]),
        Err(MalformedMessage::Command)
    );
    assert_eq!(decode_request(&[0x05, 0x09]), Err(MalformedMessage::Command));
    assert_eq!(decode_request(&[0x05, 0x09, 0x00, 0x09]), Err(MalformedMessage::Command));
}

#[test]
fn request_with_an_unknown_address_kind_is_malformed() {
    assert_eq!(
        decode_request(&[0x05, 0x01, 0x00, 0x02, 127, 0, 0, 1, 0, 80]),
        Err(MalformedMessage::AddressKind)
    );
    assert_eq!(decode_request(&[0x05, 0x01, 0x00, 0x00]), Err(MalformedMessage::AddressKind));
    assert_eq!(decode_request(&[0x05, 0x02, 0x00, 0x05]), Err(MalformedMessage::AddressKind));
}

#[test]
fn request_that_ends_early_is_malformed() {
    let whole = [0x05, 0x01, 0x00, 0x01, 0x7F, 0x00, 0x00, 0x01, 0x00, 0x50];
    for cut in 0..whole.len() {
        assert_eq!(decode_request(&whole[..cut]), Err(MalformedMessage::Length));
    }
    let mut named = vec![0x05, 0x01, 0x00, 0x03, 3];
    named.extend_from_slice(b"abc");
    named.extend_from_slice(&[0, 80]);
    for cut in 0..named.len() {
        assert_eq!(decode_request(&named[..cut]), Err(MalformedMessage::Length));
    }
    assert!(decode_request(&named).is_ok());
}

#[test]
fn request_is_made_of_its_parts() {
    let made = request(Command::Connect, AddressKind::IPv4, &[192, 168, 1, 2], 1080);
    assert_eq!(made.command(), Command::Connect);
    assert_eq!(made.address_kind(), AddressKind::IPv4);
    assert_eq!(made.address(), &[192, 168, 1, 2]);
    assert_eq!(made.port(), 1080);
    assert_eq!(made.clone(), made);
}

#[test]
fn request_with_an_address_of_the_wrong_length_is_not_made() {
    let wrong = MalformedMessage::Length;
    assert_eq!(Request::new(Command::Connect, AddressKind::IPv4, vec![], 1).err(), Some(wrong));
    assert_eq!(
        Request::new(Command::Connect, AddressKind::IPv4, vec![1, 2, 3], 1).err(),
        Some(wrong)
    );
    assert_eq!(
        Request::new(Command::Connect, AddressKind::IPv4, vec![1, 2, 3, 4, 5], 1).err(),
        Some(wrong)
    );
    assert_eq!(
        Request::new(Command::Connect, AddressKind::IPv6, vec![0; 15], 1).err(),
        Some(wrong)
    );
    assert_eq!(
        Request::new(Command::Connect, AddressKind::IPv6, vec![0; 17], 1).err(),
        Some(wrong)
    );
    assert_eq!(
        Request::new(Command::Connect, AddressKind::DomainName, vec![], 1).err(),
        Some(wrong)
    );
    assert_eq!(
        Request::new(Command::Connect, AddressKind::DomainName, vec![3, b'a', b'b'], 1).err(),
        Some(wrong)
    );
    assert_eq!(
        Request::new(Command::Connect, AddressKind::DomainName, vec![1, b'a', b'b'], 1).err(),
        Some(wrong)
    );
    assert!(Request::new(Command::Connect, AddressKind::DomainName, vec![0], 1).is_ok());
    assert!(Request::new(Command::Connect, AddressKind::IPv6, vec![0; 16], 1).is_ok());
}

#[test]
fn request_encodes_to_the_wire_layout() {
    let ipv4 = request(Command::Connect, AddressKind::IPv4, &[127, 0, 0, 1], 80);
    assert_eq!(
        encode_request(&ipv4),
        vec![0x05, 0x01, 0x00, 0x01, 0x7F, 0x00, 0x00, 0x01, 0x00, 0x50]
    );
    let named = request(Command::Bind, AddressKind::DomainName, &[2, b'h', b'i'], 8080);
    assert_eq!(encode_request(&named), vec![0x05, 0x02, 0x00, 0x03, 2, b'h', b'i', 0x1F, 0x90]);
    let address: Vec<u8> = (0x10..0x20).collect();
    let ipv6 = request(Command::UdpAssociate, AddressKind::IPv6, &address, 0xABCD);
    let mut expected = vec![0x05, 0x03, 0x00, 0x04];
    expected.extend_from_slice(&address);
    expected.extend_from_slice(&[0xAB, 0xCD]);
    assert_eq!(encode_request(&ipv6), expected);
}

#[test]
fn request_round_trips_for_every_command_and_address_kind() {
    let commands = [Command::Connect, Command::Bind, Command::UdpAssociate];
    let mut name = vec![15u8];
    name.extend_from_slice(b"example.invalid");
    let addresses: [(AddressKind, Vec<u8>); 5] = [
        (AddressKind::IPv4, vec![10, 20, 30, 40]),
        (AddressKind::IPv6, (100..116).collect()),
        (AddressKind::DomainName, name),
        (AddressKind::DomainName, vec![0]),
        (AddressKind::DomainName, {
            let mut longest = vec![255u8];
            longest.extend(std::iter::repeat(0xC3).take(255));
            longest
        }),
    ];
    let ports = [0u16, 1, 80, 255, 256, 443, 8080, 65535];
    for command in commands {
        for (kind, address) in addresses.iter() {
            for port in ports {
                let original = request(command, *kind, address, port);
                let bytes = encode_request(&original);
                assert_eq!(bytes.len(), 4 + address.len() + 2);
                assert_eq!(decode_request(&bytes), Ok(original));
            }
        }
    }
}

#[test]
fn success_reply_carries_the_bound_ipv4_endpoint() {
    let bound = BoundAddress::V4 { octets: [192, 168, 0, 7], port: 54321 };
    assert_eq!(
        encode_reply(ReplyStatus::Succeeded, Some(bound)),
        vec![0x05, 0x00, 0x00, 0x01, 192, 168, 0, 7, 0xD4, 0x31]
    );
}

#[test]
fn success_reply_carries_the_bound_ipv6_endpoint() {
    let octets: [u8; 16] = [0x20, 0x01, 0x0d, 0xb8, 0, 0, 0, 0, 0, 0, 0, 0, 0, 0, 0, 1];
    let bound = BoundAddress::V6 { octets, port: 1080 };
    let mut expected = vec![0x05, 0x00, 0x00, 0x04];
    expected.extend_from_slice(&octets);
    expected.extend_from_slice(&[0x04, 0x38]);
    let frame = encode_reply(ReplyStatus::Succeeded, Some(bound));
    assert_eq!(frame.len(), 22);
    assert_eq!(frame, expected);
}

#[test]
fn failure_reply_carries_the_unspecified_endpoint() {
    assert_eq!(
        BoundAddress::unspecified(),
        BoundAddress::V4 { octets: [0, 0, 0, 0], port: 0 }
    );
    assert_eq!(
        encode_reply(ReplyStatus::HostUnreachable, None),
        vec![0x05, 0x04, 0x00, 0x01, 0, 0, 0, 0, 0, 0]
    );
    assert_eq!(
        encode_reply(ReplyStatus::CommandNotSupported, None),
        encode_reply(ReplyStatus::CommandNotSupported, Some(BoundAddress::unspecified()))
    );
}

#[test]
fn reply_differs_by_status_in_its_second_byte_only() {
    let statuses = [
        ReplyStatus::Succeeded,
        ReplyStatus::GeneralFailure,
        ReplyStatus::ConnectionNotAllowed,
        ReplyStatus::NetworkUnreachable,
        ReplyStatus::HostUnreachable,
        ReplyStatus::ConnectionRefused,
        ReplyStatus::TtlExpired,
        ReplyStatus::CommandNotSupported,
        ReplyStatus::AddressTypeNotSupported,
    ];
    let bound = Some(BoundAddress::V4 { octets: [1, 2, 3, 4], port: 0x0506 });
    for status in statuses {
        let frame = encode_reply(status, bound);
        let mut expected = vec![0x05, 0x00, 0x00, 0x01, 1, 2, 3, 4, 5, 6];
        expected[1] = status.code();
        assert_eq!(frame, expected);
    }
}
