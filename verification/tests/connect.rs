use my_socks5_server::codec::Request;
use my_socks5_server::connect::{target, Attempts, ConnectFailure, NextAttempt, Target};
use my_socks5_server::wire::{AddressKind, Command, ReplyStatus};

fn request(kind: AddressKind, address: &[u8], port: u16) -> Request {
    Request::new(Command::Connect, kind, address.to_vec(), port).unwrap()
}

#[test]
fn target_of_an_ipv4_request_is_its_octets() {
    let named = target(&request(AddressKind::IPv4, &[127, 0, 0, 1], 80));
    assert_eq!(named, Target::V4 { octets: [127, 0, 0, 1], port: 80 });
}

#[test]
fn target_of_an_ipv6_request_is_its_segments() {
    let address = [
        0x20, 0x01, 0x0d, 0xb8, 0x85, 0xa3, 0x00, 0x00, 0x00, 0x00, 0x8a, 0x2e, 0x03, 0x70, 0x73,
        0x34,
    ];
    let named = target(&request(AddressKind::IPv6, &address, 443));
    assert_eq!(
        named,
        Target::V6 {
            segments: [0x2001, 0x0db8, 0x85a3, 0x0000, 0x0000, 0x8a2e, 0x0370, 0x7334],
            port: 443
        }
    );
}

#[test]
fn target_of_the_ipv6_loopback() {
    let mut address = [0u8; 16];
    address[15] = 1;
    let named = target(&request(AddressKind::IPv6, &address, 1));
    assert_eq!(named, Target::V6 { segments: [0, 0, 0, 0, 0, 0, 0, 1], port: 1 });
}

#[test]
fn target_of_a_domain_request_is_its_name_as_text() {
    let mut address = vec![15u8];
    address.extend_from_slice(b"example.invalid");
    let named = target(&request(AddressKind::DomainName, &address, 8080));
    assert_eq!(named, Target::Domain { name: String::from("example.invalid"), port: 8080 });
}

#[test]
fn target_of_an_empty_domain_name() {
    let named = target(&request(AddressKind::DomainName, &[0], 80));
    assert_eq!(named, Target::Domain { name: String::new(), port: 80 });
}

#[test]
fn target_leaves_the_count_out_of_the_name() {
    let named = target(&request(AddressKind::DomainName, &[1, b'1'], 80));
    assert_eq!(named, Target::Domain { name: String::from("1"), port: 80 });
}

#[test]
fn target_reads_a_name_that_is_not_text_with_replacement_characters() {
    let named = target(&request(AddressKind::DomainName, &[3, b'a', 0xFF, b'b'], 80));
    assert_eq!(named, Target::Domain { name: String::from("a\u{FFFD}b"), port: 80 });
    let accented = target(&request(AddressKind::DomainName, &[2, 0xC3, 0xA9], 80));
    assert_eq!(accented, Target::Domain { name: String::from("\u{e9}"), port: 80 });
}

#[test]
fn connect_failures_map_to_reply_statuses() {
    assert_eq!(ConnectFailure::Resolution.reply_status(), ReplyStatus::HostUnreachable);
    assert_eq!(ConnectFailure::Refused.reply_status(), ReplyStatus::ConnectionRefused);
    assert_eq!(
        ConnectFailure::NetworkUnreachable.reply_status(),
        ReplyStatus::NetworkUnreachable
    );
    assert_eq!(ConnectFailure::Other.reply_status(), ReplyStatus::GeneralFailure);
}

#[test]
fn destination_without_an_address_did_not_resolve() {
    let attempts = Attempts::new(0);
    assert_eq!(attempts.next(), NextAttempt::GiveUp(ConnectFailure::Resolution));
}

#[test]
fn addresses_are_tried_in_order_and_the_last_failure_is_reported() {
    let mut attempts = Attempts::new(3);
    assert_eq!(attempts.next(), NextAttempt::Try(0));
    assert_eq!(attempts.next(), NextAttempt::Try(0));
    assert_eq!(attempts.record_failure(ConnectFailure::Refused), NextAttempt::Try(1));
    assert_eq!(attempts.record_failure(ConnectFailure::NetworkUnreachable), NextAttempt::Try(2));
    assert_eq!(
        attempts.record_failure(ConnectFailure::Other),
        NextAttempt::GiveUp(ConnectFailure::Other)
    );
    assert_eq!(attempts.next(), NextAttempt::GiveUp(ConnectFailure::Other));
}

#[test]
fn failures_beyond_the_last_address_change_nothing() {
    let mut attempts = Attempts::new(1);
    assert_eq!(
        attempts.record_failure(ConnectFailure::Refused),
        NextAttempt::GiveUp(ConnectFailure::Refused)
    );
    assert_eq!(
        attempts.record_failure(ConnectFailure::Other),
        NextAttempt::GiveUp(ConnectFailure::Refused)
    );
    assert_eq!(attempts, Attempts { candidates: 1, failed: 1, last: ConnectFailure::Refused });
    let mut none = Attempts::new(0);
    assert_eq!(
        none.record_failure(ConnectFailure::Other),
        NextAttempt::GiveUp(ConnectFailure::Resolution)
    );
}
