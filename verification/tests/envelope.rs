use amethyst_proto::envelope::first_packet;
use amethyst_proto::envelope::seal;
use amethyst_proto::envelope::Envelope;
use amethyst_proto::error::EncodeError;
use amethyst_proto::login_handler::RawPacket;
use amethyst_proto::packets::Packet;

#[test]
fn takes_a_packet_out_of_its_envelope() {
    let bytes = [0x03, 0x01, 0xaa, 0xbb];
    assert_eq!(
        first_packet(&bytes),
        Envelope::Packet { raw: RawPacket { id: 1, data: vec![0xaa, 0xbb] }, used: 4 }
    );
}

#[test]
fn takes_the_first_envelope_only() {
    let bytes = [0x01, 0x00, 0x09, 0x01];
    assert_eq!(
        first_packet(&bytes),
        Envelope::Packet { raw: RawPacket { id: 0, data: vec![] }, used: 2 }
    );
    assert_eq!(first_packet(&bytes[2..]), Envelope::Incomplete);
}

#[test]
fn an_envelope_with_a_long_id_and_length() {
    let mut bytes = vec![0x82, 0x01, 0xac, 0x02];
    bytes.extend_from_slice(&[7u8; 128]);
    assert_eq!(
        first_packet(&bytes),
        Envelope::Packet { raw: RawPacket { id: 300, data: vec![7u8; 128] }, used: 132 }
    );
}

#[test]
fn an_envelope_that_has_not_arrived_whole_is_incomplete() {
    assert_eq!(first_packet(&[]), Envelope::Incomplete);
    assert_eq!(first_packet(&[0x80]), Envelope::Incomplete);
    assert_eq!(first_packet(&[0x80, 0x80, 0x80, 0x80]), Envelope::Incomplete);
    assert_eq!(first_packet(&[0x03, 0x01]), Envelope::Incomplete);
    assert_eq!(first_packet(&[0x03, 0x01, 0xaa]), Envelope::Incomplete);
}

#[test]
fn an_envelope_with_a_bad_length_or_id_is_malformed() {
    assert_eq!(first_packet(&[0x80, 0x80, 0x80, 0x80, 0x80]), Envelope::Malformed);
    assert_eq!(first_packet(&[0xff, 0xff, 0xff, 0xff, 0x7f, 0x00]), Envelope::Malformed);
    assert_eq!(first_packet(&[0xff, 0xff, 0xff, 0xff, 0x0f, 0x00]), Envelope::Malformed);
    assert_eq!(first_packet(&[0x00]), Envelope::Malformed);
    assert_eq!(first_packet(&[0x01, 0x80]), Envelope::Malformed);
}

#[test]
fn seals_a_packet_behind_its_length() {
    assert_eq!(seal(&[0x01, 0xaa, 0xbb]), Ok(vec![0x03, 0x01, 0xaa, 0xbb]));
    assert_eq!(seal(&[]), Ok(vec![0x00]));
    let long = vec![5u8; 200];
    let sealed = seal(&long).unwrap();
    assert_eq!(&sealed[..2], &[0xc8, 0x01]);
    assert_eq!(&sealed[2..], &long[..]);
}

#[test]
fn a_sealed_packet_comes_out_again() {
    let body = Packet::KeepAlive { id: 77 }.serialize().unwrap();
    let mut bytes = seal(&body).unwrap();
    let used = bytes.len();
    bytes.extend_from_slice(&[0x55, 0x66]);
    assert_eq!(
        first_packet(&bytes),
        Envelope::Packet { raw: RawPacket { id: 0, data: vec![77] }, used }
    );
    assert_ne!(seal(&body), Err(EncodeError::NotEncodable));
}
