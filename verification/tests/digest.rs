use amethyst_proto::digest::hex_digest;
use amethyst_proto::digest::session_hash;
use amethyst_proto::digest::two_complement;

const NOTCH: [u8; 20] =
    [78, 209, 244, 107, 190, 4, 188, 117, 107, 203, 23, 192, 199, 206, 62, 70, 50, 240, 106, 72];

const JEB: [u8; 20] = [
    131, 98, 164, 255, 187, 62, 207, 239, 101, 162, 132, 160, 74, 60, 232, 63, 212, 177, 215, 63,
];

const SIMON: [u8; 20] =
    [8, 142, 22, 161, 1, 146, 119, 177, 93, 88, 250, 240, 84, 30, 17, 145, 14, 183, 86, 246];

#[test]
fn positive_digest_is_plain_hex() {
    assert_eq!(hex_digest(NOTCH), "4ed1f46bbe04bc756bcb17c0c7ce3e4632f06a48");
}

#[test]
fn digest_with_top_bit_set_is_negated_and_signed() {
    assert_eq!(hex_digest(JEB), "-7c9d5b0044c130109a5d7b5fb5c317c02b4e28c1");
}

#[test]
fn leading_zero_digits_are_stripped() {
    assert_eq!(hex_digest(SIMON), "88e16a1019277b15d58faf0541e11910eb756f6");
    let mut small = [0u8; 20];
    small[19] = 0x0a;
    assert_eq!(hex_digest(small), "a");
    small[18] = 0x10;
    assert_eq!(hex_digest(small), "100a");
}

#[test]
fn zero_digest_is_a_single_zero() {
    assert_eq!(hex_digest([0u8; 20]), "0");
}

#[test]
fn digest_of_all_ones_is_minus_one() {
    assert_eq!(hex_digest([0xff; 20]), "-1");
}

#[test]
fn smallest_digest_keeps_all_its_digits() {
    let mut lowest = [0u8; 20];
    lowest[0] = 0x80;
    assert_eq!(hex_digest(lowest), "-8000000000000000000000000000000000000000");
    let mut highest = [0xffu8; 20];
    highest[0] = 0x7f;
    assert_eq!(hex_digest(highest), "7fffffffffffffffffffffffffffffffffffffff");
}

#[test]
fn two_complement_negates() {
    let mut one = [0u8; 20];
    one[19] = 1;
    two_complement(&mut one);
    assert_eq!(one, [0xff; 20]);
    two_complement(&mut one);
    let mut expected = [0u8; 20];
    expected[19] = 1;
    assert_eq!(one, expected);
}

#[test]
fn two_complement_carries_across_zero_bytes() {
    let mut bytes = [0u8; 20];
    bytes[17] = 0x01;
    two_complement(&mut bytes);
    let mut expected = [0xffu8; 20];
    expected[18] = 0x00;
    expected[19] = 0x00;
    assert_eq!(bytes, expected);
}

#[test]
fn two_complement_of_zero_is_zero() {
    let mut bytes = [0u8; 20];
    two_complement(&mut bytes);
    assert_eq!(bytes, [0u8; 20]);
}

#[test]
fn two_complement_of_the_smallest_number_is_itself() {
    let mut bytes = [0u8; 20];
    bytes[0] = 0x80;
    let expected = bytes;
    two_complement(&mut bytes);
    assert_eq!(bytes, expected);
}

#[test]
fn two_complement_of_a_digest() {
    let mut bytes = JEB;
    two_complement(&mut bytes);
    assert_eq!(
        bytes,
        [
            0x7c, 0x9d, 0x5b, 0x00, 0x44, 0xc1, 0x30, 0x10, 0x9a, 0x5d, 0x7b, 0x5f, 0xb5, 0xc3, 0x17,
            0xc0, 0x2b, 0x4e, 0x28, 0xc1
        ]
    );
}

#[test]
fn session_hash_matches_the_reference_vectors() {
    assert_eq!(session_hash(b"", b"Notch", b""), "4ed1f46bbe04bc756bcb17c0c7ce3e4632f06a48");
    assert_eq!(session_hash(b"", b"jeb_", b""), "-7c9d5b0044c130109a5d7b5fb5c317c02b4e28c1");
    assert_eq!(session_hash(b"", b"simon", b""), "88e16a1019277b15d58faf0541e11910eb756f6");
}

#[test]
fn session_hash_is_over_the_three_inputs_in_order() {
    assert_eq!(session_hash(b"", b"sim", b"on"), "88e16a1019277b15d58faf0541e11910eb756f6");
    assert_eq!(session_hash(b"s", b"im", b"on"), "88e16a1019277b15d58faf0541e11910eb756f6");
    assert_eq!(session_hash(b"", b"No", b"tch"), "4ed1f46bbe04bc756bcb17c0c7ce3e4632f06a48");
    assert_ne!(session_hash(b"", b"on", b"sim"), "88e16a1019277b15d58faf0541e11910eb756f6");
}

#[test]
fn session_hash_of_nothing() {
    assert_eq!(session_hash(b"", b"", b""), "-25c65c11a194b4f2cdaa40106a9fe76f5027f8f7");
}
