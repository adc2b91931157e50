use amethyst_proto::identity::make_profile;
use amethyst_proto::identity::parse_profile;
use amethyst_proto::identity::Profile;

const ID: [u8; 16] =
    [0x06, 0x9a, 0x79, 0xf4, 0x44, 0xe9, 0x47, 0x26, 0xa5, 0xbe, 0xfc, 0xa9, 0x0e, 0x38, 0xaa, 0xf5];

#[test]
fn parses_a_profile_with_a_simple_id() {
    assert_eq!(
        parse_profile(Some("069a79f444e94726a5befca90e38aaf5"), Some("Notch".to_string())),
        Some(Profile { uuid: ID, name: "Notch".to_string() })
    );
}

#[test]
fn parses_a_profile_with_a_hyphenated_or_upper_case_id() {
    assert_eq!(
        parse_profile(Some("069a79f4-44e9-4726-a5be-fca90e38aaf5"), Some("Notch".to_string())),
        Some(Profile { uuid: ID, name: "Notch".to_string() })
    );
    assert_eq!(
        parse_profile(Some("069A79F444E94726A5BEFCA90E38AAF5"), Some(String::new())),
        Some(Profile { uuid: ID, name: String::new() })
    );
}

#[test]
fn a_profile_needs_id_and_name() {
    assert_eq!(parse_profile(None, Some("Notch".to_string())), None);
    assert_eq!(parse_profile(Some("069a79f444e94726a5befca90e38aaf5"), None), None);
    assert_eq!(parse_profile(None, None), None);
}

#[test]
fn a_profile_needs_an_id_that_reads_as_one() {
    assert_eq!(parse_profile(Some(""), Some("Notch".to_string())), None);
    assert_eq!(parse_profile(Some("069a79f444e94726a5befca90e38aaf"), Some("Notch".to_string())), None);
    assert_eq!(parse_profile(Some("069a79f444e94726a5befca90e38aafg"), Some("Notch".to_string())), None);
    assert_eq!(parse_profile(Some("not an id"), Some("Notch".to_string())), None);
    assert_eq!(
        parse_profile(Some("069a79f4-44e94726-a5be-fca90e38aaf5"), Some("Notch".to_string())),
        None
    );
    assert_eq!(
        parse_profile(Some("\u{20ac}69a79f444e94726a5befca90e38aaf"), Some("Notch".to_string())),
        None
    );
    assert_eq!(
        parse_profile(Some("069a79f444e94726a5befca90e38a\u{20ac}"), Some("Notch".to_string())),
        None
    );
}

#[test]
fn makes_a_profile_of_its_parts() {
    assert_eq!(
        make_profile(Some(ID), Some("jeb_".to_string())),
        Some(Profile { uuid: ID, name: "jeb_".to_string() })
    );
    assert_eq!(make_profile(None, Some("jeb_".to_string())), None);
    assert_eq!(make_profile(Some(ID), None), None);
    assert_eq!(make_profile(None, None), None);
}
