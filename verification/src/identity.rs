//! Who a player is: the 128-bit id and the name that the session-verification
//! service confirms.

use crate::hex::hex_text;
use uuid::Uuid;
use vstd::prelude::*;

verus! {

/// A 128-bit player id, most significant byte first.
pub type PlayerId = [u8; 16];

/// The text form of an id: its hexadecimal digits in groups of 8, 4, 4, 4
/// and 12, with a hyphen between groups.
pub open spec fn hyphenated_text(id: Seq<u8>) -> Seq<char>
    recommends
        id.len() == 16,
{
    hex_text(id.subrange(0, 4)) + seq!['-'] + hex_text(id.subrange(4, 6)) + seq!['-'] + hex_text(
        id.subrange(6, 8),
    ) + seq!['-'] + hex_text(id.subrange(8, 10)) + seq!['-'] + hex_text(id.subrange(10, 16))
}

/// The id that `uuid::Uuid::parse_str` reads out of a text, where it reads
/// one.
pub uninterp spec fn parsed_id(text: Seq<char>) -> Option<Seq<u8>>;

/// `Uuid::from_bytes` and the `Display` of `Uuid::to_hyphenated`: the
/// lower-case digits of the sixteen bytes, hyphens after the fourth, sixth,
/// eighth and tenth.
#[verifier::external_body]
pub(crate) fn hyphenated(id: &PlayerId) -> (text: String)
    ensures
        text@ == hyphenated_text(id@),
{
    Uuid::from_bytes(*id).to_hyphenated().to_string()
}

/// `Uuid::parse_str` followed by `Uuid::as_bytes`: the id in a text, or
/// nothing where the text holds none.
#[verifier::external_body]
fn parse_id(text: &str) -> (id: Option<PlayerId>)
    ensures
        id.is_some() == parsed_id(text@).is_some(),
        id.is_some() ==> id.unwrap()@ == parsed_id(text@).unwrap(),
{
    match Uuid::parse_str(text) {
        Ok(uuid) => Some(*uuid.as_bytes()),
        Err(_) => None,
    }
}

/// A confirmed player.
#[derive(Clone, Debug, PartialEq, Eq)]
pub struct Profile {
    pub uuid: PlayerId,
    pub name: String,
}

/// What a profile is known by in contracts.
pub struct ProfileView {
    pub uuid: Seq<u8>,
    pub name: Seq<char>,
}

impl View for Profile {
    type V = ProfileView;

    open spec fn view(&self) -> ProfileView {
        ProfileView { uuid: self.uuid@, name: self.name@ }
    }
}

/// The profile that an id and a name make, where both are there.
pub open spec fn profile_from(id: Option<Seq<u8>>, name: Option<Seq<char>>) -> Option<
    ProfileView,
> {
    match (id, name) {
        (Some(uuid), Some(name)) => Some(ProfileView { uuid, name }),
        _ => None,
    }
}

/// The view of a text that may be missing.
pub open spec fn text_view(text: Option<String>) -> Option<Seq<char>> {
    match text {
        Some(t) => Some(t@),
        None => None,
    }
}

/// The view of an id that may be missing.
pub open spec fn id_view(id: Option<PlayerId>) -> Option<Seq<u8>> {
    match id {
        Some(i) => Some(i@),
        None => None,
    }
}

/// The view of a profile that may be missing.
pub open spec fn profile_view(profile: Option<Profile>) -> Option<ProfileView> {
    match profile {
        Some(p) => Some(p@),
        None => None,
    }
}

/// Joins an id and a name into a profile; there is none where either is
/// missing.
pub fn make_profile(id: Option<PlayerId>, name: Option<String>) -> (profile: Option<Profile>)
    ensures
        profile_view(profile) == profile_from(id_view(id), text_view(name)),
{
    match (id, name) {
        (Some(uuid), Some(name)) => Some(Profile { uuid, name }),
        _ => None,
    }
}

/// Reads the answer of the session-verification service: the `id` field as
/// text and the `name` field. There is a profile where both fields are
/// there and the id reads as one.
pub fn parse_profile(id: Option<&str>, name: Option<String>) -> (profile: Option<Profile>)
    ensures
        profile_view(profile) == profile_from(
            match id {
                Some(text) => parsed_id(text@),
                None => None,
            },
            text_view(name),
        ),
{
    let uuid = match id {
        Some(text) => parse_id(text),
        None => None,
    };
    make_profile(uuid, name)
}

} // verus!
