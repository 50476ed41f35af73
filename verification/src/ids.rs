//! Matrix identifiers read from raw text: user IDs, room aliases and room
//! IDs, validated by the Matrix SDK's identifier types.

use vstd::prelude::*;

use matrix_sdk::ruma::{IdParseError, OwnedRoomAliasId, OwnedRoomId, OwnedUserId};

use crate::error::{ConstellationError, Result};

verus! {

/// Makes `OwnedUserId` known to Verus as an opaque type.
#[verifier::external_type_specification]
#[verifier::external_body]
pub struct ExOwnedUserId(matrix_sdk::ruma::OwnedUserId);

/// Makes `OwnedRoomAliasId` known to Verus as an opaque type.
#[verifier::external_type_specification]
#[verifier::external_body]
pub struct ExOwnedRoomAliasId(matrix_sdk::ruma::OwnedRoomAliasId);

/// Makes `OwnedRoomId` known to Verus as an opaque type.
#[verifier::external_type_specification]
#[verifier::external_body]
pub struct ExOwnedRoomId(matrix_sdk::ruma::OwnedRoomId);

/// A validated Matrix identifier with the text it was read from. Only the
/// parsing functions of this module make one.
#[derive(Debug)]
pub struct MatrixId<T> {
    id: T,
    text: String,
}

impl<T> MatrixId<T> {
    /// The text of the identifier.
    pub closed spec fn text(self) -> Seq<char> {
        self.text@
    }

    /// The text of the identifier.
    pub fn as_str(&self) -> (res: &str)
        ensures
            res@ == self.text(),
    {
        self.text.as_str()
    }

    /// The identifier itself.
    pub closed spec fn id(self) -> T {
        self.id
    }

    /// The identifier.
    pub fn inner(&self) -> (res: &T)
        ensures
            *res == self.id(),
    {
        &self.id
    }

    /// The identifier, by value.
    pub fn into_inner(self) -> (res: T)
        ensures
            res == self.id(),
    {
        self.id
    }
}

/// Whether `s` is a valid Matrix user ID (`OwnedUserId::try_from`).
pub uninterp spec fn user_id_parses(s: Seq<char>) -> bool;

/// Whether `s` is a valid Matrix room alias (`RoomAliasId::parse`).
pub uninterp spec fn room_alias_parses(s: Seq<char>) -> bool;

/// Whether `s` is a valid Matrix room ID (`RoomId::parse`).
pub uninterp spec fn room_id_parses(s: Seq<char>) -> bool;

/// `OwnedUserId::try_from(&str)`.
/// Claimed: whether it succeeds is a function of `s` alone, named
/// `user_id_parses`; on success the identifier keeps `s` as its text (ruma
/// validates `s` and stores it as it is). The validation rules are not stated.
#[verifier::external_body]
fn parse_user_id(s: &str) -> (res: std::result::Result<MatrixId<OwnedUserId>, IdParseError>)
    ensures
        res is Ok <==> user_id_parses(s@),
        res matches Ok(id) ==> id.text() == s@,
{
    match OwnedUserId::try_from(s) {
        Ok(id) => Ok(MatrixId { text: id.as_str().to_string(), id }),
        Err(e) => Err(e),
    }
}

/// `RoomAliasId::parse(&str)`.
/// Claimed: whether it succeeds is a function of `s` alone, named
/// `room_alias_parses`; on success the alias keeps `s` as its text. The
/// validation rules are not stated.
#[verifier::external_body]
fn parse_alias(s: &str) -> (res: std::result::Result<MatrixId<OwnedRoomAliasId>, IdParseError>)
    ensures
        res is Ok <==> room_alias_parses(s@),
        res matches Ok(id) ==> id.text() == s@,
{
    match matrix_sdk::ruma::RoomAliasId::parse(s) {
        Ok(id) => Ok(MatrixId { text: id.as_str().to_string(), id }),
        Err(e) => Err(e),
    }
}

/// `RoomId::parse(&str)`.
/// Claimed: whether it succeeds is a function of `s` alone, named
/// `room_id_parses`; on success the room ID keeps `s` as its text. The
/// validation rules are not stated.
#[verifier::external_body]
fn parse_room(s: &str) -> (res: std::result::Result<MatrixId<OwnedRoomId>, IdParseError>)
    ensures
        res is Ok <==> room_id_parses(s@),
        res matches Ok(id) ==> id.text() == s@,
{
    match matrix_sdk::ruma::RoomId::parse(s) {
        Ok(id) => Ok(MatrixId { text: id.as_str().to_string(), id }),
        Err(e) => Err(e),
    }
}

/// Read the user IDs of agents to invite.
///
/// # Errors
///
/// Returns [`ConstellationError::MatrixId`] for the first ID that is
/// malformed.
pub fn parse_invites(invited: &[&str]) -> (res: Result<Vec<MatrixId<OwnedUserId>>>)
    ensures
        res is Ok <==> forall|i: int| 0 <= i < invited@.len() ==> user_id_parses(#[trigger] invited@[i]@),
        res matches Ok(v) ==> v@.len() == invited@.len() && forall|i: int|
            0 <= i < invited@.len() ==> #[trigger] v@[i].text() == invited@[i]@,
        res is Err ==> res matches Err(ConstellationError::MatrixId(_)),
{
    let mut out: Vec<MatrixId<OwnedUserId>> = Vec::new();
    let mut i: usize = 0;
    while i < invited.len()
        invariant
            i <= invited@.len(),
            out@.len() == i,
            forall|j: int| 0 <= j < i ==> user_id_parses(#[trigger] invited@[j]@),
            forall|j: int| 0 <= j < i ==> #[trigger] out@[j].text() == invited@[j]@,
        decreases invited.len() - i,
    {
        match parse_user_id(invited[i]) {
            Ok(id) => out.push(id),
            Err(e) => return Err(ConstellationError::MatrixId(e)),
        }
        i += 1;
    }
    Ok(out)
}

/// Read a room alias, e.g. `#agents:constellation.local`.
///
/// # Errors
///
/// Returns [`ConstellationError::MatrixId`] if the alias is malformed.
pub fn parse_room_alias(alias: &str) -> (res: Result<MatrixId<OwnedRoomAliasId>>)
    ensures
        res is Ok <==> room_alias_parses(alias@),
        res matches Ok(a) ==> a.text() == alias@,
        res is Err ==> res matches Err(ConstellationError::MatrixId(_)),
{
    match parse_alias(alias) {
        Ok(a) => Ok(a),
        Err(e) => Err(ConstellationError::MatrixId(e)),
    }
}

/// Read a room ID, e.g. `!abc:constellation.local`.
///
/// # Errors
///
/// Returns [`ConstellationError::MatrixId`] if the room ID is malformed.
pub fn parse_room_id(room_id: &str) -> (res: Result<MatrixId<OwnedRoomId>>)
    ensures
        res is Ok <==> room_id_parses(room_id@),
        res matches Ok(r) ==> r.text() == room_id@,
        res is Err ==> res matches Err(ConstellationError::MatrixId(_)),
{
    match parse_room(room_id) {
        Ok(r) => Ok(r),
        Err(e) => Err(ConstellationError::MatrixId(e)),
    }
}

} // verus!
