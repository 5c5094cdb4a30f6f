//! The records that the HTTP API answers with, and what its handlers decide.
pub mod album;
pub mod index;
pub mod search;
pub mod serve;

use vstd::prelude::*;
use crate::text::{
    decimal, lemma_decimal, lemma_split_first_piece, lemma_split_on_nonempty,
    lemma_split_without_sep, law_parse_decimal, parse_i32, parsed_i32, split_at_char, split_on,
};

verus! {

#[verifier::external_type_specification]
#[verifier::external_body]
pub struct ExOffsetDateTime(time::OffsetDateTime);

/// A song, with the names of its album and artist.
#[derive(Debug)]
pub struct Track {
    pub id: i32,
    pub name: String,
    pub artist: i32,
    pub path: String,
    pub plays: Option<i32>,
    pub duration: i32,
    pub liked: Option<bool>,
    pub last_play: Option<time::OffsetDateTime>,
    pub year: Option<i32>,
    pub number: Option<i32>,
    pub lossless: Option<bool>,
    pub created_at: time::OffsetDateTime,
    pub updated_at: Option<time::OffsetDateTime>,
    pub album: i32,
    pub album_name: String,
    pub artist_name: String,
}

/// An album, with its artist and its tracks.
#[derive(Debug)]
pub struct Album {
    pub id: i32,
    pub name: String,
    pub picture: Option<String>,
    pub year: Option<i32>,
    pub created_at: time::OffsetDateTime,
    pub updated_at: Option<time::OffsetDateTime>,
    pub artist: ArtistPartial,
    pub tracks: Option<Vec<Track>>,
}

/// An album row joined with its artist's row.
#[derive(Debug)]
pub struct AlbumRaw {
    pub id: i32,
    pub name: String,
    pub picture: Option<String>,
    pub year: Option<i32>,
    pub created_at: time::OffsetDateTime,
    pub updated_at: Option<time::OffsetDateTime>,
    pub artist_id: i32,
    pub artist_name: String,
    pub artist_picture: Option<String>,
    pub artist_bio: Option<String>,
    pub artist_created_at: time::OffsetDateTime,
    pub artist_updated_at: Option<time::OffsetDateTime>,
}

/// An artist.
#[derive(Debug, Clone)]
pub struct Artist {
    pub id: i64,
    pub name: String,
    pub picture: Option<String>,
    pub tags: Option<Vec<String>>,
    pub similar: Option<Vec<String>>,
    pub bio: Option<String>,
    pub created_at: String,
    pub updated_at: Option<String>,
}

/// An artist, without tags and similar artists.
#[derive(Debug)]
pub struct ArtistPartial {
    pub id: i32,
    pub name: String,
    pub picture: Option<String>,
    pub bio: Option<String>,
    pub created_at: time::OffsetDateTime,
    pub updated_at: Option<time::OffsetDateTime>,
}

/// A genre.
#[derive(Debug)]
pub struct Genre {
    pub id: i64,
    pub name: String,
    pub created_at: String,
    pub updated_at: Option<String>,
}

/// The status code of an internal server error.
pub const INTERNAL_SERVER_ERROR: u16 = 500;

/// The status code of a missing resource.
pub const NOT_FOUND: u16 = 404;

/// The id that a path parameter such as `12.json` names: the text before its
/// first `.`, read as an `i32`.
pub open spec fn path_id(param: Seq<char>) -> Option<i32> {
    parsed_i32(split_on(param, '.')[0])
}

/// Reads the id that a path parameter such as `12.json` names: `None` where
/// the text before the first `.` is not an `i32`.
pub fn parse_path_id(param: &str) -> (r: Option<i32>)
    ensures
        r == path_id(param@),
{
    let pieces = split_at_char(param, '.');
    proof {
        lemma_split_on_nonempty(param@, '.');
        assert(pieces@[0]@ == split_on(param@, '.')[0]);
    }
    parse_i32(pieces[0].as_str())
}

/// A path parameter that starts with the decimal rendering of an id, alone or
/// followed by `.` and anything, names that id.
pub proof fn law_path_id_of_number(id: nat, rest: Seq<char>)
    requires
        id <= i32::MAX,
    ensures
        path_id(decimal(id)) == Some(id as i32),
        path_id(decimal(id) + seq!['.'] + rest) == Some(id as i32),
{
    lemma_decimal(id);
    lemma_split_without_sep(decimal(id), '.');
    lemma_split_first_piece(decimal(id), '.', rest);
    law_parse_decimal(id);
}

/// The answer to a request whose database query failed: status 500 and the
/// error's message.
pub fn internal_error(message: String) -> (r: (u16, String))
    ensures
        r.0 == INTERNAL_SERVER_ERROR,
        r.1 == message,
{
    (INTERNAL_SERVER_ERROR, message)
}

} // verus!
