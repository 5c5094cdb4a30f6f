//! The search endpoint: its records, and how they are made from the rows that
//! its queries return. (The track record itself carries a floating-point
//! duration and is put together by the caller from `TrackFields`.)
use vstd::prelude::*;
use crate::text::{
    join_with, law_join_split, lemma_split_pieces_without_sep, split_at_char, split_on, views,
};

verus! {

/// An artist, as search results show it.
#[derive(Debug, Clone)]
pub struct Artist {
    pub id: i64,
    pub name: String,
    pub picture: Option<String>,
    pub tags: Option<Vec<String>>,
    pub similar: Option<Vec<String>>,
    pub bio: Option<String>,
    pub created_at: String,
    pub updated_at: Option<String>,
}

/// A genre, as search results show it.
#[derive(Debug)]
pub struct Genre {
    pub id: i64,
    pub name: String,
    pub created_at: String,
    pub updated_at: Option<String>,
}

/// An album, as search results show it.
#[derive(Debug)]
pub struct Album {
    pub id: i64,
    pub name: String,
    pub picture: String,
    pub year: i64,
    pub created_at: String,
    pub updated_at: Option<String>,
    pub artist: Artist,
}

/// An artist row; `tags` and `similar` are comma-separated lists.
#[derive(Debug)]
pub struct ArtistRecord {
    pub id: Option<i64>,
    pub name: String,
    pub bio: Option<String>,
    pub picture: Option<String>,
    pub created_at: String,
    pub similar: Option<String>,
    pub tags: Option<String>,
}

/// An album row.
#[derive(Debug)]
pub struct AlbumRecord {
    pub id: Option<i64>,
    pub name: String,
    pub picture: Option<String>,
    pub year: Option<i64>,
    pub created_at: String,
}

/// A genre row.
#[derive(Debug)]
pub struct GenreRecord {
    pub id: Option<i64>,
    pub name: String,
    pub created_at: String,
}

/// A song row, without its duration and its links to other rows.
#[derive(Debug)]
pub struct TrackRecord {
    pub id: Option<i64>,
    pub number: Option<i64>,
    pub name: String,
    pub path: String,
    pub artist: String,
    pub plays: Option<i64>,
    pub liked: Option<bool>,
    pub lossless: Option<bool>,
    pub created_at: String,
    pub updated_at: Option<String>,
}

/// The fields of a search result track other than its duration, artists,
/// album and genre.
#[derive(Debug)]
pub struct TrackFields {
    pub id: i64,
    pub name: String,
    pub artist: String,
    pub path: String,
    pub plays: Option<i64>,
    pub liked: bool,
    pub last_play: Option<String>,
    pub year: i64,
    pub number: i64,
    pub lossless: bool,
    pub created_at: String,
    pub updated_at: Option<String>,
    pub playlists: Vec<i64>,
}

/// Whether `list` is the comma-separated `value` taken apart.
pub open spec fn list_of(value: Option<String>, list: Option<Vec<String>>) -> bool {
    match value {
        Some(v) => list is Some && views(list->0@) == split_on(v@, ','),
        None => list is None,
    }
}

/// A list read from a column loses nothing and splits everything: joining its
/// entries with commas gives back the column, and no entry holds a comma; a
/// missing column gives no list.
pub proof fn law_list_of_column(value: Option<String>, list: Option<Vec<String>>)
    requires
        list_of(value, list),
    ensures
        value is None <==> list is None,
        value is Some ==> join_with(views(list->0@), ","@) == value->0@,
        value is Some ==> forall|i: int|
            0 <= i < list->0@.len() ==> !(#[trigger] list->0@[i])@.contains(','),
{
    if let Some(v) = value {
        law_join_split(v@, ',');
        lemma_split_pieces_without_sep(v@, ',');
        assert(","@ == seq![',']) by {
            reveal_strlit(",");
        }
        assert forall|i: int| 0 <= i < list->0@.len() implies !(#[trigger] list->0@[i])@.contains(
            ',',
        ) by {
            assert(views(list->0@)[i] == list->0@[i]@);
        }
    }
}

/// Takes a comma-separated list apart.
pub fn list_field(value: Option<String>) -> (r: Option<Vec<String>>)
    ensures
        list_of(value, r),
{
    match value {
        Some(v) => Some(split_at_char(v.as_str(), ',')),
        None => None,
    }
}

/// The artist of an artist row, with the given update time.
pub fn search_artist(row: ArtistRecord, updated_at: Option<String>) -> (r: Artist)
    requires
        row.id is Some,
    ensures
        r.id == row.id->0,
        r.name == row.name,
        r.picture == row.picture,
        list_of(row.tags, r.tags),
        list_of(row.similar, r.similar),
        r.bio == row.bio,
        r.created_at == row.created_at,
        r.updated_at == updated_at,
{
    let id = match row.id {
        Some(id) => id,
        None => 0,
    };
    Artist {
        id,
        name: row.name,
        picture: row.picture,
        tags: list_field(row.tags),
        similar: list_field(row.similar),
        bio: row.bio,
        created_at: row.created_at,
        updated_at,
    }
}

/// The album of an album row, by `artist`, with the given update time; an
/// album without a year shows the year 0.
pub fn search_album(row: AlbumRecord, artist: Artist, updated_at: Option<String>) -> (r: Album)
    requires
        row.id is Some,
        row.picture is Some,
    ensures
        r == (Album {
            id: row.id->0,
            name: row.name,
            picture: row.picture->0,
            year: match row.year {
                Some(y) => y,
                None => 0,
            },
            created_at: row.created_at,
            updated_at: updated_at,
            artist: artist,
        }),
{
    let id = match row.id {
        Some(id) => id,
        None => 0,
    };
    let picture = match row.picture {
        Some(p) => p,
        None => String::new(),
    };
    let year = match row.year {
        Some(y) => y,
        None => 0,
    };
    Album { id, name: row.name, picture, year, created_at: row.created_at, updated_at, artist }
}

/// The genre of a genre row, with the given update time.
pub fn search_genre(row: GenreRecord, updated_at: Option<String>) -> (r: Genre)
    requires
        row.id is Some,
    ensures
        r == (Genre {
            id: row.id->0,
            name: row.name,
            created_at: row.created_at,
            updated_at: updated_at,
        }),
{
    let id = match row.id {
        Some(id) => id,
        None => 0,
    };
    Genre { id, name: row.name, created_at: row.created_at, updated_at }
}

/// The fields of a search result track: a missing id shows as 0, a missing
/// number as 1, missing flags as `false`; the year shows as 2020, and the
/// last play and the playlists as none.
pub fn search_track_fields(row: TrackRecord) -> (r: TrackFields)
    ensures
        r.id == (match row.id {
            Some(i) => i,
            None => 0,
        }),
        r.name == row.name,
        r.artist == row.artist,
        r.path == row.path,
        r.plays == row.plays,
        r.liked == (row.liked == Some(true)),
        r.last_play is None,
        r.year == 2020,
        r.number == (match row.number {
            Some(n) => n,
            None => 1,
        }),
        r.lossless == (row.lossless == Some(true)),
        r.created_at == row.created_at,
        r.updated_at == row.updated_at,
        r.playlists@.len() == 0,
{
    TrackFields {
        id: match row.id {
            Some(i) => i,
            None => 0,
        },
        name: row.name,
        artist: row.artist,
        path: row.path,
        plays: row.plays,
        liked: match row.liked {
            Some(l) => l,
            None => false,
        },
        last_play: None,
        year: 2020,
        number: match row.number {
            Some(n) => n,
            None => 1,
        },
        lossless: match row.lossless {
            Some(l) => l,
            None => false,
        },
        created_at: row.created_at,
        updated_at: row.updated_at,
        playlists: Vec::new(),
    }
}

} // verus!
