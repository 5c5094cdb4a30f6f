//! The album endpoint.
use vstd::prelude::*;
use crate::api::{Album, AlbumRaw, ArtistPartial, Track};

verus! {

/// The album of a joined album row, with its tracks.
pub fn assemble_album(album: AlbumRaw, tracks: Vec<Track>) -> (r: Album)
    ensures
        r == (Album {
            id: album.id,
            name: album.name,
            picture: album.picture,
            year: album.year,
            created_at: album.created_at,
            updated_at: album.updated_at,
            artist: ArtistPartial {
                id: album.artist_id,
                name: album.artist_name,
                picture: album.artist_picture,
                bio: album.artist_bio,
                created_at: album.artist_created_at,
                updated_at: album.artist_updated_at,
            },
            tracks: Some(tracks),
        }),
{
    Album {
        id: album.id,
        name: album.name,
        picture: album.picture,
        year: album.year,
        created_at: album.created_at,
        updated_at: album.updated_at,
        artist: ArtistPartial {
            id: album.artist_id,
            name: album.artist_name,
            picture: album.artist_picture,
            bio: album.artist_bio,
            created_at: album.artist_created_at,
            updated_at: album.artist_updated_at,
        },
        tracks: Some(tracks),
    }
}

} // verus!
