//! The song index endpoint.
use vstd::prelude::*;

verus! {

/// One entry of the song index: a song's id and name, with the names of its
/// artist and album where they are known.
#[derive(Debug)]
pub struct IndexSong {
    pub id: i32,
    pub artist_name: Option<String>,
    pub song_name: String,
    pub album_name: Option<String>,
}

} // verus!
