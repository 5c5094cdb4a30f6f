use kyoku::api::album::assemble_album;
use kyoku::api::index::IndexSong;
use kyoku::api::serve::{file_not_served, song_not_found};
use kyoku::api::{internal_error, parse_path_id, AlbumRaw, Artist, Genre, Track};
use time::OffsetDateTime;

#[test]
fn path_ids_are_read_before_the_first_dot() {
    assert_eq!(parse_path_id("12"), Some(12));
    assert_eq!(parse_path_id("12.json"), Some(12));
    assert_eq!(parse_path_id("12.a.b"), Some(12));
    assert_eq!(parse_path_id("-5.flac"), Some(-5));
    assert_eq!(parse_path_id("abc"), None);
    assert_eq!(parse_path_id(".12"), None);
    assert_eq!(parse_path_id(""), None);
    assert_eq!(parse_path_id("99999999999"), None);
}

#[test]
fn a_rendered_id_is_read_back() {
    for id in [0i32, 7, 2147483647] {
        assert_eq!(parse_path_id(&id.to_string()), Some(id));
        assert_eq!(parse_path_id(&format!("{}.mp3.x", id)), Some(id));
    }
}

#[test]
fn errors_carry_their_status() {
    assert_eq!(internal_error("boom".to_string()), (500, "boom".to_string()));
    assert_eq!(song_not_found("no rows"), (404, "Something went wrong: no rows".to_string()));
    assert_eq!(file_not_served("io"), (500, "Something went wrong: io".to_string()));
}

fn track(id: i32) -> Track {
    Track {
        id,
        name: format!("t{}", id),
        artist: 1,
        path: "/p".to_string(),
        plays: None,
        duration: 10,
        liked: None,
        last_play: None,
        year: None,
        number: Some(id),
        lossless: Some(true),
        created_at: OffsetDateTime::UNIX_EPOCH,
        updated_at: None,
        album: 2,
        album_name: "Album".to_string(),
        artist_name: "Band".to_string(),
    }
}

#[test]
fn assemble_album_nests_the_artist_and_tracks() {
    let raw = AlbumRaw {
        id: 2,
        name: "Album".to_string(),
        picture: Some("x.png".to_string()),
        year: Some(1999),
        created_at: OffsetDateTime::UNIX_EPOCH,
        updated_at: None,
        artist_id: 1,
        artist_name: "Band".to_string(),
        artist_picture: None,
        artist_bio: Some("bio".to_string()),
        artist_created_at: OffsetDateTime::UNIX_EPOCH,
        artist_updated_at: Some(OffsetDateTime::UNIX_EPOCH),
    };
    let album = assemble_album(raw, vec![track(1), track(2)]);
    assert_eq!(album.id, 2);
    assert_eq!(album.name, "Album");
    assert_eq!(album.picture.as_deref(), Some("x.png"));
    assert_eq!(album.year, Some(1999));
    assert_eq!(album.artist.id, 1);
    assert_eq!(album.artist.name, "Band");
    assert_eq!(album.artist.bio.as_deref(), Some("bio"));
    assert_eq!(album.artist.updated_at, Some(OffsetDateTime::UNIX_EPOCH));
    let tracks = album.tracks.unwrap();
    assert_eq!(tracks.len(), 2);
    assert_eq!(tracks[1].name, "t2");
}

#[test]
fn records_hold_their_fields() {
    let song = IndexSong { id: 1, artist_name: None, song_name: "s".to_string(), album_name: Some("a".to_string()) };
    assert_eq!(song.song_name, "s");
    let artist = Artist {
        id: 1,
        name: "n".to_string(),
        picture: None,
        tags: Some(vec!["rock".to_string()]),
        similar: None,
        bio: None,
        created_at: "2020".to_string(),
        updated_at: None,
    };
    assert_eq!(artist.clone().tags, Some(vec!["rock".to_string()]));
    let genre = Genre { id: 1, name: "rock".to_string(), created_at: "2020".to_string(), updated_at: None };
    assert_eq!(genre.name, "rock");
}
