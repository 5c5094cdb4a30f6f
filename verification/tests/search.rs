use kyoku::api::search::{
    list_field, search_album, search_artist, search_genre, search_track_fields, AlbumRecord,
    ArtistRecord, GenreRecord, TrackRecord,
};

fn artist_row() -> ArtistRecord {
    ArtistRecord {
        id: Some(3),
        name: "Band".to_string(),
        bio: None,
        picture: Some("p.jpg".to_string()),
        created_at: "2020-01-01".to_string(),
        similar: Some("X,Y".to_string()),
        tags: Some("rock,,pop".to_string()),
    }
}

#[test]
fn list_field_splits_on_commas() {
    assert_eq!(list_field(None), None);
    assert_eq!(list_field(Some("a,b".to_string())), Some(vec!["a".to_string(), "b".to_string()]));
    assert_eq!(list_field(Some(String::new())), Some(vec![String::new()]));
}

#[test]
fn search_artist_takes_the_lists_apart() {
    let a = search_artist(artist_row(), Some("later".to_string()));
    assert_eq!(a.id, 3);
    assert_eq!(a.tags, Some(vec!["rock".to_string(), String::new(), "pop".to_string()]));
    assert_eq!(a.similar, Some(vec!["X".to_string(), "Y".to_string()]));
    assert_eq!(a.updated_at.as_deref(), Some("later"));
}

#[test]
fn search_album_defaults_the_year() {
    let artist = search_artist(artist_row(), None);
    let row = AlbumRecord { id: Some(9), name: "A".to_string(), picture: Some("c.png".to_string()), year: None, created_at: "t".to_string() };
    let album = search_album(row, artist, None);
    assert_eq!(album.year, 0);
    assert_eq!(album.picture, "c.png");
    assert_eq!(album.artist.name, "Band");
    let row = AlbumRecord { id: Some(9), name: "A".to_string(), picture: Some("c.png".to_string()), year: Some(1977), created_at: "t".to_string() };
    assert_eq!(search_album(row, search_artist(artist_row(), None), None).year, 1977);
}

#[test]
fn search_genre_and_track_defaults() {
    let g = search_genre(GenreRecord { id: Some(1), name: "rock".to_string(), created_at: "t".to_string() }, None);
    assert_eq!(g.id, 1);
    let row = TrackRecord {
        id: None,
        number: None,
        name: "n".to_string(),
        path: "/p".to_string(),
        artist: "1".to_string(),
        plays: Some(3),
        liked: None,
        lossless: Some(true),
        created_at: "t".to_string(),
        updated_at: None,
    };
    let f = search_track_fields(row);
    assert_eq!(f.id, 0);
    assert_eq!(f.number, 1);
    assert!(!f.liked);
    assert!(f.lossless);
    assert_eq!(f.year, 2020);
    assert_eq!(f.plays, Some(3));
    assert!(f.playlists.is_empty());
    assert!(f.last_play.is_none());
}
