use std::collections::HashMap;
use kyoku::index::db::{
    art_file_name, art_name_for_digest, art_path, IndexAction, IndexEvent, Phase, SongIndexer,
};
use kyoku::index::metadata::{AudioMetadata, Picture};

fn metadata(artists: &[&str], picture: Option<Vec<u8>>) -> AudioMetadata {
    AudioMetadata {
        name: "Song".to_string(),
        number: 4,
        duration: 200,
        album: "Album".to_string(),
        album_artist: "Band".to_string(),
        artists: artists.iter().map(|s| s.to_string()).collect(),
        picture: picture.map(|bytes| Picture { bytes }),
        path: "/music/song.flac".to_string(),
        year: Some(2001),
        lossless: true,
    }
}

#[test]
fn art_file_name_is_the_md5_in_hex() {
    assert_eq!(art_file_name(b""), "d41d8cd98f00b204e9800998ecf8427e.png");
    assert_eq!(art_file_name(b"abc"), "900150983cd24fb0d6963f7d28e17f72.png");
    assert_eq!(art_name_for_digest(&[0xab, 0x01]), "ab01.png");
    assert_eq!(art_path("x.png"), "./art/x.png");
}

#[test]
fn known_artist_album_and_song_need_only_lookups() {
    let (mut ix, a) = SongIndexer::start(metadata(&["Band"], None));
    assert!(matches!(a, IndexAction::FindArtist { ref name } if name == "Band"));
    let a = ix.step(IndexEvent::Rows(vec![7, 8]));
    assert!(matches!(a, IndexAction::FindAlbum { ref name } if name == "Album"));
    let a = ix.step(IndexEvent::Rows(vec![3]));
    assert!(matches!(a, IndexAction::FindSong { ref name } if name == "Song"));
    let a = ix.step(IndexEvent::Rows(vec![11, 12]));
    assert!(matches!(a, IndexAction::Done { song: 11 }));
    assert_eq!(ix.phase(), Phase::Done);
    let a = ix.step(IndexEvent::Rows(vec![]));
    assert!(matches!(a, IndexAction::Done { song: 11 }));
}

#[test]
fn new_artist_album_and_song_are_inserted() {
    let (mut ix, a) = SongIndexer::start(metadata(&["A", "B"], Some(b"abc".to_vec())));
    assert!(matches!(a, IndexAction::FindArtist { ref name } if name == "A"));
    let a = ix.step(IndexEvent::Rows(vec![]));
    assert!(matches!(a, IndexAction::FetchArtistInfo { ref album_artist } if album_artist == "Band"));
    let a = ix.step(IndexEvent::ArtistInfo {
        bio: "bio".to_string(),
        tags: vec!["rock".to_string(), "pop".to_string()],
    });
    assert!(matches!(a, IndexAction::FetchArtistImage { ref name } if name == "A"));
    let a = ix.step(IndexEvent::ArtistImage("https://img/a.jpg".to_string()));
    match a {
        IndexAction::InsertArtist { name, bio, picture, tags } => {
            assert_eq!(name, "A");
            assert_eq!(bio, "bio");
            assert_eq!(picture, "https://img/a.jpg");
            assert_eq!(tags, "rock,pop");
        }
        other => panic!("unexpected {:?}", other),
    }
    let a = ix.step(IndexEvent::Rows(vec![21]));
    assert!(matches!(a, IndexAction::FindArtist { ref name } if name == "B"));
    let a = ix.step(IndexEvent::Rows(vec![22]));
    assert!(matches!(a, IndexAction::FindAlbum { .. }));
    let a = ix.step(IndexEvent::Rows(vec![]));
    match a {
        IndexAction::SaveArt { dest, bytes } => {
            assert_eq!(dest, "./art/900150983cd24fb0d6963f7d28e17f72.png");
            assert_eq!(bytes, b"abc".to_vec());
        }
        other => panic!("unexpected {:?}", other),
    }
    let a = ix.step(IndexEvent::ArtSaved(true));
    match a {
        IndexAction::InsertAlbum { name, artist, picture, year } => {
            assert_eq!(name, "Album");
            assert_eq!(artist, 21);
            assert_eq!(picture, "900150983cd24fb0d6963f7d28e17f72.png");
            assert_eq!(year, Some(2001));
        }
        other => panic!("unexpected {:?}", other),
    }
    let a = ix.step(IndexEvent::Rows(vec![5]));
    assert!(matches!(a, IndexAction::FindSong { .. }));
    let a = ix.step(IndexEvent::Rows(vec![]));
    assert!(matches!(a, IndexAction::FindSongArtist { ref name } if name == "Band"));
    let a = ix.step(IndexEvent::Rows(vec![99]));
    match a {
        IndexAction::InsertSong(row) => {
            assert_eq!(row.number, 4);
            assert_eq!(row.name, "Song");
            assert_eq!(row.path, "/music/song.flac");
            assert_eq!(row.album, 5);
            assert_eq!(row.artist, 99);
            assert!(!row.liked);
            assert_eq!(row.duration, 200);
            assert_eq!(row.plays, 0);
            assert!(row.lossless);
            assert_eq!(row.genre, 1);
        }
        other => panic!("unexpected {:?}", other),
    }
    let a = ix.step(IndexEvent::Rows(vec![1000]));
    assert!(matches!(a, IndexAction::Done { song: 1000 }));
}

#[test]
fn album_pictures_fall_back_to_placeholders() {
    let (mut ix, _) = SongIndexer::start(metadata(&["A"], None));
    ix.step(IndexEvent::Rows(vec![1]));
    let a = ix.step(IndexEvent::Rows(vec![]));
    assert!(matches!(a, IndexAction::InsertAlbum { ref picture, .. } if picture == "https://http.cat/404"));

    let (mut ix, _) = SongIndexer::start(metadata(&["A"], Some(vec![1])));
    ix.step(IndexEvent::Rows(vec![1]));
    ix.step(IndexEvent::Rows(vec![]));
    let a = ix.step(IndexEvent::ArtSaved(false));
    assert!(matches!(a, IndexAction::InsertAlbum { ref picture, .. } if picture == "https://http.cat/450"));
}

#[test]
fn a_new_album_without_artists_aborts() {
    let (mut ix, a) = SongIndexer::start(metadata(&[], None));
    assert!(matches!(a, IndexAction::FindAlbum { .. }));
    let a = ix.step(IndexEvent::Rows(vec![]));
    assert!(matches!(a, IndexAction::Abort { ref reason } if reason == "the album has no artist"));
    assert_eq!(ix.phase(), Phase::Aborted);
}

#[test]
fn failures_and_odd_answers_abort() {
    let (mut ix, _) = SongIndexer::start(metadata(&["A"], None));
    let a = ix.step(IndexEvent::Failed("connection refused".to_string()));
    assert!(matches!(a, IndexAction::Abort { ref reason } if reason == "connection refused"));
    let a = ix.step(IndexEvent::Rows(vec![1]));
    assert!(matches!(a, IndexAction::Abort { ref reason } if reason == "connection refused"));

    let (mut ix, _) = SongIndexer::start(metadata(&["A"], None));
    let a = ix.step(IndexEvent::ArtSaved(true));
    assert!(matches!(a, IndexAction::Abort { ref reason } if reason == "unexpected answer"));

    let (mut ix, _) = SongIndexer::start(metadata(&["A"], None));
    ix.step(IndexEvent::Rows(vec![]));
    ix.step(IndexEvent::ArtistInfo { bio: String::new(), tags: vec![] });
    ix.step(IndexEvent::ArtistImage(String::new()));
    let a = ix.step(IndexEvent::Rows(vec![]));
    assert!(matches!(a, IndexAction::Abort { ref reason } if reason == "no row came back"));
}

#[test]
fn every_run_ends_within_the_bound() {
    // Answer every lookup with "not found" and every insert with a row: the
    // longest run for two artists.
    let (mut ix, mut a) = SongIndexer::start(metadata(&["A", "B"], Some(vec![1])));
    let mut answers = 0;
    loop {
        let e = match a {
            IndexAction::FindArtist { .. } | IndexAction::FindAlbum { .. } | IndexAction::FindSong { .. } => IndexEvent::Rows(vec![]),
            IndexAction::FetchArtistInfo { .. } => IndexEvent::ArtistInfo { bio: String::new(), tags: vec![] },
            IndexAction::FetchArtistImage { .. } => IndexEvent::ArtistImage(String::new()),
            IndexAction::SaveArt { .. } => IndexEvent::ArtSaved(true),
            IndexAction::InsertArtist { .. } | IndexAction::InsertAlbum { .. } | IndexAction::FindSongArtist { .. } | IndexAction::InsertSong(_) => IndexEvent::Rows(vec![1]),
            IndexAction::Done { .. } | IndexAction::Abort { .. } => break,
        };
        a = ix.step(e);
        answers += 1;
    }
    assert_eq!(ix.phase(), Phase::Done);
    assert!(answers <= 4 * 2 + 7);
}

#[test]
fn adding_a_song_twice_only_looks_up_the_second_time() {
    // A small database: names to the ids that lookups return first.
    let mut artists: HashMap<String, i32> = HashMap::new();
    let mut albums: HashMap<String, i32> = HashMap::new();
    let mut songs: HashMap<String, i32> = HashMap::new();
    let mut next_id = 100;
    let m = || metadata(&["Band", "B", "Band"], Some(vec![1, 2]));
    let mut runs = Vec::new();
    for _ in 0..2 {
        let (mut ix, mut a) = SongIndexer::start(m());
        let mut inserts = 0;
        let mut current = String::new();
        let done = loop {
            let e = match &a {
                IndexAction::FindArtist { name } => {
                    current = name.clone();
                    IndexEvent::Rows(artists.get(name).copied().into_iter().collect())
                }
                IndexAction::FetchArtistInfo { .. } => IndexEvent::ArtistInfo { bio: String::new(), tags: vec![] },
                IndexAction::FetchArtistImage { .. } => IndexEvent::ArtistImage(String::new()),
                IndexAction::InsertArtist { .. } => {
                    inserts += 1;
                    next_id += 1;
                    artists.insert(current.clone(), next_id);
                    IndexEvent::Rows(vec![next_id])
                }
                IndexAction::FindAlbum { name } => IndexEvent::Rows(albums.get(name).copied().into_iter().collect()),
                IndexAction::SaveArt { .. } => IndexEvent::ArtSaved(true),
                IndexAction::InsertAlbum { name, .. } => {
                    inserts += 1;
                    next_id += 1;
                    albums.insert(name.clone(), next_id);
                    IndexEvent::Rows(vec![next_id])
                }
                IndexAction::FindSong { name } => IndexEvent::Rows(songs.get(name).copied().into_iter().collect()),
                IndexAction::FindSongArtist { name } => match artists.get(name) {
                    Some(id) => IndexEvent::Rows(vec![*id]),
                    None => IndexEvent::Failed("no rows".to_string()),
                },
                IndexAction::InsertSong(row) => {
                    inserts += 1;
                    next_id += 1;
                    songs.insert(row.name.clone(), next_id);
                    IndexEvent::Rows(vec![next_id])
                }
                IndexAction::Done { song } => break *song,
                IndexAction::Abort { reason } => panic!("{}", reason),
            };
            a = ix.step(e);
        };
        runs.push((done, inserts));
    }
    // first run: two artists, the album and the song are inserted
    assert_eq!(runs[0].1, 4);
    assert_eq!(runs[0].0, runs[1].0);
    assert_eq!(runs[1].1, 0);
}
