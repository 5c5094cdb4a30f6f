use kyoku::index::metadata::{
    audio_metadata, duration_string, format_of_extension, get_filetype, is_scannable,
    pad2_string, path_file_name, file_name_extension, track_summary_line, AudioFormat,
    FlacComments, FlacPicture, FlacStreamInfo, FlacTag, Picture, COVER_FRONT,
};
use kyoku::index::metadata::{copy_bytes, copy_strings, credited_artist_of, front_cover};
use std::path::Path;

fn strings(v: &[&str]) -> Vec<String> {
    v.iter().map(|s| s.to_string()).collect()
}

fn std_filetype(p: &str) -> Option<AudioFormat> {
    let ext = Path::new(p).extension()?.to_str()?;
    match ext.to_lowercase().as_str() {
        "flac" => Some(AudioFormat::FLAC),
        _ => None,
    }
}

#[test]
fn get_filetype_reads_the_extension_in_any_case() {
    assert_eq!(get_filetype("song.flac"), Some(AudioFormat::FLAC));
    assert_eq!(get_filetype("SONG.FLAC"), Some(AudioFormat::FLAC));
    assert_eq!(get_filetype("/music/a b/01 - x.FlAc"), Some(AudioFormat::FLAC));
    assert_eq!(get_filetype("album.flac/"), Some(AudioFormat::FLAC));
    assert_eq!(get_filetype("a.mp3"), None);
    assert_eq!(get_filetype("flac"), None);
    assert_eq!(get_filetype(".flac"), None);
    assert_eq!(get_filetype("a.flac/.."), None);
    assert_eq!(get_filetype("/"), None);
    assert_eq!(get_filetype(""), None);
}

#[test]
fn get_filetype_agrees_with_path_extension() {
    let cases = [
        "a.flac", "dir/b.FLAC", "dir/.flac", "dir/..", "dir/.", "./x.flac", "x.flac/.", "x.tar.flac",
        "x.flac.bak", "x.", "...", "..flac", "/", "//a.flac//", "a.flaC", "music/Ümlaut.FLAC",
        "a/b.c/d", "noext", "", ".", "..", "x.fla", "x.flacc",
    ];
    for p in cases {
        assert_eq!(get_filetype(p), std_filetype(p), "{:?}", p);
    }
}

#[test]
fn path_file_name_and_extension_follow_std() {
    for p in ["a/b.c", "a/b.c/", "a/..", ".", "/", "x", "a//b"] {
        let expected = Path::new(p).file_name().map(|n| n.to_str().unwrap().to_string());
        assert_eq!(path_file_name(p), expected, "{:?}", p);
    }
    assert_eq!(file_name_extension("b.tar.gz"), Some("gz".to_string()));
    assert_eq!(file_name_extension(".bashrc"), None);
    assert_eq!(file_name_extension("x."), Some("".to_string()));
    assert_eq!(file_name_extension("plain"), None);
}

#[test]
fn format_of_extension_knows_flac_only() {
    assert_eq!(format_of_extension("flac"), Some(AudioFormat::FLAC));
    assert_eq!(format_of_extension("FLAC"), None);
    assert_eq!(format_of_extension("mp3"), None);
}

#[test]
fn a_file_is_typed_by_its_name_in_any_folder() {
    for name in ["a.flac", "b.FLAC", "c.mp3", "d"] {
        assert_eq!(get_filetype(name), get_filetype(&format!("some/folder/{}", name)));
    }
}

fn tag() -> FlacTag {
    FlacTag {
        comments: Some(FlacComments {
            title: Some(strings(&["Song Title", "Other"])),
            track: Some(3),
            album: Some(strings(&["The Album"])),
            album_artist: None,
            artist: Some(strings(&["Artist A", "Artist B"])),
            date: Some(strings(&["2019"])),
        }),
        stream_info: Some(FlacStreamInfo { total_samples: 44100 * 125, sample_rate: 44100 }),
        pictures: vec![
            FlacPicture { picture_type: 4, data: vec![1, 2] },
            FlacPicture { picture_type: COVER_FRONT, data: vec![9, 8, 7] },
            FlacPicture { picture_type: COVER_FRONT, data: vec![5] },
        ],
    }
}

#[test]
fn audio_metadata_takes_the_first_values() {
    let t = tag();
    assert!(is_scannable(&t));
    let m = audio_metadata(&t, "/music/song.flac");
    assert_eq!(m.name, "Song Title");
    assert_eq!(m.number, 3);
    assert_eq!(m.duration, 125);
    assert_eq!(m.album, "The Album");
    assert_eq!(m.album_artist, "Artist A");
    assert_eq!(m.artists, strings(&["Artist A", "Artist B"]));
    assert_eq!(m.picture, Some(Picture { bytes: vec![9, 8, 7] }));
    assert_eq!(m.path, "/music/song.flac");
    assert_eq!(m.year, Some(2019));
    assert!(m.lossless);
}

#[test]
fn audio_metadata_prefers_the_album_artist_and_reads_odd_dates() {
    let mut t = tag();
    let c = t.comments.as_mut().unwrap();
    c.album_artist = Some(strings(&["Various"]));
    c.date = Some(strings(&["2019-05-01"]));
    t.pictures.clear();
    let m = audio_metadata(&t, "x.flac");
    assert_eq!(m.album_artist, "Various");
    assert_eq!(m.year, None);
    assert_eq!(m.picture, None);
}

#[test]
fn stream_length_truncates_the_sample_count_to_32_bits() {
    let mut t = tag();
    t.stream_info = Some(FlacStreamInfo { total_samples: (1u64 << 32) + 100, sample_rate: 10 });
    assert_eq!(audio_metadata(&t, "x.flac").duration, 10);
}

#[test]
fn is_scannable_rejects_incomplete_tags() {
    let mut t = tag();
    t.stream_info = None;
    assert!(!is_scannable(&t));
    let mut t = tag();
    t.stream_info = Some(FlacStreamInfo { total_samples: 10, sample_rate: 0 });
    assert!(!is_scannable(&t));
    let mut t = tag();
    t.comments.as_mut().unwrap().title = Some(vec![]);
    assert!(!is_scannable(&t));
    let mut t = tag();
    t.comments.as_mut().unwrap().track = None;
    assert!(!is_scannable(&t));
    let mut t = tag();
    t.comments.as_mut().unwrap().artist = None;
    t.comments.as_mut().unwrap().album_artist = Some(strings(&["X"]));
    assert!(!is_scannable(&t));
    let mut t = tag();
    t.comments.as_mut().unwrap().date = Some(vec![]);
    assert!(!is_scannable(&t));
    let mut t = tag();
    t.comments = None;
    assert!(!is_scannable(&t));
}

#[test]
fn durations_read_as_minutes_and_seconds() {
    assert_eq!(duration_string(0), "0:00");
    assert_eq!(duration_string(59), "0:59");
    assert_eq!(duration_string(61), "1:01");
    assert_eq!(duration_string(3599), "59:59");
    assert_eq!(duration_string(3600), "1:60:00");
    assert_eq!(duration_string(3725), "1:62:05");
    assert_eq!(duration_string(36000), "10:600:00");
    assert_eq!(pad2_string(5), "05");
    assert_eq!(pad2_string(123), "123");
}

#[test]
fn track_summary_line_reports_the_track() {
    assert_eq!(track_summary_line(&tag()), "3. Song Title by Artist A (2:05)");
}

#[test]
fn the_summary_names_what_the_metadata_records() {
    let t = tag();
    let m = audio_metadata(&t, "x.flac");
    let expected = format!("{}. {} by {} ({})", m.number, m.name, m.album_artist, duration_string(m.duration));
    assert_eq!(track_summary_line(&t), expected);
}

#[test]
fn front_cover_and_credits() {
    let t = tag();
    assert_eq!(front_cover(&t.pictures), Some(Picture { bytes: vec![9, 8, 7] }));
    assert_eq!(front_cover(&vec![FlacPicture { picture_type: 0, data: vec![1] }]), None);
    let c = t.comments.unwrap();
    assert_eq!(credited_artist_of(&c), "Artist A");
    assert_eq!(copy_strings(&strings(&["x", "y"])), strings(&["x", "y"]));
    assert_eq!(copy_bytes(&vec![1, 2, 3]), vec![1, 2, 3]);
}
