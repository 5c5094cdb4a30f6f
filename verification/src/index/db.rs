//! The decisions of adding one song to the database.
//!
//! Adding a song is a conversation with the database and with outside
//! services: for each of the song's artists, find its row or fetch its
//! biography and image and insert one; then find the album or save its cover
//! art and insert it; then find the song or insert it. `SongIndexer` holds the
//! state of that conversation: each answer (`IndexEvent`) moves it on, and it
//! says what to do next (`IndexAction`). Performing the actions is the
//! caller's part.
use vstd::prelude::*;
use md5::{Digest, Md5};
use crate::index::metadata::AudioMetadata;
use crate::text::{hex_lower, lemma_hex_lower_len, hex_string, join_strings, join_with, views};

verus! {

// ---------------------------------------------------------------------------
// Cover art file names.

/// What `Md5::digest` returns for the bytes: their MD5 digest.
pub uninterp spec fn md5_digest_of(bytes: Seq<u8>) -> Seq<u8>;

/// `Md5::digest` of the md-5 crate: the MD5 digest of the bytes, which is 16
/// bytes long. The contract names the digest and states its length, nothing
/// more.
#[verifier::external_body]
fn md5_digest(bytes: &[u8]) -> (r: Vec<u8>)
    ensures
        r@ == md5_digest_of(bytes@),
        r@.len() == 16,
{
    Md5::digest(bytes).to_vec()
}

/// The name under which cover art with the given digest is saved:
/// the digest in lowercase hexadecimal, then `.png`.
pub open spec fn art_name_of_digest(digest: Seq<u8>) -> Seq<char> {
    hex_lower(digest) + ".png"@
}

/// The name under which the cover art `bytes` is saved.
pub open spec fn art_name_of(bytes: Seq<u8>) -> Seq<char> {
    art_name_of_digest(md5_digest_of(bytes))
}

/// The directory, relative to the working directory, where cover art is saved.
pub open spec fn art_dir() -> Seq<char> {
    "./art/"@
}

/// The name under which cover art with the given digest is saved.
pub fn art_name_for_digest(digest: &[u8]) -> (r: String)
    ensures
        r@ == art_name_of_digest(digest@),
{
    let mut name = hex_string(digest);
    name.append(".png");
    name
}

/// The name under which the cover art `bytes` is saved: the MD5 digest of the
/// bytes in lowercase hexadecimal, then `.png`.
pub fn art_file_name(bytes: &[u8]) -> (r: String)
    ensures
        r@ == art_name_of(bytes@),
        r@.len() == 36,
{
    let digest = md5_digest(bytes);
    let name = art_name_for_digest(digest.as_slice());
    proof {
        reveal_strlit(".png");
        lemma_hex_lower_len(digest@);
    }
    name
}

/// The path where cover art of the given name is written.
pub fn art_path(name: &str) -> (r: String)
    ensures
        r@ == art_dir() + name@,
{
    let mut path = String::from_str("./art/");
    path.append(name);
    path
}

// ---------------------------------------------------------------------------
// The conversation.

/// Where a song's indexing stands.
#[derive(Debug, Clone, Copy, PartialEq, Eq, Structural)]
pub enum Phase {
    /// Looking up the current artist by name.
    FindingArtist,
    /// Fetching the biography and tags of the album artist, for a new artist.
    FetchingArtistInfo,
    /// Fetching the image of the current artist.
    FetchingArtistImage,
    /// Inserting the current artist.
    InsertingArtist,
    /// Looking up the album by name.
    FindingAlbum,
    /// Writing the album's cover art to a file.
    SavingArt,
    /// Inserting the album.
    InsertingAlbum,
    /// Looking up the song by name.
    FindingSong,
    /// Looking up the id of the song's album artist.
    FindingSongArtist,
    /// Inserting the song.
    InsertingSong,
    /// The song is in the database.
    Done,
    /// Indexing stopped: the run fails.
    Aborted,
}

/// The values of a new song row.
#[derive(Debug, Clone)]
pub struct NewSong {
    pub number: i32,
    pub name: String,
    pub path: String,
    pub album: i32,
    pub artist: i32,
    pub liked: bool,
    pub duration: i32,
    pub plays: i32,
    pub lossless: bool,
    pub genre: i32,
}

/// An answer to the last action.
#[derive(Debug)]
pub enum IndexEvent {
    /// The ids that a lookup or an insert returned, in order.
    Rows(Vec<i32>),
    /// The album artist's biography and tags.
    ArtistInfo { bio: String, tags: Vec<String> },
    /// The URL of the artist's image.
    ArtistImage(String),
    /// Whether the cover art file was written.
    ArtSaved(bool),
    /// The action failed, with this message.
    Failed(String),
}

/// An answer, as values.
pub enum EventView {
    Rows(Seq<i32>),
    ArtistInfo { bio: Seq<char>, tags: Seq<Seq<char>> },
    ArtistImage(Seq<char>),
    ArtSaved(bool),
    Failed(Seq<char>),
}

impl View for IndexEvent {
    type V = EventView;

    open spec fn view(&self) -> EventView {
        match self {
            IndexEvent::Rows(ids) => EventView::Rows(ids@),
            IndexEvent::ArtistInfo { bio, tags } => EventView::ArtistInfo {
                bio: bio@,
                tags: views(tags@),
            },
            IndexEvent::ArtistImage(url) => EventView::ArtistImage(url@),
            IndexEvent::ArtSaved(ok) => EventView::ArtSaved(*ok),
            IndexEvent::Failed(msg) => EventView::Failed(msg@),
        }
    }
}

/// What to do next.
#[derive(Debug)]
pub enum IndexAction {
    /// Select the ids of the artists with this name.
    FindArtist { name: String },
    /// Fetch the biography and tags of this artist.
    FetchArtistInfo { album_artist: String },
    /// Fetch the image URL of this artist.
    FetchArtistImage { name: String },
    /// Insert an artist and return its id.
    InsertArtist { name: String, bio: String, picture: String, tags: String },
    /// Select the ids of the albums with this name.
    FindAlbum { name: String },
    /// Write the bytes to the file at `dest`.
    SaveArt { dest: String, bytes: Vec<u8> },
    /// Insert an album and return its id.
    InsertAlbum { name: String, artist: i32, picture: String, year: Option<i32> },
    /// Select the ids of the songs with this name.
    FindSong { name: String },
    /// Select the id of the one artist with this name.
    FindSongArtist { name: String },
    /// Insert the song and return its id.
    InsertSong(NewSong),
    /// Nothing is left to do: the song is in the database under `song`.
    Done { song: i32 },
    /// Stop: indexing this song fails for this reason.
    Abort { reason: String },
}

/// The state of a song's indexing.
pub struct SongIndexer {
    metadata: AudioMetadata,
    phase: Phase,
    artist: usize,
    artist_ids: Vec<i32>,
    bio: String,
    tags: String,
    artist_image: String,
    art_name: String,
    picture: String,
    album_id: i32,
    song_artist: i32,
    song_id: i32,
    reason: String,
}

/// The state of a song's indexing, as values.
pub struct IndexerView {
    /// The song being indexed.
    pub metadata: AudioMetadata,
    pub phase: Phase,
    /// The index, among the song's artists, of the artist being handled.
    pub artist: nat,
    /// The ids found or made for the artists before `artist`.
    pub artist_ids: Seq<i32>,
    /// The fetched biography of the album artist.
    pub bio: Seq<char>,
    /// The fetched tags of the album artist, joined with commas.
    pub tags: Seq<char>,
    /// The fetched image URL of the current artist.
    pub artist_image: Seq<char>,
    /// The file name of the cover art being saved.
    pub art_name: Seq<char>,
    /// The picture that the album row gets.
    pub picture: Seq<char>,
    pub album_id: i32,
    /// The id of the song's album artist.
    pub song_artist: i32,
    /// The id of the song, found or inserted.
    pub song_id: i32,
    /// Why indexing stopped.
    pub reason: Seq<char>,
}

impl View for SongIndexer {
    type V = IndexerView;

    closed spec fn view(&self) -> IndexerView {
        IndexerView {
            metadata: self.metadata,
            phase: self.phase,
            artist: self.artist as nat,
            artist_ids: self.artist_ids@,
            bio: self.bio@,
            tags: self.tags@,
            artist_image: self.artist_image@,
            art_name: self.art_name@,
            picture: self.picture@,
            album_id: self.album_id,
            song_artist: self.song_artist,
            song_id: self.song_id,
            reason: self.reason@,
        }
    }
}

/// The picture of an album without cover art.
pub open spec fn missing_art_url() -> Seq<char> {
    "https://http.cat/404"@
}

/// The picture of an album whose cover art could not be saved.
pub open spec fn unsaved_art_url() -> Seq<char> {
    "https://http.cat/450"@
}

/// Why indexing stops where an insert returns no row.
pub open spec fn no_row_reason() -> Seq<char> {
    "no row came back"@
}

/// Why indexing stops where a new album has no artist.
pub open spec fn no_artist_reason() -> Seq<char> {
    "the album has no artist"@
}

/// Why indexing stops at an answer that does not fit the question.
pub open spec fn unexpected_reason() -> Seq<char> {
    "unexpected answer"@
}

/// Whether the phase handles one of the song's artists.
pub open spec fn is_artist_phase(p: Phase) -> bool {
    p == Phase::FindingArtist || p == Phase::FetchingArtistInfo || p == Phase::FetchingArtistImage
        || p == Phase::InsertingArtist
}

/// Whether the phase ends the conversation.
pub open spec fn is_final(p: Phase) -> bool {
    p == Phase::Done || p == Phase::Aborted
}

/// The invariant of the conversation: while artists are handled, one id is
/// known for each artist before the current one; after that, one for each
/// artist; cover art is saved only for a song with a picture; and an album is
/// inserted only with an artist id at hand.
pub open spec fn wf(s: IndexerView) -> bool {
    let n = s.metadata.artists@.len();
    &&& is_artist_phase(s.phase) ==> s.artist < n && s.artist_ids.len() == s.artist
    &&& !is_artist_phase(s.phase) && s.phase != Phase::Aborted ==> s.artist_ids.len() == n
    &&& s.phase == Phase::SavingArt ==> s.metadata.picture is Some
    &&& s.phase == Phase::InsertingAlbum ==> s.artist_ids.len() > 0
}

/// Where the conversation starts for a song.
pub open spec fn initial(m: AudioMetadata) -> IndexerView {
    IndexerView {
        metadata: m,
        phase: if m.artists@.len() > 0 {
            Phase::FindingArtist
        } else {
            Phase::FindingAlbum
        },
        artist: 0,
        artist_ids: Seq::empty(),
        bio: Seq::empty(),
        tags: Seq::empty(),
        artist_image: Seq::empty(),
        art_name: Seq::empty(),
        picture: Seq::empty(),
        album_id: 0,
        song_artist: 0,
        song_id: 0,
        reason: Seq::empty(),
    }
}

/// The conversation stopped for `reason`.
pub open spec fn aborted(s: IndexerView, reason: Seq<char>) -> IndexerView {
    IndexerView { phase: Phase::Aborted, reason: reason, ..s }
}

/// The current artist has the id `id`: on to the next artist, or to the album.
pub open spec fn after_artist(s: IndexerView, id: i32) -> IndexerView {
    let ids = s.artist_ids.push(id);
    if s.artist + 1 < s.metadata.artists@.len() {
        IndexerView { phase: Phase::FindingArtist, artist: s.artist + 1, artist_ids: ids, ..s }
    } else {
        IndexerView { phase: Phase::FindingAlbum, artist_ids: ids, ..s }
    }
}

/// The album row is to be inserted with `picture`, under the first artist.
pub open spec fn to_album_insert(s: IndexerView, picture: Seq<char>) -> IndexerView {
    if s.artist_ids.len() > 0 {
        IndexerView { phase: Phase::InsertingAlbum, picture: picture, ..s }
    } else {
        aborted(s, no_artist_reason())
    }
}

/// The state after the answer `e`.
pub open spec fn after(s: IndexerView, e: EventView) -> IndexerView {
    if is_final(s.phase) {
        s
    } else {
        match e {
            EventView::Failed(msg) => aborted(s, msg),
            EventView::Rows(ids) => {
                let found = ids.len() > 0;
                match s.phase {
                    Phase::FindingArtist => if found {
                        after_artist(s, ids[0])
                    } else {
                        IndexerView { phase: Phase::FetchingArtistInfo, ..s }
                    },
                    Phase::InsertingArtist => if found {
                        after_artist(s, ids[0])
                    } else {
                        aborted(s, no_row_reason())
                    },
                    Phase::FindingAlbum => if found {
                        IndexerView { phase: Phase::FindingSong, album_id: ids[0], ..s }
                    } else {
                        match s.metadata.picture {
                            Some(p) => IndexerView {
                                phase: Phase::SavingArt,
                                art_name: art_name_of(p.bytes@),
                                ..s
                            },
                            None => to_album_insert(s, missing_art_url()),
                        }
                    },
                    Phase::InsertingAlbum => if found {
                        IndexerView { phase: Phase::FindingSong, album_id: ids[0], ..s }
                    } else {
                        aborted(s, no_row_reason())
                    },
                    Phase::FindingSong => if found {
                        IndexerView { phase: Phase::Done, song_id: ids[0], ..s }
                    } else {
                        IndexerView { phase: Phase::FindingSongArtist, ..s }
                    },
                    Phase::FindingSongArtist => if found {
                        IndexerView { phase: Phase::InsertingSong, song_artist: ids[0], ..s }
                    } else {
                        aborted(s, no_row_reason())
                    },
                    Phase::InsertingSong => if found {
                        IndexerView { phase: Phase::Done, song_id: ids[0], ..s }
                    } else {
                        aborted(s, no_row_reason())
                    },
                    _ => aborted(s, unexpected_reason()),
                }
            },
            EventView::ArtistInfo { bio, tags } => if s.phase == Phase::FetchingArtistInfo {
                IndexerView {
                    phase: Phase::FetchingArtistImage,
                    bio: bio,
                    tags: join_with(tags, ","@),
                    ..s
                }
            } else {
                aborted(s, unexpected_reason())
            },
            EventView::ArtistImage(url) => if s.phase == Phase::FetchingArtistImage {
                IndexerView { phase: Phase::InsertingArtist, artist_image: url, ..s }
            } else {
                aborted(s, unexpected_reason())
            },
            EventView::ArtSaved(ok) => if s.phase == Phase::SavingArt {
                to_album_insert(s, if ok { s.art_name } else { unsaved_art_url() })
            } else {
                aborted(s, unexpected_reason())
            },
        }
    }
}

/// Whether `row` is the new song row for `m`, in the album `album` and by the
/// artist `artist`.
pub open spec fn song_row(row: NewSong, m: AudioMetadata, album: i32, artist: i32) -> bool {
    &&& row.number == m.number as i32
    &&& row.name@ == m.name@
    &&& row.path@ == m.path@
    &&& row.album == album
    &&& row.artist == artist
    &&& !row.liked
    &&& row.duration == m.duration as i32
    &&& row.plays == 0
    &&& row.lossless == m.lossless
    &&& row.genre == 1
}

/// Whether `a` is the action that the state `s` calls for.
pub open spec fn requests(s: IndexerView, a: IndexAction) -> bool {
    let m = s.metadata;
    match s.phase {
        Phase::FindingArtist => a matches IndexAction::FindArtist { name } && name@
            == m.artists@[s.artist as int]@,
        Phase::FetchingArtistInfo => a matches IndexAction::FetchArtistInfo { album_artist }
            && album_artist@ == m.album_artist@,
        Phase::FetchingArtistImage => a matches IndexAction::FetchArtistImage { name } && name@
            == m.artists@[s.artist as int]@,
        Phase::InsertingArtist => a matches IndexAction::InsertArtist { name, bio, picture, tags }
            && name@ == m.artists@[s.artist as int]@ && bio@ == s.bio && picture@
            == s.artist_image && tags@ == s.tags,
        Phase::FindingAlbum => a matches IndexAction::FindAlbum { name } && name@ == m.album@,
        Phase::SavingArt => a matches IndexAction::SaveArt { dest, bytes } && dest@ == art_dir()
            + s.art_name && bytes@ == m.picture->0.bytes@,
        Phase::InsertingAlbum => a matches IndexAction::InsertAlbum { name, artist, picture, year }
            && name@ == m.album@ && artist == s.artist_ids[0] && picture@ == s.picture && year
            == m.year,
        Phase::FindingSong => a matches IndexAction::FindSong { name } && name@ == m.name@,
        Phase::FindingSongArtist => a matches IndexAction::FindSongArtist { name } && name@
            == m.album_artist@,
        Phase::InsertingSong => a matches IndexAction::InsertSong(row) && song_row(
            row,
            m,
            s.album_id,
            s.song_artist,
        ),
        Phase::Done => a matches IndexAction::Done { song } && song == s.song_id,
        Phase::Aborted => a matches IndexAction::Abort { reason } && reason@ == s.reason,
    }
}

impl SongIndexer {
    /// Starts indexing `metadata`: the state, and the first action.
    pub fn start(metadata: AudioMetadata) -> (r: (SongIndexer, IndexAction))
        ensures
            r.0@ == initial(metadata),
            wf(r.0@),
            requests(r.0@, r.1),
    {
        let phase = if metadata.artists.len() > 0 {
            Phase::FindingArtist
        } else {
            Phase::FindingAlbum
        };
        let s = SongIndexer {
            metadata,
            phase,
            artist: 0,
            artist_ids: Vec::new(),
            bio: String::new(),
            tags: String::new(),
            artist_image: String::new(),
            art_name: String::new(),
            picture: String::new(),
            album_id: 0,
            song_artist: 0,
            song_id: 0,
            reason: String::new(),
        };
        proof {
            assert(s@.artist_ids =~= Seq::<i32>::empty());
        }
        let a = s.action();
        (s, a)
    }

    /// The phase of the conversation.
    pub fn phase(&self) -> (p: Phase)
        ensures
            p == self@.phase,
    {
        self.phase
    }

    /// The action that the current state calls for.
    pub fn action(&self) -> (a: IndexAction)
        requires
            wf(self@),
        ensures
            requests(self@, a),
    {
        let m = &self.metadata;
        match self.phase {
            Phase::FindingArtist => IndexAction::FindArtist { name: m.artists[self.artist].clone() },
            Phase::FetchingArtistInfo => IndexAction::FetchArtistInfo {
                album_artist: m.album_artist.clone(),
            },
            Phase::FetchingArtistImage => IndexAction::FetchArtistImage {
                name: m.artists[self.artist].clone(),
            },
            Phase::InsertingArtist => IndexAction::InsertArtist {
                name: m.artists[self.artist].clone(),
                bio: self.bio.clone(),
                picture: self.artist_image.clone(),
                tags: self.tags.clone(),
            },
            Phase::FindingAlbum => IndexAction::FindAlbum { name: m.album.clone() },
            Phase::SavingArt => {
                let bytes = match &m.picture {
                    Some(p) => crate::index::metadata::copy_bytes(&p.bytes),
                    None => Vec::new(),
                };
                IndexAction::SaveArt { dest: art_path(self.art_name.as_str()), bytes }
            },
            Phase::InsertingAlbum => IndexAction::InsertAlbum {
                name: m.album.clone(),
                artist: self.artist_ids[0],
                picture: self.picture.clone(),
                year: m.year,
            },
            Phase::FindingSong => IndexAction::FindSong { name: m.name.clone() },
            Phase::FindingSongArtist => IndexAction::FindSongArtist { name: m.album_artist.clone() },
            Phase::InsertingSong => IndexAction::InsertSong(
                NewSong {
                    number: m.number as i32,
                    name: m.name.clone(),
                    path: m.path.clone(),
                    album: self.album_id,
                    artist: self.song_artist,
                    liked: false,
                    duration: m.duration as i32,
                    plays: 0,
                    lossless: m.lossless,
                    genre: 1,
                },
            ),
            Phase::Done => IndexAction::Done { song: self.song_id },
            Phase::Aborted => IndexAction::Abort { reason: self.reason.clone() },
        }
    }

    fn abort(&mut self, reason: String)
        ensures
            final(self)@ == aborted(old(self)@, reason@),
    {
        self.phase = Phase::Aborted;
        self.reason = reason;
    }

    fn record_artist(&mut self, id: i32)
        requires
            is_artist_phase(old(self)@.phase),
            wf(old(self)@),
        ensures
            final(self)@ == after_artist(old(self)@, id),
    {
        let current = self.artist;
        let n = self.metadata.artists.len();
        assert(current < n);
        self.artist_ids.push(id);
        if current + 1 < n {
            self.artist = current + 1;
            self.phase = Phase::FindingArtist;
        } else {
            self.phase = Phase::FindingAlbum;
        }
    }

    fn insert_album_with(&mut self, picture: String)
        ensures
            final(self)@ == to_album_insert(old(self)@, picture@),
    {
        if self.artist_ids.len() > 0 {
            self.phase = Phase::InsertingAlbum;
            self.picture = picture;
        } else {
            self.abort(String::from_str("the album has no artist"));
        }
    }

    /// Takes the answer to the last action: the new state, and the next action.
    pub fn step(&mut self, event: IndexEvent) -> (a: IndexAction)
        requires
            wf(old(self)@),
        ensures
            final(self)@ == after(old(self)@, event@),
            wf(final(self)@),
            requests(final(self)@, a),
    {
        if self.phase == Phase::Done || self.phase == Phase::Aborted {
            return self.action();
        }
        match event {
            IndexEvent::Failed(msg) => self.abort(msg),
            IndexEvent::Rows(ids) => {
                let found = ids.len() > 0;
                match self.phase {
                    Phase::FindingArtist => {
                        if found {
                            self.record_artist(ids[0]);
                        } else {
                            self.phase = Phase::FetchingArtistInfo;
                        }
                    },
                    Phase::InsertingArtist => {
                        if found {
                            self.record_artist(ids[0]);
                        } else {
                            self.abort(String::from_str("no row came back"));
                        }
                    },
                    Phase::FindingAlbum => {
                        if found {
                            self.phase = Phase::FindingSong;
                            self.album_id = ids[0];
                        } else {
                            match &self.metadata.picture {
                                Some(p) => {
                                    let name = art_file_name(p.bytes.as_slice());
                                    self.art_name = name;
                                    self.phase = Phase::SavingArt;
                                },
                                None => {
                                    self.insert_album_with(String::from_str("https://http.cat/404"));
                                },
                            }
                        }
                    },
                    Phase::InsertingAlbum => {
                        if found {
                            self.phase = Phase::FindingSong;
                            self.album_id = ids[0];
                        } else {
                            self.abort(String::from_str("no row came back"));
                        }
                    },
                    Phase::FindingSong => {
                        if found {
                            self.phase = Phase::Done;
                            self.song_id = ids[0];
                        } else {
                            self.phase = Phase::FindingSongArtist;
                        }
                    },
                    Phase::FindingSongArtist => {
                        if found {
                            self.phase = Phase::InsertingSong;
                            self.song_artist = ids[0];
                        } else {
                            self.abort(String::from_str("no row came back"));
                        }
                    },
                    Phase::InsertingSong => {
                        if found {
                            self.phase = Phase::Done;
                            self.song_id = ids[0];
                        } else {
                            self.abort(String::from_str("no row came back"));
                        }
                    },
                    _ => self.abort(String::from_str("unexpected answer")),
                }
            },
            IndexEvent::ArtistInfo { bio, tags } => {
                if self.phase == Phase::FetchingArtistInfo {
                    self.tags = join_strings(&tags, ",");
                    self.bio = bio;
                    self.phase = Phase::FetchingArtistImage;
                } else {
                    self.abort(String::from_str("unexpected answer"));
                }
            },
            IndexEvent::ArtistImage(url) => {
                if self.phase == Phase::FetchingArtistImage {
                    self.artist_image = url;
                    self.phase = Phase::InsertingArtist;
                } else {
                    self.abort(String::from_str("unexpected answer"));
                }
            },
            IndexEvent::ArtSaved(ok) => {
                if self.phase == Phase::SavingArt {
                    let picture = if ok {
                        self.art_name.clone()
                    } else {
                        String::from_str("https://http.cat/450")
                    };
                    self.insert_album_with(picture);
                } else {
                    self.abort(String::from_str("unexpected answer"));
                }
            },
        }
        self.action()
    }
}


// ---------------------------------------------------------------------------
// Laws of the conversation.

/// How many answers, at most, the conversation still takes before it ends.
pub open spec fn answers_left(s: IndexerView) -> nat {
    let left = s.metadata.artists@.len() - s.artist;
    match s.phase {
        Phase::FindingArtist => (4 * left + 7) as nat,
        Phase::FetchingArtistInfo => (4 * left + 6) as nat,
        Phase::FetchingArtistImage => (4 * left + 5) as nat,
        Phase::InsertingArtist => (4 * left + 4) as nat,
        Phase::FindingAlbum => 7,
        Phase::SavingArt => 6,
        Phase::InsertingAlbum => 5,
        Phase::FindingSong => 4,
        Phase::FindingSongArtist => 3,
        Phase::InsertingSong => 2,
        Phase::Done => 0,
        Phase::Aborted => 0,
    }
}

/// Every answer keeps the invariant.
pub proof fn law_invariant_kept(s: IndexerView, e: EventView)
    requires
        wf(s),
    ensures
        wf(after(s, e)),
{
}

/// Every answer before the end brings the end closer: the conversation about a
/// song ends, with the song in the database or with a failure.
pub proof fn law_progress(s: IndexerView, e: EventView)
    requires
        wf(s),
        !is_final(s.phase),
    ensures
        answers_left(after(s, e)) < answers_left(s),
{
}

/// A song with `n` artists takes at most `4 n + 7` answers.
pub proof fn law_answers_bound(m: AudioMetadata)
    ensures
        wf(initial(m)),
        answers_left(initial(m)) <= 4 * m.artists@.len() + 7,
{
}

/// Once ended, the conversation stays where it is, whatever comes.
pub proof fn law_end_is_final(s: IndexerView, e: EventView)
    requires
        is_final(s.phase),
    ensures
        after(s, e) == s,
{
}

/// A failed action ends the conversation with the failure's message.
pub proof fn law_failure_aborts(s: IndexerView, msg: Seq<char>)
    requires
        !is_final(s.phase),
    ensures
        after(s, EventView::Failed(msg)) == aborted(s, msg),
        after(s, EventView::Failed(msg)).phase == Phase::Aborted,
{
}

/// From the album on, one artist id stands for each of the song's artists, in
/// order, and a new album goes in under the first of them.
pub proof fn law_album_under_first_artist(s: IndexerView, a: IndexAction)
    requires
        wf(s),
        !is_artist_phase(s.phase),
        s.phase != Phase::Aborted,
        requests(s, a),
    ensures
        s.artist_ids.len() == s.metadata.artists@.len(),
        a matches IndexAction::InsertAlbum { artist, .. } ==> artist == s.artist_ids[0],
{
}

// ---------------------------------------------------------------------------
// Runs against a database.
//
// A lookup by name in the database is modelled by a map from names to the
// first id that the lookup returns; an insert adds the name under a fresh id.
// The outside services answer with fixed values.

/// What the database holds, as far as indexing reads it: for each artist,
/// album and song name, the id that a lookup by that name returns first; and
/// the id that the next insert gets.
pub struct Catalog {
    pub artists: Map<Seq<char>, i32>,
    pub albums: Map<Seq<char>, i32>,
    pub songs: Map<Seq<char>, i32>,
    pub next_id: int,
}

/// What the outside services answer: the album artist's biography and tags,
/// the artist's image, and whether cover art is written.
pub struct Services {
    pub bio: Seq<char>,
    pub tags: Seq<Seq<char>>,
    pub image: Seq<char>,
    pub art_saved: bool,
}

/// The name of the artist being handled.
pub open spec fn artist_name(s: IndexerView) -> Seq<char> {
    s.metadata.artists@[s.artist as int]@
}

/// The id that the next insert gets.
pub open spec fn new_id(c: Catalog) -> i32 {
    c.next_id as i32
}

/// What a lookup of `name` returns.
pub open spec fn found(ids: Map<Seq<char>, i32>, name: Seq<char>) -> EventView {
    if ids.dom().contains(name) {
        EventView::Rows(seq![ids[name]])
    } else {
        EventView::Rows(Seq::empty())
    }
}

/// The answer to the action that `s` calls for.
pub open spec fn respond(c: Catalog, w: Services, s: IndexerView) -> EventView {
    let m = s.metadata;
    match s.phase {
        Phase::FindingArtist => found(c.artists, artist_name(s)),
        Phase::FetchingArtistInfo => EventView::ArtistInfo { bio: w.bio, tags: w.tags },
        Phase::FetchingArtistImage => EventView::ArtistImage(w.image),
        Phase::InsertingArtist => EventView::Rows(seq![new_id(c)]),
        Phase::FindingAlbum => found(c.albums, m.album@),
        Phase::SavingArt => EventView::ArtSaved(w.art_saved),
        Phase::InsertingAlbum => EventView::Rows(seq![new_id(c)]),
        Phase::FindingSong => found(c.songs, m.name@),
        Phase::FindingSongArtist => if c.artists.dom().contains(m.album_artist@) {
            EventView::Rows(seq![c.artists[m.album_artist@]])
        } else {
            EventView::Failed(no_row_reason())
        },
        Phase::InsertingSong => EventView::Rows(seq![new_id(c)]),
        _ => EventView::Rows(Seq::empty()),
    }
}

/// The database after the action that `s` calls for.
pub open spec fn apply(c: Catalog, s: IndexerView) -> Catalog {
    let m = s.metadata;
    match s.phase {
        Phase::InsertingArtist => Catalog {
            artists: c.artists.insert(artist_name(s), new_id(c)),
            next_id: c.next_id + 1,
            ..c
        },
        Phase::InsertingAlbum => Catalog {
            albums: c.albums.insert(m.album@, new_id(c)),
            next_id: c.next_id + 1,
            ..c
        },
        Phase::InsertingSong => Catalog {
            songs: c.songs.insert(m.name@, new_id(c)),
            next_id: c.next_id + 1,
            ..c
        },
        _ => c,
    }
}

/// The state and the database after at most `fuel` answers.
pub open spec fn run(c: Catalog, w: Services, s: IndexerView, fuel: nat) -> (IndexerView, Catalog)
    decreases fuel,
{
    if fuel == 0 || is_final(s.phase) {
        (s, c)
    } else {
        run(apply(c, s), w, after(s, respond(c, w, s)), (fuel - 1) as nat)
    }
}

/// Whether the phase only looks something up in the database.
pub open spec fn is_lookup(p: Phase) -> bool {
    p == Phase::FindingArtist || p == Phase::FindingAlbum || p == Phase::FindingSong
}

/// Whether every action of the run is a lookup: no insert, no outside call and
/// no file written.
pub open spec fn only_lookups(c: Catalog, w: Services, s: IndexerView, fuel: nat) -> bool
    decreases fuel,
{
    if fuel == 0 || is_final(s.phase) {
        true
    } else {
        is_lookup(s.phase) && only_lookups(
            apply(c, s),
            w,
            after(s, respond(c, w, s)),
            (fuel - 1) as nat,
        )
    }
}

/// Whether the database knows the song, its album and all its artists.
pub open spec fn knows_song(c: Catalog, m: AudioMetadata) -> bool {
    &&& forall|i: int| 0 <= i < m.artists@.len() ==> c.artists.dom().contains(#[trigger] m.artists@[i]@)
    &&& c.albums.dom().contains(m.album@)
    &&& c.songs.dom().contains(m.name@)
}

/// Whether the artist ids are those that the database holds for the artists.
pub open spec fn ids_match(c: Catalog, m: AudioMetadata, ids: Seq<i32>) -> bool {
    forall|i: int|
        0 <= i < ids.len() ==> #[trigger] ids[i] == c.artists[m.artists@[i]@] && c.artists.dom().contains(
            m.artists@[i]@,
        )
}

/// How many lookups are left in a run that finds everything.
pub open spec fn lookups_left(s: IndexerView) -> nat {
    match s.phase {
        Phase::FindingArtist => (s.metadata.artists@.len() - s.artist + 2) as nat,
        Phase::FindingAlbum => 2,
        _ => 1,
    }
}

proof fn lemma_lookup_run(c: Catalog, w: Services, s: IndexerView, fuel: nat)
    requires
        wf(s),
        is_lookup(s.phase),
        knows_song(c, s.metadata),
        ids_match(c, s.metadata, s.artist_ids),
        fuel >= lookups_left(s),
    ensures
        run(c, w, s, fuel).1 == c,
        run(c, w, s, fuel).0.phase == Phase::Done,
        run(c, w, s, fuel).0.metadata == s.metadata,
        run(c, w, s, fuel).0.song_id == c.songs[s.metadata.name@],
        s.phase != Phase::FindingSong ==> run(c, w, s, fuel).0.album_id == c.albums[s.metadata.album@],
        s.phase == Phase::FindingSong ==> run(c, w, s, fuel).0.album_id == s.album_id,
        run(c, w, s, fuel).0.artist_ids.len() == s.metadata.artists@.len(),
        ids_match(c, s.metadata, run(c, w, s, fuel).0.artist_ids),
        only_lookups(c, w, s, fuel),
    decreases fuel,
{
    let next = after(s, respond(c, w, s));
    let m = s.metadata;
    if s.phase == Phase::FindingArtist {
        assert(c.artists.dom().contains(m.artists@[s.artist as int]@));
        assert(next.artist_ids == s.artist_ids.push(c.artists[artist_name(s)]));
        assert(ids_match(c, m, next.artist_ids)) by {
            assert forall|i: int| 0 <= i < next.artist_ids.len() implies #[trigger] next.artist_ids[i]
                == c.artists[m.artists@[i]@] && c.artists.dom().contains(m.artists@[i]@) by {
                if i < s.artist_ids.len() {
                    assert(next.artist_ids[i] == s.artist_ids[i]);
                }
            }
        }
        lemma_lookup_run(c, w, next, (fuel - 1) as nat);
    } else if s.phase == Phase::FindingAlbum {
        lemma_lookup_run(c, w, next, (fuel - 1) as nat);
    } else {
        assert(next.phase == Phase::Done);
        assert(run(c, w, next, (fuel - 1) as nat) == (next, c));
        assert(only_lookups(c, w, next, (fuel - 1) as nat));
    }
}

/// A song that the database already holds, with its album and artists, takes
/// only lookups: one for each artist, one for the album and one for the song.
/// Nothing is inserted, no outside service is asked, no file is written, and
/// the ids are those that the lookups found.
pub proof fn law_known_song_needs_only_lookups(c: Catalog, w: Services, m: AudioMetadata)
    requires
        knows_song(c, m),
    ensures
        ({
            let (s, c2) = run(c, w, initial(m), (m.artists@.len() + 2) as nat);
            &&& c2 == c
            &&& s.phase == Phase::Done
            &&& s.song_id == c.songs[m.name@]
            &&& s.album_id == c.albums[m.album@]
            &&& s.artist_ids.len() == m.artists@.len()
            &&& ids_match(c, m, s.artist_ids)
        }),
        only_lookups(c, w, initial(m), (m.artists@.len() + 2) as nat),
{
    let s0 = initial(m);
    assert(ids_match(c, m, s0.artist_ids));
    lemma_lookup_run(c, w, s0, (m.artists@.len() + 2) as nat);
}

/// Whether `c` holds what `c0` held, with the same ids, and besides that only
/// names of the song, its album and its artists.
pub open spec fn grown(c0: Catalog, c: Catalog, m: AudioMetadata) -> bool {
    &&& forall|k: Seq<char>| #[trigger]
        c0.artists.dom().contains(k) ==> c.artists.dom().contains(k) && c.artists[k] == c0.artists[k]
    &&& forall|k: Seq<char>| #[trigger]
        c.artists.dom().contains(k) && !c0.artists.dom().contains(k) ==> exists|i: int|
            0 <= i < m.artists@.len() && #[trigger] m.artists@[i]@ == k
    &&& forall|k: Seq<char>| #[trigger]
        c0.albums.dom().contains(k) ==> c.albums.dom().contains(k) && c.albums[k] == c0.albums[k]
    &&& forall|k: Seq<char>| #[trigger]
        c.albums.dom().contains(k) && !c0.albums.dom().contains(k) ==> k == m.album@
    &&& forall|k: Seq<char>| #[trigger]
        c0.songs.dom().contains(k) ==> c.songs.dom().contains(k) && c.songs[k] == c0.songs[k]
    &&& forall|k: Seq<char>| #[trigger]
        c.songs.dom().contains(k) && !c0.songs.dom().contains(k) ==> k == m.name@
}

/// What a run keeps true of the database: it has grown from `c0` by the
/// song's names only, it holds the ids that the state has collected, and the
/// name being inserted is not in it yet.
pub open spec fn recorded(c0: Catalog, c: Catalog, s: IndexerView) -> bool {
    let m = s.metadata;
    let p = s.phase;
    &&& grown(c0, c, m)
    &&& wf(s)
    &&& p != Phase::Aborted ==> ids_match(c, m, s.artist_ids)
    &&& (p == Phase::FetchingArtistInfo || p == Phase::FetchingArtistImage || p
        == Phase::InsertingArtist) ==> !c.artists.dom().contains(artist_name(s))
    &&& (p == Phase::SavingArt || p == Phase::InsertingAlbum) ==> !c.albums.dom().contains(
        m.album@,
    )
    &&& (p == Phase::FindingSong || p == Phase::FindingSongArtist || p == Phase::InsertingSong || p
        == Phase::Done) ==> c.albums.dom().contains(m.album@) && c.albums[m.album@] == s.album_id
    &&& (p == Phase::FindingSongArtist || p == Phase::InsertingSong) ==> !c.songs.dom().contains(
        m.name@,
    )
    &&& p == Phase::Done ==> c.songs.dom().contains(m.name@) && c.songs[m.name@] == s.song_id
}

proof fn lemma_recorded_step(c0: Catalog, c: Catalog, w: Services, s: IndexerView)
    requires
        recorded(c0, c, s),
        !is_final(s.phase),
    ensures
        recorded(c0, apply(c, s), after(s, respond(c, w, s))),
        after(s, respond(c, w, s)).metadata == s.metadata,
{
    let m = s.metadata;
    let c2 = apply(c, s);
    let next = after(s, respond(c, w, s));
    law_invariant_kept(s, respond(c, w, s));
    if s.phase == Phase::InsertingArtist {
        let name = artist_name(s);
        assert(next.artist_ids == s.artist_ids.push(new_id(c)));
        assert forall|i: int| 0 <= i < next.artist_ids.len() implies #[trigger] next.artist_ids[i]
            == c2.artists[m.artists@[i]@] && c2.artists.dom().contains(m.artists@[i]@) by {
            if i < s.artist_ids.len() {
                assert(next.artist_ids[i] == s.artist_ids[i]);
                assert(c.artists.dom().contains(m.artists@[i]@));
            }
        }
        assert forall|k: Seq<char>| #[trigger]
            c2.artists.dom().contains(k) && !c0.artists.dom().contains(k) implies exists|i: int|
                0 <= i < m.artists@.len() && #[trigger] m.artists@[i]@ == k by {
            if k == name {
                assert(m.artists@[s.artist as int]@ == k);
            }
        }
    } else if s.phase == Phase::FindingArtist {
        let name = artist_name(s);
        if c.artists.dom().contains(name) {
            assert(next.artist_ids == s.artist_ids.push(c.artists[name]));
            assert forall|i: int| 0 <= i < next.artist_ids.len() implies #[trigger] next.artist_ids[i]
                == c2.artists[m.artists@[i]@] && c2.artists.dom().contains(m.artists@[i]@) by {
                if i < s.artist_ids.len() {
                    assert(next.artist_ids[i] == s.artist_ids[i]);
                }
            }
        }
    } else if s.phase == Phase::InsertingAlbum {
        assert forall|i: int| 0 <= i < next.artist_ids.len() implies #[trigger] next.artist_ids[i]
            == c2.artists[m.artists@[i]@] && c2.artists.dom().contains(m.artists@[i]@) by {
            assert(next.artist_ids[i] == s.artist_ids[i]);
        }
    } else if s.phase == Phase::InsertingSong {
        assert forall|i: int| 0 <= i < next.artist_ids.len() implies #[trigger] next.artist_ids[i]
            == c2.artists[m.artists@[i]@] && c2.artists.dom().contains(m.artists@[i]@) by {
            assert(next.artist_ids[i] == s.artist_ids[i]);
        }
    }
}

proof fn lemma_recorded_run(c0: Catalog, c: Catalog, w: Services, s: IndexerView, fuel: nat)
    requires
        recorded(c0, c, s),
    ensures
        recorded(c0, run(c, w, s, fuel).1, run(c, w, s, fuel).0),
        run(c, w, s, fuel).0.metadata == s.metadata,
    decreases fuel,
{
    if fuel > 0 && !is_final(s.phase) {
        lemma_recorded_step(c0, c, w, s);
        lemma_recorded_run(c0, apply(c, s), w, after(s, respond(c, w, s)), (fuel - 1) as nat);
    }
}

/// A run that adds a song leaves the database holding the song, its album and
/// each of its artists under the ids of the run; it adds rows only for those
/// names, at most one for each, and keeps every row it found; and artists of
/// the same name get the same id.
pub proof fn law_run_records_the_song(c0: Catalog, w: Services, m: AudioMetadata, fuel: nat)
    requires
        run(c0, w, initial(m), fuel).0.phase == Phase::Done,
    ensures
        ({
            let (s, c) = run(c0, w, initial(m), fuel);
            &&& knows_song(c, m)
            &&& s.artist_ids.len() == m.artists@.len()
            &&& ids_match(c, m, s.artist_ids)
            &&& c.albums[m.album@] == s.album_id
            &&& c.songs[m.name@] == s.song_id
            &&& grown(c0, c, m)
            &&& forall|i: int, j: int|
                0 <= i < m.artists@.len() && 0 <= j < m.artists@.len() && m.artists@[i]@
                    == m.artists@[j]@ ==> s.artist_ids[i] == s.artist_ids[j]
        }),
{
    let s0 = initial(m);
    assert(recorded(c0, c0, s0)) by {
        assert(ids_match(c0, m, s0.artist_ids));
    }
    lemma_recorded_run(c0, c0, w, s0, fuel);
    let (s, c) = run(c0, w, s0, fuel);
    assert forall|i: int| 0 <= i < m.artists@.len() implies c.artists.dom().contains(
        #[trigger] m.artists@[i]@,
    ) by {
        assert(s.artist_ids[i] == c.artists[m.artists@[i]@]);
    }
    assert forall|i: int, j: int|
        0 <= i < m.artists@.len() && 0 <= j < m.artists@.len() && m.artists@[i]@
            == m.artists@[j]@ implies s.artist_ids[i] == s.artist_ids[j] by {
        assert(s.artist_ids[i] == c.artists[m.artists@[i]@]);
        assert(s.artist_ids[j] == c.artists[m.artists@[j]@]);
    }
}

/// Adding a song a second time changes nothing: after a run that added it,
/// another run, whatever the outside services would answer, only looks up,
/// leaves the database as it is, and ends with the same song, album and
/// artist ids.
pub proof fn law_second_run_changes_nothing(
    c0: Catalog,
    w: Services,
    w2: Services,
    m: AudioMetadata,
    fuel: nat,
)
    requires
        run(c0, w, initial(m), fuel).0.phase == Phase::Done,
    ensures
        ({
            let (s1, c1) = run(c0, w, initial(m), fuel);
            let (s2, c2) = run(c1, w2, initial(m), (m.artists@.len() + 2) as nat);
            &&& c2 == c1
            &&& s2.phase == Phase::Done
            &&& s2.song_id == s1.song_id
            &&& s2.album_id == s1.album_id
            &&& s2.artist_ids == s1.artist_ids
            &&& only_lookups(c1, w2, initial(m), (m.artists@.len() + 2) as nat)
        }),
{
    law_run_records_the_song(c0, w, m, fuel);
    let (s1, c1) = run(c0, w, initial(m), fuel);
    law_known_song_needs_only_lookups(c1, w2, m);
    let (s2, c2) = run(c1, w2, initial(m), (m.artists@.len() + 2) as nat);
    assert(s2.artist_ids =~= s1.artist_ids) by {
        assert forall|i: int| 0 <= i < s2.artist_ids.len() implies s2.artist_ids[i]
            == s1.artist_ids[i] by {
            assert(s2.artist_ids[i] == c1.artists[m.artists@[i]@]);
            assert(s1.artist_ids[i] == c1.artists[m.artists@[i]@]);
        }
    }
}

/// Every action names the song, album or artist it is about: the lookups,
/// fetches and insert of an artist name the artist being handled, and the
/// inserted artist row is the one under which the database records the id it
/// supplies; the album's actions name the album and insert it under the first
/// artist's id; the song's actions name the song, and its row carries the
/// song's number, name, path and length with the album and album artist ids.
pub proof fn law_actions_name_their_subject(s: IndexerView, a: IndexAction, c: Catalog, id: i32)
    requires
        wf(s),
        requests(s, a),
    ensures
        s.phase == Phase::FindingArtist ==> (a matches IndexAction::FindArtist { name } && name@
            == s.metadata.artists@[s.artist as int]@),
        s.phase == Phase::FetchingArtistInfo ==> (a matches IndexAction::FetchArtistInfo {
            album_artist,
        } && album_artist@ == s.metadata.album_artist@),
        s.phase == Phase::FetchingArtistImage ==> (a matches IndexAction::FetchArtistImage { name }
            && name@ == s.metadata.artists@[s.artist as int]@),
        s.phase == Phase::InsertingArtist ==> (a matches IndexAction::InsertArtist {
            name,
            bio,
            picture,
            tags,
        } && bio@ == s.bio && picture@ == s.artist_image && tags@ == s.tags),
        s.phase == Phase::SavingArt ==> (a matches IndexAction::SaveArt { dest, bytes } && dest@
            == "./art/"@ + s.art_name && bytes@ == s.metadata.picture->0.bytes@),
        s.phase == Phase::InsertingAlbum ==> (a matches IndexAction::InsertAlbum {
            picture,
            year,
            ..
        } && picture@ == s.picture && year == s.metadata.year),
        s.phase == Phase::InsertingSong ==> (a matches IndexAction::InsertSong(row) && !row.liked
            && row.plays == 0 && row.genre == 1 && row.lossless == s.metadata.lossless),
        s.phase == Phase::Aborted ==> (a matches IndexAction::Abort { reason } && reason@
            == s.reason),
        s.phase == Phase::InsertingArtist ==> (a matches IndexAction::InsertArtist { name, .. }
            && name@ == s.metadata.artists@[s.artist as int]@ && apply(c, s).artists[name@]
            == new_id(c) && after(s, EventView::Rows(seq![id])).artist_ids[s.artist as int]
            == id),
        s.phase == Phase::FindingAlbum ==> (a matches IndexAction::FindAlbum { name } && name@
            == s.metadata.album@),
        s.phase == Phase::InsertingAlbum ==> (a matches IndexAction::InsertAlbum { name, artist, .. }
            && name@ == s.metadata.album@ && artist == s.artist_ids[0]),
        s.phase == Phase::FindingSong ==> (a matches IndexAction::FindSong { name } && name@
            == s.metadata.name@),
        s.phase == Phase::FindingSongArtist ==> (a matches IndexAction::FindSongArtist { name }
            && name@ == s.metadata.album_artist@),
        s.phase == Phase::InsertingSong ==> (a matches IndexAction::InsertSong(row) && row.name@
            == s.metadata.name@ && row.path@ == s.metadata.path@ && row.number
            == s.metadata.number as i32 && row.duration == s.metadata.duration as i32 && row.album
            == s.album_id && row.artist == s.song_artist),
        s.phase == Phase::Done ==> (a matches IndexAction::Done { song } && song == s.song_id),
{
    if s.phase == Phase::InsertingArtist {
        let next = after(s, EventView::Rows(seq![id]));
        assert(next.artist_ids == s.artist_ids.push(id));
    }
}

/// What each answer leaves in the state: the first id of a lookup or insert
/// is the one kept (for the artist, the album or the song); the album
/// artist's biography and its tags joined with commas are kept for the
/// artist row; a new album's picture is the saved cover's file name (the MD5
/// of the cover in hexadecimal, then `.png`), or `https://http.cat/450` where
/// the cover could not be saved, or `https://http.cat/404` where the song has
/// no cover; and a song found or inserted ends the conversation with its id.
pub proof fn law_answers_fill_the_state(s: IndexerView, ids: Seq<i32>, bio: Seq<char>, tags: Seq<Seq<char>>, ok: bool)
    requires
        wf(s),
    ensures
        ids.len() > 0 && s.phase == Phase::FindingArtist ==> after(s, EventView::Rows(ids)).artist_ids
            == s.artist_ids.push(ids[0]),
        ids.len() > 0 && (s.phase == Phase::FindingAlbum || s.phase == Phase::InsertingAlbum) ==> after(
            s,
            EventView::Rows(ids),
        ).album_id == ids[0] && after(s, EventView::Rows(ids)).phase == Phase::FindingSong,
        ids.len() > 0 && (s.phase == Phase::FindingSong || s.phase == Phase::InsertingSong) ==> after(
            s,
            EventView::Rows(ids),
        ).song_id == ids[0] && after(s, EventView::Rows(ids)).phase == Phase::Done,
        ids.len() > 0 && s.phase == Phase::FindingSongArtist ==> after(s, EventView::Rows(ids)).song_artist
            == ids[0],
        s.phase == Phase::FetchingArtistInfo ==> after(
            s,
            EventView::ArtistInfo { bio: bio, tags: tags },
        ).bio == bio && after(s, EventView::ArtistInfo { bio: bio, tags: tags }).tags == join_with(
            tags,
            seq![','],
        ),
        s.phase == Phase::FindingAlbum && s.metadata.picture is Some ==> after(
            s,
            EventView::Rows(Seq::empty()),
        ).art_name == hex_lower(md5_digest_of(s.metadata.picture->0.bytes@)) + seq![
            '.',
            'p',
            'n',
            'g',
        ],
        s.phase == Phase::FindingAlbum && s.metadata.picture is None && s.artist_ids.len() > 0
            ==> after(s, EventView::Rows(Seq::empty())).picture == "https://http.cat/404"@,
        s.phase == Phase::SavingArt && s.artist_ids.len() > 0 ==> after(
            s,
            EventView::ArtSaved(ok),
        ).picture == (if ok {
            s.art_name
        } else {
            "https://http.cat/450"@
        }),
{
    assert(","@ == seq![',']) by {
        reveal_strlit(",");
    }
    assert(".png"@ == seq!['.', 'p', 'n', 'g']) by {
        reveal_strlit(".png");
    }
}

} // verus!
