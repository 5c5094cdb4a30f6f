//! Audio file metadata: which files are indexed, and what a FLAC file's tag
//! contributes to the index.
use vstd::prelude::*;
use crate::text::{
    lemma_split_append, all_digits, digit_char, digit_value, digits_value, is_digit, lemma_decimal, lemma_split_after_sep, lemma_split_without_sep, chars_of, decimal, decimal_string, parse_i32, parsed_i32, split_at_char, split_on, views,
};

verus! {

/// The audio formats that the indexer reads.
#[derive(Debug, PartialEq, Eq, Structural)]
pub enum AudioFormat {
    FLAC,
}

/// What the index records of one audio file.
#[derive(Debug, PartialEq, Clone)]
pub struct AudioMetadata {
    pub name: String,
    pub number: u32,
    pub duration: u32,
    pub album: String,
    pub album_artist: String,
    pub artists: Vec<String>,
    pub picture: Option<Picture>,
    /// The file's path, as text.
    pub path: String,
    pub year: Option<i32>,
    pub lossless: bool,
}

/// An embedded cover picture.
#[derive(Debug, PartialEq, Clone)]
pub struct Picture {
    pub bytes: Vec<u8>,
}

// ---------------------------------------------------------------------------
// File type, from the path's extension (Unix path syntax).

/// The last component of the segments that is a name: empty segments and `.`
/// are skipped, and a final `..` has no name.
pub open spec fn last_normal(segs: Seq<Seq<char>>) -> Option<Seq<char>>
    decreases segs.len(),
{
    if segs.len() == 0 {
        None
    } else if segs.last() == Seq::<char>::empty() || segs.last() == seq!['.'] {
        last_normal(segs.drop_last())
    } else if segs.last() == seq!['.', '.'] {
        None
    } else {
        Some(segs.last())
    }
}

/// The final component of a path, as `Path::file_name` gives it.
pub open spec fn file_name(path: Seq<char>) -> Option<Seq<char>> {
    last_normal(split_on(path, '/'))
}

/// The index of the last `.` of `name`, or -1 where there is none.
pub open spec fn last_dot(name: Seq<char>) -> int
    decreases name.len(),
{
    if name.len() == 0 {
        -1
    } else if name.last() == '.' {
        name.len() - 1
    } else {
        last_dot(name.drop_last())
    }
}

/// The extension of a file name: what follows its last `.`, where that `.` is
/// not the name's first character.
pub open spec fn name_extension(name: Seq<char>) -> Option<Seq<char>> {
    let k = last_dot(name);
    if k > 0 {
        Some(name.subrange(k + 1, name.len() as int))
    } else {
        None
    }
}

/// The extension of a path, as `Path::extension` gives it.
pub open spec fn path_extension(path: Seq<char>) -> Option<Seq<char>> {
    match file_name(path) {
        Some(name) => name_extension(name),
        None => None,
    }
}

/// What `str::to_lowercase` returns for a string: its lowercase equivalent in
/// the sense of Unicode.
pub uninterp spec fn unicode_lowercase(s: Seq<char>) -> Seq<char>;

/// `str::to_lowercase`: the lowercase equivalent of `s`. The contract names the
/// result and says nothing more of it.
#[verifier::external_body]
fn to_lowercase(s: &str) -> (r: String)
    ensures
        r@ == unicode_lowercase(s@),
{
    s.to_lowercase()
}

/// The format that a lowercase extension stands for.
pub open spec fn format_of(lower_extension: Seq<char>) -> Option<AudioFormat> {
    if lower_extension == seq!['f', 'l', 'a', 'c'] {
        Some(AudioFormat::FLAC)
    } else {
        None
    }
}

/// The format that a lowercase extension stands for.
pub fn format_of_extension(lower_extension: &str) -> (r: Option<AudioFormat>)
    ensures
        r == format_of(lower_extension@),
{
    let cs = chars_of(lower_extension);
    if cs.len() == 4 && cs[0] == 'f' && cs[1] == 'l' && cs[2] == 'a' && cs[3] == 'c' {
        assert(cs@ =~= seq!['f', 'l', 'a', 'c']);
        Some(AudioFormat::FLAC)
    } else {
        None
    }
}

/// `k` dots.
pub open spec fn dots(k: nat) -> Seq<char> {
    Seq::new(k, |_i: int| '.')
}

/// Whether `s` is exactly `k` dots.
fn is_dots(s: &String, k: usize) -> (r: bool)
    ensures
        r == (s@ == dots(k as nat)),
{
    let n = s.as_str().unicode_len();
    if n != k {
        return false;
    }
    let mut i: usize = 0;
    while i < n
        invariant
            n == s@.len(),
            n == k,
            i <= n,
            forall|j: int| 0 <= j < i ==> s@[j] == '.',
        decreases n - i,
    {
        if s.as_str().get_char(i) != '.' {
            assert(s@ != dots(k as nat) ) by {
                assert(dots(k as nat)[i as int] == '.');
            }
            return false;
        }
        i += 1;
    }
    assert(s@ =~= dots(k as nat));
    true
}

/// The file name of `path`, as `Path::file_name` gives it.
pub fn path_file_name(path: &str) -> (r: Option<String>)
    ensures
        match r {
            Some(name) => file_name(path@) == Some(name@),
            None => file_name(path@) is None,
        },
{
    let segs = split_at_char(path, '/');
    let ghost all = views(segs@);
    let mut k = segs.len();
    assert(all.take(k as int) =~= all);
    while k > 0
        invariant
            all == split_on(path@, '/'),
            k <= segs@.len(),
            all == views(segs@),
            all.len() == segs@.len(),
            last_normal(all) == last_normal(all.take(k as int)),
        decreases k,
    {
        let seg = &segs[k - 1];
        let ghost part = all.take(k as int);
        proof {
            assert(part.last() == seg@);
            assert(part.drop_last() =~= all.take(k - 1));
        }
        proof {
            assert(dots(0) =~= Seq::<char>::empty());
            assert(dots(1) =~= seq!['.']);
            assert(dots(2) =~= seq!['.', '.']);
        }
        let empty = is_dots(seg, 0);
        let dot = is_dots(seg, 1);
        if empty || dot {
            k -= 1;
        } else if is_dots(seg, 2) {
            return None;
        } else {
            return Some(seg.clone());
        }
    }
    proof {
        assert(all.take(0) =~= Seq::<Seq<char>>::empty());
        assert(all =~= split_on(path@, '/'));
    }
    None
}

/// The extension of a file name: what follows its last `.`, unless that `.`
/// begins the name.
pub fn file_name_extension(name: &str) -> (r: Option<String>)
    ensures
        match r {
            Some(e) => name_extension(name@) == Some(e@),
            None => name_extension(name@) is None,
        },
{
    let cs = chars_of(name);
    let n = cs.len();
    let mut k = n;
    assert(name@.take(k as int) =~= name@);
    while k > 0
        invariant
            cs@ == name@,
            k <= n == cs@.len(),
            last_dot(name@) == last_dot(name@.take(k as int)),
        decreases k,
    {
        proof {
            assert(name@.take(k as int).drop_last() =~= name@.take(k - 1));
        }
        if cs[k - 1] == '.' {
            if k - 1 > 0 {
                return Some(String::from_str(name.substring_char(k, n)));
            } else {
                return None;
            }
        }
        k -= 1;
    }
    proof {
        assert(name@.take(0) =~= Seq::<char>::empty());
        assert(name@.take(n as int) =~= name@);
    }
    None
}

/// The format of the audio file at `path`, told by the path's extension in any
/// letter case (Unix path syntax; the path is given as text).
pub fn get_filetype(path: &str) -> (r: Option<AudioFormat>)
    ensures
        r == match path_extension(path@) {
            Some(e) => format_of(unicode_lowercase(e)),
            None => None,
        },
{
    let name = match path_file_name(path) {
        Some(name) => name,
        None => return None,
    };
    let extension = match file_name_extension(name.as_str()) {
        Some(e) => e,
        None => return None,
    };
    let lower = to_lowercase(extension.as_str());
    format_of_extension(lower.as_str())
}


/// Whether `name` can stand as the last component of a path: not empty, not
/// `.` or `..`, and without `/`.
pub open spec fn is_plain_name(name: Seq<char>) -> bool {
    &&& name.len() > 0
    &&& name != seq!['.']
    &&& name != seq!['.', '.']
    &&& !name.contains('/')
}

/// Which files are indexed depends on their names alone: a file's extension
/// is that of its name, alone or in any folder.
pub proof fn law_extension_of_name(folder: Seq<char>, name: Seq<char>)
    requires
        is_plain_name(name),
    ensures
        path_extension(name) == name_extension(name),
        path_extension(folder + seq!['/'] + name) == name_extension(name),
{
    lemma_split_without_sep(name, '/');
    lemma_split_after_sep(folder, '/', name);
    assert(name != Seq::<char>::empty());
    let segs = split_on(name, '/');
    assert(segs.last() == name);
}

// ---------------------------------------------------------------------------
// What a FLAC tag contributes to the index.

/// The FLAC picture type of a front cover.
pub const COVER_FRONT: u32 = 3;

/// A picture block of a FLAC tag: its FLAC picture type code and its data.
#[derive(Debug, Clone)]
pub struct FlacPicture {
    pub picture_type: u32,
    pub data: Vec<u8>,
}

/// The vorbis comments of a FLAC tag that the indexer reads: the values under
/// TITLE, ALBUM, ALBUMARTIST, ARTIST and DATE, and the track number.
#[derive(Debug, Clone)]
pub struct FlacComments {
    pub title: Option<Vec<String>>,
    pub track: Option<u32>,
    pub album: Option<Vec<String>>,
    pub album_artist: Option<Vec<String>>,
    pub artist: Option<Vec<String>>,
    pub date: Option<Vec<String>>,
}

/// The stream information of a FLAC file that the indexer reads.
#[derive(Debug, Clone, Copy)]
pub struct FlacStreamInfo {
    pub total_samples: u64,
    pub sample_rate: u32,
}

/// What the indexer reads of a FLAC tag: its first vorbis comment block, its
/// first stream information block, and its picture blocks in order.
#[derive(Debug, Clone)]
pub struct FlacTag {
    pub comments: Option<FlacComments>,
    pub stream_info: Option<FlacStreamInfo>,
    pub pictures: Vec<FlacPicture>,
}

/// Whether a tag holds everything that indexing it needs: vorbis comments with
/// a title, a track number, an album and an artist list, a first album artist
/// or else a first artist, a first date where a date is given, and stream
/// information with a sample rate other than zero.
pub open spec fn scannable(tag: FlacTag) -> bool {
    &&& tag.comments is Some
    &&& tag.stream_info is Some
    &&& tag.stream_info->0.sample_rate != 0
    &&& {
        let c = tag.comments->0;
        &&& c.title is Some && c.title->0@.len() > 0
        &&& c.track is Some
        &&& c.album is Some && c.album->0@.len() > 0
        &&& c.artist is Some
        &&& match c.album_artist {
            Some(a) => a@.len() > 0,
            None => c.artist->0@.len() > 0,
        }
        &&& match c.date {
            Some(d) => d@.len() > 0,
            None => true,
        }
    }
}

/// The length of the stream in whole seconds: the sample count, taken modulo
/// 2^32, divided by the sample rate.
pub open spec fn stream_seconds(si: FlacStreamInfo) -> u32 {
    ((si.total_samples as u32) / si.sample_rate) as u32
}

/// The data of the first front cover among the pictures.
pub open spec fn cover_front(pictures: Seq<FlacPicture>) -> Option<Seq<u8>>
    decreases pictures.len(),
{
    if pictures.len() == 0 {
        None
    } else if pictures[0].picture_type == COVER_FRONT {
        Some(pictures[0].data@)
    } else {
        cover_front(pictures.drop_first())
    }
}

/// The artist a track is credited to: the first album artist, or else the
/// first artist.
pub open spec fn credited_artist(c: FlacComments) -> Seq<char> {
    match c.album_artist {
        Some(a) => a@[0]@,
        None => c.artist->0@[0]@,
    }
}

/// The year of a track: its first DATE value, where that parses as an `i32`.
pub open spec fn tag_year(c: FlacComments) -> Option<i32> {
    match c.date {
        Some(d) => parsed_i32(d@[0]@),
        None => None,
    }
}

/// Whether `m` is what the index records of a file at `path` with tag `tag`.
pub open spec fn metadata_of(m: AudioMetadata, tag: FlacTag, path: Seq<char>) -> bool {
    let c = tag.comments->0;
    &&& m.name@ == c.title->0@[0]@
    &&& m.number == c.track->0
    &&& m.duration == stream_seconds(tag.stream_info->0)
    &&& m.album@ == c.album->0@[0]@
    &&& m.album_artist@ == credited_artist(c)
    &&& m.artists@ == c.artist->0@
    &&& match cover_front(tag.pictures@) {
        Some(b) => m.picture is Some && m.picture->0.bytes@ == b,
        None => m.picture is None,
    }
    &&& m.path@ == path
    &&& m.year == tag_year(c)
    &&& m.lossless
}

/// `n` in decimal, with a leading zero where it is a single digit.
pub open spec fn pad2(n: nat) -> Seq<char> {
    if n < 10 {
        seq!['0'] + decimal(n)
    } else {
        decimal(n)
    }
}

/// A length in seconds as `minutes:ss`, or, from one hour on, as
/// `hours:minutes:ss`, where `minutes` counts all whole minutes.
pub open spec fn duration_text(secs: nat) -> Seq<char> {
    let hours = secs / 3600;
    let minutes = secs / 60;
    let seconds = (secs - minutes * 60) as nat;
    if hours > 0 {
        decimal(hours) + seq![':'] + pad2(minutes) + seq![':'] + pad2(seconds)
    } else {
        decimal(minutes) + seq![':'] + pad2(seconds)
    }
}

/// The line that reports a scanned track:
/// `<number>. <title> by <artist> (<duration>)`.
pub open spec fn track_summary(tag: FlacTag) -> Seq<char> {
    let c = tag.comments->0;
    decimal(c.track->0 as nat) + seq!['.', ' '] + c.title->0@[0]@ + seq![' ', 'b', 'y', ' ']
        + credited_artist(c) + seq![' ', '('] + duration_text(
        stream_seconds(tag.stream_info->0) as nat,
    ) + seq![')']
}

/// The line that reports a scanned track names what the index records of it:
/// its number, title, credited artist and length.
pub proof fn law_summary_matches_metadata(m: AudioMetadata, tag: FlacTag, path: Seq<char>)
    requires
        scannable(tag),
        metadata_of(m, tag, path),
    ensures
        track_summary(tag) == decimal(m.number as nat) + seq!['.', ' '] + m.name@ + seq![
            ' ',
            'b',
            'y',
            ' ',
        ] + m.album_artist@ + seq![' ', '('] + duration_text(m.duration as nat) + seq![')'],
{
}

/// Whether a tag holds everything that indexing it needs.
pub fn is_scannable(tag: &FlacTag) -> (r: bool)
    ensures
        r == scannable(*tag),
{
    let c = match &tag.comments {
        Some(c) => c,
        None => return false,
    };
    let sample_rate_ok = match &tag.stream_info {
        Some(si) => si.sample_rate != 0,
        None => false,
    };
    let title_ok = match &c.title {
        Some(t) => t.len() > 0,
        None => false,
    };
    let album_ok = match &c.album {
        Some(a) => a.len() > 0,
        None => false,
    };
    let artist_ok = match &c.album_artist {
        Some(a) => a.len() > 0 && c.artist.is_some(),
        None => match &c.artist {
            Some(a) => a.len() > 0,
            None => false,
        },
    };
    let date_ok = match &c.date {
        Some(d) => d.len() > 0,
        None => true,
    };
    sample_rate_ok && title_ok && c.track.is_some() && album_ok && artist_ok && date_ok
}

/// A copy of the strings.
pub fn copy_strings(v: &Vec<String>) -> (r: Vec<String>)
    ensures
        r@ == v@,
{
    let mut r: Vec<String> = Vec::new();
    let mut i: usize = 0;
    while i < v.len()
        invariant
            i <= v@.len(),
            r@ == v@.take(i as int),
        decreases v@.len() - i,
    {
        r.push(v[i].clone());
        i += 1;
        assert(r@ =~= v@.take(i as int));
    }
    assert(r@ =~= v@);
    r
}

/// A copy of the bytes.
pub fn copy_bytes(v: &Vec<u8>) -> (r: Vec<u8>)
    ensures
        r@ == v@,
{
    let mut r: Vec<u8> = Vec::new();
    let mut i: usize = 0;
    while i < v.len()
        invariant
            i <= v@.len(),
            r@ == v@.take(i as int),
        decreases v@.len() - i,
    {
        r.push(v[i]);
        i += 1;
        assert(r@ =~= v@.take(i as int));
    }
    assert(r@ =~= v@);
    r
}

/// The first front cover among the pictures.
pub fn front_cover(pictures: &Vec<FlacPicture>) -> (r: Option<Picture>)
    ensures
        match cover_front(pictures@) {
            Some(b) => r is Some && r->0.bytes@ == b,
            None => r is None,
        },
{
    let mut i: usize = 0;
    assert(pictures@.skip(0) =~= pictures@);
    while i < pictures.len()
        invariant
            i <= pictures@.len(),
            cover_front(pictures@) == cover_front(pictures@.skip(i as int)),
        decreases pictures@.len() - i,
    {
        let ghost rest = pictures@.skip(i as int);
        proof {
            assert(rest[0] == pictures@[i as int]);
            assert(rest.drop_first() =~= pictures@.skip(i + 1));
        }
        if pictures[i].picture_type == COVER_FRONT {
            return Some(Picture { bytes: copy_bytes(&pictures[i].data) });
        }
        i += 1;
    }
    None
}

/// The artist a track is credited to: the first album artist, or else the
/// first artist.
pub fn credited_artist_of(c: &FlacComments) -> (r: String)
    requires
        c.artist is Some,
        match c.album_artist {
            Some(a) => a@.len() > 0,
            None => c.artist->0@.len() > 0,
        },
    ensures
        r@ == credited_artist(*c),
{
    match &c.album_artist {
        Some(a) => a[0].clone(),
        None => match &c.artist {
            Some(a) => a[0].clone(),
            None => String::new(),
        },
    }
}

/// What the index records of a file at `path` with tag `tag`.
pub fn audio_metadata(tag: &FlacTag, path: &str) -> (m: AudioMetadata)
    requires
        scannable(*tag),
    ensures
        metadata_of(m, *tag, path@),
{
    let c = tag.comments.as_ref().unwrap();
    let si = tag.stream_info.as_ref().unwrap();
    let duration = (si.total_samples as u32) / si.sample_rate;
    let year = match &c.date {
        Some(d) => parse_i32(d[0].as_str()),
        None => None,
    };
    let picture = front_cover(&tag.pictures);
    let name = match &c.title {
        Some(t) => t[0].clone(),
        None => String::new(),
    };
    let number = match c.track {
        Some(n) => n,
        None => 0,
    };
    let album = match &c.album {
        Some(a) => a[0].clone(),
        None => String::new(),
    };
    let album_artist = credited_artist_of(c);
    let artists = match &c.artist {
        Some(a) => copy_strings(a),
        None => Vec::new(),
    };
    AudioMetadata {
        name,
        number,
        duration,
        album,
        album_artist,
        artists,
        picture,
        path: String::from_str(path),
        year,
        lossless: true,
    }
}

/// `n` in decimal, with a leading zero where it is a single digit.
pub fn pad2_string(n: u64) -> (s: String)
    ensures
        s@ == pad2(n as nat),
{
    let digits = decimal_string(n);
    if n < 10 {
        let mut s = String::from_str("0");
        proof {
            reveal_strlit("0");
        }
        s.append(digits.as_str());
        s
    } else {
        digits
    }
}

/// A length in seconds as `minutes:ss`, or, from one hour on, as
/// `hours:minutes:ss`.
pub fn duration_string(secs: u32) -> (s: String)
    ensures
        s@ == duration_text(secs as nat),
{
    let total = secs as u64;
    let hours = total / 3600;
    let minutes = total / 60;
    let seconds = total - minutes * 60;
    proof {
        reveal_strlit(":");
    }
    if hours > 0 {
        let mut s = decimal_string(hours);
        s.append(":");
        s.append(pad2_string(minutes).as_str());
        s.append(":");
        s.append(pad2_string(seconds).as_str());
        s
    } else {
        let mut s = decimal_string(minutes);
        s.append(":");
        s.append(pad2_string(seconds).as_str());
        s
    }
}

/// The line that reports a scanned track:
/// `<number>. <title> by <artist> (<duration>)`.
pub fn track_summary_line(tag: &FlacTag) -> (s: String)
    requires
        scannable(*tag),
    ensures
        s@ == track_summary(*tag),
{
    let c = tag.comments.as_ref().unwrap();
    let si = tag.stream_info.as_ref().unwrap();
    let number = match c.track {
        Some(n) => n,
        None => 1,
    };
    let duration = (si.total_samples as u32) / si.sample_rate;
    proof {
        reveal_strlit(". ");
        reveal_strlit(" by ");
        reveal_strlit(" (");
        reveal_strlit(")");
    }
    let mut s = decimal_string(number as u64);
    s.append(". ");
    match &c.title {
        Some(t) => s.append(t[0].as_str()),
        None => {},
    }
    s.append(" by ");
    s.append(credited_artist_of(c).as_str());
    s.append(" (");
    s.append(duration_string(duration).as_str());
    s.append(")");
    s
}

// ---------------------------------------------------------------------------
// Laws of what a tag contributes.

proof fn lemma_cover_front(pictures: Seq<FlacPicture>)
    ensures
        match cover_front(pictures) {
            Some(b) => exists|k: int|
                0 <= k < pictures.len() && pictures[k].picture_type == COVER_FRONT
                    && pictures[k].data@ == b && forall|j: int|
                    0 <= j < k ==> (#[trigger] pictures[j]).picture_type != COVER_FRONT,
            None => forall|j: int|
                0 <= j < pictures.len() ==> (#[trigger] pictures[j]).picture_type != COVER_FRONT,
        },
    decreases pictures.len(),
{
    if pictures.len() > 0 {
        let rest = pictures.drop_first();
        lemma_cover_front(rest);
        if pictures[0].picture_type != COVER_FRONT {
            match cover_front(rest) {
                Some(b) => {
                    let k = choose|k: int|
                        0 <= k < rest.len() && rest[k].picture_type == COVER_FRONT && rest[k].data@
                            == b && forall|j: int|
                            0 <= j < k ==> (#[trigger] rest[j]).picture_type != COVER_FRONT;
                    assert(pictures[k + 1] == rest[k]);
                    assert forall|j: int| 0 <= j < k + 1 implies (#[trigger] pictures[j]).picture_type
                        != COVER_FRONT by {
                        if j > 0 {
                            assert(pictures[j] == rest[j - 1]);
                        }
                    }
                },
                None => {
                    assert forall|j: int| 0 <= j < pictures.len() implies (
                    #[trigger] pictures[j]).picture_type != COVER_FRONT by {
                        if j > 0 {
                            assert(pictures[j] == rest[j - 1]);
                        }
                    }
                },
            }
        }
    }
}

/// What the index records of a file is read off its tag: the first title,
/// the track number, the stream's length in whole seconds (the sample count
/// modulo 2^32 over the sample rate), the first album, the first album artist
/// or else the first artist, all the artists whatever the album artist, the
/// path, the first date read as a number, and the data of the first front
/// cover, if there is one.
pub proof fn law_metadata_from_tag(m: AudioMetadata, tag: FlacTag, path: Seq<char>)
    requires
        scannable(tag),
        metadata_of(m, tag, path),
    ensures
        m.name@ == tag.comments->0.title->0@[0]@,
        m.number == tag.comments->0.track->0,
        m.duration as int == (tag.stream_info->0.total_samples as u32) as int
            / tag.stream_info->0.sample_rate as int,
        m.album@ == tag.comments->0.album->0@[0]@,
        tag.comments->0.album_artist is Some ==> m.album_artist@
            == tag.comments->0.album_artist->0@[0]@,
        tag.comments->0.album_artist is None ==> m.album_artist@ == tag.comments->0.artist->0@[0]@,
        m.artists@ == tag.comments->0.artist->0@,
        m.path@ == path,
        tag.comments->0.date is Some ==> m.year == parsed_i32(tag.comments->0.date->0@[0]@),
        tag.comments->0.date is None ==> m.year is None,
        m.lossless,
        m.picture is Some <==> exists|k: int|
            0 <= k < tag.pictures@.len() && (#[trigger] tag.pictures@[k]).picture_type == COVER_FRONT,
        m.picture is Some ==> exists|k: int|
            0 <= k < tag.pictures@.len() && tag.pictures@[k].picture_type == COVER_FRONT
                && tag.pictures@[k].data@ == m.picture->0.bytes@ && forall|j: int|
                0 <= j < k ==> (#[trigger] tag.pictures@[j]).picture_type != COVER_FRONT,
{
    lemma_cover_front(tag.pictures@);
}

proof fn lemma_digits_concat(a: Seq<char>, b: Seq<char>)
    requires
        b.len() == 1,
    ensures
        digits_value(a + b) == digits_value(a) * 10 + digit_value(b[0]),
{
    assert((a + b).drop_last() =~= a);
    assert((a + b).last() == b[0]);
}

/// The two-digit field: every number below 100 comes out as exactly two
/// digits that spell it, and larger numbers in full.
pub proof fn law_pad2_two_digits(n: nat)
    ensures
        all_digits(pad2(n)),
        digits_value(pad2(n)) == n,
        n < 100 ==> pad2(n).len() == 2,
        n >= 10 ==> pad2(n) == decimal(n),
{
    lemma_decimal(n);
    if n < 10 {
        assert(decimal(n) =~= seq![digit_char(n as int)]);
        assert(digits_value(seq!['0']) == 0) by {
            assert(seq!['0'].drop_last() =~= Seq::<char>::empty());
            assert(digits_value(Seq::<char>::empty()) == 0);
            assert(seq!['0'].last() == '0');
            assert(digit_value('0') == 0);
        }
        lemma_digits_concat(seq!['0'], decimal(n));
        assert forall|i: int| 0 <= i < pad2(n).len() implies is_digit(#[trigger] pad2(n)[i]) by {
            if i == 1 {
                assert(pad2(n)[1] == decimal(n)[0]);
            }
        }
    } else if n < 100 {
        lemma_decimal(n / 10);
        assert(decimal(n / 10).len() == 1);
    }
}

/// A length as text: the part after the last `:` is two digits spelling the
/// seconds within the minute; below an hour, the part before it spells the
/// whole minutes; from an hour on, the text is hours, `:`, all the whole
/// minutes in at least two digits, `:`, the seconds.
pub proof fn law_duration_text(secs: nat)
    ensures
        ({
            let t = duration_text(secs);
            let ss = t.subrange(t.len() - 2, t.len() as int);
            &&& t.len() >= 4
            &&& t[t.len() - 3] == ':'
            &&& all_digits(ss) && digits_value(ss) == secs % 60
            &&& secs < 3600 ==> t.take(t.len() - 3) == decimal(secs / 60)
            &&& secs >= 3600 ==> t.take(t.len() - 3) == decimal(secs / 3600) + seq![':'] + pad2(
                secs / 60,
            )
        }),
{
    let t = duration_text(secs);
    let minutes = secs / 60;
    let seconds = (secs - minutes * 60) as nat;
    assert(seconds == secs % 60);
    law_pad2_two_digits(seconds);
    law_pad2_two_digits(minutes);
    lemma_decimal(secs / 60);
    lemma_decimal(secs / 3600);
    if secs / 3600 > 0 {
        let head = decimal(secs / 3600) + seq![':'] + pad2(minutes);
        assert(t =~= head + seq![':'] + pad2(seconds));
        assert(t.take(t.len() - 3) =~= head);
        assert(t.subrange(t.len() - 2, t.len() as int) =~= pad2(seconds));
    } else {
        assert(t =~= decimal(minutes) + seq![':'] + pad2(seconds));
        assert(t.take(t.len() - 3) =~= decimal(minutes));
        assert(t.subrange(t.len() - 2, t.len() as int) =~= pad2(seconds));
    }
}

/// The extension is what follows the last `.` of the name: the name is some
/// non-empty text, a `.`, and the extension, which holds no `.`; and a name has
/// no extension exactly when its only `.`, if any, is its first character.
pub proof fn law_name_extension(name: Seq<char>)
    ensures
        name_extension(name) matches Some(e) ==> exists|pre: Seq<char>|
            pre.len() > 0 && name == pre + seq!['.'] + e && !e.contains('.'),
        name_extension(name) is None ==> forall|i: int| 0 < i < name.len() ==> name[i] != '.',
{
    lemma_last_dot(name);
    let k = last_dot(name);
    if k > 0 {
        let pre = name.take(k);
        let e = name.subrange(k + 1, name.len() as int);
        assert(name =~= pre + seq!['.'] + e);
        assert(!e.contains('.')) by {
            if e.contains('.') {
                let j = choose|j: int| 0 <= j < e.len() && e[j] == '.';
                assert(name[k + 1 + j] == '.');
            }
        }
    }
}

proof fn lemma_last_dot(name: Seq<char>)
    ensures
        -1 <= last_dot(name) < name.len(),
        last_dot(name) >= 0 ==> name[last_dot(name)] == '.',
        forall|i: int| last_dot(name) < i < name.len() ==> name[i] != '.',
    decreases name.len(),
{
    if name.len() > 0 && name.last() != '.' {
        lemma_last_dot(name.drop_last());
        assert forall|i: int| last_dot(name) < i < name.len() implies name[i] != '.' by {
            if i < name.len() - 1 {
                assert(name[i] == name.drop_last()[i]);
            }
        }
    }
}

/// A path's file name ignores a trailing `/` or `/.`, a trailing `/..` has
/// none, and a plain name after a `/` is the file name.
pub proof fn law_file_name_ends(path: Seq<char>, name: Seq<char>)
    ensures
        file_name(path + seq!['/']) == file_name(path),
        file_name(path + seq!['/', '.']) == file_name(path),
        file_name(path + seq!['/', '.', '.']) is None,
        is_plain_name(name) ==> file_name(path + seq!['/'] + name) == Some(name),
{
    lemma_split_append(path, '/', Seq::<char>::empty());
    assert(path + seq!['/'] =~= path + seq!['/'] + Seq::<char>::empty());
    lemma_split_append(path, '/', seq!['.']);
    assert(path + seq!['/', '.'] =~= path + seq!['/'] + seq!['.']);
    lemma_split_append(path, '/', seq!['.', '.']);
    assert(path + seq!['/', '.', '.'] =~= path + seq!['/'] + seq!['.', '.']);
    let segs = split_on(path, '/');
    assert(segs.push(Seq::<char>::empty()).drop_last() =~= segs);
    assert(segs.push(seq!['.']).drop_last() =~= segs);
    if is_plain_name(name) {
        lemma_split_append(path, '/', name);
        assert(name != Seq::<char>::empty());
    }
}

/// Only the extension `flac`, in lowercase, stands for a format.
pub proof fn law_format_of(lower_extension: Seq<char>)
    ensures
        format_of(lower_extension) is Some <==> lower_extension == seq!['f', 'l', 'a', 'c'],
        format_of(lower_extension) is Some ==> format_of(lower_extension) == Some(AudioFormat::FLAC),
{
}

} // verus!
