//! What the audio engine knows and decides: the playback status, what is
//! playing, how the station's headers and ICY metadata fill that in, and how
//! each request of the interface moves the status along. The download, the
//! decoder and the sound device themselves live in the application.

use vstd::prelude::*;
use crate::config::opt_text;
use crate::search::comma_sep;
use crate::text::{
    chars_of, contains_folded, find_from, find_text, has_infix_folded, join, joined, trim,
    trimmed,
};

verus! {

broadcast use vstd::string::group_string_axioms;

/// How many seconds of audio we prefetch before playback starts.
pub const PREFETCH_SECONDS: u64 = 5;

/// Fallback prefetch when the station declares no bitrate (~128 kbps x 5s).
pub const DEFAULT_PREFETCH_BYTES: u64 = 81920;

/// Where playback stands.
#[derive(Debug, Clone, PartialEq, Eq)]
pub enum Status {
    /// Nothing is playing.
    Idle,
    /// Connecting to the station / filling the buffer.
    Connecting,
    Playing,
    Paused,
    Error(String),
}

impl Default for Status {
    fn default() -> (s: Self)
        ensures
            s is Idle,
    {
        Status::Idle
    }
}

impl Status {
    /// Whether a station is on: connecting, playing or paused.
    pub fn is_active(&self) -> (r: bool)
        ensures
            r == (self is Connecting || self is Playing || self is Paused),
    {
        match self {
            Status::Connecting | Status::Playing | Status::Paused => true,
            _ => false,
        }
    }
}

/// Everything we currently know about the station and the track that is playing.
#[derive(Debug, Clone)]
pub struct NowPlaying {
    // From the station's HTTP headers (constant while we stay connected).
    pub station: Option<String>,
    pub description: Option<String>,
    pub genre: Option<String>,
    pub bitrate: Option<u32>,
    pub station_url: Option<String>,
    // From the ICY metadata inside the stream (changes per track).
    pub artist: Option<String>,
    pub track: Option<String>,
    pub album: Option<String>,
    /// The raw `StreamTitle`, when it does not split into artist/title.
    pub raw_title: Option<String>,
}

impl Default for NowPlaying {
    fn default() -> (n: Self)
        ensures
            n.is_empty(),
    {
        NowPlaying {
            station: None,
            description: None,
            genre: None,
            bitrate: None,
            station_url: None,
            artist: None,
            track: None,
            album: None,
            raw_title: None,
        }
    }
}

impl NowPlaying {
    /// Nothing known at all.
    pub open spec fn is_empty(&self) -> bool {
        &&& self.station is None
        &&& self.description is None
        &&& self.genre is None
        &&& self.bitrate is None
        &&& self.station_url is None
        &&& self.artist is None
        &&& self.track is None
        &&& self.album is None
        &&& self.raw_title is None
    }

    /// The station details are those of `other`.
    pub open spec fn same_station(&self, other: NowPlaying) -> bool {
        &&& self.station == other.station
        &&& self.description == other.description
        &&& self.genre == other.genre
        &&& self.bitrate == other.bitrate
        &&& self.station_url == other.station_url
    }

    /// Clears only the per-track fields, keeping the station details.
    pub fn clear_track(&mut self)
        ensures
            final(self).same_station(*old(self)),
            final(self).artist is None,
            final(self).track is None,
            final(self).album is None,
            final(self).raw_title is None,
    {
        self.artist = None;
        self.track = None;
        self.album = None;
        self.raw_title = None;
    }

    /// Whether anything is known about the track itself.
    pub fn has_track_info(&self) -> (r: bool)
        ensures
            r == (self.artist is Some || self.track is Some || self.raw_title is Some),
    {
        self.artist.is_some() || self.track.is_some() || self.raw_title.is_some()
    }
}

/// The playback status and what is playing, as the engine shares them.
#[derive(Debug)]
pub struct SharedState {
    pub status: Status,
    pub now: NowPlaying,
}

impl Default for SharedState {
    fn default() -> (s: Self)
        ensures
            s.status is Idle,
            s.now.is_empty(),
    {
        SharedState { status: Status::default(), now: NowPlaying::default() }
    }
}

/// Snapshot of the state, so the UI does not hold the lock while it paints.
pub struct SharedStateSnapshot {
    pub status: Status,
    pub now: NowPlaying,
}

/// `"Enter a stream URL."`
pub open spec fn empty_url_message() -> Seq<char> {
    seq![
        'E', 'n', 't', 'e', 'r', ' ', 'a', ' ', 's', 't', 'r', 'e', 'a', 'm', ' ', 'U', 'R', 'L',
        '.',
    ]
}

fn empty_url_text() -> (r: &'static str)
    ensures
        r@ == empty_url_message(),
{
    proof {
        reveal_strlit("Enter a stream URL.");
    }
    let r = "Enter a stream URL.";
    assert(r@ =~= empty_url_message());
    r
}

impl SharedState {
    /// A snapshot to paint from.
    pub fn snapshot(&self) -> (s: SharedStateSnapshot)
        ensures
            s.status == self.status,
            s.now == self.now,
    {
        SharedStateSnapshot { status: copy_status(&self.status), now: copy_now(&self.now) }
    }

    /// Pausing: a playing station is paused, anything else stays as it is.
    pub fn pause(&mut self)
        ensures
            old(self).status is Playing ==> final(self).status is Paused,
            !(old(self).status is Playing) ==> final(self).status == old(self).status,
            final(self).now == old(self).now,
    {
        if let Status::Playing = self.status {
            self.status = Status::Paused;
        }
    }

    /// Resuming after a pause. Returns `false` if there is nothing left to resume
    /// (the buffer drained meanwhile) and a fresh connection is needed.
    pub fn resume(&mut self, queue_empty: bool) -> (r: bool)
        ensures
            r == !queue_empty,
            r && old(self).status is Paused ==> final(self).status is Playing,
            !(r && old(self).status is Paused) ==> final(self).status == old(self).status,
            final(self).now == old(self).now,
    {
        if queue_empty {
            return false;
        }
        if let Status::Paused = self.status {
            self.status = Status::Playing;
        }
        true
    }

    /// Stops whatever was on: nothing plays and nothing is known any more.
    pub fn stop(&mut self)
        ensures
            final(self).status is Idle,
            final(self).now.is_empty(),
    {
        self.status = Status::Idle;
        self.now = NowPlaying::default();
    }

    /// Starts (or switches to) a station: the address to connect to, or `None`
    /// when there is none and the status says so.
    pub fn begin(&mut self, url: &str) -> (r: Option<String>)
        ensures
            trimmed(url@).len() == 0 ==> r is None,
            trimmed(url@).len() == 0 ==> (final(self).status matches Status::Error(e) && e@
                == empty_url_message()),
            trimmed(url@).len() == 0 ==> final(self).now == old(self).now,
            trimmed(url@).len() > 0 ==> (r matches Some(u) && u@ == trimmed(url@)),
            trimmed(url@).len() > 0 ==> final(self).status is Connecting,
            trimmed(url@).len() > 0 ==> final(self).now.is_empty(),
    {
        let u = trim(url);
        if u.is_empty() {
            self.status = Status::Error(empty_url_text().to_owned());
            return None;
        }
        self.status = Status::Connecting;
        self.now = NowPlaying::default();
        Some(u.to_owned())
    }

    /// The answer of a connection attempt. One that was overtaken by a newer
    /// request (`generation` is not the `current` one) changes nothing. Returns
    /// whether the new source is to be played.
    pub fn settle(&mut self, current: u64, generation: u64, outcome: Result<(), String>) -> (r:
        bool)
        ensures
            current != generation ==> !r && *final(self) == *old(self),
            current == generation ==> match outcome {
                Ok(()) => r && final(self).status is Playing && final(self).now == old(self).now,
                Err(e) => !r && final(self).status == Status::Error(e) && final(self).now.is_empty(),
            },
    {
        if current != generation {
            return false;
        }
        match outcome {
            Ok(()) => {
                self.status = Status::Playing;
                true
            },
            Err(e) => {
                self.status = Status::Error(e);
                self.now = NowPlaying::default();
                false
            },
        }
    }
}

/// A copy of a status.
pub fn copy_status(s: &Status) -> (r: Status)
    ensures
        r == *s,
{
    match s {
        Status::Idle => Status::Idle,
        Status::Connecting => Status::Connecting,
        Status::Playing => Status::Playing,
        Status::Paused => Status::Paused,
        Status::Error(e) => Status::Error(e.clone()),
    }
}

fn copy_text(o: &Option<String>) -> (r: Option<String>)
    ensures
        r == *o,
{
    match o {
        Some(s) => Some(s.clone()),
        None => None,
    }
}

/// A copy of what is playing.
pub fn copy_now(n: &NowPlaying) -> (r: NowPlaying)
    ensures
        r == *n,
{
    NowPlaying {
        station: copy_text(&n.station),
        description: copy_text(&n.description),
        genre: copy_text(&n.genre),
        bitrate: n.bitrate,
        station_url: copy_text(&n.station_url),
        artist: copy_text(&n.artist),
        track: copy_text(&n.track),
        album: copy_text(&n.album),
        raw_title: copy_text(&n.raw_title),
    }
}

/// True when the station has dropped: we think we are playing but the queue ran dry.
pub fn has_stalled(status: &Status, queue_empty: bool) -> (r: bool)
    ensures
        r == (status is Playing && queue_empty),
{
    match status {
        Status::Playing => queue_empty,
        _ => false,
    }
}

/// How many bytes to prefetch: five seconds at the declared bitrate, or at
/// 128 kbps when the station declares none.
pub fn prefetch_bytes(bitrate: Option<u32>) -> (r: u64)
    ensures
        r == match bitrate {
            Some(kbps) => kbps as int / 8 * 1024 * PREFETCH_SECONDS,
            None => DEFAULT_PREFETCH_BYTES as int,
        },
{
    match bitrate {
        Some(kbps) => {
            assert(kbps as u64 / 8 * 1024 * PREFETCH_SECONDS <= 0xffff_ffff * 1024 * 5)
                by (nonlinear_arith);
            (kbps as u64) / 8 * 1024 * PREFETCH_SECONDS
        },
        None => DEFAULT_PREFETCH_BYTES,
    }
}

/// The genres a station declares, as one line; none when it declares none.
pub open spec fn genre_line(genres: Seq<Seq<char>>) -> Option<Seq<char>> {
    if joined(genres, comma_sep()).len() > 0 {
        Some(joined(genres, comma_sep()))
    } else {
        None
    }
}

/// Fills in the station details from the ICY headers of the response.
pub fn apply_headers(
    now: &mut NowPlaying,
    name: Option<&str>,
    description: Option<&str>,
    station_url: Option<&str>,
    bitrate: Option<u32>,
    genres: &Vec<String>,
)
    ensures
        opt_text(final(now).station) == crate::config::opt_str(name),
        opt_text(final(now).description) == crate::config::opt_str(description),
        opt_text(final(now).station_url) == crate::config::opt_str(station_url),
        final(now).bitrate == bitrate,
        opt_text(final(now).genre) == genre_line(genres@.map_values(|g: String| g@)),
        final(now).artist == old(now).artist,
        final(now).track == old(now).track,
        final(now).album == old(now).album,
        final(now).raw_title == old(now).raw_title,
{
    now.station = owned(name);
    now.description = owned(description);
    now.station_url = owned(station_url);
    now.bitrate = bitrate;
    let genre = join(genres, crate::search::comma_text());
    now.genre = if genre.as_str().is_empty() {
        None
    } else {
        Some(genre)
    };
}

fn owned(o: Option<&str>) -> (r: Option<String>)
    ensures
        opt_text(r) == crate::config::opt_str(o),
{
    match o {
        Some(s) => Some(s.to_owned()),
        None => None,
    }
}

// ---------------------------------------------------------------- the track

/// `" - "`, between artist and title.
pub open spec fn dash_sep() -> Seq<char> {
    seq![' ', '-', ' ']
}

/// The "Artist - Title" form that most stations send, split at its first
/// separator, when both halves have something in them.
pub open spec fn split_title(s: Seq<char>) -> Option<(Seq<char>, Seq<char>)> {
    let i = find_from(s, dash_sep(), 0);
    if i < 0 {
        None
    } else {
        let a = trimmed(s.take(i));
        let t = trimmed(s.skip(i + 3));
        if a.len() > 0 && t.len() > 0 {
            Some((a, t))
        } else {
            None
        }
    }
}

fn dash_text() -> (r: &'static str)
    ensures
        r@ == dash_sep(),
{
    proof {
        reveal_strlit(" - ");
    }
    let r = " - ";
    assert(r@ =~= dash_sep());
    r
}

/// Splits the "Artist - Title" form that most stations send.
pub fn split_artist_title(title: &str) -> (r: Option<(String, String)>)
    ensures
        match r {
            Some((a, t)) => split_title(title@) == Some((a@, t@)),
            None => split_title(title@) is None,
        },
{
    let v = chars_of(title);
    let sep = chars_of(dash_text());
    let i = match find_text(&v, &sep) {
        Some(i) => i,
        None => return None,
    };
    let artist = trim(title.substring_char(0, i));
    let track = trim(title.substring_char(i + 3, v.len()));
    proof {
        assert(title@.subrange(0, i as int) =~= title@.take(i as int));
        assert(title@.subrange(i + 3, v@.len() as int) =~= title@.skip(i + 3));
    }
    if artist.is_empty() || track.is_empty() {
        return None;
    }
    Some((artist.to_owned(), track.to_owned()))
}

/// A field of the metadata: key and value.
pub type FieldView = (Seq<char>, Seq<char>);

/// The ICY metadata of one track, as plain values: the `StreamTitle`, and the
/// other fields in the order they are handed over.
#[derive(Debug, Clone)]
pub struct TrackMetadata {
    pub stream_title: Option<String>,
    pub custom_fields: Vec<(String, String)>,
}

/// `"album"`.
pub open spec fn album_word() -> Seq<char> {
    seq!['a', 'l', 'b', 'u', 'm']
}

/// `"artist"`.
pub open spec fn artist_word() -> Seq<char> {
    seq!['a', 'r', 't', 'i', 's', 't']
}

/// Whether a field key names the album (any case).
pub open spec fn names_album(key: Seq<char>) -> bool {
    contains_folded(key, album_word())
}

/// Whether a field key names the artist (any case), and not the album.
pub open spec fn names_artist(key: Seq<char>) -> bool {
    !names_album(key) && contains_folded(key, artist_word())
}

/// The trimmed value of the last field with something in it whose key names the
/// album (`album`) or the artist (`!album`).
pub open spec fn last_field(fields: Seq<FieldView>, album: bool) -> Option<Seq<char>>
    decreases fields.len(),
{
    if fields.len() == 0 {
        None
    } else {
        let f = fields.last();
        if trimmed(f.1).len() > 0 && (if album {
            names_album(f.0)
        } else {
            names_artist(f.0)
        }) {
            Some(trimmed(f.1))
        } else {
            last_field(fields.drop_last(), album)
        }
    }
}

/// The title a track announces: the trimmed `StreamTitle`, when it is not blank.
pub open spec fn announced(title: Option<Seq<char>>) -> Option<Seq<char>> {
    match title {
        Some(t) => if trimmed(t).len() > 0 {
            Some(trimmed(t))
        } else {
            None
        },
        None => None,
    }
}

/// What is playing once a track announced `title` with these fields.
pub open spec fn after_metadata(
    now: NowPlaying,
    title: Seq<char>,
    fields: Seq<FieldView>,
    next: NowPlaying,
) -> bool {
    let split = split_title(title);
    let artist_field = last_field(fields, false);
    &&& next.same_station(now)
    &&& opt_text(next.track) == match split {
        Some(p) => Some(p.1),
        None => None,
    }
    &&& opt_text(next.raw_title) == match split {
        Some(p) => None,
        None => Some(title),
    }
    &&& opt_text(next.artist) == match artist_field {
        Some(a) => Some(a),
        None => match split {
            Some(p) => Some(p.0),
            None => None,
        },
    }
    &&& opt_text(next.album) == last_field(fields, true)
}

/// A field keyed `artist` names the artist.
proof fn lemma_artist_key()
    ensures
        names_artist(artist_word()),
{
    let k = artist_word();
    assert(crate::text::folded_occurs_at(k, artist_word(), 0));
    assert forall|i: int| !crate::text::folded_occurs_at(k, album_word(), i) by {
        if crate::text::folded_occurs_at(k, album_word(), i) {
            assert(i == 0 || i == 1);
            if i == 0 {
                assert(crate::text::folded_code(k[i + 1]) == album_word()[1] as u32);
                assert(k[i + 1] == 'r');
            } else {
                assert(crate::text::folded_code(k[i + 0]) == album_word()[0] as u32);
                assert(k[i + 0] == 'r');
            }
        }
    }
}

/// A non-blank artist field decides the artist, whatever the title says;
/// without one the artist is the first half of a title that splits. So a
/// field that names the artist, sent after the others, always wins — also
/// one keyed plainly `artist`.
pub proof fn law_artist_field_wins(
    now: NowPlaying,
    title: Seq<char>,
    fields: Seq<FieldView>,
    key: Seq<char>,
    value: Seq<char>,
    next: NowPlaying,
)
    ensures
        after_metadata(now, title, fields, next) && last_field(fields, false) is Some
            ==> opt_text(next.artist) == last_field(fields, false),
        after_metadata(now, title, fields, next) && last_field(fields, false) is None
            ==> opt_text(next.artist) == match split_title(title) {
            Some(p) => Some(p.0),
            None => None,
        },
        names_artist(key) && trimmed(value).len() > 0 && after_metadata(
            now,
            title,
            fields.push((key, value)),
            next,
        ) ==> opt_text(next.artist) == Some(trimmed(value)),
        names_artist(artist_word()),
{
    lemma_artist_key();
    let f = fields.push((key, value));
    assert(f.last() == (key, value));
    assert(f.drop_last() =~= fields);
}

fn album_text() -> (r: &'static str)
    ensures
        r@ == album_word(),
{
    proof {
        reveal_strlit("album");
    }
    let r = "album";
    assert(r@ =~= album_word());
    r
}

fn artist_text() -> (r: &'static str)
    ensures
        r@ == artist_word(),
{
    proof {
        reveal_strlit("artist");
    }
    let r = "artist";
    assert(r@ =~= artist_word());
    r
}

/// Passes a new `StreamTitle` into what is playing. A blank title changes
/// nothing: many stations send one between tracks, and what we knew is kept
/// until the next track.
pub fn apply_metadata(now: &mut NowPlaying, metadata: &TrackMetadata)
    ensures
        announced(opt_text(metadata.stream_title)) is None ==> *final(now) == *old(now),
        announced(opt_text(metadata.stream_title)) matches Some(t) ==> after_metadata(
            *old(now),
            t,
            metadata.custom_fields@.map_values(|f: (String, String)| (f.0@, f.1@)),
            *final(now),
        ),
{
    let title = match &metadata.stream_title {
        Some(t) => trim(t.as_str()),
        None => return,
    };
    if title.is_empty() {
        return;
    }
    let ghost before = *now;
    now.clear_track();
    match split_artist_title(title) {
        Some((artist, track)) => {
            now.artist = Some(artist);
            now.track = Some(track);
        },
        None => now.raw_title = Some(title.to_owned()),
    }
    let ghost split_artist = opt_text(now.artist);
    let ghost track0 = now.track;
    let ghost raw0 = now.raw_title;
    assert(opt_text(track0) == match split_title(title@) {
        Some(p) => Some(p.1),
        None => None,
    });
    let ghost fields = metadata.custom_fields@.map_values(|f: (String, String)| (f.0@, f.1@));
    let album_word_chars = chars_of(album_text());
    let artist_word_chars = chars_of(artist_text());
    let n = metadata.custom_fields.len();
    let mut i: usize = 0;
    while i < n
        invariant
            n == metadata.custom_fields@.len(),
            fields == metadata.custom_fields@.map_values(|f: (String, String)| (f.0@, f.1@)),
            album_word_chars@ == album_word(),
            artist_word_chars@ == artist_word(),
            i <= n,
            now.same_station(before),
            now.track == track0,
            now.raw_title == raw0,
            opt_text(now.album) == last_field(fields.take(i as int), true),
            opt_text(now.artist) == match last_field(fields.take(i as int), false) {
                Some(a) => Some(a),
                None => split_artist,
            },
        decreases n - i,
    {
        proof {
            assert(fields.take(i + 1).drop_last() =~= fields.take(i as int));
            assert(fields.take(i + 1).last() == fields[i as int]);
        }
        let (key, value) = &metadata.custom_fields[i];
        let value = trim(value.as_str());
        if !value.is_empty() {
            let k = chars_of(key.as_str());
            if has_infix_folded(&k, &album_word_chars) {
                now.album = Some(value.to_owned());
            } else if has_infix_folded(&k, &artist_word_chars) {
                now.artist = Some(value.to_owned());
            }
        }
        i = i + 1;
    }
    proof {
        assert(fields.take(n as int) =~= fields);
    }
}

} // verus!
