//! What the window decides: which station plays, when a dropped stream is
//! fetched back, what a click on the card, a row or a button asks for, and the
//! notes the list shows. Each step takes the session and what happened and
//! says what the application has to do about it — play an address, stop the
//! engine, send a search, write the settings — without doing it itself.

use vstd::prelude::*;
use crate::config::{
    admits, clean_name, drop_url, import_lines, remembered, renamed, Config, StationView,
};
use crate::display::{
    added_note, added_note_of, count_label, count_label_of, counted, found_note, found_note_of,
    saved_note, saved_word, Tint,
};
use crate::player::{NowPlaying, Status};
use crate::recovery::{
    backoff, backoff_secs, lemma_normalised_is_trimmed, normalise_url, normalised, recovery,
    recovery_of, Recovery, MAX_WAIT_SECS,
};
use crate::search::{is_address, looks_like_address, pick_views, Search};
use crate::text::{same_text, split_on, trim, trimmed};
use crate::theme::{
    law_names_pick_their_palette, named_index, preset_name, preset_name_text, ThemeChoice,
    PRESET_COUNT,
};

verus! {

broadcast use vstd::string::group_string_axioms;

/// How long a note about the list stays on screen, in milliseconds.
pub const NOTE_TTL_MS: u64 = 4000;

/// What the user asked for in one frame.
pub enum Action {
    /// A station of the list: it is an address, so it plays.
    Play(String),
    /// Whatever was typed: an address plays, anything else opens the search.
    Submit(String),
    /// Drops the stream: the next Play connects afresh.
    Stop,
    /// Takes the station of this address off the list.
    Forget(String),
    /// Writes the list to a file the user picks.
    Export,
    /// Reads a list from a file the user picks.
    Import,
    /// A palette, by its index among the presets.
    Theme(usize),
    /// The stations that were ticked in the search window, as (url, name).
    AddFound(Vec<(String, String)>),
    /// Closes the search window.
    CloseSearch,
}

/// What the application has to do after a step of the session.
pub struct Effects {
    /// An address to hand the audio engine.
    pub play: Option<String>,
    /// Whether the audio engine is to stop.
    pub stop: bool,
    /// A text to send to the directory.
    pub search: Option<String>,
    /// Whether the settings are to be written.
    pub save: bool,
    /// Whether the palette changed, so the style is to be written again.
    pub restyle: bool,
    /// Whether to ask for a file to write the list to.
    pub export: bool,
    /// Whether to ask for a file to read a list from.
    pub import: bool,
}

impl Effects {
    /// Nothing to do.
    pub open spec fn is_none(&self) -> bool {
        &&& self.play is None
        &&& !self.stop
        &&& self.search is None
        &&& !self.save
        &&& !self.restyle
        &&& !self.export
        &&& !self.import
    }

    /// Nothing to do.
    pub fn none() -> (e: Effects)
        ensures
            e.is_none(),
    {
        Effects {
            play: None,
            stop: false,
            search: None,
            save: false,
            restyle: false,
            export: false,
            import: false,
        }
    }
}

/// What the reconnect watch asks of the application.
pub enum Watch {
    /// Nothing this frame.
    Idle,
    /// Wake the window again after this many milliseconds.
    WakeIn(u64),
    /// Play this address again (and write the settings, as every start does).
    Play(String),
}

/// The state of the window that outlives a frame.
pub struct Session {
    /// The settings and the station list.
    pub config: Config,
    /// Why there is no audio engine, when there is none: the card says so and
    /// nothing plays.
    pub audio_error: Option<String>,
    /// The input field. It only serves to add a new station, so it is cleared
    /// once what was typed has been acted on.
    pub url_input: String,
    /// The station that has been handed to the audio engine.
    pub playing_url: String,
    /// Deadline for the automatic reconnect after the stream drops, in
    /// milliseconds on the clock the application reads `now` from.
    pub reconnect_at: Option<u64>,
    /// How many times we have reconnected without the user asking. It widens
    /// the wait, and only a deliberate Play or Stop puts it back to zero.
    pub reconnect_tries: u32,
    /// Whether the system has been asked to stay awake for us.
    pub keeps_awake: bool,
    /// A short message about the list, with the time it was written.
    pub note: Option<(String, u64)>,
    /// The search window, while it is open.
    pub search: Option<Search>,
    /// The palette in force.
    pub theme: ThemeChoice,
}

/// A note as the specifications see it.
pub open spec fn note_view(n: Option<(String, u64)>) -> Option<(Seq<char>, u64)> {
    match n {
        Some((t, at)) => Some((t@, at)),
        None => None,
    }
}

/// One ticked result offered to the list, and the count of stations taken.
pub open spec fn add_step(st: (Seq<StationView>, nat), pick: (Seq<char>, Seq<char>)) -> (
    Seq<StationView>,
    nat,
) {
    if admits(st.0, trimmed(pick.0)) {
        (st.0.push((trimmed(pick.0), clean_name(Some(pick.1)))), st.1 + 1)
    } else {
        st
    }
}

/// The ticked results offered to the list one after the other.
pub open spec fn add_picks(m: Seq<StationView>, picks: Seq<(Seq<char>, Seq<char>)>) -> (
    Seq<StationView>,
    nat,
)
    decreases picks.len(),
{
    if picks.len() == 0 {
        (m, 0)
    } else {
        add_step(add_picks(m, picks.drop_last()), picks.last())
    }
}

impl Session {
    /// Whether there is an audio engine to play with.
    pub open spec fn has_player(&self) -> bool {
        self.audio_error is None
    }

    /// What every step keeps: the station list stays well formed.
    pub open spec fn wf(&self) -> bool {
        self.config.wf()
    }

    /// The same session with another count of reconnects.
    pub open spec fn with_tries(self, tries: u32) -> Session {
        Session { reconnect_tries: tries, ..self }
    }

    /// `after` differs from this session at most in its settings and its note.
    pub open spec fn same_but_list(&self, after: Session) -> bool {
        &&& after.audio_error == self.audio_error
        &&& after.url_input == self.url_input
        &&& after.playing_url == self.playing_url
        &&& after.reconnect_at == self.reconnect_at
        &&& after.reconnect_tries == self.reconnect_tries
        &&& after.keeps_awake == self.keeps_awake
        &&& after.search == self.search
        &&& after.theme == self.theme
    }

    /// The parts of the session a step about playback leaves alone.
    pub open spec fn keeps_rest(&self, after: Session) -> bool {
        &&& after.audio_error == self.audio_error
        &&& after.keeps_awake == self.keeps_awake
        &&& after.note == self.note
        &&& after.search == self.search
        &&& after.theme == self.theme
    }

    /// `after` is this session once the (normalised, non-empty) address `u` was
    /// started: it is the station that plays, it went to the top of the list and
    /// is the last one heard, the field is cleared and no reconnect is pending.
    pub open spec fn started(&self, u: Seq<char>, after: Session) -> bool {
        &&& after.playing_url@ == u
        &&& after.url_input@.len() == 0
        &&& after.reconnect_at is None
        &&& after.reconnect_tries == self.reconnect_tries
        &&& after.config.stations() == remembered(self.config.stations(), u)
        &&& after.config.last_url@ == u
        &&& after.config.autoplay == self.config.autoplay
        &&& self.keeps_rest(after)
    }

    /// `after` and `r` are what starting `url` gives: the normalised address is
    /// played when there is one and an engine to play it, and nothing changes
    /// otherwise.
    pub open spec fn start_post(&self, url: Seq<char>, after: Session, r: Option<String>) -> bool {
        let u = normalised(url);
        &&& u.len() > 0 && self.has_player() ==> (r matches Some(p) && p@ == u && self.started(
            u,
            after,
        ))
        &&& !(u.len() > 0 && self.has_player()) ==> r is None && after == *self
    }

    /// `after` and `r` are what submitting `text` gives.
    pub open spec fn submit_post(&self, text: Seq<char>, after: Session, r: Effects) -> bool {
        &&& trimmed(text).len() == 0 ==> r.is_none() && after == *self
        &&& trimmed(text).len() > 0 && is_address(text) ==> {
            &&& r.search is None && !r.stop && !r.restyle && !r.export && !r.import
            &&& r.save == r.play is Some
            &&& self.start_post(text, after, r.play)
        }
        &&& trimmed(text).len() > 0 && !is_address(text) ==> {
            &&& r.search matches Some(q) && q@ == text
            &&& r.play is None && !r.save && !r.stop && !r.restyle && !r.export && !r.import
            &&& after.search matches Some(s) && s.query@ == trimmed(text) && s.state is Searching
            &&& after.url_input@.len() == 0
            &&& after.config == self.config
            &&& after.playing_url == self.playing_url
            &&& after.reconnect_at == self.reconnect_at
            &&& after.reconnect_tries == self.reconnect_tries
            &&& after.audio_error == self.audio_error
            &&& after.keeps_awake == self.keeps_awake
            &&& after.note == self.note
            &&& after.theme == self.theme
        }
    }

    /// What the card button would play: whatever was typed, otherwise the
    /// station heard last time.
    pub open spec fn pending(&self) -> Seq<char> {
        if trimmed(self.url_input@).len() == 0 {
            self.config.last_url@
        } else {
            trimmed(self.url_input@)
        }
    }

    /// Starts a station and records it in the settings. Hands back the address
    /// for the audio engine (the settings are then to be written), or nothing
    /// when there is no address or no engine.
    pub fn start(&mut self, url: &str) -> (r: Option<String>)
        ensures
            old(self).start_post(url@, *final(self), r),
            old(self).wf() ==> final(self).wf(),
    {
        let u = normalise_url(url);
        if u.as_str().is_empty() || self.audio_error.is_some() {
            return None;
        }
        proof {
            lemma_normalised_is_trimmed(url@);
        }
        self.playing_url = u.clone();
        self.url_input = String::new();
        self.reconnect_at = None;
        self.config.remember(u.as_str());
        Some(u)
    }

    /// Stops the stream. Nothing is kept to resume from: the station is live,
    /// so the next Play reconnects and picks it up where it is by then.
    pub fn stop(&mut self)
        ensures
            final(self).playing_url@.len() == 0,
            final(self).reconnect_at is None,
            final(self).reconnect_tries == 0,
            final(self).config == old(self).config,
            final(self).url_input == old(self).url_input,
            old(self).keeps_rest(*final(self)),
    {
        self.playing_url = String::new();
        self.reconnect_at = None;
        self.reconnect_tries = 0;
    }

    /// What the card button will play: whatever was typed, otherwise the
    /// station heard last time.
    pub fn pending_url(&self) -> (r: &str)
        ensures
            r@ == self.pending(),
    {
        let typed = trim(self.url_input.as_str());
        if typed.is_empty() {
            self.config.last_url.as_str()
        } else {
            typed
        }
    }

    /// Shows a message on the counter line for a few seconds from `now`.
    pub fn say(&mut self, note: String, now: u64)
        ensures
            final(self).note == Some((note, now)),
            final(self).config == old(self).config,
            old(self).same_but_list(*final(self)),
    {
        self.note = Some((note, now));
    }

    /// What Connect (or Enter) asks for: a stream address is played straight
    /// away, anything else is sent to the directory as a search, and a blank
    /// field does nothing.
    pub fn submit(&mut self, text: &str) -> (r: Effects)
        ensures
            old(self).submit_post(text@, *final(self), r),
            old(self).wf() ==> final(self).wf(),
    {
        let mut e = Effects::none();
        if trim(text).is_empty() {
            return e;
        }
        if looks_like_address(text) {
            let played = self.start(text);
            e.save = played.is_some();
            e.play = played;
            return e;
        }
        self.search = Some(Search::start(text));
        self.url_input = String::new();
        e.search = Some(text.to_owned());
        e
    }

    /// Puts the stations that were ticked in the search window at the end of
    /// the list, and says how many it took. Hands back whether the settings
    /// are to be written: only when the list changed.
    pub fn add_found(&mut self, stations: &Vec<(String, String)>, now: u64) -> (r: bool)
        ensures
            final(self).config.stations() == add_picks(
                old(self).config.stations(),
                pick_views(stations@),
            ).0,
            r == (add_picks(old(self).config.stations(), pick_views(stations@)).1 > 0),
            note_view(final(self).note) == Some(
                (
                    found_note_of(
                        add_picks(old(self).config.stations(), pick_views(stations@)).1,
                        (stations@.len() - add_picks(
                            old(self).config.stations(),
                            pick_views(stations@),
                        ).1) as nat,
                    ),
                    now,
                ),
            ),
            final(self).config.last_url == old(self).config.last_url,
            final(self).config.autoplay == old(self).config.autoplay,
            old(self).same_but_list(*final(self)),
            old(self).wf() ==> final(self).wf(),
    {
        let mut config = Config::default();
        std::mem::swap(&mut config, &mut self.config);
        let ghost m = config.stations();
        let ghost w = config.wf();
        let ghost last = config.last_url;
        let ghost auto = config.autoplay;
        let ghost picks = pick_views(stations@);
        let mut added: usize = 0;
        let mut i: usize = 0;
        while i < stations.len()
            invariant
                i <= stations@.len(),
                picks == pick_views(stations@),
                (config.stations(), added as nat) == add_picks(m, picks.take(i as int)),
                added <= i,
                config.last_url == last,
                config.autoplay == auto,
                w ==> config.wf(),
            decreases stations@.len() - i,
        {
            proof {
                assert(picks.take(i + 1).drop_last() =~= picks.take(i as int));
            }
            let (url, name) = &stations[i];
            if config.add(url.as_str(), Some(name.as_str())) {
                added = added + 1;
            }
            i = i + 1;
        }
        proof {
            assert(picks.take(stations@.len() as int) =~= picks);
        }
        self.config = config;
        let missed = stations.len() - added;
        self.note = Some((found_note(added, missed), now));
        added > 0
    }

    /// Takes in a list read from a file and says how many stations were new.
    /// Hands back whether the settings are to be written.
    pub fn import_list(&mut self, text: &str, now: u64) -> (r: bool)
        ensures
            final(self).config.stations() == import_lines(
                old(self).config.stations(),
                split_on(text@, '\n'),
            ).0,
            r == (import_lines(old(self).config.stations(), split_on(text@, '\n')).1 > 0),
            note_view(final(self).note) == Some(
                (
                    added_note_of(
                        import_lines(old(self).config.stations(), split_on(text@, '\n')).1,
                    ),
                    now,
                ),
            ),
            final(self).config.last_url == old(self).config.last_url,
            final(self).config.autoplay == old(self).config.autoplay,
            old(self).same_but_list(*final(self)),
            old(self).wf() ==> final(self).wf(),
    {
        let added = self.config.import_text(text);
        self.note = Some((added_note(added), now));
        added > 0
    }

    /// Says that the list was written to a file.
    pub fn exported(&mut self, now: u64)
        ensures
            note_view(final(self).note) == Some(
                (saved_word() + counted(old(self).config.recent@.len()), now),
            ),
            final(self).config == old(self).config,
            old(self).same_but_list(*final(self)),
    {
        let note = saved_note(self.config.recent.len());
        self.note = Some((note, now));
    }

    /// Keeps the station name as soon as the stream sends it, so the list does
    /// not show a bare address next time. Hands back whether the settings are to
    /// be written: only when the name is new.
    pub fn note_station_name(&mut self, now: &NowPlaying) -> (r: bool)
        ensures
            ({
                let named = old(self).playing_url@.len() > 0 && now.station is Some
                    && renamed(
                    old(self).config.stations(),
                    old(self).playing_url@,
                    now.station->0@,
                ) is Some;
                &&& r == named
                &&& named ==> final(self).config.stations() == renamed(
                    old(self).config.stations(),
                    old(self).playing_url@,
                    now.station->0@,
                )->0
                &&& !named ==> *final(self) == *old(self)
            }),
            final(self).config.last_url == old(self).config.last_url,
            final(self).config.autoplay == old(self).config.autoplay,
            old(self).same_but_list(*final(self)),
            final(self).note == old(self).note,
            old(self).wf() ==> final(self).wf(),
    {
        if self.playing_url.as_str().is_empty() {
            return false;
        }
        match &now.station {
            Some(name) => self.config.name_station(self.playing_url.as_str(), name.as_str()),
            None => false,
        }
    }

    /// Holds the system awake for as long as a station is on (`active`: the
    /// engine is connecting, playing or paused). Hands back the new wish when it
    /// changed, so the system is asked once rather than on every frame.
    pub fn watch_sleep(&mut self, active: bool) -> (r: Option<bool>)
        ensures
            ({
                let wanted = old(self).has_player() && active;
                &&& final(self).keeps_awake == wanted
                &&& r == if wanted != old(self).keeps_awake {
                    Some(wanted)
                } else {
                    None
                }
            }),
            *final(self) == (Session { keeps_awake: final(self).keeps_awake, ..*old(self) }),
    {
        let wanted = self.audio_error.is_none() && active;
        if wanted != self.keeps_awake {
            self.keeps_awake = wanted;
            Some(wanted)
        } else {
            None
        }
    }

    /// Live streams do drop. If the stream is not coming through (`broken`)
    /// while a station is on, a reconnect is scheduled after the backoff; when
    /// the deadline has passed the station is started again; and if it came back
    /// by itself in the meantime the pending reconnect is dropped. `now` is the
    /// time in milliseconds.
    pub fn watch_for_dropped_stream(&mut self, broken: bool, now: u64) -> (r: Watch)
        requires
            now + MAX_WAIT_SECS * 1000 <= u64::MAX,
        ensures
            !old(self).has_player() ==> r is Idle && *final(self) == *old(self),
            old(self).has_player() ==> match recovery_of(
                broken,
                old(self).playing_url@.len() > 0,
                old(self).reconnect_at,
                now,
            ) {
                Recovery::Nothing => r is Idle && *final(self) == *old(self),
                Recovery::Cancel => r is Idle && final(self).reconnect_at is None
                    && final(self).config == old(self).config && final(self).playing_url
                    == old(self).playing_url && final(self).reconnect_tries == old(
                    self,
                ).reconnect_tries && old(self).keeps_rest(*final(self)),
                Recovery::Wait(at) => r == Watch::WakeIn((at - now) as u64) && *final(self)
                    == *old(self),
                Recovery::Schedule => r == Watch::WakeIn(
                    (backoff_secs(old(self).reconnect_tries) * 1000) as u64,
                ) && final(self).reconnect_at == Some(
                    (now + backoff_secs(old(self).reconnect_tries) * 1000) as u64,
                ) && final(self).config == old(self).config && final(self).playing_url == old(
                    self,
                ).playing_url && final(self).reconnect_tries == old(self).reconnect_tries && old(
                    self,
                ).keeps_rest(*final(self)),
                Recovery::Reconnect => {
                    let tried = if old(self).reconnect_tries < u32::MAX {
                        (old(self).reconnect_tries + 1) as u32
                    } else {
                        u32::MAX
                    };
                    let u = normalised(old(self).playing_url@);
                    &&& final(self).reconnect_tries == tried
                    &&& u.len() > 0 ==> (r matches Watch::Play(p) && p@ == u && old(
                        self,
                    ).with_tries(tried).started(u, *final(self)))
                    &&& u.len() == 0 ==> r is Idle && *final(self) == old(self).with_tries(tried)
                },
            },
            old(self).wf() ==> final(self).wf(),
    {
        if self.audio_error.is_some() {
            return Watch::Idle;
        }
        let wanted = !self.playing_url.as_str().is_empty();
        match recovery(broken, wanted, self.reconnect_at, now) {
            Recovery::Nothing => Watch::Idle,
            Recovery::Cancel => {
                self.reconnect_at = None;
                Watch::Idle
            },
            Recovery::Wait(at) => Watch::WakeIn(at - now),
            Recovery::Schedule => {
                let wait = backoff(self.reconnect_tries);
                proof {
                    crate::recovery::law_backoff_widens_to_a_cap(self.reconnect_tries, self.reconnect_tries);
                }
                let ms = wait * 1000;
                self.reconnect_at = Some(now + ms);
                Watch::WakeIn(ms)
            },
            Recovery::Reconnect => {
                self.reconnect_tries = self.reconnect_tries.saturating_add(1);
                let url = self.playing_url.clone();
                match self.start(url.as_str()) {
                    Some(u) => Watch::Play(u),
                    None => Watch::Idle,
                }
            },
        }
    }

    /// The session of a window that has just opened, with the palette of that
    /// name in force. A station that was on when the app was last closed starts
    /// again when the settings ask for that.
    pub fn new(config: Config, audio_error: Option<String>, theme: &str) -> (r: (Session, Effects))
        ensures
            r.0.audio_error == audio_error,
            r.0.theme.index == named_index(theme@),
            r.0.url_input@.len() == 0,
            r.0.reconnect_at is None,
            r.0.reconnect_tries == 0,
            !r.0.keeps_awake,
            r.0.note is None,
            r.0.search is None,
            r.0.config.autoplay == config.autoplay,
            !r.1.stop && r.1.search is None && !r.1.restyle && !r.1.export && !r.1.import,
            ({
                let u = normalised(config.last_url@);
                let plays = config.autoplay && config.last_url@.len() > 0 && audio_error is None
                    && u.len() > 0;
                &&& plays ==> (r.1.play matches Some(p) && p@ == u && r.1.save
                    && r.0.playing_url@ == u && r.0.config.last_url@ == u
                    && r.0.config.stations() == remembered(config.stations(), u))
                &&& !plays ==> r.1.is_none() && r.0.config == config && r.0.playing_url@.len()
                    == 0
            }),
            config.wf() ==> r.0.wf(),
    {
        let mut choice = ThemeChoice { index: 0 };
        crate::theme::set(&mut choice, theme);
        let autoplay = config.autoplay && !config.last_url.as_str().is_empty();
        let last = config.last_url.clone();
        let mut session = Session {
            config,
            audio_error,
            url_input: String::new(),
            playing_url: String::new(),
            reconnect_at: None,
            reconnect_tries: 0,
            keeps_awake: false,
            note: None,
            search: None,
            theme: choice,
        };
        let mut e = Effects::none();
        if autoplay {
            let played = session.start(last.as_str());
            e.save = played.is_some();
            e.play = played;
        }
        (session, e)
    }

    /// What a click on the card button asks for, or nothing while the button is
    /// off: it stops a station that is on (`live`: connecting counts, so the
    /// button is the way out of a connection that hangs), and otherwise plays
    /// what is pending — which needs something pending, and an engine.
    pub fn hero_action(&self, live: bool) -> (r: Option<Action>)
        ensures
            !(self.has_player() && (live || self.pending().len() > 0)) ==> r is None,
            self.has_player() && live ==> r matches Some(Action::Stop),
            self.has_player() && !live && self.pending().len() > 0 ==> (r matches Some(
                Action::Submit(t),
            ) && t@ == self.pending()),
    {
        let has_url = !self.pending_url().is_empty();
        if !(self.audio_error.is_none() && (live || has_url)) {
            return None;
        }
        if live {
            Some(Action::Stop)
        } else {
            Some(Action::Submit(self.pending_url().to_owned()))
        }
    }

    /// What a click on a station row asks for: the station that is on the air
    /// stops, any other one starts.
    pub fn row_action(&self, url: &str, status: &Status) -> (r: Action)
        ensures
            url@ == self.playing_url@ && (status is Connecting || status is Playing
                || status is Paused) ==> r is Stop,
            !(url@ == self.playing_url@ && (status is Connecting || status is Playing
                || status is Paused)) ==> (r matches Action::Play(u) && u@ == url@),
    {
        if same_text(url, self.playing_url.as_str()) && status.is_active() {
            Action::Stop
        } else {
            Action::Play(url.to_owned())
        }
    }

    /// How many milliseconds the note has left on screen at `now`, while it is
    /// fresh.
    pub open spec fn note_left_of(&self, now: u64) -> Option<u64> {
        match self.note {
            Some((_, at)) => {
                let elapsed: int = if now >= at {
                    now - at
                } else {
                    0
                };
                if elapsed <= NOTE_TTL_MS {
                    Some((NOTE_TTL_MS - elapsed) as u64)
                } else {
                    None
                }
            },
            None => None,
        }
    }

    /// How long the note stays on screen from `now`, while it is fresh: the
    /// window asks to be woken then, so it fades out on its own.
    pub fn note_left(&self, now: u64) -> (r: Option<u64>)
        ensures
            r == self.note_left_of(now),
    {
        match &self.note {
            Some((_, at)) => {
                let elapsed = if now >= *at {
                    now - *at
                } else {
                    0
                };
                if elapsed <= NOTE_TTL_MS {
                    Some(NOTE_TTL_MS - elapsed)
                } else {
                    None
                }
            },
            None => None,
        }
    }

    /// The line above the list: while it is fresh the note takes the
    /// counter's place, in the title colour; otherwise the counter, dimmed.
    pub fn header_line(&self, now: u64) -> (r: (String, Tint))
        ensures
            self.note_left_of(now) is Some ==> (self.note matches Some((t, _)) && r.0@ == t@
                && r.1 == Tint::Title),
            self.note_left_of(now) is None ==> r.0@ == count_label_of(
                self.config.recent@.len(),
            ) && r.1 == Tint::Muted,
    {
        if self.note_left(now).is_some() {
            match &self.note {
                Some((t, _)) => return (t.clone(), Tint::Title),
                None => {},
            }
        }
        (count_label(self.config.recent.len()), Tint::Muted)
    }

    /// Runs what the user asked for in this frame. Asking for a station by hand
    /// is a fresh start: the widening reconnect wait does not carry over.
    pub fn apply(&mut self, action: Action, now: u64) -> (r: Effects)
        requires
            action matches Action::Theme(i) ==> i < PRESET_COUNT,
        ensures
            old(self).wf() ==> final(self).wf(),
            match action {
                Action::Play(url) => {
                    &&& r.search is None && !r.stop && !r.restyle && !r.export && !r.import
                    &&& r.save == r.play is Some
                    &&& old(self).with_tries(0).start_post(url@, *final(self), r.play)
                },
                Action::Submit(text) => old(self).with_tries(0).submit_post(
                    text@,
                    *final(self),
                    r,
                ),
                Action::Stop => {
                    &&& r.stop && r.play is None && r.search is None && !r.save && !r.restyle
                        && !r.export && !r.import
                    &&& final(self).playing_url@.len() == 0
                    &&& final(self).reconnect_at is None
                    &&& final(self).reconnect_tries == 0
                    &&& final(self).config == old(self).config
                    &&& final(self).url_input == old(self).url_input
                    &&& old(self).keeps_rest(*final(self))
                },
                Action::Forget(url) => {
                    &&& r.save && r.play is None && !r.stop && r.search is None && !r.restyle
                        && !r.export && !r.import
                    &&& final(self).config.stations() == drop_url(
                        old(self).config.stations(),
                        url@,
                    )
                    &&& final(self).config.last_url == old(self).config.last_url
                    &&& final(self).config.autoplay == old(self).config.autoplay
                    &&& old(self).same_but_list(*final(self))
                    &&& final(self).note == old(self).note
                },
                Action::Export => r.export && r.play is None && !r.stop && r.search is None
                    && !r.save && !r.restyle && !r.import && *final(self) == *old(self),
                Action::Import => r.import && r.play is None && !r.stop && r.search is None
                    && !r.save && !r.restyle && !r.export && *final(self) == *old(self),
                Action::Theme(i) => {
                    &&& r.restyle && r.save && r.play is None && !r.stop && r.search is None
                        && !r.export && !r.import
                    &&& *final(self) == (Session { theme: ThemeChoice { index: i }, ..*old(self) })
                },
                Action::AddFound(list) => {
                    let added = add_picks(old(self).config.stations(), pick_views(list@));
                    &&& r.save == (added.1 > 0)
                    &&& r.play is None && !r.stop && r.search is None && !r.restyle
                        && !r.export && !r.import
                    &&& final(self).config.stations() == added.0
                    &&& final(self).search is None
                    &&& note_view(final(self).note) == Some(
                        (found_note_of(added.1, (list@.len() - added.1) as nat), now),
                    )
                    &&& final(self).config.last_url == old(self).config.last_url
                    &&& final(self).config.autoplay == old(self).config.autoplay
                    &&& (Session { search: None, ..*old(self) }).same_but_list(*final(self))
                },
                Action::CloseSearch => {
                    &&& r.is_none()
                    &&& *final(self) == (Session { search: None, ..*old(self) })
                },
            },
    {
        let mut e = Effects::none();
        match action {
            Action::Play(url) => {
                self.reconnect_tries = 0;
                let played = self.start(url.as_str());
                e.save = played.is_some();
                e.play = played;
            },
            Action::Submit(text) => {
                self.reconnect_tries = 0;
                e = self.submit(text.as_str());
            },
            Action::Stop => {
                self.stop();
                e.stop = true;
            },
            Action::Forget(url) => {
                self.config.forget(url.as_str());
                e.save = true;
            },
            Action::Export => {
                e.export = true;
            },
            Action::Import => {
                e.import = true;
            },
            Action::Theme(i) => {
                crate::theme::set(&mut self.theme, preset_name_text(i));
                proof {
                    law_names_pick_their_palette(i as int, preset_name(i as int));
                }
                e.restyle = true;
                e.save = true;
            },
            Action::AddFound(list) => {
                e.save = self.add_found(&list, now);
                self.search = None;
            },
            Action::CloseSearch => {
                self.search = None;
            },
        }
        e
    }
}

} // verus!
