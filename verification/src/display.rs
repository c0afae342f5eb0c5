//! What the window says: the lines of the card, the second line of a station
//! row, and the counters and notes of the list. Painting them is the
//! application's business; the words and which palette slot they are painted in
//! are decided here.

use vstd::prelude::*;
use crate::config::{strip_scheme, without_scheme};
use crate::player::{NowPlaying, Status};
use crate::search::{bullet_sep, bullet_text, is_address, kbps, kbps_text_of, looks_like_address};
use crate::text::{decimal, decimal_text, join, joined, trim, trimmed};

verus! {

broadcast use vstd::string::group_string_axioms;

/// The palette slot a line of text is painted in.
#[derive(Debug, Clone, Copy, PartialEq, Eq, Structural)]
pub enum Tint {
    /// The ordinary text colour.
    Text,
    /// Dimmed: prompts and counters.
    Muted,
    /// The accent of the title bar, kept for station metadata.
    Title,
    /// Failure messages.
    Error,
}

// ---------------------------------------------------------------- the details of a track

/// An optional text as a sequence of at most one part.
pub open spec fn part_of(o: Option<String>) -> Seq<Seq<char>> {
    match o {
        Some(s) => seq![s@],
        None => seq![],
    }
}

/// Artist, album, genre and bitrate, those of them the station sent.
pub open spec fn detail_parts(now: NowPlaying) -> Seq<Seq<char>> {
    part_of(now.artist) + part_of(now.album) + part_of(now.genre) + match now.bitrate {
        Some(b) => seq![kbps(b)],
        None => seq![],
    }
}

/// The details line of a track: its parts joined by a bullet.
pub open spec fn details_of(now: NowPlaying) -> Seq<char> {
    joined(detail_parts(now), bullet_sep())
}

/// Appends the text of an optional part, when there is one.
fn push_part(parts: &mut Vec<String>, o: &Option<String>)
    ensures
        final(parts)@.map_values(|p: String| p@) == old(parts)@.map_values(|p: String| p@)
            + part_of(*o),
{
    let ghost before = parts@.map_values(|p: String| p@);
    match o {
        Some(s) => {
            parts.push(s.clone());
            assert(parts@.map_values(|p: String| p@) =~= before + part_of(*o));
        },
        None => {
            assert(parts@.map_values(|p: String| p@) =~= before + part_of(*o));
        },
    }
}

/// Artist, album, genre, bitrate. The station name is missing on purpose: it is
/// already the title above, and in the list it is the title of the row.
pub fn track_details(now: &NowPlaying) -> (r: String)
    ensures
        r@ == details_of(*now),
{
    let mut parts: Vec<String> = Vec::new();
    assert(parts@.map_values(|p: String| p@) =~= Seq::<Seq<char>>::empty());
    push_part(&mut parts, &now.artist);
    push_part(&mut parts, &now.album);
    push_part(&mut parts, &now.genre);
    let ghost before = parts@.map_values(|p: String| p@);
    match now.bitrate {
        Some(b) => {
            parts.push(kbps_text_of(b));
            assert(parts@.map_values(|p: String| p@) =~= before + seq![kbps(b)]);
        },
        None => {},
    }
    assert(parts@.map_values(|p: String| p@) =~= detail_parts(*now));
    join(&parts, bullet_text())
}

/// All we can say about a station that is not playing: its address, without
/// the scheme.
pub fn url_meta(url: &str) -> (r: String)
    ensures
        r@ == without_scheme(url@),
{
    strip_scheme(url).to_owned()
}

// ---------------------------------------------------------------- the card

/// `"Enter a stream address and press Play."`, the prompt of an idle card.
pub open spec fn idle_prompt() -> Seq<char> {
    seq![
        'E', 'n', 't', 'e', 'r', ' ', 'a', ' ', 's', 't', 'r', 'e', 'a', 'm', ' ', 'a', 'd', 'd',
        'r', 'e', 's', 's', ' ', 'a', 'n', 'd', ' ', 'p', 'r', 'e', 's', 's', ' ', 'P', 'l', 'a',
        'y', '.',
    ]
}

fn idle_prompt_text() -> (r: &'static str)
    ensures
        r@ == idle_prompt(),
{
    proof {
        reveal_strlit("Enter a stream address and press Play.");
    }
    let r = "Enter a stream address and press Play.";
    assert(r@ =~= idle_prompt());
    r
}

/// The second line of the card: the prompt while nothing is playing, dimmed,
/// and the details of the track otherwise, in the metadata colour.
pub open spec fn detail_line_of(now: NowPlaying, status: Status) -> (Seq<char>, Tint) {
    if status is Idle {
        (idle_prompt(), Tint::Muted)
    } else {
        (details_of(now), Tint::Title)
    }
}

/// The second line of the card, with its colour.
pub fn detail_line(now: &NowPlaying, status: &Status) -> (r: (String, Tint))
    ensures
        (r.0@, r.1) == detail_line_of(*now, *status),
{
    match status {
        Status::Idle => (idle_prompt_text().to_owned(), Tint::Muted),
        _ => (track_details(now), Tint::Title),
    }
}

/// `"Reconnecting…"`.
pub open spec fn reconnecting_word() -> Seq<char> {
    seq!['R', 'e', 'c', 'o', 'n', 'n', 'e', 'c', 't', 'i', 'n', 'g', '…']
}

/// `"No station"`.
pub open spec fn no_station_word() -> Seq<char> {
    seq!['N', 'o', ' ', 's', 't', 'a', 't', 'i', 'o', 'n']
}

/// `"Connecting to the station…"`.
pub open spec fn connecting_word() -> Seq<char> {
    seq![
        'C', 'o', 'n', 'n', 'e', 'c', 't', 'i', 'n', 'g', ' ', 't', 'o', ' ', 't', 'h', 'e', ' ',
        's', 't', 'a', 't', 'i', 'o', 'n', '…',
    ]
}

/// `"Playing"`.
pub open spec fn playing_word() -> Seq<char> {
    seq!['P', 'l', 'a', 'y', 'i', 'n', 'g']
}

fn reconnecting_text() -> (r: &'static str)
    ensures
        r@ == reconnecting_word(),
{
    proof {
        reveal_strlit("Reconnecting…");
    }
    let r = "Reconnecting…";
    assert(r@ =~= reconnecting_word());
    r
}

fn no_station_text() -> (r: &'static str)
    ensures
        r@ == no_station_word(),
{
    proof {
        reveal_strlit("No station");
    }
    let r = "No station";
    assert(r@ =~= no_station_word());
    r
}

fn connecting_text() -> (r: &'static str)
    ensures
        r@ == connecting_word(),
{
    proof {
        reveal_strlit("Connecting to the station…");
    }
    let r = "Connecting to the station…";
    assert(r@ =~= connecting_word());
    r
}

fn playing_text() -> (r: &'static str)
    ensures
        r@ == playing_word(),
{
    proof {
        reveal_strlit("Playing");
    }
    let r = "Playing";
    assert(r@ =~= playing_word());
    r
}

/// What the card shows for a station on the air: the track, else the raw
/// title, else the station's name — each only when the station sent it.
pub open spec fn on_air_of(now: NowPlaying) -> Option<Seq<char>> {
    match now.track {
        Some(t) => Some(t@),
        None => match now.raw_title {
            Some(t) => Some(t@),
            None => match now.station {
                Some(t) => Some(t@),
                None => None,
            },
        },
    }
}

/// The card title, with its colour. A missing sound device says so and nothing
/// else; a pending reconnect says that, since a stalled stream still counts as
/// playing; then the status; and while the station is on the air, what it
/// sends — painted in the metadata colour only when it really is metadata.
pub open spec fn headline_of(
    audio_error: Option<Seq<char>>,
    reconnecting: bool,
    now: NowPlaying,
    status: Status,
) -> (Seq<char>, Tint) {
    match audio_error {
        Some(e) => (e, Tint::Text),
        None => if reconnecting {
            (reconnecting_word(), Tint::Muted)
        } else {
            match status {
                Status::Error(m) => (m@, Tint::Error),
                Status::Idle => (no_station_word(), Tint::Text),
                Status::Connecting => (connecting_word(), Tint::Text),
                _ => match on_air_of(now) {
                    Some(t) => (t, Tint::Title),
                    None => (playing_word(), Tint::Text),
                },
            }
        },
    }
}

/// The card title: the track that is playing, otherwise the status.
pub fn headline(
    audio_error: &Option<String>,
    reconnecting: bool,
    now: &NowPlaying,
    status: &Status,
) -> (r: (String, Tint))
    ensures
        (r.0@, r.1) == headline_of(crate::config::opt_text(*audio_error), reconnecting, *now, *status),
{
    if let Some(error) = audio_error {
        return (error.clone(), Tint::Text);
    }
    if reconnecting {
        return (reconnecting_text().to_owned(), Tint::Muted);
    }
    match status {
        Status::Error(message) => (message.clone(), Tint::Error),
        Status::Idle => (no_station_text().to_owned(), Tint::Text),
        Status::Connecting => (connecting_text().to_owned(), Tint::Text),
        _ => {
            let track = match &now.track {
                Some(t) => Some(t.clone()),
                None => match &now.raw_title {
                    Some(t) => Some(t.clone()),
                    None => match &now.station {
                        Some(t) => Some(t.clone()),
                        None => None,
                    },
                },
            };
            match track {
                Some(t) => (t, Tint::Title),
                None => (playing_text().to_owned(), Tint::Text),
            }
        },
    }
}

// ---------------------------------------------------------------- a station row

/// The second line of a station row. Only the station that is on the air has a
/// track and a bitrate to show; a named station shows its address instead,
/// and a station that has none shows nothing, since its address is already the
/// title of the row.
pub open spec fn row_meta_of(live: bool, now: NowPlaying, named: bool, url: Seq<char>) -> Seq<
    char,
> {
    let details = if live {
        details_of(now)
    } else {
        Seq::<char>::empty()
    };
    if details.len() > 0 {
        details
    } else if named {
        without_scheme(url)
    } else {
        Seq::<char>::empty()
    }
}

/// The second line of a station row; `live` says the row is the station that
/// is playing, and that something is on.
pub fn row_meta(live: bool, now: &NowPlaying, named: bool, url: &str) -> (r: String)
    ensures
        r@ == row_meta_of(live, *now, named, url@),
{
    let details = if live {
        track_details(now)
    } else {
        String::new()
    };
    if !details.as_str().is_empty() {
        details
    } else if named {
        url_meta(url)
    } else {
        String::new()
    }
}

// ---------------------------------------------------------------- counters and notes

/// `" station"`.
pub open spec fn station_word() -> Seq<char> {
    seq![' ', 's', 't', 'a', 't', 'i', 'o', 'n']
}

/// `" stations"`.
pub open spec fn stations_word() -> Seq<char> {
    seq![' ', 's', 't', 'a', 't', 'i', 'o', 'n', 's']
}

/// `" found"`.
pub open spec fn found_word() -> Seq<char> {
    seq![' ', 'f', 'o', 'u', 'n', 'd']
}

/// `"no stations yet"`.
pub open spec fn empty_list_word() -> Seq<char> {
    seq!['n', 'o', ' ', 's', 't', 'a', 't', 'i', 'o', 'n', 's', ' ', 'y', 'e', 't']
}

/// `"No new stations"`.
pub open spec fn nothing_new_word() -> Seq<char> {
    seq!['N', 'o', ' ', 'n', 'e', 'w', ' ', 's', 't', 'a', 't', 'i', 'o', 'n', 's']
}

/// `"Added "`.
pub open spec fn added_word() -> Seq<char> {
    seq!['A', 'd', 'd', 'e', 'd', ' ']
}

/// `"Saved "`.
pub open spec fn saved_word() -> Seq<char> {
    seq!['S', 'a', 'v', 'e', 'd', ' ']
}

/// `", skipped "`.
pub open spec fn skipped_word() -> Seq<char> {
    seq![',', ' ', 's', 'k', 'i', 'p', 'p', 'e', 'd', ' ']
}

/// `"Add"`.
pub open spec fn add_word() -> Seq<char> {
    seq!['A', 'd', 'd']
}

/// `"Search: "`.
pub open spec fn search_word() -> Seq<char> {
    seq!['S', 'e', 'a', 'r', 'c', 'h', ':', ' ']
}

/// A count and the word it counts, in the singular for one.
pub open spec fn counted(n: nat) -> Seq<char> {
    decimal(n) + if n == 1 {
        station_word()
    } else {
        stations_word()
    }
}

fn station_text() -> (r: &'static str)
    ensures
        r@ == station_word(),
{
    proof {
        reveal_strlit(" station");
    }
    let r = " station";
    assert(r@ =~= station_word());
    r
}

fn stations_text() -> (r: &'static str)
    ensures
        r@ == stations_word(),
{
    proof {
        reveal_strlit(" stations");
    }
    let r = " stations";
    assert(r@ =~= stations_word());
    r
}

fn found_text() -> (r: &'static str)
    ensures
        r@ == found_word(),
{
    proof {
        reveal_strlit(" found");
    }
    let r = " found";
    assert(r@ =~= found_word());
    r
}

fn empty_list_text() -> (r: &'static str)
    ensures
        r@ == empty_list_word(),
{
    proof {
        reveal_strlit("no stations yet");
    }
    let r = "no stations yet";
    assert(r@ =~= empty_list_word());
    r
}

fn nothing_new_text() -> (r: &'static str)
    ensures
        r@ == nothing_new_word(),
{
    proof {
        reveal_strlit("No new stations");
    }
    let r = "No new stations";
    assert(r@ =~= nothing_new_word());
    r
}

fn added_text() -> (r: &'static str)
    ensures
        r@ == added_word(),
{
    proof {
        reveal_strlit("Added ");
    }
    let r = "Added ";
    assert(r@ =~= added_word());
    r
}

fn saved_text() -> (r: &'static str)
    ensures
        r@ == saved_word(),
{
    proof {
        reveal_strlit("Saved ");
    }
    let r = "Saved ";
    assert(r@ =~= saved_word());
    r
}

fn skipped_text() -> (r: &'static str)
    ensures
        r@ == skipped_word(),
{
    proof {
        reveal_strlit(", skipped ");
    }
    let r = ", skipped ";
    assert(r@ =~= skipped_word());
    r
}

fn add_text() -> (r: &'static str)
    ensures
        r@ == add_word(),
{
    proof {
        reveal_strlit("Add");
    }
    let r = "Add";
    assert(r@ =~= add_word());
    r
}

fn search_text() -> (r: &'static str)
    ensures
        r@ == search_word(),
{
    proof {
        reveal_strlit("Search: ");
    }
    let r = "Search: ";
    assert(r@ =~= search_word());
    r
}

/// `"1 station"`, `"2 stations"`.
pub fn counted_text(n: usize) -> (r: String)
    ensures
        r@ == counted(n as nat),
{
    let mut r = decimal_text(n as u64);
    if n == 1 {
        r.append(station_text());
    } else {
        r.append(stations_text());
    }
    r
}

/// The counter above the list.
pub open spec fn count_label_of(count: nat) -> Seq<char> {
    if count == 0 {
        empty_list_word()
    } else {
        counted(count)
    }
}

/// The counter above the list: `no stations yet`, `1 station`, `7 stations`.
pub fn count_label(count: usize) -> (r: String)
    ensures
        r@ == count_label_of(count as nat),
{
    if count == 0 {
        empty_list_text().to_owned()
    } else {
        counted_text(count)
    }
}

/// The counter of the search window: `1 station found`, `7 stations found`.
pub fn found_label(count: usize) -> (r: String)
    ensures
        r@ == counted(count as nat) + found_word(),
{
    let mut r = counted_text(count);
    r.append(found_text());
    r
}

/// The label of the button that adds the ticked results: `Add`, `Add 3`.
pub fn add_label(selected: usize) -> (r: String)
    ensures
        r@ == if selected == 0 {
            add_word()
        } else {
            add_word() + seq![' '] + decimal(selected as nat)
        },
{
    let mut r = add_text().to_owned();
    if selected > 0 {
        proof {
            reveal_strlit(" ");
        }
        r.append(" ");
        r.append(decimal_text(selected as u64).as_str());
    }
    r
}

/// The note after the list was written to a file.
pub fn saved_note(count: usize) -> (r: String)
    ensures
        r@ == saved_word() + counted(count as nat),
{
    let mut r = saved_text().to_owned();
    r.append(counted_text(count).as_str());
    r
}

/// The note after stations were added: how many, or that none were new.
pub open spec fn added_note_of(added: nat) -> Seq<char> {
    if added == 0 {
        nothing_new_word()
    } else {
        added_word() + counted(added)
    }
}

/// The note after a list was read from a file.
pub fn added_note(added: usize) -> (r: String)
    ensures
        r@ == added_note_of(added as nat),
{
    if added == 0 {
        nothing_new_text().to_owned()
    } else {
        let mut r = added_text().to_owned();
        r.append(counted_text(added).as_str());
        r
    }
}

/// The note after ticked results were added: how many, and how many of them
/// the list did not take.
pub open spec fn found_note_of(added: nat, missed: nat) -> Seq<char> {
    if added == 0 || missed == 0 {
        added_note_of(added)
    } else {
        added_word() + decimal(added) + skipped_word() + decimal(missed)
    }
}

/// The note after ticked results were added.
pub fn found_note(added: usize, missed: usize) -> (r: String)
    ensures
        r@ == found_note_of(added as nat, missed as nat),
{
    if added == 0 || missed == 0 {
        added_note(added)
    } else {
        let mut r = added_text().to_owned();
        r.append(decimal_text(added as u64).as_str());
        r.append(skipped_text());
        r.append(decimal_text(missed as u64).as_str());
        r
    }
}

/// The title of the search window.
pub fn search_title(query: &str) -> (r: String)
    ensures
        r@ == search_word() + query@,
{
    let mut r = search_text().to_owned();
    r.append(query);
    r
}

// ---------------------------------------------------------------- buttons

/// `"Search"`.
pub open spec fn search_button_word() -> Seq<char> {
    seq!['S', 'e', 'a', 'r', 'c', 'h']
}

/// `"Connect"`.
pub open spec fn connect_button_word() -> Seq<char> {
    seq!['C', 'o', 'n', 'n', 'e', 'c', 't']
}

/// The button beside the address field, which says what the text in the field
/// will do: it searches when the text is not an address, connects otherwise,
/// and is off while the field is blank.
pub fn address_button(input: &str) -> (r: (&'static str, bool))
    ensures
        r.1 == (trimmed(input@).len() > 0),
        r.0@ == if trimmed(input@).len() > 0 && !is_address(trimmed(input@)) {
            search_button_word()
        } else {
            connect_button_word()
        },
{
    let typed = trim(input);
    let searching = !typed.is_empty() && !looks_like_address(typed);
    let label = if searching {
        proof {
            reveal_strlit("Search");
        }
        let l = "Search";
        assert(l@ =~= search_button_word());
        l
    } else {
        proof {
            reveal_strlit("Connect");
        }
        let l = "Connect";
        assert(l@ =~= connect_button_word());
        l
    };
    (label, !typed.is_empty())
}

/// How the card's play button is filled.
#[derive(Debug, Clone, Copy, PartialEq, Eq, Structural)]
pub enum ButtonTone {
    /// Off: the surface colour.
    Off,
    /// Stop: the danger colour.
    Danger,
    /// Play: the accent colour.
    Accent,
}

/// `"▶  Play"`.
pub open spec fn play_word() -> Seq<char> {
    seq!['▶', ' ', ' ', 'P', 'l', 'a', 'y']
}

/// `"⏹  Stop"`.
pub open spec fn stop_word() -> Seq<char> {
    seq!['⏹', ' ', ' ', 'S', 't', 'o', 'p']
}

/// The face of the card's play button. It only ever says what a click will
/// do: Stop while a station is on (`live`), in red, and Play otherwise.
pub fn play_face(enabled: bool, live: bool) -> (r: (&'static str, ButtonTone))
    ensures
        !enabled ==> r.0@ == play_word() && r.1 == ButtonTone::Off,
        enabled && live ==> r.0@ == stop_word() && r.1 == ButtonTone::Danger,
        enabled && !live ==> r.0@ == play_word() && r.1 == ButtonTone::Accent,
{
    if enabled && live {
        proof {
            reveal_strlit("⏹  Stop");
        }
        let l = "⏹  Stop";
        assert(l@ =~= stop_word());
        (l, ButtonTone::Danger)
    } else {
        proof {
            reveal_strlit("▶  Play");
        }
        let l = "▶  Play";
        assert(l@ =~= play_word());
        (l, if enabled {
            ButtonTone::Accent
        } else {
            ButtonTone::Off
        })
    }
}

} // verus!
