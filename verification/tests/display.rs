use efm::display::{
    add_label, added_note, address_button, count_label, detail_line, found_label, found_note,
    headline, play_face, row_meta, saved_note, search_title, track_details, url_meta,
    ButtonTone, Tint,
};
use efm::player::{NowPlaying, Status};

#[test]
fn strips_the_scheme_for_the_row_subtitle() {
    assert_eq!(url_meta("https://example.com/live"), "example.com/live");
}

#[test]
fn joins_only_the_details_the_station_sent() {
    let now = NowPlaying {
        artist: Some("The Doors".into()),
        bitrate: Some(128),
        ..Default::default()
    };
    assert_eq!(track_details(&now), "The Doors  •  128 kbps");
}

#[test]
fn says_nothing_when_the_station_sent_nothing() {
    assert!(track_details(&NowPlaying::default()).is_empty());
}

#[test]
fn paints_metadata_yellow_but_not_the_idle_prompt() {
    let now = NowPlaying {
        artist: Some("The Doors".into()),
        ..Default::default()
    };
    assert_eq!(detail_line(&now, &Status::Playing).1, Tint::Title);
    assert_eq!(detail_line(&now, &Status::Idle).1, Tint::Muted);
}

#[test]
fn the_idle_card_prompts_for_an_address() {
    let (text, _) = detail_line(&NowPlaying::default(), &Status::Idle);
    assert_eq!(text, "Enter a stream address and press Play.");
}

#[test]
fn all_four_details_in_order() {
    let now = NowPlaying {
        artist: Some("A".into()),
        album: Some("B".into()),
        genre: Some("C".into()),
        bitrate: Some(0),
        station: Some("not shown".into()),
        ..Default::default()
    };
    assert_eq!(track_details(&now), "A  •  B  •  C  •  0 kbps");
}

#[test]
fn the_headline_follows_the_status() {
    let none = NowPlaying::default();
    let error = Some("No audio device found: none".to_owned());
    assert_eq!(headline(&error, true, &none, &Status::Playing), (error.clone().unwrap(), Tint::Text));
    assert_eq!(headline(&None, true, &none, &Status::Playing), ("Reconnecting…".to_owned(), Tint::Muted));
    assert_eq!(headline(&None, false, &none, &Status::Error("bad".into())), ("bad".to_owned(), Tint::Error));
    assert_eq!(headline(&None, false, &none, &Status::Idle), ("No station".to_owned(), Tint::Text));
    assert_eq!(
        headline(&None, false, &none, &Status::Connecting),
        ("Connecting to the station…".to_owned(), Tint::Text)
    );
    assert_eq!(headline(&None, false, &none, &Status::Playing), ("Playing".to_owned(), Tint::Text));
    let station = NowPlaying { station: Some("S".into()), ..Default::default() };
    assert_eq!(headline(&None, false, &station, &Status::Paused), ("S".to_owned(), Tint::Title));
    let raw = NowPlaying { station: Some("S".into()), raw_title: Some("R".into()), ..Default::default() };
    assert_eq!(headline(&None, false, &raw, &Status::Playing), ("R".to_owned(), Tint::Title));
    let track = NowPlaying { raw_title: Some("R".into()), track: Some("T".into()), ..Default::default() };
    assert_eq!(headline(&None, false, &track, &Status::Playing), ("T".to_owned(), Tint::Title));
}

#[test]
fn a_row_shows_the_track_only_for_the_station_on_air() {
    let now = NowPlaying { artist: Some("A".into()), ..Default::default() };
    assert_eq!(row_meta(true, &now, true, "https://one.example/live"), "A");
    assert_eq!(row_meta(false, &now, true, "https://one.example/live"), "one.example/live");
    assert_eq!(row_meta(false, &now, false, "https://one.example/live"), "");
    assert_eq!(row_meta(true, &NowPlaying::default(), true, "http://one.example"), "one.example");
}

#[test]
fn counters_count_in_the_singular_for_one() {
    assert_eq!(count_label(0), "no stations yet");
    assert_eq!(count_label(1), "1 station");
    assert_eq!(count_label(12), "12 stations");
    assert_eq!(found_label(1), "1 station found");
    assert_eq!(found_label(100), "100 stations found");
    assert_eq!(add_label(0), "Add");
    assert_eq!(add_label(3), "Add 3");
}

#[test]
fn notes_say_what_happened_to_the_list() {
    assert_eq!(saved_note(1), "Saved 1 station");
    assert_eq!(saved_note(0), "Saved 0 stations");
    assert_eq!(added_note(0), "No new stations");
    assert_eq!(added_note(1), "Added 1 station");
    assert_eq!(added_note(5), "Added 5 stations");
    assert_eq!(found_note(0, 4), "No new stations");
    assert_eq!(found_note(1, 0), "Added 1 station");
    assert_eq!(found_note(3, 0), "Added 3 stations");
    assert_eq!(found_note(3, 2), "Added 3, skipped 2");
    assert_eq!(search_title("jazz"), "Search: jazz");
}

#[test]
fn the_address_button_says_what_the_text_will_do() {
    assert_eq!(address_button("   "), ("Connect", false));
    assert_eq!(address_button(" jazz "), ("Search", true));
    assert_eq!(address_button("www.example.com"), ("Connect", true));
    assert_eq!(address_button("https://example.com/live"), ("Connect", true));
}

#[test]
fn the_play_button_says_what_a_click_does() {
    assert_eq!(play_face(false, true), ("▶  Play", ButtonTone::Off));
    assert_eq!(play_face(true, true), ("⏹  Stop", ButtonTone::Danger));
    assert_eq!(play_face(true, false), ("▶  Play", ButtonTone::Accent));
}
