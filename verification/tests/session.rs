use efm::config::Config;
use efm::display::Tint;
use efm::player::{NowPlaying, Status};
use efm::session::{Action, Session, Watch, NOTE_TTL_MS};

fn session() -> Session {
    let (s, e) = Session::new(Config::default(), None, "Nord");
    assert!(e.play.is_none());
    s
}

fn urls(s: &Session) -> Vec<&str> {
    s.config.recent.iter().map(|x| x.url.as_str()).collect()
}

#[test]
fn opening_picks_the_palette_and_plays_the_last_station() {
    let mut config = Config::default();
    config.last_url = "https://one.example/live".to_owned();
    let (s, e) = Session::new(config, None, "Dracula");
    assert_eq!(s.theme.index, 2);
    assert_eq!(e.play.as_deref(), Some("https://one.example/live"));
    assert!(e.save);
    assert_eq!(s.playing_url, "https://one.example/live");
    assert_eq!(urls(&s), ["https://one.example/live"]);
}

#[test]
fn without_autoplay_or_a_device_nothing_starts() {
    let mut config = Config::default();
    config.last_url = "https://one.example/live".to_owned();
    config.autoplay = false;
    let (s, e) = Session::new(config.clone(), None, "Nord");
    assert!(e.play.is_none() && !e.save);
    assert_eq!(s.playing_url, "");
    config.autoplay = true;
    let (s, e) = Session::new(config, Some("No audio device found".to_owned()), "unknown");
    assert!(e.play.is_none());
    assert_eq!(s.theme.index, 0);
    assert_eq!(s.playing_url, "");
}

#[test]
fn playing_a_bare_address_gives_it_a_scheme_and_clears_the_field() {
    let mut s = session();
    s.url_input = "www.example.com/live".to_owned();
    s.reconnect_tries = 4;
    s.reconnect_at = Some(10);
    let e = s.apply(Action::Play(" www.example.com/live ".to_owned()), 0);
    assert_eq!(e.play.as_deref(), Some("https://www.example.com/live"));
    assert!(e.save);
    assert_eq!(s.url_input, "");
    assert_eq!(s.reconnect_at, None);
    assert_eq!(s.reconnect_tries, 0);
    assert_eq!(s.config.last_url, "https://www.example.com/live");
}

#[test]
fn submitting_a_name_opens_the_search() {
    let mut s = session();
    s.url_input = " jazz ".to_owned();
    let e = s.apply(Action::Submit(" jazz ".to_owned()), 0);
    assert_eq!(e.search.as_deref(), Some(" jazz "));
    assert!(e.play.is_none() && !e.save);
    assert_eq!(s.search.as_ref().unwrap().query, "jazz");
    assert_eq!(s.url_input, "");
    let e = s.submit("   ");
    assert!(e.search.is_none() && e.play.is_none());
}

#[test]
fn submitting_an_address_plays_it() {
    let mut s = session();
    let e = s.submit("http://one.example/live");
    assert_eq!(e.play.as_deref(), Some("http://one.example/live"));
    assert!(s.search.is_none());
}

#[test]
fn stop_clears_the_station_and_the_retries() {
    let mut s = session();
    s.start("https://one.example/live");
    s.reconnect_tries = 3;
    s.reconnect_at = Some(99);
    let e = s.apply(Action::Stop, 0);
    assert!(e.stop);
    assert_eq!(s.playing_url, "");
    assert_eq!(s.reconnect_tries, 0);
    assert_eq!(s.reconnect_at, None);
    assert!(matches!(s.watch_for_dropped_stream(true, 1_000), Watch::Idle));
}

#[test]
fn a_dropped_stream_waits_then_reconnects_and_widens_the_wait() {
    let mut s = session();
    s.start("https://one.example/live");
    assert!(matches!(s.watch_for_dropped_stream(true, 1_000), Watch::WakeIn(3_000)));
    assert_eq!(s.reconnect_at, Some(4_000));
    assert!(matches!(s.watch_for_dropped_stream(true, 2_500), Watch::WakeIn(1_500)));
    match s.watch_for_dropped_stream(true, 4_000) {
        Watch::Play(url) => assert_eq!(url, "https://one.example/live"),
        _ => panic!("the deadline passed without a reconnect"),
    }
    assert_eq!(s.reconnect_tries, 1);
    assert_eq!(s.reconnect_at, None);
    assert!(matches!(s.watch_for_dropped_stream(true, 5_000), Watch::WakeIn(6_000)));
    assert!(matches!(s.watch_for_dropped_stream(false, 5_100), Watch::Idle));
    assert_eq!(s.reconnect_at, None);
    assert_eq!(s.reconnect_tries, 1);
}

#[test]
fn no_device_means_no_reconnect() {
    let (mut s, _) = Session::new(Config::default(), Some("none".to_owned()), "Nord");
    s.playing_url = "https://one.example/live".to_owned();
    assert!(matches!(s.watch_for_dropped_stream(true, 0), Watch::Idle));
    assert_eq!(s.reconnect_at, None);
    assert!(s.start("https://one.example/live").is_none());
}

#[test]
fn found_stations_go_to_the_list_with_a_note() {
    let mut s = session();
    s.search = Some(efm::search::Search::start("jazz"));
    s.start("https://one.example/live");
    let e = s.apply(
        Action::AddFound(vec![
            ("https://one.example/live".to_owned(), "One".to_owned()),
            ("https://two.example/live".to_owned(), " Two ".to_owned()),
            ("rtsp://three.example/live".to_owned(), "Three".to_owned()),
        ]),
        7,
    );
    assert!(e.save);
    assert!(s.search.is_none());
    assert_eq!(urls(&s), ["https://one.example/live", "https://two.example/live"]);
    assert_eq!(s.config.recent[1].name.as_deref(), Some("Two"));
    assert_eq!(s.note, Some(("Added 1, skipped 2".to_owned(), 7)));
    assert!(!s.add_found(&vec![], 8));
    assert_eq!(s.note, Some(("No new stations".to_owned(), 8)));
}

#[test]
fn the_note_takes_the_counter_place_for_a_while() {
    let mut s = session();
    assert_eq!(s.header_line(0), ("no stations yet".to_owned(), Tint::Muted));
    s.import_list("https://one.example/live\nhttps://two.example/live\n", 1_000);
    assert_eq!(s.note_left(1_000), Some(NOTE_TTL_MS));
    assert_eq!(s.header_line(2_000), ("Added 2 stations".to_owned(), Tint::Title));
    assert_eq!(s.note_left(1_000 + NOTE_TTL_MS), Some(0));
    assert_eq!(s.note_left(1_001 + NOTE_TTL_MS), None);
    assert_eq!(s.header_line(6_000), ("2 stations".to_owned(), Tint::Muted));
    s.exported(9_000);
    assert_eq!(s.header_line(9_000).0, "Saved 2 stations");
}

#[test]
fn the_card_button_plays_what_is_pending_or_stops() {
    let mut s = session();
    assert!(s.hero_action(false).is_none());
    s.config.last_url = "https://last.example/live".to_owned();
    assert!(matches!(s.hero_action(false), Some(Action::Submit(u)) if u == "https://last.example/live"));
    s.url_input = "  typed  ".to_owned();
    assert_eq!(s.pending_url(), "typed");
    assert!(matches!(s.hero_action(false), Some(Action::Submit(u)) if u == "typed"));
    assert!(matches!(s.hero_action(true), Some(Action::Stop)));
    let (silent, _) = Session::new(Config::default(), Some("none".to_owned()), "Nord");
    assert!(silent.hero_action(true).is_none());
}

#[test]
fn a_row_stops_the_station_on_air_and_starts_any_other() {
    let mut s = session();
    s.start("https://one.example/live");
    assert!(matches!(s.row_action("https://one.example/live", &Status::Playing), Action::Stop));
    assert!(matches!(
        s.row_action("https://one.example/live", &Status::Error("x".into())),
        Action::Play(u) if u == "https://one.example/live"
    ));
    assert!(matches!(
        s.row_action("https://two.example/live", &Status::Playing),
        Action::Play(u) if u == "https://two.example/live"
    ));
}

#[test]
fn the_station_name_is_kept_once() {
    let mut s = session();
    let now = NowPlaying { station: Some("One FM".into()), ..Default::default() };
    assert!(!s.note_station_name(&now));
    s.start("https://one.example/live");
    assert!(s.note_station_name(&now));
    assert!(!s.note_station_name(&now));
    assert_eq!(s.config.recent[0].name.as_deref(), Some("One FM"));
}

#[test]
fn the_system_is_asked_only_when_the_wish_changes() {
    let mut s = session();
    assert_eq!(s.watch_sleep(false), None);
    assert_eq!(s.watch_sleep(true), Some(true));
    assert_eq!(s.watch_sleep(true), None);
    assert_eq!(s.watch_sleep(false), Some(false));
}

#[test]
fn other_actions_ask_for_their_effects() {
    let mut s = session();
    s.start("https://one.example/live");
    let e = s.apply(Action::Forget("https://one.example/live".to_owned()), 0);
    assert!(e.save);
    assert!(s.config.recent.is_empty());
    assert!(s.apply(Action::Export, 0).export);
    assert!(s.apply(Action::Import, 0).import);
    let e = s.apply(Action::Theme(9), 0);
    assert!(e.restyle && e.save);
    assert_eq!(s.theme.index, 9);
    s.search = Some(efm::search::Search::start("x"));
    let e = s.apply(Action::CloseSearch, 0);
    assert!(s.search.is_none() && !e.save);
}
