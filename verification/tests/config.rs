use efm::config::{is_stream_url, Config, Station, MAX_RECENT};

fn urls(config: &Config) -> Vec<&str> {
    config.recent.iter().map(|s| s.url.as_str()).collect()
}

#[test]
fn keeps_only_what_the_player_could_open() {
    let mut config = Config::default();
    assert!(!config.add("not a url at all", None));
    assert!(!config.add("ftp://example.com/live", None));
    assert!(!config.add("www.example.com/live", None));
    assert!(config.add("https://example.com/live", None));
    assert_eq!(config.recent.len(), 1);
}

#[test]
fn counts_only_the_lines_it_actually_took() {
    let mut config = Config::default();
    let added = config.import_text(
        "# a list written by hand
https://one.example/live
rubbish
http://two.example/live
",
    );
    assert_eq!(added, 2);
    assert_eq!(config.recent.len(), 2);
}

#[test]
fn agrees_with_the_directory_on_what_a_stream_is() {
    assert!(is_stream_url("http://example.com/live"));
    assert!(is_stream_url("  https://example.com/live  "));
    assert!(!is_stream_url("example.com/live"));
    assert!(!is_stream_url(""));
}

#[test]
fn adds_a_new_station_at_the_top() {
    let mut config = Config::default();
    config.remember("https://one.example/live");
    config.remember("https://two.example/live");
    assert_eq!(
        urls(&config),
        ["https://two.example/live", "https://one.example/live"]
    );
    assert_eq!(config.last_url, "https://two.example/live");
}

#[test]
fn moves_a_known_station_up_without_duplicating_it() {
    let mut config = Config::default();
    config.remember("https://one.example/live");
    config.remember("https://two.example/live");
    assert!(config.name_station("https://one.example/live", "One"));

    config.remember("https://one.example/live");

    assert_eq!(
        urls(&config),
        ["https://one.example/live", "https://two.example/live"]
    );
    assert_eq!(
        config.station("https://one.example/live").unwrap().title(),
        "One"
    );
}

#[test]
fn writes_one_stream_per_line() {
    let mut config = Config::default();
    config.remember("https://one.example/live");
    config.remember("https://two.example/live");
    assert_eq!(
        config.stations_text(),
        "https://two.example/live\nhttps://one.example/live\n"
    );
}

#[test]
fn imports_only_the_unknown_streams() {
    let mut config = Config::default();
    config.remember("https://one.example/live");

    let added = config
        .import_text("# my list\nhttps://one.example/live\n\n  https://three.example/live  \n");

    assert_eq!(added, 1);
    assert_eq!(
        urls(&config),
        ["https://one.example/live", "https://three.example/live"]
    );
}

#[test]
fn survives_a_round_trip() {
    let mut config = Config::default();
    config.remember("https://one.example/live");
    config.remember("https://two.example/live");
    let text = config.stations_text();

    let mut restored = Config::default();
    assert_eq!(restored.import_text(&text), 2);
    assert_eq!(restored.stations_text(), text);
}

#[test]
fn a_fresh_config_starts_empty_and_autoplays() {
    let config = Config::default();
    assert_eq!(config.last_url, "");
    assert!(config.recent.is_empty());
    assert!(config.autoplay);
}

#[test]
fn a_title_falls_back_to_the_address_without_its_scheme() {
    let named = Station { url: "https://one.example/live".to_owned(), name: Some("One".to_owned()) };
    let blank = Station { url: "http://two.example/live".to_owned(), name: Some("   ".to_owned()) };
    let bare = Station { url: "https://https://three.example".to_owned(), name: None };
    assert_eq!(named.title(), "One");
    assert_eq!(blank.title(), "two.example/live");
    assert_eq!(bare.title(), "three.example");
}

#[test]
fn remembering_a_blank_address_changes_nothing() {
    let mut config = Config::default();
    config.remember("https://one.example/live");
    config.remember("   ");
    assert_eq!(config.last_url, "https://one.example/live");
    assert_eq!(urls(&config), ["https://one.example/live"]);
}

#[test]
fn remembering_trims_the_address() {
    let mut config = Config::default();
    config.remember("  https://one.example/live \t");
    assert_eq!(config.last_url, "https://one.example/live");
    assert_eq!(urls(&config), ["https://one.example/live"]);
}

#[test]
fn the_list_never_grows_past_its_size() {
    let mut config = Config::default();
    for i in 0..(MAX_RECENT + 5) {
        config.remember(&format!("https://s{i}.example/live"));
    }
    assert_eq!(config.recent.len(), MAX_RECENT);
    assert!(config.is_full());
    assert_eq!(config.recent[0].url, format!("https://s{}.example/live", MAX_RECENT + 4));
    assert!(!config.add("https://new.example/live", None));
}

#[test]
fn adding_keeps_a_trimmed_name_and_drops_a_blank_one() {
    let mut config = Config::default();
    assert!(config.add(" https://one.example/live ", Some("  One  ")));
    assert!(config.add("https://two.example/live", Some("   ")));
    assert!(!config.add("https://one.example/live", Some("Again")));
    assert_eq!(config.recent[0].url, "https://one.example/live");
    assert_eq!(config.recent[0].name.as_deref(), Some("One"));
    assert_eq!(config.recent[1].name, None);
}

#[test]
fn naming_reports_only_a_change() {
    let mut config = Config::default();
    config.remember("https://one.example/live");
    assert!(config.name_station("https://one.example/live", " One "));
    assert!(!config.name_station("https://one.example/live", "One"));
    assert!(!config.name_station("https://one.example/live", "  "));
    assert!(!config.name_station("https://nowhere.example/live", "Nowhere"));
    assert_eq!(config.recent[0].name.as_deref(), Some("One"));
}

#[test]
fn forgetting_removes_the_station() {
    let mut config = Config::default();
    config.remember("https://one.example/live");
    config.remember("https://two.example/live");
    config.forget("https://one.example/live");
    assert_eq!(urls(&config), ["https://two.example/live"]);
    assert!(config.station("https://one.example/live").is_none());
}

#[test]
fn importing_stops_once_the_list_is_full() {
    let mut config = Config::default();
    for i in 0..(MAX_RECENT - 1) {
        assert!(config.add(&format!("https://s{i}.example/live"), None));
    }
    let added = config.import_text("https://a.example/live\nhttps://b.example/live\n");
    assert_eq!(added, 1);
    assert!(config.is_full());
    assert_eq!(config.recent.last().unwrap().url, "https://a.example/live");
}

#[test]
fn an_import_only_appends() {
    let mut config = Config::default();
    config.remember("https://one.example/live");
    config.name_station("https://one.example/live", "One");
    config.import_text("https://two.example/live\r\nhttps://one.example/live\n#https://x.example\n");
    assert_eq!(urls(&config), ["https://one.example/live", "https://two.example/live"]);
    assert_eq!(config.recent[0].name.as_deref(), Some("One"));
}
