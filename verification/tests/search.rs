use efm::search::{
    checked_count, collect, convert, endpoint, looks_like_address, meta_line, picked,
    search_path, tick_all, toggle, Found, Raw, Search, State, API,
};

fn raw(name: &str, url: &str) -> Raw {
    Raw {
        name: Some(name.to_owned()),
        url: Some(url.to_owned()),
        url_resolved: None,
        codec: None,
        bitrate: None,
        countrycode: None,
        tags: None,
    }
}

fn found(name: &str, url: &str, checked: bool) -> Found {
    Found { name: name.to_owned(), url: url.to_owned(), meta: String::new(), checked }
}

#[test]
fn tells_an_address_from_a_search() {
    assert!(looks_like_address("https://example.com/live"));
    assert!(looks_like_address("  http://example.com:8000  "));
    assert!(looks_like_address("www.example.com/live"));
    assert!(!looks_like_address("jazz"));
    assert!(!looks_like_address("Σκάι 100.3"));
}

#[test]
fn puts_the_query_straight_after_byname() {
    assert_eq!(
        endpoint("radio paradise").unwrap().as_str(),
        "https://de1.api.radio-browser.info/json/stations/byname/radio%20paradise\
         ?limit=100&order=votes&reverse=true&hidebroken=true"
    );
}

#[test]
fn survives_a_trailing_slash_on_the_endpoint() {
    let url = search_path(&format!("{API}/"), "jazz").unwrap();
    assert!(url.as_str().ends_with("/byname/jazz"), "{url}");
}

#[test]
fn prefers_the_resolved_address() {
    let mut entry = raw("One", "http://one.example/live");
    entry.url_resolved = Some("https://cdn.one.example/live".to_owned());
    assert_eq!(convert(entry).unwrap().url, "https://cdn.one.example/live");
}

#[test]
fn drops_entries_without_a_playable_address() {
    assert!(convert(raw("Broken", "")).is_none());
    assert!(convert(raw("Odd", "rtsp://one.example/live")).is_none());
}

#[test]
fn names_a_nameless_station_after_its_address() {
    assert_eq!(
        convert(raw("  ", "https://one.example/live")).unwrap().name,
        "one.example/live"
    );
}

#[test]
fn keeps_the_same_stream_only_once() {
    let found = collect(vec![
        raw("One", "https://one.example/live"),
        raw("One HQ", "https://one.example/live"),
        raw("Two", "https://two.example/live"),
    ]);
    let names: Vec<&str> = found.iter().map(|f| f.name.as_str()).collect();
    assert_eq!(names, ["One", "Two"]);
}

#[test]
fn joins_only_what_the_directory_knows() {
    assert_eq!(
        meta_line(
            Some("gr"),
            Some("MP3"),
            Some(128),
            Some("jazz, blues, ,soul, funk")
        ),
        "GR  •  MP3 128 kbps  •  jazz, blues, soul"
    );
    assert_eq!(meta_line(None, Some("UNKNOWN"), Some(0), Some("")), "");
    assert_eq!(meta_line(None, None, Some(64), None), "64 kbps");
}

#[test]
fn the_search_address_encodes_the_query_as_one_segment() {
    let url = endpoint("a/b").unwrap();
    assert!(url.contains("/byname/a%2Fb?"), "{url}");
    assert!(search_path("not an address", "jazz").is_none());
}

#[test]
fn every_result_is_playable_and_listed_once() {
    let mut odd = raw("Odd", "ftp://odd.example/live");
    odd.url_resolved = Some("  ".to_owned());
    let found = collect(vec![
        raw("One", "https://one.example/live"),
        odd,
        raw("Again", " https://one.example/live "),
        raw("Two", "http://two.example/live"),
    ]);
    let urls: Vec<&str> = found.iter().map(|f| f.url.as_str()).collect();
    assert_eq!(urls, ["https://one.example/live", "http://two.example/live"]);
    assert!(found.iter().all(|f| !f.checked));
}

#[test]
fn a_result_carries_its_details_line() {
    let mut entry = raw("One", "https://one.example/live");
    entry.countrycode = Some("de".to_owned());
    entry.codec = Some("AAC".to_owned());
    entry.bitrate = Some(96);
    entry.tags = Some("news,talk,local,extra".to_owned());
    assert_eq!(convert(entry).unwrap().meta, "DE  •  AAC 96 kbps  •  news, talk, local");
}

#[test]
fn a_search_starts_searching_and_takes_the_answer() {
    let mut search = Search::start("  jazz ");
    assert_eq!(search.query, "jazz");
    assert!(matches!(search.state, State::Searching));
    search.poll(None);
    assert!(matches!(search.state, State::Searching));
    search.poll(Some(Err("offline".to_owned())));
    assert!(matches!(&search.state, State::Failed(e) if e == "offline"));
    search.poll(Some(Ok(vec![found("One", "https://one.example/live", false)])));
    assert!(matches!(&search.state, State::Ready(v) if v.len() == 1));
}

#[test]
fn ticks_pick_the_stations_to_add() {
    let mut list = vec![
        found("One", "https://one.example/live", false),
        found("Two", "https://two.example/live", true),
        found("Three", "https://three.example/live", false),
    ];
    assert_eq!(checked_count(&list), 1);
    toggle(&mut list, 2);
    assert_eq!(checked_count(&list), 2);
    assert_eq!(
        picked(&list),
        vec![
            ("https://two.example/live".to_owned(), "Two".to_owned()),
            ("https://three.example/live".to_owned(), "Three".to_owned()),
        ]
    );
    tick_all(&mut list, true);
    assert_eq!(checked_count(&list), 3);
    tick_all(&mut list, false);
    assert_eq!(checked_count(&list), 0);
    assert!(picked(&list).is_empty());
    assert_eq!(list[1].name, "Two");
}
