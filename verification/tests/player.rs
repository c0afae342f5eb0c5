use efm::player::{
    apply_headers, apply_metadata, has_stalled, prefetch_bytes, split_artist_title, NowPlaying,
    SharedState, Status, TrackMetadata, DEFAULT_PREFETCH_BYTES,
};

#[test]
fn splits_the_usual_artist_title_form() {
    assert_eq!(
        split_artist_title("Nina Simone - Feeling Good"),
        Some(("Nina Simone".into(), "Feeling Good".into()))
    );
}

#[test]
fn keeps_titles_that_do_not_split_cleanly() {
    assert_eq!(split_artist_title("Rock-A-Bye Baby"), None);
    assert_eq!(split_artist_title(" - Feeling Good"), None);
    assert_eq!(split_artist_title("news bulletin"), None);
}

#[test]
fn splits_only_on_the_first_separator() {
    assert_eq!(
        split_artist_title("AC/DC - Rock - Roll"),
        Some(("AC/DC".into(), "Rock - Roll".into()))
    );
}

#[test]
fn counts_connecting_and_pausing_as_on() {
    assert!(Status::Connecting.is_active());
    assert!(Status::Playing.is_active());
    assert!(Status::Paused.is_active());
    assert!(!Status::Idle.is_active());
    assert!(!Status::Error("x".to_owned()).is_active());
}

#[test]
fn clearing_the_track_keeps_the_station() {
    let mut now = NowPlaying {
        station: Some("Groove".into()),
        bitrate: Some(128),
        artist: Some("A".into()),
        track: Some("T".into()),
        album: Some("L".into()),
        raw_title: Some("R".into()),
        ..Default::default()
    };
    assert!(now.has_track_info());
    now.clear_track();
    assert!(!now.has_track_info());
    assert_eq!(now.station.as_deref(), Some("Groove"));
    assert_eq!(now.bitrate, Some(128));
    assert_eq!(now.album, None);
}

#[test]
fn a_blank_address_is_an_error_and_plays_nothing() {
    let mut state = SharedState::default();
    assert_eq!(state.begin("   "), None);
    assert_eq!(state.status, Status::Error("Enter a stream URL.".to_owned()));
    assert_eq!(state.begin(" https://a.example/live "), Some("https://a.example/live".to_owned()));
    assert_eq!(state.status, Status::Connecting);
}

#[test]
fn only_the_latest_connection_settles_the_status() {
    let mut state = SharedState::default();
    state.begin("https://a.example/live");
    assert!(!state.settle(2, 1, Ok(())));
    assert_eq!(state.status, Status::Connecting);
    assert!(state.settle(2, 2, Ok(())));
    assert_eq!(state.status, Status::Playing);
    state.now.artist = Some("A".into());
    assert!(!state.settle(3, 3, Err("refused".into())));
    assert_eq!(state.status, Status::Error("refused".into()));
    assert!(state.now.artist.is_none());
}

#[test]
fn pausing_and_resuming_move_only_a_playing_station() {
    let mut state = SharedState::default();
    state.pause();
    assert_eq!(state.status, Status::Idle);
    state.status = Status::Playing;
    state.pause();
    assert_eq!(state.status, Status::Paused);
    assert!(!state.resume(true));
    assert_eq!(state.status, Status::Paused);
    assert!(state.resume(false));
    assert_eq!(state.status, Status::Playing);
    let snap = state.snapshot();
    assert_eq!(snap.status, Status::Playing);
}

#[test]
fn a_stall_is_an_empty_queue_under_playing() {
    assert!(has_stalled(&Status::Playing, true));
    assert!(!has_stalled(&Status::Playing, false));
    assert!(!has_stalled(&Status::Paused, true));
}

#[test]
fn prefetches_five_seconds_of_the_declared_bitrate() {
    assert_eq!(prefetch_bytes(Some(128)), 16 * 1024 * 5);
    assert_eq!(prefetch_bytes(Some(7)), 0);
    assert_eq!(prefetch_bytes(None), DEFAULT_PREFETCH_BYTES);
    assert_eq!(prefetch_bytes(None), 81920);
}

#[test]
fn the_headers_fill_in_the_station() {
    let mut now = NowPlaying { artist: Some("kept".into()), ..Default::default() };
    apply_headers(
        &mut now,
        Some("Groove Salad"),
        None,
        Some("https://somafm.com"),
        Some(128),
        &vec!["ambient".to_owned(), "chill".to_owned()],
    );
    assert_eq!(now.station.as_deref(), Some("Groove Salad"));
    assert_eq!(now.genre.as_deref(), Some("ambient, chill"));
    assert_eq!(now.bitrate, Some(128));
    assert_eq!(now.artist.as_deref(), Some("kept"));
    apply_headers(&mut now, None, None, None, None, &vec![]);
    assert_eq!(now.genre, None);
}

#[test]
fn a_track_title_splits_and_fields_win() {
    let mut now = NowPlaying { station: Some("S".into()), ..Default::default() };
    apply_metadata(
        &mut now,
        &TrackMetadata { stream_title: Some(" Nina Simone - Feeling Good ".into()), custom_fields: vec![] },
    );
    assert_eq!(now.artist.as_deref(), Some("Nina Simone"));
    assert_eq!(now.track.as_deref(), Some("Feeling Good"));
    assert_eq!(now.raw_title, None);

    apply_metadata(
        &mut now,
        &TrackMetadata {
            stream_title: Some("news bulletin".into()),
            custom_fields: vec![
                ("ARTIST".into(), " The Doors ".into()),
                ("TrackAlbum".into(), "L.A. Woman".into()),
                ("albumartist".into(), "ignored as artist".into()),
            ],
        },
    );
    assert_eq!(now.raw_title.as_deref(), Some("news bulletin"));
    assert_eq!(now.track, None);
    assert_eq!(now.artist.as_deref(), Some("The Doors"));
    assert_eq!(now.album.as_deref(), Some("ignored as artist"));
    assert_eq!(now.station.as_deref(), Some("S"));
}

#[test]
fn a_blank_title_keeps_what_was_known() {
    let mut now = NowPlaying { track: Some("T".into()), ..Default::default() };
    apply_metadata(&mut now, &TrackMetadata { stream_title: Some("  ".into()), custom_fields: vec![] });
    assert_eq!(now.track.as_deref(), Some("T"));
    apply_metadata(&mut now, &TrackMetadata { stream_title: None, custom_fields: vec![] });
    assert_eq!(now.track.as_deref(), Some("T"));
}

#[test]
fn stopping_forgets_the_station() {
    let mut state = SharedState::default();
    state.begin("https://a.example/live");
    state.now.station = Some("A".into());
    state.stop();
    assert_eq!(state.status, Status::Idle);
    assert!(state.now.station.is_none());
}
