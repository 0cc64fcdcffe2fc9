use playlist::service::{
    AlbumInfo, AlbumLookup, AlbumSearchCriteria, PlaylistBuilder, PlaylistCreation, RunAction,
    RunError, RunEvent, SpotifyExpr, Stage, TrackInfo, TrackSearchCriteria,
};

fn track(id: Option<&str>, name: &str, artists: &[&str], playable: Option<bool>) -> TrackInfo {
    TrackInfo {
        id: id.map(|s| s.to_string()),
        name: name.to_string(),
        artists: artists.iter().map(|s| s.to_string()).collect(),
        is_playable: playable,
    }
}

fn strings(v: &[&str]) -> Vec<String> {
    v.iter().map(|s| s.to_string()).collect()
}

fn album_with_uri(uri: &str) -> AlbumSearchCriteria {
    match AlbumSearchCriteria::raw("Name".to_string(), None, Some(uri.to_string()), Vec::new()) {
        SpotifyExpr::Album(c) => c,
        SpotifyExpr::Track(_) => panic!("raw builds an album expression"),
    }
}

#[test]
fn album_criteria_builders() {
    let c = AlbumSearchCriteria::new("Blue".to_string()).with_artist("Joni".to_string());
    assert_eq!(c.album_name(), "Blue");
    assert_eq!(c.artist(), &Some("Joni".to_string()));
    assert_eq!(c.uri(), &None);
    assert!(c.filters().is_empty());
    match AlbumSearchCriteria::raw(
        "Blue".to_string(),
        Some("Joni".to_string()),
        Some("spotify:album:abc".to_string()),
        strings(&["A Case of You"]),
    ) {
        SpotifyExpr::Album(a) => {
            assert_eq!(a.album_name(), "Blue");
            assert_eq!(a.uri(), &Some("spotify:album:abc".to_string()));
            assert_eq!(a.filters(), &strings(&["A Case of You"]));
        }
        SpotifyExpr::Track(_) => panic!("expected an album"),
    }
}

#[test]
fn track_criteria_new_builds_track_expression() {
    match TrackSearchCriteria::new("Song".to_string(), Some("LP".to_string()), None) {
        SpotifyExpr::Track(t) => {
            assert_eq!(t.name(), "Song");
            assert_eq!(t.album(), &Some("LP".to_string()));
            assert_eq!(t.artist(), &None);
        }
        SpotifyExpr::Album(_) => panic!("expected a track"),
    }
}

#[test]
fn album_lookup_prefers_uri() {
    match album_with_uri("spotify:album:6IcGNaXFRf5Y1jc7QsE9O2").lookup() {
        AlbumLookup::ById(id) => assert_eq!(id, "6IcGNaXFRf5Y1jc7QsE9O2"),
        _ => panic!("expected an id"),
    }
    match album_with_uri("spotify/album/4aawyAB9vmqN3uQ7FjRGTy").lookup() {
        AlbumLookup::ById(id) => assert_eq!(id, "4aawyAB9vmqN3uQ7FjRGTy"),
        _ => panic!("expected an id"),
    }
    match AlbumSearchCriteria::new("Blue".to_string()).lookup() {
        AlbumLookup::ByName(n) => assert_eq!(n, "Blue"),
        _ => panic!("expected a search by name"),
    }
}

#[test]
fn album_lookup_rejects_other_uris() {
    assert!(matches!(album_with_uri("spotify:track:6IcGNaXFRf5Y1jc7QsE9O2").lookup(), AlbumLookup::BadUri));
    assert!(matches!(album_with_uri("spotify:album:6Ic-GNa").lookup(), AlbumLookup::BadUri));
    assert!(matches!(album_with_uri("https://open.spotify.com/album/6IcGNaXFRf5Y1jc7QsE9O2").lookup(), AlbumLookup::BadUri));
    assert!(matches!(album_with_uri("spotify:album/abc").lookup(), AlbumLookup::BadUri));
}

#[test]
fn builder_collects_in_order_and_shuffle_keeps_albums() {
    let b = PlaylistBuilder::new("Mix".to_string())
        .with_album(AlbumSearchCriteria::new("One".to_string()))
        .with_album(AlbumSearchCriteria::new("Two".to_string()))
        .with_album(AlbumSearchCriteria::new("Three".to_string()))
        .with_track("Song".to_string())
        .with_all_discography("Ann".to_string());
    assert_eq!(b.name(), "Mix");
    let names: Vec<String> = b.albums().iter().map(|a| a.album_name().clone()).collect();
    assert_eq!(names, strings(&["One", "Two", "Three"]));
    assert_eq!(b.all_discography(), &strings(&["Ann"]));
    let b = b.shuffle_by_album();
    let mut names: Vec<String> = b.albums().iter().map(|a| a.album_name().clone()).collect();
    names.sort();
    assert_eq!(names, strings(&["One", "Three", "Two"]));
}

#[test]
fn creation_run_fills_playlist_and_archive_with_same_tracks() {
    let creation = PlaylistCreation::new(
        "Main".to_string(),
        Some("desc".to_string()),
        Some("Backup".to_string()),
        vec![
            TrackSearchCriteria::new("Solo".to_string(), None, None),
            AlbumSearchCriteria::raw("LP".to_string(), None, None, strings(&["Song"])),
        ],
    );
    assert_eq!(creation.name(), "Main");
    assert_eq!(creation.values().len(), 2);
    let mut run = creation.start();
    match run.next_action() {
        RunAction::OpenPlaylist { name, description } => {
            assert_eq!(name, "Main");
            assert_eq!(description, Some("desc".to_string()));
        }
        _ => panic!("expected to open the playlist"),
    }
    assert_eq!(run.handle(RunEvent::Opened("p1".to_string())), Ok(()));
    match run.next_action() {
        RunAction::SearchTrack(t) => assert_eq!(t.name(), "Solo"),
        _ => panic!("expected a track search"),
    }
    assert_eq!(run.handle(RunEvent::Replaced), Err(RunError::UnexpectedEvent));
    assert_eq!(run.handle(RunEvent::TrackFound(track(Some("t0"), "Solo", &[], None))), Ok(()));
    match run.next_action() {
        RunAction::FetchAlbum(a) => assert_eq!(a.album_name(), "LP"),
        _ => panic!("expected an album fetch"),
    }
    let album_tracks = vec![
        track(Some("t1"), "Song A", &[], None),
        track(Some("t2"), "Other", &[], None),
        track(Some("t3"), "Song", &[], None),
    ];
    assert_eq!(run.handle(RunEvent::AlbumFetched(album_tracks)), Ok(()));
    match run.next_action() {
        RunAction::ReplaceContents { playlist_id, track_ids } => {
            assert_eq!(playlist_id, "p1");
            assert_eq!(track_ids, strings(&["t0", "t1", "t3"]));
        }
        _ => panic!("expected a replacement"),
    }
    assert_eq!(run.handle(RunEvent::Replaced), Ok(()));
    match run.next_action() {
        RunAction::OpenPlaylist { name, description } => {
            assert_eq!(name, "Backup");
            assert_eq!(description, Some("desc".to_string()));
        }
        _ => panic!("expected to open the archive"),
    }
    assert_eq!(run.handle(RunEvent::Opened("p2".to_string())), Ok(()));
    match run.next_action() {
        RunAction::ReplaceContents { playlist_id, track_ids } => {
            assert_eq!(playlist_id, "p2");
            assert_eq!(track_ids, strings(&["t0", "t1", "t3"]));
        }
        _ => panic!("expected a replacement"),
    }
    assert_eq!(run.handle(RunEvent::Replaced), Ok(()));
    assert!(matches!(run.next_action(), RunAction::Done));
    assert!(matches!(run.stage(), Stage::Finished));
    assert_eq!(run.handle(RunEvent::Replaced), Err(RunError::UnexpectedEvent));
}

#[test]
fn creation_run_fails_on_track_without_id() {
    let creation = PlaylistCreation::new(
        "Main".to_string(),
        None,
        None,
        vec![TrackSearchCriteria::new("Solo".to_string(), None, None)],
    );
    let mut run = creation.start();
    assert_eq!(run.handle(RunEvent::Opened("p1".to_string())), Ok(()));
    assert_eq!(
        run.handle(RunEvent::TrackFound(track(None, "Solo", &[], None))),
        Err(RunError::MissingTrackId)
    );
    assert!(matches!(run.stage(), Stage::Failed));
    assert!(matches!(run.next_action(), RunAction::Done));
}

#[test]
fn empty_creation_replaces_with_nothing() {
    let creation = PlaylistCreation::new("Empty".to_string(), None, None, Vec::new());
    let mut run = creation.start();
    assert_eq!(run.handle(RunEvent::Opened("p".to_string())), Ok(()));
    match run.next_action() {
        RunAction::ReplaceContents { playlist_id, track_ids } => {
            assert_eq!(playlist_id, "p");
            assert!(track_ids.is_empty());
        }
        _ => panic!("expected a replacement"),
    }
}

#[test]
fn builder_run_takes_whole_albums_then_ranked_discography() {
    let filtered = AlbumSearchCriteria::raw("LP".to_string(), None, None, strings(&["zzz"]));
    let lp = match filtered {
        SpotifyExpr::Album(a) => a,
        SpotifyExpr::Track(_) => panic!("expected an album"),
    };
    let builder = PlaylistBuilder::new("Mix".to_string())
        .with_album(lp)
        .with_track("ignored".to_string())
        .with_all_discography("Ann".to_string());
    let mut run = builder.start();
    match run.next_action() {
        RunAction::OpenPlaylist { name, description } => {
            assert_eq!(name, "Mix");
            assert_eq!(description, None);
        }
        _ => panic!("expected to open the playlist"),
    }
    assert_eq!(run.handle(RunEvent::Opened("p".to_string())), Ok(()));
    assert!(matches!(run.next_action(), RunAction::FetchAlbum(_)));
    // The builder keeps every album track: the album's filters do not apply.
    assert_eq!(
        run.handle(RunEvent::AlbumFetched(vec![track(Some("a1"), "x", &[], None), track(Some("a2"), "y", &[], None)])),
        Ok(())
    );
    match run.next_action() {
        RunAction::FetchDiscography(artist) => assert_eq!(artist, "Ann"),
        _ => panic!("expected a discography fetch"),
    }
    let albums = vec![
        AlbumInfo {
            id: "low".to_string(),
            name: "Low".to_string(),
            popularity: 10,
            tracks: vec![track(Some("l1"), "l1", &["Ann"], Some(true))],
        },
        AlbumInfo {
            id: "high".to_string(),
            name: "High".to_string(),
            popularity: 90,
            tracks: vec![
                track(Some("h1"), "h1", &["Ann"], Some(true)),
                track(Some("h2"), "h2", &["Bob"], Some(true)),
                track(Some("h3"), "h3", &["Ann"], Some(false)),
                track(Some("h4"), "h4", &["Bob", "Ann"], Some(true)),
            ],
        },
    ];
    assert_eq!(run.handle(RunEvent::DiscographyFetched(albums)), Ok(()));
    match run.next_action() {
        RunAction::ReplaceContents { playlist_id, track_ids } => {
            assert_eq!(playlist_id, "p");
            assert_eq!(track_ids, strings(&["a1", "a2", "h1", "h4", "l1"]));
        }
        _ => panic!("expected a replacement"),
    }
    assert_eq!(run.handle(RunEvent::Replaced), Ok(()));
    assert!(matches!(run.stage(), Stage::Finished));
}
