use playlist::service::{
    all_track_ids, filter_to_just_tracks_that_contain_artist, get_playable_tracks,
    playable_ids, playlist_track_ids, rank_full_albums_by_popularity, select_album_tracks,
    AlbumInfo, PlayableEntry, PlaylistEntry, TrackInfo,
};

fn track(id: Option<&str>, name: &str, artists: &[&str], playable: Option<bool>) -> TrackInfo {
    TrackInfo {
        id: id.map(|s| s.to_string()),
        name: name.to_string(),
        artists: artists.iter().map(|s| s.to_string()).collect(),
        is_playable: playable,
    }
}

fn album(id: &str, popularity: u32, tracks: Vec<TrackInfo>) -> AlbumInfo {
    AlbumInfo { id: id.to_string(), name: format!("album {}", id), popularity, tracks }
}

fn strings(v: &[&str]) -> Vec<String> {
    v.iter().map(|s| s.to_string()).collect()
}

#[test]
fn playable_tracks_skip_episodes_and_empty_entries() {
    let entries = vec![
        PlaylistEntry { track: Some(PlayableEntry::Track(track(Some("a"), "A", &[], None))) },
        PlaylistEntry { track: Some(PlayableEntry::Episode) },
        PlaylistEntry { track: None },
        PlaylistEntry { track: Some(PlayableEntry::Track(track(None, "local", &[], None))) },
    ];
    let out = get_playable_tracks(entries);
    assert_eq!(out.len(), 2);
    assert_eq!(out[0].name, "A");
    assert_eq!(out[1].name, "local");
}

#[test]
fn playlist_track_ids_keep_only_identified_tracks() {
    let entries = vec![
        PlaylistEntry { track: Some(PlayableEntry::Track(track(Some("a"), "A", &[], None))) },
        PlaylistEntry { track: Some(PlayableEntry::Episode) },
        PlaylistEntry { track: Some(PlayableEntry::Track(track(None, "local", &[], None))) },
        PlaylistEntry { track: Some(PlayableEntry::Track(track(Some("b"), "B", &[], None))) },
    ];
    assert_eq!(playlist_track_ids(&entries), strings(&["a", "b"]));
}

#[test]
fn album_filters_select_by_exact_name_or_prefix() {
    let tracks = vec![
        track(Some("1"), "Intro", &[], None),
        track(Some("2"), "Song Two (Live)", &[], None),
        track(Some("3"), "Three", &[], None),
        track(Some("4"), "Song", &[], None),
    ];
    let filters = strings(&["Song", "Three"]);
    assert_eq!(select_album_tracks(&filters, &tracks), Some(strings(&["2", "3", "4"])));
}

#[test]
fn album_without_filters_keeps_every_track() {
    let tracks = vec![track(Some("1"), "a", &[], None), track(Some("2"), "b", &[], None)];
    assert_eq!(select_album_tracks(&Vec::new(), &tracks), Some(strings(&["1", "2"])));
}

#[test]
fn album_filter_with_no_match_selects_nothing() {
    let tracks = vec![track(Some("1"), "a", &[], None)];
    assert_eq!(select_album_tracks(&strings(&["zzz"]), &tracks), Some(Vec::new()));
}

#[test]
fn selected_track_without_id_is_reported() {
    let tracks = vec![track(Some("1"), "keep", &[], None), track(None, "keep me", &[], None)];
    assert_eq!(select_album_tracks(&strings(&["keep"]), &tracks), None);
    // A track without identifier that the filters leave out does no harm.
    assert_eq!(select_album_tracks(&strings(&["keep"]), &vec![track(None, "drop", &[], None)]), Some(Vec::new()));
}

#[test]
fn all_track_ids_needs_every_id() {
    let ok = vec![track(Some("1"), "a", &[], None), track(Some("2"), "b", &[], None)];
    assert_eq!(all_track_ids(&ok), Some(strings(&["1", "2"])));
    let bad = vec![track(Some("1"), "a", &[], None), track(None, "b", &[], None)];
    assert_eq!(all_track_ids(&bad), None);
}

#[test]
fn ranking_is_descending_and_stable() {
    let albums = vec![
        album("a", 10, vec![]),
        album("b", 50, vec![]),
        album("c", 10, vec![]),
        album("d", 70, vec![]),
        album("e", 50, vec![]),
    ];
    let ranked = rank_full_albums_by_popularity(albums);
    let ids: Vec<&str> = ranked.iter().map(|a| a.id.as_str()).collect();
    assert_eq!(ids, vec!["d", "b", "e", "a", "c"]);
}

#[test]
fn ranking_empty_list() {
    assert!(rank_full_albums_by_popularity(Vec::new()).is_empty());
}

#[test]
fn artist_filter_keeps_credited_tracks() {
    let a = album(
        "x",
        5,
        vec![
            track(Some("1"), "solo", &["Ann"], Some(true)),
            track(Some("2"), "feat", &["Bob", "Ann"], Some(true)),
            track(Some("3"), "other", &["Bob"], Some(true)),
        ],
    );
    let r = filter_to_just_tracks_that_contain_artist("Ann".to_string(), a);
    assert_eq!(r.artist, "Ann");
    assert_eq!(r.album.id, "x");
    let names: Vec<&str> = r.filtered_tracks.iter().map(|t| t.name.as_str()).collect();
    assert_eq!(names, vec!["solo", "feat"]);
}

#[test]
fn playable_ids_need_an_explicit_yes() {
    let tracks = vec![
        track(Some("1"), "a", &[], Some(true)),
        track(Some("2"), "b", &[], Some(false)),
        track(Some("3"), "c", &[], None),
        track(None, "d", &[], Some(true)),
        track(Some("5"), "e", &[], Some(true)),
    ];
    assert_eq!(playable_ids(&tracks), strings(&["1", "5"]));
}
