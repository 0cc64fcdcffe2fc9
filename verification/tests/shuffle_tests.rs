use playlist::shuffle::{Recipe, SpotifyTrack};

fn tracks(pairs: &[(&str, &str)]) -> Vec<SpotifyTrack> {
    pairs.iter().map(|(id, name)| SpotifyTrack::new(id, name)).collect()
}

fn ids(list: &[SpotifyTrack]) -> Vec<String> {
    list.iter().map(|t| t.track_id.clone()).collect()
}

fn seven() -> Vec<SpotifyTrack> {
    tracks(&[
        ("0", "foo"),
        ("1", "bar"),
        ("2", "baz"),
        ("3", "bat"),
        ("4", "quux"),
        ("5", "apple"),
        ("6", "sauce"),
    ])
}

#[test]
fn spotify_track_new_and_getters() {
    let t = SpotifyTrack::new("4iV5W9uYEdYUVa79Axb7Rh", "Song");
    assert_eq!(t.track_id, "4iV5W9uYEdYUVa79Axb7Rh");
    assert_eq!(t.name, "Song");
    assert_eq!(t.clone().get_track_id(), "4iV5W9uYEdYUVa79Axb7Rh");
    assert_eq!(t.get_name(), "Song");
}

#[test]
fn shuffle_keeps_group_together_on_seven_tracks() {
    let mut recipe = Recipe::new(seven(), Vec::new());
    recipe.add_group(tracks(&[("0", "foo"), ("1", "bar"), ("2", "baz")]));
    for _ in 0..50 {
        let output = recipe.shuffle();
        assert_eq!(output.len(), 7);
        let out_ids = ids(&output);
        let mut sorted = out_ids.clone();
        sorted.sort();
        assert_eq!(sorted, vec!["0", "1", "2", "3", "4", "5", "6"]);
        let start = out_ids.iter().position(|x| x == "0").unwrap();
        assert_eq!(&out_ids[start..start + 3], &["0", "1", "2"]);
    }
}

#[test]
fn add_group_drops_loose_copies_and_keeps_order() {
    let mut recipe = Recipe::new(seven(), Vec::new());
    recipe.add_group(tracks(&[("5", "apple"), ("1", "bar")]));
    let output = recipe.shuffle();
    let out_ids = ids(&output);
    // 5 loose tracks + the group of 2, each track once.
    assert_eq!(out_ids.len(), 7);
    let p5 = out_ids.iter().position(|x| x == "5").unwrap();
    assert_eq!(out_ids[p5 + 1], "1");
    assert_eq!(out_ids.iter().filter(|x| *x == "1").count(), 1);
    assert_eq!(out_ids.iter().filter(|x| *x == "5").count(), 1);
}

#[test]
fn add_group_by_name_resolves_through_map_last_pair_wins() {
    let map = vec![
        ("foo".to_string(), "0".to_string()),
        ("bar".to_string(), "1".to_string()),
        ("foo".to_string(), "9".to_string()),
    ];
    let mut recipe = Recipe::new(tracks(&[("1", "bar"), ("2", "baz")]), map);
    recipe.add_group_by_name(vec!["bar", "foo"]);
    let output = recipe.shuffle();
    let out_ids = ids(&output);
    assert_eq!(out_ids.len(), 3);
    let p = out_ids.iter().position(|x| x == "1").unwrap();
    assert_eq!(out_ids[p + 1], "9");
    assert_eq!(output[p + 1].name, "foo");
    assert!(out_ids.contains(&"2".to_string()));
}

#[test]
fn shuffle_of_empty_recipe_is_empty() {
    let recipe = Recipe::new(Vec::new(), Vec::new());
    assert!(recipe.shuffle().is_empty());
}

#[test]
fn chained_groups_all_stay_contiguous() {
    let mut recipe = Recipe::new(seven(), Vec::new());
    recipe
        .add_group(tracks(&[("0", "foo"), ("3", "bat")]))
        .add_group(tracks(&[("6", "sauce"), ("4", "quux"), ("2", "baz")]));
    for _ in 0..30 {
        let out_ids = ids(&recipe.shuffle());
        assert_eq!(out_ids.len(), 7);
        let a = out_ids.iter().position(|x| x == "0").unwrap();
        assert_eq!(out_ids[a + 1], "3");
        let b = out_ids.iter().position(|x| x == "6").unwrap();
        assert_eq!(&out_ids[b..b + 3], &["6", "4", "2"]);
    }
}
