use playlist::service::{
    album_lookup_batches, batches, first_named, replace_plan, Pager, ReplacePlan,
    ALBUM_LOOKUP_LIMIT, PAGE_LIMIT, PLAYLIST_EDIT_LIMIT,
};

#[test]
fn pager_walks_consecutive_windows() {
    let mut pager = Pager::new();
    assert_eq!(pager.request(), (50, 0));
    pager.record_page(true);
    assert_eq!(pager.request(), (50, 50));
    pager.record_page(true);
    assert_eq!(pager.request(), (50, 100));
    assert!(!pager.is_finished());
    pager.record_page(false);
    assert!(pager.is_finished());
    assert_eq!(pager.request(), (50, 100));
    assert_eq!(PAGE_LIMIT, 50);
}

#[test]
fn pager_can_advance_until_offsets_run_out() {
    let pager = Pager::new();
    assert!(pager.can_advance());
}

#[test]
fn first_named_finds_first_match() {
    let names: Vec<String> = vec!["a".into(), "Mix".into(), "b".into(), "Mix".into()];
    assert_eq!(first_named(&names, &"Mix".to_string()), Some(1));
    assert_eq!(first_named(&names, &"mix".to_string()), None);
    assert_eq!(first_named(&Vec::new(), &"Mix".to_string()), None);
}

#[test]
fn batches_cut_like_chunks() {
    assert_eq!(batches(250, 100), vec![(0, 100), (100, 200), (200, 250)]);
    assert_eq!(batches(200, 100), vec![(0, 100), (100, 200)]);
    assert_eq!(batches(0, 100), Vec::<(usize, usize)>::new());
    assert_eq!(batches(3, 1), vec![(0, 1), (1, 2), (2, 3)]);
}

#[test]
fn replace_plan_uses_one_edit_up_to_the_limit() {
    assert_eq!(PLAYLIST_EDIT_LIMIT, 100);
    assert!(matches!(replace_plan(0), ReplacePlan::Whole));
    assert!(matches!(replace_plan(100), ReplacePlan::Whole));
    match replace_plan(101) {
        ReplacePlan::Chunks(c) => assert_eq!(c, vec![(0, 100), (100, 101)]),
        ReplacePlan::Whole => panic!("101 tracks need chunks"),
    }
}

#[test]
fn album_lookup_batches_drop_missing_ids() {
    assert_eq!(ALBUM_LOOKUP_LIMIT, 20);
    let mut ids: Vec<Option<String>> = Vec::new();
    for k in 0..45 {
        ids.push(if k % 10 == 3 { None } else { Some(format!("id{}", k)) });
    }
    let b = album_lookup_batches(&ids);
    assert_eq!(b.len(), 3);
    assert_eq!(b[0].len(), 18);
    assert_eq!(b[1].len(), 18);
    assert_eq!(b[2].len(), 4);
    assert_eq!(b[2], vec!["id40".to_string(), "id41".to_string(), "id42".to_string(), "id44".to_string()]);
    assert!(album_lookup_batches(&Vec::new()).is_empty());
}
