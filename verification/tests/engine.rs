use spotify_sync::library::{Library, LibraryStats, Playlist, Track, get_library_stats};
use spotify_sync::sync::{
    ItemOutcome, LIKED_BATCH, execute_plan, plan_transfer, transfer, vec_true,
};

fn track_of(id: &str) -> Track {
    Track {
        id: id.to_string(),
        title: String::new(),
        artist: String::new(),
        album: String::new(),
        duration_ms: 180_000,
    }
}

fn playlist_of(name: &str, ids: &[&str]) -> Playlist {
    Playlist {
        id: format!("pl-{}", name),
        name: name.to_string(),
        description: String::new(),
        is_public: false,
        collaborative: false,
        tracks: ids.iter().map(|i| track_of(i)).collect(),
    }
}

fn ids_of(tracks: &[Track]) -> Vec<String> {
    tracks.iter().map(|t| t.id.clone()).collect()
}

#[test]
fn example_scenario() {
    // Source: "Road Trip" = [T1, T2, T3], liked {T1, T4}.
    // Target: "Road Trip" = [T2], liked {T1}.
    let source = Library {
        playlists: vec![playlist_of("Road Trip", &["T1", "T2", "T3"])],
        liked: vec![track_of("T1"), track_of("T4")],
    };
    let mut target = Library {
        playlists: vec![playlist_of("Road Trip", &["T2"])],
        liked: vec![track_of("T1")],
    };
    let result = transfer(&source, &mut target);

    assert_eq!(target.playlists.len(), 1);
    assert_eq!(target.playlists[0].name, "Road Trip");
    assert_eq!(ids_of(&target.playlists[0].tracks), vec!["T2", "T1", "T3"]);
    assert_eq!(ids_of(&target.liked), vec!["T1", "T4"]);

    assert_eq!(result.playlists.len(), 1);
    assert_eq!(result.playlists[0].0, "Road Trip");
    assert!(matches!(result.playlists[0].1, ItemOutcome::Merged));
    assert_eq!(ids_of(&result.liked_added), vec!["T4"]);
    assert_eq!(ids_of(&result.liked_skipped), vec!["T1"]);
    assert!(result.liked_failed.is_empty());
}

#[test]
fn transfer_twice_changes_nothing() {
    let source = Library {
        playlists: vec![
            playlist_of("Road Trip", &["T1", "T2", "T3"]),
            playlist_of("Focus", &["T5"]),
        ],
        liked: vec![track_of("T1"), track_of("T4")],
    };
    let mut target = Library { playlists: vec![], liked: vec![] };

    transfer(&source, &mut target);
    let after_first: Vec<Vec<String>> =
        target.playlists.iter().map(|p| ids_of(&p.tracks)).collect();
    let liked_first = ids_of(&target.liked);

    let second = transfer(&source, &mut target);
    let after_second: Vec<Vec<String>> =
        target.playlists.iter().map(|p| ids_of(&p.tracks)).collect();

    assert_eq!(after_first, after_second);
    assert_eq!(liked_first, ids_of(&target.liked));
    assert!(second.liked_added.is_empty());
    for (_, outcome) in &second.playlists {
        assert!(matches!(outcome, ItemOutcome::SkippedDuplicate));
    }
}

#[test]
fn created_playlist_keeps_source_order() {
    let source = Library {
        playlists: vec![playlist_of("Mix", &["B", "A", "C", "A"])],
        liked: vec![],
    };
    let mut target = Library { playlists: vec![], liked: vec![] };
    let result = transfer(&source, &mut target);

    assert_eq!(target.playlists.len(), 1);
    assert_eq!(target.playlists[0].name, "Mix");
    assert_eq!(ids_of(&target.playlists[0].tracks), vec!["B", "A", "C", "A"]);
    assert!(matches!(result.playlists[0].1, ItemOutcome::Created));
}

#[test]
fn merge_appends_only_missing_in_source_order() {
    let source = Library {
        playlists: vec![playlist_of("Mix", &["T1", "T1", "T2", "T3"])],
        liked: vec![],
    };
    let mut target = Library {
        playlists: vec![playlist_of("Mix", &["T9", "T2"])],
        liked: vec![],
    };
    transfer(&source, &mut target);

    // Existing content untouched and in place; missing tracks appended
    // once each, in source order.
    assert_eq!(ids_of(&target.playlists[0].tracks), vec!["T9", "T2", "T1", "T3"]);
}

#[test]
fn liked_tracks_never_duplicated() {
    let source = Library {
        playlists: vec![],
        liked: vec![track_of("T1"), track_of("T2"), track_of("T2")],
    };
    let mut target = Library { playlists: vec![], liked: vec![track_of("T2")] };
    transfer(&source, &mut target);
    assert_eq!(ids_of(&target.liked), vec!["T2", "T1"]);
}

#[test]
fn tracks_without_id_match_by_title_and_artist() {
    let anon = |title: &str, artist: &str| Track {
        id: String::new(),
        title: title.to_string(),
        artist: artist.to_string(),
        album: String::new(),
        duration_ms: 0,
    };
    let source = Library {
        playlists: vec![],
        liked: vec![anon("Song", "Band"), anon("Other", "Band")],
    };
    let mut target = Library { playlists: vec![], liked: vec![anon("Song", "Band")] };
    let result = transfer(&source, &mut target);
    assert_eq!(result.liked_added.len(), 1);
    assert_eq!(result.liked_added[0].title, "Other");
    assert_eq!(target.liked.len(), 2);
}

#[test]
fn one_failed_batch_leaves_other_items_untouched() {
    let source = Library {
        playlists: vec![
            playlist_of("First", &["T1"]),
            playlist_of("Second", &["T2"]),
        ],
        liked: vec![track_of("T3")],
    };
    let mut target = Library { playlists: vec![], liked: vec![] };

    let plan = plan_transfer(&source, &target);
    let playlist_ok = vec![false, true];
    let liked_ok = vec_true(1);
    let result = execute_plan(&mut target, &plan, &playlist_ok, &liked_ok);

    // The failed create wrote nothing; the other items all landed.
    assert_eq!(target.playlists.len(), 1);
    assert_eq!(target.playlists[0].name, "Second");
    assert_eq!(ids_of(&target.liked), vec!["T3"]);

    assert_eq!(result.playlists.len(), 2);
    assert!(matches!(result.playlists[0].1, ItemOutcome::Failed { .. }));
    assert!(matches!(result.playlists[1].1, ItemOutcome::Created));
    assert_eq!(ids_of(&result.liked_added), vec!["T3"]);
}

#[test]
fn failed_liked_batch_is_isolated() {
    // 51 missing liked tracks make two batches: 50 and 1.
    let mut liked = Vec::new();
    for i in 0..(LIKED_BATCH + 1) {
        liked.push(track_of(&format!("L{}", i)));
    }
    let source = Library { playlists: vec![], liked };
    let mut target = Library { playlists: vec![], liked: vec![] };

    let plan = plan_transfer(&source, &target);
    let playlist_ok: Vec<bool> = vec![];
    let liked_ok = vec![true, false];
    let result = execute_plan(&mut target, &plan, &playlist_ok, &liked_ok);

    assert_eq!(target.liked.len(), LIKED_BATCH);
    assert_eq!(result.liked_added.len(), LIKED_BATCH);
    assert_eq!(result.liked_failed.len(), 1);
    assert_eq!(result.liked_failed[0].id, format!("L{}", LIKED_BATCH));
}

#[test]
fn same_named_source_playlists_create_once() {
    let source = Library {
        playlists: vec![
            playlist_of("Dup", &["T1"]),
            playlist_of("Dup", &["T2"]),
        ],
        liked: vec![],
    };
    let mut target = Library { playlists: vec![], liked: vec![] };
    transfer(&source, &mut target);

    assert_eq!(target.playlists.len(), 1);
    assert_eq!(ids_of(&target.playlists[0].tracks), vec!["T1", "T2"]);
}

#[test]
fn library_stats_count_everything() {
    let lib = Library {
        playlists: vec![
            playlist_of("A", &["T1", "T2"]),
            playlist_of("B", &["T3"]),
        ],
        liked: vec![track_of("T4"), track_of("T5")],
    };
    let stats: LibraryStats = get_library_stats(&lib);
    assert_eq!(stats.liked_songs, 2);
    assert_eq!(stats.playlists, 2);
    assert_eq!(stats.total_songs, 5);
}
