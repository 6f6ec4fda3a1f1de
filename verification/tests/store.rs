use std::path::PathBuf;

use shellcaster::store::Entries;
use shellcaster::store::StoreError;
use shellcaster::types::Episode;
use shellcaster::types::LockVec;
use shellcaster::types::Menuable;
use shellcaster::types::Podcast;

fn episode(id: i64, title: &str) -> Episode {
    Episode {
        id,
        pod_id: 1,
        title: title.to_string(),
        url: String::new(),
        description: String::new(),
        pubdate: Some(1_431_648_000),
        duration: Some(12345),
        path: None,
        played: id % 2 == 0,
    }
}

fn podcast(id: i64, title: &str, episodes: Vec<Episode>) -> Podcast {
    let any_unplayed = episodes.iter().any(|ep| !ep.played);
    Podcast {
        id,
        title: title.to_string(),
        url: String::new(),
        description: None,
        author: Some("someone".to_string()),
        explicit: None,
        last_checked: 1_431_648_000,
        episodes: LockVec::new(episodes),
        any_unplayed,
    }
}

#[test]
fn entries_keep_order_and_identifiers() {
    let entries = Entries::from_vec(vec![episode(30, "c"), episode(10, "a"), episode(20, "b")]);
    assert_eq!(entries.len(), 3);
    assert!(!entries.is_empty());
    let ids = [30, 10, 20];
    for n in 0..3 {
        assert_eq!(entries.get_ref(n).unwrap().id, ids[n]);
        assert_eq!(entries.id_to_index(ids[n]), Some(n));
        assert_eq!(entries.get_ref_by_id(ids[n]).unwrap().id, ids[n]);
        assert!(entries.contains(ids[n]));
    }
    assert!(entries.get_ref(3).is_none());
    assert!(entries.get_ref_by_id(40).is_none());
    assert_eq!(entries.id_to_index(40), None);
    assert!(!entries.contains(40));
}

#[test]
fn entries_keep_the_first_of_each_identifier() {
    let entries = Entries::from_vec(vec![
        episode(1, "first"),
        episode(2, "second"),
        episode(1, "again"),
        episode(3, "third"),
        episode(2, "once more"),
    ]);
    assert_eq!(entries.len(), 3);
    assert_eq!(entries.get_ref(0).unwrap().title, "first");
    assert_eq!(entries.get_ref(1).unwrap().title, "second");
    assert_eq!(entries.get_ref(2).unwrap().title, "third");
}

#[test]
fn empty_entries() {
    let entries: Entries<Episode> = Entries::empty();
    assert_eq!(entries.len(), 0);
    assert!(entries.is_empty());
    assert!(entries.get_ref(0).is_none());
    let store: LockVec<Episode> = LockVec::new(Vec::new());
    assert_eq!(store.len(), 0);
    assert!(store.is_empty());
    assert!(store.get(0).is_none());
    assert_eq!(store.replace(0, episode(1, "x")), Err(StoreError::InvalidIndex));
}

#[test]
fn replace_keeps_first_position() {
    let store = LockVec::new(vec![episode(10, "a"), episode(11, "b"), episode(12, "c")]);
    assert_eq!(store.replace(0, episode(10, "x")), Err(StoreError::InvalidIndex));
    assert_eq!(store.replace(3, episode(10, "x")), Err(StoreError::InvalidIndex));
    assert_eq!(store.replace(usize::MAX, episode(10, "x")), Err(StoreError::InvalidIndex));
    assert_eq!(store.replace(1, episode(10, "x")), Err(StoreError::IdMismatch));
    assert_eq!(store.get(0).unwrap().title, "a");
    assert_eq!(store.get(1).unwrap().title, "b");
    assert_eq!(store.replace(1, episode(11, "x")), Ok(()));
    assert_eq!(store.replace(2, episode(12, "y")), Ok(()));
    assert_eq!(store.get(0).unwrap().title, "a");
    assert_eq!(store.get(1).unwrap().title, "x");
    assert_eq!(store.get(2).unwrap().title, "y");
    assert_eq!(store.len(), 3);
}

#[test]
fn error_messages() {
    assert_eq!(StoreError::InvalidIndex.message(), "Invalid index");
    assert_eq!(StoreError::IdMismatch.message(), "Identifier does not match");
}

#[test]
fn lookups_by_position_and_identifier() {
    let store = LockVec::new(vec![episode(10, "a"), episode(11, "b"), episode(12, "c")]);
    assert_eq!(store.get(2).unwrap().id, 12);
    assert_eq!(store.get_by_id(11).unwrap().title, "b");
    assert!(store.get_by_id(13).is_none());
    assert_eq!(store.position_of(12), Some(2));
    assert_eq!(store.id_to_index(10), Some(0));
    assert_eq!(store.id_to_index(13), None);
    assert_eq!(store.clone_episode(1).unwrap().title, "b");
    assert!(store.clone_episode(3).is_none());
    for n in 0..3usize {
        let id = store.get(n).unwrap().id;
        assert_eq!(store.id_to_index(id), Some(n));
        assert_eq!(store.get_by_id(id).unwrap().id, id);
    }
}

#[test]
fn projections() {
    let store = LockVec::new(vec![
        episode(10, "a"),
        episode(11, "b"),
        episode(12, "c"),
        episode(13, "d"),
    ]);
    assert_eq!(store.map_single_by_index(1, |ep| ep.is_played()), Some(false));
    assert_eq!(store.map_single_by_index(2, |ep| ep.title.clone()), Some("c".to_string()));
    assert_eq!(store.map_single_by_index(4, |ep| ep.is_played()), None);
    assert_eq!(store.map_single(13, |ep| ep.title.clone()), Some("d".to_string()));
    assert_eq!(store.map_single(14, |ep| ep.title.clone()), None);
    assert_eq!(store.map(|ep| ep.id), vec![10, 11, 12, 13]);
    assert_eq!(store.map_by_range(1, 3, |ep| ep.id), vec![11, 12]);
    assert_eq!(store.map_by_range(2, 10, |ep| ep.id), vec![12, 13]);
    assert_eq!(store.map_by_range(3, 2, |ep| ep.id), Vec::<i64>::new());
    assert_eq!(store.map_by_range(7, 9, |ep| ep.id), Vec::<i64>::new());
    assert_eq!(store.map_by_range(0, 0, |ep| ep.id), Vec::<i64>::new());
}

#[test]
fn scoped_access() {
    let store = LockVec::new(vec![episode(10, "a"), episode(11, "b")]);
    let other = store.clone();
    let seen = store.borrow(|mut entries| {
        let n = entries.len();
        let changed = entries.modify(1, |mut ep| {
            ep.played = true;
            ep
        });
        (entries, (n, changed))
    });
    assert_eq!(seen, (2, true));
    assert_eq!(other.map_single_by_index(1, |ep| ep.is_played()), Some(true));
    assert_eq!(other.len(), 2);
}

#[test]
fn handles_share_one_store() {
    let store = LockVec::new(vec![episode(10, "a"), episode(11, "b")]);
    let other = store.clone();
    other.replace(1, episode(11, "changed")).unwrap();
    assert_eq!(store.get(1).unwrap().title, "changed");
}

#[test]
fn two_handles_on_disjoint_positions() {
    let store = LockVec::new((0..100).map(|i| episode(i, "t")).collect());
    let other = store.clone();
    for i in 1..100usize {
        if i % 2 == 1 {
            other.replace(i, episode(i as i64, "worker")).unwrap();
        } else {
            store.replace(i, episode(i as i64, "ui")).unwrap();
        }
    }
    assert_eq!(store.len(), 100);
    assert_eq!(other.len(), 100);
    for i in 0..100usize {
        let e = store.get(i).unwrap();
        assert_eq!(e.id, i as i64);
        assert_eq!(other.position_of(i as i64), Some(i));
        let expected = if i == 0 { "t" } else if i % 2 == 1 { "worker" } else { "ui" };
        assert_eq!(e.title, expected);
    }
}

#[test]
fn disjoint_replaces_in_either_order() {
    let one = LockVec::new((0..5).map(|i| episode(i, "t")).collect());
    let two = LockVec::new((0..5).map(|i| episode(i, "t")).collect());
    one.replace(1, episode(1, "a")).unwrap();
    one.replace(3, episode(3, "b")).unwrap();
    two.replace(3, episode(3, "b")).unwrap();
    two.replace(1, episode(1, "a")).unwrap();
    assert_eq!(one.map(|ep| ep.title.clone()), two.map(|ep| ep.title.clone()));
    assert_eq!(one.map(|ep| ep.id), vec![0, 1, 2, 3, 4]);
}

#[test]
fn podcasts_and_their_episodes() {
    let pods = LockVec::new(vec![
        podcast(1, "One", vec![episode(10, "a"), episode(11, "b")]),
        podcast(2, "Two", vec![]),
    ]);
    assert_eq!(pods.clone_podcast(0).unwrap().title, "One");
    assert!(pods.clone_podcast(2).is_none());
    assert_eq!(pods.clone_episode(0, 1).unwrap().title, "b");
    assert!(pods.clone_episode(0, 2).is_none());
    assert!(pods.clone_episode(1, 0).is_none());
    assert!(pods.clone_episode(2, 0).is_none());
    assert_eq!(pods.id_to_index(2), Some(1));
    assert_eq!(pods.id_to_index(3), None);

    // a copy of a podcast shares the store of its episodes
    let copy = pods.clone_podcast(0).unwrap();
    copy.episodes.replace(1, episode(11, "changed")).unwrap();
    assert_eq!(pods.clone_episode(0, 1).unwrap().title, "changed");
}

#[test]
fn podcast_title_counts_played_episodes() {
    let pod = podcast(1, "One", vec![episode(10, "a"), episode(11, "b"), episode(12, "c")]);
    assert_eq!(pod.get_title(26), "One                  (2/3)");
    assert_eq!(pod.get_title(25), "One");
    assert_eq!(pod.get_title(2), "On");
    assert!(!pod.is_played());
    assert_eq!(pod.get_id(), 1);
    let empty = podcast(2, "Two", vec![]);
    assert_eq!(empty.get_title(30), "Two                      (0/0)");
    assert!(empty.is_played());
}

#[test]
fn episode_title_with_date_and_duration() {
    let ep = episode(1, "A Very Cool Episode");
    let t = ep.get_title(65);
    assert_eq!(t, "A Very Cool Episode                       (2015-05-15) [03:25:45]");
    assert_eq!(t.chars().count(), 65);
    assert_eq!(ep.get_title(50), "A Very Cool Episode                     [03:25:45]");
    assert_eq!(ep.get_title(12), "A Very Cool ");
    assert_eq!(ep.format_duration(), "03:25:45");
    assert!(!ep.is_played());
    assert_eq!(ep.get_id(), 1);
}

#[test]
fn episode_title_with_a_date_before_1970() {
    let mut ep = episode(1, "Old");
    ep.pubdate = Some(-86_400);
    assert!(ep.get_title(61).ends_with(" (1969-12-31) [03:25:45]"));
}

#[test]
fn episode_title_without_a_date() {
    let mut ep = episode(1, "A Very Cool Episode");
    ep.pubdate = None;
    assert_eq!(
        ep.get_title(65),
        "A Very Cool Episode                                    [03:25:45]"
    );
    // a moment that no calendar date stands for shows no date either
    ep.pubdate = Some(i64::MAX);
    assert_eq!(
        ep.get_title(65),
        "A Very Cool Episode                                    [03:25:45]"
    );
}

#[test]
fn a_copy_of_an_episode_is_the_same_episode() {
    let mut ep = episode(7, "Downloaded");
    ep.path = Some(PathBuf::from("/tmp/episode.mp3"));
    let copy = ep.clone();
    assert_eq!(copy.id, 7);
    assert_eq!(copy.pod_id, 1);
    assert_eq!(copy.title, "Downloaded");
    assert_eq!(copy.pubdate, ep.pubdate);
    assert_eq!(copy.duration, ep.duration);
    assert_eq!(copy.path, Some(PathBuf::from("/tmp/episode.mp3")));
    assert_eq!(copy.played, ep.played);
    assert_eq!(copy.get_title(20), "[D] Downloaded");
}
