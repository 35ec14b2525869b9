use chrono::DateTime;
use watch_history::shared::MediaType;
use watch_history::tautulli::error::WatchError;
use watch_history::tautulli::get_item_watches;
use watch_history::tautulli::responses::{History, HistoryItem};
use watch_history::tautulli::WatchHistory;

fn movie_event(user: &str, date: i64, percent_complete: u8) -> HistoryItem {
    HistoryItem {
        user: user.to_string(),
        date,
        duration: 60,
        percent_complete,
        media_index: None,
        parent_media_index: None,
    }
}

fn episode_event(
    user: &str,
    date: i64,
    percent_complete: u8,
    season: Option<u32>,
    episode: Option<u32>,
) -> HistoryItem {
    HistoryItem {
        user: user.to_string(),
        date,
        duration: 60,
        percent_complete,
        media_index: episode,
        parent_media_index: season,
    }
}

fn page(data: Vec<HistoryItem>) -> History {
    let n = data.len() as u64;
    History { draw: 1, records_total: n, records_filtered: n, data }
}

fn movie_rows(history: &History) -> Vec<(String, i64, u8)> {
    match get_item_watches("42", &MediaType::Movie, history) {
        Ok(WatchHistory::Movie(item)) => {
            assert_eq!(item.rating_key, "42");
            item.watches
                .iter()
                .map(|w| (w.display_name.clone(), w.last_watched.and_utc().timestamp(), w.progress))
                .collect()
        }
        other => panic!("expected a movie history, got {:?}", other),
    }
}

fn episode_rows(history: &History) -> Vec<(String, i64, u8, u32, u32)> {
    match get_item_watches("77", &MediaType::Tv, history) {
        Ok(WatchHistory::TvShow(item)) => {
            assert_eq!(item.rating_key, "77");
            item.watches
                .iter()
                .map(|w| {
                    (
                        w.display_name.clone(),
                        w.last_watched.and_utc().timestamp(),
                        w.progress,
                        w.season,
                        w.episode,
                    )
                })
                .collect()
        }
        other => panic!("expected a TV history, got {:?}", other),
    }
}

#[test]
fn movie_history_keeps_the_latest_watch_of_each_viewer() {
    let history = page(vec![
        movie_event("a", 100, 50),
        movie_event("a", 200, 90),
        movie_event("b", 150, 10),
    ]);
    assert_eq!(
        movie_rows(&history),
        vec![("a".to_string(), 200, 90), ("b".to_string(), 150, 10)]
    );
}

#[test]
fn last_watched_is_the_calendar_time_of_the_date() {
    let history = page(vec![movie_event("a", 1_431_648_000, 33)]);
    match get_item_watches("42", &MediaType::Movie, &history) {
        Ok(WatchHistory::Movie(item)) => {
            assert_eq!(item.watches.len(), 1);
            let expected = DateTime::from_timestamp(1_431_648_000, 0).unwrap().naive_utc();
            assert_eq!(item.watches[0].last_watched, expected);
            assert_eq!(format!("{}", item.watches[0].last_watched), "2015-05-15 00:00:00");
        }
        other => panic!("expected a movie history, got {:?}", other),
    }
}

#[test]
fn dates_before_the_epoch_are_converted() {
    let history = page(vec![movie_event("a", -1, 5)]);
    match get_item_watches("42", &MediaType::Movie, &history) {
        Ok(WatchHistory::Movie(item)) => {
            assert_eq!(format!("{}", item.watches[0].last_watched), "1969-12-31 23:59:59");
        }
        other => panic!("expected a movie history, got {:?}", other),
    }
}

#[test]
fn empty_history_gives_no_watches() {
    let history = page(vec![]);
    assert_eq!(movie_rows(&history), vec![]);
    assert_eq!(episode_rows(&history), vec![]);
}

#[test]
fn one_watch_per_viewer() {
    let history = page(vec![
        movie_event("carol", 5, 1),
        movie_event("alice", 7, 2),
        movie_event("carol", 9, 3),
        movie_event("bob", 1, 4),
        movie_event("alice", 3, 5),
        movie_event("carol", 2, 6),
    ]);
    let rows = movie_rows(&history);
    assert_eq!(rows.len(), 3);
    for i in 0..rows.len() {
        for j in (i + 1)..rows.len() {
            assert_ne!(rows[i].0, rows[j].0);
        }
    }
}

#[test]
fn kept_watch_is_at_least_as_late_as_every_watch_of_the_viewer() {
    let events = vec![
        movie_event("carol", 5, 1),
        movie_event("alice", 7, 2),
        movie_event("carol", 9, 3),
        movie_event("bob", 1, 4),
        movie_event("alice", 3, 5),
        movie_event("carol", 2, 6),
    ];
    let history = page(events);
    let rows = movie_rows(&history);
    assert_eq!(
        rows,
        vec![("alice".to_string(), 7, 2), ("bob".to_string(), 1, 4), ("carol".to_string(), 9, 3)]
    );
    for event in &history.data {
        let row = rows.iter().find(|r| r.0 == event.user).unwrap();
        assert!(row.1 >= event.date);
    }
}

#[test]
fn first_of_equal_dates_is_kept() {
    let history = page(vec![
        movie_event("a", 100, 11),
        movie_event("b", 50, 1),
        movie_event("a", 100, 22),
    ]);
    assert_eq!(
        movie_rows(&history),
        vec![("a".to_string(), 100, 11), ("b".to_string(), 50, 1)]
    );
    let history = page(vec![
        movie_event("a", 100, 22),
        movie_event("a", 100, 11),
        movie_event("b", 50, 1),
    ]);
    assert_eq!(
        movie_rows(&history),
        vec![("a".to_string(), 100, 22), ("b".to_string(), 50, 1)]
    );
}

#[test]
fn equal_dates_below_the_latest_do_not_matter() {
    let history = page(vec![
        movie_event("a", 100, 11),
        movie_event("a", 100, 22),
        movie_event("a", 300, 33),
        movie_event("a", 300, 44),
        movie_event("a", 200, 55),
    ]);
    assert_eq!(movie_rows(&history), vec![("a".to_string(), 300, 33)]);
}

#[test]
fn watches_are_in_ascending_order_of_viewers_whatever_the_event_order() {
    let forward = page(vec![
        movie_event("alice", 1, 1),
        movie_event("bob", 2, 2),
        movie_event("carol", 3, 3),
    ]);
    let backward = page(vec![
        movie_event("carol", 3, 3),
        movie_event("bob", 2, 2),
        movie_event("alice", 1, 1),
    ]);
    let mixed = page(vec![
        movie_event("bob", 2, 2),
        movie_event("carol", 3, 3),
        movie_event("alice", 1, 1),
    ]);
    let expected = vec![
        ("alice".to_string(), 1, 1),
        ("bob".to_string(), 2, 2),
        ("carol".to_string(), 3, 3),
    ];
    assert_eq!(movie_rows(&forward), expected);
    assert_eq!(movie_rows(&backward), expected);
    assert_eq!(movie_rows(&mixed), expected);
}

#[test]
fn viewers_are_ordered_by_their_bytes() {
    let history = page(vec![
        movie_event("zoe", 1, 1),
        movie_event("émile", 2, 2),
        movie_event("Bob", 3, 3),
        movie_event("al", 4, 4),
        movie_event("alice", 5, 5),
        movie_event("", 6, 6),
    ]);
    let names: Vec<String> = movie_rows(&history).into_iter().map(|r| r.0).collect();
    assert_eq!(names, vec!["", "Bob", "al", "alice", "zoe", "émile"]);
    let mut sorted = names.clone();
    sorted.sort();
    assert_eq!(names, sorted);
}

#[test]
fn tv_history_fills_season_and_episode() {
    let history = page(vec![
        episode_event("b", 150, 10, Some(2), Some(7)),
        episode_event("a", 100, 50, Some(1), Some(3)),
        episode_event("a", 200, 90, Some(1), Some(4)),
    ]);
    assert_eq!(
        episode_rows(&history),
        vec![("a".to_string(), 200, 90, 1, 4), ("b".to_string(), 150, 10, 2, 7)]
    );
}

#[test]
fn movie_history_is_of_the_movie_kind() {
    let history = page(vec![episode_event("a", 100, 50, Some(1), Some(3))]);
    let built = get_item_watches("42", &MediaType::Movie, &history);
    assert!(matches!(built, Ok(WatchHistory::Movie(_))));
    let built = get_item_watches("42", &MediaType::Tv, &history);
    assert!(matches!(built, Ok(WatchHistory::TvShow(_))));
}

#[test]
fn tv_event_without_season_is_an_error() {
    let history = page(vec![
        episode_event("a", 100, 50, Some(1), Some(3)),
        episode_event("b", 150, 10, None, Some(7)),
    ]);
    match get_item_watches("77", &MediaType::Tv, &history) {
        Err(WatchError::MissingEpisodeCoordinates { rating_key }) => assert_eq!(rating_key, "77"),
        other => panic!("expected missing episode coordinates, got {:?}", other),
    }
}

#[test]
fn tv_event_without_episode_is_an_error() {
    let history = page(vec![episode_event("a", 100, 50, Some(1), None)]);
    match get_item_watches("77", &MediaType::Tv, &history) {
        Err(WatchError::MissingEpisodeCoordinates { rating_key }) => assert_eq!(rating_key, "77"),
        other => panic!("expected missing episode coordinates, got {:?}", other),
    }
}

#[test]
fn superseded_event_without_season_is_no_error() {
    let history = page(vec![
        episode_event("a", 100, 50, None, None),
        episode_event("a", 200, 60, Some(3), Some(9)),
    ]);
    assert_eq!(episode_rows(&history), vec![("a".to_string(), 200, 60, 3, 9)]);
}

#[test]
fn date_out_of_range_is_an_error() {
    for date in [i64::MAX, i64::MIN, 9_000_000_000_000_000, -9_000_000_000_000_000] {
        let history = page(vec![movie_event("a", 100, 50), movie_event("b", date, 10)]);
        match get_item_watches("42", &MediaType::Movie, &history) {
            Err(WatchError::UnixTimeOutOfRange { rating_key }) => assert_eq!(rating_key, "42"),
            other => panic!("expected a date out of range, got {:?}", other),
        }
        let history = page(vec![
            episode_event("a", 100, 50, Some(1), Some(1)),
            episode_event("b", date, 10, Some(1), Some(2)),
        ]);
        match get_item_watches("42", &MediaType::Tv, &history) {
            Err(WatchError::UnixTimeOutOfRange { rating_key }) => assert_eq!(rating_key, "42"),
            other => panic!("expected a date out of range, got {:?}", other),
        }
    }
}

#[test]
fn first_faulty_viewer_decides_the_error() {
    let history = page(vec![
        episode_event("b", i64::MAX, 10, Some(1), Some(1)),
        episode_event("a", 100, 50, None, None),
    ]);
    assert!(matches!(
        get_item_watches("77", &MediaType::Tv, &history),
        Err(WatchError::MissingEpisodeCoordinates { .. })
    ));
    let history = page(vec![
        episode_event("b", 100, 10, None, None),
        episode_event("a", i64::MAX, 50, Some(1), Some(1)),
    ]);
    assert!(matches!(
        get_item_watches("77", &MediaType::Tv, &history),
        Err(WatchError::UnixTimeOutOfRange { .. })
    ));
}

#[test]
fn date_is_checked_before_season_and_episode() {
    let history = page(vec![episode_event("a", i64::MAX, 50, None, None)]);
    assert!(matches!(
        get_item_watches("77", &MediaType::Tv, &history),
        Err(WatchError::UnixTimeOutOfRange { .. })
    ));
}
