use chrono::DateTime;
use watch_history::shared::MediaType;
use watch_history::tautulli::error::WatchError;
use watch_history::tautulli::history_params;
use watch_history::tautulli::responses::{
    history_movie_to_history, HistoryItem, HistoryMovie, HistoryMovieItem,
};
use watch_history::tautulli::user_watches::LatestWatches;
use watch_history::tautulli::viewer_order::{viewer_position, Position};
use watch_history::tautulli::{UserEpisodeWatch, UserMovieWatch, WatchHistory};

fn event(user: &str, date: i64, percent_complete: u8) -> HistoryItem {
    HistoryItem {
        user: user.to_string(),
        date,
        duration: 10,
        percent_complete,
        media_index: Some(4),
        parent_media_index: Some(2),
    }
}

#[test]
fn movie_history_becomes_general_history() {
    let movie = HistoryMovie {
        draw: 3,
        records_total: 20,
        records_filtered: 2,
        data: vec![
            HistoryMovieItem {
                user: "b".to_string(),
                date: 150,
                duration: 7,
                percent_complete: 10,
            },
            HistoryMovieItem {
                user: "a".to_string(),
                date: 100,
                duration: 9,
                percent_complete: 50,
            },
        ],
    };
    let history = history_movie_to_history(movie);
    assert_eq!(history.draw, 3);
    assert_eq!(history.records_total, 20);
    assert_eq!(history.records_filtered, 2);
    assert_eq!(history.data.len(), 2);
    assert_eq!(history.data[0].user, "b");
    assert_eq!(history.data[0].date, 150);
    assert_eq!(history.data[0].duration, 7);
    assert_eq!(history.data[0].percent_complete, 10);
    assert_eq!(history.data[0].media_index, None);
    assert_eq!(history.data[0].parent_media_index, None);
    assert_eq!(history.data[1].user, "a");
    assert_eq!(history.data[1].date, 100);
    assert_eq!(history.data[1].duration, 9);
    assert_eq!(history.data[1].percent_complete, 50);
    assert_eq!(history.data[1].media_index, None);
    assert_eq!(history.data[1].parent_media_index, None);
}

#[test]
fn empty_movie_history_becomes_empty_history() {
    let movie = HistoryMovie { draw: 0, records_total: 0, records_filtered: 0, data: vec![] };
    let history = history_movie_to_history(movie);
    assert_eq!(history.draw, 0);
    assert!(history.data.is_empty());
}

#[test]
fn movie_is_asked_for_by_its_own_key() {
    let params = history_params("1234", &MediaType::Movie);
    assert_eq!(params, vec![("rating_key".to_string(), "1234".to_string())]);
}

#[test]
fn tv_item_is_asked_for_by_the_key_of_its_show() {
    let params = history_params("1234", &MediaType::Tv);
    assert_eq!(params, vec![("grandparent_rating_key".to_string(), "1234".to_string())]);
}

#[test]
fn viewer_positions() {
    assert_eq!(viewer_position("a", "b"), Position::Before);
    assert_eq!(viewer_position("b", "a"), Position::After);
    assert_eq!(viewer_position("a", "a"), Position::Same);
    assert_eq!(viewer_position("", ""), Position::Same);
    assert_eq!(viewer_position("", "a"), Position::Before);
    assert_eq!(viewer_position("a", ""), Position::After);
    assert_eq!(viewer_position("al", "alice"), Position::Before);
    assert_eq!(viewer_position("alice", "al"), Position::After);
    assert_eq!(viewer_position("Bob", "alice"), Position::Before);
    assert_eq!(viewer_position("zoe", "émile"), Position::Before);
    assert_eq!(viewer_position("émile", "émile"), Position::Same);
    assert_eq!(viewer_position("日本", "émile"), Position::After);
}

#[test]
fn viewer_position_is_the_order_of_strings() {
    let names = ["", "a", "A", "ab", "b", "é", "e", "日本", "z", "zz", "\u{10FFFF}", "\u{7f}"];
    for a in names {
        for b in names {
            let expected = if a < b {
                Position::Before
            } else if a == b {
                Position::Same
            } else {
                Position::After
            };
            assert_eq!(viewer_position(a, b), expected);
        }
    }
}

#[test]
fn recording_keeps_one_watch_per_viewer_in_order() {
    let events = vec![
        event("carol", 5, 1),
        event("alice", 7, 2),
        event("carol", 9, 3),
        event("alice", 7, 4),
        event("bob", 1, 5),
        event("alice", 6, 6),
    ];
    let mut latest = LatestWatches::new();
    assert_eq!(latest.len(), 0);
    latest.record(&events[0]);
    assert_eq!(latest.len(), 1);
    latest.record(&events[1]);
    assert_eq!(latest.len(), 2);
    assert_eq!(latest.get(0).user, "alice");
    assert_eq!(latest.get(1).user, "carol");
    latest.record(&events[2]);
    assert_eq!(latest.len(), 2);
    assert_eq!(latest.get(1).percent_complete, 3);
    latest.record(&events[3]);
    assert_eq!(latest.get(0).percent_complete, 2);
    latest.record(&events[4]);
    latest.record(&events[5]);
    assert_eq!(latest.len(), 3);
    assert_eq!(latest.get(0).user, "alice");
    assert_eq!(latest.get(0).date, 7);
    assert_eq!(latest.get(0).percent_complete, 2);
    assert_eq!(latest.get(1).user, "bob");
    assert_eq!(latest.get(2).user, "carol");
    assert_eq!(latest.get(2).date, 9);
}

#[test]
fn from_events_is_recording_every_event() {
    let events = vec![
        event("carol", 5, 1),
        event("alice", 7, 2),
        event("carol", 9, 3),
        event("alice", 7, 4),
    ];
    let latest = LatestWatches::from_events(&events);
    assert_eq!(latest.len(), 2);
    assert_eq!(latest.get(0).user, "alice");
    assert_eq!(latest.get(0).percent_complete, 2);
    assert_eq!(latest.get(1).user, "carol");
    assert_eq!(latest.get(1).percent_complete, 3);
    let none: Vec<HistoryItem> = vec![];
    assert_eq!(LatestWatches::from_events(&none).len(), 0);
}

#[test]
fn movie_watch_from_an_event_and_its_timestamp() {
    let watched = event("alice", 200, 90);
    let at = DateTime::from_timestamp(200, 0).unwrap().naive_utc();
    match UserMovieWatch::from_watch(&watched, Some(at), "42") {
        Ok(watch) => {
            assert_eq!(watch.display_name, "alice");
            assert_eq!(watch.last_watched, at);
            assert_eq!(watch.progress, 90);
        }
        Err(error) => panic!("unexpected error {:?}", error),
    }
    match UserMovieWatch::from_watch(&watched, None, "42") {
        Err(WatchError::UnixTimeOutOfRange { rating_key }) => assert_eq!(rating_key, "42"),
        other => panic!("expected a date out of range, got {:?}", other),
    }
}

#[test]
fn episode_watch_from_an_event_and_its_timestamp() {
    let at = DateTime::from_timestamp(200, 0).unwrap().naive_utc();
    let watched = event("alice", 200, 90);
    match UserEpisodeWatch::from_watch(&watched, Some(at), "77") {
        Ok(watch) => {
            assert_eq!(watch.display_name, "alice");
            assert_eq!(watch.last_watched, at);
            assert_eq!(watch.progress, 90);
            assert_eq!(watch.season, 2);
            assert_eq!(watch.episode, 4);
        }
        Err(error) => panic!("unexpected error {:?}", error),
    }
    let mut no_season = event("alice", 200, 90);
    no_season.parent_media_index = None;
    assert!(matches!(
        UserEpisodeWatch::from_watch(&no_season, Some(at), "77"),
        Err(WatchError::MissingEpisodeCoordinates { .. })
    ));
    let mut no_episode = event("alice", 200, 90);
    no_episode.media_index = None;
    assert!(matches!(
        UserEpisodeWatch::from_watch(&no_episode, Some(at), "77"),
        Err(WatchError::MissingEpisodeCoordinates { .. })
    ));
    assert!(matches!(
        UserEpisodeWatch::from_watch(&no_season, None, "77"),
        Err(WatchError::UnixTimeOutOfRange { .. })
    ));
    assert!(matches!(
        UserEpisodeWatch::from_watch(&watched, None, "77"),
        Err(WatchError::UnixTimeOutOfRange { .. })
    ));
}

#[test]
fn history_from_user_watches_follows_the_kind() {
    let events = vec![event("b", 150, 10), event("a", 200, 90)];
    let built = WatchHistory::from_user_watches(
        LatestWatches::from_events(&events),
        &MediaType::Movie,
        "42",
    );
    match built {
        Ok(WatchHistory::Movie(item)) => {
            assert_eq!(item.rating_key, "42");
            assert_eq!(item.watches.len(), 2);
            assert_eq!(item.watches[0].display_name, "a");
            assert_eq!(item.watches[1].display_name, "b");
        }
        other => panic!("expected a movie history, got {:?}", other),
    }
    let built =
        WatchHistory::from_user_watches(LatestWatches::from_events(&events), &MediaType::Tv, "42");
    match built {
        Ok(WatchHistory::TvShow(item)) => {
            assert_eq!(item.watches.len(), 2);
            assert_eq!(item.watches[0].season, 2);
            assert_eq!(item.watches[0].episode, 4);
        }
        other => panic!("expected a TV history, got {:?}", other),
    }
}

#[test]
fn create_movie_history_ignores_season_and_episode() {
    let mut odd = event("a", 200, 90);
    odd.media_index = None;
    let events = vec![odd];
    let built = WatchHistory::create_movie_history(LatestWatches::from_events(&events), "42");
    assert!(matches!(built, Ok(WatchHistory::Movie(_))));
    let built = WatchHistory::create_tv_history(LatestWatches::from_events(&events), "42");
    assert!(matches!(built, Err(WatchError::MissingEpisodeCoordinates { .. })));
}

#[test]
fn error_messages_name_the_item() {
    let error = WatchError::UnixTimeOutOfRange { rating_key: "42".to_string() };
    assert_eq!(error.message(), "Failed to parse unix time for rating key 42");
    assert_eq!(error.rating_key(), "42");
    let error = WatchError::MissingEpisodeCoordinates { rating_key: "77".to_string() };
    assert_eq!(error.message(), "Missing season or episode for rating key 77");
    assert_eq!(error.rating_key(), "77");
}
