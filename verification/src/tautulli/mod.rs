//! Watch history of one media item, one latest watch per viewer.

pub mod by_viewer;
pub mod calendar;
pub mod error;
pub mod latest;
pub mod responses;
pub mod user_watches;
pub mod viewer_order;

use self::calendar::{unix_seconds_to_date, utc_date_of_unix_seconds};
use self::error::{WatchError, WatchFault};
use self::by_viewer::viewers;
use self::latest::{
    latest_watches, lemma_latest_watches, lemma_one_watch_per_viewer,
    lemma_viewer_order_ignores_event_order,
};
use self::viewer_order::viewer_before;
use self::responses::{History, HistoryItem, WatchEvent};
use self::user_watches::LatestWatches;
use crate::shared::MediaType;
use chrono::NaiveDateTime;
use vstd::prelude::*;

verus! {

/// The watches of one media item, in the shape of its kind.
#[derive(Debug)]
pub enum WatchHistory {
    Movie(ItemWithHistory<UserMovieWatch>),
    TvShow(ItemWithHistory<UserEpisodeWatch>),
}

/// A media item with one watch per viewer.
#[derive(Debug)]
pub struct ItemWithHistory<T> {
    pub rating_key: String,
    pub watches: Vec<T>,
}

/// A viewer's latest watch of an episode.
#[derive(Debug)]
pub struct UserEpisodeWatch {
    pub display_name: String,
    /// The date and time of the watch, at UTC.
    pub last_watched: NaiveDateTime,
    pub progress: u8,
    pub season: u32,
    pub episode: u32,
}

/// A viewer's latest watch of a movie.
#[derive(Debug)]
pub struct UserMovieWatch {
    pub display_name: String,
    /// The date and time of the watch, at UTC.
    pub last_watched: NaiveDateTime,
    pub progress: u8,
}

/// A `UserMovieWatch` as a mathematical value.
pub struct MovieWatch {
    pub display_name: Seq<char>,
    pub last_watched: NaiveDateTime,
    pub progress: nat,
}

/// A `UserEpisodeWatch` as a mathematical value.
pub struct EpisodeWatch {
    pub display_name: Seq<char>,
    pub last_watched: NaiveDateTime,
    pub progress: nat,
    pub season: nat,
    pub episode: nat,
}

/// An `ItemWithHistory` as a mathematical value.
pub struct ItemWatches<W> {
    pub rating_key: Seq<char>,
    pub watches: Seq<W>,
}

/// A `WatchHistory` as a mathematical value.
pub enum ItemHistory {
    Movie(ItemWatches<MovieWatch>),
    TvShow(ItemWatches<EpisodeWatch>),
}

impl View for UserMovieWatch {
    type V = MovieWatch;

    open spec fn view(&self) -> MovieWatch {
        MovieWatch {
            display_name: self.display_name@,
            last_watched: self.last_watched,
            progress: self.progress as nat,
        }
    }
}

impl View for UserEpisodeWatch {
    type V = EpisodeWatch;

    open spec fn view(&self) -> EpisodeWatch {
        EpisodeWatch {
            display_name: self.display_name@,
            last_watched: self.last_watched,
            progress: self.progress as nat,
            season: self.season as nat,
            episode: self.episode as nat,
        }
    }
}

impl<T: View> View for ItemWithHistory<T> {
    type V = ItemWatches<T::V>;

    open spec fn view(&self) -> ItemWatches<T::V> {
        ItemWatches {
            rating_key: self.rating_key@,
            watches: Seq::new(self.watches@.len(), |k: int| self.watches@[k]@),
        }
    }
}

impl View for WatchHistory {
    type V = ItemHistory;

    open spec fn view(&self) -> ItemHistory {
        match self {
            WatchHistory::Movie(item) => ItemHistory::Movie(item@),
            WatchHistory::TvShow(item) => ItemHistory::TvShow(item@),
        }
    }
}

impl ItemHistory {
    /// The viewers of the watches, in the order of the watches.
    pub open spec fn display_names(self) -> Seq<Seq<char>> {
        match self {
            ItemHistory::Movie(item) => Seq::new(
                item.watches.len(),
                |k: int| item.watches[k].display_name,
            ),
            ItemHistory::TvShow(item) => Seq::new(
                item.watches.len(),
                |k: int| item.watches[k].display_name,
            ),
        }
    }
}

/// What a call gave, as a mathematical value: the view of what it built, or
/// the view of its error.
pub open spec fn outcome<T: View>(result: Result<T, WatchError>) -> Result<T::V, WatchFault> {
    match result {
        Ok(built) => Ok(built@),
        Err(error) => Err(error@),
    }
}

/// The movie watch that an event stands for, given the calendar timestamp of
/// its date: the viewer, the timestamp and the progress. Without a timestamp
/// there is none.
pub open spec fn movie_watch_at(
    event: WatchEvent,
    last_watched: Option<NaiveDateTime>,
    rating_key: Seq<char>,
) -> Result<MovieWatch, WatchFault> {
    match last_watched {
        Some(last_watched) => Ok(
            MovieWatch {
                display_name: event.user,
                last_watched,
                progress: event.percent_complete,
            },
        ),
        None => Err(WatchFault::UnixTimeOutOfRange { rating_key }),
    }
}

/// The episode watch that an event stands for, given the calendar timestamp
/// of its date: the viewer, the timestamp, the progress, the season and the
/// episode. Without a timestamp there is none, and with a timestamp there is
/// none unless the event has both its season and its episode.
pub open spec fn episode_watch_at(
    event: WatchEvent,
    last_watched: Option<NaiveDateTime>,
    rating_key: Seq<char>,
) -> Result<EpisodeWatch, WatchFault> {
    match (last_watched, event.parent_media_index, event.media_index) {
        (None, _, _) => Err(WatchFault::UnixTimeOutOfRange { rating_key }),
        (Some(last_watched), Some(season), Some(episode)) => Ok(
            EpisodeWatch {
                display_name: event.user,
                last_watched,
                progress: event.percent_complete,
                season,
                episode,
            },
        ),
        _ => Err(WatchFault::MissingEpisodeCoordinates { rating_key }),
    }
}

/// The movie watch that an event stands for.
pub open spec fn movie_watch(event: WatchEvent, rating_key: Seq<char>) -> Result<
    MovieWatch,
    WatchFault,
> {
    movie_watch_at(event, utc_date_of_unix_seconds(event.date), rating_key)
}

/// The episode watch that an event stands for.
pub open spec fn episode_watch(event: WatchEvent, rating_key: Seq<char>) -> Result<
    EpisodeWatch,
    WatchFault,
> {
    episode_watch_at(event, utc_date_of_unix_seconds(event.date), rating_key)
}

impl UserMovieWatch {
    /// Builds a viewer's movie watch from the viewer's kept event and the
    /// calendar timestamp of its date.
    pub fn from_watch(
        watch: &HistoryItem,
        last_watched: Option<NaiveDateTime>,
        rating_key: &str,
    ) -> (built: Result<UserMovieWatch, WatchError>)
        ensures
            outcome(built) == movie_watch_at(watch@, last_watched, rating_key@),
    {
        match last_watched {
            Some(last_watched) => Ok(
                UserMovieWatch {
                    display_name: watch.user.clone(),
                    last_watched,
                    progress: watch.percent_complete,
                },
            ),
            None => Err(WatchError::UnixTimeOutOfRange { rating_key: rating_key.to_owned() }),
        }
    }
}

impl UserEpisodeWatch {
    /// Builds a viewer's episode watch from the viewer's kept event and the
    /// calendar timestamp of its date. An event without its season or its
    /// episode gives an error, never a watch with numbers made up.
    pub fn from_watch(
        watch: &HistoryItem,
        last_watched: Option<NaiveDateTime>,
        rating_key: &str,
    ) -> (built: Result<UserEpisodeWatch, WatchError>)
        ensures
            outcome(built) == episode_watch_at(watch@, last_watched, rating_key@),
    {
        match (last_watched, watch.parent_media_index, watch.media_index) {
            (None, _, _) => Err(
                WatchError::UnixTimeOutOfRange { rating_key: rating_key.to_owned() },
            ),
            (Some(last_watched), Some(season), Some(episode)) => Ok(
                UserEpisodeWatch {
                    display_name: watch.user.clone(),
                    last_watched,
                    progress: watch.percent_complete,
                    season,
                    episode,
                },
            ),
            _ => Err(WatchError::MissingEpisodeCoordinates { rating_key: rating_key.to_owned() }),
        }
    }
}

/// The result at place `k` is a fault, and none before it is.
pub open spec fn is_first_fault<W>(results: Seq<Result<W, WatchFault>>, k: int) -> bool {
    &&& 0 <= k < results.len()
    &&& results[k] is Err
    &&& forall|j: int| 0 <= j < k ==> (#[trigger] results[j]) is Ok
}

/// All the watches where none is a fault, and else the first fault.
pub open spec fn all_or_first_fault<W>(results: Seq<Result<W, WatchFault>>) -> Result<
    Seq<W>,
    WatchFault,
> {
    if exists|k: int| is_first_fault(results, k) {
        Err(results[choose|k: int| is_first_fault(results, k)]->Err_0)
    } else {
        Ok(Seq::new(results.len(), |k: int| results[k]->Ok_0))
    }
}

/// The movie watch of each kept event, in the order of the events.
pub open spec fn movie_watches(latest: Seq<WatchEvent>, rating_key: Seq<char>) -> Seq<
    Result<MovieWatch, WatchFault>,
> {
    Seq::new(latest.len(), |k: int| movie_watch(latest[k], rating_key))
}

/// The episode watch of each kept event, in the order of the events.
pub open spec fn episode_watches(latest: Seq<WatchEvent>, rating_key: Seq<char>) -> Seq<
    Result<EpisodeWatch, WatchFault>,
> {
    Seq::new(latest.len(), |k: int| episode_watch(latest[k], rating_key))
}

/// The history of a movie: the movie watch of every kept event, in the order
/// of the events, or the fault of the first event that has one.
pub open spec fn movie_history(latest: Seq<WatchEvent>, rating_key: Seq<char>) -> Result<
    ItemHistory,
    WatchFault,
> {
    match all_or_first_fault(movie_watches(latest, rating_key)) {
        Ok(watches) => Ok(ItemHistory::Movie(ItemWatches { rating_key, watches })),
        Err(fault) => Err(fault),
    }
}

/// The history of a TV item: the episode watch of every kept event, in the
/// order of the events, or the fault of the first event that has one.
pub open spec fn tv_history(latest: Seq<WatchEvent>, rating_key: Seq<char>) -> Result<
    ItemHistory,
    WatchFault,
> {
    match all_or_first_fault(episode_watches(latest, rating_key)) {
        Ok(watches) => Ok(ItemHistory::TvShow(ItemWatches { rating_key, watches })),
        Err(fault) => Err(fault),
    }
}

/// The history of an item of the given kind, built from its kept events.
pub open spec fn watch_history(
    latest: Seq<WatchEvent>,
    media_type: MediaType,
    rating_key: Seq<char>,
) -> Result<ItemHistory, WatchFault> {
    match media_type {
        MediaType::Movie => movie_history(latest, rating_key),
        MediaType::Tv => tv_history(latest, rating_key),
    }
}

/// The history of an item of the given kind, built from all its events: each
/// viewer's latest watch, in ascending order of the viewers.
pub open spec fn item_watches(
    rating_key: Seq<char>,
    media_type: MediaType,
    events: Seq<WatchEvent>,
) -> Result<ItemHistory, WatchFault> {
    watch_history(latest_watches(events), media_type, rating_key)
}

impl WatchHistory {
    /// Builds the history of an item from the latest watch of each viewer,
    /// in the shape of the item's kind.
    pub fn from_user_watches(
        user_watches: LatestWatches<'_>,
        media_type: &MediaType,
        rating_key: &str,
    ) -> (history: Result<WatchHistory, WatchError>)
        ensures
            outcome(history) == watch_history(user_watches@, *media_type, rating_key@),
    {
        match media_type {
            MediaType::Movie => WatchHistory::create_movie_history(user_watches, rating_key),
            MediaType::Tv => WatchHistory::create_tv_history(user_watches, rating_key),
        }
    }

    /// Builds the history of a movie: one movie watch per viewer, in
    /// ascending order of the viewers. The first event whose date has no
    /// calendar timestamp ends the call with an error.
    pub fn create_movie_history(user_watches: LatestWatches<'_>, rating_key: &str) -> (history:
        Result<WatchHistory, WatchError>)
        ensures
            outcome(history) == movie_history(user_watches@, rating_key@),
    {
        let ghost results = movie_watches(user_watches@, rating_key@);
        let n = user_watches.len();
        let mut watches: Vec<UserMovieWatch> = Vec::new();
        let mut k: usize = 0;
        while k < n
            invariant
                k <= n,
                n == user_watches@.len(),
                results == movie_watches(user_watches@, rating_key@),
                watches@.len() == k,
                forall|j: int|
                    0 <= j < k ==> (#[trigger] results[j]) == Ok::<MovieWatch, WatchFault>(
                        watches@[j]@,
                    ),
            decreases n - k,
        {
            let watch = user_watches.get(k);
            let last_watched = unix_seconds_to_date(watch.date);
            match UserMovieWatch::from_watch(watch, last_watched, rating_key) {
                Ok(built) => {
                    watches.push(built);
                },
                Err(error) => {
                    assert(is_first_fault(results, k as int));
                    return Err(error);
                },
            }
            k += 1;
        }
        let item = ItemWithHistory { rating_key: rating_key.to_owned(), watches };
        proof {
            assert(!exists|f: int| is_first_fault(results, f));
            assert(item@.watches =~= all_or_first_fault(results)->Ok_0);
        }
        Ok(WatchHistory::Movie(item))
    }

    /// Builds the history of a TV item: one episode watch per viewer, in
    /// ascending order of the viewers. The first event whose date has no
    /// calendar timestamp, or that lacks its season or its episode, ends the
    /// call with an error.
    pub fn create_tv_history(user_watches: LatestWatches<'_>, rating_key: &str) -> (history: Result<
        WatchHistory,
        WatchError,
    >)
        ensures
            outcome(history) == tv_history(user_watches@, rating_key@),
    {
        let ghost results = episode_watches(user_watches@, rating_key@);
        let n = user_watches.len();
        let mut watches: Vec<UserEpisodeWatch> = Vec::new();
        let mut k: usize = 0;
        while k < n
            invariant
                k <= n,
                n == user_watches@.len(),
                results == episode_watches(user_watches@, rating_key@),
                watches@.len() == k,
                forall|j: int|
                    0 <= j < k ==> (#[trigger] results[j]) == Ok::<EpisodeWatch, WatchFault>(
                        watches@[j]@,
                    ),
            decreases n - k,
        {
            let watch = user_watches.get(k);
            let last_watched = unix_seconds_to_date(watch.date);
            match UserEpisodeWatch::from_watch(watch, last_watched, rating_key) {
                Ok(built) => {
                    watches.push(built);
                },
                Err(error) => {
                    assert(is_first_fault(results, k as int));
                    return Err(error);
                },
            }
            k += 1;
        }
        let item = ItemWithHistory { rating_key: rating_key.to_owned(), watches };
        proof {
            assert(!exists|f: int| is_first_fault(results, f));
            assert(item@.watches =~= all_or_first_fault(results)->Ok_0);
        }
        Ok(WatchHistory::TvShow(item))
    }
}

/// The key under which the history service is asked for an item: a movie by
/// its own rating key, a TV item by the rating key of its show.
pub open spec fn history_param_name(media_type: MediaType) -> Seq<char> {
    match media_type {
        MediaType::Movie => "rating_key"@,
        MediaType::Tv => "grandparent_rating_key"@,
    }
}

/// The parameters of the history query for an item of the given kind: one
/// pair, the key that the kind asks for and the item's rating key.
pub fn history_params(rating_key: &str, media_type: &MediaType) -> (params: Vec<
    (String, String),
>)
    ensures
        params@.len() == 1,
        params@[0].0@ == history_param_name(*media_type),
        params@[0].1@ == rating_key@,
{
    let name = match media_type {
        MediaType::Movie => "rating_key",
        MediaType::Tv => "grandparent_rating_key",
    };
    let mut params: Vec<(String, String)> = Vec::new();
    params.push((name.to_owned(), rating_key.to_owned()));
    params
}

/// A history that was built has the shape of its kind, names its item, and
/// holds one watch for each kept event, in the order of the events: the
/// event's viewer, the calendar timestamp of its date and its progress. A
/// movie's watches have no season and no episode to fill; every watch of a TV
/// item has the season and the episode of its event. A fault names the item.
pub proof fn lemma_watch_history_shape(
    latest: Seq<WatchEvent>,
    media_type: MediaType,
    rating_key: Seq<char>,
)
    ensures
        match watch_history(latest, media_type, rating_key) {
            Ok(ItemHistory::Movie(item)) => {
                &&& media_type == MediaType::Movie
                &&& item.rating_key == rating_key
                &&& item.watches.len() == latest.len()
                &&& forall|k: int|
                    #![trigger item.watches[k]]
                    0 <= k < latest.len() ==> {
                        &&& item.watches[k].display_name == latest[k].user
                        &&& Some(item.watches[k].last_watched) == utc_date_of_unix_seconds(
                            latest[k].date,
                        )
                        &&& item.watches[k].progress == latest[k].percent_complete
                    }
            },
            Ok(ItemHistory::TvShow(item)) => {
                &&& media_type == MediaType::Tv
                &&& item.rating_key == rating_key
                &&& item.watches.len() == latest.len()
                &&& forall|k: int|
                    #![trigger item.watches[k]]
                    0 <= k < latest.len() ==> {
                        &&& item.watches[k].display_name == latest[k].user
                        &&& Some(item.watches[k].last_watched) == utc_date_of_unix_seconds(
                            latest[k].date,
                        )
                        &&& item.watches[k].progress == latest[k].percent_complete
                        &&& Some(item.watches[k].season) == latest[k].parent_media_index
                        &&& Some(item.watches[k].episode) == latest[k].media_index
                    }
            },
            Err(fault) => fault.rating_key() == rating_key,
        },
{
    match media_type {
        MediaType::Movie => {
            let results = movie_watches(latest, rating_key);
            if exists|f: int| is_first_fault(results, f) {
                let f = choose|f: int| is_first_fault(results, f);
                assert(results[f] == movie_watch(latest[f], rating_key));
            } else {
                assert forall|k: int| 0 <= k < latest.len() implies (#[trigger] results[k])
                    is Ok by {
                    lemma_fault_has_first(results, k);
                }
            }
        },
        MediaType::Tv => {
            let results = episode_watches(latest, rating_key);
            if exists|f: int| is_first_fault(results, f) {
                let f = choose|f: int| is_first_fault(results, f);
                assert(results[f] == episode_watch(latest[f], rating_key));
            } else {
                assert forall|k: int| 0 <= k < latest.len() implies (#[trigger] results[k])
                    is Ok by {
                    lemma_fault_has_first(results, k);
                }
            }
        },
    }
}

/// Where the result at place `k` is a fault, some result is the first fault.
proof fn lemma_fault_has_first<W>(results: Seq<Result<W, WatchFault>>, k: int)
    requires
        0 <= k < results.len(),
    ensures
        results[k] is Err ==> exists|f: int| is_first_fault(results, f),
    decreases k,
{
    if results[k] is Err {
        if exists|j: int| 0 <= j < k && (#[trigger] results[j]) is Err {
            let j = choose|j: int| 0 <= j < k && (#[trigger] results[j]) is Err;
            lemma_fault_has_first(results, j);
        } else {
            assert(is_first_fault(results, k));
        }
    }
}

/// What keeps a kept event from becoming a watch of an item of the given
/// kind: its date has no calendar timestamp or, for a TV item and only after
/// that, it lacks its season or its episode.
pub open spec fn fault_of(
    event: WatchEvent,
    media_type: MediaType,
    rating_key: Seq<char>,
) -> Option<WatchFault> {
    if utc_date_of_unix_seconds(event.date) is None {
        Some(WatchFault::UnixTimeOutOfRange { rating_key })
    } else if media_type == MediaType::Tv && (event.parent_media_index is None
        || event.media_index is None) {
        Some(WatchFault::MissingEpisodeCoordinates { rating_key })
    } else {
        None
    }
}

/// A history is built just if no kept event has a fault; with no kept event
/// at all it is always built. Where it is not built, the error is the fault
/// of the first kept event that has one, in ascending order of the viewers.
pub proof fn lemma_watch_history_faults(
    latest: Seq<WatchEvent>,
    media_type: MediaType,
    rating_key: Seq<char>,
)
    ensures
        watch_history(latest, media_type, rating_key) is Ok <==> forall|k: int|
            0 <= k < latest.len() ==> fault_of(#[trigger] latest[k], media_type, rating_key)
                is None,
        watch_history(latest, media_type, rating_key) is Err ==> exists|f: int|
            {
                &&& 0 <= f < latest.len()
                &&& fault_of(#[trigger] latest[f], media_type, rating_key) == Some(
                    watch_history(latest, media_type, rating_key)->Err_0,
                )
                &&& forall|j: int|
                    0 <= j < f ==> fault_of(#[trigger] latest[j], media_type, rating_key) is None
            },
{
    match media_type {
        MediaType::Movie => {
            let results = movie_watches(latest, rating_key);
            assert forall|k: int| 0 <= k < latest.len() implies (results[k] is Ok <==> fault_of(
                #[trigger] latest[k],
                media_type,
                rating_key,
            ) is None) && (results[k] is Err ==> fault_of(latest[k], media_type, rating_key)
                == Some(results[k]->Err_0)) by {
                assert(results[k] == movie_watch(latest[k], rating_key));
            }
            if exists|f: int| is_first_fault(results, f) {
                let f = choose|f: int| is_first_fault(results, f);
                assert(fault_of(latest[f], media_type, rating_key) is Some);
                assert forall|j: int| 0 <= j < f implies fault_of(
                    #[trigger] latest[j],
                    media_type,
                    rating_key,
                ) is None by {
                    assert(results[j] is Ok);
                }
            } else {
                assert forall|k: int| 0 <= k < latest.len() implies fault_of(
                    #[trigger] latest[k],
                    media_type,
                    rating_key,
                ) is None by {
                    lemma_fault_has_first(results, k);
                }
            }
        },
        MediaType::Tv => {
            let results = episode_watches(latest, rating_key);
            assert forall|k: int| 0 <= k < latest.len() implies (results[k] is Ok <==> fault_of(
                #[trigger] latest[k],
                media_type,
                rating_key,
            ) is None) && (results[k] is Err ==> fault_of(latest[k], media_type, rating_key)
                == Some(results[k]->Err_0)) by {
                assert(results[k] == episode_watch(latest[k], rating_key));
            }
            if exists|f: int| is_first_fault(results, f) {
                let f = choose|f: int| is_first_fault(results, f);
                assert(fault_of(latest[f], media_type, rating_key) is Some);
                assert forall|j: int| 0 <= j < f implies fault_of(
                    #[trigger] latest[j],
                    media_type,
                    rating_key,
                ) is None by {
                    assert(results[j] is Ok);
                }
            } else {
                assert forall|k: int| 0 <= k < latest.len() implies fault_of(
                    #[trigger] latest[k],
                    media_type,
                    rating_key,
                ) is None by {
                    lemma_fault_has_first(results, k);
                }
            }
        },
    }
}

/// A history that was built holds one watch per viewer, in ascending order of
/// the viewers: no viewer has two.
pub proof fn lemma_one_summary_per_viewer(
    rating_key: Seq<char>,
    media_type: MediaType,
    events: Seq<WatchEvent>,
)
    ensures
        match item_watches(rating_key, media_type, events) {
            Ok(history) => {
                let names = history.display_names();
                &&& names == viewers(latest_watches(events))
                &&& forall|i: int, j: int|
                    #![trigger names[i], names[j]]
                    0 <= i < j < names.len() ==> viewer_before(names[i], names[j]) && names[i]
                        != names[j]
            },
            Err(_) => true,
        },
{
    let latest = latest_watches(events);
    lemma_watch_history_shape(latest, media_type, rating_key);
    lemma_latest_watches(events);
    lemma_one_watch_per_viewer(events);
    match item_watches(rating_key, media_type, events) {
        Ok(history) => {
            let names = history.display_names();
            assert(names =~= viewers(latest));
            assert forall|i: int, j: int|
                #![trigger names[i], names[j]]
                0 <= i < j < names.len() implies viewer_before(names[i], names[j]) && names[i]
                != names[j] by {
                assert(viewer_before(latest[i].user, latest[j].user));
                assert(latest[i].user != latest[j].user);
            }
        },
        Err(_) => {},
    }
}

/// The order of the watches in a history does not depend on the order of the
/// events: two lists that hold the same events, in whatever order, give the
/// same viewers in the same places.
pub proof fn lemma_summary_order_ignores_event_order(
    rating_key: Seq<char>,
    media_type: MediaType,
    a: Seq<WatchEvent>,
    b: Seq<WatchEvent>,
)
    requires
        a.to_multiset() == b.to_multiset(),
        item_watches(rating_key, media_type, a) is Ok,
        item_watches(rating_key, media_type, b) is Ok,
    ensures
        item_watches(rating_key, media_type, a)->Ok_0.display_names() == item_watches(
            rating_key,
            media_type,
            b,
        )->Ok_0.display_names(),
{
    lemma_one_summary_per_viewer(rating_key, media_type, a);
    lemma_one_summary_per_viewer(rating_key, media_type, b);
    lemma_viewer_order_ignores_event_order(a, b);
}

/// The latest watch of every viewer of an item, from the item's fetched
/// history: one watch per viewer, in ascending order of the viewers, in the
/// shape of the item's kind.
pub fn get_item_watches(rating_key: &str, media_type: &MediaType, history: &History) -> (watches:
    Result<WatchHistory, WatchError>)
    ensures
        outcome(watches) == item_watches(rating_key@, *media_type, history@.data),
{
    let latest_user_history = LatestWatches::from_events(&history.data);
    WatchHistory::from_user_watches(latest_user_history, media_type, rating_key)
}

} // verus!
