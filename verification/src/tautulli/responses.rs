//! The raw history of one media item as the history service answers it, and
//! the step that brings a movie's history into the general shape.

use vstd::prelude::*;

verus! {

/// One watch event of one viewer on one media item.
#[derive(Debug)]
pub struct HistoryItem {
    /// The viewer's identifier.
    pub user: String,
    /// When the event was observed, in whole seconds since the Unix epoch.
    pub date: i64,
    /// How long the viewer watched, in seconds.
    pub duration: u64,
    /// How much of the item the viewer has seen, in percent.
    pub percent_complete: u8,
    /// The episode's number within its season; absent for a movie.
    pub media_index: Option<u32>,
    /// The season's number; absent for a movie.
    pub parent_media_index: Option<u32>,
}

/// One page of watch events, with the counters of the paging protocol.
#[derive(Debug)]
pub struct History {
    pub draw: u64,
    pub records_total: u64,
    pub records_filtered: u64,
    pub data: Vec<HistoryItem>,
}

/// One watch event of a movie: it has no season and no episode.
#[derive(Debug)]
pub struct HistoryMovieItem {
    pub user: String,
    pub date: i64,
    pub duration: u64,
    pub percent_complete: u8,
}

/// One page of a movie's watch events.
#[derive(Debug)]
pub struct HistoryMovie {
    pub draw: u64,
    pub records_total: u64,
    pub records_filtered: u64,
    pub data: Vec<HistoryMovieItem>,
}

/// A watch event as a mathematical value.
pub struct WatchEvent {
    pub user: Seq<char>,
    pub date: int,
    pub duration: nat,
    pub percent_complete: nat,
    pub media_index: Option<nat>,
    pub parent_media_index: Option<nat>,
}

/// A page of watch events as a mathematical value.
pub struct HistoryPage {
    pub draw: nat,
    pub records_total: nat,
    pub records_filtered: nat,
    pub data: Seq<WatchEvent>,
}

/// A movie's watch event as a mathematical value.
pub struct MovieWatchEvent {
    pub user: Seq<char>,
    pub date: int,
    pub duration: nat,
    pub percent_complete: nat,
}

/// A page of a movie's watch events as a mathematical value.
pub struct MovieHistoryPage {
    pub draw: nat,
    pub records_total: nat,
    pub records_filtered: nat,
    pub data: Seq<MovieWatchEvent>,
}

/// A season or episode number as a natural number, where there is one.
pub open spec fn index_value(index: Option<u32>) -> Option<nat> {
    match index {
        Some(n) => Some(n as nat),
        None => None,
    }
}

impl View for HistoryItem {
    type V = WatchEvent;

    open spec fn view(&self) -> WatchEvent {
        WatchEvent {
            user: self.user@,
            date: self.date as int,
            duration: self.duration as nat,
            percent_complete: self.percent_complete as nat,
            media_index: index_value(self.media_index),
            parent_media_index: index_value(self.parent_media_index),
        }
    }
}

/// The events of a list, each as a mathematical value, in the list's order.
pub open spec fn watch_events(items: Seq<HistoryItem>) -> Seq<WatchEvent> {
    Seq::new(items.len(), |i: int| items[i]@)
}

impl View for History {
    type V = HistoryPage;

    open spec fn view(&self) -> HistoryPage {
        HistoryPage {
            draw: self.draw as nat,
            records_total: self.records_total as nat,
            records_filtered: self.records_filtered as nat,
            data: watch_events(self.data@),
        }
    }
}

impl View for HistoryMovieItem {
    type V = MovieWatchEvent;

    open spec fn view(&self) -> MovieWatchEvent {
        MovieWatchEvent {
            user: self.user@,
            date: self.date as int,
            duration: self.duration as nat,
            percent_complete: self.percent_complete as nat,
        }
    }
}

/// The events of a movie's list, each as a mathematical value, in the list's
/// order.
pub open spec fn movie_watch_events(items: Seq<HistoryMovieItem>) -> Seq<MovieWatchEvent> {
    Seq::new(items.len(), |i: int| items[i]@)
}

impl View for HistoryMovie {
    type V = MovieHistoryPage;

    open spec fn view(&self) -> MovieHistoryPage {
        MovieHistoryPage {
            draw: self.draw as nat,
            records_total: self.records_total as nat,
            records_filtered: self.records_filtered as nat,
            data: movie_watch_events(self.data@),
        }
    }
}

impl MovieWatchEvent {
    /// The same event in the general shape: season and episode are absent.
    pub open spec fn as_watch_event(self) -> WatchEvent {
        WatchEvent {
            user: self.user,
            date: self.date,
            duration: self.duration,
            percent_complete: self.percent_complete,
            media_index: None,
            parent_media_index: None,
        }
    }
}

impl MovieHistoryPage {
    /// The same page in the general shape: the counters are kept, and every
    /// event is kept in its place with season and episode absent.
    pub open spec fn as_history_page(self) -> HistoryPage {
        HistoryPage {
            draw: self.draw,
            records_total: self.records_total,
            records_filtered: self.records_filtered,
            data: Seq::new(self.data.len(), |i: int| self.data[i].as_watch_event()),
        }
    }
}

/// Brings a movie's history into the general shape that also holds episodes.
pub fn history_movie_to_history(history: HistoryMovie) -> (unified: History)
    ensures
        unified@ == history@.as_history_page(),
{
    let ghost page = history@;
    let draw = history.draw;
    let records_total = history.records_total;
    let records_filtered = history.records_filtered;
    let mut data: Vec<HistoryItem> = Vec::new();
    for item in iter: history.data
        invariant
            data@.len() == iter.index@,
            forall|i: int|
                0 <= i < data@.len() ==> (#[trigger] data@[i])@
                    == iter.seq()[i]@.as_watch_event(),
    {
        data.push(
            HistoryItem {
                user: item.user,
                date: item.date,
                duration: item.duration,
                percent_complete: item.percent_complete,
                media_index: None,
                parent_media_index: None,
            },
        );
    }
    let unified = History { draw, records_total, records_filtered, data };
    assert(unified@.data =~= page.as_history_page().data);
    unified
}

} // verus!
