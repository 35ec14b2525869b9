//! The mapping from viewers to their latest watch, kept in ascending order of
//! the viewers.

use super::by_viewer::{
    ascending_by_viewer, by_viewer, has_viewer, is_place_of, lemma_by_viewer_at,
    lemma_insert_at_place, lemma_place_decides, lemma_replace_at_place,
};
use super::latest::{
    latest_by_viewer, latest_watches, lemma_latest_by_viewer_push, lemma_latest_watches_unique,
    record_latest,
};
use super::responses::{watch_events, HistoryItem, WatchEvent};
use super::viewer_order::{
    lemma_viewer_before_asymmetric, lemma_viewer_before_irreflexive,
    lemma_viewer_before_transitive, viewer_before, viewer_position, Position,
};
use vstd::prelude::*;

verus! {

/// The events behind a list of references, each as a mathematical value.
pub open spec fn referred_events(items: Seq<&HistoryItem>) -> Seq<WatchEvent> {
    Seq::new(items.len(), |k: int| items[k]@)
}

/// At most one watch event per viewer, in ascending order of the viewers. The
/// events themselves stay where they are: the mapping refers to them.
pub struct LatestWatches<'a> {
    entries: Vec<&'a HistoryItem>,
}

impl<'a> View for LatestWatches<'a> {
    type V = Seq<WatchEvent>;

    /// The events of the mapping, in ascending order of their viewers.
    closed spec fn view(&self) -> Seq<WatchEvent> {
        referred_events(self.entries@)
    }
}

impl<'a> LatestWatches<'a> {
    #[verifier::type_invariant]
    spec fn ordered(&self) -> bool {
        ascending_by_viewer(referred_events(self.entries@))
    }

    /// The mapping without any viewer.
    pub fn new() -> (latest: Self)
        ensures
            latest@ == Seq::<WatchEvent>::empty(),
    {
        let latest = LatestWatches { entries: Vec::new() };
        assert(latest@ =~= Seq::<WatchEvent>::empty());
        latest
    }

    /// The number of viewers. The events are in ascending order of their
    /// viewers, so no viewer is counted twice.
    pub fn len(&self) -> (n: usize)
        ensures
            n == self@.len(),
            ascending_by_viewer(self@),
    {
        proof {
            use_type_invariant(self);
        }
        self.entries.len()
    }

    /// The event at place `k` in ascending order of the viewers.
    pub fn get(&self, k: usize) -> (watch: &'a HistoryItem)
        requires
            k < self@.len(),
        ensures
            watch@ == self@[k as int],
    {
        self.entries[k]
    }

    /// Finds the place of a viewer, and whether the viewer stands there, by
    /// halving the range in which the place can lie.
    fn place_of(&self, viewer: &str) -> (found: (usize, bool))
        ensures
            is_place_of(self@, viewer@, found.0 as int),
            found.1 == has_viewer(self@, viewer@),
            found.1 ==> found.0 < self@.len() && self@[found.0 as int].user == viewer@,
    {
        proof {
            use_type_invariant(self);
        }
        let mut low: usize = 0;
        let mut high: usize = self.entries.len();
        while low < high
            invariant
                low <= high <= self.entries@.len(),
                ascending_by_viewer(self@),
                forall|j: int|
                    #![trigger self@[j]]
                    0 <= j < low ==> viewer_before(self@[j].user, viewer@),
                forall|j: int|
                    #![trigger self@[j]]
                    high <= j < self@.len() ==> viewer_before(viewer@, self@[j].user),
            decreases high - low,
        {
            let middle = low + (high - low) / 2;
            let ghost there = self@[middle as int].user;
            match viewer_position(self.entries[middle].user.as_str(), viewer) {
                Position::Before => {
                    assert forall|j: int|
                        #![trigger self@[j]]
                        0 <= j < middle + 1 implies viewer_before(self@[j].user, viewer@) by {
                        if j < middle {
                            assert(viewer_before(self@[j].user, self@[middle as int].user));
                            lemma_viewer_before_transitive(self@[j].user, there, viewer@);
                        }
                    }
                    low = middle + 1;
                },
                Position::Same => {
                    proof {
                        lemma_viewer_before_irreflexive(viewer@);
                        assert forall|j: int|
                            #![trigger self@[j]]
                            0 <= j < middle implies viewer_before(self@[j].user, viewer@) by {
                            assert(viewer_before(self@[j].user, self@[middle as int].user));
                        }
                        lemma_place_decides(self@, viewer@, middle as int);
                    }
                    return (middle, true);
                },
                Position::After => {
                    assert forall|j: int|
                        #![trigger self@[j]]
                        middle <= j < self@.len() implies viewer_before(viewer@, self@[j].user) by {
                        if middle < j {
                            assert(viewer_before(self@[middle as int].user, self@[j].user));
                            lemma_viewer_before_transitive(viewer@, there, self@[j].user);
                        }
                    }
                    high = middle;
                },
            }
        }
        proof {
            if low < self@.len() {
                assert(viewer_before(viewer@, self@[low as int].user));
                lemma_viewer_before_asymmetric(viewer@, self@[low as int].user);
            }
            lemma_place_decides(self@, viewer@, low as int);
            lemma_viewer_before_irreflexive(viewer@);
        }
        (low, false)
    }

    /// Takes one more event into account: it enters where its viewer has no
    /// entry yet, and takes the place of the viewer's entry only where it is
    /// strictly later. Of two events of one viewer with the same date the one
    /// recorded first stays.
    pub fn record(&mut self, watch: &'a HistoryItem)
        ensures
            ascending_by_viewer(final(self)@),
            by_viewer(final(self)@) == record_latest(by_viewer(old(self)@), watch@),
    {
        proof {
            use_type_invariant(&*self);
        }
        let (p, found) = self.place_of(watch.user.as_str());
        let ghost before = self@;
        proof {
            assert(by_viewer(before).dom().contains(watch@.user) == has_viewer(
                before,
                watch@.user,
            ));
        }
        let mut entries: Vec<&'a HistoryItem> = Vec::new();
        std::mem::swap(&mut self.entries, &mut entries);
        if found {
            proof {
                lemma_by_viewer_at(before, p as int);
            }
            if entries[p].date < watch.date {
                entries.set(p, watch);
                proof {
                    lemma_replace_at_place(before, watch@, p as int);
                    assert(referred_events(entries@) =~= before.update(p as int, watch@));
                }
            }
        } else {
            entries.insert(p, watch);
            proof {
                lemma_insert_at_place(before, watch@, p as int);
                assert(referred_events(entries@) =~= before.insert(p as int, watch@));
            }
        }
        self.entries = entries;
    }

    /// Reduces a list of events to the latest watch of each viewer.
    pub fn from_events(events: &'a Vec<HistoryItem>) -> (latest: Self)
        ensures
            latest@ == latest_watches(watch_events(events@)),
    {
        let ghost all = watch_events(events@);
        let mut latest = LatestWatches::new();
        let mut n: usize = 0;
        proof {
            assert(by_viewer(latest@) =~= latest_by_viewer(all.take(0)));
        }
        while n < events.len()
            invariant
                n <= events@.len(),
                all == watch_events(events@),
                ascending_by_viewer(latest@),
                by_viewer(latest@) == latest_by_viewer(all.take(n as int)),
            decreases events@.len() - n,
        {
            latest.record(&events[n]);
            proof {
                assert(all.take(n + 1) =~= all.take(n as int).push(events@[n as int]@));
                lemma_latest_by_viewer_push(all.take(n as int), events@[n as int]@);
            }
            n += 1;
        }
        proof {
            assert(all.take(n as int) =~= all);
            lemma_latest_watches_unique(all, latest@);
        }
        latest
    }
}

} // verus!
