//! What the latest watch of a viewer is, as mathematics: which event of a
//! list is kept for a viewer, the mapping from viewers to their kept events,
//! and that mapping laid out in the order of the viewers.

use super::by_viewer::{
    ascending_by_viewer, by_viewer, has_viewer, holds_viewer, lemma_ascending_distinct,
    lemma_ascending_unique, lemma_ascending_viewers_unique, lemma_by_viewer_at,
    lemma_insert_at_place, lemma_place_decides, lemma_place_exists, lemma_replace_at_place,
    same_viewers, viewers,
};
use super::responses::WatchEvent;
use vstd::prelude::*;

verus! {

/// The event at place `i` is the one kept for its viewer: no event of that
/// viewer is later, and of the viewer's events with the same date it is the
/// first in the list.
pub open spec fn is_latest_watch(events: Seq<WatchEvent>, i: int) -> bool {
    &&& 0 <= i < events.len()
    &&& forall|j: int|
        #![trigger events[j]]
        0 <= j < events.len() && events[j].user == events[i].user ==> events[j].date
            < events[i].date || (events[j].date == events[i].date && i <= j)
}

/// The place in `events` of the event that is kept for `viewer`.
pub open spec fn latest_index(events: Seq<WatchEvent>, viewer: Seq<char>) -> int {
    choose|i: int| is_latest_watch(events, i) && events[i].user == viewer
}

/// The latest watch of every viewer that occurs in `events`.
pub open spec fn latest_by_viewer(events: Seq<WatchEvent>) -> Map<Seq<char>, WatchEvent> {
    Map::new(
        |viewer: Seq<char>| has_viewer(events, viewer),
        |viewer: Seq<char>| events[latest_index(events, viewer)],
    )
}

/// The mapping after one more event: the event enters where its viewer has no
/// entry yet, and takes the place of the viewer's entry only where it is
/// strictly later.
pub open spec fn record_latest(
    latest: Map<Seq<char>, WatchEvent>,
    event: WatchEvent,
) -> Map<Seq<char>, WatchEvent> {
    if latest.dom().contains(event.user) && latest[event.user].date >= event.date {
        latest
    } else {
        latest.insert(event.user, event)
    }
}

/// A viewer has at most one kept event.
pub proof fn lemma_latest_watch_unique(events: Seq<WatchEvent>, i: int, j: int)
    requires
        is_latest_watch(events, i),
        is_latest_watch(events, j),
        events[i].user == events[j].user,
    ensures
        i == j,
{
}

/// Every viewer that occurs in `events` has a kept event.
pub proof fn lemma_latest_watch_exists(events: Seq<WatchEvent>, viewer: Seq<char>)
    requires
        has_viewer(events, viewer),
    ensures
        is_latest_watch(events, latest_index(events, viewer)),
        events[latest_index(events, viewer)].user == viewer,
    decreases events.len(),
{
    let k = choose|k: int| holds_viewer(events, viewer, k);
    let last = events.len() - 1;
    let earlier = events.drop_last();
    if has_viewer(earlier, viewer) {
        lemma_latest_watch_exists(earlier, viewer);
        let i = latest_index(earlier, viewer);
        assert forall|j: int| 0 <= j < last implies events[j] == earlier[j] by {}
        if events[last].user == viewer && events[last].date > earlier[i].date {
            assert forall|j: int|
                #![trigger events[j]]
                0 <= j < events.len() && events[j].user == events[last].user implies events[j].date
                < events[last].date || (events[j].date == events[last].date && last <= j) by {
                if j < last {
                    assert(earlier[j].user == earlier[i].user);
                }
            }
            assert(is_latest_watch(events, last));
        } else {
            assert forall|j: int|
                #![trigger events[j]]
                0 <= j < events.len() && events[j].user == events[i].user implies events[j].date
                < events[i].date || (events[j].date == events[i].date && i <= j) by {
                if j < last {
                    assert(earlier[j].user == earlier[i].user);
                }
            }
            assert(is_latest_watch(events, i));
        }
    } else {
        assert forall|j: int| 0 <= j < last implies events[j].user != viewer by {
            if events[j].user == viewer {
                assert(holds_viewer(earlier, viewer, j));
            }
        }
        assert(k == last);
        assert(is_latest_watch(events, last));
    }
}

/// The mapping holds, for the viewer of a kept event, that event.
pub proof fn lemma_latest_by_viewer_at(events: Seq<WatchEvent>, i: int)
    requires
        is_latest_watch(events, i),
    ensures
        latest_by_viewer(events).dom().contains(events[i].user),
        latest_by_viewer(events)[events[i].user] == events[i],
{
    let viewer = events[i].user;
    assert(holds_viewer(events, viewer, i));
    lemma_latest_watch_unique(events, i, latest_index(events, viewer));
}

/// Reading one more event changes the mapping as `record_latest` says.
pub proof fn lemma_latest_by_viewer_push(events: Seq<WatchEvent>, event: WatchEvent)
    ensures
        latest_by_viewer(events.push(event)) == record_latest(latest_by_viewer(events), event),
{
    let longer = events.push(event);
    let last = events.len() as int;
    let before = latest_by_viewer(events);
    let after = latest_by_viewer(longer);
    let expected = record_latest(before, event);
    assert forall|j: int| 0 <= j < last implies longer[j] == events[j] by {}
    assert(longer[last] == event);
    assert forall|viewer: Seq<char>| after.dom().contains(viewer) == expected.dom().contains(
        viewer,
    ) by {
        if has_viewer(longer, viewer) {
            let k = choose|k: int| holds_viewer(longer, viewer, k);
            if k < last {
                assert(holds_viewer(events, viewer, k));
            }
        }
        if has_viewer(events, viewer) {
            let k = choose|k: int| holds_viewer(events, viewer, k);
            assert(holds_viewer(longer, viewer, k));
        }
        if viewer == event.user {
            assert(holds_viewer(longer, viewer, last));
        }
    }
    assert forall|viewer: Seq<char>| after.dom().contains(viewer) implies after[viewer]
        == expected[viewer] by {
        if has_viewer(events, viewer) {
            lemma_latest_watch_exists(events, viewer);
            let i = latest_index(events, viewer);
            if viewer == event.user && events[i].date < event.date {
                assert forall|j: int|
                    #![trigger longer[j]]
                    0 <= j < longer.len() && longer[j].user == longer[last].user implies longer[j]
                        .date < longer[last].date || (longer[j].date == longer[last].date && last
                        <= j) by {
                    if j < last {
                        assert(events[j].user == events[i].user);
                    }
                }
                assert(is_latest_watch(longer, last));
                lemma_latest_by_viewer_at(longer, last);
            } else {
                assert forall|j: int|
                    #![trigger longer[j]]
                    0 <= j < longer.len() && longer[j].user == longer[i].user implies longer[j].date
                    < longer[i].date || (longer[j].date == longer[i].date && i <= j) by {
                    if j < last {
                        assert(events[j].user == events[i].user);
                    }
                }
                assert(is_latest_watch(longer, i));
                lemma_latest_by_viewer_at(longer, i);
            }
        } else {
            assert(viewer == event.user);
            assert forall|j: int| 0 <= j < last implies longer[j].user != viewer by {
                if longer[j].user == viewer {
                    assert(holds_viewer(events, viewer, j));
                }
            }
            assert(is_latest_watch(longer, last));
            lemma_latest_by_viewer_at(longer, last);
        }
    }
    assert(after =~= expected);
}

/// `latest` holds the latest watch of every viewer of `events`, and nothing
/// else, in ascending order of the viewers.
pub open spec fn is_latest_watches(events: Seq<WatchEvent>, latest: Seq<WatchEvent>) -> bool {
    &&& ascending_by_viewer(latest)
    &&& by_viewer(latest) == latest_by_viewer(events)
}

/// The latest watch of every viewer of `events`, in ascending order of the
/// viewers.
pub open spec fn latest_watches(events: Seq<WatchEvent>) -> Seq<WatchEvent> {
    choose|latest: Seq<WatchEvent>| is_latest_watches(events, latest)
}

/// Builds the latest watches of a list of events, one event after the other.
proof fn lemma_build_latest_watches(events: Seq<WatchEvent>) -> (latest: Seq<WatchEvent>)
    ensures
        is_latest_watches(events, latest),
    decreases events.len(),
{
    if events.len() == 0 {
        let latest = Seq::<WatchEvent>::empty();
        assert(by_viewer(latest) =~= latest_by_viewer(events));
        latest
    } else {
        let earlier = events.drop_last();
        let event = events.last();
        let kept = lemma_build_latest_watches(earlier);
        assert(events =~= earlier.push(event));
        lemma_latest_by_viewer_push(earlier, event);
        let p = lemma_place_exists(kept, event.user);
        lemma_place_decides(kept, event.user, p);
        assert(by_viewer(kept).dom().contains(event.user) == has_viewer(kept, event.user));
        if has_viewer(kept, event.user) {
            lemma_by_viewer_at(kept, p);
            if kept[p].date >= event.date {
                kept
            } else {
                lemma_replace_at_place(kept, event, p);
                kept.update(p, event)
            }
        } else {
            lemma_insert_at_place(kept, event, p);
            kept.insert(p, event)
        }
    }
}

/// Every list of events has its latest watches: they are in ascending order
/// of the viewers, and they stand for the mapping from each viewer to the
/// viewer's latest watch.
pub proof fn lemma_latest_watches(events: Seq<WatchEvent>)
    ensures
        is_latest_watches(events, latest_watches(events)),
{
    let latest = lemma_build_latest_watches(events);
    assert(is_latest_watches(events, latest));
}

/// A list of events has only one sequence of latest watches.
pub proof fn lemma_latest_watches_unique(events: Seq<WatchEvent>, latest: Seq<WatchEvent>)
    requires
        is_latest_watches(events, latest),
    ensures
        latest == latest_watches(events),
{
    lemma_ascending_unique(latest, latest_watches(events));
}

/// The latest watches hold just the viewers of the events: every entry is
/// the kept event of its viewer, and every event's viewer has an entry.
pub proof fn lemma_latest_watches_cover(events: Seq<WatchEvent>)
    ensures
        same_viewers(events, latest_watches(events)),
        forall|k: int|
            #![trigger latest_watches(events)[k]]
            0 <= k < latest_watches(events).len() ==> {
                let i = latest_index(events, latest_watches(events)[k].user);
                is_latest_watch(events, i) && latest_watches(events)[k] == events[i]
            },
{
    let latest = latest_watches(events);
    lemma_latest_watches(events);
    assert forall|viewer: Seq<char>| has_viewer(events, viewer) == has_viewer(latest, viewer) by {
        assert(by_viewer(latest).dom().contains(viewer) == has_viewer(latest, viewer));
        assert(latest_by_viewer(events).dom().contains(viewer) == has_viewer(events, viewer));
    }
    assert forall|k: int| #![trigger latest[k]] 0 <= k < latest.len() implies {
        let i = latest_index(events, latest[k].user);
        is_latest_watch(events, i) && latest[k] == events[i]
    } by {
        let viewer = latest[k].user;
        assert(holds_viewer(latest, viewer, k));
        assert(has_viewer(events, viewer));
        lemma_latest_watch_exists(events, viewer);
        lemma_by_viewer_at(latest, k);
    }
}

/// The latest watches hold at most one event of a viewer.
pub proof fn lemma_one_watch_per_viewer(events: Seq<WatchEvent>)
    ensures
        forall|i: int, j: int|
            #![trigger latest_watches(events)[i], latest_watches(events)[j]]
            0 <= i < j < latest_watches(events).len() ==> latest_watches(events)[i].user
                != latest_watches(events)[j].user,
{
    let latest = latest_watches(events);
    lemma_latest_watches(events);
    assert forall|i: int, j: int|
        #![trigger latest[i], latest[j]]
        0 <= i < j < latest.len() implies latest[i].user != latest[j].user by {
        lemma_ascending_distinct(latest, i, j);
    }
}

/// The event kept for a viewer is at least as late as every event of that
/// viewer in the list.
pub proof fn lemma_latest_watch_is_latest(events: Seq<WatchEvent>, k: int, j: int)
    requires
        0 <= k < latest_watches(events).len(),
        0 <= j < events.len(),
        events[j].user == latest_watches(events)[k].user,
    ensures
        events[j].date <= latest_watches(events)[k].date,
{
    lemma_latest_watches_cover(events);
    let kept = latest_watches(events)[k];
    let i = latest_index(events, kept.user);
    assert(events[j].user == events[i].user);
}

/// Of two events of one viewer with the same date the first in the list
/// wins: the later one is never the kept event, and where the kept event has
/// their date it stands at or before the first of the two, whatever else the
/// list holds.
pub proof fn lemma_first_of_equal_dates_is_kept(events: Seq<WatchEvent>, i: int, j: int)
    requires
        0 <= i < j < events.len(),
        events[i].user == events[j].user,
        events[i].date == events[j].date,
    ensures
        latest_by_viewer(events).dom().contains(events[i].user),
        latest_by_viewer(events)[events[i].user] == events[latest_index(
            events,
            events[i].user,
        )],
        latest_index(events, events[i].user) != j,
        events[latest_index(events, events[i].user)].date == events[i].date ==> latest_index(
            events,
            events[i].user,
        ) <= i,
        is_latest_watch(events, i) ==> latest_by_viewer(events)[events[i].user] == events[i],
{
    let viewer = events[i].user;
    assert(holds_viewer(events, viewer, i));
    lemma_latest_watch_exists(events, viewer);
    let kept = latest_index(events, viewer);
    assert(events[i].user == events[kept].user);
    assert(events[j].user == events[kept].user);
    if is_latest_watch(events, i) {
        lemma_latest_watch_unique(events, i, kept);
    }
}

/// The order of the viewers in the latest watches does not depend on the
/// order of the events: two lists that hold the same events, in whatever
/// order, give the same viewers in the same places.
pub proof fn lemma_viewer_order_ignores_event_order(a: Seq<WatchEvent>, b: Seq<WatchEvent>)
    requires
        a.to_multiset() == b.to_multiset(),
    ensures
        viewers(latest_watches(a)) == viewers(latest_watches(b)),
{
    lemma_latest_watches_cover(a);
    lemma_latest_watches_cover(b);
    lemma_latest_watches(a);
    lemma_latest_watches(b);
    a.to_multiset_ensures();
    b.to_multiset_ensures();
    assert forall|viewer: Seq<char>| has_viewer(a, viewer) == has_viewer(b, viewer) by {
        if has_viewer(a, viewer) {
            let k = choose|k: int| holds_viewer(a, viewer, k);
            assert(a.contains(a[k]));
            assert(b.to_multiset().count(a[k]) > 0);
            assert(b.contains(a[k]));
            let kb = choose|kb: int| 0 <= kb < b.len() && b[kb] == a[k];
            assert(holds_viewer(b, viewer, kb));
        }
        if has_viewer(b, viewer) {
            let k = choose|k: int| holds_viewer(b, viewer, k);
            assert(b.contains(b[k]));
            assert(a.to_multiset().count(b[k]) > 0);
            assert(a.contains(b[k]));
            let ka = choose|ka: int| 0 <= ka < a.len() && a[ka] == b[k];
            assert(holds_viewer(a, viewer, ka));
        }
    }
    let la = latest_watches(a);
    let lb = latest_watches(b);
    assert forall|viewer: Seq<char>| has_viewer(la, viewer) == has_viewer(lb, viewer) by {
        assert(has_viewer(a, viewer) == has_viewer(la, viewer));
        assert(has_viewer(b, viewer) == has_viewer(lb, viewer));
    }
    lemma_ascending_viewers_unique(la, lb);
}

} // verus!
