//! Sequences of watch events in strictly ascending order of their viewers,
//! read as mappings from viewers to events.

use super::responses::WatchEvent;
use super::viewer_order::{
    lemma_viewer_before_asymmetric, lemma_viewer_before_connected,
    lemma_viewer_before_irreflexive, lemma_viewer_before_transitive, viewer_before,
};
use vstd::prelude::*;

verus! {

/// The event at place `k` of `events` is one of `viewer`.
pub open spec fn holds_viewer(events: Seq<WatchEvent>, viewer: Seq<char>, k: int) -> bool {
    0 <= k < events.len() && events[k].user == viewer
}

/// Some event of `events` is one of `viewer`.
pub open spec fn has_viewer(events: Seq<WatchEvent>, viewer: Seq<char>) -> bool {
    exists|k: int| holds_viewer(events, viewer, k)
}

/// Every event's viewer comes strictly before the viewers of the events after
/// it. No viewer then occurs twice.
pub open spec fn ascending_by_viewer(s: Seq<WatchEvent>) -> bool {
    forall|i: int, j: int|
        #![trigger s[i], s[j]]
        0 <= i < j < s.len() ==> viewer_before(s[i].user, s[j].user)
}

/// The mapping that a sequence of events stands for: each viewer that occurs
/// in it, with an event of that viewer. Where the sequence is ascending, a
/// viewer has only one.
pub open spec fn by_viewer(s: Seq<WatchEvent>) -> Map<Seq<char>, WatchEvent> {
    Map::new(
        |viewer: Seq<char>| has_viewer(s, viewer),
        |viewer: Seq<char>| s[choose|k: int| holds_viewer(s, viewer, k)],
    )
}

/// The viewers of a sequence of events, in the sequence's order.
pub open spec fn viewers(s: Seq<WatchEvent>) -> Seq<Seq<char>> {
    Seq::new(s.len(), |k: int| s[k].user)
}

/// The same viewers occur in `a` and in `b`.
pub open spec fn same_viewers(a: Seq<WatchEvent>, b: Seq<WatchEvent>) -> bool {
    forall|viewer: Seq<char>|
        #![trigger has_viewer(a, viewer)]
        #![trigger has_viewer(b, viewer)]
        has_viewer(a, viewer) == has_viewer(b, viewer)
}

/// In an ascending sequence two places hold two viewers.
pub proof fn lemma_ascending_distinct(s: Seq<WatchEvent>, i: int, j: int)
    requires
        ascending_by_viewer(s),
        0 <= i < s.len(),
        0 <= j < s.len(),
        i != j,
    ensures
        s[i].user != s[j].user,
{
    lemma_viewer_before_irreflexive(s[i].user);
    if i < j {
        assert(viewer_before(s[i].user, s[j].user));
    } else {
        assert(viewer_before(s[j].user, s[i].user));
    }
}

/// The mapping of an ascending sequence holds, for the viewer at a place,
/// the event at that place.
pub proof fn lemma_by_viewer_at(s: Seq<WatchEvent>, k: int)
    requires
        ascending_by_viewer(s),
        0 <= k < s.len(),
    ensures
        by_viewer(s).dom().contains(s[k].user),
        by_viewer(s)[s[k].user] == s[k],
{
    let viewer = s[k].user;
    assert(holds_viewer(s, viewer, k));
    let chosen = choose|c: int| holds_viewer(s, viewer, c);
    if chosen != k {
        lemma_ascending_distinct(s, chosen, k);
    }
}

/// Two ascending sequences with the same viewers agree on the viewers of
/// their first `k` places.
proof fn lemma_same_viewers_up_to(a: Seq<WatchEvent>, b: Seq<WatchEvent>, k: int)
    requires
        ascending_by_viewer(a),
        ascending_by_viewer(b),
        same_viewers(a, b),
        0 <= k <= a.len(),
    ensures
        k <= b.len(),
        forall|j: int| 0 <= j < k ==> a[j].user == b[j].user,
    decreases k,
{
    if k > 0 {
        lemma_same_viewers_up_to(a, b, k - 1);
        let at = k - 1;
        let v = a[at].user;
        assert(holds_viewer(a, v, at));
        assert(has_viewer(a, v));
        assert(has_viewer(b, v));
        let kb = choose|c: int| holds_viewer(b, v, c);
        lemma_viewer_before_irreflexive(v);
        if kb < at {
            assert(a[kb].user == b[kb].user);
            assert(viewer_before(a[kb].user, a[at].user));
        }
        if kb > at {
            let w = b[at].user;
            assert(viewer_before(b[at].user, b[kb].user));
            assert(holds_viewer(b, w, at));
            assert(has_viewer(b, w));
            assert(has_viewer(a, w));
            let ka = choose|c: int| holds_viewer(a, w, c);
            lemma_viewer_before_irreflexive(w);
            if ka < at {
                assert(a[ka].user == b[ka].user);
                assert(viewer_before(b[ka].user, b[at].user));
            } else if ka > at {
                assert(viewer_before(a[at].user, a[ka].user));
                lemma_viewer_before_asymmetric(v, w);
            }
        }
    }
}

/// Two ascending sequences with the same viewers hold them in the same
/// places: the order of the viewers is fixed by who they are.
pub proof fn lemma_ascending_viewers_unique(a: Seq<WatchEvent>, b: Seq<WatchEvent>)
    requires
        ascending_by_viewer(a),
        ascending_by_viewer(b),
        same_viewers(a, b),
    ensures
        viewers(a) == viewers(b),
{
    lemma_same_viewers_up_to(a, b, a.len() as int);
    lemma_same_viewers_up_to(b, a, b.len() as int);
    assert(viewers(a) =~= viewers(b));
}

/// An ascending sequence is fixed by the mapping that it stands for.
pub proof fn lemma_ascending_unique(a: Seq<WatchEvent>, b: Seq<WatchEvent>)
    requires
        ascending_by_viewer(a),
        ascending_by_viewer(b),
        by_viewer(a) == by_viewer(b),
    ensures
        a == b,
{
    assert forall|viewer: Seq<char>| has_viewer(a, viewer) == has_viewer(b, viewer) by {
        assert(by_viewer(a).dom().contains(viewer) == has_viewer(a, viewer));
        assert(by_viewer(b).dom().contains(viewer) == has_viewer(b, viewer));
    }
    lemma_ascending_viewers_unique(a, b);
    assert(a.len() == viewers(a).len());
    assert(b.len() == viewers(b).len());
    assert forall|k: int| 0 <= k < a.len() implies a[k] == b[k] by {
        assert(viewers(a)[k] == viewers(b)[k]);
        lemma_by_viewer_at(a, k);
        lemma_by_viewer_at(b, k);
    }
    assert(a =~= b);
}

/// `p` is the place of `viewer` in the ascending sequence `s`: every earlier
/// viewer comes before it, and the viewer at `p`, if there is one, does not.
pub open spec fn is_place_of(s: Seq<WatchEvent>, viewer: Seq<char>, p: int) -> bool {
    &&& 0 <= p <= s.len()
    &&& forall|j: int| #![trigger s[j]] 0 <= j < p ==> viewer_before(s[j].user, viewer)
    &&& p < s.len() ==> !viewer_before(s[p].user, viewer)
}

/// Where `p` is the place of a viewer, the viewer occurs in the sequence
/// just if it stands at `p`.
pub proof fn lemma_place_decides(s: Seq<WatchEvent>, viewer: Seq<char>, p: int)
    requires
        ascending_by_viewer(s),
        is_place_of(s, viewer, p),
    ensures
        has_viewer(s, viewer) <==> (p < s.len() && s[p].user == viewer),
        p < s.len() && s[p].user != viewer ==> viewer_before(viewer, s[p].user),
{
    lemma_viewer_before_irreflexive(viewer);
    if p < s.len() {
        lemma_viewer_before_connected(viewer, s[p].user);
        if s[p].user == viewer {
            assert(holds_viewer(s, viewer, p));
        }
    }
    if has_viewer(s, viewer) {
        let k = choose|k: int| holds_viewer(s, viewer, k);
        if k < p {
            assert(viewer_before(s[k].user, viewer));
        } else if k > p {
            assert(viewer_before(s[p].user, s[k].user));
        }
    }
}

/// Every viewer has a place in an ascending sequence at or after `from`,
/// where all viewers before `from` come before it.
proof fn lemma_place_from(s: Seq<WatchEvent>, viewer: Seq<char>, from: int) -> (p: int)
    requires
        0 <= from <= s.len(),
        forall|j: int| #![trigger s[j]] 0 <= j < from ==> viewer_before(s[j].user, viewer),
    ensures
        is_place_of(s, viewer, p),
    decreases s.len() - from,
{
    if from < s.len() && viewer_before(s[from].user, viewer) {
        lemma_place_from(s, viewer, from + 1)
    } else {
        from
    }
}

/// Every viewer has a place in a sequence.
pub proof fn lemma_place_exists(s: Seq<WatchEvent>, viewer: Seq<char>) -> (p: int)
    ensures
        is_place_of(s, viewer, p),
{
    lemma_place_from(s, viewer, 0)
}

/// An event whose viewer does not occur yet enters at the viewer's place:
/// the sequence stays ascending, and its mapping gains the event.
pub proof fn lemma_insert_at_place(s: Seq<WatchEvent>, event: WatchEvent, p: int)
    requires
        ascending_by_viewer(s),
        is_place_of(s, event.user, p),
        !has_viewer(s, event.user),
    ensures
        ascending_by_viewer(s.insert(p, event)),
        by_viewer(s.insert(p, event)) == by_viewer(s).insert(event.user, event),
{
    let t = s.insert(p, event);
    let viewer = event.user;
    lemma_place_decides(s, viewer, p);
    assert forall|j: int| 0 <= j < t.len() implies t[j] == (if j < p {
        s[j]
    } else if j == p {
        event
    } else {
        s[j - 1]
    }) by {}
    assert forall|i: int, j: int| #![trigger t[i], t[j]] 0 <= i < j < t.len() implies viewer_before(
        t[i].user,
        t[j].user,
    ) by {
        if j < p {
            assert(viewer_before(s[i].user, s[j].user));
        } else if j == p {
            assert(viewer_before(s[i].user, viewer));
        } else if i < p {
            assert(viewer_before(s[i].user, s[j - 1].user));
        } else if i == p {
            assert(viewer_before(viewer, s[p].user));
            if j - 1 > p {
                assert(viewer_before(s[p].user, s[j - 1].user));
                lemma_viewer_before_transitive(viewer, s[p].user, s[j - 1].user);
            }
        } else {
            assert(viewer_before(s[i - 1].user, s[j - 1].user));
        }
    }
    let expected = by_viewer(s).insert(viewer, event);
    assert forall|v: Seq<char>| by_viewer(t).dom().contains(v) == expected.dom().contains(v) by {
        if has_viewer(t, v) {
            let k = choose|k: int| holds_viewer(t, v, k);
            if k < p {
                assert(holds_viewer(s, v, k));
            } else if k > p {
                assert(holds_viewer(s, v, k - 1));
            }
        }
        if has_viewer(s, v) {
            let k = choose|k: int| holds_viewer(s, v, k);
            if k < p {
                assert(holds_viewer(t, v, k));
            } else {
                assert(holds_viewer(t, v, k + 1));
            }
        }
        if v == viewer {
            assert(holds_viewer(t, v, p));
        }
    }
    assert forall|v: Seq<char>| by_viewer(t).dom().contains(v) implies by_viewer(t)[v]
        == expected[v] by {
        let k = choose|k: int| holds_viewer(t, v, k);
        lemma_by_viewer_at(t, k);
        if k < p {
            lemma_by_viewer_at(s, k);
        } else if k > p {
            lemma_by_viewer_at(s, k - 1);
        }
    }
    assert(by_viewer(t) =~= expected);
}

/// An event takes the place of the event of the same viewer: the sequence
/// stays ascending, and its mapping holds the new event for that viewer.
pub proof fn lemma_replace_at_place(s: Seq<WatchEvent>, event: WatchEvent, p: int)
    requires
        ascending_by_viewer(s),
        0 <= p < s.len(),
        s[p].user == event.user,
    ensures
        ascending_by_viewer(s.update(p, event)),
        by_viewer(s.update(p, event)) == by_viewer(s).insert(event.user, event),
{
    let t = s.update(p, event);
    let viewer = event.user;
    assert forall|i: int, j: int| #![trigger t[i], t[j]] 0 <= i < j < t.len() implies viewer_before(
        t[i].user,
        t[j].user,
    ) by {
        assert(viewer_before(s[i].user, s[j].user));
    }
    let expected = by_viewer(s).insert(viewer, event);
    assert forall|v: Seq<char>| by_viewer(t).dom().contains(v) == expected.dom().contains(v) by {
        if has_viewer(t, v) {
            let k = choose|k: int| holds_viewer(t, v, k);
            assert(holds_viewer(s, v, k));
        }
        if has_viewer(s, v) {
            let k = choose|k: int| holds_viewer(s, v, k);
            assert(holds_viewer(t, v, k));
        }
        if v == viewer {
            assert(holds_viewer(t, v, p));
        }
    }
    assert forall|v: Seq<char>| by_viewer(t).dom().contains(v) implies by_viewer(t)[v]
        == expected[v] by {
        let k = choose|k: int| holds_viewer(t, v, k);
        lemma_by_viewer_at(t, k);
        if k != p {
            lemma_by_viewer_at(s, k);
        }
    }
    assert(by_viewer(t) =~= expected);
}

} // verus!
