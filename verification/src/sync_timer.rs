//! A cooperative timer: named events are registered with an interval and
//! polled against an externally supplied clock.  Nothing blocks and no
//! thread runs; the host calls `fired` once per frame with the current
//! instant and reacts to the identifiers that come back.

use vstd::prelude::*;

verus! {

/// One timer entry.  It fires once the clock has advanced `after` ticks
/// past `start`.  A recurring entry restarts at the instant of the poll
/// that reported it; a one-shot entry is dropped after it fires.
#[derive(Clone, Copy)]
pub struct SyncEvent {
    pub id: &'static str,
    pub start: u64,
    pub after: u64,
    pub recurring: bool,
}

/// Whether an event has fired by instant `now`.
pub open spec fn fires(e: SyncEvent, now: u64) -> bool {
    e.start + e.after <= now
}

/// A fired recurring event, restarted at the instant of the poll.
pub open spec fn re_armed(e: SyncEvent, now: u64) -> SyncEvent {
    SyncEvent { id: e.id, start: now, after: e.after, recurring: e.recurring }
}

/// The identifiers one poll at instant `now` reports, in registration
/// order: one entry per fired event, however far the clock has run past
/// its interval.
pub open spec fn fired_ids(events: Seq<SyncEvent>, now: u64) -> Seq<&'static str> {
    events.filter(|e: SyncEvent| fires(e, now)).map_values(|e: SyncEvent| e.id)
}

/// The events still registered after one poll at instant `now`: fired
/// one-shot events are dropped, fired recurring events restart at `now`,
/// all others are kept as they were, in order.
pub open spec fn kept_events(events: Seq<SyncEvent>, now: u64) -> Seq<SyncEvent> {
    events.filter(|e: SyncEvent| e.recurring || !fires(e, now)).map_values(
        |e: SyncEvent| if fires(e, now) { re_armed(e, now) } else { e },
    )
}

impl SyncEvent {
    /// An event armed at instant `now` that fires once `after` ticks have
    /// elapsed, repeatedly if `recurring`.
    pub fn new(id: &'static str, after: u64, recurring: bool, now: u64) -> (r: SyncEvent)
        ensures
            r == (SyncEvent { id, start: now, after, recurring }),
    {
        SyncEvent { id, start: now, after, recurring }
    }
}

/// The timer: a list of registered events, polled as a whole.  Duplicate
/// identifiers are permitted and tracked independently.
pub struct SyncTimer {
    pub events: Vec<SyncEvent>,
}

impl SyncTimer {
    pub fn new() -> (r: SyncTimer)
        ensures
            r.events@ == Seq::<SyncEvent>::empty(),
    {
        SyncTimer { events: Vec::new() }
    }

    pub fn add(&mut self, event: SyncEvent)
        ensures
            final(self).events@ == old(self).events@.push(event),
    {
        self.events.push(event);
    }

    /// One poll at instant `now`: reports every event whose interval has
    /// elapsed, restarts the recurring ones and drops the one-shot ones.
    /// Total over all inputs; an event with `after == 0` fires on the very
    /// next poll after it was armed.
    pub fn fired(&mut self, now: u64) -> (r: Vec<&'static str>)
        ensures
            r@ == fired_ids(old(self).events@, now),
            final(self).events@ == kept_events(old(self).events@, now),
    {
        let ghost evs = self.events@;
        let mut result: Vec<&'static str> = Vec::new();
        let mut kept: Vec<SyncEvent> = Vec::new();
        let mut i: usize = 0;
        while i < self.events.len()
            invariant
                i <= self.events.len(),
                self.events@ == evs,
                result@ == fired_ids(evs.take(i as int), now),
                kept@ == kept_events(evs.take(i as int), now),
            decreases self.events.len() - i,
        {
            let e = self.events[i];
            proof {
                let s = evs.take(i as int);
                let s2 = evs.take(i as int + 1);
                assert(s2.drop_last() =~= s);
                assert(s2.last() == e);
                reveal(Seq::filter);
                assert(s2.filter(|e: SyncEvent| fires(e, now)) == if fires(e, now) {
                    s.filter(|e: SyncEvent| fires(e, now)).push(e)
                } else {
                    s.filter(|e: SyncEvent| fires(e, now))
                });
                assert(s2.filter(|e: SyncEvent| e.recurring || !fires(e, now)) == if e.recurring
                    || !fires(e, now) {
                    s.filter(|e: SyncEvent| e.recurring || !fires(e, now)).push(e)
                } else {
                    s.filter(|e: SyncEvent| e.recurring || !fires(e, now))
                });
                assert(fired_ids(s2, now) =~= if fires(e, now) {
                    fired_ids(s, now).push(e.id)
                } else {
                    fired_ids(s, now)
                });
                assert(kept_events(s2, now) =~= if !fires(e, now) {
                    kept_events(s, now).push(e)
                } else if e.recurring {
                    kept_events(s, now).push(re_armed(e, now))
                } else {
                    kept_events(s, now)
                });
            }
            if now >= e.start && now - e.start >= e.after {
                result.push(e.id);
                if e.recurring {
                    kept.push(SyncEvent { id: e.id, start: now, after: e.after, recurring: true });
                }
            } else {
                kept.push(e);
            }
            i = i + 1;
        }
        proof {
            assert(evs.take(evs.len() as int) =~= evs);
        }
        self.events = kept;
        result
    }
}

/// Every element of a filtered sequence comes from the sequence itself.
pub(crate) proof fn lemma_filter_subset<A>(s: Seq<A>, pred: spec_fn(A) -> bool, x: A)
    requires
        s.filter(pred).contains(x),
    ensures
        s.contains(x),
    decreases s.len(),
{
    reveal(Seq::filter);
    if s.len() > 0 {
        let t = s.drop_last();
        if x == s.last() {
            assert(s[s.len() - 1] == x);
        } else {
            if pred(s.last()) {
                assert(s.filter(pred) == t.filter(pred).push(s.last()));
                assert(t.filter(pred).contains(x));
            }
            lemma_filter_subset(t, pred, x);
            let i = choose|i: int| 0 <= i < t.len() && t[i] == x;
            assert(s[i] == x);
        }
    }
}

/// An identifier reported by a poll belongs to a registered event that had
/// fired by that instant.
pub proof fn lemma_fired_id_from_event(events: Seq<SyncEvent>, now: u64, id: &'static str)
    requires
        fired_ids(events, now).contains(id),
    ensures
        exists|i: int|
            0 <= i < events.len() && (#[trigger] events[i]).id == id && fires(events[i], now),
{
    let f = events.filter(|e: SyncEvent| fires(e, now));
    let k = choose|k: int| 0 <= k < f.len() && #[trigger] fired_ids(events, now)[k] == id;
    broadcast use vstd::seq_lib::group_filter_ensures;

    assert(f[k].id == id && fires(f[k], now));
    lemma_filter_subset(events, |e: SyncEvent| fires(e, now), f[k]);
    let i = choose|i: int| 0 <= i < events.len() && events[i] == f[k];
    assert(events[i].id == id && fires(events[i], now));
}

/// A poll never reports more identifiers than there are registered
/// events: each event contributes at most one entry per poll, however far
/// the clock has run past its interval.  There is no catch-up burst.
pub proof fn lemma_poll_reports_each_event_once(events: Seq<SyncEvent>, now: u64)
    ensures
        fired_ids(events, now).len() <= events.len(),
{
    broadcast use vstd::seq_lib::group_filter_ensures;

    assert(events.filter(|e: SyncEvent| fires(e, now)).len() <= events.len());
}

/// A recurring event reported by a poll restarts at the poll instant, so
/// a later poll before a further full interval has elapsed does not
/// report it again: firings are paced by the interval, not by how late
/// the polls arrive.
pub proof fn lemma_recurring_paced(e: SyncEvent, now1: u64, now2: u64)
    requires
        e.recurring,
        fires(e, now1),
        now2 < now1 + e.after,
    ensures
        fired_ids(seq![e], now1) =~= seq![e.id],
        kept_events(seq![e], now1) =~= seq![re_armed(e, now1)],
        fired_ids(kept_events(seq![e], now1), now2) =~= Seq::<&'static str>::empty(),
{
    reveal(Seq::filter);
    let s = seq![e];
    assert(s.drop_last() =~= Seq::<SyncEvent>::empty());
    assert(s.last() == e);
    assert(s.filter(|e: SyncEvent| fires(e, now1)) =~= seq![e]);
    assert(s.filter(|e: SyncEvent| e.recurring || !fires(e, now1)) =~= seq![e]);
    let r = re_armed(e, now1);
    assert(kept_events(s, now1) =~= seq![r]);
    assert(!fires(r, now2));
    let ks = seq![r];
    assert(ks.drop_last() =~= Seq::<SyncEvent>::empty());
    assert(ks.last() == r);
    assert(Seq::<SyncEvent>::empty().filter(|e: SyncEvent| fires(e, now2))
        =~= Seq::<SyncEvent>::empty());
    assert(ks.filter(|e: SyncEvent| fires(e, now2)) =~= Seq::<SyncEvent>::empty());
}

/// The poll that reports a fired one-shot event drops it: it is no longer
/// registered afterwards.
pub proof fn lemma_one_shot_removed(events: Seq<SyncEvent>, now: u64, e: SyncEvent)
    requires
        !e.recurring,
        fires(e, now),
    ensures
        !kept_events(events, now).contains(e),
{
    broadcast use vstd::seq_lib::group_filter_ensures;

    let pred = |x: SyncEvent| x.recurring || !fires(x, now);
    let kept = kept_events(events, now);
    if kept.contains(e) {
        let j = choose|j: int| 0 <= j < kept.len() && kept[j] == e;
        let x = events.filter(pred)[j];
        assert(pred(x));
        if fires(x, now) {
            assert(e == re_armed(x, now));
            assert(e.recurring == x.recurring);
        } else {
            assert(e == x);
        }
    }
}

/// A one-shot name never appears in two consecutive poll results: when
/// the timer holds at most one event of a name and none of that name is
/// recurring, the poll that reports the name leaves no event of that name
/// behind, so the next poll cannot report it.
pub proof fn lemma_one_shot_not_reported_twice(
    events: Seq<SyncEvent>,
    now1: u64,
    now2: u64,
    id: &'static str,
)
    requires
        forall|i: int| 0 <= i < events.len() && (#[trigger] events[i]).id == id
            ==> !events[i].recurring,
        events.filter(|e: SyncEvent| e.id == id).len() <= 1,
        fired_ids(events, now1).contains(id),
    ensures
        !fired_ids(kept_events(events, now1), now2).contains(id),
{
    broadcast use vstd::seq_lib::group_filter_ensures;

    lemma_fired_id_from_event(events, now1, id);
    let i = choose|i: int|
        0 <= i < events.len() && (#[trigger] events[i]).id == id && fires(events[i], now1);
    let e = events[i];
    let kept = kept_events(events, now1);
    if fired_ids(kept, now2).contains(id) {
        lemma_fired_id_from_event(kept, now2, id);
        let j = choose|j: int|
            0 <= j < kept.len() && (#[trigger] kept[j]).id == id && fires(kept[j], now2);
        let pred = |x: SyncEvent| x.recurring || !fires(x, now1);
        let x = events.filter(pred)[j];
        assert(pred(x));
        assert(kept[j] == if fires(x, now1) {
            re_armed(x, now1)
        } else {
            x
        });
        assert(x.id == id);
        lemma_filter_subset(events, pred, x);
        let m = choose|m: int| 0 <= m < events.len() && events[m] == x;
        assert(!x.recurring);
        assert(!fires(x, now1));
        // Both `e` and `x` are registered events named `id`, so both stand
        // in the filtered sequence of that name, which holds at most one
        // element: they are the same event.  But `e` fired at `now1` and
        // `x` did not.
        let named = |y: SyncEvent| y.id == id;
        assert(events.filter(named).contains(e));
        assert(events.filter(named).contains(x));
        assert(events.filter(named).len() == 1);
        let fe = choose|a: int| 0 <= a < events.filter(named).len() && events.filter(named)[a] == e;
        let fx = choose|a: int| 0 <= a < events.filter(named).len() && events.filter(named)[a] == x;
        assert(fe == 0 && fx == 0);
        assert(e == x);
    }
}

} // verus!
