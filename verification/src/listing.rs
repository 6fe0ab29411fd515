//! Which sessions a listing shows, and in what order: the recently updated
//! ones, newest first, cut off at a limit. Sessions updated at the same
//! millisecond stay in the order in which they were first seen.

use crate::sessions::SessionState;
use vstd::prelude::*;

verus! {

/// The limit in force: 200 where none is asked for, else the asked one
/// brought into the range from 1 to 1000.
pub open spec fn effective_limit(limit: Option<usize>) -> int {
    match limit {
        None => 200,
        Some(asked) => if asked < 1 {
            1
        } else if asked > 1000 {
            1000
        } else {
            asked as int
        },
    }
}

/// Whether `state` was updated within the last `minutes` minutes before
/// `now`, the bound included.
pub open spec fn is_recent(state: SessionState, minutes: u64, now: u64) -> bool {
    state.updated_at_ms >= now - minutes * 60000
}

/// The sessions that pass the activity filter, in their order.
pub open spec fn retained(
    sessions: Seq<SessionState>,
    active_minutes: Option<u64>,
    now: u64,
) -> Seq<SessionState> {
    match active_minutes {
        Some(minutes) => sessions.filter(|state: SessionState| is_recent(state, minutes, now)),
        None => sessions,
    }
}

/// `ordered` with `state` put behind every session that is at least as
/// recent.
pub open spec fn placed(ordered: Seq<SessionState>, state: SessionState) -> Seq<SessionState>
    decreases ordered.len(),
{
    if ordered.len() > 0 && ordered.last().updated_at_ms < state.updated_at_ms {
        placed(ordered.drop_last(), state).push(ordered.last())
    } else {
        ordered.push(state)
    }
}

/// `sessions` in descending order of their time of update, sessions of one
/// time in the order they had.
pub open spec fn newest_first(sessions: Seq<SessionState>) -> Seq<SessionState>
    decreases sessions.len(),
{
    if sessions.len() == 0 {
        sessions
    } else {
        placed(newest_first(sessions.drop_last()), sessions.last())
    }
}

/// The first `count` sessions of `ordered`, or all of them where they are
/// fewer.
pub open spec fn front(ordered: Seq<SessionState>, count: int) -> Seq<SessionState> {
    if ordered.len() <= count {
        ordered
    } else {
        ordered.take(count)
    }
}

/// What a listing of `sessions` at time `now` shows.
pub open spec fn listing(
    sessions: Seq<SessionState>,
    limit: Option<usize>,
    active_minutes: Option<u64>,
    now: u64,
) -> Seq<SessionState> {
    front(newest_first(retained(sessions, active_minutes, now)), effective_limit(limit))
}

/// Whether no session of `ordered` stands before a more recent one.
pub open spec fn is_newest_first(ordered: Seq<SessionState>) -> bool {
    forall|i: int, j: int|
        0 <= i < j < ordered.len() ==> (#[trigger] ordered[i]).updated_at_ms >= (
        #[trigger] ordered[j]).updated_at_ms
}

/// The front of a descending order is a descending order.
pub proof fn lemma_shorter_is_newest_first(ordered: Seq<SessionState>, count: int)
    requires
        is_newest_first(ordered),
        0 <= count <= ordered.len(),
    ensures
        is_newest_first(ordered.take(count)),
{
    let shorter = ordered.take(count);
    assert forall|i: int, j: int| 0 <= i < j < shorter.len() implies (
    #[trigger] shorter[i]).updated_at_ms >= (#[trigger] shorter[j]).updated_at_ms by {
        assert(ordered[i].updated_at_ms >= ordered[j].updated_at_ms);
    }
}

/// Placing a session is inserting it at the place `at` behind which every
/// session is older and before which the next one is not.
pub proof fn lemma_placed_at(ordered: Seq<SessionState>, state: SessionState, at: int)
    requires
        0 <= at <= ordered.len(),
        forall|k: int|
            at <= k < ordered.len() ==> (#[trigger] ordered[k]).updated_at_ms
                < state.updated_at_ms,
        at > 0 ==> ordered[at - 1].updated_at_ms >= state.updated_at_ms,
    ensures
        placed(ordered, state) == ordered.insert(at, state),
    decreases ordered.len(),
{
    if ordered.len() > 0 && ordered.last().updated_at_ms < state.updated_at_ms {
        lemma_placed_at(ordered.drop_last(), state, at);
        assert(ordered.drop_last().insert(at, state).push(ordered.last()) =~= ordered.insert(
            at,
            state,
        ));
    } else {
        if at < ordered.len() {
            assert(ordered[ordered.len() - 1].updated_at_ms < state.updated_at_ms);
        }
        assert(ordered.push(state) =~= ordered.insert(at, state));
    }
}

/// Placing a session keeps every session, adds the one, and keeps a
/// descending order descending.
pub proof fn lemma_placed(ordered: Seq<SessionState>, state: SessionState)
    ensures
        placed(ordered, state).len() == ordered.len() + 1,
        placed(ordered, state).to_multiset() == ordered.to_multiset().insert(state),
        is_newest_first(ordered) ==> is_newest_first(placed(ordered, state)),
    decreases ordered.len(),
{
    broadcast use vstd::seq_lib::group_to_multiset_ensures;

    let after = placed(ordered, state);
    if ordered.len() > 0 && ordered.last().updated_at_ms < state.updated_at_ms {
        let front = ordered.drop_last();
        let inner = placed(front, state);
        lemma_placed(front, state);
        assert(front.push(ordered.last()) =~= ordered);
        assert(after.to_multiset() =~= ordered.to_multiset().insert(state));
        if is_newest_first(ordered) {
            lemma_shorter_is_newest_first(ordered, front.len() as int);
            assert(ordered.take(front.len() as int) =~= front);
            assert forall|i: int, j: int| 0 <= i < j < after.len() implies (
            #[trigger] after[i]).updated_at_ms >= (#[trigger] after[j]).updated_at_ms by {
                if j < inner.len() {
                    assert(inner[i].updated_at_ms >= inner[j].updated_at_ms);
                } else {
                    // Every session of `inner` is `state` or a session of `front`.
                    assert(inner.to_multiset().count(inner[i]) > 0);
                    if inner[i] != state {
                        assert(front.to_multiset().count(inner[i]) > 0);
                        let k = choose|k: int| 0 <= k < front.len() && front[k] == inner[i];
                        assert(ordered[k].updated_at_ms >= ordered.last().updated_at_ms);
                    }
                }
            }
        }
    } else {
        if is_newest_first(ordered) {
            assert forall|i: int, j: int| 0 <= i < j < after.len() implies (
            #[trigger] after[i]).updated_at_ms >= (#[trigger] after[j]).updated_at_ms by {
                if j < ordered.len() {
                    assert(ordered[i].updated_at_ms >= ordered[j].updated_at_ms);
                } else {
                    assert(ordered[i].updated_at_ms >= ordered.last().updated_at_ms);
                }
            }
        }
    }
}

/// Of a descending order, the sessions behind the first `count` have no
/// part in where a further session comes to stand among the first `count`.
pub proof fn lemma_front_placed(ordered: Seq<SessionState>, state: SessionState, count: int)
    requires
        is_newest_first(ordered),
        0 <= count,
    ensures
        front(placed(front(ordered, count), state), count) == front(placed(ordered, state), count),
    decreases ordered.len(),
{
    if ordered.len() > count {
        let rest = ordered.drop_last();
        lemma_placed(rest, state);
        lemma_placed(ordered.take(count), state);
        assert(front(rest, count) =~= ordered.take(count));
        lemma_shorter_is_newest_first(ordered, rest.len() as int);
        assert(ordered.take(rest.len() as int) =~= rest);
        if ordered.last().updated_at_ms < state.updated_at_ms {
            lemma_front_placed(rest, state, count);
            assert(placed(ordered, state).take(count) =~= placed(rest, state).take(count));
        } else {
            let kept = ordered.take(count);
            if count > 0 {
                assert(ordered[count - 1].updated_at_ms >= ordered.last().updated_at_ms);
                assert(kept.last() == ordered[count - 1]);
            }
            assert(placed(kept, state) == kept.push(state));
            assert(kept.push(state).take(count) =~= kept);
            assert(ordered.push(state).take(count) =~= kept);
        }
    }
}

/// Ordering shows every session once, and none before a more recent one.
pub proof fn lemma_newest_first(sessions: Seq<SessionState>)
    ensures
        newest_first(sessions).len() == sessions.len(),
        newest_first(sessions).to_multiset() == sessions.to_multiset(),
        is_newest_first(newest_first(sessions)),
    decreases sessions.len(),
{
    broadcast use vstd::seq_lib::group_to_multiset_ensures;

    if sessions.len() > 0 {
        let front = sessions.drop_last();
        lemma_newest_first(front);
        lemma_placed(newest_first(front), sessions.last());
        assert(front.push(sessions.last()) =~= sessions);
    }
}

/// Placing a session does not disturb the order among the sessions of any
/// one time of update.
pub proof fn lemma_placed_is_stable(ordered: Seq<SessionState>, state: SessionState, time: u64)
    ensures
        ({
            let at_time = |s: SessionState| s.updated_at_ms == time;
            placed(ordered, state).filter(at_time) == if state.updated_at_ms == time {
                ordered.filter(at_time).push(state)
            } else {
                ordered.filter(at_time)
            }
        }),
    decreases ordered.len(),
{
    let at_time = |s: SessionState| s.updated_at_ms == time;
    if ordered.len() > 0 && ordered.last().updated_at_ms < state.updated_at_ms {
        let front = ordered.drop_last();
        lemma_placed_is_stable(front, state, time);
        placed(front, state).lemma_filter_push(ordered.last(), at_time);
        front.lemma_filter_push(ordered.last(), at_time);
        assert(front.push(ordered.last()) =~= ordered);
    } else {
        ordered.lemma_filter_push(state, at_time);
    }
}

/// Sessions updated at the same millisecond are shown in the order in
/// which they were first seen.
pub proof fn lemma_newest_first_is_stable(sessions: Seq<SessionState>, time: u64)
    ensures
        newest_first(sessions).filter(|s: SessionState| s.updated_at_ms == time)
            == sessions.filter(|s: SessionState| s.updated_at_ms == time),
    decreases sessions.len(),
{
    let at_time = |s: SessionState| s.updated_at_ms == time;
    if sessions.len() > 0 {
        let front = sessions.drop_last();
        lemma_newest_first_is_stable(front, time);
        lemma_placed_is_stable(newest_first(front), sessions.last(), time);
        front.lemma_filter_push(sessions.last(), at_time);
        assert(front.push(sessions.last()) =~= sessions);
    } else {
        assert(newest_first(sessions) =~= sessions);
    }
}

/// A listing is the front of the retained sessions in their descending
/// order: it shows as many as the limit allows, none before a more recent
/// one, and leaves out only sessions that are no more recent than each one
/// shown. Where the limit allows all, it shows each retained session once.
pub proof fn lemma_listing(
    sessions: Seq<SessionState>,
    limit: Option<usize>,
    active_minutes: Option<u64>,
    now: u64,
)
    ensures
        ({
            let kept = retained(sessions, active_minutes, now);
            let ordered = newest_first(kept);
            let shown = listing(sessions, limit, active_minutes, now);
            &&& 1 <= effective_limit(limit) <= 1000
            &&& shown.len() == if kept.len() <= effective_limit(limit) {
                kept.len() as int
            } else {
                effective_limit(limit)
            }
            &&& shown == ordered.take(shown.len() as int)
            &&& ordered.to_multiset() == kept.to_multiset()
            &&& is_newest_first(ordered)
            &&& is_newest_first(shown)
            &&& forall|i: int, j: int|
                0 <= i < shown.len() <= j < ordered.len() ==> (#[trigger] shown[i]).updated_at_ms
                    >= (#[trigger] ordered[j]).updated_at_ms
            &&& kept.len() <= effective_limit(limit) ==> shown.to_multiset() == kept.to_multiset()
        }),
{
    let kept = retained(sessions, active_minutes, now);
    let ordered = newest_first(kept);
    let shown = listing(sessions, limit, active_minutes, now);
    lemma_newest_first(kept);
    assert(shown =~= ordered.take(shown.len() as int));
    assert(ordered.take(ordered.len() as int) =~= ordered);
    lemma_shorter_is_newest_first(ordered, shown.len() as int);
    assert forall|i: int, j: int| 0 <= i < shown.len() <= j < ordered.len() implies (
    #[trigger] shown[i]).updated_at_ms >= (#[trigger] ordered[j]).updated_at_ms by {
        assert(ordered[i].updated_at_ms >= ordered[j].updated_at_ms);
    }
}

/// With an activity bound, the retained sessions are exactly the recent
/// ones: each retained session is a stored one updated within the bound,
/// and each stored session updated within the bound is retained.
pub proof fn lemma_retained_recent(sessions: Seq<SessionState>, minutes: u64, now: u64)
    ensures
        forall|state: SessionState|
            #[trigger] retained(sessions, Some(minutes), now).contains(state) <==> (
            sessions.contains(state) && is_recent(state, minutes, now)),
{
    let recent = |state: SessionState| is_recent(state, minutes, now);
    let kept = sessions.filter(recent);
    assert forall|state: SessionState| #[trigger]
        kept.contains(state) <==> (sessions.contains(state) && is_recent(
            state,
            minutes,
            now,
        )) by {
        if kept.contains(state) {
            let i = choose|i: int| 0 <= i < kept.len() && kept[i] == state;
            sessions.lemma_filter_pred(recent, i);
            sessions.lemma_filter_contains_rev(recent, state);
        }
        if sessions.contains(state) && is_recent(state, minutes, now) {
            let i = choose|i: int| 0 <= i < sessions.len() && sessions[i] == state;
            sessions.lemma_filter_contains(recent, i);
        }
    }
}

/// Every session that a listing shows is a stored session that passes the
/// activity filter.
pub proof fn lemma_listing_shows_retained(
    sessions: Seq<SessionState>,
    limit: Option<usize>,
    active_minutes: Option<u64>,
    now: u64,
    i: int,
)
    requires
        0 <= i < listing(sessions, limit, active_minutes, now).len(),
    ensures
        sessions.contains(listing(sessions, limit, active_minutes, now)[i]),
        active_minutes matches Some(minutes) ==> is_recent(
            listing(sessions, limit, active_minutes, now)[i],
            minutes,
            now,
        ),
{
    broadcast use vstd::seq_lib::group_to_multiset_ensures;

    let kept = retained(sessions, active_minutes, now);
    let ordered = newest_first(kept);
    let shown = listing(sessions, limit, active_minutes, now);
    lemma_listing(sessions, limit, active_minutes, now);
    assert(shown[i] == ordered[i]);
    assert(ordered.to_multiset().count(ordered[i]) > 0);
    assert(kept.contains(shown[i]));
    match active_minutes {
        Some(minutes) => {
            lemma_retained_recent(sessions, minutes, now);
        },
        None => {},
    }
}

/// With an activity bound of zero minutes a listing shows only sessions
/// updated at `now` or later: all but the instantaneously updated ones are
/// left out.
pub proof fn lemma_listing_zero_minutes(
    sessions: Seq<SessionState>,
    limit: Option<usize>,
    now: u64,
)
    ensures
        forall|i: int|
            0 <= i < listing(sessions, limit, Some(0), now).len() ==> (#[trigger] listing(
                sessions,
                limit,
                Some(0),
                now,
            )[i]).updated_at_ms >= now,
{
    assert forall|i: int| 0 <= i < listing(sessions, limit, Some(0), now).len() implies (
    #[trigger] listing(sessions, limit, Some(0), now)[i]).updated_at_ms >= now by {
        lemma_listing_shows_retained(sessions, limit, Some(0), now, i);
    }
}

/// Without an activity bound a listing shows all sessions up to the limit
/// in force, most recent first: as many as there are or as the limit
/// allows, none before a more recent one, and every session once where the
/// limit allows all.
pub proof fn lemma_listing_unbounded(sessions: Seq<SessionState>, limit: Option<usize>, now: u64)
    ensures
        ({
            let shown = listing(sessions, limit, None, now);
            &&& shown.len() == if sessions.len() <= effective_limit(limit) {
                sessions.len() as int
            } else {
                effective_limit(limit)
            }
            &&& is_newest_first(shown)
            &&& shown == newest_first(sessions).take(shown.len() as int)
            &&& newest_first(sessions).to_multiset() == sessions.to_multiset()
            &&& sessions.len() <= effective_limit(limit) ==> shown.to_multiset()
                == sessions.to_multiset()
        }),
{
    lemma_listing(sessions, limit, None, now);
}

} // verus!
