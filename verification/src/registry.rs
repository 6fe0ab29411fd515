//! The in-memory session store: one record per session key, created on
//! first reference and never deleted.

use crate::clock::now_ms;
use crate::decision::ActionRequest;
use crate::decision::Decision;
use crate::listing::effective_limit;
use crate::listing::front;
use crate::listing::is_recent;
use crate::listing::lemma_front_placed;
use crate::listing::lemma_newest_first;
use crate::listing::lemma_placed_at;
use crate::listing::listing;
use crate::listing::newest_first;
use crate::listing::placed;
use crate::listing::retained;
use crate::session_key::ParsedSessionKey;
use crate::sessions::capped_total;
use crate::sessions::distinct_keys;
use crate::sessions::has_session;
use crate::sessions::lemma_position;
use crate::sessions::lemma_upserted;
use crate::sessions::merged;
use crate::sessions::opt_state;
use crate::sessions::patched;
use crate::sessions::position;
use crate::sessions::recorded;
use crate::sessions::session;
use crate::sessions::session_key_for;
use crate::sessions::session_or_fresh;
use crate::sessions::summary_of;
use crate::sessions::view_states;
use crate::sessions::SessionEntry;
use crate::sessions::SessionPatch;
use crate::sessions::SessionState;
use crate::sessions::SessionSummary;
use crate::sessions::SessionView;
use vstd::hash_map::StringHashMap;
use vstd::prelude::*;

verus! {

/// The states of a sequence of records.
spec fn states(entries: Seq<SessionEntry>) -> Seq<SessionState> {
    entries.map_values(|e: SessionEntry| e@)
}

/// The records in the order in which the sessions were first seen, with an
/// index from each key to the place of its record.
struct Store {
    entries: Vec<SessionEntry>,
    places: StringHashMap<usize>,
}

impl Store {
    /// Whether the index holds exactly the keys of the records, each with
    /// the place of its record.
    spec fn indexed(self) -> bool {
        &&& forall|i: int|
            0 <= i < self.entries.len() ==> self.places@.contains_key(
                (#[trigger] states(self.entries@)[i]).key,
            ) && self.places@[states(self.entries@)[i].key] == i
        &&& forall|key: Seq<char>| #[trigger]
            self.places@.contains_key(key) ==> self.places@[key] < self.entries.len() && states(
                self.entries@,
            )[self.places@[key] as int].key == key
    }

    /// An index gives each key one place.
    proof fn lemma_indexed_distinct(self)
        requires
            self.indexed(),
        ensures
            distinct_keys(states(self.entries@)),
    {
        let sessions = states(self.entries@);
        assert forall|i: int, j: int| 0 <= i < j < sessions.len() implies (
        #[trigger] sessions[i]).key != (#[trigger] sessions[j]).key by {
            if sessions[i].key == sessions[j].key {
                assert(self.places@[sessions[i].key] == i);
                assert(self.places@[sessions[j].key] == j);
            }
        }
    }

    /// A store without records.
    fn empty() -> (r: Store)
        ensures
            r.indexed(),
            r.entries@.len() == 0,
    {
        Store { entries: Vec::new(), places: StringHashMap::new() }
    }

    /// The place of the record under `key`.
    fn find(&self, key: &str) -> (r: Option<usize>)
        requires
            self.indexed(),
        ensures
            match r {
                Some(i) => i < self.entries.len() && states(self.entries@)[i as int].key == key@,
                None => !has_session(states(self.entries@), key@),
            },
    {
        match self.places.get(key) {
            Some(place) => Some(*place),
            None => None,
        }
    }

    /// Stores `entry` under its key: in the place of the record that has the
    /// key, or behind all records where none has it.
    fn put(&mut self, entry: SessionEntry)
        requires
            old(self).indexed(),
        ensures
            final(self).indexed(),
            states(final(self).entries@) == if has_session(
                states(old(self).entries@),
                entry@.key,
            ) {
                states(old(self).entries@).update(
                    position(states(old(self).entries@), entry@.key),
                    entry@,
                )
            } else {
                states(old(self).entries@).push(entry@)
            },
    {
        proof {
            self.lemma_indexed_distinct();
        }
        match self.find(entry.key.as_str()) {
            Some(i) => {
                proof {
                    lemma_position(states(self.entries@), entry@.key, i as int);
                }
                self.replace(i, entry);
            },
            None => {
                self.add(entry);
            },
        }
    }

    /// Puts `entry` in the place of the record that has its key.
    fn replace(&mut self, i: usize, entry: SessionEntry)
        requires
            old(self).indexed(),
            i < old(self).entries.len(),
            states(old(self).entries@)[i as int].key == entry@.key,
        ensures
            final(self).indexed(),
            states(final(self).entries@) == states(old(self).entries@).update(i as int, entry@),
    {
        proof {
            assert(states(self.entries@.update(i as int, entry)) =~= states(self.entries@).update(
                i as int,
                entry@,
            ));
        }
        self.entries.set(i, entry);
    }

    /// Adds the record of a session that the store has not seen.
    fn add(&mut self, entry: SessionEntry)
        requires
            old(self).indexed(),
            !has_session(states(old(self).entries@), entry@.key),
        ensures
            final(self).indexed(),
            states(final(self).entries@) == states(old(self).entries@).push(entry@),
    {
        proof {
            assert(states(self.entries@.push(entry)) =~= states(self.entries@).push(entry@));
            if self.places@.contains_key(entry@.key) {
                assert(states(self.entries@)[self.places@[entry@.key] as int].key == entry@.key);
            }
        }
        let place = self.entries.len();
        self.places.insert(entry.key.clone(), place);
        self.entries.push(entry);
    }
}

/// The earliest time of update that counts as within the last `minutes`
/// minutes before `now`.
fn earliest_recent(minutes: u64, now: u64) -> (r: u64)
    ensures
        forall|state: SessionState| is_recent(state, minutes, now) <==> state.updated_at_ms >= r,
{
    match minutes.checked_mul(60_000) {
        Some(span) => now.saturating_sub(span),
        None => 0,
    }
}

/// The sessions that stand at the places `picks`.
spec fn picked(sessions: Seq<SessionState>, picks: Seq<usize>) -> Seq<SessionState> {
    picks.map_values(|i: usize| sessions[i as int])
}

/// Puts the place `i` into `picks`, behind the place of every record that
/// is at least as recent.
fn place(entries: &Vec<SessionEntry>, picks: &mut Vec<usize>, i: usize)
    requires
        i < entries.len(),
        forall|k: int| 0 <= k < old(picks).len() ==> old(picks)[k] < entries.len(),
    ensures
        picked(states(entries@), final(picks)@) == placed(
            picked(states(entries@), old(picks)@),
            states(entries@)[i as int],
        ),
        final(picks).len() == old(picks).len() + 1,
        forall|k: int| 0 <= k < final(picks).len() ==> final(picks)[k] < entries.len(),
{
    let time = entries[i].updated_at_ms;
    let mut at: usize = picks.len();
    while at > 0 && entries[picks[at - 1]].updated_at_ms < time
        invariant
            at <= picks.len(),
            time == entries[i as int].updated_at_ms,
            forall|k: int| 0 <= k < picks.len() ==> picks[k] < entries.len(),
            forall|k: int|
                at <= k < picks.len() ==> (#[trigger] entries[picks[k] as int]).updated_at_ms
                    < time,
        decreases at,
    {
        at -= 1;
    }
    proof {
        let before = picked(states(entries@), picks@);
        assert forall|k: int| at <= k < before.len() implies (#[trigger] before[k]).updated_at_ms
            < time by {
            assert(entries[picks[k] as int].updated_at_ms < time);
        }
        lemma_placed_at(before, states(entries@)[i as int], at as int);
        assert(before.insert(at as int, states(entries@)[i as int]) =~= picked(
            states(entries@),
            picks@.insert(at as int, i),
        ));
    }
    picks.insert(at, i);
}

/// The session store: a record per session key, in the order in which the
/// sessions were first seen.
pub struct SessionRegistry {
    store: Store,
}

impl View for SessionRegistry {
    type V = Seq<SessionState>;

    closed spec fn view(&self) -> Seq<SessionState> {
        states(self.store.entries@)
    }
}

impl SessionRegistry {
    #[verifier::type_invariant]
    spec fn well_indexed(self) -> bool {
        self.store.indexed()
    }

    /// An empty store.
    pub fn new() -> (r: Self)
        ensures
            r@ == Seq::<SessionState>::empty(),
    {
        let r = SessionRegistry { store: Store::empty() };
        assert(r@ =~= Seq::<SessionState>::empty());
        r
    }

    /// How many sessions the store holds. No two of them share a key.
    pub fn len(&self) -> (r: usize)
        ensures
            r == self@.len(),
            distinct_keys(self@),
    {
        proof {
            use_type_invariant(self);
            self.store.lemma_indexed_distinct();
        }
        self.store.entries.len()
    }

    /// The session under `session_key`, if the store has seen it. Reading
    /// never creates a record.
    pub fn get(&self, session_key: &str) -> (r: Option<SessionView>)
        ensures
            opt_state(r) == session(self@, session_key@),
    {
        proof {
            use_type_invariant(self);
            self.store.lemma_indexed_distinct();
        }
        match self.store.find(session_key) {
            Some(i) => {
                proof {
                    lemma_position(self@, session_key@, i as int);
                }
                Some(self.store.entries[i].to_view())
            },
            None => None,
        }
    }

    /// Applies `patch` at time `now`: creates the session if it is missing,
    /// with the kind and channel of `parsed`, stamps it with `now`, and sets
    /// each override that the patch supplies. Returns the session as it then
    /// stands.
    pub fn patch_at(&mut self, patch: SessionPatch, parsed: ParsedSessionKey, now: u64) -> (r:
        SessionView)
        ensures
            final(self)@ == patched(old(self)@, patch@, parsed@, now),
            r@ == merged(
                session_or_fresh(old(self)@, patch@.session_key, parsed@, now),
                patch@,
                now,
            ),
            session(final(self)@, patch@.session_key) == Some(r@),
    {
        proof {
            use_type_invariant(&*self);
            self.store.lemma_indexed_distinct();
            lemma_upserted(
                self@,
                patch@.session_key,
                parsed@,
                now,
                |state: SessionState| merged(state, patch@, now),
            );
        }
        let mut store = Store::empty();
        std::mem::swap(&mut store, &mut self.store);
        let entry = match store.find(patch.session_key.as_str()) {
            Some(i) => {
                proof {
                    lemma_position(states(store.entries@), patch@.session_key, i as int);
                }
                store.entries[i].with_patch(&patch, now)
            },
            None => SessionEntry::new(patch.session_key.as_str(), parsed, now).with_patch(
                &patch,
                now,
            ),
        };
        let view = entry.to_view();
        store.put(entry);
        self.store = store;
        view
    }

    /// Records a decision at time `now` under the request's session key:
    /// creates the session if it is missing, with the kind and channel of
    /// `parsed`, stamps it with `now`, counts the request, and keeps the
    /// decision's action and risk score. The request's channel is taken only
    /// where the session has none. A request counter that has reached
    /// `u64::MAX` stays there.
    pub fn record_decision_at(
        &mut self,
        request: &ActionRequest,
        decision: &Decision,
        parsed: ParsedSessionKey,
        now: u64,
    )
        ensures
            final(self)@ == recorded(old(self)@, request@, *decision, parsed@, now),
    {
        let key = session_key_for(request);
        proof {
            use_type_invariant(&*self);
            self.store.lemma_indexed_distinct();
        }
        let mut store = Store::empty();
        std::mem::swap(&mut store, &mut self.store);
        let entry = match store.find(key.as_str()) {
            Some(i) => {
                proof {
                    lemma_position(states(store.entries@), key@, i as int);
                }
                store.entries[i].with_decision(request, decision, now)
            },
            None => SessionEntry::new(key.as_str(), parsed, now).with_decision(
                request,
                decision,
                now,
            ),
        };
        store.put(entry);
        self.store = store;
    }

    /// Applies `patch` at the present time. See `patch_at`.
    pub fn patch(&mut self, patch: SessionPatch, parsed: ParsedSessionKey) -> (r: SessionView)
        ensures
            exists|now: u64|
                final(self)@ == #[trigger] patched(old(self)@, patch@, parsed@, now) && r@
                    == merged(
                    session_or_fresh(old(self)@, patch@.session_key, parsed@, now),
                    patch@,
                    now,
                ),
            session(final(self)@, patch@.session_key) == Some(r@),
    {
        let now = now_ms();
        self.patch_at(patch, parsed, now)
    }

    /// Records a decision at the present time. See `record_decision_at`.
    pub fn record_decision(
        &mut self,
        request: &ActionRequest,
        decision: &Decision,
        parsed: ParsedSessionKey,
    )
        ensures
            exists|now: u64|
                final(self)@ == #[trigger] recorded(old(self)@, request@, *decision, parsed@, now),
    {
        let now = now_ms();
        self.record_decision_at(request, decision, parsed, now);
    }

    /// The sessions to show at the present time. See `list_at`. The clock
    /// is read only where an activity bound is given.
    pub fn list(&self, limit: Option<usize>, active_minutes: Option<u64>) -> (r: Vec<SessionView>)
        ensures
            exists|now: u64|
                view_states(r@) == #[trigger] listing(self@, limit, active_minutes, now),
            active_minutes is None ==> forall|now: u64|
                view_states(r@) == #[trigger] listing(self@, limit, active_minutes, now),
    {
        let now = if active_minutes.is_some() {
            now_ms()
        } else {
            0
        };
        self.list_at(limit, active_minutes, now)
    }

    /// The totals at the present time. See `summary_at`.
    pub fn summary(&self) -> (r: SessionSummary)
        ensures
            r == summary_of(self@, r.updated_at_ms),
            r.total_sessions == self@.len(),
    {
        let now = now_ms();
        self.summary_at(now)
    }

    /// The sessions to show at time `now`: those updated within the last
    /// `active_minutes` minutes (all of them where no such bound is given),
    /// newest first, cut off at the limit in force. Sessions updated at the
    /// same millisecond come in the order in which they were first seen.
    pub fn list_at(&self, limit: Option<usize>, active_minutes: Option<u64>, now: u64) -> (r: Vec<
        SessionView,
    >)
        ensures
            view_states(r@) == listing(self@, limit, active_minutes, now),
    {
        let wanted: usize = match limit {
            None => 200,
            Some(asked) => if asked < 1 {
                1
            } else if asked > 1000 {
                1000
            } else {
                asked
            },
        };
        let earliest = match active_minutes {
            Some(minutes) => earliest_recent(minutes, now),
            None => 0,
        };
        // The places of the sessions to show, newest first, never more than wanted.
        let mut picks: Vec<usize> = Vec::new();
        let mut i: usize = 0;
        proof {
            assert(self@.take(0) =~= Seq::<SessionState>::empty());
            assert(picked(self@, picks@) =~= Seq::<SessionState>::empty());
        }
        while i < self.store.entries.len()
            invariant
                i <= self.store.entries.len(),
                wanted == effective_limit(limit),
                picks.len() <= wanted,
                forall|state: SessionState|
                    active_minutes is Some ==> (is_recent(state, active_minutes->0, now)
                        <==> state.updated_at_ms >= earliest),
                forall|k: int| 0 <= k < picks.len() ==> picks[k] < self.store.entries.len(),
                picked(self@, picks@) == front(
                    newest_first(retained(self@.take(i as int), active_minutes, now)),
                    wanted as int,
                ),
            decreases self.store.entries.len() - i,
        {
            let time = self.store.entries[i].updated_at_ms;
            let ghost seen = retained(self@.take(i as int), active_minutes, now);
            proof {
                let before = self@.take(i as int);
                assert(self@.take(i + 1) =~= before.push(self@[i as int]));
                match active_minutes {
                    Some(minutes) => {
                        before.lemma_filter_push(
                            self@[i as int],
                            |state: SessionState| is_recent(state, minutes, now),
                        );
                    },
                    None => {},
                }
                assert(seen.push(self@[i as int]).drop_last() =~= seen);
                lemma_newest_first(seen);
                lemma_front_placed(newest_first(seen), self@[i as int], wanted as int);
            }
            if active_minutes.is_none() || time >= earliest {
                if picks.len() < wanted || self.store.entries[picks[picks.len() - 1]].updated_at_ms
                    < time {
                    place(&self.store.entries, &mut picks, i);
                    proof {
                        let placed_picks = picked(self@, picks@);
                        if wanted < picks.len() {
                            assert(picked(self@, picks@.subrange(0, wanted as int))
                                =~= placed_picks.take(wanted as int));
                        }
                    }
                    picks.truncate(wanted);
                } else {
                    let ghost shown = picked(self@, picks@);
                    assert(shown.last() == self@[picks[picks.len() - 1] as int]);
                    assert(shown.push(self@[i as int]).take(wanted as int) =~= shown);
                }
            }
            i += 1;
        }
        assert(self@.take(i as int) =~= self@);
        let mut shown: Vec<SessionView> = Vec::new();
        let mut k: usize = 0;
        while k < picks.len()
            invariant
                k <= picks.len(),
                forall|j: int| 0 <= j < picks.len() ==> picks[j] < self.store.entries.len(),
                view_states(shown@) == picked(self@, picks@).take(k as int),
            decreases picks.len() - k,
        {
            let view = self.store.entries[picks[k]].to_view();
            proof {
                let all = picked(self@, picks@);
                assert(all[k as int] == view@);
                assert(all.take(k + 1) =~= all.take(k as int).push(view@));
                assert(view_states(shown@.push(view)) =~= view_states(shown@).push(view@));
            }
            shown.push(view);
            k += 1;
        }
        assert(picked(self@, picks@).take(k as int) =~= picked(self@, picks@));
        shown
    }

    /// The totals at time `now`: how many sessions the store holds, and how
    /// many requests they have counted in all (`u64::MAX` where the sum is
    /// more than that).
    pub fn summary_at(&self, now: u64) -> (r: SessionSummary)
        ensures
            r == summary_of(self@, now),
            r.total_sessions == self@.len(),
    {
        let mut total: u64 = 0;
        let mut i: usize = 0;
        assert(self@.take(0) =~= Seq::<SessionState>::empty());
        while i < self.store.entries.len()
            invariant
                i <= self.store.entries.len(),
                total == capped_total(self@.take(i as int)),
            decreases self.store.entries.len() - i,
        {
            assert(self@.take(i + 1).drop_last() =~= self@.take(i as int));
            total = total.saturating_add(self.store.entries[i].total_requests);
            i += 1;
        }
        assert(self@.take(i as int) =~= self@);
        SessionSummary {
            total_sessions: self.len() as u64,
            total_requests: total,
            updated_at_ms: now,
        }
    }
}

} // verus!
