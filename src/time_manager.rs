use vstd::prelude::*;

use crate::clock::unix_millis;
use crate::error::{is_not_found, CoreError};
use crate::ident::fresh_id;
use crate::keyed::{find_key, key_map, lemma_key_map_at, lemma_key_map_pointwise, lemma_key_map_update, remove_key, unique_keys, upsert, Keyed};
use crate::text::{joined, same_text};
use crate::time_state::{DurationType, MetadataEntry, RunState, SourceType, TimeState};
use crate::timecode::{Framerate, Timecode};

verus! {

/// A named, ordered grouping of state ids. The ids are not owned: they may
/// name states that do not exist (any more).
#[derive(Debug, Clone)]
pub struct Timeline {
    pub id: String,
    pub name: String,
    pub master_timecode: Timecode,
    pub states: Vec<String>,
    pub sync_enabled: bool,
    pub created_at: u64,
}

impl Keyed for Timeline {
    open spec fn spec_key(&self) -> Seq<char> {
        self.id@
    }

    fn key(&self) -> (r: &String) {
        &self.id
    }
}

/// The states of a sequence of references.
pub open spec fn deref_all<T>(s: Seq<&T>) -> Seq<T> {
    Seq::new(s.len(), |i: int| *s[i])
}

/// The time states of all sources, keyed by id, and the timelines over them.
pub struct TimeManager {
    states: Vec<TimeState>,
    timelines: Vec<Timeline>,
    master_framerate: Framerate,
}

impl TimeManager {
    pub closed spec fn states_view(&self) -> Seq<TimeState> {
        self.states@
    }

    pub closed spec fn timelines_view(&self) -> Seq<Timeline> {
        self.timelines@
    }

    pub closed spec fn spec_master_framerate(&self) -> Framerate {
        self.master_framerate
    }

    pub open spec fn state_map(&self) -> Map<Seq<char>, TimeState> {
        key_map(self.states_view())
    }

    pub open spec fn timeline_map(&self) -> Map<Seq<char>, Timeline> {
        key_map(self.timelines_view())
    }

    /// Ids are unique among states and among timelines, and metadata keys
    /// within each state.
    pub open spec fn wf(&self) -> bool {
        &&& unique_keys(self.states_view())
        &&& unique_keys(self.timelines_view())
        &&& forall|i: int|
            0 <= i < self.states_view().len() ==> unique_keys(
                #[trigger] self.states_view()[i].metadata@,
            )
    }

    /// `new` has the states of `old` with the one under `id` rewritten by
    /// `f`, and `r` is `Ok`; or there is none, `r` is not-found and nothing
    /// changed. Timelines and the frame rate stay.
    pub open spec fn state_op(
        old: TimeManager,
        new: TimeManager,
        id: Seq<char>,
        r: Result<(), CoreError>,
        f: spec_fn(TimeState) -> TimeState,
    ) -> bool {
        &&& new.wf()
        &&& new.timeline_map() == old.timeline_map()
        &&& new.spec_master_framerate() == old.spec_master_framerate()
        &&& if old.state_map().contains_key(id) {
            &&& r is Ok
            &&& new.state_map() == old.state_map().insert(id, f(old.state_map()[id]))
        } else {
            &&& is_not_found(r, id)
            &&& new.state_map() == old.state_map()
        }
    }

    pub open spec fn start_post(old: TimeManager, new: TimeManager, id: Seq<char>, r: Result<(), CoreError>, now: u64) -> bool {
        Self::state_op(old, new, id, r, |s: TimeState| s.spec_start(Some(old.spec_master_framerate()), now))
    }

    pub open spec fn pause_post(old: TimeManager, new: TimeManager, id: Seq<char>, r: Result<(), CoreError>, now: u64) -> bool {
        Self::state_op(old, new, id, r, |s: TimeState| s.spec_pause(now))
    }

    pub open spec fn stop_post(old: TimeManager, new: TimeManager, id: Seq<char>, r: Result<(), CoreError>, now: u64) -> bool {
        Self::state_op(old, new, id, r, |s: TimeState| s.spec_stop(now))
    }

    pub open spec fn frame_post(old: TimeManager, new: TimeManager, id: Seq<char>, dropped: bool, r: Result<(), CoreError>, now: u64) -> bool {
        Self::state_op(old, new, id, r, |s: TimeState| s.spec_frame_reported(dropped, now))
    }

    /// Every state of `m` after one tick at `now`.
    pub open spec fn ticked(m: Map<Seq<char>, TimeState>, now: u64) -> Map<Seq<char>, TimeState> {
        m.map_values(|s: TimeState| s.spec_update(now))
    }

    pub fn new(master_framerate: Framerate) -> (r: Self)
        ensures
            r.wf(),
            r.state_map().is_empty(),
            r.timeline_map().is_empty(),
            r.spec_master_framerate() == master_framerate,
    {
        let r = TimeManager { states: Vec::new(), timelines: Vec::new(), master_framerate };
        assert(r.state_map() =~= Map::empty());
        assert(r.timeline_map() =~= Map::empty());
        r
    }

    pub fn master_framerate(&self) -> (r: Framerate)
        ensures
            r == self.spec_master_framerate(),
    {
        self.master_framerate
    }

    /// Adds the state, replacing any with the same id.
    pub fn register_state(&mut self, state: TimeState) -> (r: Result<(), CoreError>)
        requires
            old(self).wf(),
            unique_keys(state.metadata@),
        ensures
            final(self).wf(),
            r is Ok,
            final(self).state_map() == old(self).state_map().insert(state.id@, state),
            final(self).timeline_map() == old(self).timeline_map(),
            final(self).spec_master_framerate() == old(self).spec_master_framerate(),
    {
        let ghost before = self.states@;
        upsert(&mut self.states, state);
        proof {
            assert forall|i: int| 0 <= i < self.states@.len() implies unique_keys(
                #[trigger] self.states@[i].metadata@,
            ) by {
                if self.states@[i] != state {
                    let j = choose|j: int| 0 <= j < before.len() && before[j] == self.states@[i];
                    assert(unique_keys(before[j].metadata@));
                }
            }
        }
        Ok(())
    }

    /// Position of the state with `id`.
    fn locate(&self, id: &str) -> (r: Option<usize>)
        requires
            self.wf(),
        ensures
            match r {
                Some(i) => {
                    &&& i < self.states@.len()
                    &&& self.state_map().contains_key(id@)
                    &&& self.states@[i as int] == self.state_map()[id@]
                    &&& self.states@[i as int].id@ == id@
                },
                None => !self.state_map().contains_key(id@),
            },
    {
        let key = id.to_owned();
        let r = find_key(&self.states, &key);
        if let Some(i) = r {
            proof {
                lemma_key_map_at(self.states@, i as int);
            }
        }
        r
    }

    fn not_found(id: &str) -> (r: CoreError)
        ensures
            is_not_found(Err::<(), CoreError>(r), id@),
    {
        CoreError::NotFound(id.to_owned())
    }

    /// Starts the state at `now`, resetting its timecode at the master rate.
    pub fn start_state_at(&mut self, id: &str, now: u64) -> (r: Result<(), CoreError>)
        requires
            old(self).wf(),
        ensures
            Self::start_post(*old(self), *final(self), id@, r, now),
    {
        let fr = self.master_framerate;
        match self.locate(id) {
            Some(i) => {
                let ghost before = self.states@;
                self.states[i].start_at(Some(fr), now);
                proof {
                    lemma_key_map_update(before, i as int, self.states@[i as int]);
                    assert(self.states@ == before.update(i as int, self.states@[i as int]));
                }
                Ok(())
            },
            None => Err(Self::not_found(id)),
        }
    }

    pub fn start_state(&mut self, id: &str) -> (r: Result<(), CoreError>)
        requires
            old(self).wf(),
        ensures
            exists|now: u64| #[trigger] Self::start_post(*old(self), *final(self), id@, r, now),
    {
        let now = unix_millis();
        self.start_state_at(id, now)
    }

    pub fn pause_state_at(&mut self, id: &str, now: u64) -> (r: Result<(), CoreError>)
        requires
            old(self).wf(),
        ensures
            Self::pause_post(*old(self), *final(self), id@, r, now),
    {
        match self.locate(id) {
            Some(i) => {
                let ghost before = self.states@;
                self.states[i].pause_at(now);
                proof {
                    lemma_key_map_update(before, i as int, self.states@[i as int]);
                    assert(self.states@ == before.update(i as int, self.states@[i as int]));
                }
                Ok(())
            },
            None => Err(Self::not_found(id)),
        }
    }

    pub fn pause_state(&mut self, id: &str) -> (r: Result<(), CoreError>)
        requires
            old(self).wf(),
        ensures
            exists|now: u64|
                Self::pause_post(*old(self), *final(self), id@, r, now),
    {
        let now = unix_millis();
        self.pause_state_at(id, now)
    }

    pub fn stop_state_at(&mut self, id: &str, now: u64) -> (r: Result<(), CoreError>)
        requires
            old(self).wf(),
        ensures
            Self::stop_post(*old(self), *final(self), id@, r, now),
    {
        match self.locate(id) {
            Some(i) => {
                let ghost before = self.states@;
                self.states[i].stop_at(now);
                proof {
                    lemma_key_map_update(before, i as int, self.states@[i as int]);
                    assert(self.states@ == before.update(i as int, self.states@[i as int]));
                }
                Ok(())
            },
            None => Err(Self::not_found(id)),
        }
    }

    pub fn stop_state(&mut self, id: &str) -> (r: Result<(), CoreError>)
        requires
            old(self).wf(),
        ensures
            exists|now: u64|
                Self::stop_post(*old(self), *final(self), id@, r, now),
    {
        let now = unix_millis();
        self.stop_state_at(id, now)
    }

    /// One tick at `now` for every state.
    pub fn update_all_states_at(&mut self, now: u64) -> (r: Result<(), CoreError>)
        requires
            old(self).wf(),
        ensures
            final(self).wf(),
            r is Ok,
            final(self).state_map() == Self::ticked(old(self).state_map(), now),
            final(self).timeline_map() == old(self).timeline_map(),
            final(self).spec_master_framerate() == old(self).spec_master_framerate(),
    {
        let ghost before = self.states@;
        let n = self.states.len();
        let mut i: usize = 0;
        while i < n
            invariant
                n == before.len(),
                self.states@.len() == n,
                i <= n,
                unique_keys(before),
                self.timelines@ == old(self).timelines@,
                self.master_framerate == old(self).master_framerate,
                before == old(self).states@,
                forall|j: int| 0 <= j < i ==> #[trigger] self.states@[j] == before[j].spec_update(now),
                forall|j: int| i <= j < n ==> #[trigger] self.states@[j] == before[j],
            decreases n - i,
        {
            self.states[i].update_at(now);
            i += 1;
        }
        proof {
            let f = |s: TimeState| s.spec_update(now);
            assert forall|j: int| 0 <= j < before.len() implies #[trigger] self.states@[j] == f(before[j]) by {}
            lemma_key_map_pointwise(before, self.states@, f);
        }
        Ok(())
    }

    pub fn update_all_states(&mut self) -> (r: Result<(), CoreError>)
        requires
            old(self).wf(),
        ensures
            final(self).wf(),
            r is Ok,
            exists|now: u64| final(self).state_map() == #[trigger] Self::ticked(old(self).state_map(), now),
            final(self).timeline_map() == old(self).timeline_map(),
    {
        let now = unix_millis();
        self.update_all_states_at(now)
    }

    pub fn get_state(&self, id: &str) -> (r: Result<&TimeState, CoreError>)
        requires
            self.wf(),
        ensures
            match r {
                Ok(s) => self.state_map().contains_key(id@) && *s == self.state_map()[id@],
                Err(_) => !self.state_map().contains_key(id@) && is_not_found(r, id@),
            },
    {
        match self.locate(id) {
            Some(i) => Ok(&self.states[i]),
            None => Err(Self::not_found(id)),
        }
    }

    /// Every state, in no particular order.
    pub fn get_all_states(&self) -> (r: Vec<&TimeState>)
        requires
            self.wf(),
        ensures
            deref_all(r@) == self.states_view(),
            unique_keys(deref_all(r@)),
            key_map(deref_all(r@)) == self.state_map(),
    {
        let mut r: Vec<&TimeState> = Vec::new();
        let mut i: usize = 0;
        while i < self.states.len()
            invariant
                i <= self.states@.len(),
                deref_all(r@) == self.states@.subrange(0, i as int),
            decreases self.states@.len() - i,
        {
            let ghost prev = r@;
            r.push(&self.states[i]);
            assert(deref_all(r@) =~= deref_all(prev).push(self.states@[i as int]));
            assert(self.states@.subrange(0, i + 1) =~= self.states@.subrange(0, i as int).push(self.states@[i as int]));
            i += 1;
        }
        assert(self.states@.subrange(0, i as int) =~= self.states@);
        r
    }

    /// The states that are playing, in the order of `get_all_states`.
    pub fn get_playing_states(&self) -> (r: Vec<&TimeState>)
        requires
            self.wf(),
        ensures
            deref_all(r@) == self.states_view().filter(|s: TimeState| s.run_state == RunState::Playing),
    {
        let ghost pred = |s: TimeState| s.run_state == RunState::Playing;
        let mut r: Vec<&TimeState> = Vec::new();
        let mut i: usize = 0;
        while i < self.states.len()
            invariant
                i <= self.states@.len(),
                pred == (|s: TimeState| s.run_state == RunState::Playing),
                deref_all(r@) == self.states@.subrange(0, i as int).filter(pred),
            decreases self.states@.len() - i,
        {
            proof {
                reveal_with_fuel(Seq::filter, 1);
                assert(self.states@.subrange(0, i + 1).drop_last() =~= self.states@.subrange(0, i as int));
            }
            if self.states[i].run_state == RunState::Playing {
                let ghost prev = r@;
                r.push(&self.states[i]);
                assert(deref_all(r@) =~= deref_all(prev).push(self.states@[i as int]));
            }
            i += 1;
            assert(deref_all(r@) =~= self.states@.subrange(0, i as int).filter(pred));
        }
        assert(self.states@.subrange(0, i as int) =~= self.states@);
        r
    }

    /// The states of one source type, in the order of `get_all_states`.
    pub fn get_states_by_type(&self, source_type: SourceType) -> (r: Vec<&TimeState>)
        requires
            self.wf(),
        ensures
            deref_all(r@) == self.states_view().filter(|s: TimeState| s.source_type == source_type),
    {
        let ghost pred = |s: TimeState| s.source_type == source_type;
        let mut r: Vec<&TimeState> = Vec::new();
        let mut i: usize = 0;
        while i < self.states.len()
            invariant
                i <= self.states@.len(),
                pred == (|s: TimeState| s.source_type == source_type),
                deref_all(r@) == self.states@.subrange(0, i as int).filter(pred),
            decreases self.states@.len() - i,
        {
            proof {
                reveal_with_fuel(Seq::filter, 1);
                assert(self.states@.subrange(0, i + 1).drop_last() =~= self.states@.subrange(0, i as int));
            }
            if self.states[i].source_type == source_type {
                let ghost prev = r@;
                r.push(&self.states[i]);
                assert(deref_all(r@) =~= deref_all(prev).push(self.states@[i as int]));
            }
            i += 1;
            assert(deref_all(r@) =~= self.states@.subrange(0, i as int).filter(pred));
        }
        assert(self.states@.subrange(0, i as int) =~= self.states@);
        r
    }

    /// What storing a timeline under `id` at `now` does: a taken id is
    /// refused and nothing changes; a free one gets the new timeline.
    pub open spec fn timeline_post(
        old: TimeManager,
        new: TimeManager,
        id: String,
        name: String,
        state_ids: Vec<String>,
        now: u64,
        r: Result<String, CoreError>,
    ) -> bool {
        &&& new.wf()
        &&& new.state_map() == old.state_map()
        &&& new.spec_master_framerate() == old.spec_master_framerate()
        &&& if old.timeline_map().contains_key(id@) {
            &&& r matches Err(CoreError::DuplicateId(d)) && d@ == id@
            &&& new.timeline_map() == old.timeline_map()
        } else {
            &&& r == Ok::<String, CoreError>(id)
            &&& new.timeline_map() == old.timeline_map().insert(
                id@,
                Timeline {
                    id,
                    name,
                    master_timecode: Timecode::spec_zero(old.spec_master_framerate()),
                    states: state_ids,
                    sync_enabled: true,
                    created_at: now,
                },
            )
        }
    }

    /// Stores a timeline under `id` over `state_ids`, with a zero master
    /// timecode at the master rate and sync on, created at `now`; an id
    /// already in use is refused.
    pub fn insert_timeline(&mut self, id: String, name: String, state_ids: Vec<String>, now: u64) -> (r: Result<String, CoreError>)
        requires
            old(self).wf(),
        ensures
            Self::timeline_post(*old(self), *final(self), id, name, state_ids, now, r),
    {
        if let Some(_) = find_key(&self.timelines, &id) {
            return Err(CoreError::DuplicateId(id));
        }
        let r = id.clone();
        let timeline = Timeline {
            id,
            name,
            master_timecode: Timecode::zero(self.master_framerate),
            states: state_ids,
            sync_enabled: true,
            created_at: now,
        };
        upsert(&mut self.timelines, timeline);
        Ok(r)
    }

    /// Creates a timeline under a fresh random id, one no timeline has, and
    /// returns the id. Should every draw collide with a taken id, nothing is
    /// stored and the last draw is reported.
    pub fn create_timeline(&mut self, name: String, state_ids: Vec<String>) -> (r: Result<String, CoreError>)
        requires
            old(self).wf(),
        ensures
            final(self).wf(),
            final(self).state_map() == old(self).state_map(),
            match r {
                Ok(id) => {
                    &&& !old(self).timeline_map().contains_key(id@)
                    &&& exists|now: u64|
                        final(self).timeline_map() == #[trigger] old(self).timeline_map().insert(
                            id@,
                            Timeline {
                                id,
                                name,
                                master_timecode: Timecode::spec_zero(old(self).spec_master_framerate()),
                                states: state_ids,
                                sync_enabled: true,
                                created_at: now,
                            },
                        )
                },
                Err(e) => {
                    &&& e matches CoreError::DuplicateId(_)
                    &&& final(self).timeline_map() == old(self).timeline_map()
                },
            },
    {
        let mut attempt: usize = 0;
        let mut last = fresh_id();
        while attempt < ID_ATTEMPTS
            invariant
                self == old(self),
                self.wf(),
            decreases ID_ATTEMPTS - attempt,
        {
            let id = fresh_id();
            if find_key(&self.timelines, &id).is_none() {
                let now = unix_millis();
                assert(!self.timeline_map().contains_key(id@));
                let ghost tid = id;
                let r = self.insert_timeline(id, name, state_ids, now);
                assert(r == Ok::<String, CoreError>(tid));
                assert(!old(self).timeline_map().contains_key(tid@));
                assert(exists|t: u64|
                    self.timeline_map() == #[trigger] old(self).timeline_map().insert(
                        tid@,
                        Timeline {
                            id: tid,
                            name,
                            master_timecode: Timecode::spec_zero(old(self).spec_master_framerate()),
                            states: state_ids,
                            sync_enabled: true,
                            created_at: t,
                        },
                    ));
                return r;
            }
            last = id;
            attempt += 1;
        }
        Err(CoreError::DuplicateId(last))
    }

    pub fn get_timeline(&self, id: &str) -> (r: Result<&Timeline, CoreError>)
        requires
            self.wf(),
        ensures
            match r {
                Ok(t) => self.timeline_map().contains_key(id@) && *t == self.timeline_map()[id@],
                Err(_) => !self.timeline_map().contains_key(id@) && is_not_found(r, id@),
            },
    {
        let key = id.to_owned();
        match find_key(&self.timelines, &key) {
            Some(i) => {
                proof {
                    lemma_key_map_at(self.timelines@, i as int);
                }
                Ok(&self.timelines[i])
            },
            None => Err(Self::not_found(id)),
        }
    }

    /// Every timeline, in no particular order.
    pub fn get_all_timelines(&self) -> (r: Vec<&Timeline>)
        requires
            self.wf(),
        ensures
            deref_all(r@) == self.timelines_view(),
            key_map(deref_all(r@)) == self.timeline_map(),
    {
        let mut r: Vec<&Timeline> = Vec::new();
        let mut i: usize = 0;
        while i < self.timelines.len()
            invariant
                i <= self.timelines@.len(),
                deref_all(r@) == self.timelines@.subrange(0, i as int),
            decreases self.timelines@.len() - i,
        {
            let ghost prev = r@;
            r.push(&self.timelines[i]);
            assert(deref_all(r@) =~= deref_all(prev).push(self.timelines@[i as int]));
            assert(self.timelines@.subrange(0, i + 1) =~= self.timelines@.subrange(0, i as int).push(self.timelines@[i as int]));
            i += 1;
        }
        assert(self.timelines@.subrange(0, i as int) =~= self.timelines@);
        r
    }

    /// Deletes the state with `id`, if there is one.
    pub fn remove_state(&mut self, id: &str) -> (r: Result<(), CoreError>)
        requires
            old(self).wf(),
        ensures
            final(self).wf(),
            r is Ok,
            final(self).state_map() == old(self).state_map().remove(id@),
            final(self).timeline_map() == old(self).timeline_map(),
            final(self).spec_master_framerate() == old(self).spec_master_framerate(),
    {
        let key = id.to_owned();
        let ghost before = self.states@;
        let _ = remove_key(&mut self.states, &key);
        proof {
            assert forall|i: int| 0 <= i < self.states@.len() implies unique_keys(
                #[trigger] self.states@[i].metadata@,
            ) by {
                let j = choose|j: int| 0 <= j < before.len() && before[j] == self.states@[i];
                assert(unique_keys(before[j].metadata@));
            }
        }
        Ok(())
    }

    /// Sets one metadata entry of the state with `id`, replacing any entry
    /// with the same key.
    pub fn update_state_metadata(&mut self, id: &str, key: String, value: String) -> (r: Result<(), CoreError>)
        requires
            old(self).wf(),
        ensures
            final(self).wf(),
            final(self).timeline_map() == old(self).timeline_map(),
            final(self).spec_master_framerate() == old(self).spec_master_framerate(),
            if old(self).state_map().contains_key(id@) {
                let before = old(self).state_map()[id@];
                let after = final(self).state_map()[id@];
                &&& r is Ok
                &&& final(self).state_map() == old(self).state_map().insert(id@, after)
                &&& after == (TimeState { metadata: after.metadata, ..before })
                &&& key_map(after.metadata@) == key_map(before.metadata@).insert(
                    key@,
                    MetadataEntry { key, value },
                )
            } else {
                &&& is_not_found(r, id@)
                &&& final(self).state_map() == old(self).state_map()
            },
    {
        match self.locate(id) {
            Some(i) => {
                let ghost before = self.states@;
                upsert(&mut self.states[i].metadata, MetadataEntry { key, value });
                proof {
                    lemma_key_map_update(before, i as int, self.states@[i as int]);
                    assert(self.states@ == before.update(i as int, self.states@[i as int]));
                    lemma_key_map_at(self.states@, i as int);
                    assert forall|j: int| 0 <= j < self.states@.len() implies unique_keys(
                        #[trigger] self.states@[j].metadata@,
                    ) by {
                        if j != i {
                            assert(self.states@[j] == before[j]);
                        }
                    }
                }
                Ok(())
            },
            None => Err(Self::not_found(id)),
        }
    }

    /// Counts a processed (and maybe dropped) frame of the state with `id`
    /// at `now`.
    pub fn report_frame_at(&mut self, id: &str, dropped: bool, now: u64) -> (r: Result<(), CoreError>)
        requires
            old(self).wf(),
        ensures
            Self::frame_post(*old(self), *final(self), id@, dropped, r, now),
    {
        match self.locate(id) {
            Some(i) => {
                let ghost before = self.states@;
                self.states[i].report_frame_at(dropped, now);
                proof {
                    lemma_key_map_update(before, i as int, self.states@[i as int]);
                    assert(self.states@ == before.update(i as int, self.states@[i as int]));
                }
                Ok(())
            },
            None => Err(Self::not_found(id)),
        }
    }

    pub fn report_frame(&mut self, id: &str, dropped: bool) -> (r: Result<(), CoreError>)
        requires
            old(self).wf(),
        ensures
            exists|now: u64| #[trigger] Self::frame_post(*old(self), *final(self), id@, dropped, r, now),
    {
        let now = unix_millis();
        self.report_frame_at(id, dropped, now)
    }

    /// Records the measured latency of the state with `id`.
    pub fn set_latency(&mut self, id: &str, latency_micros: u64) -> (r: Result<(), CoreError>)
        requires
            old(self).wf(),
        ensures
            Self::state_op(
                *old(self),
                *final(self),
                id@,
                r,
                |s: TimeState| TimeState { latency_micros, ..s },
            ),
    {
        match self.locate(id) {
            Some(i) => {
                let ghost before = self.states@;
                self.states[i].latency_micros = latency_micros;
                proof {
                    lemma_key_map_update(before, i as int, self.states@[i as int]);
                    assert(self.states@ == before.update(i as int, self.states@[i as int]));
                }
                Ok(())
            },
            None => Err(Self::not_found(id)),
        }
    }
}

impl Default for TimeManager {
    /// An empty manager at 30 frames per second.
    fn default() -> (r: Self)
        ensures
            r.wf(),
            r.state_map().is_empty(),
            r.timeline_map().is_empty(),
            r.spec_master_framerate() == Framerate::Fps30,
    {
        Self::new(Framerate::Fps30)
    }
}

/// Random ids drawn for a new timeline before giving up.
pub const ID_ATTEMPTS: usize = 8;

/// The source type a registration names, if any.
pub open spec fn source_type_named(s: Seq<char>) -> Option<SourceType> {
    if s == "video_playback"@ {
        Some(SourceType::VideoPlayback)
    } else if s == "audio_playback"@ {
        Some(SourceType::AudioPlayback)
    } else if s == "ndi_stream"@ {
        Some(SourceType::NdiStream)
    } else if s == "artnet_input"@ {
        Some(SourceType::ArtNetInput)
    } else if s == "sacn_input"@ {
        Some(SourceType::SacnInput)
    } else if s == "dmx_output"@ {
        Some(SourceType::DmxOutput)
    } else if s == "cue_list"@ {
        Some(SourceType::CueList)
    } else if s == "executor"@ {
        Some(SourceType::Executor)
    } else {
        None
    }
}

/// The duration a registration names: `finite` needs a length.
pub open spec fn duration_named(kind: Seq<char>, duration_ms: Option<u64>) -> Option<DurationType> {
    if kind == "finite"@ {
        match duration_ms {
            Some(d) => Some(DurationType::Finite { duration_ms: d }),
            None => None,
        }
    } else if kind == "indefinite"@ {
        Some(DurationType::Indefinite)
    } else {
        None
    }
}

pub fn parse_source_type(s: &str) -> (r: Option<SourceType>)
    ensures
        r == source_type_named(s@),
{
    if same_text(s, "video_playback") {
        Some(SourceType::VideoPlayback)
    } else if same_text(s, "audio_playback") {
        Some(SourceType::AudioPlayback)
    } else if same_text(s, "ndi_stream") {
        Some(SourceType::NdiStream)
    } else if same_text(s, "artnet_input") {
        Some(SourceType::ArtNetInput)
    } else if same_text(s, "sacn_input") {
        Some(SourceType::SacnInput)
    } else if same_text(s, "dmx_output") {
        Some(SourceType::DmxOutput)
    } else if same_text(s, "cue_list") {
        Some(SourceType::CueList)
    } else if same_text(s, "executor") {
        Some(SourceType::Executor)
    } else {
        None
    }
}

pub fn parse_duration_type(kind: &str, duration_ms: Option<u64>) -> (r: Result<DurationType, CoreError>)
    ensures
        match duration_named(kind@, duration_ms) {
            Some(d) => r == Ok::<DurationType, CoreError>(d),
            None => r matches Err(CoreError::SerializationFailure(_)),
        },
{
    if same_text(kind, "finite") {
        match duration_ms {
            Some(d) => Ok(DurationType::Finite { duration_ms: d }),
            None => Err(CoreError::SerializationFailure("duration_ms required for finite type".to_owned())),
        }
    } else if same_text(kind, "indefinite") {
        Ok(DurationType::Indefinite)
    } else {
        Err(CoreError::SerializationFailure(joined("Unknown duration type: ", kind, "")))
    }
}

/// What registering a state at `now` does: see `register_time_state_at`.
pub open spec fn registration_post(
    old: TimeManager,
    new: TimeManager,
    id: String,
    name: String,
    source_type: Seq<char>,
    duration_type: Seq<char>,
    duration_ms: Option<u64>,
    r: Result<String, CoreError>,
    now: u64,
) -> bool {
    &&& new.wf()
    &&& new.timeline_map() == old.timeline_map()
    &&& match (source_type_named(source_type), duration_named(duration_type, duration_ms)) {
        (Some(st), Some(dt)) => {
            &&& r is Ok
            &&& r->Ok_0@ == "State "@ + id@ + " registered"@
            &&& new.state_map().contains_key(id@)
            &&& new.state_map()[id@].is_fresh(id, name, st, dt, now)
            &&& new.state_map() == old.state_map().insert(id@, new.state_map()[id@])
        },
        _ => {
            &&& r matches Err(CoreError::SerializationFailure(_))
            &&& new.state_map() == old.state_map()
        },
    }
}

/// Decodes a registration and stores a fresh stopped state for it, created
/// at `now`. Unknown source or duration names, or a finite duration without
/// a length, are rejected and store nothing.
pub fn register_time_state_at(
    manager: &mut TimeManager,
    id: String,
    name: String,
    source_type: &str,
    duration_type: &str,
    duration_ms: Option<u64>,
    now: u64,
) -> (r: Result<String, CoreError>)
    requires
        old(manager).wf(),
    ensures
        registration_post(*old(manager), *final(manager), id, name, source_type@, duration_type@, duration_ms, r, now),
{
    let src_type = match parse_source_type(source_type) {
        Some(t) => t,
        None => {
            return Err(CoreError::SerializationFailure(joined("Unknown source type: ", source_type, "")));
        },
    };
    let dur_type = match parse_duration_type(duration_type, duration_ms) {
        Ok(d) => d,
        Err(e) => {
            return Err(e);
        },
    };
    let message = joined("State ", id.as_str(), " registered");
    let state = TimeState::new_at(id, name, src_type, dur_type, now);
    proof {
        assert(state.metadata@ =~= Seq::<MetadataEntry>::empty());
    }
    let _ = manager.register_state(state);
    Ok(message)
}

/// `register_time_state_at` at the current wall-clock time.
pub fn register_time_state(
    manager: &mut TimeManager,
    id: String,
    name: String,
    source_type: &str,
    duration_type: &str,
    duration_ms: Option<u64>,
) -> (r: Result<String, CoreError>)
    requires
        old(manager).wf(),
    ensures
        exists|now: u64| #[trigger] registration_post(*old(manager), *final(manager), id, name, source_type@, duration_type@, duration_ms, r, now),
{
    let now = unix_millis();
    register_time_state_at(manager, id, name, source_type, duration_type, duration_ms, now)
}

} // verus!
