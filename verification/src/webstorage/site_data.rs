//! Clearing the data of sites.

use vstd::prelude::*;

use crate::names::replaced as replaced_name;
use crate::text::texts;
use crate::webstorage::engine::{
    EngineCall, WebStorageEngine, WebStorageEngineFactory, WebStorageType,
};
use crate::webstorage::manager::{
    get_origin_location, origin_location, with_origin, WebStorageManager,
};
use crate::webstorage::origins::{going, origin_names, staying, OriginDescriptor};
use crate::webstorage::session_clone::{
    errors_grow, failed_with, failures_grow, has_failed, was_cleared, EngineFailure,
};
use crate::webstorage::slots::{
    by_slot, distinct, slot_at, value_at as value_at_slot, without_origins,
};

verus! {

/// The directory of a local origin whose items are gone.
#[derive(Debug)]
pub struct OriginRemoval {
    pub origin: String,
    /// Below the configuration directory, by the names of its directories.
    pub location: Vec<String>,
}

/// What is left to do once the data of sites is cleared.
#[derive(Debug)]
pub struct SiteClearing {
    /// The origins for which an engine failed; they are listed again.
    pub failures: Vec<EngineFailure>,
    /// The directories to remove; where that fails the origin is to be listed again.
    pub removals: Vec<OriginRemoval>,
    /// The list of local origins is to be saved, once the directories are gone.
    pub save_origins: bool,
}

/// The origins once those that failed are listed again.
pub open spec fn relisted(origins: Seq<Seq<char>>, failures: Seq<EngineFailure>) -> Seq<Seq<char>>
    decreases failures.len(),
{
    if failures.len() == 0 {
        origins
    } else {
        with_origin(relisted(origins, failures.drop_last()), failures.last().origin@)
    }
}

/// What clearing did to the engine of a slot: it was cleared and is gone; or that failed, which is
/// listed, and it is as that left it.
pub open spec fn is_settled<E: WebStorageEngine>(
    key: (u64, Seq<char>),
    engine: E,
    after: Map<(u64, Seq<char>), E>,
    failures: Seq<EngineFailure>,
) -> bool {
    if after.contains_key(key) {
        exists|error: Seq<char>| #[trigger]
            failed_with(failures, key.1, error) && engine.may_end(
                EngineCall::Clear,
                Some(error),
                after[key],
            )
    } else {
        was_cleared(engine)
    }
}

/// The failure is that of clearing the engine that a webview has for the origin, and the engine is
/// kept as that left it.
pub open spec fn is_kept_failure<E: WebStorageEngine>(
    before: Map<(u64, Seq<char>), E>,
    after: Map<(u64, Seq<char>), E>,
    failure: EngineFailure,
) -> bool {
    exists|webview: u64|
        {
            &&& #[trigger] after.contains_key((webview, failure.origin@))
            &&& before.contains_key((webview, failure.origin@))
            &&& before[(webview, failure.origin@)].may_end(
                EngineCall::Clear,
                Some(failure.error@),
                after[(webview, failure.origin@)],
            )
        }
}

/// What clearing did to the engines of sessions: those of other origins are as they were, and those
/// of the origins were cleared and are gone, unless that failed. Each failure is of that kind.
pub open spec fn cleared_engines<E: WebStorageEngine>(
    before: Map<(u64, Seq<char>), E>,
    after: Map<(u64, Seq<char>), E>,
    origins: Seq<Seq<char>>,
    failures: Seq<EngineFailure>,
) -> bool {
    &&& without_origins(after, origins) == without_origins(before, origins)
    &&& forall|key: (u64, Seq<char>)| #[trigger] after.contains_key(key) ==> before.contains_key(key)
    &&& forall|key: (u64, Seq<char>)| #[trigger]
        before.contains_key(key) && origins.contains(key.1) ==> is_settled(
            key,
            before[key],
            after,
            failures,
        )
    &&& forall|i: int|
        0 <= i < failures.len() ==> origins.contains((#[trigger] failures[i]).origin@)
            && is_kept_failure(before, after, failures[i])
}

/// The directory of the origin is to be removed.
pub open spec fn removes(removals: Seq<OriginRemoval>, origin: Seq<char>) -> bool {
    exists|i: int| 0 <= i < removals.len() && (#[trigger] removals[i]).origin@ == origin
}

impl<E: WebStorageEngine, F: WebStorageEngineFactory<E>> WebStorageManager<E, F> {
    /// Clearing the data of a local origin failed with the error: there was no engine and none could
    /// be opened, so there is none; or clearing the origin's engine failed, and it is kept as that
    /// left it.
    pub open spec fn local_clearing_fails(
        &self,
        before: &Self,
        origin: Seq<char>,
        error: String,
    ) -> bool {
        if self.environments@.contains_key(origin) {
            exists|engine: E| #[trigger]
                before.is_engine_of(WebStorageType::Local, 0, origin, engine) && engine.may_end(
                    EngineCall::Clear,
                    Some(error@),
                    self.environments@[origin],
                )
        } else {
            before.cannot_open(WebStorageType::Local, 0, origin, Some(error))
        }
    }

    /// The engine of a local origin, opened for it where it was not open, was cleared.
    pub open spec fn local_was_cleared(&self, origin: Seq<char>) -> bool {
        exists|engine: E| #[trigger]
            self.is_engine_of(WebStorageType::Local, 0, origin, engine) && was_cleared(engine)
    }

    /// What clearing did to the engines of local origins and which directories are to be removed:
    /// other origins are as they were; of the origins, those that failed keep their engine and
    /// directory, and the engine of every other was cleared and is gone, and its directory is to
    /// go. Each failure is of that kind.
    pub open spec fn local_cleared(
        &self,
        before: &Self,
        origins: Seq<Seq<char>>,
        failures: Seq<EngineFailure>,
        removals: Seq<OriginRemoval>,
    ) -> bool {
        let engines = before.environments@;
        let after = self.environments@;
        &&& forall|origin: Seq<char>|
            !origins.contains(origin) ==> (#[trigger] after.contains_key(origin)
                <==> engines.contains_key(origin)) && (engines.contains_key(origin)
                ==> after[origin] == engines[origin])
        &&& forall|i: int|
            0 <= i < failures.len() ==> origins.contains((#[trigger] failures[i]).origin@)
                && self.local_clearing_fails(before, failures[i].origin@, failures[i].error)
        &&& forall|origin: Seq<char>| #[trigger]
            origins.contains(origin) && !has_failed(failures, origin) ==> !after.contains_key(
                origin,
            ) && before.local_was_cleared(origin) && (removes(removals, origin)
                <==> before.has_config_dir)
        &&& forall|i: int|
            0 <= i < removals.len() ==> origins.contains((#[trigger] removals[i]).origin@)
                && !has_failed(failures, removals[i].origin@) && texts(removals[i].location@)
                == origin_location(WebStorageType::Local, None, removals[i].origin@)
    }

    /// The session data of the sites is gone. `domains` holds the registered domain of each listed
    /// session origin, if it has one.
    pub open spec fn session_sites_cleared(
        &self,
        before: &Self,
        clearing: SiteClearing,
        sites: Seq<String>,
        domains: Seq<Option<String>>,
    ) -> bool {
        let listed = before.session_storage_origins.origin_descriptors@;
        let origins = going(listed, domains, sites);
        let stay = origin_names(staying(listed, domains, sites));
        &&& self.local_storage_origins == before.local_storage_origins
        &&& self.environments == before.environments
        &&& self.has_config_dir == before.has_config_dir
        &&& self.engine_factory == before.engine_factory
        &&& self.use_engine_for_session == before.use_engine_for_session
        &&& clearing.removals@.len() == 0
        &&& !clearing.save_origins
        &&& if before.use_engine_for_session {
            &&& self.session_data == before.session_data
            &&& cleared_engines(
                before.session_environments@,
                self.session_environments@,
                origins,
                clearing.failures@,
            )
            &&& self.session_storage_origins@ == relisted(stay, clearing.failures@)
        } else {
            &&& self.session_environments == before.session_environments
            &&& self.session_data@ == without_origins(before.session_data@, origins)
            &&& self.session_storage_origins@ == stay
            &&& clearing.failures@.len() == 0
        }
    }

    /// The local data of the sites is gone. `domains` holds the registered domain of each listed
    /// local origin, if it has one.
    pub open spec fn local_sites_cleared(
        &self,
        before: &Self,
        clearing: SiteClearing,
        sites: Seq<String>,
        domains: Seq<Option<String>>,
    ) -> bool {
        let listed = before.local_storage_origins.origin_descriptors@;
        let origins = going(listed, domains, sites);
        let stay = origin_names(staying(listed, domains, sites));
        &&& self.same_but_local(before)
        &&& clearing.save_origins
        &&& self.local_cleared(before, origins, clearing.failures@, clearing.removals@)
        &&& self.local_storage_origins@ == relisted(stay, clearing.failures@)
    }

    /// Clears the data of sites. `domains` holds the registered domain of each origin that is listed
    /// for the kind of storage, if it has one.
    pub fn clear_data_for_sites(
        &mut self,
        storage_type: WebStorageType,
        sites: &Vec<String>,
        domains: &Vec<Option<String>>,
    ) -> (clearing: SiteClearing)
        requires
            old(self).wf(),
            domains.len() == match storage_type {
                WebStorageType::Session => old(
                    self,
                ).session_storage_origins.origin_descriptors.len(),
                WebStorageType::Local => old(self).local_storage_origins.origin_descriptors.len(),
            },
        ensures
            final(self).wf(),
            match storage_type {
                WebStorageType::Session => final(self).session_sites_cleared(
                    &*old(self),
                    clearing,
                    sites@,
                    domains@,
                ),
                WebStorageType::Local => final(self).local_sites_cleared(
                    &*old(self),
                    clearing,
                    sites@,
                    domains@,
                ),
            },
    {
        match storage_type {
            WebStorageType::Session => self.clear_session_data_for_sites(sites, domains),
            WebStorageType::Local => self.clear_local_data_for_sites(sites, domains),
        }
    }

    /// The origins of a kind of storage.
    pub fn origin_descriptors(&self, storage_type: WebStorageType) -> (descriptors: Vec<
        OriginDescriptor,
    >)
        ensures
            descriptors@ == match storage_type {
                WebStorageType::Session => self.session_storage_origins.origin_descriptors@,
                WebStorageType::Local => self.local_storage_origins.origin_descriptors@,
            },
    {
        match storage_type {
            WebStorageType::Session => self.session_storage_origins.descriptors(),
            WebStorageType::Local => self.local_storage_origins.descriptors(),
        }
    }

    /// Lists a local origin again whose directory could not be removed.
    pub fn keep_local_origin(&mut self, origin: &String)
        requires
            old(self).wf(),
        ensures
            final(self).wf(),
            final(self).same_but_local(&*old(self)),
            final(self).environments == old(self).environments,
            final(self).local_storage_origins@ == with_origin(
                old(self).local_storage_origins@,
                origin@,
            ),
    {
        self.local_storage_origins.ensure_origin_descriptor(origin);
    }

    /// Clears the session data of sites. `domains` holds the registered domain of each listed
    /// session origin, if it has one.
    fn clear_session_data_for_sites(
        &mut self,
        sites: &Vec<String>,
        domains: &Vec<Option<String>>,
    ) -> (clearing: SiteClearing)
        requires
            old(self).wf(),
            domains.len() == old(self).session_storage_origins.origin_descriptors.len(),
        ensures
            final(self).wf(),
            final(self).session_sites_cleared(&*old(self), clearing, sites@, domains@),
    {
        let origins = self.session_storage_origins.take_origins_for_sites(sites, domains);
        let mut failures: Vec<EngineFailure> = Vec::new();
        if !self.use_engine_for_session {
            self.session_data.take_origins(&origins);
            return SiteClearing { failures, removals: Vec::new(), save_origins: false };
        }
        let ghost names = texts(origins@);
        let ghost before = self.session_environments@;
        let ghost stay = self.session_storage_origins@;
        let taken = self.session_environments.take_origins(&origins);
        let ghost all = taken@;
        proof {
            assert(without_origins(self.session_environments@, names) =~= without_origins(
                before,
                names,
            ));
            assert forall|j: int| 0 <= j < all.len() implies {
                &&& !self.session_environments@.contains_key((#[trigger] all[j]).key())
                &&& before.contains_key(all[j].key())
                &&& before[all[j].key()] == all[j].value
                &&& names.contains(all[j].origin@)
            } by {
                value_at_slot(all, j);
                assert(by_slot(all).contains_key(all[j].key()));
            }
        }
        for slot in it: taken
            invariant
                it.seq() == all,
                self.wf(),
                self.local_storage_origins == old(self).local_storage_origins,
                self.environments == old(self).environments,
                self.has_config_dir == old(self).has_config_dir,
                self.engine_factory == old(self).engine_factory,
                self.use_engine_for_session == old(self).use_engine_for_session,
                self.session_data == old(self).session_data,
                distinct(all),
                forall|j: int|
                    0 <= j < all.len() ==> before.contains_key((#[trigger] all[j]).key())
                        && before[all[j].key()] == all[j].value && names.contains(all[j].origin@),
                without_origins(self.session_environments@, names) == without_origins(before, names),
                forall|key: (u64, Seq<char>)| #[trigger]
                    self.session_environments@.contains_key(key) ==> before.contains_key(key),
                forall|j: int|
                    0 <= j < it.index() ==> is_settled(
                        (#[trigger] all[j]).key(),
                        all[j].value,
                        self.session_environments@,
                        failures@,
                    ),
                forall|j: int|
                    it.index() <= j < all.len() ==> !self.session_environments@.contains_key(
                        (#[trigger] all[j]).key(),
                    ),
                forall|i: int|
                    0 <= i < failures@.len() ==> names.contains((#[trigger] failures@[i]).origin@)
                        && is_kept_failure(before, self.session_environments@, failures@[i]),
                self.session_storage_origins@ == relisted(stay, failures@),
        {
            let ghost n = it.index();
            let ghost engine_before = slot.value;
            let ghost key = slot.key();
            assert(slot == all[n]);
            assert(key == (slot.webview, slot.origin@));
            let mut engine = slot.value;
            match engine.clear() {
                Ok(_) => {
                    assert(engine_before.may_end(EngineCall::Clear, None, engine));
                },
                Err(error) => {
                    let ghost held = self.session_environments@;
                    let ghost failed = failures@;
                    let failure = EngineFailure { origin: slot.origin.clone(), error };
                    self.session_storage_origins.ensure_origin_descriptor(&slot.origin);
                    self.session_environments.add_slot(slot.webview, slot.origin, engine);
                    failures.push(failure);
                    proof {
                        errors_grow(failed, failure);
                        let now = self.session_environments@;
                        assert(without_origins(now, names) =~= without_origins(held, names));
                        assert(failures@.drop_last() =~= failed);
                        assert(engine_before.may_end(EngineCall::Clear, Some(error@), now[key]));
                        assert(failed_with(failures@, key.1, error@));
                        assert(is_settled(key, engine_before, now, failures@));
                        assert forall|j: int| 0 <= j < n implies is_settled(
                            (#[trigger] all[j]).key(),
                            all[j].value,
                            now,
                            failures@,
                        ) by {
                            assert(all[j].key() != all[n].key());
                            assert(is_settled(all[j].key(), all[j].value, held, failed));
                            if held.contains_key(all[j].key()) {
                                let e = choose|e: Seq<char>| #[trigger]
                                    failed_with(failed, all[j].key().1, e)
                                        && all[j].value.may_end(
                                        EngineCall::Clear,
                                        Some(e),
                                        held[all[j].key()],
                                    );
                                assert(failed_with(failures@, all[j].key().1, e));
                            }
                        }
                        assert forall|j: int| n + 1 <= j < all.len() implies !now.contains_key(
                            (#[trigger] all[j]).key(),
                        ) by {
                            assert(all[n].key() != all[j].key());
                        }
                        assert forall|i: int| 0 <= i < failures@.len() implies names.contains(
                            (#[trigger] failures@[i]).origin@,
                        ) && is_kept_failure(before, now, failures@[i]) by {
                            if i < failed.len() {
                                assert(failures@[i] == failed[i]);
                                let w = choose|w: u64|
                                    {
                                        &&& #[trigger] held.contains_key((w, failed[i].origin@))
                                        &&& before.contains_key((w, failed[i].origin@))
                                        &&& before[(w, failed[i].origin@)].may_end(
                                            EngineCall::Clear,
                                            Some(failed[i].error@),
                                            held[(w, failed[i].origin@)],
                                        )
                                    };
                                assert(now.contains_key((w, failed[i].origin@)));
                                assert((w, failed[i].origin@) != key);
                            } else {
                                assert(now.contains_key((slot.webview, failure.origin@)));
                            }
                        }
                    }
                },
            }
        }
        proof {
            let after = self.session_environments@;
            assert forall|key: (u64, Seq<char>)| #[trigger] before.contains_key(key)
                && names.contains(key.1) implies is_settled(
                key,
                before[key],
                after,
                failures@,
            ) by {
                assert(by_slot(all).contains_key(key));
                let j = choose|j: int| slot_at(all, key, j);
                assert(slot_at(all, key, j));
                assert(all[j].key() == key);
            }
        }
        SiteClearing { failures, removals: Vec::new(), save_origins: false }
    }

    /// Clears the local data of sites. `domains` holds the registered domain of each listed local
    /// origin, if it has one.
    fn clear_local_data_for_sites(
        &mut self,
        sites: &Vec<String>,
        domains: &Vec<Option<String>>,
    ) -> (clearing: SiteClearing)
        requires
            old(self).wf(),
            domains.len() == old(self).local_storage_origins.origin_descriptors.len(),
        ensures
            final(self).wf(),
            final(self).local_sites_cleared(&*old(self), clearing, sites@, domains@),
    {
        let origins = self.local_storage_origins.take_origins_for_sites(sites, domains);
        let mut failures: Vec<EngineFailure> = Vec::new();
        let mut removals: Vec<OriginRemoval> = Vec::new();
        let ghost names = texts(origins@);
        let ghost stay = self.local_storage_origins@;
        let mut i: usize = 0;
        assert(names.take(0) =~= Seq::<Seq<char>>::empty());
        while i < origins.len()
            invariant
                i <= origins.len(),
                names == texts(origins@),
                names.no_duplicates(),
                self.wf(),
                self.same_but_local(&*old(self)),
                self.local_cleared(&*old(self), names.take(i as int), failures@, removals@),
                self.local_storage_origins@ == relisted(stay, failures@),
            decreases origins.len() - i,
        {
            let ghost done = names.take(i as int);
            let ghost now_done = names.take(i + 1);
            let ghost start = *self;
            let ghost mut engine_before: Option<E> = None;
            let ghost held = self.environments@;
            let ghost failed = failures@;
            let ghost removing = removals@;
            let origin = &origins[i];
            proof {
                assert(now_done =~= done.push(origin@));
                one_more_origin(names, i as int);
                assert(!done.contains(origin@));
                assert(held.contains_key(origin@) <==> old(self).environments@.contains_key(
                    origin@,
                ));
            }
            let result = match self.local_environment(origin) {
                Ok(k) => {
                    let ghost entries = self.environments.entries@;
                    proof {
                        engine_before = Some(entries[k as int].value);
                        assert(old(self).is_engine_of(
                            WebStorageType::Local,
                            0,
                            origin@,
                            entries[k as int].value,
                        ));
                    }
                    let result = self.environments.entries[k].value.clear();
                    proof {
                        replaced_name(entries, k as int, self.environments.entries@);
                    }
                    result
                },
                Err(error) => Err(error),
            };
            proof {
                assert(self.environments@.remove(origin@) =~= held.remove(origin@));
            }
            match result {
                Err(error) => {
                    self.local_storage_origins.ensure_origin_descriptor(origin);
                    let failure = EngineFailure { origin: origin.clone(), error };
                    failures.push(failure);
                    proof {
                        failures_grow(failed, failure);
                        assert(failures@.drop_last() =~= failed);
                        assert(self.local_clearing_fails(old(self), origin@, error));
                        assert forall|other: Seq<char>| #[trigger] has_failed(
                            failures@,
                            other,
                        ) implies other == origin@ || has_failed(failed, other) by {
                            let k = choose|k: int|
                                0 <= k < failures@.len() && (#[trigger] failures@[k]).origin@
                                    == other;
                            if k < failed.len() {
                                assert(failed[k].origin@ == other);
                            }
                        }
                    }
                },
                Ok(_) => {
                    proof {
                        assert(engine_before->0.may_end(
                            EngineCall::Clear,
                            None,
                            self.environments@[origin@],
                        ));
                        assert(old(self).local_was_cleared(origin@));
                    }
                    self.environments.remove(origin);
                    match get_origin_location(
                        self.has_config_dir,
                        WebStorageType::Local,
                        None,
                        origin,
                    ) {
                        Some(location) => {
                            removals.push(OriginRemoval { origin: origin.clone(), location });
                        },
                        None => {},
                    }
                    proof {
                        assert(self.environments@.remove(origin@) =~= held.remove(origin@));
                    }
                },
            }
            proof {
                let now = self.environments@;
                assert forall|other: Seq<char>| other != origin@ implies (
                #[trigger] now.contains_key(other) <==> held.contains_key(other)) && (
                held.contains_key(other) ==> now[other] == held[other]) by {
                    assert(now.remove(origin@).contains_key(other) <==> held.remove(
                        origin@,
                    ).contains_key(other));
                    if held.contains_key(other) {
                        assert(now.remove(origin@)[other] == held.remove(origin@)[other]);
                    }
                }
                if removals@.len() > removing.len() {
                    assert(removals@.drop_last() =~= removing);
                }
                removals_grow(removing, removals@);
                assert forall|k: int| 0 <= k < failures@.len() implies now_done.contains(
                    (#[trigger] failures@[k]).origin@,
                ) && self.local_clearing_fails(
                    old(self),
                    failures@[k].origin@,
                    failures@[k].error,
                ) by {
                    if k < failed.len() {
                        assert(failures@[k] == failed[k]);
                        assert(start.local_clearing_fails(
                            old(self),
                            failed[k].origin@,
                            failed[k].error,
                        ));
                        assert(failed[k].origin@ != origin@);
                    }
                }
            }
            i += 1;
        }
        assert(names.take(i as int) =~= names);
        SiteClearing { failures, removals, save_origins: true }
    }
}

/// One origin more.
proof fn one_more_origin(names: Seq<Seq<char>>, i: int)
    requires
        0 <= i < names.len(),
        names.no_duplicates(),
    ensures
        !names.take(i).contains(names[i]),
        forall|other: Seq<char>| #[trigger]
            names.take(i + 1).contains(other) <==> other == names[i] || names.take(i).contains(
                other,
            ),
{
    let done = names.take(i);
    let after = names.take(i + 1);
    assert forall|other: Seq<char>| #[trigger] after.contains(other) <==> other == names[i]
        || done.contains(other) by {
        if after.contains(other) {
            let k = choose|k: int| 0 <= k < after.len() && after[k] == other;
            if k < i {
                assert(done[k] == other);
            }
        }
        if done.contains(other) {
            let k = choose|k: int| 0 <= k < done.len() && done[k] == other;
            assert(after[k] == other);
        }
        assert(after[i] == names[i]);
    }
}

/// Directories stay to be removed, and only the last is new.
proof fn removals_grow(before: Seq<OriginRemoval>, after: Seq<OriginRemoval>)
    requires
        after == before || (after.len() == before.len() + 1 && after.drop_last() == before),
    ensures
        forall|origin: Seq<char>| #[trigger]
            removes(after, origin) <==> removes(before, origin) || (after.len() > before.len()
                && after.last().origin@ == origin),
{
    assert forall|origin: Seq<char>| #[trigger] removes(after, origin) <==> removes(before, origin)
        || (after.len() > before.len() && after.last().origin@ == origin) by {
        if removes(after, origin) {
            let k = choose|k: int| 0 <= k < after.len() && (#[trigger] after[k]).origin@ == origin;
            if k < before.len() {
                assert(before[k] == after[k]);
            }
        }
        if removes(before, origin) {
            let k = choose|k: int|
                0 <= k < before.len() && (#[trigger] before[k]).origin@ == origin;
            assert(before[k] == after[k]);
        }
        if after.len() > before.len() {
            assert(after[before.len() as int] == after.last());
        }
    }
}

} // verus!
