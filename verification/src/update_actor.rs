use vstd::prelude::*;
use crate::identifier::IndexUuid;
use crate::model::{UpdateMeta, UpdateStatus};
use crate::payload::PayloadChunk;
use crate::update_store::{
    finished, kept_after_start, log_wf, spec_enqueue, spec_finish, spec_payload, started,
    status_of, DrainedPayload, Outcome, UpdateLog, UpdateStep, UpdateStore,
};

verus! {

struct IndexUpdates {
    uuid: IndexUuid,
    store: UpdateStore,
}

spec fn kept_at(stores: Seq<IndexUpdates>, uuid: IndexUuid, i: int) -> bool {
    0 <= i < stores.len() && stores[i].uuid == uuid
}

spec fn distinct_uuids(stores: Seq<IndexUpdates>) -> bool {
    forall|i: int, j: int|
        0 <= i < j < stores.len() ==> (#[trigger] stores[i]).uuid != (#[trigger] stores[j]).uuid
}

spec fn all_wf(stores: Seq<IndexUpdates>) -> bool {
    forall|i: int| 0 <= i < stores.len() ==> (#[trigger] stores[i]).store.wf()
}

spec fn place_of(stores: Seq<IndexUpdates>, uuid: IndexUuid) -> int {
    choose|i: int| kept_at(stores, uuid, i)
}

proof fn lemma_place(stores: Seq<IndexUpdates>, uuid: IndexUuid, i: int)
    requires
        distinct_uuids(stores),
        kept_at(stores, uuid, i),
    ensures
        place_of(stores, uuid) == i,
{
    let c = place_of(stores, uuid);
    if c < i {
        assert(stores[c].uuid != stores[i].uuid);
    } else if i < c {
        assert(stores[i].uuid != stores[c].uuid);
    }
}

spec fn log_of(stores: Seq<IndexUpdates>, uuid: IndexUuid) -> UpdateLog {
    if exists|i: int| kept_at(stores, uuid, i) {
        stores[place_of(stores, uuid)].store@
    } else {
        UpdateLog::empty()
    }
}

spec fn payloads_of(stores: Seq<IndexUpdates>, uuid: IndexUuid) -> Seq<DrainedPayload> {
    if exists|i: int| kept_at(stores, uuid, i) {
        stores[place_of(stores, uuid)].store.payloads()
    } else {
        Seq::empty()
    }
}

/// A change to the store at `i` alone shows in the log of that store's index
/// and in no other.
proof fn lemma_store_changed(before: Seq<IndexUpdates>, after: Seq<IndexUpdates>, i: int)
    requires
        distinct_uuids(before),
        0 <= i < before.len(),
        after.len() == before.len(),
        after[i].uuid == before[i].uuid,
        forall|k: int| 0 <= k < before.len() && k != i ==> after[k] == before[k],
    ensures
        distinct_uuids(after),
        log_of(after, before[i].uuid) == after[i].store@,
        payloads_of(after, before[i].uuid) == after[i].store.payloads(),
        log_of(before, before[i].uuid) == before[i].store@,
        payloads_of(before, before[i].uuid) == before[i].store.payloads(),
        forall|other: IndexUuid|
            other != before[i].uuid ==> #[trigger] log_of(after, other) == log_of(before, other)
                && payloads_of(after, other) == payloads_of(before, other),
{
    assert forall|a: int, b: int| 0 <= a < b < after.len() implies (#[trigger] after[a]).uuid != (
    #[trigger] after[b]).uuid by {
        assert(before[a].uuid != before[b].uuid);
    }
    assert(kept_at(after, before[i].uuid, i));
    assert(kept_at(before, before[i].uuid, i));
    lemma_place(after, before[i].uuid, i);
    lemma_place(before, before[i].uuid, i);
    assert forall|other: IndexUuid| other != before[i].uuid implies #[trigger] log_of(after, other)
        == log_of(before, other) && payloads_of(after, other) == payloads_of(before, other) by {
        if exists|k: int| kept_at(before, other, k) {
            let k = place_of(before, other);
            assert(kept_at(after, other, k));
            lemma_place(after, other, k);
        } else if exists|k: int| kept_at(after, other, k) {
            let k = place_of(after, other);
            assert(kept_at(before, other, k));
        }
    }
}

/// A store added for an index that had none shows as that index's log and
/// changes no other.
proof fn lemma_store_added(before: Seq<IndexUpdates>, added: IndexUpdates)
    requires
        distinct_uuids(before),
        !(exists|k: int| kept_at(before, added.uuid, k)),
    ensures
        distinct_uuids(before.push(added)),
        log_of(before.push(added), added.uuid) == added.store@,
        payloads_of(before.push(added), added.uuid) == added.store.payloads(),
        forall|other: IndexUuid|
            other != added.uuid ==> #[trigger] log_of(before.push(added), other) == log_of(
                before,
                other,
            ) && payloads_of(before.push(added), other) == payloads_of(before, other),
{
    let after = before.push(added);
    let last = before.len() as int;
    assert forall|a: int, b: int| 0 <= a < b < after.len() implies (#[trigger] after[a]).uuid != (
    #[trigger] after[b]).uuid by {
        if b == last {
            if after[a].uuid == added.uuid {
                assert(kept_at(before, added.uuid, a));
            }
        } else {
            assert(before[a].uuid != before[b].uuid);
        }
    }
    assert(kept_at(after, added.uuid, last));
    lemma_place(after, added.uuid, last);
    assert forall|other: IndexUuid| other != added.uuid implies #[trigger] log_of(after, other)
        == log_of(before, other) && payloads_of(after, other) == payloads_of(before, other) by {
        if exists|k: int| kept_at(before, other, k) {
            let k = place_of(before, other);
            assert(kept_at(after, other, k));
            lemma_place(after, other, k);
        } else if exists|k: int| kept_at(after, other, k) {
            let k = place_of(after, other);
            assert(kept_at(before, other, k));
        }
    }
}

/// The queues and status logs of all indexes. Updates of one index are
/// started one at a time, in the order in which they were accepted.
pub struct UpdateActor {
    stores: Vec<IndexUpdates>,
}

impl UpdateActor {
    /// No index has two stores, and each store is well formed.
    pub closed spec fn wf(&self) -> bool {
        distinct_uuids(self.stores@) && all_wf(self.stores@)
    }

    /// The status log of the index `uuid`; empty for an index that no update
    /// was submitted to.
    pub closed spec fn log(&self, uuid: IndexUuid) -> UpdateLog {
        log_of(self.stores@, uuid)
    }

    /// The payloads kept for the updates of the index `uuid`, one for each
    /// update of its log.
    pub closed spec fn payloads(&self, uuid: IndexUuid) -> Seq<DrainedPayload> {
        payloads_of(self.stores@, uuid)
    }

    /// Every log of a well-formed actor has the actor's shape.
    pub proof fn lemma_wf(&self, uuid: IndexUuid)
        requires
            self.wf(),
        ensures
            log_wf(self.log(uuid)),
            self.payloads(uuid).len() == self.log(uuid).len(),
    {
        if exists|i: int| kept_at(self.stores@, uuid, i) {
            let i = place_of(self.stores@, uuid);
            self.stores@[i].store.lemma_wf();
        }
    }

    /// An actor that no update was submitted to.
    pub fn new() -> (actor: Self)
        ensures
            actor.wf(),
            forall|uuid: IndexUuid| #[trigger] actor.log(uuid) == UpdateLog::empty(),
            forall|uuid: IndexUuid| #[trigger]
                actor.payloads(uuid) == Seq::<DrainedPayload>::empty(),
    {
        UpdateActor { stores: Vec::new() }
    }

    fn position(&self, uuid: IndexUuid) -> (found: Option<usize>)
        requires
            self.wf(),
        ensures
            match found {
                Some(i) => kept_at(self.stores@, uuid, i as int) && self.log(uuid)
                    == self.stores@[i as int].store@ && self.payloads(uuid)
                    == self.stores@[i as int].store.payloads(),
                None => !(exists|i: int| kept_at(self.stores@, uuid, i)) && self.log(uuid)
                    == UpdateLog::empty(),
            },
    {
        let mut i: usize = 0;
        while i < self.stores.len()
            invariant
                i <= self.stores.len(),
                self.wf(),
                forall|k: int| 0 <= k < i ==> !kept_at(self.stores@, uuid, k),
            decreases self.stores.len() - i,
        {
            if self.stores[i].uuid == uuid {
                proof {
                    lemma_place(self.stores@, uuid, i as int);
                }
                return Some(i);
            }
            i += 1;
        }
        None
    }

    /// Registers an update of the index `uuid`: it is appended to the log of
    /// that index as `Enqueued`, with the next id of that index, and its
    /// payload is read to its end and kept. No other index is touched.
    pub fn update(&mut self, meta: UpdateMeta, payload: Vec<PayloadChunk>, uuid: IndexUuid) -> (status:
        UpdateStatus)
        requires
            old(self).wf(),
        ensures
            final(self).wf(),
            final(self).log(uuid) == spec_enqueue(old(self).log(uuid), meta),
            final(self).payloads(uuid) == old(self).payloads(uuid).push(
                spec_payload(meta, payload@),
            ),
            status == final(self).log(uuid).last(),
            forall|other: IndexUuid|
                other != uuid ==> #[trigger] final(self).log(other) == old(self).log(other),
            forall|other: IndexUuid|
                other != uuid ==> #[trigger] final(self).payloads(other) == old(self).payloads(
                    other,
                ),
    {
        let i = self.slot(uuid);
        let ghost ready = *self;
        let status = self.stores[i].store.enqueue(meta, payload);
        proof {
            lemma_store_changed(ready.stores@, self.stores@, i as int);
            assert(ready.log(uuid) == old(self).log(uuid));
            assert(ready.payloads(uuid) == old(self).payloads(uuid));
            assert forall|other: IndexUuid| other != uuid implies #[trigger] self.log(other)
                == old(self).log(other) by {
                assert(ready.log(other) == old(self).log(other));
                assert(log_of(self.stores@, other) == log_of(ready.stores@, other));
            }
            assert forall|other: IndexUuid| other != uuid implies #[trigger] self.payloads(other)
                == old(self).payloads(other) by {
                assert(ready.payloads(other) == old(self).payloads(other));
                assert(log_of(self.stores@, other) == log_of(ready.stores@, other));
            }
        }
        status
    }

    /// Starts the oldest enqueued update of the index `uuid` unless one is in
    /// flight for that index. No other index is touched.
    pub fn start_next(&mut self, uuid: IndexUuid) -> (step: UpdateStep)
        requires
            old(self).wf(),
        ensures
            final(self).wf(),
            started(old(self).log(uuid), old(self).payloads(uuid), final(self).log(uuid), step),
            final(self).payloads(uuid) == kept_after_start(
                old(self).log(uuid),
                old(self).payloads(uuid),
            ),
            forall|other: IndexUuid|
                other != uuid ==> #[trigger] final(self).log(other) == old(self).log(other),
            forall|other: IndexUuid|
                other != uuid ==> #[trigger] final(self).payloads(other) == old(self).payloads(
                    other,
                ),
    {
        match self.position(uuid) {
            None => {
                proof {
                    crate::update_store::lemma_settled_exists(UpdateLog::empty());
                }
                UpdateStep::Idle
            },
            Some(i) => {
                let ghost before = self.stores@;
                let step = self.stores[i].store.start_next();
                proof {
                    lemma_store_changed(before, self.stores@, i as int);
                    assert forall|other: IndexUuid| other != uuid implies #[trigger] self.log(other)
                        == old(self).log(other) by {
                        assert(log_of(self.stores@, other) == log_of(before, other));
                    }
                    assert forall|other: IndexUuid| other != uuid implies #[trigger] self.payloads(
                        other,
                    ) == old(self).payloads(other) by {
                        assert(log_of(self.stores@, other) == log_of(before, other));
                    }
                }
                step
            },
        }
    }

    /// Ends the update of the index `uuid` that is in flight on `outcome`
    /// and answers its terminal status; answers nothing, and changes nothing,
    /// when none is in flight. No other index is touched.
    pub fn finish(&mut self, uuid: IndexUuid, outcome: Outcome) -> (status: Option<UpdateStatus>)
        requires
            old(self).wf(),
        ensures
            final(self).wf(),
            final(self).log(uuid) == spec_finish(old(self).log(uuid), outcome),
            status == finished(old(self).log(uuid), outcome),
            forall|any: IndexUuid| #[trigger]
                final(self).payloads(any) == old(self).payloads(any),
            forall|other: IndexUuid|
                other != uuid ==> #[trigger] final(self).log(other) == old(self).log(other),
    {
        match self.position(uuid) {
            None => {
                proof {
                    crate::update_store::lemma_settled_exists(UpdateLog::empty());
                }
                None
            },
            Some(i) => {
                let ghost before = self.stores@;
                let status = self.stores[i].store.finish(outcome);
                proof {
                    lemma_store_changed(before, self.stores@, i as int);
                    assert forall|other: IndexUuid| other != uuid implies #[trigger] self.log(other)
                        == old(self).log(other) by {
                        assert(log_of(self.stores@, other) == log_of(before, other));
                    }
                    assert forall|any: IndexUuid| #[trigger]
                        self.payloads(any) == old(self).payloads(any) by {
                        if any != uuid {
                            assert(log_of(self.stores@, any) == log_of(before, any));
                        }
                    }
                }
                status
            },
        }
    }

    /// The status of the update of the index `uuid` with the given id, if
    /// there is one.
    pub fn update_status(&self, uuid: IndexUuid, update_id: u64) -> (status: Option<UpdateStatus>)
        requires
            self.wf(),
        ensures
            status == status_of(self.log(uuid), update_id),
    {
        match self.position(uuid) {
            None => None,
            Some(i) => self.stores[i].store.status(update_id),
        }
    }

    /// The statuses of all updates of the index `uuid`, in the order of their
    /// acceptance.
    pub fn all_update_status(&self, uuid: IndexUuid) -> (all: Vec<UpdateStatus>)
        requires
            self.wf(),
        ensures
            all@ == self.log(uuid),
    {
        match self.position(uuid) {
            None => Vec::new(),
            Some(i) => self.stores[i].store.all(),
        }
    }

    /// The place of the store of `uuid`; an index that has none is first
    /// given an empty one.
    fn slot(&mut self, uuid: IndexUuid) -> (i: usize)
        requires
            old(self).wf(),
        ensures
            final(self).wf(),
            kept_at(final(self).stores@, uuid, i as int),
            forall|any: IndexUuid| #[trigger] final(self).log(any) == old(self).log(any),
            forall|any: IndexUuid| #[trigger]
                final(self).payloads(any) == old(self).payloads(any),
    {
        match self.position(uuid) {
            Some(i) => i,
            None => {
                let added = IndexUpdates { uuid, store: UpdateStore::new() };
                let ghost before = self.stores@;
                self.stores.push(added);
                proof {
                    lemma_store_added(before, added);
                    assert forall|any: IndexUuid| #[trigger]
                        self.log(any) == old(self).log(any) by {
                        if any != uuid {
                            assert(log_of(self.stores@, any) == log_of(before, any));
                        }
                    }
                    assert forall|any: IndexUuid| #[trigger]
                        self.payloads(any) == old(self).payloads(any) by {
                        if any != uuid {
                            assert(log_of(self.stores@, any) == log_of(before, any));
                        }
                    }
                }
                self.stores.len() - 1
            },
        }
    }
}

} // verus!
