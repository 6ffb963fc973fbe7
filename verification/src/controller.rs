use vstd::prelude::*;
use crate::clock::{now, Timestamp};
use crate::error::ErrorKind;
use crate::identifier::{is_random_uuid, IndexUuid};
use crate::index_actor::{
    new_metadata, spec_create_index, spec_index_meta, spec_list, spec_record_update, IndexActor,
    IndexTable,
};
use crate::model::{
    Facets, IndexDocumentsMethod, IndexMetadata, IndexSettings, Settings, UpdateFormat, UpdateMeta,
    UpdateStatus,
};
use crate::payload::{forward, lemma_drained_forwarded, PayloadChunk};
use crate::update_actor::UpdateActor;
use crate::update_store::{
    finished, kept_after_start, log_wf, spec_enqueue, spec_finish, spec_payload, started,
    status_of, DrainedPayload, Outcome, UpdateLog, UpdateStep,
};
use crate::uuid_resolver::{
    spec_create, spec_get_or_create, spec_resolve, NameTable, UuidResolver,
};

verus! {

/// What `get_index` answers where the names are bound as in `names` and the
/// live indexes are `indexes`.
pub open spec fn spec_get_index(names: NameTable, indexes: IndexTable, name: Seq<char>) -> Result<
    IndexMetadata,
    ErrorKind,
> {
    if names.contains_key(name) {
        spec_index_meta(indexes, names[name])
    } else {
        Err(ErrorKind::NotFound)
    }
}

/// What `search` answers where the names are bound as in `names` and the live
/// indexes are `indexes`: the uuid of the index on whose engine instance the
/// query runs.
pub open spec fn spec_search_target(names: NameTable, indexes: IndexTable, name: Seq<char>) -> Result<
    IndexUuid,
    ErrorKind,
> {
    if names.contains_key(name) && indexes.contains_key(names[name]) {
        Ok(names[name])
    } else {
        Err(ErrorKind::NotFound)
    }
}

/// The names, the live indexes and the answer after `create_index` on
/// `settings`, where `drawn` is the uuid that is drawn for the name and `now`
/// the time at which the index is created.
pub open spec fn spec_create_named(
    names: NameTable,
    indexes: IndexTable,
    settings: IndexSettings,
    drawn: IndexUuid,
    now: Timestamp,
) -> (NameTable, IndexTable, Result<IndexMetadata, ErrorKind>) {
    match settings.name {
        None => (names, indexes, Err(ErrorKind::MissingName)),
        Some(name) => if names.contains_key(name@) {
            (names, indexes, Err(ErrorKind::AlreadyExists))
        } else {
            let (indexes_after, created) = spec_create_index(
                indexes,
                drawn,
                settings.primary_key,
                now,
            );
            (names.insert(name@, drawn), indexes_after, created)
        },
    }
}

/// The live indexes after `finish_update` at the time `now` on the index
/// `uuid` with the log `log`: where an update was in flight and has ended
/// in success, the index shows `now` as the time of its last update.
pub open spec fn spec_indexes_after_finish(
    log: UpdateLog,
    indexes: IndexTable,
    uuid: IndexUuid,
    outcome: Outcome,
    now: Timestamp,
) -> IndexTable {
    if finished(log, outcome) is Some && outcome is Ok {
        spec_record_update(indexes, uuid, now)
    } else {
        indexes
    }
}

/// The facade that the transport layer talks to. It resolves index names,
/// hands updates and their payloads to the update actor and reads from the
/// index actor.
pub struct IndexController {
    uuid_resolver: UuidResolver,
    index_actor: IndexActor,
    update_actor: UpdateActor,
}

impl IndexController {
    /// Each of the three components is well formed.
    pub closed spec fn wf(&self) -> bool {
        self.uuid_resolver.wf() && self.index_actor.wf() && self.update_actor.wf()
    }

    /// The table from index names to uuids.
    pub closed spec fn names(&self) -> NameTable {
        self.uuid_resolver@
    }

    /// The live indexes by their uuid.
    pub closed spec fn indexes(&self) -> IndexTable {
        self.index_actor@
    }

    /// The uuids of the live indexes in the order of their creation.
    pub closed spec fn index_order(&self) -> Seq<IndexUuid> {
        self.index_actor.order()
    }

    /// The status log of the index `uuid`.
    pub closed spec fn log(&self, uuid: IndexUuid) -> UpdateLog {
        self.update_actor.log(uuid)
    }

    /// The payloads kept for the updates of the index `uuid`.
    pub closed spec fn payloads(&self, uuid: IndexUuid) -> Seq<DrainedPayload> {
        self.update_actor.payloads(uuid)
    }

    /// No step of the update actor has changed the log of an index other
    /// than `uuid`, nor a payload kept for one.
    pub open spec fn others_kept(&self, before: &Self, uuid: IndexUuid) -> bool {
        &&& forall|other: IndexUuid|
            other != uuid ==> #[trigger] self.log(other) == before.log(other)
        &&& forall|other: IndexUuid|
            other != uuid ==> #[trigger] self.payloads(other) == before.payloads(other)
    }

    /// What a submission of `meta` with `payload` to the index named `index`
    /// leaves: the name bound, the update appended to the log of its index
    /// with its payload kept, and everything else as it was.
    pub open spec fn submitted(
        &self,
        before: &Self,
        index: Seq<char>,
        meta: UpdateMeta,
        payload: Seq<PayloadChunk>,
        status: UpdateStatus,
    ) -> bool {
        &&& self.names().contains_key(index)
        &&& (self.names(), self.names()[index]) == spec_get_or_create(
            before.names(),
            index,
            self.names()[index],
        )
        &&& !before.names().contains_key(index) ==> is_random_uuid(self.names()[index].value)
        &&& self.indexes() == before.indexes()
        &&& self.index_order() == before.index_order()
        &&& self.log(self.names()[index]) == spec_enqueue(before.log(self.names()[index]), meta)
        &&& self.payloads(self.names()[index]) == before.payloads(self.names()[index]).push(
            spec_payload(meta, payload),
        )
        &&& status == self.log(self.names()[index]).last()
        &&& self.others_kept(before, self.names()[index])
    }

    /// What `create_index` leaves and answers on `settings`. The logs and the
    /// kept payloads stay as they were.
    pub open spec fn created(
        &self,
        before: &Self,
        settings: IndexSettings,
        result: Result<IndexMetadata, ErrorKind>,
    ) -> bool {
        &&& forall|uuid: IndexUuid| #[trigger] self.log(uuid) == before.log(uuid)
        &&& forall|uuid: IndexUuid| #[trigger] self.payloads(uuid) == before.payloads(uuid)
        &&& match settings.name {
            None => {
                &&& result == Err::<IndexMetadata, ErrorKind>(ErrorKind::MissingName)
                &&& self.names() == before.names()
                &&& self.indexes() == before.indexes()
                &&& self.index_order() == before.index_order()
            },
            Some(name) => if before.names().contains_key(name@) {
                &&& result == Err::<IndexMetadata, ErrorKind>(ErrorKind::AlreadyExists)
                &&& self.names() == before.names()
                &&& self.indexes() == before.indexes()
                &&& self.index_order() == before.index_order()
            } else {
                &&& self.index_order() == if result is Ok {
                    before.index_order().push(self.names()[name@])
                } else {
                    before.index_order()
                }
                &&& self.names().contains_key(name@)
                &&& is_random_uuid(self.names()[name@].value)
                &&& self.names() == before.names().insert(name@, self.names()[name@])
                &&& result is Ok <==> !before.indexes().contains_key(self.names()[name@])
                &&& result matches Ok(metadata) ==> (self.indexes(), result) == spec_create_index(
                    before.indexes(),
                    self.names()[name@],
                    settings.primary_key,
                    metadata.created_at,
                )
                &&& result matches Err(kind) ==> kind == ErrorKind::AlreadyExists
                    && self.indexes() == before.indexes()
            },
        }
    }

    /// Every log of a well-formed controller has the update actor's shape.
    pub proof fn lemma_wf(&self, uuid: IndexUuid)
        requires
            self.wf(),
        ensures
            log_wf(self.log(uuid)),
            self.payloads(uuid).len() == self.log(uuid).len(),
    {
        self.update_actor.lemma_wf(uuid);
    }

    /// A controller without names, indexes or updates.
    pub fn new() -> (controller: Self)
        ensures
            controller.wf(),
            controller.names() == NameTable::empty(),
            controller.indexes() == IndexTable::empty(),
            controller.index_order() == Seq::<IndexUuid>::empty(),
            forall|uuid: IndexUuid| #[trigger] controller.log(uuid) == UpdateLog::empty(),
            forall|uuid: IndexUuid| #[trigger]
                controller.payloads(uuid) == Seq::<DrainedPayload>::empty(),
    {
        let uuid_resolver = UuidResolver::new();
        let index_actor = IndexActor::new();
        let update_actor = UpdateActor::new();
        IndexController { uuid_resolver, index_actor, update_actor }
    }

    fn submit(&mut self, index: String, meta: UpdateMeta, payload: Vec<PayloadChunk>) -> (status:
        UpdateStatus)
        requires
            old(self).wf(),
        ensures
            final(self).wf(),
            final(self).submitted(old(self), index@, meta, payload@, status),
    {
        let uuid = self.uuid_resolver.get_or_create(index);
        proof {
            lemma_drained_forwarded(payload@);
        }
        let channel = forward(payload);
        let status = self.update_actor.update(meta, channel, uuid);
        status
    }

    /// Submits an addition of documents to the index named `index`. The name
    /// is bound to a new uuid if it is not bound yet. The payload is forwarded
    /// to the update actor up to its end or its first error, and the update
    /// is registered as `Enqueued`.
    pub fn add_documents(
        &mut self,
        index: String,
        method: IndexDocumentsMethod,
        format: UpdateFormat,
        payload: Vec<PayloadChunk>,
        primary_key: Option<String>,
    ) -> (result: Result<UpdateStatus, ErrorKind>)
        requires
            old(self).wf(),
        ensures
            final(self).wf(),
            result matches Ok(status) && final(self).submitted(
                old(self),
                index@,
                (UpdateMeta::DocumentsAddition { method, format, primary_key }),
                payload@,
                status,
            ),
    {
        let meta = UpdateMeta::DocumentsAddition { method, format, primary_key };
        Ok(self.submit(index, meta, payload))
    }

    /// Submits the removal of all documents of the index named `index`.
    pub fn clear_documents(&mut self, index: String) -> (result: Result<UpdateStatus, ErrorKind>)
        requires
            old(self).wf(),
        ensures
            final(self).wf(),
            result matches Ok(status) && final(self).submitted(
                old(self),
                index@,
                UpdateMeta::ClearDocuments,
                Seq::empty(),
                status,
            ),
    {
        Ok(self.submit(index, UpdateMeta::ClearDocuments, Vec::new()))
    }

    /// Submits new settings for the index named `index_uid`.
    pub fn update_settings(&mut self, index_uid: String, settings: Settings) -> (result: Result<
        UpdateStatus,
        ErrorKind,
    >)
        requires
            old(self).wf(),
        ensures
            final(self).wf(),
            result matches Ok(status) && final(self).submitted(
                old(self),
                index_uid@,
                UpdateMeta::Settings(settings),
                Seq::empty(),
                status,
            ),
    {
        Ok(self.submit(index_uid, UpdateMeta::Settings(settings), Vec::new()))
    }

    /// Submits new facet parameters for the index named `index_uid`.
    pub fn update_facets(&mut self, index_uid: String, facets: Facets) -> (result: Result<
        UpdateStatus,
        ErrorKind,
    >)
        requires
            old(self).wf(),
        ensures
            final(self).wf(),
            result matches Ok(status) && final(self).submitted(
                old(self),
                index_uid@,
                UpdateMeta::Facets(facets),
                Seq::empty(),
                status,
            ),
    {
        Ok(self.submit(index_uid, UpdateMeta::Facets(facets), Vec::new()))
    }

    /// A stub: the removal of single documents is not implemented.
    pub fn delete_documents(&self, index: String, document_ids: Vec<String>) -> (result: Result<
        UpdateStatus,
        ErrorKind,
    >)
        ensures
            result == Err::<UpdateStatus, ErrorKind>(ErrorKind::Unimplemented),
    {
        Err(ErrorKind::Unimplemented)
    }

    /// Creates the index that `index_settings` names. Settings without a name
    /// are refused with `MissingName`, a name that is bound already with
    /// `AlreadyExists`. Else the name is bound to a uuid drawn at random and
    /// the index actor creates the index of that uuid; if it has a live index
    /// of that uuid already, it answers `AlreadyExists` and the name stays
    /// bound.
    pub fn create_index(&mut self, index_settings: IndexSettings) -> (result: Result<
        IndexMetadata,
        ErrorKind,
    >)
        requires
            old(self).wf(),
        ensures
            final(self).wf(),
            final(self).created(old(self), index_settings, result),
    {
        let IndexSettings { name, primary_key } = index_settings;
        let name = match name {
            Some(name) => name,
            None => {
                return Err(ErrorKind::MissingName);
            },
        };
        let uuid = match self.uuid_resolver.create(name) {
            Ok(uuid) => uuid,
            Err(kind) => {
                return Err(kind);
            },
        };
        self.index_actor.create_index(uuid, primary_key)
    }

    /// Creates the index that `index_settings` names as `create_index` does,
    /// with `drawn` as the uuid for the name and `now` as the time of the
    /// creation.
    pub fn create_index_with(
        &mut self,
        index_settings: IndexSettings,
        drawn: IndexUuid,
        now: Timestamp,
    ) -> (result: Result<IndexMetadata, ErrorKind>)
        requires
            old(self).wf(),
        ensures
            final(self).wf(),
            (final(self).names(), final(self).indexes(), result) == spec_create_named(
                old(self).names(),
                old(self).indexes(),
                index_settings,
                drawn,
                now,
            ),
            final(self).index_order() == if result is Ok {
                old(self).index_order().push(drawn)
            } else {
                old(self).index_order()
            },
            forall|uuid: IndexUuid| #[trigger] final(self).log(uuid) == old(self).log(uuid),
            forall|uuid: IndexUuid| #[trigger]
                final(self).payloads(uuid) == old(self).payloads(uuid),
    {
        let IndexSettings { name, primary_key } = index_settings;
        let name = match name {
            Some(name) => name,
            None => {
                return Err(ErrorKind::MissingName);
            },
        };
        let uuid = match self.uuid_resolver.bind(name, drawn) {
            Ok(uuid) => uuid,
            Err(kind) => {
                return Err(kind);
            },
        };
        self.index_actor.create_index_at(uuid, primary_key, now)
    }

    /// The metadata of the index named `name`; `NotFound` where the name is
    /// not bound or no index of its uuid is live.
    pub fn get_index(&self, name: &String) -> (result: Result<IndexMetadata, ErrorKind>)
        requires
            self.wf(),
        ensures
            result == spec_get_index(self.names(), self.indexes(), name@),
    {
        match self.uuid_resolver.resolve(name) {
            Some(uuid) => self.index_actor.index_meta(uuid),
            None => Err(ErrorKind::NotFound),
        }
    }

    /// The uuid of the live index named `name`, on whose engine instance a
    /// query is to run; `NotFound` where the name is not bound or no index of
    /// its uuid is live.
    pub fn search(&self, name: &String) -> (result: Result<IndexUuid, ErrorKind>)
        requires
            self.wf(),
        ensures
            result == spec_search_target(self.names(), self.indexes(), name@),
    {
        match self.uuid_resolver.resolve(name) {
            Some(uuid) => match self.index_actor.search(uuid) {
                Ok(()) => Ok(uuid),
                Err(kind) => Err(kind),
            },
            None => Err(ErrorKind::NotFound),
        }
    }

    /// The uuid of the live index named `name`, if there is one.
    pub fn index(&self, name: &String) -> (result: Result<Option<IndexUuid>, ErrorKind>)
        requires
            self.wf(),
        ensures
            result == Ok::<Option<IndexUuid>, ErrorKind>(
                match spec_search_target(self.names(), self.indexes(), name@) {
                    Ok(uuid) => Some(uuid),
                    Err(_) => None,
                },
            ),
    {
        match self.search(name) {
            Ok(uuid) => Ok(Some(uuid)),
            Err(_) => Ok(None),
        }
    }

    /// The metadata of every live index, each index once, in the order of
    /// their creation.
    pub fn list_indexes(&self) -> (result: Result<Vec<IndexMetadata>, ErrorKind>)
        requires
            self.wf(),
        ensures
            result matches Ok(all) && all@ == spec_list(self.indexes(), self.index_order()),
    {
        Ok(self.index_actor.list())
    }

    /// A stub: changing an index is not implemented.
    pub fn update_index(&self, name: String, index_settings: IndexSettings) -> (result: Result<
        IndexMetadata,
        ErrorKind,
    >)
        ensures
            result == Err::<IndexMetadata, ErrorKind>(ErrorKind::Unimplemented),
    {
        Err(ErrorKind::Unimplemented)
    }

    /// A stub: deleting an index is not implemented.
    pub fn delete_index(&self, index_uid: String) -> (result: Result<(), ErrorKind>)
        ensures
            result == Err::<(), ErrorKind>(ErrorKind::Unimplemented),
    {
        Err(ErrorKind::Unimplemented)
    }

    /// A stub: swapping two indexes is not implemented.
    pub fn swap_indices(&self, index1_uid: String, index2_uid: String) -> (result: Result<
        (),
        ErrorKind,
    >)
        ensures
            result == Err::<(), ErrorKind>(ErrorKind::Unimplemented),
    {
        Err(ErrorKind::Unimplemented)
    }

    /// The status of the update with the given id of the index named `index`;
    /// nothing where the name is not bound or the index has no such update.
    pub fn update_status(&self, index: &String, id: u64) -> (result: Result<
        Option<UpdateStatus>,
        ErrorKind,
    >)
        requires
            self.wf(),
        ensures
            result == Ok::<Option<UpdateStatus>, ErrorKind>(
                match spec_resolve(self.names(), index@) {
                    Some(uuid) => status_of(self.log(uuid), id),
                    None => None,
                },
            ),
    {
        match self.uuid_resolver.resolve(index) {
            Some(uuid) => Ok(self.update_actor.update_status(uuid, id)),
            None => Ok(None),
        }
    }

    /// The statuses of all updates of the index named `index`, in the order
    /// in which they were accepted; none where the name is not bound.
    pub fn all_update_status(&self, index: &String) -> (result: Result<Vec<UpdateStatus>, ErrorKind>)
        requires
            self.wf(),
        ensures
            result matches Ok(all) && all@ == (match spec_resolve(self.names(), index@) {
                Some(uuid) => self.log(uuid),
                None => UpdateLog::empty(),
            }),
    {
        match self.uuid_resolver.resolve(index) {
            Some(uuid) => Ok(self.update_actor.all_update_status(uuid)),
            None => Ok(Vec::new()),
        }
    }

    /// Starts the oldest enqueued update of the index named `index` unless
    /// one is in flight for it; `NotFound` where the name is not bound.
    pub fn process_next(&mut self, index: &String) -> (result: Result<UpdateStep, ErrorKind>)
        requires
            old(self).wf(),
        ensures
            final(self).wf(),
            final(self).names() == old(self).names(),
            final(self).indexes() == old(self).indexes(),
            final(self).index_order() == old(self).index_order(),
            match spec_resolve(old(self).names(), index@) {
                None => {
                    &&& result == Err::<UpdateStep, ErrorKind>(ErrorKind::NotFound)
                    &&& forall|uuid: IndexUuid| #[trigger]
                        final(self).log(uuid) == old(self).log(uuid)
                    &&& forall|uuid: IndexUuid| #[trigger]
                        final(self).payloads(uuid) == old(self).payloads(uuid)
                },
                Some(uuid) => {
                    &&& result matches Ok(step) && started(
                        old(self).log(uuid),
                        old(self).payloads(uuid),
                        final(self).log(uuid),
                        step,
                    )
                    &&& final(self).payloads(uuid) == kept_after_start(
                        old(self).log(uuid),
                        old(self).payloads(uuid),
                    )
                    &&& final(self).others_kept(old(self), uuid)
                },
            },
    {
        match self.uuid_resolver.resolve(index) {
            Some(uuid) => Ok(self.update_actor.start_next(uuid)),
            None => Err(ErrorKind::NotFound),
        }
    }

    /// Ends the update in flight of the index named `index` on `outcome` and
    /// answers its terminal status, if one was in flight. Where one was, the
    /// outcome is a success and the index is live, the index shows `now` as
    /// the time of its last update. `NotFound` where the name is not bound.
    pub fn finish_update_at(&mut self, index: &String, outcome: Outcome, now: Timestamp) -> (result:
        Result<Option<UpdateStatus>, ErrorKind>)
        requires
            old(self).wf(),
        ensures
            final(self).wf(),
            final(self).names() == old(self).names(),
            final(self).index_order() == old(self).index_order(),
            forall|uuid: IndexUuid| #[trigger]
                final(self).payloads(uuid) == old(self).payloads(uuid),
            match spec_resolve(old(self).names(), index@) {
                None => {
                    &&& result == Err::<Option<UpdateStatus>, ErrorKind>(ErrorKind::NotFound)
                    &&& final(self).indexes() == old(self).indexes()
                    &&& forall|uuid: IndexUuid| #[trigger]
                        final(self).log(uuid) == old(self).log(uuid)
                },
                Some(uuid) => {
                    &&& result == Ok::<Option<UpdateStatus>, ErrorKind>(
                        finished(old(self).log(uuid), outcome),
                    )
                    &&& final(self).log(uuid) == spec_finish(old(self).log(uuid), outcome)
                    &&& forall|other: IndexUuid|
                        other != uuid ==> #[trigger] final(self).log(other) == old(self).log(
                            other,
                        )
                    &&& final(self).indexes() == spec_indexes_after_finish(
                        old(self).log(uuid),
                        old(self).indexes(),
                        uuid,
                        outcome,
                        now,
                    )
                },
            },
    {
        let uuid = match self.uuid_resolver.resolve(index) {
            Some(uuid) => uuid,
            None => {
                return Err(ErrorKind::NotFound);
            },
        };
        let succeeded = outcome.is_ok();
        let status = self.update_actor.finish(uuid, outcome);
        if status.is_some() && succeeded {
            let _ = self.index_actor.record_update_at(uuid, now);
        }
        Ok(status)
    }

    /// Ends the update in flight of the index named `index` on `outcome` as
    /// `finish_update_at` does at the current time: where an update was in
    /// flight, the outcome is a success and the index is live, the index
    /// shows the current time as the time of its last update.
    pub fn finish_update(&mut self, index: &String, outcome: Outcome) -> (result: Result<
        Option<UpdateStatus>,
        ErrorKind,
    >)
        requires
            old(self).wf(),
        ensures
            final(self).wf(),
            final(self).names() == old(self).names(),
            final(self).index_order() == old(self).index_order(),
            forall|uuid: IndexUuid| #[trigger]
                final(self).payloads(uuid) == old(self).payloads(uuid),
            match spec_resolve(old(self).names(), index@) {
                None => {
                    &&& result == Err::<Option<UpdateStatus>, ErrorKind>(ErrorKind::NotFound)
                    &&& final(self).indexes() == old(self).indexes()
                    &&& forall|uuid: IndexUuid| #[trigger]
                        final(self).log(uuid) == old(self).log(uuid)
                },
                Some(uuid) => {
                    &&& result == Ok::<Option<UpdateStatus>, ErrorKind>(
                        finished(old(self).log(uuid), outcome),
                    )
                    &&& final(self).log(uuid) == spec_finish(old(self).log(uuid), outcome)
                    &&& forall|other: IndexUuid|
                        other != uuid ==> #[trigger] final(self).log(other) == old(self).log(
                            other,
                        )
                    &&& if old(self).indexes().contains_key(uuid) {
                        final(self).indexes() == spec_indexes_after_finish(
                            old(self).log(uuid),
                            old(self).indexes(),
                            uuid,
                            outcome,
                            final(self).indexes()[uuid].updated_at,
                        )
                    } else {
                        final(self).indexes() == old(self).indexes()
                    }
                },
            },
    {
        let current = now();
        self.finish_update_at(index, outcome, current)
    }
}

/// An index that was created is found under its name, with the primary key
/// that it was created with: where `name` is not bound and no index of the
/// uuid `drawn` is live, `create_index` at the time `now` followed by
/// `get_index` answers the metadata of the new index.
pub proof fn lemma_create_then_get(
    names: NameTable,
    indexes: IndexTable,
    name_text: String,
    primary_key: Option<String>,
    drawn: IndexUuid,
    now: Timestamp,
)
    requires
        !names.contains_key(name_text@),
        !indexes.contains_key(drawn),
    ensures
        ({
            let name = name_text@;
            let (names_after, bound) = spec_create(names, name, drawn);
            let (indexes_after, created) = spec_create_index(indexes, drawn, primary_key, now);
            let found = spec_get_index(names_after, indexes_after, name);
            &&& bound == Ok::<IndexUuid, ErrorKind>(drawn)
            &&& created == Ok::<IndexMetadata, ErrorKind>(new_metadata(drawn, primary_key, now))
            &&& found == created
            &&& found->Ok_0.primary_key == primary_key
            &&& found->Ok_0.uuid == drawn
            &&& spec_search_target(names_after, indexes_after, name) == Ok::<IndexUuid, ErrorKind>(
                drawn,
            )
            &&& spec_create_named(
                names,
                indexes,
                (IndexSettings { name: Some(name_text), primary_key }),
                drawn,
                now,
            ) == (names_after, indexes_after, created)
        }),
{
}

/// A query on a name that is not bound fails with `NotFound`, and so does
/// every query on a controller that has just been made.
pub proof fn lemma_search_unknown(names: NameTable, indexes: IndexTable, name: Seq<char>)
    ensures
        !names.contains_key(name) ==> spec_search_target(names, indexes, name) == Err::<
            IndexUuid,
            ErrorKind,
        >(ErrorKind::NotFound),
        !names.contains_key(name) ==> spec_get_index(names, indexes, name) == Err::<
            IndexMetadata,
            ErrorKind,
        >(ErrorKind::NotFound),
        spec_search_target(NameTable::empty(), IndexTable::empty(), name) == Err::<
            IndexUuid,
            ErrorKind,
        >(ErrorKind::NotFound),
{
}

} // verus!
