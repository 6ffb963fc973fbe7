use vstd::prelude::*;
use crate::clock::{now, Timestamp};
use crate::error::ErrorKind;
use crate::identifier::IndexUuid;
use crate::model::{clone_optional_string, IndexMetadata};

verus! {

/// The live indexes by their uuid.
pub type IndexTable = Map<IndexUuid, IndexMetadata>;

/// The metadata of an index that is created at the time `now`.
pub open spec fn new_metadata(uuid: IndexUuid, primary_key: Option<String>, now: Timestamp) -> IndexMetadata {
    IndexMetadata { uuid, created_at: now, updated_at: now, primary_key }
}

/// The table and the answer after `create_index` at the time `now`. An index
/// that is live already is not created again: that is the error
/// `AlreadyExists`.
pub open spec fn spec_create_index(
    table: IndexTable,
    uuid: IndexUuid,
    primary_key: Option<String>,
    now: Timestamp,
) -> (IndexTable, Result<IndexMetadata, ErrorKind>) {
    if table.contains_key(uuid) {
        (table, Err(ErrorKind::AlreadyExists))
    } else {
        let metadata = new_metadata(uuid, primary_key, now);
        (table.insert(uuid, metadata), Ok(metadata))
    }
}

/// What `index_meta` answers on a table.
pub open spec fn spec_index_meta(table: IndexTable, uuid: IndexUuid) -> Result<
    IndexMetadata,
    ErrorKind,
> {
    if table.contains_key(uuid) {
        Ok(table[uuid])
    } else {
        Err(ErrorKind::NotFound)
    }
}

/// What `search` answers on a table.
pub open spec fn spec_search(table: IndexTable, uuid: IndexUuid) -> Result<(), ErrorKind> {
    if table.contains_key(uuid) {
        Ok(())
    } else {
        Err(ErrorKind::NotFound)
    }
}

/// The table after a mutation of the index `uuid` succeeded at the time
/// `now`: the index shows that time as the time of its last update.
pub open spec fn spec_record_update(table: IndexTable, uuid: IndexUuid, now: Timestamp) -> IndexTable {
    if table.contains_key(uuid) {
        table.insert(uuid, IndexMetadata { updated_at: now, ..table[uuid] })
    } else {
        table
    }
}

/// What `list` answers: the metadata of the live indexes in the order
/// `order`.
pub open spec fn spec_list(table: IndexTable, order: Seq<IndexUuid>) -> Seq<IndexMetadata> {
    order.map_values(|uuid: IndexUuid| table[uuid])
}

spec fn live_at(indexes: Seq<IndexMetadata>, uuid: IndexUuid, i: int) -> bool {
    0 <= i < indexes.len() && indexes[i].uuid == uuid
}

spec fn distinct_uuids(indexes: Seq<IndexMetadata>) -> bool {
    forall|i: int, j: int|
        0 <= i < j < indexes.len() ==> (#[trigger] indexes[i]).uuid != (#[trigger] indexes[j]).uuid
}

spec fn table_of(indexes: Seq<IndexMetadata>) -> IndexTable {
    Map::new(
        |uuid: IndexUuid| exists|i: int| live_at(indexes, uuid, i),
        |uuid: IndexUuid| indexes[choose|i: int| live_at(indexes, uuid, i)],
    )
}

proof fn lemma_table_lookup(indexes: Seq<IndexMetadata>, uuid: IndexUuid, i: int)
    requires
        distinct_uuids(indexes),
        live_at(indexes, uuid, i),
    ensures
        table_of(indexes).contains_key(uuid),
        table_of(indexes)[uuid] == indexes[i],
{
    let k = choose|k: int| live_at(indexes, uuid, k);
    if k < i {
        assert(indexes[k].uuid != indexes[i].uuid);
    } else if i < k {
        assert(indexes[i].uuid != indexes[k].uuid);
    }
}

proof fn lemma_table_push(indexes: Seq<IndexMetadata>, metadata: IndexMetadata)
    requires
        distinct_uuids(indexes),
        !table_of(indexes).contains_key(metadata.uuid),
    ensures
        distinct_uuids(indexes.push(metadata)),
        table_of(indexes.push(metadata)) == table_of(indexes).insert(metadata.uuid, metadata),
{
    let longer = indexes.push(metadata);
    let last = indexes.len() as int;
    assert forall|i: int, j: int| 0 <= i < j < longer.len() implies (#[trigger] longer[i]).uuid != (
    #[trigger] longer[j]).uuid by {
        if j == last {
            if longer[i].uuid == metadata.uuid {
                assert(live_at(indexes, metadata.uuid, i));
            }
        } else {
            assert(indexes[i].uuid != indexes[j].uuid);
        }
    }
    let grown = table_of(indexes).insert(metadata.uuid, metadata);
    assert forall|uuid: IndexUuid| table_of(longer).contains_key(uuid) <==> grown.contains_key(
        uuid,
    ) by {
        if table_of(longer).contains_key(uuid) {
            let i = choose|i: int| live_at(longer, uuid, i);
            if i < last {
                assert(live_at(indexes, uuid, i));
            }
        }
        if grown.contains_key(uuid) {
            if uuid == metadata.uuid {
                assert(live_at(longer, uuid, last));
            } else {
                let i = choose|i: int| live_at(indexes, uuid, i);
                assert(live_at(longer, uuid, i));
            }
        }
    }
    assert forall|uuid: IndexUuid| table_of(longer).contains_key(uuid) implies table_of(
        longer,
    )[uuid] == grown[uuid] by {
        if uuid == metadata.uuid {
            assert(live_at(longer, uuid, last));
            lemma_table_lookup(longer, uuid, last);
        } else {
            let i = choose|i: int| live_at(longer, uuid, i);
            assert(live_at(indexes, uuid, i));
            lemma_table_lookup(longer, uuid, i);
            lemma_table_lookup(indexes, uuid, i);
        }
    }
    assert(table_of(longer) =~= grown);
}

proof fn lemma_table_update(indexes: Seq<IndexMetadata>, i: int, metadata: IndexMetadata)
    requires
        distinct_uuids(indexes),
        0 <= i < indexes.len(),
        metadata.uuid == indexes[i].uuid,
    ensures
        distinct_uuids(indexes.update(i, metadata)),
        table_of(indexes.update(i, metadata)) == table_of(indexes).insert(metadata.uuid, metadata),
{
    let changed = indexes.update(i, metadata);
    assert forall|a: int, b: int| 0 <= a < b < changed.len() implies (#[trigger] changed[a]).uuid
        != (#[trigger] changed[b]).uuid by {
        assert(indexes[a].uuid != indexes[b].uuid);
    }
    let grown = table_of(indexes).insert(metadata.uuid, metadata);
    assert forall|uuid: IndexUuid| table_of(changed).contains_key(uuid) <==> grown.contains_key(
        uuid,
    ) by {
        if table_of(changed).contains_key(uuid) {
            let k = choose|k: int| live_at(changed, uuid, k);
            assert(live_at(indexes, uuid, k));
        }
        if grown.contains_key(uuid) {
            if uuid == metadata.uuid {
                assert(live_at(changed, uuid, i));
            } else {
                let k = choose|k: int| live_at(indexes, uuid, k);
                assert(live_at(changed, uuid, k));
            }
        }
    }
    assert forall|uuid: IndexUuid| table_of(changed).contains_key(uuid) implies table_of(
        changed,
    )[uuid] == grown[uuid] by {
        let k = choose|k: int| live_at(changed, uuid, k);
        lemma_table_lookup(changed, uuid, k);
        if uuid != metadata.uuid {
            assert(live_at(indexes, uuid, k));
            lemma_table_lookup(indexes, uuid, k);
        } else {
            assert(live_at(changed, uuid, i));
            lemma_table_lookup(changed, uuid, i);
        }
    }
    assert(table_of(changed) =~= grown);
}

/// The owner of the live indexes. The index engine itself stays outside: the
/// actor decides which operations it is asked for, and keeps what the
/// transport layer is told of each index.
pub struct IndexActor {
    indexes: Vec<IndexMetadata>,
}

impl IndexActor {
    /// No uuid has two live indexes.
    pub closed spec fn wf(&self) -> bool {
        distinct_uuids(self.indexes@)
    }

    /// The live indexes by their uuid.
    pub closed spec fn view(&self) -> IndexTable {
        table_of(self.indexes@)
    }

    /// The uuids of the live indexes in the order of their creation.
    pub closed spec fn order(&self) -> Seq<IndexUuid> {
        self.indexes@.map_values(|metadata: IndexMetadata| metadata.uuid)
    }

    /// The order names each live index once, and nothing else.
    pub proof fn lemma_order(&self)
        requires
            self.wf(),
        ensures
            self.order().no_duplicates(),
            forall|uuid: IndexUuid| self@.contains_key(uuid) <==> self.order().contains(uuid),
    {
        let order = self.order();
        assert forall|i: int, j: int| 0 <= i < order.len() && 0 <= j < order.len() && i != j implies order[i]
            != order[j] by {
            if i < j {
                assert(self.indexes@[i].uuid != self.indexes@[j].uuid);
            } else {
                assert(self.indexes@[j].uuid != self.indexes@[i].uuid);
            }
        }
        assert forall|uuid: IndexUuid| self@.contains_key(uuid) <==> order.contains(uuid) by {
            if self@.contains_key(uuid) {
                let i = choose|i: int| live_at(self.indexes@, uuid, i);
                assert(order[i] == uuid);
            }
            if order.contains(uuid) {
                let i = choose|i: int| 0 <= i < order.len() && order[i] == uuid;
                assert(live_at(self.indexes@, uuid, i));
            }
        }
    }

    /// An actor without indexes.
    pub fn new() -> (actor: Self)
        ensures
            actor.wf(),
            actor@ == IndexTable::empty(),
            actor.order() == Seq::<IndexUuid>::empty(),
    {
        let actor = IndexActor { indexes: Vec::new() };
        assert(actor@ =~= IndexTable::empty());
        assert(actor.order() =~= Seq::<IndexUuid>::empty());
        actor
    }

    fn position(&self, uuid: IndexUuid) -> (found: Option<usize>)
        requires
            self.wf(),
        ensures
            match found {
                Some(i) => live_at(self.indexes@, uuid, i as int) && self@.contains_key(uuid)
                    && self@[uuid] == self.indexes@[i as int],
                None => !self@.contains_key(uuid),
            },
    {
        let mut i: usize = 0;
        while i < self.indexes.len()
            invariant
                i <= self.indexes.len(),
                self.wf(),
                forall|k: int| 0 <= k < i ==> !live_at(self.indexes@, uuid, k),
            decreases self.indexes.len() - i,
        {
            if self.indexes[i].uuid == uuid {
                proof {
                    lemma_table_lookup(self.indexes@, uuid, i as int);
                }
                return Some(i);
            }
            i += 1;
        }
        None
    }

    /// Creates the index `uuid` as of the time `now`, unless it is live
    /// already.
    pub fn create_index_at(
        &mut self,
        uuid: IndexUuid,
        primary_key: Option<String>,
        now: Timestamp,
    ) -> (result: Result<IndexMetadata, ErrorKind>)
        requires
            old(self).wf(),
        ensures
            final(self).wf(),
            (final(self)@, result) == spec_create_index(old(self)@, uuid, primary_key, now),
            final(self).order() == if result is Ok {
                old(self).order().push(uuid)
            } else {
                old(self).order()
            },
    {
        match self.position(uuid) {
            Some(_) => Err(ErrorKind::AlreadyExists),
            None => {
                let metadata = IndexMetadata {
                    uuid,
                    created_at: now,
                    updated_at: now,
                    primary_key,
                };
                let answer = metadata.clone();
                proof {
                    lemma_table_push(self.indexes@, metadata);
                }
                let ghost before = self.order();
                self.indexes.push(metadata);
                assert(self.order() =~= before.push(uuid));
                Ok(answer)
            },
        }
    }

    /// Creates the index `uuid` as of the current time. An index that is live
    /// already is refused with `AlreadyExists`, and nothing changes.
    pub fn create_index(&mut self, uuid: IndexUuid, primary_key: Option<String>) -> (result: Result<
        IndexMetadata,
        ErrorKind,
    >)
        requires
            old(self).wf(),
        ensures
            final(self).wf(),
            result is Ok <==> !old(self)@.contains_key(uuid),
            result matches Ok(metadata) ==> (final(self)@, result) == spec_create_index(
                old(self)@,
                uuid,
                primary_key,
                metadata.created_at,
            ),
            result matches Err(kind) ==> kind == ErrorKind::AlreadyExists && final(self)@ == old(
                self,
            )@,
            final(self).order() == if result is Ok {
                old(self).order().push(uuid)
            } else {
                old(self).order()
            },
    {
        let current = now();
        self.create_index_at(uuid, primary_key, current)
    }

    /// The metadata of the index `uuid`; `NotFound` if it is not live.
    pub fn index_meta(&self, uuid: IndexUuid) -> (result: Result<IndexMetadata, ErrorKind>)
        requires
            self.wf(),
        ensures
            result == spec_index_meta(self@, uuid),
    {
        match self.position(uuid) {
            Some(i) => Ok(self.indexes[i].clone()),
            None => Err(ErrorKind::NotFound),
        }
    }

    /// Admits a query on the index `uuid`: it runs on the engine instance of
    /// a live index, and fails with `NotFound` where there is none.
    pub fn search(&self, uuid: IndexUuid) -> (result: Result<(), ErrorKind>)
        requires
            self.wf(),
        ensures
            result == spec_search(self@, uuid),
    {
        match self.position(uuid) {
            Some(_) => Ok(()),
            None => Err(ErrorKind::NotFound),
        }
    }

    /// Records that a mutation of the index `uuid` succeeded at the time
    /// `now`. Answers whether the index is live.
    pub fn record_update_at(&mut self, uuid: IndexUuid, now: Timestamp) -> (live: bool)
        requires
            old(self).wf(),
        ensures
            final(self).wf(),
            live == old(self)@.contains_key(uuid),
            final(self)@ == spec_record_update(old(self)@, uuid, now),
            final(self).order() == old(self).order(),
    {
        match self.position(uuid) {
            Some(i) => {
                let metadata = IndexMetadata {
                    uuid,
                    created_at: self.indexes[i].created_at,
                    updated_at: now,
                    primary_key: clone_optional_string(&self.indexes[i].primary_key),
                };
                proof {
                    lemma_table_update(self.indexes@, i as int, metadata);
                }
                let ghost before = self.order();
                self.indexes.set(i, metadata);
                assert(self.order() =~= before);
                true
            },
            None => false,
        }
    }

    /// Records that a mutation of the index `uuid` succeeded just now.
    /// Answers whether the index is live; nothing changes if it is not.
    pub fn record_update(&mut self, uuid: IndexUuid) -> (live: bool)
        requires
            old(self).wf(),
        ensures
            final(self).wf(),
            live == old(self)@.contains_key(uuid),
            !live ==> final(self)@ == old(self)@,
            live ==> final(self)@ == spec_record_update(
                old(self)@,
                uuid,
                final(self)@[uuid].updated_at,
            ),
            final(self).order() == old(self).order(),
    {
        let current = now();
        self.record_update_at(uuid, current)
    }

    /// The metadata of every live index, each index once, in the order of
    /// their creation.
    pub fn list(&self) -> (all: Vec<IndexMetadata>)
        requires
            self.wf(),
        ensures
            all@ == spec_list(self@, self.order()),
    {
        let mut all: Vec<IndexMetadata> = Vec::new();
        let mut i: usize = 0;
        while i < self.indexes.len()
            invariant
                i <= self.indexes.len(),
                all@ == self.indexes@.take(i as int),
            decreases self.indexes.len() - i,
        {
            all.push(self.indexes[i].clone());
            assert(all@ =~= self.indexes@.take(i + 1));
            i += 1;
        }
        proof {
            assert(all@ =~= self.indexes@);
            let listed = spec_list(self@, self.order());
            assert forall|k: int| 0 <= k < all@.len() implies all@[k] == listed[k] by {
                assert(live_at(self.indexes@, all@[k].uuid, k));
                lemma_table_lookup(self.indexes@, all@[k].uuid, k);
            }
            assert(all@ =~= listed);
        }
        all
    }
}

} // verus!
