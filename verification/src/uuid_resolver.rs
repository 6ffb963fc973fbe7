use vstd::prelude::*;
use crate::error::ErrorKind;
use crate::identifier::{is_random_uuid, random_uuid, IndexUuid};

verus! {

/// The table from index names to uuids, as a map.
pub type NameTable = Map<Seq<char>, IndexUuid>;

/// What `resolve` answers on a table.
pub open spec fn spec_resolve(table: NameTable, name: Seq<char>) -> Option<IndexUuid> {
    if table.contains_key(name) {
        Some(table[name])
    } else {
        None
    }
}

/// The table and the answer after `create(name)` where `drawn` is the uuid
/// that is drawn for a name that is not bound yet.
pub open spec fn spec_create(table: NameTable, name: Seq<char>, drawn: IndexUuid) -> (
    NameTable,
    Result<IndexUuid, ErrorKind>,
) {
    if table.contains_key(name) {
        (table, Err(ErrorKind::AlreadyExists))
    } else {
        (table.insert(name, drawn), Ok(drawn))
    }
}

/// The table and the answer after `get_or_create(name)` where `drawn` is the
/// uuid that is drawn for a name that is not bound yet.
pub open spec fn spec_get_or_create(table: NameTable, name: Seq<char>, drawn: IndexUuid) -> (
    NameTable,
    IndexUuid,
) {
    if table.contains_key(name) {
        (table, table[name])
    } else {
        (table.insert(name, drawn), drawn)
    }
}

struct Binding {
    name: String,
    uuid: IndexUuid,
}

spec fn bound_at(bindings: Seq<Binding>, name: Seq<char>, i: int) -> bool {
    0 <= i < bindings.len() && bindings[i].name@ == name
}

spec fn distinct_names(bindings: Seq<Binding>) -> bool {
    forall|i: int, j: int|
        0 <= i < j < bindings.len() ==> (#[trigger] bindings[i]).name@ != (
        #[trigger] bindings[j]).name@
}

spec fn table_of(bindings: Seq<Binding>) -> NameTable {
    Map::new(
        |name: Seq<char>| exists|i: int| bound_at(bindings, name, i),
        |name: Seq<char>| bindings[choose|i: int| bound_at(bindings, name, i)].uuid,
    )
}

proof fn lemma_table_lookup(bindings: Seq<Binding>, name: Seq<char>, i: int)
    requires
        distinct_names(bindings),
        bound_at(bindings, name, i),
    ensures
        table_of(bindings).contains_key(name),
        table_of(bindings)[name] == bindings[i].uuid,
{
    let k = choose|k: int| bound_at(bindings, name, k);
    if k < i {
        assert(bindings[k].name@ != bindings[i].name@);
    } else if i < k {
        assert(bindings[i].name@ != bindings[k].name@);
    }
}

proof fn lemma_table_push(bindings: Seq<Binding>, binding: Binding)
    requires
        distinct_names(bindings),
        !table_of(bindings).contains_key(binding.name@),
    ensures
        distinct_names(bindings.push(binding)),
        table_of(bindings.push(binding)) == table_of(bindings).insert(binding.name@, binding.uuid),
{
    let longer = bindings.push(binding);
    let last = bindings.len() as int;
    assert forall|i: int, j: int| 0 <= i < j < longer.len() implies (#[trigger] longer[i]).name@ != (
    #[trigger] longer[j]).name@ by {
        if j == last {
            if longer[i].name@ == binding.name@ {
                assert(bound_at(bindings, binding.name@, i));
            }
        } else {
            assert(bindings[i].name@ != bindings[j].name@);
        }
    }
    let grown = table_of(bindings).insert(binding.name@, binding.uuid);
    assert forall|name: Seq<char>| table_of(longer).contains_key(name) <==> grown.contains_key(
        name,
    ) by {
        if table_of(longer).contains_key(name) {
            let i = choose|i: int| bound_at(longer, name, i);
            if i < last {
                assert(bound_at(bindings, name, i));
            }
        }
        if grown.contains_key(name) {
            if name == binding.name@ {
                assert(bound_at(longer, name, last));
            } else {
                let i = choose|i: int| bound_at(bindings, name, i);
                assert(bound_at(longer, name, i));
            }
        }
    }
    assert forall|name: Seq<char>| table_of(longer).contains_key(name) implies table_of(
        longer,
    )[name] == grown[name] by {
        if name == binding.name@ {
            assert(bound_at(longer, name, last));
            lemma_table_lookup(longer, name, last);
        } else {
            let i = choose|i: int| bound_at(longer, name, i);
            assert(bound_at(bindings, name, i));
            lemma_table_lookup(longer, name, i);
            lemma_table_lookup(bindings, name, i);
        }
    }
    assert(table_of(longer) =~= grown);
}

/// The authority on which uuid an index name stands for. It answers one
/// request at a time.
pub struct UuidResolver {
    bindings: Vec<Binding>,
}

impl UuidResolver {
    /// No name is bound twice.
    pub closed spec fn wf(&self) -> bool {
        distinct_names(self.bindings@)
    }

    /// The table from names to uuids.
    pub closed spec fn view(&self) -> NameTable {
        table_of(self.bindings@)
    }

    /// A resolver that binds no name.
    pub fn new() -> (resolver: Self)
        ensures
            resolver.wf(),
            resolver@ == NameTable::empty(),
    {
        let resolver = UuidResolver { bindings: Vec::new() };
        assert(resolver@ =~= NameTable::empty());
        resolver
    }

    fn position(&self, name: &String) -> (found: Option<usize>)
        requires
            self.wf(),
        ensures
            match found {
                Some(i) => bound_at(self.bindings@, name@, i as int) && self@.contains_key(name@)
                    && self@[name@] == self.bindings@[i as int].uuid,
                None => !self@.contains_key(name@),
            },
    {
        let mut i: usize = 0;
        while i < self.bindings.len()
            invariant
                i <= self.bindings.len(),
                self.wf(),
                forall|k: int| 0 <= k < i ==> !bound_at(self.bindings@, name@, k),
            decreases self.bindings.len() - i,
        {
            if self.bindings[i].name == *name {
                proof {
                    lemma_table_lookup(self.bindings@, name@, i as int);
                }
                return Some(i);
            }
            i += 1;
        }
        None
    }

    /// The uuid that `name` is bound to, if it is bound. The table stays as
    /// it is.
    pub fn resolve(&self, name: &String) -> (uuid: Option<IndexUuid>)
        requires
            self.wf(),
        ensures
            uuid == spec_resolve(self@, name@),
    {
        match self.position(name) {
            Some(i) => Some(self.bindings[i].uuid),
            None => None,
        }
    }

    /// Binds `name` to `uuid` unless `name` is bound already, which is the
    /// error `AlreadyExists`.
    pub fn bind(&mut self, name: String, uuid: IndexUuid) -> (result: Result<IndexUuid, ErrorKind>)
        requires
            old(self).wf(),
        ensures
            final(self).wf(),
            (final(self)@, result) == spec_create(old(self)@, name@, uuid),
    {
        match self.position(&name) {
            Some(_) => Err(ErrorKind::AlreadyExists),
            None => {
                proof {
                    lemma_table_push(self.bindings@, Binding { name, uuid });
                }
                self.bindings.push(Binding { name, uuid });
                Ok(uuid)
            },
        }
    }

    /// The uuid that `name` is bound to; a name that is not bound yet is
    /// first bound to `uuid`.
    pub fn get_or_bind(&mut self, name: String, uuid: IndexUuid) -> (bound: IndexUuid)
        requires
            old(self).wf(),
        ensures
            final(self).wf(),
            (final(self)@, bound) == spec_get_or_create(old(self)@, name@, uuid),
    {
        match self.position(&name) {
            Some(i) => self.bindings[i].uuid,
            None => {
                proof {
                    lemma_table_push(self.bindings@, Binding { name, uuid });
                }
                self.bindings.push(Binding { name, uuid });
                uuid
            },
        }
    }

    /// Binds `name` to a uuid drawn at random. A name that is bound already
    /// is refused with `AlreadyExists`, and the table stays as it is.
    pub fn create(&mut self, name: String) -> (result: Result<IndexUuid, ErrorKind>)
        requires
            old(self).wf(),
        ensures
            final(self).wf(),
            result is Ok <==> !old(self)@.contains_key(name@),
            result matches Ok(uuid) ==> is_random_uuid(uuid.value) && (final(self)@, result)
                == spec_create(old(self)@, name@, uuid),
            result matches Err(kind) ==> kind == ErrorKind::AlreadyExists && final(self)@ == old(
                self,
            )@,
    {
        match self.position(&name) {
            Some(_) => Err(ErrorKind::AlreadyExists),
            None => {
                let uuid = random_uuid();
                self.bind(name, uuid)
            },
        }
    }

    /// The uuid that `name` is bound to; a name that is not bound yet is
    /// first bound to a uuid drawn at random.
    pub fn get_or_create(&mut self, name: String) -> (uuid: IndexUuid)
        requires
            old(self).wf(),
        ensures
            final(self).wf(),
            (final(self)@, uuid) == spec_get_or_create(old(self)@, name@, uuid),
            !old(self)@.contains_key(name@) ==> is_random_uuid(uuid.value),
    {
        match self.position(&name) {
            Some(i) => self.bindings[i].uuid,
            None => {
                let uuid = random_uuid();
                self.get_or_bind(name, uuid)
            },
        }
    }
}

/// `get_or_create` is idempotent: called twice with one name it answers the
/// same uuid both times, whatever is drawn, and the second call leaves the
/// table as the first one left it.
pub proof fn lemma_get_or_create_twice(
    table: NameTable,
    name: Seq<char>,
    first_drawn: IndexUuid,
    second_drawn: IndexUuid,
)
    ensures
        ({
            let (after_first, first) = spec_get_or_create(table, name, first_drawn);
            let (after_second, second) = spec_get_or_create(after_first, name, second_drawn);
            second == first && after_second == after_first
        }),
{
}

/// A name resolves to nothing as long as neither `create` nor `get_or_create`
/// was called for it, and to the uuid that it was bound to from then on.
pub proof fn lemma_resolve_follows_binding(table: NameTable, name: Seq<char>, drawn: IndexUuid)
    ensures
        spec_resolve(NameTable::empty(), name) is None,
        !table.contains_key(name) ==> spec_resolve(table, name) is None,
        !table.contains_key(name) ==> spec_create(table, name, drawn).1 == Ok::<
            IndexUuid,
            ErrorKind,
        >(drawn),
        !table.contains_key(name) ==> spec_resolve(spec_create(table, name, drawn).0, name)
            == Some(drawn),
        spec_resolve(spec_get_or_create(table, name, drawn).0, name) == Some(
            spec_get_or_create(table, name, drawn).1,
        ),
{
}

/// Binding one name leaves what every other name resolves to as it was, and
/// no call unbinds a name.
pub proof fn lemma_binding_keeps_others(
    table: NameTable,
    name: Seq<char>,
    drawn: IndexUuid,
    other: Seq<char>,
)
    ensures
        other != name ==> spec_resolve(spec_create(table, name, drawn).0, other) == spec_resolve(
            table,
            other,
        ),
        other != name ==> spec_resolve(spec_get_or_create(table, name, drawn).0, other)
            == spec_resolve(table, other),
        table.contains_key(other) ==> spec_resolve(spec_create(table, name, drawn).0, other)
            == spec_resolve(table, other),
        table.contains_key(other) ==> spec_resolve(spec_get_or_create(table, name, drawn).0, other)
            == spec_resolve(table, other),
{
}

} // verus!
