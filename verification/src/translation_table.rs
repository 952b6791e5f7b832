//! Tables associating names and local IDs with their remote equivalents.
//!
//! A table is indexed by remote ID: entry `i` describes the remote ID `i`,
//! and may be empty.
use crate::byte_buffer::{bytes_equal, bytes_view};
use crate::types::{BaseTypeSafeId, IdType, LocalId, RemoteId, SenderId, TypeId, TypeSafeId};
use crate::cookie::{lemma_signed_dec_text_ascii, push_signed_decimal, signed_dec_text};
use crate::text::{ascii_string, ascii_view, is_ascii_bytes, lemma_ascii_concat};
use bytes::Bytes;
use vstd::prelude::*;

verus! {

/// Errors of translation table lookups.
#[derive(Debug, Clone, Copy, PartialEq, Eq, Structural)]
pub enum TranslationTableError {
    /// A remote ID beyond the end of the table (or a negative one where a
    /// real ID is needed).
    InvalidRemoteId(IdType),
    /// A remote ID whose entry is empty.
    EmptyEntry,
}

impl TranslationTableError {
    /// The error in words, such as `invalid remote id 3`.
    pub open spec fn words(self) -> Seq<char> {
        match self {
            TranslationTableError::InvalidRemoteId(id) => "invalid remote id "@ + ascii_view(
                signed_dec_text(id as int),
            ),
            TranslationTableError::EmptyEntry => "empty entry"@,
        }
    }

    /// The error in words, such as `invalid remote id 3`.
    pub fn to_string(&self) -> (r: String)
        ensures
            r@ == self.words(),
    {
        match *self {
            TranslationTableError::InvalidRemoteId(id) => {
                let mut text: Vec<u8> = vec![
                    105u8, 110u8, 118u8, 97u8, 108u8, 105u8, 100u8, 32u8, 114u8, 101u8, 109u8, 111u8,
                    116u8, 101u8, 32u8, 105u8, 100u8, 32u8,
                ];
                let ghost prefix = text@;
                proof {
                    reveal_strlit("invalid remote id ");
                    assert(ascii_view(prefix) =~= "invalid remote id "@);
                    assert(is_ascii_bytes(prefix));
                }
                push_signed_decimal(&mut text, id);
                proof {
                    lemma_signed_dec_text_ascii(id as int);
                    lemma_ascii_concat(prefix, signed_dec_text(id as int));
                }
                ascii_string(&text)
            },
            TranslationTableError::EmptyEntry => String::from_str("empty entry"),
        }
    }
}

/// An entry in a translation table.
#[derive(Debug, Clone)]
pub struct TranslationEntry<T> {
    /// The name of the sender or message type.
    pub name: Bytes,
    /// The local ID.
    pub local_id: LocalId<T>,
    /// The remote ID.
    pub remote_id: RemoteId<T>,
}

/// An entry in a translation table.
pub type Entry<T> = TranslationEntry<T>;

impl<T: BaseTypeSafeId> TranslationEntry<T> {
    /// An entry of the given name and IDs.
    pub fn new(name: Bytes, local_id: LocalId<T>, remote_id: RemoteId<T>) -> (r: TranslationEntry<
        T,
    >)
        ensures
            r == (TranslationEntry { name, local_id, remote_id }),
    {
        TranslationEntry { name, local_id, remote_id }
    }

    /// Replaces the local ID.
    pub fn set_local_id(&mut self, local_id: LocalId<T>)
        ensures
            *final(self) == (TranslationEntry { local_id, ..*old(self) }),
    {
        self.local_id = local_id;
    }

    /// The name.
    pub fn name(&self) -> (r: &Bytes)
        ensures
            *r == self.name,
    {
        &self.name
    }

    /// The local ID.
    pub fn local_id(&self) -> (r: LocalId<T>)
        ensures
            r == self.local_id,
    {
        self.local_id
    }

    /// The remote ID.
    pub fn remote_id(&self) -> (r: RemoteId<T>)
        ensures
            r == self.remote_id,
    {
        self.remote_id
    }
}

/// Looking up a remote ID in table entries: negative IDs (system IDs) map to
/// nothing; IDs beyond the end are invalid; empty entries are an error.
pub open spec fn lookup_spec<T: TypeSafeId>(
    entries: Seq<Option<TranslationEntry<T>>>,
    id: IdType,
) -> Result<Option<LocalId<T>>, TranslationTableError> {
    if id < 0 {
        Ok(None)
    } else if id >= entries.len() {
        Err(TranslationTableError::InvalidRemoteId(id))
    } else {
        match entries[id as int] {
            Some(e) => Ok(Some(e.local_id)),
            None => Err(TranslationTableError::EmptyEntry),
        }
    }
}

/// `entries` extended with empty entries to at least `n` entries.
pub open spec fn padded_to<T>(entries: Seq<Option<TranslationEntry<T>>>, n: nat) -> Seq<
    Option<TranslationEntry<T>>,
> {
    if entries.len() >= n {
        entries
    } else {
        entries + Seq::new((n - entries.len()) as nat, |i: int| None::<TranslationEntry<T>>)
    }
}

/// The entries after recording `entry` at index `index` (extending the
/// table with empty entries as needed).
pub open spec fn with_entry<T>(
    entries: Seq<Option<TranslationEntry<T>>>,
    index: nat,
    entry: TranslationEntry<T>,
) -> Seq<Option<TranslationEntry<T>>> {
    padded_to(entries, index + 1).update(index as int, Some(entry))
}

/// Whether the entry is present and has the given name.
pub open spec fn entry_named<T>(e: Option<TranslationEntry<T>>, name: Seq<u8>) -> bool {
    e matches Some(entry) && bytes_view(entry.name) == name
}

/// Whether index `i` holds the first entry with the given name.
pub open spec fn is_first_named<T>(
    entries: Seq<Option<TranslationEntry<T>>>,
    name: Seq<u8>,
    i: int,
) -> bool {
    &&& 0 <= i < entries.len()
    &&& entry_named(entries[i], name)
    &&& forall|j: int| 0 <= j < i ==> !entry_named(#[trigger] entries[j], name)
}

/// Whether the entry is present and has the given local ID.
pub open spec fn entry_has_local<T>(e: Option<TranslationEntry<T>>, local_id: LocalId<T>) -> bool {
    e matches Some(entry) && entry.local_id == local_id
}

/// Whether index `i` holds the first entry with the given local ID.
pub open spec fn is_first_with_local<T>(
    entries: Seq<Option<TranslationEntry<T>>>,
    local_id: LocalId<T>,
    i: int,
) -> bool {
    &&& 0 <= i < entries.len()
    &&& entry_has_local(entries[i], local_id)
    &&& forall|j: int| 0 <= j < i ==> !entry_has_local(#[trigger] entries[j], local_id)
}

/// The present entries, in order.
pub open spec fn present_entries<T>(entries: Seq<Option<TranslationEntry<T>>>) -> Seq<
    TranslationEntry<T>,
>
    decreases entries.len(),
{
    if entries.len() == 0 {
        Seq::empty()
    } else {
        let rest = present_entries(entries.drop_last());
        match entries.last() {
            Some(e) => rest.push(e),
            None => rest,
        }
    }
}

/// A table mapping names and local IDs to their remote equivalents.
#[derive(Debug, Clone)]
pub struct TranslationTable<T> {
    entries: Vec<Option<TranslationEntry<T>>>,
}

impl<T: BaseTypeSafeId> TranslationTable<T> {
    /// The entries, indexed by remote ID.
    pub closed spec fn entries(self) -> Seq<Option<TranslationEntry<T>>> {
        self.entries@
    }

    /// An empty table.
    pub fn new() -> (r: TranslationTable<T>)
        ensures
            r.entries() == Seq::<Option<TranslationEntry<T>>>::empty(),
    {
        TranslationTable { entries: Vec::new() }
    }

    /// Converts a remote ID to the corresponding local ID.
    pub fn map_to_local_id(&self, id: RemoteId<T>) -> (r: Result<
        Option<LocalId<T>>,
        TranslationTableError,
    >)
        ensures
            r == lookup_spec(self.entries(), id.id_value()),
    {
        let index = id.get();
        if index < 0 {
            return Ok(None);
        }
        if index as usize >= self.entries.len() {
            return Err(TranslationTableError::InvalidRemoteId(index));
        }
        match &self.entries[index as usize] {
            Some(entry) => Ok(Some(entry.local_id)),
            None => Err(TranslationTableError::EmptyEntry),
        }
    }

    /// Records the name and local ID of a remote ID, extending the table with
    /// empty entries as needed.  A negative remote ID is refused.
    pub fn add_remote_entry(&mut self, name: Bytes, remote_id: RemoteId<T>, local_id: LocalId<T>) -> (r:
        Result<RemoteId<T>, TranslationTableError>)
        ensures
            remote_id.id_value() < 0 ==> r == Err::<RemoteId<T>, TranslationTableError>(
                TranslationTableError::InvalidRemoteId(remote_id.id_value()),
            ) && final(self).entries() == old(self).entries(),
            remote_id.id_value() >= 0 ==> r == Ok::<RemoteId<T>, TranslationTableError>(remote_id)
                && final(self).entries() == with_entry(
                old(self).entries(),
                remote_id.id_value() as nat,
                TranslationEntry { name, local_id, remote_id },
            ),
    {
        let real_index = remote_id.get();
        if real_index < 0 {
            return Err(TranslationTableError::InvalidRemoteId(real_index));
        }
        let index = real_index as usize;
        let ghost start = self.entries@;
        while index >= self.entries.len()
            invariant
                self.entries@ == padded_to(start, self.entries@.len()),
                self.entries@.len() >= start.len(),
                self.entries@.len() <= index + 1 || self.entries@.len() == start.len(),
            decreases index + 1 - self.entries@.len(),
        {
            let ghost before = self.entries@;
            self.entries.push(None);
            assert(self.entries@ =~= padded_to(start, self.entries@.len()));
        }
        assert(self.entries@ =~= padded_to(start, (index + 1) as nat));
        self.entries.set(index, Some(TranslationEntry { name, local_id, remote_id }));
        Ok(remote_id)
    }

    /// Sets the local ID of the first entry with the given name.  Returns
    /// whether such an entry was found.
    pub fn add_local_id(&mut self, name: Bytes, local_id: LocalId<T>) -> (r: bool)
        ensures
            r == exists|i: int|
                0 <= i < old(self).entries().len() && entry_named(
                    old(self).entries()[i],
                    bytes_view(name),
                ),
            r ==> exists|i: int|
                is_first_named(old(self).entries(), bytes_view(name), i) && final(self).entries()
                    == old(self).entries().update(
                    i,
                    Some(TranslationEntry { local_id, ..old(self).entries()[i]->Some_0 }),
                ),
            !r ==> final(self).entries() == old(self).entries(),
    {
        let ghost n = bytes_view(name);
        let len = self.entries.len();
        let mut i: usize = 0;
        while i < len
            invariant
                len == self.entries@.len(),
                i <= len,
                n == bytes_view(name),
                self.entries@ == old(self).entries@,
                forall|j: int| 0 <= j < i ==> !entry_named(#[trigger] self.entries@[j], n),
            decreases len - i,
        {
            let found = match &self.entries[i] {
                Some(entry) => bytes_equal(&entry.name, &name),
                None => false,
            };
            assert(found == entry_named(self.entries@[i as int], n));
            if found {
                let ghost old_e = self.entries@;
                match &mut self.entries[i] {
                    Some(entry) => entry.set_local_id(local_id),
                    None => {},
                }
                assert(is_first_named(old_e, n, i as int));
                assert(self.entries@ == old_e.update(
                    i as int,
                    Some(TranslationEntry { local_id, ..old_e[i as int]->Some_0 }),
                ));
                assert(exists|k: int| 0 <= k < old_e.len() && entry_named(old_e[k], n));
                assert(old_e == old(self).entries());
                assert(n == bytes_view(name));
                return true;
            }
            i = i + 1;
        }
        false
    }

    /// The first entry with the given local ID, if any.
    pub fn get_by_local_id(&self, local_id: LocalId<T>) -> (r: Option<&TranslationEntry<T>>)
        ensures
            r is None <==> forall|i: int|
                0 <= i < self.entries().len() ==> !entry_has_local(
                    #[trigger] self.entries()[i],
                    local_id,
                ),
            r matches Some(e) ==> exists|i: int|
                is_first_with_local(self.entries(), local_id, i) && self.entries()[i] == Some(*e),
    {
        let len = self.entries.len();
        let mut i: usize = 0;
        assert(self.entries() == self.entries@);
        while i < len
            invariant
                len == self.entries@.len(),
                i <= len,
                self.entries() == self.entries@,
                forall|j: int| 0 <= j < i ==> !entry_has_local(#[trigger] self.entries@[j], local_id),
            decreases len - i,
        {
            match &self.entries[i] {
                Some(entry) => {
                    if entry.local_id.get() == local_id.get() {
                        proof {
                            LocalId::<T>::lemma_id_value_injective(entry.local_id, local_id);
                        }
                        assert(is_first_with_local(self.entries@, local_id, i as int));
                        assert(is_first_with_local(self.entries(), local_id, i as int));
                        assert(self.entries()[i as int] == Some(*entry));
                        return Some(entry);
                    }
                },
                None => {},
            }
            i = i + 1;
        }
        None
    }

    /// The first entry for which `f` answers true, if any.
    pub fn find_by_predicate<F: Fn(&TranslationEntry<T>) -> bool>(&self, f: F) -> (r: Option<
        &TranslationEntry<T>,
    >)
        requires
            forall|e: &TranslationEntry<T>| #[trigger] f.requires((e,)),
        ensures
            r is None ==> forall|i: int|
                0 <= i < self.entries().len() && (#[trigger] self.entries()[i]) is Some
                    ==> f.ensures((&self.entries()[i]->Some_0,), false),
            r matches Some(e) ==> exists|i: int|
                0 <= i < self.entries().len() && self.entries()[i] == Some(*e) && f.ensures(
                    (e,),
                    true,
                ),
    {
        let len = self.entries.len();
        let mut i: usize = 0;
        while i < len
            invariant
                len == self.entries@.len(),
                i <= len,
                forall|e: &TranslationEntry<T>| #[trigger] f.requires((e,)),
                forall|j: int|
                    0 <= j < i && (#[trigger] self.entries@[j]) is Some ==> f.ensures(
                        (&self.entries@[j]->Some_0,),
                        false,
                    ),
            decreases len - i,
        {
            match &self.entries[i] {
                Some(entry) => {
                    if f(entry) {
                        return Some(entry);
                    }
                },
                None => {},
            }
            i = i + 1;
        }
        None
    }

    /// The present entries, in order of remote ID.
    pub fn iter(&self) -> (r: Vec<&TranslationEntry<T>>)
        ensures
            r@.len() == present_entries(self.entries()).len(),
            forall|k: int| 0 <= k < r@.len() ==> *r@[k] == present_entries(self.entries())[k],
    {
        let len = self.entries.len();
        let mut out: Vec<&TranslationEntry<T>> = Vec::new();
        let mut i: usize = 0;
        while i < len
            invariant
                len == self.entries@.len(),
                i <= len,
                out@.len() == present_entries(self.entries@.take(i as int)).len(),
                forall|k: int|
                    0 <= k < out@.len() ==> *out@[k] == present_entries(
                        self.entries@.take(i as int),
                    )[k],
            decreases len - i,
        {
            assert(self.entries@.take(i + 1).drop_last() =~= self.entries@.take(i as int));
            match &self.entries[i] {
                Some(entry) => {
                    out.push(entry);
                },
                None => {},
            }
            i = i + 1;
        }
        assert(self.entries@.take(len as int) =~= self.entries@);
        out
    }

    /// Deletes every entry.
    pub fn clear(&mut self)
        ensures
            final(self).entries() == Seq::<Option<TranslationEntry<T>>>::empty(),
    {
        self.entries.clear();
    }
}

impl<T: BaseTypeSafeId> Default for TranslationTable<T> {
    fn default() -> (r: TranslationTable<T>)
        ensures
            r.entries() == Seq::<Option<TranslationEntry<T>>>::empty(),
    {
        TranslationTable::new()
    }
}

/// The two translation tables of a connection: one for message types, one
/// for senders.
#[derive(Debug)]
pub struct TranslationTables {
    /// The message type table.
    pub types: TranslationTable<TypeId>,
    /// The sender table.
    pub senders: TranslationTable<SenderId>,
}

/// The two translation tables of a connection.
pub type Tables = TranslationTables;

impl TranslationTables {
    /// Two empty tables.
    pub fn new() -> (r: TranslationTables)
        ensures
            r.types.entries() == Seq::<Option<TranslationEntry<TypeId>>>::empty(),
            r.senders.entries() == Seq::<Option<TranslationEntry<SenderId>>>::empty(),
    {
        TranslationTables { types: TranslationTable::new(), senders: TranslationTable::new() }
    }

    /// Deletes every entry of both tables.
    pub fn clear(&mut self)
        ensures
            final(self).types.entries() == Seq::<Option<TranslationEntry<TypeId>>>::empty(),
            final(self).senders.entries() == Seq::<Option<TranslationEntry<SenderId>>>::empty(),
    {
        self.types.clear();
        self.senders.clear();
    }
}

impl Default for TranslationTables {
    fn default() -> (r: TranslationTables)
        ensures
            r.types.entries() == Seq::<Option<TranslationEntry<TypeId>>>::empty(),
            r.senders.entries() == Seq::<Option<TranslationEntry<SenderId>>>::empty(),
    {
        TranslationTables::new()
    }
}

/// A remote ID recorded in a table maps to the local ID recorded with it.
pub proof fn lemma_lookup_after_add<T: TypeSafeId>(
    entries: Seq<Option<TranslationEntry<T>>>,
    entry: TranslationEntry<T>,
)
    requires
        entry.remote_id.id_value() >= 0,
    ensures
        lookup_spec(with_entry(entries, entry.remote_id.id_value() as nat, entry), entry.remote_id.id_value())
            == Ok::<Option<LocalId<T>>, TranslationTableError>(Some(entry.local_id)),
{
}

/// Recording a remote ID leaves the lookup of every other remote ID as it
/// was, except that IDs between the old end of the table and the new entry
/// become empty entries instead of invalid ones.
pub proof fn lemma_lookup_other_after_add<T: TypeSafeId>(
    entries: Seq<Option<TranslationEntry<T>>>,
    entry: TranslationEntry<T>,
    other: IdType,
)
    requires
        entry.remote_id.id_value() >= 0,
        other != entry.remote_id.id_value(),
    ensures
        (other < entries.len() || other > entry.remote_id.id_value()) ==> lookup_spec(
            with_entry(entries, entry.remote_id.id_value() as nat, entry),
            other,
        ) == lookup_spec(entries, other),
        (entries.len() <= other < entry.remote_id.id_value()) ==> lookup_spec(
            with_entry(entries, entry.remote_id.id_value() as nat, entry),
            other,
        ) == Err::<Option<LocalId<T>>, TranslationTableError>(TranslationTableError::EmptyEntry),
{
}

/// After clearing, every remote ID that is not a system ID is invalid.
pub proof fn lemma_lookup_after_clear<T: TypeSafeId>(id: IdType)
    requires
        id >= 0,
    ensures
        lookup_spec(Seq::<Option<TranslationEntry<T>>>::empty(), id) == Err::<
            Option<LocalId<T>>,
            TranslationTableError,
        >(TranslationTableError::InvalidRemoteId(id)),
{
}

/// System IDs (negative remote IDs) map to no local ID, whatever the table holds.
pub proof fn lemma_lookup_system_id<T: TypeSafeId>(entries: Seq<Option<TranslationEntry<T>>>, id: IdType)
    requires
        id < 0,
    ensures
        lookup_spec(entries, id) == Ok::<Option<LocalId<T>>, TranslationTableError>(None),
{
}


} // verus!
