//! Archive reader: a ZIP container held in memory, its entries read on
//! request by index or by name.

use crate::error::MinecraftError;
use std::io::Cursor;
use std::io::Read;
use vstd::prelude::*;
use zip::result::ZipError;
use zip::ZipArchive;

verus! {

/// `std::io::Cursor`, the reader over the bytes of an archive held in memory.
#[verifier::external_type_specification]
#[verifier::external_body]
#[verifier::reject_recursive_types(T)]
pub struct ExCursor<T>(Cursor<T>);

/// `zip::ZipArchive`, an open archive.  What it holds is `archive_entries`.
#[verifier::external_type_specification]
#[verifier::external_body]
#[verifier::reject_recursive_types(R)]
pub struct ExZipArchive<R>(ZipArchive<R>);

/// `zip::result::ZipError`, the error of the archive operations.
#[verifier::external_type_specification]
#[verifier::external_body]
pub struct ExZipError(ZipError);

/// What reading an entry gives.
pub enum Payload {
    /// The entry cannot be opened (encrypted, or of an unsupported kind).
    Sealed,
    /// The entry opens, but its bytes cannot be read to the end.
    Broken,
    /// The entry's bytes.
    Bytes(Seq<u8>),
}

/// One entry of an archive, as the reader sees it.
pub struct EntryModel {
    /// The name in the central directory.
    pub name: Seq<char>,
    pub payload: Payload,
}

/// The entries of the archive that a byte sequence holds, in the order of
/// its central directory; `None` if the bytes are no ZIP container.
pub uninterp spec fn archive_of(bytes: Seq<u8>) -> Option<Seq<EntryModel>>;

/// The entries that an open archive holds, in physical order.
pub uninterp spec fn archive_entries(a: ZipArchive<Cursor<Vec<u8>>>) -> Seq<EntryModel>;

/// Index of the last entry of that name; -1 if there is none.  A lookup by
/// name finds this entry.
pub open spec fn last_named(entries: Seq<EntryModel>, name: Seq<char>) -> int
    decreases entries.len(),
{
    if entries.len() == 0 {
        -1
    } else if entries.last().name == name {
        entries.len() - 1
    } else {
        last_named(entries.drop_last(), name)
    }
}

/// Where a lookup by name lands: on an entry of that name, behind which no
/// other entry has it.
pub proof fn lemma_last_named(entries: Seq<EntryModel>, name: Seq<char>)
    ensures
        -1 <= last_named(entries, name) < entries.len(),
        last_named(entries, name) >= 0 ==> entries[last_named(entries, name)].name == name,
        forall|j: int| last_named(entries, name) < j < entries.len() ==> entries[j].name != name,
    decreases entries.len(),
{
    if entries.len() > 0 && entries.last().name != name {
        let front = entries.drop_last();
        lemma_last_named(front, name);
        assert forall|j: int| last_named(entries, name) < j < entries.len() implies entries[j].name
            != name by {
            if j < front.len() {
                assert(front[j].name == entries[j].name);
            }
        }
    }
}

/// What a lookup by name gives.
pub open spec fn payload_named(entries: Seq<EntryModel>, name: Seq<char>) -> Option<Payload> {
    let at = last_named(entries, name);
    if 0 <= at < entries.len() {
        Some(entries[at].payload)
    } else {
        None
    }
}

/// `ZipArchive::new` on a cursor over the bytes: reads the central
/// directory.  Success and the entries found depend on the bytes alone.
#[verifier::external_body]
fn zip_open(bytes: Vec<u8>) -> (r: Result<ZipArchive<Cursor<Vec<u8>>>, ZipError>)
    ensures
        r is Ok <==> archive_of(bytes@) is Some,
        r matches Ok(a) ==> archive_of(bytes@) == Some(archive_entries(a)),
{
    ZipArchive::new(Cursor::new(bytes))
}

/// `ZipArchive::len`: the number of entries in the central directory.
#[verifier::external_body]
fn zip_len(a: &ZipArchive<Cursor<Vec<u8>>>) -> (n: usize)
    ensures
        n == archive_entries(*a).len(),
{
    a.len()
}

/// `ZipArchive::by_index_decrypt` with an empty password, then
/// `ZipFile::name`: the name of the entry at `index` if that entry opens.
/// (Unlike `by_index`, this call returns an error where an entry asks for a
/// password that was not given.)  The archive's contents stay as they are.
#[verifier::external_body]
fn zip_name(a: &mut ZipArchive<Cursor<Vec<u8>>>, index: usize) -> (r: Option<String>)
    ensures
        archive_entries(*final(a)) == archive_entries(*old(a)),
        r is Some <==> index < archive_entries(*old(a)).len() && !(archive_entries(
            *old(a),
        )[index as int].payload is Sealed),
        r matches Some(name) ==> name@ == archive_entries(*old(a))[index as int].name,
{
    match a.by_index_decrypt(index, &[]) {
        Ok(Ok(file)) => Some(file.name().to_string()),
        _ => None,
    }
}

/// `ZipArchive::by_index_decrypt` with an empty password, then
/// `Read::read_to_end` on the entry: its bytes, if it opens and can be read
/// to the end.
#[verifier::external_body]
fn zip_read(a: &mut ZipArchive<Cursor<Vec<u8>>>, index: usize) -> (r: Option<Vec<u8>>)
    ensures
        archive_entries(*final(a)) == archive_entries(*old(a)),
        r is Some <==> index < archive_entries(*old(a)).len() && archive_entries(
            *old(a),
        )[index as int].payload is Bytes,
        r matches Some(data) ==> archive_entries(*old(a))[index as int].payload == Payload::Bytes(
            data@,
        ),
{
    match a.by_index_decrypt(index, &[]) {
        Ok(Ok(mut file)) => {
            let mut data = Vec::new();
            match file.read_to_end(&mut data) {
                Ok(_) => Some(data),
                Err(_) => None,
            }
        },
        _ => None,
    }
}

/// `ZipArchive::by_name_decrypt` with an empty password, then
/// `Read::read_to_end`: the outer `None` if no entry of that name opens, the
/// inner `None` if it opens but cannot be read to the end.  The lookup finds
/// the last entry of that name.
#[verifier::external_body]
fn zip_read_named(a: &mut ZipArchive<Cursor<Vec<u8>>>, name: &str) -> (r: Option<
    Option<Vec<u8>>,
>)
    ensures
        archive_entries(*final(a)) == archive_entries(*old(a)),
        match r {
            None => payload_named(archive_entries(*old(a)), name@) is None || payload_named(
                archive_entries(*old(a)),
                name@,
            ) == Some(Payload::Sealed),
            Some(None) => payload_named(archive_entries(*old(a)), name@) == Some(Payload::Broken),
            Some(Some(data)) => payload_named(archive_entries(*old(a)), name@) == Some(
                Payload::Bytes(data@),
            ),
        },
{
    match a.by_name_decrypt(name, &[]) {
        Ok(Ok(mut file)) => {
            let mut data = Vec::new();
            match file.read_to_end(&mut data) {
                Ok(_) => Some(Some(data)),
                Err(_) => Some(None),
            }
        },
        _ => None,
    }
}

/// An open archive.
pub struct Archive {
    inner: ZipArchive<Cursor<Vec<u8>>>,
}

impl Archive {
    /// The entries of the archive, in physical order.
    pub closed spec fn entries(&self) -> Seq<EntryModel> {
        archive_entries(self.inner)
    }

    /// Opens the archive that the bytes hold.
    pub fn open(bytes: Vec<u8>) -> (r: Result<Archive, MinecraftError>)
        ensures
            match r {
                Ok(a) => archive_of(bytes@) == Some(a.entries()),
                Err(e) => archive_of(bytes@) is None && e is ArchiveOpen,
            },
    {
        match zip_open(bytes) {
            Ok(inner) => Ok(Archive { inner }),
            Err(_) => Err(MinecraftError::ArchiveOpen),
        }
    }

    /// Number of entries.
    pub fn len(&self) -> (n: usize)
        ensures
            n == self.entries().len(),
    {
        zip_len(&self.inner)
    }

    /// Name of the entry at `index`; `None` if there is no such entry or it
    /// cannot be opened.
    pub fn entry_name(&mut self, index: usize) -> (r: Option<String>)
        ensures
            final(self).entries() == old(self).entries(),
            r is Some <==> index < old(self).entries().len() && !(old(
                self,
            ).entries()[index as int].payload is Sealed),
            r matches Some(name) ==> name@ == old(self).entries()[index as int].name,
    {
        zip_name(&mut self.inner, index)
    }

    /// Bytes of the entry at `index`; `None` if there is no such entry, or
    /// it cannot be opened or read.
    pub fn entry_bytes(&mut self, index: usize) -> (r: Option<Vec<u8>>)
        ensures
            final(self).entries() == old(self).entries(),
            r is Some <==> index < old(self).entries().len() && old(
                self,
            ).entries()[index as int].payload is Bytes,
            r matches Some(data) ==> old(self).entries()[index as int].payload == Payload::Bytes(
                data@,
            ),
    {
        zip_read(&mut self.inner, index)
    }

    /// Bytes of the entry of that name.
    pub fn read_entry(&mut self, name: &str) -> (r: Result<Vec<u8>, MinecraftError>)
        ensures
            final(self).entries() == old(self).entries(),
            match r {
                Ok(data) => payload_named(old(self).entries(), name@) == Some(
                    Payload::Bytes(data@),
                ),
                Err(MinecraftError::EntryNotFound(path)) => path@ == name@ && (payload_named(
                    old(self).entries(),
                    name@,
                ) is None || payload_named(old(self).entries(), name@) == Some(Payload::Sealed)),
                Err(MinecraftError::EntryUnreadable(path)) => path@ == name@ && payload_named(
                    old(self).entries(),
                    name@,
                ) == Some(Payload::Broken),
                Err(_) => false,
            },
    {
        match zip_read_named(&mut self.inner, name) {
            None => Err(MinecraftError::EntryNotFound(name.to_owned())),
            Some(None) => Err(MinecraftError::EntryUnreadable(name.to_owned())),
            Some(Some(data)) => Ok(data),
        }
    }

    /// Names of all entries, in physical order.  Fails at the first entry
    /// that cannot be opened.
    pub fn list_entries(&mut self) -> (r: Result<Vec<String>, MinecraftError>)
        ensures
            final(self).entries() == old(self).entries(),
            match r {
                Ok(names) => {
                    &&& names.len() == old(self).entries().len()
                    &&& forall|i: int|
                        0 <= i < names.len() ==> names[i]@ == old(self).entries()[i].name
                    &&& forall|i: int|
                        0 <= i < names.len() ==> !(old(self).entries()[i].payload is Sealed)
                },
                Err(MinecraftError::EntrySealed(i)) => {
                    &&& i < old(self).entries().len()
                    &&& old(self).entries()[i as int].payload is Sealed
                    &&& forall|j: int| 0 <= j < i ==> !(old(self).entries()[j].payload is Sealed)
                },
                Err(_) => false,
            },
    {
        let mut names: Vec<String> = Vec::new();
        let n = self.len();
        let mut i: usize = 0;
        while i < n
            invariant
                i <= n,
                n == self.entries().len(),
                self.entries() == old(self).entries(),
                names.len() == i,
                forall|j: int| 0 <= j < i ==> names[j]@ == self.entries()[j].name,
                forall|j: int| 0 <= j < i ==> !(self.entries()[j].payload is Sealed),
            decreases n - i,
        {
            match self.entry_name(i) {
                Some(name) => {
                    names.push(name);
                },
                None => {
                    return Err(MinecraftError::EntrySealed(i));
                },
            }
            i += 1;
        }
        Ok(names)
    }
}

} // verus!
