//! The packed archive that assets are read from. The archive format and the
//! decompression are the `zip` crate's; this module states what the loader
//! relies on.

use std::io::Cursor;
use vstd::prelude::*;
use zip::read::{ZipArchive, ZipFile};
use zip::result::{InvalidPassword, ZipError};

verus! {

/// `std::io::Cursor`: a reader over bytes held in memory. Opaque.
#[verifier::external_type_specification]
#[verifier::external_body]
#[verifier::reject_recursive_types(T)]
pub struct ExCursor<T>(Cursor<T>);

/// `zip::read::ZipArchive`: an archive that was opened. Opaque.
#[verifier::external_type_specification]
#[verifier::external_body]
#[verifier::reject_recursive_types(R)]
pub struct ExZipArchive<R>(ZipArchive<R>);

/// `zip::read::ZipFile`: an entry of an archive, open for reading. Opaque
/// but for what it has yet to hand out, see [`entry_unread`].
#[verifier::external_type_specification]
#[verifier::external_body]
pub struct ExZipFile<'a>(ZipFile<'a>);

/// `zip::result::ZipError`: why an archive or an entry could not be
/// opened. Opaque; it is only displayed.
#[verifier::external_type_specification]
#[verifier::external_body]
pub struct ExZipError(ZipError);

/// `zip::result::InvalidPassword`: an entry that cannot be opened without
/// the right password. Opaque; it is only displayed.
#[verifier::external_type_specification]
#[verifier::external_body]
pub struct ExInvalidPassword(InvalidPassword);

/// The size of the scratch buffer that entries are read through.
pub const CHUNK_SIZE: usize = 1024;

/// The bytes that an open entry has yet to hand out: what its successive
/// reads return, in order, up to the first read that returns nothing or
/// fails. The archive is held in memory, so this depends on nothing but
/// the entry. Only [`entry_read`] says anything of it.
pub uninterp spec fn entry_unread(entry: ZipFile) -> Seq<u8>;

/// The names of the entries that an archive lists. They are fixed when the
/// archive is opened; only [`archive_open`] and [`entry_by_name`] say
/// anything of them.
pub uninterp spec fn archive_names(archive: ZipArchive<Cursor<Vec<u8>>>) -> Set<Seq<char>>;

/// What `zip::ZipArchive::new` makes of the bytes of an archive: the names
/// of the entries that the archive lists, or nothing where the bytes are no
/// archive that the crate can open. The bytes are read from memory, so this
/// depends on nothing but the bytes. Only [`archive_open`] says anything of
/// it.
pub uninterp spec fn archive_listing(bytes: Seq<u8>) -> Option<Set<Seq<char>>>;

/// `zip::ZipArchive::new` on an in-memory copy of the archive. The result
/// is named: the call succeeds on the bytes that have a listing, and the
/// archive that it gives lists those names. Which bytes form an archive is
/// the outside crate's to decide.
#[verifier::external_body]
pub(crate) fn archive_open(bytes: Vec<u8>) -> (r: Result<ZipArchive<Cursor<Vec<u8>>>, ZipError>)
    ensures
        match r {
            Ok(archive) => archive_listing(bytes@) == Some(archive_names(archive)),
            Err(_) => archive_listing(bytes@) is None,
        },
{
    ZipArchive::new(Cursor::new(bytes))
}

/// Whether an archive opens the entry called `name` for a reader that
/// gives an empty password: what `zip::ZipArchive::by_name_decrypt` comes
/// to for that name. It is fixed when the archive is opened; only
/// [`entry_by_name`] says anything of it.
pub uninterp spec fn entry_opens(archive: ZipArchive<Cursor<Vec<u8>>>, name: Seq<char>) -> bool;

/// What the entry called `name` hands out when it is opened and read to
/// its end or to its first failed read: see [`entry_unread`]. The archive is
/// held in memory, so this depends on nothing but the archive and the name.
/// Only [`entry_by_name`] says anything of it.
pub uninterp spec fn entry_content(archive: ZipArchive<Cursor<Vec<u8>>>, name: Seq<char>) -> Seq<
    u8,
>;

/// Whether the reading of the entry called `name` ends in a failed read,
/// after it has handed out its content, where a sound entry ends in a read
/// of nothing. Only [`entry_by_name`] says anything of it.
pub uninterp spec fn entry_breaks(archive: ZipArchive<Cursor<Vec<u8>>>, name: Seq<char>) -> bool;

/// Whether the reading of an open entry ends in a failed read, after it
/// has handed out what it has yet to hand out, where a sound entry ends in
/// a read of nothing. Only [`entry_by_name`] and [`entry_read`] say
/// anything of it.
pub uninterp spec fn entry_broken(entry: ZipFile) -> bool;

/// `zip::ZipArchive::by_name_decrypt` with an empty password, which hands
/// back both of its errors where `by_name` would unwind on the inner one.
/// The entry is opened exactly where the archive opens that name, and it
/// then has the content of that name yet to hand out and ends as that name
/// does; a name that the archive does not list is not found. What the
/// archive lists, opens and holds is the same afterwards. Of an entry that
/// is marked as encrypted the call tries the empty password where `by_name`
/// gives up at once; what comes of that is the outside crate's to decide.
#[verifier::external_body]
pub(crate) fn entry_by_name<'a>(
    archive: &'a mut ZipArchive<Cursor<Vec<u8>>>,
    name: &str,
) -> (r: Result<Result<ZipFile<'a>, InvalidPassword>, ZipError>)
    ensures
        (r matches Ok(found) && found is Ok) <==> entry_opens(*old(archive), name@),
        r matches Ok(Ok(entry)) ==> entry_unread(entry) == entry_content(*old(archive), name@)
            && entry_broken(entry) == entry_breaks(*old(archive), name@),
        !archive_names(*old(archive)).contains(name@) ==> r is Err,
        archive_names(*final(archive)) == archive_names(*old(archive)),
        forall|other: Seq<char>| #[trigger]
            entry_opens(*final(archive), other) == entry_opens(*old(archive), other),
        forall|other: Seq<char>| #[trigger]
            entry_content(*final(archive), other) == entry_content(*old(archive), other),
        forall|other: Seq<char>| #[trigger]
            entry_breaks(*final(archive), other) == entry_breaks(*old(archive), other),
{
    archive.by_name_decrypt(name, &[])
}

/// `std::io::Read::read` as `zip::read::ZipFile` implements it. A
/// successful read of `n` bytes fits the buffer, puts the next `n` unread
/// bytes of the entry at the start of the buffer and leaves the rest of the
/// entry unread; a read of no bytes means that the entry is exhausted. A
/// read fails exactly when nothing is left to hand out and the entry is one
/// whose reading ends in a failure. Nothing is claimed of the buffer behind
/// the bytes read, nor of the entry after a failed read.
#[verifier::external_body]
pub(crate) fn entry_read(entry: &mut ZipFile<'_>, buf: &mut [u8; CHUNK_SIZE]) -> (r: Result<
    usize,
    std::io::Error,
>)
    ensures
        r matches Ok(n) ==> {
            &&& n <= CHUNK_SIZE
            &&& n <= entry_unread(*old(entry)).len()
            &&& final(buf)@.subrange(0, n as int) == entry_unread(*old(entry)).subrange(0, n as int)
            &&& entry_unread(*final(entry)) == entry_unread(*old(entry)).skip(n as int)
            &&& (n == 0 ==> entry_unread(*old(entry)).len() == 0)
            &&& entry_broken(*final(entry)) == entry_broken(*old(entry))
        },
        r is Err <==> entry_unread(*old(entry)).len() == 0 && entry_broken(*old(entry)),
{
    std::io::Read::read(entry, buf)
}

} // verus!
