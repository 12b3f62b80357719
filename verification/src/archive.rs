use vstd::prelude::*;
use crate::errors::EpubError;

verus! {

#[verifier::external_type_specification]
#[verifier::external_body]
#[verifier::reject_recursive_types(T)]
pub struct ExCursor<T>(std::io::Cursor<T>);

#[verifier::external_type_specification]
#[verifier::external_body]
#[verifier::reject_recursive_types(R)]
pub struct ExZipArchive<R>(zip::ZipArchive<R>);

/// An opened zip archive over an in-memory byte source.
pub type ByteArchive = zip::ZipArchive<std::io::Cursor<Vec<u8>>>;

/// What the archive holds: each entry name is mapped to `Some` of the
/// entry's text when its bytes decompress and decode as UTF-8 text, and to
/// `None` when the entry exists but cannot be read that way. A name that is
/// no entry of the archive is not in the map. Reading an entry depends on
/// the archive's contents alone.
pub uninterp spec fn archive_entries(archive: ByteArchive) -> Map<Seq<char>, Option<Seq<char>>>;

/// The text of the named entry, absent when there is no such entry or it is
/// not readable as text.
pub open spec fn read_text(entries: Map<Seq<char>, Option<Seq<char>>>, name: Seq<char>) -> Option<
    Seq<char>,
> {
    if entries.contains_key(name) {
        entries[name]
    } else {
        None
    }
}

/// What opening these bytes as a zip archive yields: the opened archive's
/// entry map when the bytes are a readable zip archive, `None` when they are
/// not. Opening depends on the bytes alone.
pub uninterp spec fn zip_entries(bytes: Seq<u8>) -> Option<Map<Seq<char>, Option<Seq<char>>>>;

/// Relies on `zip::ZipArchive::new`: it reads the central directory of a zip
/// archive from a byte source, deterministically in the bytes alone, and
/// fails exactly on a source it cannot read as a zip archive.
#[verifier::external_body]
pub fn zip_open(bytes: Vec<u8>) -> (r: Result<ByteArchive, EpubError>)
    ensures
        r matches Ok(a) ==> Some(archive_entries(a)) == zip_entries(bytes@),
        r is Ok <==> zip_entries(bytes@) is Some,
        r matches Err(e) ==> e matches EpubError::ArchiveOpen(_),
{
    match zip::ZipArchive::new(std::io::Cursor::new(bytes)) {
        Ok(a) => Ok(a),
        Err(e) => Err(EpubError::ArchiveOpen(format!("{}", e))),
    }
}

/// Relies on `zip::ZipArchive::by_name`, which finds an entry by its exact
/// name and fails with `FileNotFound` when there is none, and on
/// `std::io::Read::read_to_string`, which fails when the entry's bytes do
/// not decompress and decode as UTF-8 text. Reading moves only the backend's
/// cursor, so what the archive holds is unchanged.
#[verifier::external_body]
pub fn read_entry(archive: &mut ByteArchive, name: &str) -> (r: Result<String, EpubError>)
    ensures
        archive_entries(*final(archive)) == archive_entries(*old(archive)),
        r matches Ok(s) ==> read_text(archive_entries(*old(archive)), name@) == Some(s@),
        r is Err ==> read_text(archive_entries(*old(archive)), name@) is None,
        r matches Err(e) ==> match e {
            EpubError::ContentReadError(p) => p@ == name@ && !archive_entries(
                *old(archive),
            ).contains_key(name@),
            EpubError::ArchiveRead(_) => archive_entries(*old(archive)).contains_key(name@)
                && archive_entries(*old(archive))[name@] is None,
            _ => false,
        },
{
    let mut entry = match archive.by_name(name) {
        Ok(en) => en,
        Err(zip::result::ZipError::FileNotFound) => {
            return Err(EpubError::ContentReadError(name.to_string()));
        },
        Err(e) => {
            return Err(EpubError::ArchiveRead(format!("{}", e)));
        },
    };
    let mut content = String::new();
    match std::io::Read::read_to_string(&mut entry, &mut content) {
        Ok(_) => Ok(content),
        Err(e) => Err(EpubError::ArchiveRead(format!("{}", e))),
    }
}

} // verus!
