//! The archive accessor: one trusted call that pulls `content.xml` out of
//! the container bytes.

use vstd::prelude::*;

verus! {

/// The bytes of the `content.xml` entry of an archive, when the archive and
/// the entry can be read; a function of the archive bytes alone.
pub uninterp spec fn zip_content_xml(b: Seq<u8>) -> Option<Seq<u8>>;

/// Relies on zip::ZipArchive::new, by_name and the entry's Read impl: the
/// decompressed bytes of `content.xml`, `None` when the archive or the
/// entry is missing or unreadable.
#[verifier::external_body]
pub fn read_content_xml(bytes: &[u8]) -> (r: Option<Vec<u8>>)
    ensures
        match r {
            Some(v) => zip_content_xml(bytes@) == Some(v@),
            None => zip_content_xml(bytes@) is None,
        },
{
    let cursor = std::io::Cursor::new(bytes);
    let mut archive = zip::ZipArchive::new(cursor).ok()?;
    let mut file = archive.by_name("content.xml").ok()?;
    let mut out: Vec<u8> = Vec::new();
    std::io::Read::read_to_end(&mut file, &mut out).ok()?;
    Some(out)
}

} // verus!
