//! The two-stage resolution pipeline, as decisions over values the caller
//! has read.
//!
//! The caller reads the configuration store, the index file and the disk;
//! this module makes every decision on what was read: which value is the
//! install root, where the index file stands under it, which volume hosts
//! the application, what directory is derived from the volume, and whether
//! the run may go on once the disk has been consulted.

use vstd::prelude::*;
use crate::errors::ExtractionError;
use crate::errors::ResolutionError;
use crate::scan::scan_doc;
use crate::scan::scan_index;

verus! {

/// `rel` appended under `base` the way the platform joins paths: a
/// backslash separator is inserted unless `base` is empty or already ends
/// in a separator.
pub open spec fn joined(base: Seq<u8>, rel: Seq<u8>) -> Seq<u8> {
    if base.len() == 0 {
        rel
    } else if base[base.len() - 1] == 92 || base[base.len() - 1] == 47 {
        base + rel
    } else {
        base + seq![92u8] + rel
    }
}

/// The fixed location of the library index under the install root:
/// `config\libraryfolders.vdf`.
pub open spec fn index_rel_path() -> Seq<u8> {
    seq![
        99u8, 111u8, 110u8, 102u8, 105u8, 103u8, 92u8, 108u8, 105u8, 98u8, 114u8, 97u8, 114u8,
        121u8, 102u8, 111u8, 108u8, 100u8, 101u8, 114u8, 115u8, 46u8, 118u8, 100u8, 102u8,
    ]
}

/// The fixed subfolder of a library volume that holds the target
/// application: `steamapps\common\ProjectZomboid`.
pub open spec fn app_rel_path() -> Seq<u8> {
    seq![
        115u8, 116u8, 101u8, 97u8, 109u8, 97u8, 112u8, 112u8, 115u8, 92u8, 99u8, 111u8, 109u8,
        109u8, 111u8, 110u8, 92u8, 80u8, 114u8, 111u8, 106u8, 101u8, 99u8, 116u8, 90u8, 111u8,
        109u8, 98u8, 111u8, 105u8, 100u8,
    ]
}

/// The index file's relative location, as bytes.
pub fn index_rel_path_bytes() -> (r: Vec<u8>)
    ensures
        r@ == index_rel_path(),
{
    let a: [u8; 25] = [
        99, 111, 110, 102, 105, 103, 92, 108, 105, 98, 114, 97, 114, 121, 102, 111, 108, 100, 101,
        114, 115, 46, 118, 100, 102,
    ];
    let v = vstd::slice::slice_to_vec(vstd::array::array_as_slice(&a));
    proof {
        assert(v@ =~= index_rel_path());
    }
    v
}

/// The application's relative subfolder, as bytes.
pub fn app_rel_path_bytes() -> (r: Vec<u8>)
    ensures
        r@ == app_rel_path(),
{
    let a: [u8; 31] = [
        115, 116, 101, 97, 109, 97, 112, 112, 115, 92, 99, 111, 109, 109, 111, 110, 92, 80, 114,
        111, 106, 101, 99, 116, 90, 111, 109, 98, 111, 105, 100,
    ];
    let v = vstd::slice::slice_to_vec(vstd::array::array_as_slice(&a));
    proof {
        assert(v@ =~= app_rel_path());
    }
    v
}

/// Append `rel` under `base` with the platform separator.
pub fn join_under(base: &[u8], rel: &[u8]) -> (r: Vec<u8>)
    ensures
        r@ == joined(base@, rel@),
{
    let mut out: Vec<u8> = Vec::new();
    let mut i: usize = 0;
    while i < base.len()
        invariant
            0 <= i <= base@.len(),
            out@ == base@.subrange(0, i as int),
        decreases base@.len() - i,
    {
        out.push(base[i]);
        proof {
            assert(out@ =~= base@.subrange(0, i + 1));
        }
        i = i + 1;
    }
    proof {
        assert(out@ =~= base@);
    }
    if base.len() > 0 {
        let last = base[base.len() - 1];
        if last != 92 && last != 47 {
            out.push(92);
        }
    }
    let ghost head: Seq<u8> = out@;
    let mut t: usize = 0;
    while t < rel.len()
        invariant
            0 <= t <= rel@.len(),
            out@ == head + rel@.subrange(0, t as int),
        decreases rel@.len() - t,
    {
        out.push(rel[t]);
        proof {
            assert(out@ =~= head + rel@.subrange(0, t + 1));
        }
        t = t + 1;
    }
    proof {
        assert(out@ =~= joined(base@, rel@));
    }
    out
}

/// The install-root decision: a value read from the configuration store is
/// taken as the install root unchanged; a missing value ends the run.
pub fn resolve_install_root(value: Option<Vec<u8>>) -> (r: Result<Vec<u8>, ResolutionError>)
    ensures
        value matches Some(v) ==> (r matches Ok(p) && p@ == v@),
        value is None ==> (r matches Err(e) && e == ResolutionError::KeyNotFound),
{
    match value {
        Some(v) => Ok(v),
        None => Err(ResolutionError::KeyNotFound),
    }
}

/// Where the library index file stands under the install root.
pub fn index_file_path(install_root: &[u8]) -> (r: Vec<u8>)
    ensures
        r@ == joined(install_root@, index_rel_path()),
{
    let rel = index_rel_path_bytes();
    join_under(install_root, rel.as_slice())
}

/// Scan the index document for the volume hosting `app_id` and derive the
/// candidate application directory under it.
///
/// An empty document is rejected before any matching is tried; a document
/// the scan finds nothing in means the application is not recorded as
/// installed anywhere.
pub fn locate_app_dir(doc: &[u8], app_id: &[u8]) -> (r: Result<Vec<u8>, ExtractionError>)
    ensures
        doc@.len() == 0 ==> (r matches Err(e) && e == ExtractionError::EmptyIndex),
        doc@.len() > 0 && scan_doc(doc@, app_id@) is None ==> (r matches Err(e) && e
            == ExtractionError::AppNotFound),
        doc@.len() > 0 && scan_doc(doc@, app_id@) is Some ==> (r matches Ok(p) && p@ == joined(
            scan_doc(doc@, app_id@).unwrap(),
            app_rel_path(),
        )),
{
    if doc.len() == 0 {
        return Err(ExtractionError::EmptyIndex);
    }
    match scan_index(doc, app_id) {
        None => Err(ExtractionError::AppNotFound),
        Some(volume) => {
            let rel = app_rel_path_bytes();
            Ok(join_under(volume.as_slice(), rel.as_slice()))
        },
    }
}

/// The whole extraction decision over the index file's observed content,
/// where `None` stands for a file that could not be read at all.
pub fn extract(index: Option<Vec<u8>>, app_id: &[u8]) -> (r: Result<Vec<u8>, ExtractionError>)
    ensures
        index is None ==> (r matches Err(e) && e == ExtractionError::FileNotFound),
        index matches Some(d) ==> (d@.len() == 0 ==> (r matches Err(e) && e
            == ExtractionError::EmptyIndex)),
        index matches Some(d) ==> (d@.len() > 0 && scan_doc(d@, app_id@) is None ==> (r matches Err(
            e,
        ) && e == ExtractionError::AppNotFound)),
        index matches Some(d) ==> (d@.len() > 0 && scan_doc(d@, app_id@) is Some ==> (r matches Ok(
            p,
        ) && p@ == joined(scan_doc(d@, app_id@).unwrap(), app_rel_path()))),
{
    match index {
        None => Err(ExtractionError::FileNotFound),
        Some(doc) => locate_app_dir(doc.as_slice(), app_id),
    }
}

/// The final validation decision: `present` reports whether the caller
/// found the derived directory on disk. Only a directory that is present is
/// handed on; an absent one ends the run, however the index was matched.
pub fn confirm_app_dir(dir: Vec<u8>, present: bool) -> (r: Result<Vec<u8>, ExtractionError>)
    ensures
        present ==> (r matches Ok(p) && p@ == dir@),
        !present ==> (r matches Err(e) && e == ExtractionError::DirectoryMissing),
{
    if present {
        Ok(dir)
    } else {
        Err(ExtractionError::DirectoryMissing)
    }
}

} // verus!
