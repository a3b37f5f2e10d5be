//! Request planning for the three transfer operations.
//!
//! Each operation first validates its inputs and only then yields a plan —
//! the exact request to issue. A validation failure yields an error and no
//! plan, so no request is ever issued for a rejected input. The caller that
//! owns the network edge performs a plan verbatim.

use vstd::prelude::*;
use crate::content_type::{content_type_for, inferred_type};
use crate::errors::TransferError;
use crate::paths::{has_parent, join_under, joined_path, parent_dir, parent_of};

verus! {

/// The request an upload issues: a put of the body read from the local
/// path, stored under the key, tagged with the content type.
pub struct UploadPlan {
    pub bucket: String,
    pub key: String,
    pub content_type: String,
}

/// The request a download issues, and where its body goes: a get of the
/// key, streamed to `file_path`, whose parent directory `parent` must
/// exist (and may have to be created) before the file is written.
pub struct DownloadPlan {
    pub bucket: String,
    pub key: String,
    pub file_path: String,
    pub parent: String,
}

/// Plans an upload of the file at `path` into `bucket`.
///
/// `path_exists` reports whether the local path exists; a missing source
/// is rejected before any request is built. The remote key is the local
/// path's text verbatim, separators included, and the content type is
/// inferred from the path's extension.
pub fn plan_upload(path_exists: bool, bucket: &str, path: &str) -> (r: Result<
    UploadPlan,
    TransferError,
>)
    ensures
        match r {
            Ok(p) => path_exists && p.bucket@ == bucket@ && p.key@ == path@ && p.content_type@
                == inferred_type(path@),
            Err(e) => !path_exists && e == TransferError::NotFound,
        },
{
    if !path_exists {
        return Err(TransferError::NotFound);
    }
    let content_type = content_type_for(path);
    Ok(UploadPlan { bucket: bucket.to_owned(), key: path.to_owned(), content_type })
}

/// Plans a download of `key` from `bucket` into the directory `dest_dir`.
///
/// `dir_is_dir` reports whether `dest_dir` exists and is a directory; a
/// missing destination is rejected before any request is built. The file
/// path is the destination joined with the key, and a key whose joined
/// path has no usable parent directory is rejected too.
pub fn plan_download(dir_is_dir: bool, bucket: &str, key: &str, dest_dir: &str) -> (r: Result<
    DownloadPlan,
    TransferError,
>)
    ensures
        match r {
            Ok(p) => dir_is_dir && has_parent(joined_path(dest_dir@, key@)) && p.bucket@
                == bucket@ && p.key@ == key@ && p.file_path@ == joined_path(dest_dir@, key@)
                && p.parent@ == parent_of(joined_path(dest_dir@, key@)),
            Err(e) => (e == TransferError::InvalidDestination && !dir_is_dir) || (e
                == TransferError::InvalidKey && dir_is_dir && !has_parent(
                joined_path(dest_dir@, key@),
            )),
        },
{
    if !dir_is_dir {
        return Err(TransferError::InvalidDestination);
    }
    let file_path = join_under(dest_dir, key);
    match parent_dir(file_path.as_str()) {
        Some(parent) => Ok(
            DownloadPlan { bucket: bucket.to_owned(), key: key.to_owned(), file_path, parent },
        ),
        None => Err(TransferError::InvalidKey),
    }
}

/// The keys present in a listing response: each entry's key in order,
/// entries without a key skipped.
pub open spec fn present_keys(entries: Seq<Option<String>>) -> Seq<Seq<char>>
    decreases entries.len(),
{
    if entries.len() == 0 {
        Seq::empty()
    } else {
        let rest = present_keys(entries.drop_last());
        match entries.last() {
            Some(k) => rest.push(k@),
            None => rest,
        }
    }
}

/// Extracts the keys from a listing response's entries, in response order;
/// an entry lacking a key is silently skipped, not an error.
pub fn collect_keys(entries: &Vec<Option<String>>) -> (r: Vec<String>)
    ensures
        r@.map_values(|s: String| s@) == present_keys(entries@),
{
    let mut r: Vec<String> = Vec::new();
    let mut i: usize = 0;
    while i < entries.len()
        invariant
            i <= entries@.len(),
            r@.map_values(|s: String| s@) == present_keys(entries@.take(i as int)),
        decreases entries@.len() - i,
    {
        proof {
            assert(entries@.take(i + 1).drop_last() =~= entries@.take(i as int));
            assert(entries@.take(i + 1).last() == entries@[i as int]);
        }
        match &entries[i] {
            Some(k) => {
                let ghost prev = r@;
                r.push(k.clone());
                proof {
                    assert(r@.map_values(|s: String| s@) =~= prev.map_values(|s: String| s@).push(
                        k@,
                    ));
                }
            },
            None => {},
        }
        i = i + 1;
    }
    proof {
        assert(entries@.take(entries@.len() as int) =~= entries@);
    }
    r
}

/// Appends one response page's keys to an accumulated listing.
///
/// A single listing request returns at most one page; a caller that needs
/// completeness loops on the store's continuation token and folds each
/// page in with this function, in response order.
pub fn append_page_keys(acc: &mut Vec<String>, page: &Vec<Option<String>>)
    ensures
        final(acc)@.map_values(|s: String| s@) == old(acc)@.map_values(|s: String| s@)
            + present_keys(page@),
{
    let mut more = collect_keys(page);
    let ghost before = acc@;
    let ghost added = more@;
    acc.append(&mut more);
    proof {
        assert(acc@.map_values(|s: String| s@) =~= before.map_values(|s: String| s@)
            + added.map_values(|s: String| s@));
    }
}

} // verus!
