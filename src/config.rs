//! Where uploaded files are kept.

use vstd::prelude::*;

verus! {

/// The directory used where none is given.
pub open spec fn default_upload_dir() -> Seq<char> {
    seq!['u', 'p', 'l', 'o', 'a', 'd', 's']
}

/// The upload service's configuration: the directory that holds the stored
/// files, flat, one file per stored name.
#[derive(Debug)]
pub struct UploadConfig {
    pub upload_dir: String,
}

impl UploadConfig {
    /// A configuration that keeps files under `upload_dir`.
    pub fn new(upload_dir: String) -> (r: Self)
        ensures
            r.upload_dir@ == upload_dir@,
    {
        UploadConfig { upload_dir }
    }

    /// A configuration that keeps files under `uploads`.
    pub fn with_default_dir() -> (r: Self)
        ensures
            r.upload_dir@ == default_upload_dir(),
    {
        let upload_dir = String::from_str("uploads");
        proof {
            reveal_strlit("uploads");
            assert(upload_dir@ =~= default_upload_dir());
        }
        UploadConfig { upload_dir }
    }
}

} // verus!
