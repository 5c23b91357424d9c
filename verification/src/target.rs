//! Which directory entries are worth opening.

use vstd::prelude::*;

verus! {

/// A regular file that is not empty: something a scan may open.
#[derive(Debug)]
pub struct LintTarget {
    path: String,
    size: u64,
}

/// Whether an entry of the given kind and size is a target: a regular file
/// whose size is known and is not zero.
pub open spec fn is_target(is_file: bool, size: Option<u64>) -> bool {
    is_file && (size matches Some(bytes) && bytes > 0)
}

impl LintTarget {
    /// Every target has at least one byte.
    #[verifier::type_invariant]
    spec fn nonempty(self) -> bool {
        self.size > 0
    }

    /// The path of the file.
    pub closed spec fn spec_path(&self) -> Seq<char> {
        self.path@
    }

    /// The size of the file in bytes.
    pub closed spec fn spec_size(&self) -> u64 {
        self.size
    }

    /// Makes a target of a directory entry, given whether it is a regular
    /// file and its size where its metadata could be read. Directories,
    /// links, special files, entries without metadata and empty files give
    /// `None`.
    pub fn new(path: String, is_file: bool, size: Option<u64>) -> (made: Option<LintTarget>)
        ensures
            made is Some <==> is_target(is_file, size),
            made matches Some(target) ==> target.spec_path() == path@ && Some(
                target.spec_size(),
            ) == size,
    {
        if !is_file {
            return None;
        }
        match size {
            None => None,
            Some(bytes) => {
                if bytes == 0 {
                    None
                } else {
                    Some(LintTarget { path, size: bytes })
                }
            },
        }
    }

    /// The path of the file.
    pub fn path(&self) -> (path: &str)
        ensures
            path@ == self.spec_path(),
    {
        self.path.as_str()
    }

    /// The size of the file in bytes, which is never zero.
    pub fn size(&self) -> (size: u64)
        ensures
            size == self.spec_size(),
            size > 0,
    {
        proof {
            use_type_invariant(self);
        }
        self.size
    }
}

} // verus!
