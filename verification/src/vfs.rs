//! The file tree the static handler serves, as plain values: each entry an
//! absolute path and its content. A path names a directory when some file
//! lives strictly below it. The process that fills this in (reading from
//! disk) stays outside the library; the serving logic is verified against
//! this model.

use vstd::prelude::*;

use crate::bytes::{begins_with, begins_with_exec, bytes_eq, push_all};
use vstd::string::StringSliceAdditionalSpecFns;

verus! {

/// One file: where it lives and what it holds.
pub struct VfsFile {
    pub path: Vec<u8>,
    pub content: Vec<u8>,
}

impl View for VfsFile {
    type V = (Seq<u8>, Seq<u8>);

    open spec fn view(&self) -> (Seq<u8>, Seq<u8>) {
        (self.path@, self.content@)
    }
}

/// The tree of files available to the static handler.
pub struct Vfs {
    pub files: Vec<VfsFile>,
}

impl View for Vfs {
    type V = Seq<(Seq<u8>, Seq<u8>)>;

    open spec fn view(&self) -> Seq<(Seq<u8>, Seq<u8>)> {
        self.files@.map_values(|f: VfsFile| f@)
    }
}

/// The content of the first file stored at exactly `path`.
pub open spec fn spec_lookup(files: Seq<(Seq<u8>, Seq<u8>)>, path: Seq<u8>) -> Option<Seq<u8>>
    decreases files.len(),
{
    if files.len() == 0 {
        None
    } else if files[0].0 == path {
        Some(files[0].1)
    } else {
        spec_lookup(files.skip(1), path)
    }
}

/// `path` names a directory: some file lives strictly below it.
pub open spec fn spec_is_dir(files: Seq<(Seq<u8>, Seq<u8>)>, path: Seq<u8>) -> bool {
    exists|k: int|
        0 <= k < files.len() && begins_with(#[trigger] files[k].0, path + "/".spec_bytes())
}

/// `path` names either a file or a directory.
pub open spec fn spec_contains_path(files: Seq<(Seq<u8>, Seq<u8>)>, path: Seq<u8>) -> bool {
    spec_lookup(files, path) is Some || spec_is_dir(files, path)
}

impl Vfs {
    /// A tree with no files.
    pub fn new() -> (r: Vfs)
        ensures
            r@ == Seq::<(Seq<u8>, Seq<u8>)>::empty(),
    {
        let r = Vfs { files: Vec::new() };
        proof {
            assert(r@ =~= Seq::<(Seq<u8>, Seq<u8>)>::empty());
        }
        r
    }

    /// Add one file.
    pub fn add(&mut self, path: &str, content: &str)
        ensures
            final(self)@ == old(self)@.push((path.spec_bytes(), content.spec_bytes())),
    {
        let p = crate::bytes::copy_bytes(path.as_bytes());
        let c = crate::bytes::copy_bytes(content.as_bytes());
        self.add_bytes(p, c);
    }

    /// Add one file given as bytes.
    pub fn add_bytes(&mut self, path: Vec<u8>, content: Vec<u8>)
        ensures
            final(self)@ == old(self)@.push((path@, content@)),
    {
        let ghost before = self@;
        self.files.push(VfsFile { path, content });
        proof {
            assert(self@ =~= before.push((path@, content@)));
        }
    }

    /// The content of the first file stored at exactly `path`.
    pub fn lookup(&self, path: &[u8]) -> (r: Option<&Vec<u8>>)
        ensures
            match r {
                Some(c) => spec_lookup(self@, path@) == Some(c@),
                None => spec_lookup(self@, path@) is None,
            },
    {
        let mut i: usize = 0;
        proof {
            assert(self@.skip(0) =~= self@);
        }
        while i < self.files.len()
            invariant
                i <= self.files.len(),
                spec_lookup(self@, path@) == spec_lookup(self@.skip(i as int), path@),
            decreases self.files.len() - i,
        {
            let ghost rest = self@.skip(i as int);
            proof {
                assert(rest[0] == self@[i as int]);
                assert(rest.skip(1) =~= self@.skip(i + 1));
            }
            if bytes_eq(self.files[i].path.as_slice(), path) {
                return Some(&self.files[i].content);
            }
            i += 1;
        }
        proof {
            assert(self@.skip(self@.len() as int) =~= Seq::<(Seq<u8>, Seq<u8>)>::empty());
        }
        None
    }

    /// Whether `path` names a directory (executable form of
    /// `spec_is_dir`).
    pub fn is_dir(&self, path: &[u8]) -> (r: bool)
        ensures
            r == spec_is_dir(self@, path@),
    {
        let mut probe = crate::bytes::copy_bytes(path);
        push_all(&mut probe, "/".as_bytes());
        let mut i: usize = 0;
        while i < self.files.len()
            invariant
                i <= self.files.len(),
                probe@ == path@ + "/".spec_bytes(),
                forall|k: int| 0 <= k < i ==> !begins_with(#[trigger] self@[k].0, probe@),
            decreases self.files.len() - i,
        {
            if begins_with_exec(self.files[i].path.as_slice(), probe.as_slice()) {
                assert(begins_with(self@[i as int].0, path@ + "/".spec_bytes()));
                return true;
            }
            i += 1;
        }
        false
    }

    /// Whether `path` names either a file or a directory.
    pub fn contains_path(&self, path: &[u8]) -> (r: bool)
        ensures
            r == spec_contains_path(self@, path@),
    {
        self.lookup(path).is_some() || self.is_dir(path)
    }
}

} // verus!
