use vstd::prelude::*;
use crate::exports::ExportsMap;
use crate::path::FsPath;

verus! {

/// A parsed package manifest of the directory `dir`.
pub struct PkgInfo {
    pub dir: FsPath,
    pub name: Option<String>,
    pub main: Option<String>,
    pub exports: Option<ExportsMap>,
}

/// What the resolver can see of the disk: files, directories, the manifests that
/// parsed, and the directories whose manifest is there but could not be read.
pub struct FileSystem {
    pub files: Vec<FsPath>,
    pub dirs: Vec<FsPath>,
    pub manifests: Vec<PkgInfo>,
    pub broken: Vec<FsPath>,
}

pub open spec fn listed(v: Seq<FsPath>, p: Seq<Seq<char>>) -> bool {
    exists|i: int| 0 <= i < v.len() && v[i]@ == p
}

pub open spec fn first_manifest(ms: Seq<PkgInfo>, p: Seq<Seq<char>>, i: int) -> bool {
    0 <= i < ms.len() && ms[i].dir@ == p && forall|j: int| 0 <= j < i ==> ms[j].dir@ != p
}

pub open spec fn has_manifest(ms: Seq<PkgInfo>, p: Seq<Seq<char>>) -> bool {
    exists|i: int| 0 <= i < ms.len() && ms[i].dir@ == p
}

/// Outcome of looking for the manifest that governs a path.
pub enum PkgLookup {
    /// The manifest of the first so many components could not be read.
    Broken(int),
    Found(int),
    NotFound,
}

impl FileSystem {
    pub open spec fn is_file_spec(&self, p: Seq<Seq<char>>) -> bool {
        listed(self.files@, p)
    }

    pub open spec fn is_dir_spec(&self, p: Seq<Seq<char>>) -> bool {
        listed(self.dirs@, p)
    }

    /// The manifest nearest to `p`, looking at its first `k` components and up.
    pub open spec fn pkg_lookup(&self, p: Seq<Seq<char>>, k: int) -> PkgLookup
        decreases k + 1,
    {
        if k < 0 || k > p.len() {
            PkgLookup::NotFound
        } else if listed(self.broken@, p.subrange(0, k)) {
            PkgLookup::Broken(k)
        } else if has_manifest(self.manifests@, p.subrange(0, k)) {
            PkgLookup::Found(choose|i: int| first_manifest(self.manifests@, p.subrange(0, k), i))
        } else {
            self.pkg_lookup(p, k - 1)
        }
    }

    pub open spec fn pkg_of(&self, p: Seq<Seq<char>>) -> PkgLookup {
        self.pkg_lookup(p, p.len() as int)
    }

    pub fn is_file(&self, p: &FsPath) -> (r: bool)
        ensures
            r == self.is_file_spec(p@),
    {
        find_path(&self.files, p)
    }

    pub fn is_dir(&self, p: &FsPath) -> (r: bool)
        ensures
            r == self.is_dir_spec(p@),
    {
        find_path(&self.dirs, p)
    }

    pub fn path_exists(&self, p: &FsPath) -> (r: bool)
        ensures
            r == (self.is_file_spec(p@) || self.is_dir_spec(p@)),
    {
        self.is_file(p) || self.is_dir(p)
    }

    fn manifest_at(&self, p: &FsPath) -> (r: Option<usize>)
        ensures
            match r {
                Some(i) => first_manifest(self.manifests@, p@, i as int),
                None => !has_manifest(self.manifests@, p@),
            },
    {
        let mut i: usize = 0;
        while i < self.manifests.len()
            invariant
                0 <= i <= self.manifests@.len(),
                forall|j: int| 0 <= j < i ==> self.manifests@[j].dir@ != p@,
            decreases self.manifests@.len() - i,
        {
            if self.manifests[i].dir.eq_path(p) {
                return Some(i);
            }
            i = i + 1;
        }
        None
    }

    /// The manifest of `p` or of its nearest ancestor that has one:
    /// `Err` with its directory where the nearest one could not be read,
    /// `Ok(None)` where there is none.
    pub fn pkg_info(&self, p: &FsPath) -> (r: Result<Option<usize>, FsPath>)
        ensures
            match r {
                Err(q) => self.pkg_of(p@) == PkgLookup::Broken(q@.len() as int) && q@ == p@.subrange(
                    0,
                    q@.len() as int,
                ),
                Ok(None) => self.pkg_of(p@) is NotFound,
                Ok(Some(i)) => self.pkg_of(p@) == PkgLookup::Found(i as int) && i
                    < self.manifests@.len(),
            },
    {
        let mut k: usize = p.len();
        loop
            invariant
                k <= p@.len(),
                self.pkg_lookup(p@, k as int) == self.pkg_of(p@),
            decreases k,
        {
            let q = p.prefix(k);
            if find_path(&self.broken, &q) {
                return Err(q);
            }
            match self.manifest_at(&q) {
                Some(i) => {
                    proof {
                        let w = choose|w: int| first_manifest(self.manifests@, q@, w);
                        assert(first_manifest(self.manifests@, q@, w));
                        assert(w == i);
                    }
                    return Ok(Some(i));
                },
                None => {},
            }
            if k == 0 {
                assert(self.pkg_lookup(p@, -1) is NotFound);
                return Ok(None);
            }
            k = k - 1;
        }
    }
}

fn find_path(v: &Vec<FsPath>, p: &FsPath) -> (r: bool)
    ensures
        r == listed(v@, p@),
{
    let mut i: usize = 0;
    while i < v.len()
        invariant
            0 <= i <= v@.len(),
            forall|j: int| 0 <= j < i ==> v@[j]@ != p@,
        decreases v@.len() - i,
    {
        if v[i].eq_path(p) {
            return true;
        }
        i = i + 1;
    }
    false
}

} // verus!
