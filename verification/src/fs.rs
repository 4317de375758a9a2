//! A model of the part of the file system the engine consults: which static
//! archives exist, and which directories count as system roots.  The host
//! layer fills the archive list by checking the candidate paths on disk;
//! tests fill it directly.

use crate::strutil::concat3;
use crate::strutil::spec_has_prefix;
use crate::strutil::str_eq;
use vstd::prelude::*;
use vstd::string::StrSliceExecFns;

verus! {

/// The file-system view a probe works against: the set of static-archive
/// paths known to exist, and the platform's system root directories, under
/// which libraries are never linked statically by inference.
pub struct Fs {
    /// Paths of static archive files that exist on disk.
    pub files: Vec<String>,
    /// Directories whose contents count as system-provided.
    pub system_roots: Vec<String>,
}

/// True when `path` lies under the directory `root`: it is `root` itself or
/// continues it at a path-separator boundary.
pub open spec fn spec_under_root(path: Seq<char>, root: Seq<char>) -> bool {
    path == root || (spec_has_prefix(path, root) && path.len() > root.len() && path[root.len() as int]
        == '/')
}

/// The archive path searched for `lib<name>.a` inside `dir`: the directory
/// and file name joined with a single separator.
pub open spec fn spec_join_path(dir: Seq<char>, file: Seq<char>) -> Seq<char> {
    if dir.len() > 0 && dir[dir.len() - 1] == '/' {
        dir + file
    } else {
        dir + seq!['/'] + file
    }
}

/// The conventional static-archive file name for a library.
pub open spec fn spec_archive_name(name: Seq<char>) -> Seq<char> {
    "lib"@ + name + ".a"@
}

impl Fs {
    /// A file-system view with no archives and no system roots.
    pub fn new() -> (r: Fs)
        ensures
            r.files.deep_view() == Seq::<Seq<char>>::empty(),
            r.system_roots.deep_view() == Seq::<Seq<char>>::empty(),
    {
        let r = Fs { files: Vec::new(), system_roots: Vec::new() };
        assert(r.files.deep_view() =~= Seq::<Seq<char>>::empty());
        assert(r.system_roots.deep_view() =~= Seq::<Seq<char>>::empty());
        r
    }

    /// The view with one more archive path recorded as existing.
    pub fn with_file(self, path: &str) -> (r: Fs)
        ensures
            r.files.deep_view() == self.files.deep_view().push(path@),
            r.system_roots.deep_view() == self.system_roots.deep_view(),
    {
        let mut files = self.files;
        let ghost before = files.deep_view();
        files.push(path.to_owned());
        let r = Fs { files, system_roots: self.system_roots };
        assert(r.files.deep_view() =~= before.push(path@));
        r
    }

    /// The view with one more directory counted as a system root.
    pub fn with_system_root(self, root: &str) -> (r: Fs)
        ensures
            r.system_roots.deep_view() == self.system_roots.deep_view().push(root@),
            r.files.deep_view() == self.files.deep_view(),
    {
        let mut system_roots = self.system_roots;
        let ghost before = system_roots.deep_view();
        system_roots.push(root.to_owned());
        let r = Fs { files: self.files, system_roots };
        assert(r.system_roots.deep_view() =~= before.push(root@));
        r
    }

    /// True when the archive path is recorded as existing.
    pub open spec fn spec_file_exists(&self, path: Seq<char>) -> bool {
        self.files.deep_view().contains(path)
    }

    /// True when the directory lies under one of the system roots.
    pub open spec fn spec_is_system_dir(&self, dir: Seq<char>) -> bool {
        exists|i: int|
            0 <= i < self.system_roots.deep_view().len() && spec_under_root(
                dir,
                #[trigger] self.system_roots.deep_view()[i],
            )
    }

    /// Membership test for the recorded archive paths.
    pub fn file_exists(&self, path: &str) -> (r: bool)
        ensures
            r == self.spec_file_exists(path@),
    {
        let n = self.files.len();
        let mut i: usize = 0;
        while i < n
            invariant
                n == self.files.len(),
                i <= n,
                forall|j: int| 0 <= j < i ==> self.files.deep_view()[j] != path@,
            decreases n - i,
        {
            proof {
                assert(self.files.deep_view()[i as int] == self.files[i as int]@);
            }
            if str_eq(self.files[i].as_str(), path) {
                assert(self.files.deep_view().contains(path@));
                return true;
            }
            i = i + 1;
        }
        assert(!self.files.deep_view().contains(path@)) by {
            if self.files.deep_view().contains(path@) {
                let j = choose|j: int|
                    0 <= j < self.files.deep_view().len() && self.files.deep_view()[j] == path@;
            }
        }
        false
    }

    /// Test whether a directory lies under one of the system roots.
    pub fn is_system_dir(&self, dir: &str) -> (r: bool)
        ensures
            r == self.spec_is_system_dir(dir@),
    {
        let n = self.system_roots.len();
        let mut i: usize = 0;
        while i < n
            invariant
                n == self.system_roots.len(),
                i <= n,
                forall|j: int|
                    0 <= j < i ==> !spec_under_root(dir@, self.system_roots.deep_view()[j]),
            decreases n - i,
        {
            proof {
                assert(self.system_roots.deep_view()[i as int] == self.system_roots[i as int]@);
            }
            if under_root(dir, self.system_roots[i].as_str()) {
                return true;
            }
            i = i + 1;
        }
        false
    }
}

/// Test whether `path` is `root` or continues it at a `/` boundary.
pub fn under_root(path: &str, root: &str) -> (r: bool)
    ensures
        r == spec_under_root(path@, root@),
{
    if str_eq(path, root) {
        return true;
    }
    if crate::strutil::has_prefix(path, root) {
        let rlen = root.unicode_len();
        let plen = path.unicode_len();
        if plen > rlen && path.get_char(rlen) == '/' {
            return true;
        }
    }
    false
}

/// The archive path for `lib<name>.a` inside `dir`.
pub fn join_archive_path(dir: &str, name: &str) -> (r: String)
    ensures
        r@ == spec_join_path(dir@, spec_archive_name(name@)),
{
    let file = concat3("lib", name, ".a");
    let dlen = dir.unicode_len();
    proof {
        reveal_strlit("/");
        assert("/"@ =~= seq!['/']);
    }
    if dlen > 0 && dir.get_char(dlen - 1) == '/' {
        crate::strutil::concat2(dir, file.as_str())
    } else {
        let r = concat3(dir, "/", file.as_str());
        assert(r@ =~= spec_join_path(dir@, spec_archive_name(name@)));
        r
    }
}

/// True when a static archive for `name` can be found in one of `dirs`
/// outside every system root.
pub open spec fn spec_static_available(name: Seq<char>, dirs: Seq<Seq<char>>, fs: &Fs) -> bool {
    exists|i: int|
        0 <= i < dirs.len() && !fs.spec_is_system_dir(#[trigger] dirs[i]) && fs.spec_file_exists(
            spec_join_path(dirs[i], spec_archive_name(name)),
        )
}

/// Decides whether a static archive named `lib<name>.a` is locatable in one
/// of the discovered search-path directories, outside the known system
/// roots: system libraries should only be linked dynamically.
pub fn is_static_available(name: &str, dirs: &Vec<String>, fs: &Fs) -> (r: bool)
    ensures
        r == spec_static_available(name@, dirs.deep_view(), fs),
{
    let n = dirs.len();
    let mut i: usize = 0;
    while i < n
        invariant
            n == dirs.len(),
            i <= n,
            forall|j: int|
                0 <= j < i ==> !(!fs.spec_is_system_dir(#[trigger] dirs.deep_view()[j])
                    && fs.spec_file_exists(
                    spec_join_path(dirs.deep_view()[j], spec_archive_name(name@)),
                )),
        decreases n - i,
    {
        proof {
            assert(dirs.deep_view()[i as int] == dirs[i as int]@);
        }
        if !fs.is_system_dir(dirs[i].as_str()) {
            let candidate = join_archive_path(dirs[i].as_str(), name);
            if fs.file_exists(candidate.as_str()) {
                return true;
            }
        }
        i = i + 1;
    }
    false
}

} // verus!
