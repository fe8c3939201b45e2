use vstd::prelude::*;

use crate::text::{bytes_eq, copy_bytes};

verus! {


/// What one HTTP GET of a rootfs URL came back with: a transport failure,
/// or a completed exchange with a status code and a body.
#[derive(Clone, PartialEq, Eq, Debug)]
pub enum FetchOutcome {
    TransportError,
    Completed { code: u16, body: Vec<u8> },
}

/// The model of one file.
#[verifier::ext_equal]
pub struct FileModel {
    pub path: Seq<u8>,
    pub contents: Seq<u8>,
}

/// One cached file: a path and its contents.
#[derive(Clone, PartialEq, Eq, Debug)]
pub struct FileEntry {
    pub path: Vec<u8>,
    pub contents: Vec<u8>,
}

impl View for FileEntry {
    type V = FileModel;

    open spec fn view(&self) -> FileModel {
        FileModel { path: self.path@, contents: self.contents@ }
    }
}

impl DeepView for FileEntry {
    type V = FileModel;

    open spec fn deep_view(&self) -> FileModel {
        self.view()
    }
}

/// The index of the first file at `path`, or -1 when there is none.
pub open spec fn first_file_index(files: Seq<FileModel>, path: Seq<u8>) -> int
    decreases files.len(),
{
    if files.len() == 0 {
        -1
    } else if files[0].path == path {
        0
    } else {
        let rest = first_file_index(files.drop_first(), path);
        if rest == -1 {
            -1
        } else {
            rest + 1
        }
    }
}

/// `first_file_index` finds exactly the first match.
pub proof fn lemma_first_file_index(files: Seq<FileModel>, path: Seq<u8>)
    ensures
        first_file_index(files, path) == -1 ==> forall|j: int|
            0 <= j < files.len() ==> (#[trigger] files[j]).path != path,
        first_file_index(files, path) != -1 ==> {
            &&& 0 <= first_file_index(files, path) < files.len()
            &&& files[first_file_index(files, path)].path == path
        },
    decreases files.len(),
{
    if files.len() > 0 && files[0].path != path {
        lemma_first_file_index(files.drop_first(), path);
        let rest = first_file_index(files.drop_first(), path);
        if rest == -1 {
            assert forall|j: int| 0 <= j < files.len() implies (#[trigger] files[j]).path
                != path by {
                if j > 0 {
                    assert(files[j] == files.drop_first()[j - 1]);
                }
            }
        } else {
            assert(files[rest + 1] == files.drop_first()[rest]);
        }
    }
}

/// A sequence of byte-string vectors, as their views.
pub open spec fn byte_seqs(v: Seq<Vec<u8>>) -> Seq<Seq<u8>> {
    Seq::new(v.len(), |i: int| v[i]@)
}

/// The slice of the filesystem that the image cache lives in: which
/// directories exist, and which files with which contents. The unverified
/// shell keeps the real disk in step with every transition of this value;
/// files only ever appear or are removed with their directory, never
/// mutated in place once a reader can see them.
pub struct FsState {
    pub dirs: Vec<Vec<u8>>,
    pub files: Vec<FileEntry>,
}

impl FsState {
    /// The files, as their models.
    pub open spec fn files_model(self) -> Seq<FileModel> {
        self.files.deep_view()
    }

    /// The directories, as byte strings.
    pub open spec fn dirs_model(self) -> Seq<Seq<u8>> {
        byte_seqs(self.dirs@)
    }

    /// Whether a file exists at `path`.
    pub open spec fn has_file(self, path: Seq<u8>) -> bool {
        first_file_index(self.files_model(), path) != -1
    }

    /// The contents of the first file at `path`.
    pub open spec fn file_contents(self, path: Seq<u8>) -> Seq<u8> {
        self.files_model()[first_file_index(self.files_model(), path)].contents
    }

    /// Whether a directory exists at `path`.
    pub open spec fn has_dir(self, path: Seq<u8>) -> bool {
        self.dirs_model().contains(path)
    }

    /// An empty filesystem model.
    pub fn new() -> (r: FsState)
        ensures
            r.files_model() == Seq::<FileModel>::empty(),
            r.dirs_model() == Seq::<Seq<u8>>::empty(),
    {
        let r = FsState { dirs: Vec::new(), files: Vec::new() };
        assert(r.files_model() =~= Seq::<FileModel>::empty());
        assert(r.dirs_model() =~= Seq::<Seq<u8>>::empty());
        r
    }

    /// Whether a file exists at `path`.
    pub fn file_exists(&self, path: &Vec<u8>) -> (r: bool)
        ensures
            r == self.has_file(path@),
    {
        proof {
            lemma_first_file_index(self.files_model(), path@);
        }
        let n: usize = self.files.len();
        let mut i: usize = 0;
        while i < n
            invariant
                n == self.files@.len(),
                i <= n,
                forall|j: int| 0 <= j < i ==> (#[trigger] self.files_model()[j]).path != path@,
            decreases n - i,
        {
            if bytes_eq(&self.files[i].path, path) {
                proof {
                    lemma_first_file_found(self.files_model(), path@, i as int);
                }
                return true;
            }
            i = i + 1;
        }
        proof {
            lemma_first_file_missing(self.files_model(), path@);
        }
        false
    }

    /// Read the contents of the file at `path`.
    pub fn read_file(&self, path: &Vec<u8>) -> (r: Option<Vec<u8>>)
        ensures
            match r {
                Some(c) => self.has_file(path@) && c@ == self.file_contents(path@),
                None => !self.has_file(path@),
            },
    {
        proof {
            lemma_first_file_index(self.files_model(), path@);
        }
        let n: usize = self.files.len();
        let mut i: usize = 0;
        while i < n
            invariant
                n == self.files@.len(),
                i <= n,
                forall|j: int| 0 <= j < i ==> (#[trigger] self.files_model()[j]).path != path@,
            decreases n - i,
        {
            if bytes_eq(&self.files[i].path, path) {
                proof {
                    lemma_first_file_found(self.files_model(), path@, i as int);
                }
                return Some(copy_bytes(&self.files[i].contents));
            }
            i = i + 1;
        }
        proof {
            lemma_first_file_missing(self.files_model(), path@);
        }
        None
    }

    /// Create a directory; fails, changing nothing, when it already exists.
    pub fn create_dir(&mut self, path: &Vec<u8>) -> (r: Result<(), ()>)
        ensures
            match r {
                Ok(_) => {
                    &&& !old(self).has_dir(path@)
                    &&& final(self).dirs_model() == old(self).dirs_model().push(path@)
                    &&& final(self).files_model() == old(self).files_model()
                },
                Err(_) => {
                    &&& old(self).has_dir(path@)
                    &&& *final(self) == *old(self)
                },
            },
    {
        let n: usize = self.dirs.len();
        let mut i: usize = 0;
        while i < n
            invariant
                *self == *old(self),
                n == self.dirs@.len(),
                i <= n,
                forall|j: int| 0 <= j < i ==> #[trigger] self.dirs_model()[j] != path@,
            decreases n - i,
        {
            if bytes_eq(&self.dirs[i], path) {
                assert(old(self).dirs_model()[i as int] == path@);
                return Err(());
            }
            i = i + 1;
        }
        assert(!old(self).has_dir(path@));
        self.dirs.push(copy_bytes(path));
        assert(self.dirs_model() =~= old(self).dirs_model().push(path@));
        assert(self.files_model() =~= old(self).files_model());
        Ok(())
    }

    /// Write a whole file at `path`: it appears with exactly `contents`.
    /// A file already at `path` is replaced, as the real call truncates.
    pub fn write_file(&mut self, path: Vec<u8>, contents: Vec<u8>)
        ensures
            final(self).dirs_model() == old(self).dirs_model(),
            final(self).files_model() == (if old(self).has_file(path@) {
                old(self).files_model().update(
                    first_file_index(old(self).files_model(), path@),
                    FileModel { path: path@, contents: contents@ },
                )
            } else {
                old(self).files_model().push(FileModel { path: path@, contents: contents@ })
            }),
            final(self).has_file(path@),
            final(self).file_contents(path@) == contents@,
    {
        proof {
            lemma_first_file_index(old(self).files_model(), path@);
        }
        let ghost target = first_file_index(old(self).files_model(), path@);
        let n: usize = self.files.len();
        let mut i: usize = 0;
        while i < n
            invariant
                *self == *old(self),
                n == self.files@.len(),
                i <= n,
                target == first_file_index(old(self).files_model(), path@),
                forall|j: int| 0 <= j < i ==> (#[trigger] self.files_model()[j]).path != path@,
                target != -1 ==> i <= target < n && old(self).files_model()[target].path
                    == path@,
            decreases n - i,
        {
            if bytes_eq(&self.files[i].path, &path) {
                proof {
                    lemma_first_file_found(old(self).files_model(), path@, i as int);
                }
                let ghost p = path@;
                let ghost c = contents@;
                self.files.set(i, FileEntry { path, contents });
                proof {
                    assert(self.files_model() =~= old(self).files_model().update(
                        target,
                        FileModel { path: p, contents: c },
                    ));
                    lemma_first_file_found(self.files_model(), p, i as int);
                }
                return;
            }
            i = i + 1;
        }
        proof {
            lemma_first_file_missing(old(self).files_model(), path@);
        }
        let ghost p = path@;
        let ghost c = contents@;
        self.files.push(FileEntry { path, contents });
        proof {
            assert(self.files_model() =~= old(self).files_model().push(
                FileModel { path: p, contents: c },
            ));
            lemma_first_file_found(self.files_model(), p, n as int);
        }
    }

    /// Remove the directory at `dir` and every file under it, as a
    /// recursive delete does. A missing directory is fine: nothing changes
    /// but the (absent) entry.
    pub fn remove_dir_all(&mut self, dir: &Vec<u8>)
        ensures
            final(self).dirs_model() == remove_dir_entry(old(self).dirs_model(), dir@),
            final(self).files_model() == remove_under(old(self).files_model(), dir@),
    {
        let mut kept_dirs: Vec<Vec<u8>> = Vec::new();
        let nd: usize = self.dirs.len();
        let mut i: usize = 0;
        while i < nd
            invariant
                *self == *old(self),
                nd == self.dirs@.len(),
                i <= nd,
                byte_seqs(kept_dirs@) == remove_dir_entry(
                    old(self).dirs_model().subrange(0, i as int),
                    dir@,
                ),
            decreases nd - i,
        {
            let ghost pre = old(self).dirs_model().subrange(0, i as int);
            if !bytes_eq(&self.dirs[i], dir) {
                kept_dirs.push(copy_bytes(&self.dirs[i]));
            }
            i = i + 1;
            proof {
                let post = old(self).dirs_model().subrange(0, i as int);
                assert(post.drop_last() =~= pre);
                reveal(Seq::filter);
                assert(byte_seqs(kept_dirs@) =~= remove_dir_entry(post, dir@));
            }
        }
        let mut kept_files: Vec<FileEntry> = Vec::new();
        let nf: usize = self.files.len();
        let mut k: usize = 0;
        while k < nf
            invariant
                *self == *old(self),
                nf == self.files@.len(),
                k <= nf,
                kept_files.deep_view() == remove_under(
                    old(self).files_model().subrange(0, k as int),
                    dir@,
                ),
            decreases nf - k,
        {
            let ghost pre = old(self).files_model().subrange(0, k as int);
            if !path_under(&self.files[k].path, dir) {
                kept_files.push(
                    FileEntry {
                        path: copy_bytes(&self.files[k].path),
                        contents: copy_bytes(&self.files[k].contents),
                    },
                );
            }
            k = k + 1;
            proof {
                let post = old(self).files_model().subrange(0, k as int);
                assert(post.drop_last() =~= pre);
                reveal(Seq::filter);
                assert(kept_files.deep_view() =~= remove_under(post, dir@));
            }
        }
        self.dirs = kept_dirs;
        self.files = kept_files;
        assert(old(self).dirs_model().subrange(0, nd as int) =~= old(self).dirs_model());
        assert(old(self).files_model().subrange(0, nf as int) =~= old(self).files_model());
    }
}

/// Whether `path` lies under the directory `dir`.
pub open spec fn spec_path_under(path: Seq<u8>, dir: Seq<u8>) -> bool {
    path.len() > dir.len() && path.subrange(0, dir.len() as int) == dir && path[dir.len() as int]
        == 47
}

/// Whether `path` lies under the directory `dir`.
pub fn path_under(path: &Vec<u8>, dir: &Vec<u8>) -> (r: bool)
    ensures
        r == spec_path_under(path@, dir@),
{
    if path.len() <= dir.len() {
        return false;
    }
    if path[dir.len()] != 47 {
        return false;
    }
    let n: usize = dir.len();
    let mut i: usize = 0;
    while i < n
        invariant
            n == dir@.len() < path@.len(),
            i <= n,
            forall|j: int| 0 <= j < i ==> path@[j] == dir@[j],
        decreases n - i,
    {
        if path[i] != dir[i] {
            assert(path@.subrange(0, n as int)[i as int] != dir@[i as int]);
            return false;
        }
        i = i + 1;
    }
    assert(path@.subrange(0, n as int) =~= dir@);
    true
}

/// `dirs` without the entry `dir`.
pub open spec fn remove_dir_entry(dirs: Seq<Seq<u8>>, dir: Seq<u8>) -> Seq<Seq<u8>> {
    dirs.filter(|d: Seq<u8>| d != dir)
}

/// `files` without those under the directory `dir`.
pub open spec fn remove_under(files: Seq<FileModel>, dir: Seq<u8>) -> Seq<FileModel> {
    files.filter(|f: FileModel| !spec_path_under(f.path, dir))
}

/// Removing a directory leaves no entry of its name.
pub proof fn lemma_remove_dir_entry_gone(dirs: Seq<Seq<u8>>, dir: Seq<u8>)
    ensures
        forall|i: int|
            0 <= i < remove_dir_entry(dirs, dir).len() ==> #[trigger] remove_dir_entry(
                dirs,
                dir,
            )[i] != dir,
    decreases dirs.len(),
{
    reveal(Seq::filter);
    if dirs.len() > 0 {
        lemma_remove_dir_entry_gone(dirs.drop_last(), dir);
    }
}

/// Helper for `first_file_index`: a match at `i` after no match before `i`
/// is the first match.
pub proof fn lemma_first_file_found(files: Seq<FileModel>, path: Seq<u8>, i: int)
    requires
        0 <= i < files.len(),
        files[i].path == path,
        forall|j: int| 0 <= j < i ==> (#[trigger] files[j]).path != path,
    ensures
        first_file_index(files, path) == i,
    decreases i,
{
    if i > 0 {
        lemma_first_file_found(files.drop_first(), path, i - 1);
    }
}

/// Helper for `first_file_index`: no match anywhere means no first match.
pub proof fn lemma_first_file_missing(files: Seq<FileModel>, path: Seq<u8>)
    requires
        forall|j: int| 0 <= j < files.len() ==> (#[trigger] files[j]).path != path,
    ensures
        first_file_index(files, path) == -1,
    decreases files.len(),
{
    if files.len() > 0 {
        lemma_first_file_missing(files.drop_first(), path);
    }
}

} // verus!
