use crate::text::str_eq;
use vstd::prelude::*;

verus! {

// The resolver never touches the filesystem itself: the caller hands it a
// snapshot of the directories on the circuit's search path, taken with
// whatever I/O layer it likes, and the resolver scans the snapshot.

/// One file found on the search path: the path under which the caller found
/// it, the directory it lies in (which anchors relative inclusion
/// arguments), and its full text.
pub struct SourceFile {
    pub path: String,
    pub dir: String,
    pub content: String,
}

impl Clone for SourceFile {
    fn clone(&self) -> (r: Self)
        ensures
            r == *self,
    {
        SourceFile { path: self.path.clone(), dir: self.dir.clone(), content: self.content.clone() }
    }
}

/// One directory of the snapshot: the path under which the circuit's search
/// path names it, and its files in the order the caller listed them.
pub struct SearchDir {
    pub path: String,
    pub files: Vec<SourceFile>,
}

/// The files of the first directory of `fs` listed under `path`; a path
/// without a directory in the snapshot contributes no files.
pub open spec fn dir_files(fs: Seq<SearchDir>, path: Seq<char>) -> Seq<SourceFile>
    decreases fs.len(),
{
    if fs.len() == 0 {
        Seq::empty()
    } else if fs[0].path@ == path {
        fs[0].files@
    } else {
        dir_files(fs.drop_first(), path)
    }
}

/// Every file visible from `pathlist`, in search order: the files of each
/// listed directory, directories in the order of `pathlist`.
pub open spec fn files_on(pathlist: Seq<String>, fs: Seq<SearchDir>) -> Seq<SourceFile>
    decreases pathlist.len(),
{
    if pathlist.len() == 0 {
        Seq::empty()
    } else {
        files_on(pathlist.drop_last(), fs) + dir_files(fs, pathlist.last()@)
    }
}

/// The files listed for `path` in the snapshot, if any directory matches.
fn dir_files_of<'a>(fs: &'a Vec<SearchDir>, path: &String) -> (r: Option<&'a Vec<SourceFile>>)
    ensures
        match r {
            Some(v) => v@ == dir_files(fs@, path@),
            None => dir_files(fs@, path@) == Seq::<SourceFile>::empty(),
        },
{
    let n = fs.len();
    let mut i: usize = 0;
    proof {
        assert(fs@.skip(0) =~= fs@);
    }
    while i < n
        invariant
            n == fs@.len(),
            0 <= i <= n,
            dir_files(fs@, path@) == dir_files(fs@.skip(i as int), path@),
        decreases n - i,
    {
        proof {
            assert(fs@.skip(i as int)[0] == fs@[i as int]);
            assert(fs@.skip(i as int).drop_first() =~= fs@.skip(i + 1 as int));
        }
        if str_eq(fs[i].path.as_str(), path.as_str()) {
            return Some(&fs[i].files);
        }
        i += 1;
    }
    proof {
        assert(dir_files(fs@.skip(n as int), path@) == Seq::<SourceFile>::empty());
    }
    None
}

/// Collects, in search order, every file that `pathlist` makes visible in
/// the snapshot `fs`.
pub fn collect_files(pathlist: &Vec<String>, fs: &Vec<SearchDir>) -> (r: Vec<SourceFile>)
    ensures
        r@ == files_on(pathlist@, fs@),
{
    let mut out: Vec<SourceFile> = Vec::new();
    let n = pathlist.len();
    let mut i: usize = 0;
    while i < n
        invariant
            n == pathlist@.len(),
            0 <= i <= n,
            out@ == files_on(pathlist@.take(i as int), fs@),
        decreases n - i,
    {
        proof {
            assert(pathlist@.take(i + 1 as int).drop_last() =~= pathlist@.take(i as int));
            assert(pathlist@.take(i + 1 as int).last() == pathlist@[i as int]);
        }
        match dir_files_of(fs, &pathlist[i]) {
            None => {
                proof {
                    assert(out@ =~= files_on(pathlist@.take(i + 1 as int), fs@));
                }
            },
            Some(v) => {
                let m = v.len();
                let mut j: usize = 0;
                while j < m
                    invariant
                        m == v@.len(),
                        0 <= j <= m,
                        v@ == dir_files(fs@, pathlist@[i as int]@),
                        out@ == files_on(pathlist@.take(i as int), fs@) + v@.take(j as int),
                    decreases m - j,
                {
                    out.push(v[j].clone());
                    proof {
                        assert(out@ =~= files_on(pathlist@.take(i as int), fs@) + v@.take(
                            j + 1 as int,
                        ));
                    }
                    j += 1;
                }
                proof {
                    assert(v@.take(m as int) =~= v@);
                    assert(pathlist@.take(i + 1 as int).drop_last() =~= pathlist@.take(i as int));
                    assert(out@ =~= files_on(pathlist@.take(i + 1 as int), fs@));
                }
            },
        }
        i += 1;
    }
    proof {
        assert(pathlist@.take(n as int) =~= pathlist@);
    }
    out
}

} // verus!
