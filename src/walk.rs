//! Which entries of a directory listing the traversal enters or reads.
use vstd::prelude::*;

use crate::record::names;

verus! {

/// What a directory entry is.
#[derive(Debug, Clone, Copy, PartialEq, Eq, Structural)]
pub enum EntryKind {
    Directory,
    File,
    Other,
}

/// One entry of a directory listing: its file name and kind.
pub struct DirEntry {
    pub name: String,
    pub kind: EntryKind,
}

/// The subdirectories to enter and the regular files to read, each in
/// listing order.
pub struct Listing {
    pub directories: Vec<String>,
    pub files: Vec<String>,
}

/// The directory names whose subtrees are never visited: version-control
/// metadata, temporary files and CI configuration.
pub open spec fn excluded_name(n: Seq<char>) -> bool {
    n == ".git"@ || n == "tmp"@ || n == ".github"@
}

/// The names of the entries of `es` that are directories not excluded.
pub open spec fn dirs_to_enter(es: Seq<DirEntry>) -> Seq<Seq<char>>
    decreases es.len(),
{
    if es.len() == 0 {
        Seq::empty()
    } else if es.last().kind == EntryKind::Directory && !excluded_name(es.last().name@) {
        dirs_to_enter(es.drop_last()).push(es.last().name@)
    } else {
        dirs_to_enter(es.drop_last())
    }
}

/// The names of the entries of `es` that are regular files.
pub open spec fn files_to_read(es: Seq<DirEntry>) -> Seq<Seq<char>>
    decreases es.len(),
{
    if es.len() == 0 {
        Seq::empty()
    } else if es.last().kind == EntryKind::File {
        files_to_read(es.drop_last()).push(es.last().name@)
    } else {
        files_to_read(es.drop_last())
    }
}

/// Whether `a` and the literal `b` spell the same name.
fn same_name(a: &String, b: &str) -> (r: bool)
    ensures
        r == (a@ == b@),
{
    let t = String::from_str(b);
    a.eq(&t)
}

/// Whether a directory named `name` is skipped with its whole subtree.
pub fn is_excluded(name: &String) -> (r: bool)
    ensures
        r == excluded_name(name@),
{
    same_name(name, ".git") || same_name(name, "tmp") || same_name(name, ".github")
}

/// Decides, for the listing of the directory named `dir_name`, which
/// subdirectories to enter and which files to read. An excluded directory
/// yields nothing; inside any other, excluded subdirectories are left out and
/// entries that are neither directories nor regular files are ignored.
pub fn recursive_folder_analysis(dir_name: &String, entries: &Vec<DirEntry>) -> (r: Listing)
    ensures
        excluded_name(dir_name@) ==> names(r.directories@).len() == 0 && names(r.files@).len()
            == 0,
        !excluded_name(dir_name@) ==> names(r.directories@) == dirs_to_enter(entries@) && names(
            r.files@,
        ) == files_to_read(entries@),
{
    let mut directories: Vec<String> = Vec::new();
    let mut files: Vec<String> = Vec::new();
    if is_excluded(dir_name) {
        return Listing { directories, files };
    }
    let n = entries.len();
    let mut i: usize = 0;
    while i < n
        invariant
            n == entries@.len(),
            i <= n,
            names(directories@) == dirs_to_enter(entries@.take(i as int)),
            names(files@) == files_to_read(entries@.take(i as int)),
        decreases n - i,
    {
        let ghost es = entries@.take(i + 1);
        assert(es.drop_last() =~= entries@.take(i as int));
        assert(es.last() == entries@[i as int]);
        let e = &entries[i];
        let ghost dirs_before = directories@;
        let ghost files_before = files@;
        match e.kind {
            EntryKind::Directory => {
                if !is_excluded(&e.name) {
                    let name = e.name.clone();
                    directories.push(name);
                    assert(names(directories@) =~= names(dirs_before).push(name@));
                }
            },
            EntryKind::File => {
                let name = e.name.clone();
                files.push(name);
                assert(names(files@) =~= names(files_before).push(name@));
            },
            EntryKind::Other => {},
        }
        i += 1;
    }
    assert(entries@.take(n as int) =~= entries@);
    Listing { directories, files }
}

} // verus!
