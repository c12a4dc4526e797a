use vstd::prelude::*;
use std::io::Read;
use crate::installer::ErrorKind;
use crate::text::{ends_with, ends_with_spec};

verus! {

#[verifier::external_type_specification]
#[verifier::external_body]
#[verifier::reject_recursive_types(R)]
pub struct ExZipArchive<R>(zip::ZipArchive<R>);

#[verifier::external_type_specification]
#[verifier::external_body]
pub struct ExZipError(zip::result::ZipError);

#[verifier::external_type_specification]
#[verifier::external_body]
#[verifier::reject_recursive_types(T)]
pub struct ExCursor<T>(std::io::Cursor<T>);

/// A zip archive read from bytes held in memory.
pub type Archive = zip::ZipArchive<std::io::Cursor<Vec<u8>>>;

/// The entries of an archive, in the order of its central directory: for each,
/// its stored name; its name rewritten as a relative path (a sequence of
/// components); whether the entry can be opened; and its content once
/// decompressed, where it can be read in full.
pub uninterp spec fn archive_entries(a: zip::ZipArchive<std::io::Cursor<Vec<u8>>>) -> Seq<(Seq<char>, Seq<Seq<char>>, bool, Option<Seq<u8>>)>;

/// The entries of the archive that `bytes` hold, where its central directory
/// can be read.
pub uninterp spec fn zip_contents(bytes: Seq<u8>) -> Option<Seq<(Seq<char>, Seq<Seq<char>>, bool, Option<Seq<u8>>)>>;

/// A component as a rewritten entry name has it: neither empty, nor `.` or
/// `..`, and without a separator.
pub open spec fn plain_component(c: Seq<char>) -> bool {
    c.len() > 0 && c != seq!['.'] && c != seq!['.', '.'] && !c.contains('/') && !c.contains('\\')
}

/// A path component that names an entry of its directory: a plain component
/// that cannot name a drive either.
pub open spec fn normal_component(c: Seq<char>) -> bool {
    plain_component(c) && !c.contains(':')
}

/// Relies on `zip::ZipArchive::new`: reads the central directory of the archive.
#[verifier::external_body]
fn open_zip(bytes: Vec<u8>) -> (r: Result<Archive, zip::result::ZipError>)
    ensures
        r is Ok <==> zip_contents(bytes@) is Some,
        r matches Ok(a) ==> zip_contents(bytes@) == Some(archive_entries(a)),
{
    zip::ZipArchive::new(std::io::Cursor::new(bytes))
}

/// Relies on `zip::ZipArchive::len`: the number of entries.
#[verifier::external_body]
fn zip_len(a: &Archive) -> (r: usize)
    ensures
        r == archive_entries(*a).len(),
{
    a.len()
}

/// Relies on `zip::ZipArchive::by_index` and `ZipFile::name`: the stored name
/// of entry `i`.
#[verifier::external_body]
fn zip_entry_name(a: &mut Archive, i: usize) -> (r: Result<String, zip::result::ZipError>)
    requires
        i < archive_entries(*old(a)).len(),
    ensures
        archive_entries(*final(a)) == archive_entries(*old(a)),
        r is Ok <==> archive_entries(*old(a))[i as int].2,
        r matches Ok(n) ==> n@ == archive_entries(*old(a))[i as int].0,
{
    let f = a.by_index(i)?;
    Ok(f.name().to_string())
}

/// Relies on `zip::ZipArchive::by_index` and `ZipFile::mangled_name`: the name of
/// entry `i` cut at its first NUL, with every component other than a normal one
/// (root, prefix, `.` and `..`) dropped, then split again into components.
/// Every component of the result is plain, except where the first of them
/// reads as a drive (`C:`) on Windows, and then a component holds a `:`.
#[verifier::external_body]
fn zip_entry_path(a: &mut Archive, i: usize) -> (r: Result<Vec<String>, zip::result::ZipError>)
    requires
        i < archive_entries(*old(a)).len(),
    ensures
        archive_entries(*final(a)) == archive_entries(*old(a)),
        r is Ok <==> archive_entries(*old(a))[i as int].2,
        r matches Ok(p) ==> p@.map_values(|c: String| c@) == archive_entries(*old(a))[i as int].1,
        r matches Ok(p) ==> (forall|k: int| 0 <= k < p@.len() ==> plain_component(#[trigger] p@[k]@))
            || (exists|k: int| 0 <= k < p@.len() && (#[trigger] p@[k]@).contains(':')),
{
    let f = a.by_index(i)?;
    let path = f.mangled_name();
    Ok(path.components().map(|c| c.as_os_str().to_string_lossy().into_owned()).collect())
}

/// Relies on `zip::ZipArchive::by_index` and `ZipFile`'s `Read`: the
/// decompressed content of entry `i`.
#[verifier::external_body]
fn zip_entry_data(a: &mut Archive, i: usize) -> (r: Result<Vec<u8>, zip::result::ZipError>)
    requires
        i < archive_entries(*old(a)).len(),
    ensures
        archive_entries(*final(a)) == archive_entries(*old(a)),
        r is Ok <==> archive_entries(*old(a))[i as int].3 is Some,
        r matches Ok(d) ==> archive_entries(*old(a))[i as int].3 == Some(d@),
{
    let mut f = a.by_index(i)?;
    let mut data = Vec::new();
    f.read_to_end(&mut data)?;
    Ok(data)
}

/// One entry to recreate under the destination directory.
#[derive(Debug)]
pub struct PlannedEntry {
    /// Relative path, one component per element.
    pub path: Vec<String>,
    pub is_dir: bool,
    /// Content of a file; empty for a directory.
    pub data: Vec<u8>,
}

/// A planned path as a sequence of component texts.
pub open spec fn path_view(p: Vec<String>) -> Seq<Seq<char>> {
    p@.map_values(|c: String| c@)
}

/// An entry is a directory when its stored name ends with `/`.
pub open spec fn is_dir_name(name: Seq<char>) -> bool {
    ends_with_spec(name, seq!['/'])
}

/// The entry opens, and a file's content reads in full.
pub open spec fn readable(e: (Seq<char>, Seq<Seq<char>>, bool, Option<Seq<u8>>)) -> bool {
    e.2 && (is_dir_name(e.0) || e.3 is Some)
}

/// Every component of the entry's rewritten path is a normal one.
pub open spec fn confined(e: (Seq<char>, Seq<Seq<char>>, bool, Option<Seq<u8>>)) -> bool {
    forall|j: int| 0 <= j < e.1.len() ==> normal_component(#[trigger] e.1[j])
}

/// A file's content; empty for a directory.
pub open spec fn content_of(e: (Seq<char>, Seq<Seq<char>>, bool, Option<Seq<u8>>)) -> Seq<u8> {
    if is_dir_name(e.0) {
        Seq::empty()
    } else {
        match e.3 {
            Some(d) => d,
            None => Seq::empty(),
        }
    }
}

/// `plan` recreates `entries` one for one, in order: at the rewritten path of
/// each, a directory or a file with the entry's content.
pub open spec fn plan_matches(entries: Seq<(Seq<char>, Seq<Seq<char>>, bool, Option<Seq<u8>>)>, plan: Seq<PlannedEntry>) -> bool {
    &&& plan.len() == entries.len()
    &&& forall|k: int| 0 <= k < plan.len() ==> {
        &&& path_view(#[trigger] plan[k].path) == entries[k].1
        &&& plan[k].is_dir == is_dir_name(entries[k].0)
        &&& plan[k].data@ == content_of(entries[k])
        &&& forall|j: int| 0 <= j < plan[k].path@.len() ==> normal_component(#[trigger] plan[k].path@[j]@)
    }
}

/// Opens an archive held in memory; one whose central directory cannot be
/// read is a `Decode` error.
pub fn open_archive(bytes: Vec<u8>) -> (r: Result<Archive, ErrorKind>)
    ensures
        r is Ok <==> zip_contents(bytes@) is Some,
        r matches Ok(a) ==> zip_contents(bytes@) == Some(archive_entries(a)),
        r matches Err(k) ==> k == ErrorKind::Decode,
{
    match open_zip(bytes) {
        Ok(a) => Ok(a),
        Err(_) => Err(ErrorKind::Decode),
    }
}

/// Tells whether a component holds a `:`, which could name a drive.
fn has_colon(c: &str) -> (r: bool)
    ensures
        r == c@.contains(':'),
{
    let n = c.unicode_len();
    let mut i: usize = 0;
    while i < n
        invariant
            n == c@.len(),
            i <= n,
            forall|j: int| 0 <= j < i ==> c@[j] != ':',
        decreases n - i,
    {
        if c.get_char(i) == ':' {
            return true;
        }
        i = i + 1;
    }
    false
}

/// Tells whether every component of a path is free of `:`.
fn free_of_colons(path: &Vec<String>) -> (r: bool)
    ensures
        r == forall|j: int| 0 <= j < path@.len() ==> !(#[trigger] path@[j]@).contains(':'),
{
    let mut i: usize = 0;
    while i < path.len()
        invariant
            i <= path@.len(),
            forall|j: int| 0 <= j < i ==> !(#[trigger] path@[j]@).contains(':'),
        decreases path@.len() - i,
    {
        if has_colon(path[i].as_str()) {
            return false;
        }
        i = i + 1;
    }
    true
}

/// Lists what extracting the archive creates: each entry at its rewritten
/// path, as a directory when its name ends with `/`, else as a file with its
/// content. It succeeds exactly when every entry is readable and confined.
/// Otherwise the error is `UnsafePath`, and some entry's path has a component
/// that could name a drive, or `Decode`, and some entry cannot be read.
pub fn extraction_plan(archive: &mut Archive) -> (r: Result<Vec<PlannedEntry>, ErrorKind>)
    ensures
        archive_entries(*final(archive)) == archive_entries(*old(archive)),
        r is Ok <==> forall|k: int| 0 <= k < archive_entries(*old(archive)).len() ==> readable(
            #[trigger] archive_entries(*old(archive))[k],
        ) && confined(archive_entries(*old(archive))[k]),
        r matches Ok(plan) ==> plan_matches(archive_entries(*old(archive)), plan@),
        r matches Err(k) ==> (k == ErrorKind::Decode && (exists|i: int|
            0 <= i < archive_entries(*old(archive)).len() && !readable(
                #[trigger] archive_entries(*old(archive))[i],
            ))) || (k == ErrorKind::UnsafePath && (exists|i: int|
            0 <= i < archive_entries(*old(archive)).len() && !confined(
                #[trigger] archive_entries(*old(archive))[i],
            ))),
{
    let ghost entries = archive_entries(*archive);
    let n = zip_len(archive);
    let mut plan: Vec<PlannedEntry> = Vec::new();
    let mut i: usize = 0;
    while i < n
        invariant
            n == entries.len(),
            archive_entries(*archive) == entries,
            entries == archive_entries(*old(archive)),
            i <= n,
            plan.len() == i,
            plan_matches(entries.take(i as int), plan@),
            forall|k: int| 0 <= k < i ==> readable(#[trigger] entries[k]) && confined(entries[k]),
        decreases n - i,
    {
        let name = match zip_entry_name(archive, i) {
            Ok(s) => s,
            Err(_) => {
                return Err(ErrorKind::Decode);
            },
        };
        let path = match zip_entry_path(archive, i) {
            Ok(p) => p,
            Err(_) => {
                return Err(ErrorKind::Decode);
            },
        };
        proof {
            assert forall|j: int| 0 <= j < path@.len() implies path@[j]@ == entries[i as int].1[j] by {
                assert(path@.map_values(|c: String| c@)[j] == path@[j]@);
            }
        }
        if !free_of_colons(&path) {
            proof {
                let j = choose|j: int| 0 <= j < path@.len() && (#[trigger] path@[j]@).contains(':');
                assert(!normal_component(entries[i as int].1[j]));
                assert(!confined(entries[i as int]));
            }
            return Err(ErrorKind::UnsafePath);
        }
        let is_dir = ends_with(name.as_str(), "/");
        proof {
            reveal_strlit("/");
            assert("/"@ =~= seq!['/']);
        }
        let data = if is_dir {
            Vec::new()
        } else {
            match zip_entry_data(archive, i) {
                Ok(d) => d,
                Err(_) => {
                    return Err(ErrorKind::Decode);
                },
            }
        };
        let ghost before = plan@;
        plan.push(PlannedEntry { path, is_dir, data });
        proof {
            assert(entries.take(i as int + 1).drop_last() =~= entries.take(i as int));
            assert forall|k: int| 0 <= k < plan@.len() implies {
                &&& path_view(#[trigger] plan@[k].path) == entries.take(i as int + 1)[k].1
                &&& plan@[k].is_dir == is_dir_name(entries.take(i as int + 1)[k].0)
                &&& plan@[k].data@ == content_of(entries.take(i as int + 1)[k])
                &&& forall|j: int| 0 <= j < plan@[k].path@.len() ==> normal_component(#[trigger] plan@[k].path@[j]@)
            } by {
                if k < i {
                    assert(plan@[k] == before[k]);
                    assert(entries.take(i as int + 1)[k] == entries.take(i as int)[k]);
                }
            }
            assert(readable(entries[i as int]));
            assert(confined(entries[i as int]));
        }
        i = i + 1;
    }
    assert(entries.take(n as int) =~= entries);
    Ok(plan)
}

} // verus!
