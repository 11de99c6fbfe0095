use vstd::prelude::*;
use vstd::string::*;
use crate::digest::{checksum, md5_hex};

verus! {

/// A file of the server directory, read for packing: its path relative to
/// the server directory and its bytes.
#[derive(Debug, Clone)]
pub struct EntryFile {
    pub path: String,
    pub contents: Vec<u8>,
}

/// A record of the embedded manifest: a packed file's relative path and the
/// digest of the bytes packed for it.
#[derive(Debug, Clone)]
pub struct ManifestFile {
    pub path: String,
    pub checksum: String,
}

/// The manifest embedded in an archive.
#[derive(Debug, Clone)]
pub struct PackageManifest {
    pub file: Vec<ManifestFile>,
}

/// An archive's files as plain values: relative path and bytes.
pub open spec fn archive_of(files: Seq<EntryFile>) -> Seq<(Seq<char>, Seq<u8>)> {
    files.map_values(|f: EntryFile| (f.path@, f.contents@))
}

/// The manifest records of an archive: relative path and the digest of
/// the bytes.
pub open spec fn manifest_of(archive: Seq<(Seq<char>, Seq<u8>)>) -> Seq<(Seq<char>, Seq<char>)> {
    archive.map_values(|e: (Seq<char>, Seq<u8>)| (e.0, md5_hex(e.1)))
}

impl PackageManifest {
    /// Its records as plain values.
    pub open spec fn records(&self) -> Seq<(Seq<char>, Seq<char>)> {
        self.file@.map_values(|m: ManifestFile| (m.path@, m.checksum@))
    }
}

/// The name of the archive entry that holds the manifest.
pub open spec fn manifest_entry_spec() -> Seq<char> {
    "manifest.toml"@
}

/// The name of the archive entry that holds the manifest.
pub fn manifest_entry_name() -> (r: String)
    ensures
        r@ == manifest_entry_spec(),
{
    String::from_str("manifest.toml")
}

/// The manifest of the given files: one record per file, in order, with the
/// digest of exactly the bytes that are packed.
pub fn create_manifest(files: &Vec<EntryFile>) -> (r: PackageManifest)
    ensures
        r.records() == manifest_of(archive_of(files@)),
{
    let mut out: Vec<ManifestFile> = Vec::new();
    let mut i: usize = 0;
    while i < files.len()
        invariant
            i <= files@.len(),
            out@.len() == i,
            forall|k: int|
                0 <= k < i ==> (#[trigger] out@[k]).path@ == files@[k].path@ && out@[k].checksum@
                    == md5_hex(files@[k].contents@),
        decreases files@.len() - i,
    {
        let record = ManifestFile {
            path: files[i].path.clone(),
            checksum: checksum(files[i].contents.as_slice()),
        };
        out.push(record);
        i += 1;
    }
    let r = PackageManifest { file: out };
    assert(r.records() =~= manifest_of(archive_of(files@)));
    r
}

/// The digest that the first record for `path` gives.
pub open spec fn checksum_for(records: Seq<(Seq<char>, Seq<char>)>, path: Seq<char>) -> Option<
    Seq<char>,
>
    decreases records.len(),
{
    if records.len() == 0 {
        None
    } else if records[0].0 == path {
        Some(records[0].1)
    } else {
        checksum_for(records.drop_first(), path)
    }
}

impl PackageManifest {
    /// The digest recorded for `path`, if the manifest has it.
    pub fn checksum_of(&self, path: &String) -> (r: Option<&String>)
        ensures
            match r {
                Some(c) => checksum_for(self.records(), path@) == Some(c@),
                None => checksum_for(self.records(), path@) is None,
            },
    {
        let ghost recs = self.records();
        let mut i: usize = 0;
        assert(recs.subrange(0, recs.len() as int) =~= recs);
        while i < self.file.len()
            invariant
                recs == self.records(),
                i <= self.file@.len(),
                checksum_for(recs, path@) == checksum_for(
                    recs.subrange(i as int, recs.len() as int),
                    path@,
                ),
            decreases self.file@.len() - i,
        {
            assert(recs.subrange(i as int, recs.len() as int).drop_first() =~= recs.subrange(
                i as int + 1,
                recs.len() as int,
            ));
            if self.file[i].path == *path {
                return Some(&self.file[i].checksum);
            }
            i += 1;
        }
        None
    }
}

/// What an archive entry is.
#[derive(Debug, Clone, Copy, PartialEq, Eq, Structural)]
pub enum EntryKind {
    /// The embedded manifest: never extracted as a file.
    Manifest,
    /// A directory marker (its name ends in `/`).
    Directory,
    /// A packed file.
    File,
}

/// What the archive entry named `name` is.
pub open spec fn entry_kind_spec(name: Seq<char>) -> EntryKind {
    if name == manifest_entry_spec() {
        EntryKind::Manifest
    } else if name.len() > 0 && name.last() == '/' {
        EntryKind::Directory
    } else {
        EntryKind::File
    }
}

/// What the archive entry named `name` is.
pub fn classify_entry(name: &String) -> (r: EntryKind)
    ensures
        r == entry_kind_spec(name@),
{
    if *name == manifest_entry_name() {
        return EntryKind::Manifest;
    }
    let n = name.as_str().unicode_len();
    if n > 0 && name.as_str().get_char(n - 1) == '/' {
        EntryKind::Directory
    } else {
        EntryKind::File
    }
}

/// What happens to a packed file when unpacking.
#[derive(Debug, Clone, Copy, PartialEq, Eq, Structural)]
pub enum Extraction {
    /// Nothing stands at the target path: write the file.
    Extract,
    /// A file stands there and is replaced.
    Overwrite,
    /// The file there is already up to date.
    Skip,
}

/// Whether the file there is up to date: its digest is the recorded one,
/// or, for a path that the manifest lacks, the digest of the new bytes.
pub open spec fn up_to_date(existing: Seq<u8>, recorded: Option<Seq<char>>, contents: Seq<u8>) -> bool {
    match recorded {
        Some(c) => c == md5_hex(existing),
        None => md5_hex(existing) == md5_hex(contents),
    }
}

/// The handling of a packed file with bytes `contents`, given the file at
/// its target path (if any) and its manifest record (if any).
pub open spec fn extraction_spec(
    existing: Option<Seq<u8>>,
    recorded: Option<Seq<char>>,
    contents: Seq<u8>,
    force: bool,
) -> Extraction {
    match existing {
        None => Extraction::Extract,
        Some(old) => if !force && up_to_date(old, recorded, contents) {
            Extraction::Skip
        } else {
            Extraction::Overwrite
        },
    }
}

/// The handling of a packed file, given the digest of the file at its
/// target path (if any), its recorded digest (if any), the digest of its
/// new bytes, and `force`.
pub open spec fn extraction_by_digests(
    existing: Option<Seq<char>>,
    recorded: Option<Seq<char>>,
    fresh: Seq<char>,
    force: bool,
) -> Extraction {
    match existing {
        None => Extraction::Extract,
        Some(current) => if !force && match recorded {
            Some(c) => c == current,
            None => current == fresh,
        } {
            Extraction::Skip
        } else {
            Extraction::Overwrite
        },
    }
}

/// Decides how to unpack a packed file from digests: a missing target is
/// written; an existing one is skipped when it is up to date (its digest
/// is the recorded one, or the new bytes' digest when none is recorded)
/// and `force` is not set, else overwritten.
pub fn extraction_for(
    existing: Option<&String>,
    recorded: Option<&String>,
    fresh: &String,
    force: bool,
) -> (r: Extraction)
    ensures
        r == extraction_by_digests(
            match existing {
                Some(e) => Some(e@),
                None => None,
            },
            match recorded {
                Some(c) => Some(c@),
                None => None,
            },
            fresh@,
            force,
        ),
{
    match existing {
        None => Extraction::Extract,
        Some(current) => {
            let up_to_date = match recorded {
                Some(c) => *c == *current,
                None => *current == *fresh,
            };
            if !force && up_to_date {
                Extraction::Skip
            } else {
                Extraction::Overwrite
            }
        },
    }
}

/// Decides how to unpack a packed file with bytes `contents`, given the
/// file at its target path (if any) and its manifest record (if any).
pub fn decide_extraction(
    existing: Option<&[u8]>,
    recorded: Option<&String>,
    contents: &[u8],
    force: bool,
) -> (r: Extraction)
    ensures
        r == extraction_spec(
            match existing {
                Some(e) => Some(e@),
                None => None,
            },
            match recorded {
                Some(c) => Some(c@),
                None => None,
            },
            contents@,
            force,
        ),
{
    let fresh = checksum(contents);
    match existing {
        None => Extraction::Extract,
        Some(old) => {
            let current = checksum(old);
            extraction_for(Some(&current), recorded, &fresh, force)
        },
    }
}

/// A directory tree as plain values: relative path to bytes.
pub type Tree = Map<Seq<char>, Seq<u8>>;

/// The file at `path` in `tree`, if any.
pub open spec fn existing_at(tree: Tree, path: Seq<char>) -> Option<Seq<u8>> {
    if tree.contains_key(path) {
        Some(tree[path])
    } else {
        None
    }
}

/// Whether unpacking `entry` into `tree` writes a file.
pub open spec fn writes_entry(
    tree: Tree,
    entry: (Seq<char>, Seq<u8>),
    records: Seq<(Seq<char>, Seq<char>)>,
    force: bool,
) -> bool {
    entry_kind_spec(entry.0) == EntryKind::File && extraction_spec(
        existing_at(tree, entry.0),
        checksum_for(records, entry.0),
        entry.1,
        force,
    ) != Extraction::Skip
}

/// `tree` after unpacking `entry`.
pub open spec fn unpack_step(
    tree: Tree,
    entry: (Seq<char>, Seq<u8>),
    records: Seq<(Seq<char>, Seq<char>)>,
    force: bool,
) -> Tree {
    if writes_entry(tree, entry, records, force) {
        tree.insert(entry.0, entry.1)
    } else {
        tree
    }
}

/// `tree` after unpacking every entry of `archive`, in order, with the
/// manifest `records`.
pub open spec fn unpack_model(
    tree: Tree,
    archive: Seq<(Seq<char>, Seq<u8>)>,
    records: Seq<(Seq<char>, Seq<char>)>,
    force: bool,
) -> Tree
    decreases archive.len(),
{
    if archive.len() == 0 {
        tree
    } else {
        unpack_model(
            unpack_step(tree, archive[0], records, force),
            archive.drop_first(),
            records,
            force,
        )
    }
}

/// How many files unpacking `archive` into `tree` writes.
pub open spec fn written_count(
    tree: Tree,
    archive: Seq<(Seq<char>, Seq<u8>)>,
    records: Seq<(Seq<char>, Seq<char>)>,
    force: bool,
) -> nat
    decreases archive.len(),
{
    if archive.len() == 0 {
        0
    } else {
        (if writes_entry(tree, archive[0], records, force) {
            1nat
        } else {
            0nat
        }) + written_count(
            unpack_step(tree, archive[0], records, force),
            archive.drop_first(),
            records,
            force,
        )
    }
}

/// `tree` with every file of `archive` put in.
pub open spec fn tree_of(tree: Tree, archive: Seq<(Seq<char>, Seq<u8>)>) -> Tree
    decreases archive.len(),
{
    if archive.len() == 0 {
        tree
    } else {
        tree_of(tree.insert(archive[0].0, archive[0].1), archive.drop_first())
    }
}

/// An archive of files as packing makes it: distinct relative paths, none
/// of them the manifest's name or a directory marker.
pub open spec fn packable(archive: Seq<(Seq<char>, Seq<u8>)>) -> bool {
    &&& forall|i: int, j: int|
        0 <= i < j < archive.len() ==> (#[trigger] archive[i]).0 != (#[trigger] archive[j]).0
    &&& forall|i: int|
        0 <= i < archive.len() ==> entry_kind_spec((#[trigger] archive[i]).0) == EntryKind::File
}

proof fn lemma_packable_rest(archive: Seq<(Seq<char>, Seq<u8>)>)
    requires
        packable(archive),
        archive.len() > 0,
    ensures
        packable(archive.drop_first()),
        forall|i: int|
            0 <= i < archive.drop_first().len() ==> (#[trigger] archive.drop_first()[i]).0
                != archive[0].0,
{
    let rest = archive.drop_first();
    assert forall|i: int, j: int| 0 <= i < j < rest.len() implies (#[trigger] rest[i]).0 != (
    #[trigger] rest[j]).0 by {
        assert(rest[i] == archive[i + 1] && rest[j] == archive[j + 1]);
    }
    assert forall|i: int| 0 <= i < rest.len() implies entry_kind_spec((#[trigger] rest[i]).0)
        == EntryKind::File by {
        assert(rest[i] == archive[i + 1]);
    }
    assert forall|i: int| 0 <= i < rest.len() implies (#[trigger] rest[i]).0 != archive[0].0 by {
        assert(rest[i] == archive[i + 1]);
    }
}

/// Unpacking into a tree that holds none of the archive's paths writes
/// every file.
proof fn lemma_unpack_fresh(
    tree: Tree,
    archive: Seq<(Seq<char>, Seq<u8>)>,
    records: Seq<(Seq<char>, Seq<char>)>,
    force: bool,
)
    requires
        packable(archive),
        forall|i: int| 0 <= i < archive.len() ==> !tree.contains_key((#[trigger] archive[i]).0),
    ensures
        unpack_model(tree, archive, records, force) == tree_of(tree, archive),
        written_count(tree, archive, records, force) == archive.len(),
    decreases archive.len(),
{
    if archive.len() > 0 {
        lemma_packable_rest(archive);
        let rest = archive.drop_first();
        let next = tree.insert(archive[0].0, archive[0].1);
        assert(entry_kind_spec(archive[0].0) == EntryKind::File);
        assert(!tree.contains_key(archive[0].0));
        assert(unpack_step(tree, archive[0], records, force) == next);
        assert forall|i: int| 0 <= i < rest.len() implies !next.contains_key(
            (#[trigger] rest[i]).0,
        ) by {
            assert(rest[i] == archive[i + 1]);
        }
        lemma_unpack_fresh(next, rest, records, force);
    }
}

/// Putting in files leaves the other paths as they were.
proof fn lemma_tree_of_other(tree: Tree, archive: Seq<(Seq<char>, Seq<u8>)>, path: Seq<char>)
    requires
        forall|i: int| 0 <= i < archive.len() ==> (#[trigger] archive[i]).0 != path,
    ensures
        existing_at(tree_of(tree, archive), path) == existing_at(tree, path),
    decreases archive.len(),
{
    if archive.len() > 0 {
        let rest = archive.drop_first();
        assert forall|i: int| 0 <= i < rest.len() implies (#[trigger] rest[i]).0 != path by {
            assert(rest[i] == archive[i + 1]);
        }
        lemma_tree_of_other(tree.insert(archive[0].0, archive[0].1), rest, path);
        assert(archive[0].0 != path);
    }
}

/// After putting in the files of a packable archive, each path holds its
/// file's bytes.
proof fn lemma_tree_of_holds(tree: Tree, archive: Seq<(Seq<char>, Seq<u8>)>)
    requires
        packable(archive),
    ensures
        forall|i: int|
            0 <= i < archive.len() ==> existing_at(tree_of(tree, archive), (#[trigger] archive[i]).0)
                == Some(archive[i].1),
    decreases archive.len(),
{
    if archive.len() > 0 {
        lemma_packable_rest(archive);
        let rest = archive.drop_first();
        let next = tree.insert(archive[0].0, archive[0].1);
        lemma_tree_of_holds(next, rest);
        lemma_tree_of_other(next, rest, archive[0].0);
        assert forall|i: int| 0 <= i < archive.len() implies existing_at(
            tree_of(tree, archive),
            (#[trigger] archive[i]).0,
        ) == Some(archive[i].1) by {
            if i > 0 {
                assert(rest[i - 1] == archive[i]);
            }
        }
    }
}

/// In the manifest of a packable archive, each file's path gives the digest
/// of its bytes.
proof fn lemma_manifest_lookup(archive: Seq<(Seq<char>, Seq<u8>)>)
    requires
        packable(archive),
    ensures
        forall|i: int|
            0 <= i < archive.len() ==> checksum_for(manifest_of(archive), (#[trigger] archive[i]).0)
                == Some(md5_hex(archive[i].1)),
    decreases archive.len(),
{
    if archive.len() > 0 {
        lemma_packable_rest(archive);
        let rest = archive.drop_first();
        lemma_manifest_lookup(rest);
        assert(manifest_of(archive).drop_first() =~= manifest_of(rest));
        assert forall|i: int| 0 <= i < archive.len() implies checksum_for(
            manifest_of(archive),
            (#[trigger] archive[i]).0,
        ) == Some(md5_hex(archive[i].1)) by {
            if i > 0 {
                assert(rest[i - 1] == archive[i]);
                assert(archive[i].0 != archive[0].0);
            }
        }
    }
}

/// Unpacking into a tree where every path already holds its file's bytes.
proof fn lemma_unpack_present(
    tree: Tree,
    archive: Seq<(Seq<char>, Seq<u8>)>,
    records: Seq<(Seq<char>, Seq<char>)>,
    force: bool,
)
    requires
        packable(archive),
        forall|i: int|
            0 <= i < archive.len() ==> existing_at(tree, (#[trigger] archive[i]).0) == Some(
                archive[i].1,
            ) && checksum_for(records, archive[i].0) == Some(md5_hex(archive[i].1)),
    ensures
        unpack_model(tree, archive, records, force) == tree,
        written_count(tree, archive, records, force) == if force {
            archive.len()
        } else {
            0
        },
    decreases archive.len(),
{
    if archive.len() > 0 {
        lemma_packable_rest(archive);
        let rest = archive.drop_first();
        assert(existing_at(tree, archive[0].0) == Some(archive[0].1));
        assert(entry_kind_spec(archive[0].0) == EntryKind::File);
        assert(tree.insert(archive[0].0, archive[0].1) =~= tree);
        assert(unpack_step(tree, archive[0], records, force) == tree);
        assert forall|i: int| 0 <= i < rest.len() implies existing_at(
            tree,
            (#[trigger] rest[i]).0,
        ) == Some(rest[i].1) && checksum_for(records, rest[i].0) == Some(md5_hex(rest[i].1)) by {
            assert(rest[i] == archive[i + 1]);
        }
        lemma_unpack_present(tree, rest, records, force);
    }
}

/// Round trip: unpacking a freshly packed archive into an empty directory
/// without `force` writes every file, and the directory then holds exactly
/// the packed files, each at its relative path with its bytes.
pub proof fn lemma_round_trip(archive: Seq<(Seq<char>, Seq<u8>)>)
    requires
        packable(archive),
    ensures
        unpack_model(Map::empty(), archive, manifest_of(archive), false) == tree_of(
            Map::empty(),
            archive,
        ),
        written_count(Map::empty(), archive, manifest_of(archive), false) == archive.len(),
        forall|i: int|
            0 <= i < archive.len() ==> existing_at(
                tree_of(Map::empty(), archive),
                (#[trigger] archive[i]).0,
            ) == Some(archive[i].1),
        forall|p: Seq<char>|
            tree_of(Map::empty(), archive).contains_key(p) ==> exists|i: int|
                0 <= i < archive.len() && (#[trigger] archive[i]).0 == p,
{
    lemma_unpack_fresh(Map::empty(), archive, manifest_of(archive), false);
    lemma_tree_of_holds(Map::empty(), archive);
    assert forall|p: Seq<char>| tree_of(Map::empty(), archive).contains_key(p) implies exists|i: int|
        0 <= i < archive.len() && (#[trigger] archive[i]).0 == p by {
        if !exists|i: int| 0 <= i < archive.len() && (#[trigger] archive[i]).0 == p {
            lemma_tree_of_other(Map::empty(), archive, p);
        }
    }
}

/// Unpacking the same archive again: without `force` every file is already
/// up to date, so nothing is written; with `force` every file is written
/// again. Either way the directory is left as it was.
pub proof fn lemma_unpack_again(archive: Seq<(Seq<char>, Seq<u8>)>)
    requires
        packable(archive),
    ensures
        unpack_model(tree_of(Map::empty(), archive), archive, manifest_of(archive), false)
            == tree_of(Map::empty(), archive),
        written_count(tree_of(Map::empty(), archive), archive, manifest_of(archive), false) == 0,
        unpack_model(tree_of(Map::empty(), archive), archive, manifest_of(archive), true)
            == tree_of(Map::empty(), archive),
        written_count(tree_of(Map::empty(), archive), archive, manifest_of(archive), true)
            == archive.len(),
{
    lemma_tree_of_holds(Map::empty(), archive);
    lemma_manifest_lookup(archive);
    lemma_unpack_present(tree_of(Map::empty(), archive), archive, manifest_of(archive), false);
    lemma_unpack_present(tree_of(Map::empty(), archive), archive, manifest_of(archive), true);
}

} // verus!
