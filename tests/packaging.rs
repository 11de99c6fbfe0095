use chain::digest::checksum;
use chain::package::{
    classify_entry, create_manifest, decide_extraction, extraction_for, manifest_entry_name,
    EntryFile, EntryKind, Extraction,
};
use std::collections::BTreeMap;

fn files() -> Vec<EntryFile> {
    vec![
        EntryFile { path: "server.properties".into(), contents: b"motd=hi\n".to_vec() },
        EntryFile { path: "plugins/a.jar".into(), contents: vec![0, 1, 2, 3] },
        EntryFile { path: "empty.txt".into(), contents: vec![] },
    ]
}

/// Unpacks the archive made of `files` into `tree`, the way an unpack run
/// decides; returns how many files were written.
fn unpack(tree: &mut BTreeMap<String, Vec<u8>>, files: &[EntryFile], force: bool) -> usize {
    let manifest = create_manifest(&files.to_vec());
    let mut written = 0;
    for f in files {
        if classify_entry(&f.path) != EntryKind::File {
            continue;
        }
        let existing = tree.get(&f.path).cloned();
        let decision =
            decide_extraction(existing.as_deref(), manifest.checksum_of(&f.path), &f.contents, force);
        if decision != Extraction::Skip {
            tree.insert(f.path.clone(), f.contents.clone());
            written += 1;
        }
    }
    written
}

#[test]
fn md5_digests() {
    assert_eq!(checksum(b""), "d41d8cd98f00b204e9800998ecf8427e");
    assert_eq!(checksum(b"abc"), "900150983cd24fb0d6963f7d28e17f72");
}

#[test]
fn manifest_records_each_file() {
    let m = create_manifest(&files());
    assert_eq!(m.file.len(), 3);
    assert_eq!(m.file[0].path, "server.properties");
    assert_eq!(m.file[0].checksum, checksum(b"motd=hi\n"));
    assert_eq!(m.file[2].checksum, "d41d8cd98f00b204e9800998ecf8427e");
    assert_eq!(m.checksum_of(&"plugins/a.jar".to_string()), Some(&checksum(&[0, 1, 2, 3])));
    assert_eq!(m.checksum_of(&"nope".to_string()), None);
}

#[test]
fn entry_kinds() {
    assert_eq!(manifest_entry_name(), "manifest.toml");
    assert_eq!(classify_entry(&"manifest.toml".to_string()), EntryKind::Manifest);
    assert_eq!(classify_entry(&"config/".to_string()), EntryKind::Directory);
    assert_eq!(classify_entry(&"config/a.yml".to_string()), EntryKind::File);
    assert_eq!(classify_entry(&"sub/manifest.toml".to_string()), EntryKind::File);
}

#[test]
fn extraction_decisions() {
    let new = b"new".to_vec();
    let old = b"old".to_vec();
    let rec_new = checksum(&new);
    assert_eq!(decide_extraction(None, Some(&rec_new), &new, false), Extraction::Extract);
    assert_eq!(decide_extraction(Some(&new), Some(&rec_new), &new, false), Extraction::Skip);
    assert_eq!(decide_extraction(Some(&new), Some(&rec_new), &new, true), Extraction::Overwrite);
    assert_eq!(decide_extraction(Some(&old), Some(&rec_new), &new, false), Extraction::Overwrite);
    assert_eq!(decide_extraction(Some(&new), None, &new, false), Extraction::Skip);
    assert_eq!(decide_extraction(Some(&old), None, &new, false), Extraction::Overwrite);
}

#[test]
fn extraction_from_digests() {
    let a = "aa".to_string();
    let b = "bb".to_string();
    assert_eq!(extraction_for(None, Some(&a), &a, false), Extraction::Extract);
    assert_eq!(extraction_for(Some(&a), Some(&a), &b, false), Extraction::Skip);
    assert_eq!(extraction_for(Some(&a), Some(&b), &a, false), Extraction::Overwrite);
    assert_eq!(extraction_for(Some(&a), None, &a, false), Extraction::Skip);
    assert_eq!(extraction_for(Some(&a), None, &b, false), Extraction::Overwrite);
    assert_eq!(extraction_for(Some(&a), Some(&a), &a, true), Extraction::Overwrite);
}

#[test]
fn round_trip_into_empty_directory() {
    let mut tree = BTreeMap::new();
    let written = unpack(&mut tree, &files(), false);
    assert_eq!(written, 3);
    assert_eq!(tree.len(), 3);
    for f in files() {
        assert_eq!(tree.get(&f.path), Some(&f.contents));
    }
}

#[test]
fn unpacking_again_skips_everything() {
    let mut tree = BTreeMap::new();
    unpack(&mut tree, &files(), false);
    let before = tree.clone();
    assert_eq!(unpack(&mut tree, &files(), false), 0);
    assert_eq!(tree, before);
    assert_eq!(unpack(&mut tree, &files(), true), 3);
    assert_eq!(tree, before);
}

#[test]
fn changed_file_is_overwritten() {
    let mut tree = BTreeMap::new();
    unpack(&mut tree, &files(), false);
    tree.insert("server.properties".to_string(), b"motd=changed\n".to_vec());
    assert_eq!(unpack(&mut tree, &files(), false), 1);
    assert_eq!(tree.get("server.properties"), Some(&b"motd=hi\n".to_vec()));
}
