use std::collections::BTreeMap;

use model_loader::error::LoaderError;
use model_loader::materialize::{
    plan_copy_symlink_dir, plan_materialize_alias, staging_dir, FsAction, SnapshotEntry,
};

type Dir = Option<BTreeMap<String, String>>;

fn link(name: &str, target: &str) -> SnapshotEntry {
    SnapshotEntry { name: name.to_string(), link_target: Some(target.to_string()) }
}

fn plain(name: &str) -> SnapshotEntry {
    SnapshotEntry { name: name.to_string(), link_target: None }
}

/// An in-memory picture of the alias directory and its staging directory.
struct Fs {
    dest_path: String,
    dest: Dir,
    staging: Dir,
}

impl Fs {
    fn new(dest_path: &str, dest: Dir, staging: Dir) -> Fs {
        Fs { dest_path: dest_path.to_string(), dest, staging }
    }

    fn dir(&mut self, p: &str) -> &mut Dir {
        if p == self.dest_path {
            &mut self.dest
        } else {
            assert_eq!(p, staging_dir(&self.dest_path));
            &mut self.staging
        }
    }

    /// Carries out one action; after each step the alias directory is
    /// checked against `allowed`.
    fn apply(&mut self, acts: &[FsAction], allowed: &[Dir]) {
        for a in acts {
            match a {
                FsAction::RemoveDirAll(p) => {
                    let d = self.dir(p);
                    assert!(d.is_some());
                    *d = None;
                }
                FsAction::CreateDirAll(p) => {
                    let d = self.dir(p);
                    if d.is_none() {
                        *d = Some(BTreeMap::new());
                    }
                }
                FsAction::Symlink { target, dir, name } => {
                    let m = self.dir(dir).as_mut().unwrap();
                    assert!(!m.contains_key(name));
                    m.insert(name.clone(), target.clone());
                }
                FsAction::Rename { from, to } => {
                    assert_eq!(to, &self.dest_path);
                    assert_eq!(from, &staging_dir(&self.dest_path));
                    assert!(self.dest.is_none());
                    self.dest = self.staging.take();
                    assert!(self.dest.is_some());
                }
            }
            assert!(allowed.contains(&self.dest));
        }
    }
}

fn scenario_entries() -> Vec<SnapshotEntry> {
    vec![link("config.json", "../../blobs/aaa"), link("model.bin", "../../blobs/bbb")]
}

fn scenario_mirror() -> Dir {
    let mut m = BTreeMap::new();
    m.insert("config.json".to_string(), "../../blobs/aaa".to_string());
    m.insert("model.bin".to_string(), "../../blobs/bbb".to_string());
    Some(m)
}

#[test]
fn mirrors_snapshot_links_under_branch() {
    let acts = plan_materialize_alias("org/m", "/cache", "main", false, false, &scenario_entries())
        .unwrap();
    let dest = "/cache/models--org--m/indices/main";
    let staging = "/cache/models--org--m/indices/main.partial";
    assert_eq!(acts.len(), 4);
    assert!(matches!(&acts[0], FsAction::CreateDirAll(p) if p == staging));
    assert!(matches!(&acts[1], FsAction::Symlink { target, dir, name }
        if target == "../../blobs/aaa" && dir == staging && name == "config.json"));
    assert!(matches!(&acts[2], FsAction::Symlink { target, dir, name }
        if target == "../../blobs/bbb" && dir == staging && name == "model.bin"));
    assert!(matches!(&acts[3], FsAction::Rename { from, to } if from == staging && to == dest));
    let mut fs = Fs::new(dest, None, None);
    fs.apply(&acts, &[None, scenario_mirror()]);
    assert_eq!(fs.dest, scenario_mirror());
    assert_eq!(fs.staging, None);
}

#[test]
fn staging_sits_beside_alias() {
    assert_eq!(staging_dir("/c/indices/main"), "/c/indices/main.partial");
}

#[test]
fn existing_alias_is_replaced_after_staging() {
    let acts = plan_copy_symlink_dir("/d", true, true, &scenario_entries()).unwrap();
    assert_eq!(acts.len(), 6);
    assert!(matches!(&acts[0], FsAction::RemoveDirAll(p) if p == "/d.partial"));
    assert!(matches!(&acts[1], FsAction::CreateDirAll(p) if p == "/d.partial"));
    assert!(matches!(&acts[4], FsAction::RemoveDirAll(p) if p == "/d"));
    assert!(matches!(&acts[5], FsAction::Rename { from, to } if from == "/d.partial" && to == "/d"));
}

#[test]
fn alias_never_half_built() {
    let mut old = BTreeMap::new();
    old.insert("old.bin".to_string(), "../../blobs/zzz".to_string());
    let old = Some(old);
    let leftover = Some(BTreeMap::from([("x".to_string(), "y".to_string())]));
    let acts = plan_copy_symlink_dir("/d", true, true, &scenario_entries()).unwrap();
    let mut fs = Fs::new("/d", old.clone(), leftover);
    fs.apply(&acts, &[old, None, scenario_mirror()]);
    assert_eq!(fs.dest, scenario_mirror());
}

#[test]
fn materializing_twice_gives_same_contents() {
    let mut fs = Fs::new("/d", None, None);
    let first = plan_copy_symlink_dir("/d", fs.dest.is_some(), fs.staging.is_some(), &scenario_entries())
        .unwrap();
    fs.apply(&first, &[None, scenario_mirror()]);
    let once = fs.dest.clone();
    let second = plan_copy_symlink_dir("/d", fs.dest.is_some(), fs.staging.is_some(), &scenario_entries())
        .unwrap();
    fs.apply(&second, &[None, scenario_mirror()]);
    assert_eq!(fs.dest, once);
    assert_eq!(fs.dest, scenario_mirror());
}

#[test]
fn stale_entries_are_gone_afterwards() {
    let mut old = BTreeMap::new();
    old.insert("old.bin".to_string(), "../../blobs/zzz".to_string());
    old.insert("config.json".to_string(), "../../blobs/old".to_string());
    let old = Some(old);
    let acts = plan_copy_symlink_dir("/d", true, false, &scenario_entries()).unwrap();
    let mut fs = Fs::new("/d", old.clone(), None);
    fs.apply(&acts, &[old, None, scenario_mirror()]);
    let m = fs.dest.unwrap();
    assert!(!m.contains_key("old.bin"));
    assert_eq!(m["config.json"], "../../blobs/aaa");
    assert_eq!(m.len(), 2);
}

#[test]
fn empty_snapshot_gives_empty_alias() {
    let acts = plan_materialize_alias("m", "/c", "main", false, false, &Vec::new()).unwrap();
    assert_eq!(acts.len(), 2);
    let mut fs = Fs::new("/c/models--m/indices/main", None, None);
    fs.apply(&acts, &[None, Some(BTreeMap::new())]);
    assert_eq!(fs.dest, Some(BTreeMap::new()));
    let acts = plan_materialize_alias("m", "/c", "main", true, false, &Vec::new()).unwrap();
    assert_eq!(acts.len(), 3);
}

#[test]
fn plain_file_in_snapshot_is_refused() {
    let entries = vec![link("a", "../../blobs/a"), plain("b"), plain("c")];
    let r = plan_copy_symlink_dir("/d", true, false, &entries);
    assert_eq!(r.unwrap_err(), LoaderError::UnexpectedEntry("b".to_string()));
}
