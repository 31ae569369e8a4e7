//! Reconciliation: the declared renames and deletions that align an
//! installation with a new manifest.
//!
//! Renames run before diffing, so a moved file is matched against its new
//! manifest path instead of being re-downloaded; deletions run after
//! downloading. Both are idempotent: a missing rename source is skipped
//! and a missing deletion target is no error.

use vstd::prelude::*;
use vstd::string::StringExecFns;

use crate::game::file_stale;
use crate::game_files::FileDataView;
use crate::hashing::hash_eq;
use crate::strmap::subtree_removed;
use crate::strmap::StrMap;

verus! {

/// The declared renames (old path to new path, in order) and deletions
/// (files or whole directories) of one manifest version.
pub struct ReconciliationSpec {
    pub renames: Vec<(String, String)>,
    pub deletions: Vec<String>,
}

/// What one rename does to the installation: nothing when the source is
/// missing; otherwise the content moves to the new path, overwriting
/// whatever sat there.
pub open spec fn apply_rename(
    disk: Map<Seq<char>, Seq<char>>,
    old_path: Seq<char>,
    new_path: Seq<char>,
) -> Map<Seq<char>, Seq<char>> {
    if disk.contains_key(old_path) {
        disk.remove(old_path).insert(new_path, disk[old_path])
    } else {
        disk
    }
}

/// All declared renames, applied in order.
pub open spec fn apply_renames_spec(
    disk: Map<Seq<char>, Seq<char>>,
    renames: Seq<(Seq<char>, Seq<char>)>,
) -> Map<Seq<char>, Seq<char>>
    decreases renames.len(),
{
    if renames.len() == 0 {
        disk
    } else {
        apply_renames_spec(
            apply_rename(disk, renames[0].0, renames[0].1),
            renames.drop_first(),
        )
    }
}

/// All declared deletions, applied in order; deleting a path takes the
/// whole subtree under it with it.
pub open spec fn apply_deletions_spec(
    disk: Map<Seq<char>, Seq<char>>,
    deletions: Seq<Seq<char>>,
) -> Map<Seq<char>, Seq<char>>
    decreases deletions.len(),
{
    if deletions.len() == 0 {
        disk
    } else {
        apply_deletions_spec(subtree_removed(disk, deletions[0]), deletions.drop_first())
    }
}

/// Apply the declared renames to the installation, in order.
pub fn apply_renames(disk: &mut StrMap, renames: &Vec<(String, String)>)
    requires
        old(disk).wf(),
    ensures
        final(disk).wf(),
        final(disk)@ == apply_renames_spec(
            old(disk)@,
            renames@.map_values(|p: (String, String)| (p.0@, p.1@)),
        ),
{
    let ghost vs = renames@.map_values(|p: (String, String)| (p.0@, p.1@));
    proof {
        assert(vs.skip(0) =~= vs);
    }
    let n = renames.len();
    let mut i: usize = 0;
    while i < n
        invariant
            i <= n,
            n == renames@.len(),
            disk.wf(),
            vs == renames@.map_values(|p: (String, String)| (p.0@, p.1@)),
            apply_renames_spec(disk@, vs.skip(i as int)) == apply_renames_spec(old(disk)@, vs),
        decreases n - i,
    {
        let ghost before = disk@;
        proof {
            assert(vs.skip(i as int)[0] == vs[i as int]);
            assert(vs.skip(i as int).drop_first() =~= vs.skip(i + 1));
        }
        let source = renames[i].0.as_str();
        let moved: Option<String> = match disk.get(source) {
            Some(h) => Some(h.clone()),
            None => None,
        };
        match moved {
            Some(h) => {
                disk.remove(source);
                let target = renames[i].1.clone();
                disk.insert(target, h);
            }
            None => {}
        }
        proof {
            assert(disk@ == apply_rename(before, vs[i as int].0, vs[i as int].1));
        }
        i += 1;
    }
    proof {
        assert(vs.skip(n as int) =~= Seq::<(Seq<char>, Seq<char>)>::empty());
    }
}

/// Apply the declared deletions to the installation, in order.
pub fn apply_deletions(disk: &mut StrMap, deletions: &Vec<String>)
    requires
        old(disk).wf(),
    ensures
        final(disk).wf(),
        final(disk)@ == apply_deletions_spec(
            old(disk)@,
            deletions@.map_values(|p: String| p@),
        ),
{
    let ghost vs = deletions@.map_values(|p: String| p@);
    proof {
        assert(vs.skip(0) =~= vs);
    }
    let n = deletions.len();
    let mut i: usize = 0;
    while i < n
        invariant
            i <= n,
            n == deletions@.len(),
            disk.wf(),
            vs == deletions@.map_values(|p: String| p@),
            apply_deletions_spec(disk@, vs.skip(i as int)) == apply_deletions_spec(
                old(disk)@,
                vs,
            ),
        decreases n - i,
    {
        proof {
            assert(vs.skip(i as int)[0] == vs[i as int]);
            assert(vs.skip(i as int).drop_first() =~= vs.skip(i + 1));
        }
        disk.remove_subtree(deletions[i].as_str());
        i += 1;
    }
    proof {
        assert(vs.skip(n as int) =~= Seq::<Seq<char>>::empty());
    }
}

/// A rename moves the content: the hash that sat at the old path sits at
/// the new one afterwards, and (for distinct paths) the old path is gone.
pub proof fn lemma_rename_moves_hash(
    disk: Map<Seq<char>, Seq<char>>,
    old_path: Seq<char>,
    new_path: Seq<char>,
)
    requires
        disk.contains_key(old_path),
    ensures
        apply_rename(disk, old_path, new_path).contains_key(new_path),
        apply_rename(disk, old_path, new_path)[new_path] == disk[old_path],
        old_path != new_path ==> !apply_rename(disk, old_path, new_path).contains_key(old_path),
{
}

/// Rename-before-diff: a manifest entry whose file was just renamed into
/// place with a matching hash is reported up to date by the differ, and
/// nothing is downloaded for it.
pub proof fn lemma_renamed_file_up_to_date(
    f: FileDataView,
    disk: Map<Seq<char>, Seq<char>>,
    old_path: Seq<char>,
    cache: Map<Seq<char>, Seq<char>>,
)
    requires
        disk.contains_key(old_path),
        hash_eq(disk[old_path], f.blake3),
        cache.contains_key(f.path) ==> hash_eq(cache[f.path], f.blake3),
    ensures
        !file_stale(f, apply_rename(disk, old_path, f.path), cache),
{
    lemma_rename_moves_hash(disk, old_path, f.path);
}

/// The renames and deletions carried over from earlier layouts of the
/// install directory: the old config file moves into the launcher
/// directory, and stale logs, caches and shortcuts are removed. The
/// clean-up of another launcher's files is included only when that
/// launcher is itself gone.
pub fn migration_plan(other_launcher_present: bool) -> (r: ReconciliationSpec)
    ensures
        r.renames@.len() == 1,
        r.renames@[0].0@ == "iw4x-launcher.json"@,
        r.renames@[0].1@ == "launcher/config.json"@,
        !other_launcher_present ==> r.deletions@.len() == 6,
        other_launcher_present ==> r.deletions@.len() == 3,
        r.deletions@[0]@ == "launch-iw4x.lnk"@,
        r.deletions@[1]@ == "iw4x-launcher.log"@,
        r.deletions@[2]@ == "iw4x-cache.json"@,
        !other_launcher_present ==> r.deletions@[3]@ == "awcache.json"@ && r.deletions@[4]@
            == "alterware-launcher.log"@ && r.deletions@[5]@ == "alterware-launcher.json"@,
{
    let mut renames: Vec<(String, String)> = Vec::new();
    renames.push(
        (
            String::from_str("iw4x-launcher.json"),
            String::from_str("launcher/config.json"),
        ),
    );
    let mut deletions: Vec<String> = Vec::new();
    deletions.push(String::from_str("launch-iw4x.lnk"));
    deletions.push(String::from_str("iw4x-launcher.log"));
    deletions.push(String::from_str("iw4x-cache.json"));
    if !other_launcher_present {
        deletions.push(String::from_str("awcache.json"));
        deletions.push(String::from_str("alterware-launcher.log"));
        deletions.push(String::from_str("alterware-launcher.json"));
    }
    ReconciliationSpec { renames, deletions }
}

} // verus!
