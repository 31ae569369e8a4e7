//! The Differ: which manifest entries are missing or stale on disk.
//!
//! The install directory is handed in as an observation (`StrMap` from
//! relative path to on-disk content hash; a missing key is a missing file),
//! alongside the hash cache. A standalone file is stale when it is missing
//! or its locally known hash (cached if cached, else the disk hash) does
//! not match the manifest hash case-insensitively; an archive is stale when
//! any of its declared members is. Checking a file whose hash was not
//! cached writes the freshly observed hash into the cache.

use vstd::prelude::*;

use crate::game_files::ArchiveView;
use crate::game_files::DataView;
use crate::game_files::FileDataView;
use crate::game_files::FileView;
use crate::game_files::UpdateArchive;
use crate::game_files::UpdateData;
use crate::game_files::UpdateFile;
use crate::game_files::UpdateFileData;
use crate::hashing::eq_ignore_case;
use crate::hashing::fold;
use crate::hashing::fold_char;
use crate::hashing::hash_eq;
use crate::hashing::to_lowercase;
use crate::strmap::StrMap;

verus! {

/// The hash the pass knows for a present file without re-reading it: the
/// cached one if the path is cached, else the hash of the file on disk.
pub open spec fn local_hash(
    disk: Map<Seq<char>, Seq<char>>,
    cache: Map<Seq<char>, Seq<char>>,
    path: Seq<char>,
) -> Seq<char> {
    if cache.contains_key(path) {
        cache[path]
    } else {
        disk[path]
    }
}

/// A manifest entry is stale when its file is missing, or the locally known
/// hash does not match the manifest hash case-insensitively.
pub open spec fn file_stale(
    f: FileDataView,
    disk: Map<Seq<char>, Seq<char>>,
    cache: Map<Seq<char>, Seq<char>>,
) -> bool {
    ||| !disk.contains_key(f.path)
    ||| !hash_eq(local_hash(disk, cache, f.path), f.blake3)
}

/// What checking one entry does to the cache: a present file whose hash was
/// not cached gets its freshly observed hash cached (in lower case),
/// whatever the comparison said; everything else leaves the cache alone.
pub open spec fn cache_after_check(
    f: FileDataView,
    disk: Map<Seq<char>, Seq<char>>,
    cache: Map<Seq<char>, Seq<char>>,
) -> Map<Seq<char>, Seq<char>> {
    if disk.contains_key(f.path) && !cache.contains_key(f.path) {
        cache.insert(f.path, fold(disk[f.path]))
    } else {
        cache
    }
}

/// The cache after checking a list of entries in order.
pub open spec fn cache_after_checks(
    entries: Seq<FileDataView>,
    disk: Map<Seq<char>, Seq<char>>,
    cache: Map<Seq<char>, Seq<char>>,
) -> Map<Seq<char>, Seq<char>>
    decreases entries.len(),
{
    if entries.len() == 0 {
        cache
    } else {
        cache_after_check(entries.last(), disk, cache_after_checks(entries.drop_last(), disk, cache))
    }
}

/// The stale entries of the standalone file list, in manifest order.
pub open spec fn stale_files(
    files: Seq<FileView>,
    disk: Map<Seq<char>, Seq<char>>,
    cache: Map<Seq<char>, Seq<char>>,
) -> Seq<FileView>
    decreases files.len(),
{
    if files.len() == 0 {
        Seq::empty()
    } else {
        let rest = stale_files(files.drop_last(), disk, cache);
        if file_stale(files.last().file_data, disk, cache) {
            rest.push(files.last())
        } else {
            rest
        }
    }
}

/// An archive is stale when any declared member is stale.
pub open spec fn archive_stale(
    a: ArchiveView,
    disk: Map<Seq<char>, Seq<char>>,
    cache: Map<Seq<char>, Seq<char>>,
) -> bool {
    exists|j: int| 0 <= j < a.files.len() && file_stale(#[trigger] a.files[j], disk, cache)
}

/// The stale archives, in manifest order.
pub open spec fn stale_archives(
    archives: Seq<ArchiveView>,
    disk: Map<Seq<char>, Seq<char>>,
    cache: Map<Seq<char>, Seq<char>>,
) -> Seq<ArchiveView>
    decreases archives.len(),
{
    if archives.len() == 0 {
        Seq::empty()
    } else {
        let rest = stale_archives(archives.drop_last(), disk, cache);
        if archive_stale(archives.last(), disk, cache) {
            rest.push(archives.last())
        } else {
            rest
        }
    }
}

/// All archive members, archive by archive.
pub open spec fn members_of(archives: Seq<ArchiveView>) -> Seq<FileDataView>
    decreases archives.len(),
{
    if archives.len() == 0 {
        Seq::empty()
    } else {
        members_of(archives.drop_last()) + archives.last().files
    }
}

/// Every entry one pass checks, in checking order: standalone files first,
/// then each archive's members.
pub open spec fn checked_entries(ud: DataView) -> Seq<FileDataView> {
    ud.files.map_values(|f: FileView| f.file_data) + members_of(ud.archives)
}

/// Case-folding a hash does not change what it matches.
pub proof fn lemma_fold_hash_eq(h: Seq<char>, x: Seq<char>)
    ensures
        hash_eq(fold(h), x) == hash_eq(h, x),
{
    assert(fold(h).len() == h.len());
    assert forall|i: int| 0 <= i < h.len() implies fold_char(#[trigger] fold(h)[i]) == fold_char(
        h[i],
    ) by {
        assert(fold(h)[i] == fold_char(h[i]));
    }
}

/// Caching a freshly observed disk hash never changes any staleness
/// decision: the cached copy matches exactly what the disk hash matched.
pub proof fn lemma_check_preserves_staleness(
    c: FileDataView,
    g: FileDataView,
    disk: Map<Seq<char>, Seq<char>>,
    cache: Map<Seq<char>, Seq<char>>,
)
    ensures
        file_stale(g, disk, cache_after_check(c, disk, cache)) == file_stale(g, disk, cache),
{
    if disk.contains_key(c.path) && !cache.contains_key(c.path) {
        if g.path == c.path {
            lemma_fold_hash_eq(disk[c.path], g.blake3);
        }
    }
}

/// The same, for a whole list of checks.
pub proof fn lemma_checks_preserve_staleness(
    entries: Seq<FileDataView>,
    g: FileDataView,
    disk: Map<Seq<char>, Seq<char>>,
    cache: Map<Seq<char>, Seq<char>>,
)
    ensures
        file_stale(g, disk, cache_after_checks(entries, disk, cache)) == file_stale(g, disk, cache),
    decreases entries.len(),
{
    if entries.len() > 0 {
        lemma_checks_preserve_staleness(entries.drop_last(), g, disk, cache);
        lemma_check_preserves_staleness(
            entries.last(),
            g,
            disk,
            cache_after_checks(entries.drop_last(), disk, cache),
        );
    }
}

/// Whether one manifest entry needs a download, updating the cache with a
/// freshly observed hash as `cache_after_check` says.
pub fn verify_file_needs_download(
    file_data: &UpdateFileData,
    disk: &StrMap,
    cache: &mut StrMap,
) -> (r: bool)
    requires
        disk.wf(),
        old(cache).wf(),
    ensures
        final(cache).wf(),
        final(cache)@ == cache_after_check(file_data@, disk@, old(cache)@),
        r == file_stale(file_data@, disk@, old(cache)@),
{
    let disk_hash: Option<String> = match disk.get(file_data.path.as_str()) {
        Some(h) => Some(h.clone()),
        None => None,
    };
    match disk_hash {
        None => true,
        Some(dh) => {
            let cached: Option<String> = match cache.get(file_data.path.as_str()) {
                Some(h) => Some(h.clone()),
                None => None,
            };
            match cached {
                Some(h) => !eq_ignore_case(h.as_str(), file_data.blake3.as_str()),
                None => {
                    let lower = to_lowercase(dh.as_str());
                    let stale = !eq_ignore_case(lower.as_str(), file_data.blake3.as_str());
                    proof {
                        lemma_fold_hash_eq(dh@, file_data.blake3@);
                    }
                    cache.insert(file_data.path.clone(), lower);
                    stale
                }
            }
        }
    }
}

/// Whether a downloaded or extracted file's hash matches the manifest hash.
pub fn verify_downloaded_file(actual_hash: &str, expected_hash: &str) -> (r: bool)
    ensures
        r == hash_eq(actual_hash@, expected_hash@),
{
    eq_ignore_case(actual_hash, expected_hash)
}

/// Check every manifest entry against the installation: the returned pair
/// holds the stale archives and the stale standalone files, in manifest
/// order, and the cache ends as checking every entry leaves it.
pub fn verify_files(update_data: &UpdateData, disk: &StrMap, cache: &mut StrMap) -> (r: (
    Vec<UpdateArchive>,
    Vec<UpdateFile>,
))
    requires
        disk.wf(),
        old(cache).wf(),
    ensures
        final(cache).wf(),
        r.0@.map_values(|a: UpdateArchive| a@) == stale_archives(
            update_data@.archives,
            disk@,
            old(cache)@,
        ),
        r.1@.map_values(|f: UpdateFile| f@) == stale_files(
            update_data@.files,
            disk@,
            old(cache)@,
        ),
        final(cache)@ == cache_after_checks(checked_entries(update_data@), disk@, old(cache)@),
{
    let ghost dv = update_data@;
    let ghost mut checked: Seq<FileDataView> = Seq::empty();
    let mut files_out: Vec<UpdateFile> = Vec::new();
    let mut archives_out: Vec<UpdateArchive> = Vec::new();

    let nf = update_data.files.len();
    let mut i: usize = 0;
    while i < nf
        invariant
            i <= nf,
            nf == update_data.files@.len(),
            dv == update_data@,
            disk.wf(),
            cache.wf(),
            checked == dv.files.take(i as int).map_values(|f: FileView| f.file_data),
            cache@ == cache_after_checks(checked, disk@, old(cache)@),
            files_out@.map_values(|f: UpdateFile| f@) == stale_files(
                dv.files.take(i as int),
                disk@,
                old(cache)@,
            ),
        decreases nf - i,
    {
        let file = &update_data.files[i];
        proof {
            assert(file@ == dv.files[i as int]);
        }
        let ghost pre_checked = checked;
        let stale = verify_file_needs_download(&file.file_data, disk, cache);
        proof {
            lemma_checks_preserve_staleness(pre_checked, file@.file_data, disk@, old(cache)@);
            checked = pre_checked.push(file@.file_data);
            assert(checked.drop_last() =~= pre_checked);
            assert(checked =~= dv.files.take(i + 1).map_values(|f: FileView| f.file_data));
            assert(dv.files.take(i + 1).drop_last() =~= dv.files.take(i as int));
            assert(dv.files.take(i + 1).last() == dv.files[i as int]);
        }
        let ghost prev_out = files_out@.map_values(|f: UpdateFile| f@);
        if stale {
            files_out.push(file.clone());
            proof {
                assert(files_out@.map_values(|f: UpdateFile| f@) =~= prev_out.push(
                    dv.files[i as int],
                ));
            }
        }
        i += 1;
    }
    proof {
        assert(dv.files.take(nf as int) =~= dv.files);
    }

    let na = update_data.archives.len();
    let mut a: usize = 0;
    while a < na
        invariant
            a <= na,
            na == update_data.archives@.len(),
            dv == update_data@,
            disk.wf(),
            cache.wf(),
            checked == dv.files.map_values(|f: FileView| f.file_data) + members_of(
                dv.archives.take(a as int),
            ),
            cache@ == cache_after_checks(checked, disk@, old(cache)@),
            files_out@.map_values(|f: UpdateFile| f@) == stale_files(dv.files, disk@, old(cache)@),
            archives_out@.map_values(|x: UpdateArchive| x@) == stale_archives(
                dv.archives.take(a as int),
                disk@,
                old(cache)@,
            ),
        decreases na - a,
    {
        let archive = &update_data.archives[a];
        proof {
            assert(archive@ == dv.archives[a as int]);
        }
        let ghost base = checked;
        let nm = archive.files.len();
        let mut j: usize = 0;
        let mut any_stale = false;
        while j < nm
            invariant
                j <= nm,
                nm == archive.files@.len(),
                dv == update_data@,
                archive@ == dv.archives[a as int],
                a < dv.archives.len(),
                disk.wf(),
                cache.wf(),
                checked == base + dv.archives[a as int].files.take(j as int),
                cache@ == cache_after_checks(checked, disk@, old(cache)@),
                any_stale == exists|m: int|
                    0 <= m < j && file_stale(
                        #[trigger] dv.archives[a as int].files[m],
                        disk@,
                        old(cache)@,
                    ),
            decreases nm - j,
        {
            let member = &archive.files[j];
            proof {
                assert(member@ == dv.archives[a as int].files[j as int]);
            }
            let ghost pre_checked = checked;
            let stale = verify_file_needs_download(member, disk, cache);
            proof {
                lemma_checks_preserve_staleness(pre_checked, member@, disk@, old(cache)@);
                checked = pre_checked.push(member@);
                assert(checked.drop_last() =~= pre_checked);
                assert(checked =~= base + dv.archives[a as int].files.take(j + 1));
            }
            let ghost had_stale = any_stale;
            if stale {
                any_stale = true;
            }
            proof {
                if any_stale {
                    if stale {
                        assert(file_stale(dv.archives[a as int].files[j as int], disk@, old(cache)@));
                    }
                } else {
                    if exists|m: int|
                        0 <= m < j + 1 && file_stale(
                            #[trigger] dv.archives[a as int].files[m],
                            disk@,
                            old(cache)@,
                        ) {
                        let m = choose|m: int|
                            0 <= m < j + 1 && file_stale(
                                #[trigger] dv.archives[a as int].files[m],
                                disk@,
                                old(cache)@,
                            );
                        assert(m == j || (0 <= m < j));
                    }
                }
            }
            j += 1;
        }
        proof {
            assert(dv.archives[a as int].files.take(nm as int) =~= dv.archives[a as int].files);
            assert(any_stale == archive_stale(dv.archives[a as int], disk@, old(cache)@));
            assert(dv.archives.take(a + 1).drop_last() =~= dv.archives.take(a as int));
            assert(dv.archives.take(a + 1).last() == dv.archives[a as int]);
            assert(members_of(dv.archives.take(a + 1)) == members_of(dv.archives.take(a as int))
                + dv.archives[a as int].files);
            assert(checked =~= dv.files.map_values(|f: FileView| f.file_data) + members_of(
                dv.archives.take(a + 1),
            ));
        }
        let ghost prev_out = archives_out@.map_values(|x: UpdateArchive| x@);
        if any_stale {
            archives_out.push(archive.clone());
            proof {
                assert(archives_out@.map_values(|x: UpdateArchive| x@) =~= prev_out.push(
                    dv.archives[a as int],
                ));
            }
        }
        a += 1;
    }
    proof {
        assert(dv.archives.take(na as int) =~= dv.archives);
        assert(checked =~= checked_entries(dv));
    }
    (archives_out, files_out)
}

/// A cache is correct for an installation when every cached hash matches
/// the hash of the file on disk.
pub open spec fn cache_correct(
    cache: Map<Seq<char>, Seq<char>>,
    disk: Map<Seq<char>, Seq<char>>,
) -> bool {
    forall|p: Seq<char>|
        cache.contains_key(p) ==> disk.contains_key(p) && hash_eq(#[trigger] cache[p], disk[p])
}

/// A correct cache decides staleness exactly as no cache at all.
pub proof fn lemma_file_stale_cache_equiv(
    f: FileDataView,
    disk: Map<Seq<char>, Seq<char>>,
    cache: Map<Seq<char>, Seq<char>>,
)
    requires
        cache_correct(cache, disk),
    ensures
        file_stale(f, disk, cache) == file_stale(f, disk, Map::empty()),
{
    if disk.contains_key(f.path) && cache.contains_key(f.path) {
        crate::hashing::lemma_hash_eq_transitive(cache[f.path], disk[f.path], f.blake3);
    }
}

/// Two caches that decide every entry alike produce the same stale file
/// list.
pub proof fn lemma_stale_files_equiv(
    files: Seq<FileView>,
    disk: Map<Seq<char>, Seq<char>>,
    c1: Map<Seq<char>, Seq<char>>,
    c2: Map<Seq<char>, Seq<char>>,
)
    requires
        forall|g: FileDataView| #[trigger]
            file_stale(g, disk, c1) == file_stale(g, disk, c2),
    ensures
        stale_files(files, disk, c1) == stale_files(files, disk, c2),
    decreases files.len(),
{
    if files.len() > 0 {
        lemma_stale_files_equiv(files.drop_last(), disk, c1, c2);
        assert(file_stale(files.last().file_data, disk, c1) == file_stale(
            files.last().file_data,
            disk,
            c2,
        ));
    }
}

/// Two caches that decide every entry alike produce the same stale archive
/// list.
pub proof fn lemma_stale_archives_equiv(
    archives: Seq<ArchiveView>,
    disk: Map<Seq<char>, Seq<char>>,
    c1: Map<Seq<char>, Seq<char>>,
    c2: Map<Seq<char>, Seq<char>>,
)
    requires
        forall|g: FileDataView| #[trigger]
            file_stale(g, disk, c1) == file_stale(g, disk, c2),
    ensures
        stale_archives(archives, disk, c1) == stale_archives(archives, disk, c2),
    decreases archives.len(),
{
    if archives.len() > 0 {
        lemma_stale_archives_equiv(archives.drop_last(), disk, c1, c2);
        let last = archives.last();
        assert(archive_stale(last, disk, c1) == archive_stale(last, disk, c2)) by {
            if archive_stale(last, disk, c1) {
                let j = choose|j: int|
                    0 <= j < last.files.len() && file_stale(#[trigger] last.files[j], disk, c1);
                assert(file_stale(last.files[j], disk, c2));
            }
            if archive_stale(last, disk, c2) {
                let j = choose|j: int|
                    0 <= j < last.files.len() && file_stale(#[trigger] last.files[j], disk, c2);
                assert(file_stale(last.files[j], disk, c1));
            }
        }
    }
}

/// Cache equivalence: for any manifest and any installation, the Differ
/// run with a correct, pre-populated cache reports exactly the stale files
/// and stale archives it reports with an empty cache. The cache is an
/// optimization, never an arbiter.
pub proof fn lemma_cache_equivalence(
    ud: DataView,
    disk: Map<Seq<char>, Seq<char>>,
    cache: Map<Seq<char>, Seq<char>>,
)
    requires
        cache_correct(cache, disk),
    ensures
        stale_files(ud.files, disk, cache) == stale_files(ud.files, disk, Map::empty()),
        stale_archives(ud.archives, disk, cache) == stale_archives(
            ud.archives,
            disk,
            Map::empty(),
        ),
{
    assert forall|g: FileDataView| #[trigger]
        file_stale(g, disk, cache) == file_stale(g, disk, Map::<Seq<char>, Seq<char>>::empty()) by {
        lemma_file_stale_cache_equiv(g, disk, cache);
    }
    lemma_stale_files_equiv(ud.files, disk, cache, Map::empty());
    lemma_stale_archives_equiv(ud.archives, disk, cache, Map::empty());
}

/// An entry is settled when its file sits on disk with a matching hash and
/// its path is cached with a matching hash.
pub open spec fn entry_settled(
    f: FileDataView,
    disk: Map<Seq<char>, Seq<char>>,
    cache: Map<Seq<char>, Seq<char>>,
) -> bool {
    &&& disk.contains_key(f.path)
    &&& hash_eq(disk[f.path], f.blake3)
    &&& cache.contains_key(f.path)
    &&& hash_eq(cache[f.path], f.blake3)
}

/// Checking entries that are all cached changes nothing.
pub proof fn lemma_cache_after_checks_cached(
    entries: Seq<FileDataView>,
    disk: Map<Seq<char>, Seq<char>>,
    cache: Map<Seq<char>, Seq<char>>,
)
    requires
        forall|i: int|
            0 <= i < entries.len() ==> cache.contains_key((#[trigger] entries[i]).path),
    ensures
        cache_after_checks(entries, disk, cache) == cache,
    decreases entries.len(),
{
    if entries.len() > 0 {
        assert(forall|i: int|
            0 <= i < entries.drop_last().len() ==> cache.contains_key(
                (#[trigger] entries.drop_last()[i]).path,
            ));
        lemma_cache_after_checks_cached(entries.drop_last(), disk, cache);
        assert(entries[entries.len() - 1] == entries.last());
    }
}

/// Every member in `members_of` comes from one of the archives.
pub proof fn lemma_members_of_index(archives: Seq<ArchiveView>, k: int)
    requires
        0 <= k < members_of(archives).len(),
    ensures
        exists|i: int, j: int|
            0 <= i < archives.len() && 0 <= j < archives[i].files.len() && members_of(archives)[k]
                == archives[i].files[j],
    decreases archives.len(),
{
    let prefix = members_of(archives.drop_last());
    if k < prefix.len() {
        lemma_members_of_index(archives.drop_last(), k);
        let (i, j) = choose|i: int, j: int|
            0 <= i < archives.drop_last().len() && 0 <= j < archives.drop_last()[i].files.len()
                && prefix[k] == archives.drop_last()[i].files[j];
        assert(archives.drop_last()[i] == archives[i]);
        assert(members_of(archives)[k] == archives[i].files[j]);
    } else {
        let i = archives.len() - 1;
        let j = k - prefix.len();
        assert(members_of(archives)[k] == archives[i].files[j]);
    }
}

/// No stale entries settles the stale file list to empty.
pub proof fn lemma_stale_files_empty(
    files: Seq<FileView>,
    disk: Map<Seq<char>, Seq<char>>,
    cache: Map<Seq<char>, Seq<char>>,
)
    requires
        forall|i: int|
            0 <= i < files.len() ==> !file_stale((#[trigger] files[i]).file_data, disk, cache),
    ensures
        stale_files(files, disk, cache) == Seq::<FileView>::empty(),
    decreases files.len(),
{
    if files.len() > 0 {
        assert(forall|i: int|
            0 <= i < files.drop_last().len() ==> !file_stale(
                (#[trigger] files.drop_last()[i]).file_data,
                disk,
                cache,
            ));
        lemma_stale_files_empty(files.drop_last(), disk, cache);
        assert(files[files.len() - 1] == files.last());
    }
}

/// No stale archives settles the stale archive list to empty.
pub proof fn lemma_stale_archives_empty(
    archives: Seq<ArchiveView>,
    disk: Map<Seq<char>, Seq<char>>,
    cache: Map<Seq<char>, Seq<char>>,
)
    requires
        forall|i: int|
            0 <= i < archives.len() ==> !archive_stale(#[trigger] archives[i], disk, cache),
    ensures
        stale_archives(archives, disk, cache) == Seq::<ArchiveView>::empty(),
    decreases archives.len(),
{
    if archives.len() > 0 {
        assert(forall|i: int|
            0 <= i < archives.drop_last().len() ==> !archive_stale(
                #[trigger] archives.drop_last()[i],
                disk,
                cache,
            ));
        lemma_stale_archives_empty(archives.drop_last(), disk, cache);
        assert(archives[archives.len() - 1] == archives.last());
    }
}

/// Idempotence: when every manifest entry is settled — on disk with a
/// matching hash and cached with a matching hash, exactly the state a
/// successful pass leaves behind — a further pass finds nothing stale,
/// downloads nothing, and leaves the cache exactly as it found it.
pub proof fn lemma_sync_idempotent(
    ud: DataView,
    disk: Map<Seq<char>, Seq<char>>,
    cache: Map<Seq<char>, Seq<char>>,
)
    requires
        forall|i: int|
            0 <= i < ud.files.len() ==> entry_settled(
                (#[trigger] ud.files[i]).file_data,
                disk,
                cache,
            ),
        forall|i: int, j: int|
            0 <= i < ud.archives.len() && 0 <= j < ud.archives[i].files.len() ==> entry_settled(
                #[trigger] ud.archives[i].files[j],
                disk,
                cache,
            ),
    ensures
        stale_files(ud.files, disk, cache) == Seq::<FileView>::empty(),
        stale_archives(ud.archives, disk, cache) == Seq::<ArchiveView>::empty(),
        cache_after_checks(checked_entries(ud), disk, cache) == cache,
{
    assert forall|i: int| 0 <= i < ud.files.len() implies !file_stale(
        (#[trigger] ud.files[i]).file_data,
        disk,
        cache,
    ) by {}
    lemma_stale_files_empty(ud.files, disk, cache);
    assert forall|i: int| 0 <= i < ud.archives.len() implies !archive_stale(
        #[trigger] ud.archives[i],
        disk,
        cache,
    ) by {
        if archive_stale(ud.archives[i], disk, cache) {
            let j = choose|j: int|
                0 <= j < ud.archives[i].files.len() && file_stale(
                    #[trigger] ud.archives[i].files[j],
                    disk,
                    cache,
                );
            assert(entry_settled(ud.archives[i].files[j], disk, cache));
        }
    }
    lemma_stale_archives_empty(ud.archives, disk, cache);
    let entries = checked_entries(ud);
    assert forall|k: int| 0 <= k < entries.len() implies cache.contains_key(
        (#[trigger] entries[k]).path,
    ) by {
        let fmap = ud.files.map_values(|f: FileView| f.file_data);
        if k < fmap.len() {
            assert(entries[k] == fmap[k]);
            assert(fmap[k] == ud.files[k].file_data);
        } else {
            let k2 = k - fmap.len();
            assert(entries[k] == members_of(ud.archives)[k2]);
            lemma_members_of_index(ud.archives, k2);
            let (i, j) = choose|i: int, j: int|
                0 <= i < ud.archives.len() && 0 <= j < ud.archives[i].files.len() && members_of(
                    ud.archives,
                )[k2] == ud.archives[i].files[j];
            assert(entry_settled(ud.archives[i].files[j], disk, cache));
        }
    }
    lemma_cache_after_checks_cached(entries, disk, cache);
}

/// Checking never disturbs an existing cache entry.
pub proof fn lemma_checks_preserve_bindings(
    entries: Seq<FileDataView>,
    disk: Map<Seq<char>, Seq<char>>,
    cache: Map<Seq<char>, Seq<char>>,
    p: Seq<char>,
)
    requires
        cache.contains_key(p),
    ensures
        cache_after_checks(entries, disk, cache).contains_key(p),
        cache_after_checks(entries, disk, cache)[p] == cache[p],
    decreases entries.len(),
{
    if entries.len() > 0 {
        lemma_checks_preserve_bindings(entries.drop_last(), disk, cache, p);
    }
}

/// After a pass, the path of every present file is cached.
pub proof fn lemma_checks_fill(
    entries: Seq<FileDataView>,
    disk: Map<Seq<char>, Seq<char>>,
    cache: Map<Seq<char>, Seq<char>>,
    i: int,
)
    requires
        0 <= i < entries.len(),
        disk.contains_key(entries[i].path),
    ensures
        cache_after_checks(entries, disk, cache).contains_key(entries[i].path),
    decreases entries.len(),
{
    if i < entries.len() - 1 {
        assert(entries.drop_last()[i] == entries[i]);
        lemma_checks_fill(entries.drop_last(), disk, cache, i);
    }
}

/// A pass whose entries are already cached wherever their files exist
/// changes nothing.
pub proof fn lemma_checks_noop(
    entries: Seq<FileDataView>,
    disk: Map<Seq<char>, Seq<char>>,
    cache: Map<Seq<char>, Seq<char>>,
)
    requires
        forall|i: int|
            0 <= i < entries.len() && disk.contains_key((#[trigger] entries[i]).path)
                ==> cache.contains_key(entries[i].path),
    ensures
        cache_after_checks(entries, disk, cache) == cache,
    decreases entries.len(),
{
    if entries.len() > 0 {
        assert(forall|i: int|
            0 <= i < entries.drop_last().len() && disk.contains_key(
                (#[trigger] entries.drop_last()[i]).path,
            ) ==> cache.contains_key(entries.drop_last()[i].path));
        lemma_checks_noop(entries.drop_last(), disk, cache);
        assert(entries[entries.len() - 1] == entries.last());
    }
}

/// Idempotence of the diff itself, with nothing assumed: running the
/// Differ again immediately after a pass reports exactly the same stale
/// files and archives, and the cache a pass leaves behind is a fixed
/// point — the second pass leaves it untouched.
pub proof fn lemma_diff_idempotent(
    ud: DataView,
    disk: Map<Seq<char>, Seq<char>>,
    cache: Map<Seq<char>, Seq<char>>,
)
    ensures
        stale_files(ud.files, disk, cache_after_checks(checked_entries(ud), disk, cache))
            == stale_files(ud.files, disk, cache),
        stale_archives(ud.archives, disk, cache_after_checks(checked_entries(ud), disk, cache))
            == stale_archives(ud.archives, disk, cache),
        cache_after_checks(
            checked_entries(ud),
            disk,
            cache_after_checks(checked_entries(ud), disk, cache),
        ) == cache_after_checks(checked_entries(ud), disk, cache),
{
    let entries = checked_entries(ud);
    let c1 = cache_after_checks(entries, disk, cache);
    assert forall|g: FileDataView| #[trigger]
        file_stale(g, disk, c1) == file_stale(g, disk, cache) by {
        lemma_checks_preserve_staleness(entries, g, disk, cache);
    }
    lemma_stale_files_equiv(ud.files, disk, c1, cache);
    lemma_stale_archives_equiv(ud.archives, disk, c1, cache);
    assert forall|i: int|
        0 <= i < entries.len() && disk.contains_key((#[trigger] entries[i]).path)
            implies c1.contains_key(entries[i].path) by {
        lemma_checks_fill(entries, disk, cache, i);
    }
    lemma_checks_noop(entries, disk, c1);
}

/// Archive short-circuit: only an archive with at least one stale member
/// ever enters the download list; one with zero stale members is never
/// handed to the download engine.
pub proof fn lemma_archive_short_circuit(
    archives: Seq<ArchiveView>,
    disk: Map<Seq<char>, Seq<char>>,
    cache: Map<Seq<char>, Seq<char>>,
    a: ArchiveView,
)
    requires
        stale_archives(archives, disk, cache).contains(a),
    ensures
        archive_stale(a, disk, cache),
    decreases archives.len(),
{
    if archives.len() > 0 {
        let rest = stale_archives(archives.drop_last(), disk, cache);
        if archive_stale(archives.last(), disk, cache) {
            let out = rest.push(archives.last());
            let k = choose|k: int| 0 <= k < out.len() && out[k] == a;
            if k == out.len() - 1 {
                assert(a == archives.last());
            } else {
                assert(rest[k] == a);
                assert(rest.contains(a));
                lemma_archive_short_circuit(archives.drop_last(), disk, cache, a);
            }
        } else {
            lemma_archive_short_circuit(archives.drop_last(), disk, cache, a);
        }
    }
}

/// The member count of every archive, summed.
pub open spec fn spec_member_count(archives: Seq<ArchiveView>) -> int
    decreases archives.len(),
{
    if archives.len() == 0 {
        0
    } else {
        spec_member_count(archives.drop_last()) + archives.last().files.len()
    }
}

/// How many entries one pass checks: every standalone file and every
/// archive member.
pub open spec fn spec_total_verify_count(ud: DataView) -> int {
    ud.files.len() + spec_member_count(ud.archives)
}

/// The total count of files to verify, saturating at `usize::MAX`.
pub fn get_total_verify_count(update_data: &UpdateData) -> (r: usize)
    ensures
        r == vstd::math::min(spec_total_verify_count(update_data@), usize::MAX as int),
{
    let ghost dv = update_data@;
    let mut total = update_data.files.len();
    proof {
        assert(dv.archives.take(0) =~= Seq::<ArchiveView>::empty());
    }
    let na = update_data.archives.len();
    let mut a: usize = 0;
    while a < na
        invariant
            a <= na,
            na == update_data.archives@.len(),
            dv == update_data@,
            total == vstd::math::min(
                dv.files.len() + spec_member_count(dv.archives.take(a as int)),
                usize::MAX as int,
            ),
        decreases na - a,
    {
        let n = update_data.archives[a].files.len();
        proof {
            assert(dv.archives.take(a + 1).drop_last() =~= dv.archives.take(a as int));
            assert(dv.archives.take(a + 1).last() == dv.archives[a as int]);
            assert(n == dv.archives[a as int].files.len());
        }
        if total <= usize::MAX - n {
            total = total + n;
        } else {
            total = usize::MAX;
        }
        a += 1;
    }
    proof {
        assert(dv.archives.take(na as int) =~= dv.archives);
    }
    total
}

} // verus!
