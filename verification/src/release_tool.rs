//! Building a release definition from a scanned directory tree: how files
//! are classified, named and listed in the published definition. Walking
//! the directory and reading archives happen outside; the scan results
//! come in as plain values.

use vstd::prelude::*;
use vstd::string::StrSliceExecFns;
use vstd::string::StringExecFns;

use crate::dlc::ext_of;
use crate::dlc::is_last_dot;
use crate::dlc::lemma_last_dot_unique;
use crate::hashing::hash_eq;
use crate::release_definition::ArchiveDtoView;
use crate::release_definition::DataDtoView;
use crate::release_definition::FileDtoView;
use crate::release_definition::UpdateArchiveDto;
use crate::release_definition::UpdateDataDto;
use crate::release_definition::UpdateFileDto;

verus! {

/// `s` with every `.` replaced by `_`.
pub open spec fn spec_dots_to_underscores(s: Seq<char>) -> Seq<char> {
    s.map_values(|c: char| if c == '.' { '_' } else { c })
}

/// Replace every dot in a file name by an underscore.
pub fn dots_to_underscores(s: &str) -> (r: String)
    ensures
        r@ == spec_dots_to_underscores(s@),
{
    let n = s.unicode_len();
    let mut out = String::new();
    let mut i: usize = 0;
    while i < n
        invariant
            i <= n,
            n == s@.len(),
            out@.len() == i,
            forall|j: int|
                0 <= j < i ==> out@[j] == (if s@[j] == '.' {
                    '_'
                } else {
                    s@[j]
                }),
        decreases n - i,
    {
        let c = s.get_char(i);
        if c == '.' {
            out.append("_");
            proof {
                reveal_strlit("_");
            }
        } else {
            out.append(s.substring_char(i, i + 1));
        }
        i += 1;
    }
    proof {
        assert(out@ =~= spec_dots_to_underscores(s@));
    }
    out
}

/// The technical name an update file is renamed to, so users are not
/// tempted to download it directly: a `__launcher_` prefix, with the dots
/// flattened unless the extension must survive.
pub fn renamed_update_file_name(file_name: &str, keep_extension: bool) -> (r: String)
    ensures
        keep_extension ==> r@ == "__launcher_"@ + file_name@,
        !keep_extension ==> r@ == "__launcher_"@ + spec_dots_to_underscores(file_name@),
{
    let mut out = String::from_str("__launcher_");
    if keep_extension {
        out.append(file_name);
    } else {
        let flat = dots_to_underscores(file_name);
        out.append(flat.as_str());
    }
    out
}

/// There is a dot in `s`.
pub open spec fn has_dot(s: Seq<char>) -> bool {
    exists|k: int| 0 <= k < s.len() && s[k] == '.'
}

/// Whether a file name names a zip archive: it has an extension and that
/// extension is `zip`, compared case-insensitively.
pub fn is_zip_filename(name: &str) -> (r: bool)
    ensures
        r == (has_dot(name@) && hash_eq(ext_of(name@), "zip"@)),
{
    let n = name.unicode_len();
    let mut dot: Option<usize> = None;
    let mut i: usize = 0;
    while i < n
        invariant
            i <= n,
            n == name@.len(),
            match dot {
                Some(d) => d < i && name@[d as int] == '.' && forall|j: int|
                    d < j < i ==> name@[j] != '.',
                None => forall|j: int| 0 <= j < i ==> name@[j] != '.',
            },
        decreases n - i,
    {
        if name.get_char(i) == '.' {
            dot = Some(i);
        }
        i += 1;
    }
    match dot {
        Some(d) => {
            proof {
                assert(is_last_dot(name@, d as int));
                let k = choose|k: int| is_last_dot(name@, k);
                lemma_last_dot_unique(name@, d as int, k);
            }
            let ext = name.substring_char(d + 1, n);
            crate::hashing::eq_ignore_case(ext, "zip")
        }
        None => {
            proof {
                if has_dot(name@) {
                    let k = choose|k: int| 0 <= k < name@.len() && name@[k] == '.';
                    assert(name@[k] != '.');
                }
            }
            false
        }
    }
}

/// The path of a directory entry relative to the scanned root: the name
/// itself at the root, else the parent path, a slash, and the name.
pub fn child_relative_path(parent: &str, name: &str) -> (r: String)
    ensures
        parent@.len() == 0 ==> r@ == name@,
        parent@.len() > 0 ==> r@ == parent@ + "/"@ + name@,
{
    if parent.unicode_len() == 0 {
        String::from_str(name)
    } else {
        let mut out = String::from_str(parent);
        out.append("/");
        out.append(name);
        proof {
            assert(out@ =~= parent@ + "/"@ + name@);
        }
        out
    }
}

/// One member file found inside a scanned archive.
pub struct ScannedMember {
    pub path: String,
    pub size: u32,
    pub blake3: String,
}

/// The mathematical content of a `ScannedMember`.
pub struct ScannedMemberView {
    pub path: Seq<char>,
    pub size: u32,
    pub blake3: Seq<char>,
}

impl View for ScannedMember {
    type V = ScannedMemberView;

    open spec fn view(&self) -> ScannedMemberView {
        ScannedMemberView { path: self.path@, size: self.size, blake3: self.blake3@ }
    }
}

/// One file found while scanning the release directory: its path relative
/// to the root, its (possibly renamed) file name, size and hash, and — for
/// a zip archive — the members found inside it.
pub struct ScannedFile {
    pub relative_path: String,
    pub file_name: String,
    pub size: u32,
    pub blake3: String,
    pub members: Option<Vec<ScannedMember>>,
}

/// The mathematical content of a `ScannedFile`.
pub struct ScannedFileView {
    pub relative_path: Seq<char>,
    pub file_name: Seq<char>,
    pub size: u32,
    pub blake3: Seq<char>,
    pub members: Option<Seq<ScannedMemberView>>,
}

impl View for ScannedFile {
    type V = ScannedFileView;

    open spec fn view(&self) -> ScannedFileView {
        ScannedFileView {
            relative_path: self.relative_path@,
            file_name: self.file_name@,
            size: self.size,
            blake3: self.blake3@,
            members: match &self.members {
                Some(ms) => Some(ms@.map_values(|m: ScannedMember| m@)),
                None => None,
            },
        }
    }
}

/// The definition entry for one archive member.
pub open spec fn member_dto(m: ScannedMemberView, archive_name: Seq<char>) -> FileDtoView {
    FileDtoView {
        blake3: m.blake3,
        size: m.size,
        path: m.path,
        asset_name: None,
        archive: Some(archive_name),
    }
}

/// What one scanned file adds to the definition: the definition file
/// itself is skipped; an archive contributes its members and an archive
/// entry; a plain file contributes a standalone entry under its asset
/// name.
pub open spec fn spec_scan_step(d: DataDtoView, f: ScannedFileView) -> DataDtoView {
    if f.relative_path == "update.json"@ {
        d
    } else {
        match f.members {
            Some(ms) => DataDtoView {
                archives: d.archives.push(
                    ArchiveDtoView { blake3: f.blake3, size: f.size, name: f.file_name },
                ),
                files: d.files + ms.map_values(|m: ScannedMemberView| member_dto(m, f.file_name)),
            },
            None => DataDtoView {
                archives: d.archives,
                files: d.files.push(
                    FileDtoView {
                        blake3: f.blake3,
                        size: f.size,
                        path: f.relative_path,
                        asset_name: Some(f.file_name),
                        archive: None,
                    },
                ),
            },
        }
    }
}

/// The definition built from the scanned files, in scan order.
pub open spec fn spec_build_from(d: DataDtoView, entries: Seq<ScannedFileView>) -> DataDtoView
    decreases entries.len(),
{
    if entries.len() == 0 {
        d
    } else {
        spec_build_from(spec_scan_step(d, entries[0]), entries.drop_first())
    }
}

/// The empty definition.
pub open spec fn empty_definition() -> DataDtoView {
    DataDtoView { archives: Seq::empty(), files: Seq::empty() }
}

/// Build the release definition from the scanned directory contents.
pub fn build_release_definition(entries: &Vec<ScannedFile>) -> (r: UpdateDataDto)
    ensures
        r@ == spec_build_from(empty_definition(), entries@.map_values(|e: ScannedFile| e@)),
{
    let ghost vs = entries@.map_values(|e: ScannedFile| e@);
    let mut archives: Vec<UpdateArchiveDto> = Vec::new();
    let mut files: Vec<UpdateFileDto> = Vec::new();
    proof {
        assert(vs.skip(0) =~= vs);
        assert(UpdateDataDto { archives, files }@.archives =~= empty_definition().archives);
        assert(UpdateDataDto { archives, files }@.files =~= empty_definition().files);
    }
    let n = entries.len();
    let mut i: usize = 0;
    while i < n
        invariant
            i <= n,
            n == entries@.len(),
            vs == entries@.map_values(|e: ScannedFile| e@),
            spec_build_from(
                DataDtoView {
                    archives: archives@.map_values(|a: UpdateArchiveDto| a@),
                    files: files@.map_values(|f: UpdateFileDto| f@),
                },
                vs.skip(i as int),
            ) == spec_build_from(empty_definition(), vs),
        decreases n - i,
    {
        let ghost before = DataDtoView {
            archives: archives@.map_values(|a: UpdateArchiveDto| a@),
            files: files@.map_values(|f: UpdateFileDto| f@),
        };
        proof {
            assert(vs.skip(i as int)[0] == vs[i as int]);
            assert(vs.skip(i as int).drop_first() =~= vs.skip(i + 1));
            assert(entries@[i as int]@ == vs[i as int]);
        }
        let entry = &entries[i];
        if crate::hashing::str_eq(entry.relative_path.as_str(), "update.json") {
            proof {
                assert(spec_scan_step(before, vs[i as int]) == before);
            }
        } else {
            match &entry.members {
                Some(ms) => {
                    let ghost target = spec_scan_step(before, vs[i as int]);
                    let m = ms.len();
                    let mut k: usize = 0;
                    while k < m
                        invariant
                            k <= m,
                            m == ms@.len(),
                            files@.map_values(|f: UpdateFileDto| f@) == before.files + ms@.map_values(
                                |mm: ScannedMember| mm@,
                            ).take(k as int).map_values(
                                |mv: ScannedMemberView|
                                    member_dto(mv, entry.file_name@),
                            ),
                        decreases m - k,
                    {
                        let member = &ms[k];
                        let ghost mv = ms@.map_values(|mm: ScannedMember| mm@);
                        let ghost prev_files = files@.map_values(|f: UpdateFileDto| f@);
                        files.push(
                            UpdateFileDto {
                                blake3: member.blake3.clone(),
                                size: member.size,
                                path: member.path.clone(),
                                asset_name: None,
                                archive: Some(entry.file_name.clone()),
                            },
                        );
                        proof {
                            assert(member@ == mv[k as int]);
                            assert(files@.map_values(|f: UpdateFileDto| f@) =~= prev_files.push(
                                member_dto(mv[k as int], entry.file_name@),
                            ));
                            assert(mv.take(k + 1).drop_last() =~= mv.take(k as int));
                            assert(mv.take(k + 1).map_values(
                                |mv2: ScannedMemberView| member_dto(mv2, entry.file_name@),
                            ) =~= mv.take(k as int).map_values(
                                |mv2: ScannedMemberView| member_dto(mv2, entry.file_name@),
                            ).push(member_dto(mv[k as int], entry.file_name@)));
                        }
                        k += 1;
                    }
                    let ghost prev_archives = archives@.map_values(|a: UpdateArchiveDto| a@);
                    archives.push(
                        UpdateArchiveDto {
                            blake3: entry.blake3.clone(),
                            size: entry.size,
                            name: entry.file_name.clone(),
                        },
                    );
                    proof {
                        let mv = ms@.map_values(|mm: ScannedMember| mm@);
                        assert(mv.take(m as int) =~= mv);
                        assert(archives@.map_values(|a: UpdateArchiveDto| a@) =~= prev_archives.push(
                            ArchiveDtoView {
                                blake3: entry.blake3@,
                                size: entry.size,
                                name: entry.file_name@,
                            },
                        ));
                        assert(files@.map_values(|f: UpdateFileDto| f@) =~= target.files);
                        assert(archives@.map_values(|a: UpdateArchiveDto| a@) =~= target.archives);
                    }
                }
                None => {
                    let ghost prev_files = files@.map_values(|f: UpdateFileDto| f@);
                    files.push(
                        UpdateFileDto {
                            blake3: entry.blake3.clone(),
                            size: entry.size,
                            path: entry.relative_path.clone(),
                            asset_name: Some(entry.file_name.clone()),
                            archive: None,
                        },
                    );
                    proof {
                        assert(files@.map_values(|f: UpdateFileDto| f@) =~= prev_files.push(
                            FileDtoView {
                                blake3: entry.blake3@,
                                size: entry.size,
                                path: entry.relative_path@,
                                asset_name: Some(entry.file_name@),
                                archive: None,
                            },
                        ));
                    }
                }
            }
        }
        i += 1;
    }
    proof {
        assert(vs.skip(n as int) =~= Seq::<ScannedFileView>::empty());
    }
    UpdateDataDto { archives, files }
}

} // verus!
