//! The update model: the files and archives one release asks an
//! installation to contain, and how the published definition is linked
//! against the release's downloadable assets.

use vstd::prelude::*;
use vstd::string::StringExecFns;

use crate::github::asset_named;
use crate::github::find_asset;
use crate::github::GitHubRelease;
use crate::github::ReleaseView;
use crate::hashing::str_eq;
use crate::release_definition::ArchiveDtoView;
use crate::release_definition::DataDtoView;
use crate::release_definition::FileDtoView;
use crate::release_definition::UpdateArchiveDto;
use crate::release_definition::UpdateDataDto;
use crate::release_definition::UpdateFileDto;
use crate::search::first_match_index;
use crate::search::is_first_match;
use crate::search::lemma_first_match_index_of;
use crate::search::lemma_no_match_no_first;
use crate::strmap::StrMap;

verus! {

/// Hash, size and relative path of one file the manifest asks for.
pub struct UpdateFileData {
    pub blake3: String,
    pub size: u32,
    pub path: String,
}

/// The mathematical content of an `UpdateFileData`.
pub struct FileDataView {
    pub blake3: Seq<char>,
    pub size: u32,
    pub path: Seq<char>,
}

impl View for UpdateFileData {
    type V = FileDataView;

    open spec fn view(&self) -> FileDataView {
        FileDataView { blake3: self.blake3@, size: self.size, path: self.path@ }
    }
}

impl Clone for UpdateFileData {
    fn clone(&self) -> (r: Self)
        ensures
            r@ == self@,
    {
        UpdateFileData {
            blake3: self.blake3.clone(),
            size: self.size,
            path: self.path.clone(),
        }
    }
}

/// A standalone downloadable file: its data and the URL it comes from.
pub struct UpdateFile {
    pub file_data: UpdateFileData,
    pub url: String,
}

/// The mathematical content of an `UpdateFile`.
pub struct FileView {
    pub file_data: FileDataView,
    pub url: Seq<char>,
}

impl View for UpdateFile {
    type V = FileView;

    open spec fn view(&self) -> FileView {
        FileView { file_data: self.file_data@, url: self.url@ }
    }
}

impl Clone for UpdateFile {
    fn clone(&self) -> (r: Self)
        ensures
            r@ == self@,
    {
        UpdateFile { file_data: self.file_data.clone(), url: self.url.clone() }
    }
}

/// A fetchable archive and the member files the manifest wants out of it.
pub struct UpdateArchive {
    pub file_data: UpdateFileData,
    pub url: String,
    pub files: Vec<UpdateFileData>,
}

/// The mathematical content of an `UpdateArchive`.
pub struct ArchiveView {
    pub file_data: FileDataView,
    pub url: Seq<char>,
    pub files: Seq<FileDataView>,
}

impl View for UpdateArchive {
    type V = ArchiveView;

    open spec fn view(&self) -> ArchiveView {
        ArchiveView {
            file_data: self.file_data@,
            url: self.url@,
            files: self.files@.map_values(|f: UpdateFileData| f@),
        }
    }
}

impl Clone for UpdateArchive {
    fn clone(&self) -> (r: Self)
        ensures
            r@ == self@,
    {
        let mut files: Vec<UpdateFileData> = Vec::new();
        let n = self.files.len();
        let mut i: usize = 0;
        while i < n
            invariant
                i <= n,
                n == self.files@.len(),
                files@.len() == i,
                forall|j: int| 0 <= j < i ==> (#[trigger] files@[j])@ == self.files@[j]@,
            decreases n - i,
        {
            files.push(self.files[i].clone());
            i += 1;
        }
        let r = UpdateArchive {
            file_data: self.file_data.clone(),
            url: self.url.clone(),
            files,
        };
        proof {
            assert(r@.files =~= self@.files);
        }
        r
    }
}

/// Everything one sync pass must bring up to date.
pub struct UpdateData {
    pub archives: Vec<UpdateArchive>,
    pub files: Vec<UpdateFile>,
}

/// The mathematical content of an `UpdateData`.
pub struct DataView {
    pub archives: Seq<ArchiveView>,
    pub files: Seq<FileView>,
}

impl View for UpdateData {
    type V = DataView;

    open spec fn view(&self) -> DataView {
        DataView {
            archives: self.archives@.map_values(|a: UpdateArchive| a@),
            files: self.files@.map_values(|f: UpdateFile| f@),
        }
    }
}

/// The file data a definition entry describes.
pub open spec fn member_view(f: FileDtoView) -> FileDataView {
    FileDataView { blake3: f.blake3, size: f.size, path: f.path }
}

/// An archive with one more declared member.
pub open spec fn with_member(a: ArchiveView, m: FileDataView) -> ArchiveView {
    ArchiveView { file_data: a.file_data, url: a.url, files: a.files.push(m) }
}

/// The predicate picking a declared archive by its asset name.
pub open spec fn archive_named(name: Seq<char>) -> spec_fn(ArchiveView) -> bool {
    |a: ArchiveView| a.file_data.path == name
}

/// The index of the first declared archive called `name`, if one exists.
fn find_archive(archives: &Vec<UpdateArchive>, name: &str) -> (r: Option<usize>)
    ensures
        match r {
            Some(i) => first_match_index(
                archives@.map_values(|a: UpdateArchive| a@),
                archive_named(name@),
            ) == Some(i as int),
            None => first_match_index(
                archives@.map_values(|a: UpdateArchive| a@),
                archive_named(name@),
            ) is None,
        },
{
    let ghost vs = archives@.map_values(|a: UpdateArchive| a@);
    let n = archives.len();
    let mut i: usize = 0;
    while i < n
        invariant
            i <= n,
            n == archives@.len(),
            vs == archives@.map_values(|a: UpdateArchive| a@),
            forall|j: int| 0 <= j < i ==> !(archive_named(name@)(#[trigger] vs[j])),
        decreases n - i,
    {
        if str_eq(archives[i].file_data.path.as_str(), name) {
            proof {
                assert(vs[i as int].file_data.path == name@);
                assert(is_first_match(vs, archive_named(name@), i as int));
                lemma_first_match_index_of(vs, archive_named(name@), i as int);
            }
            return Some(i);
        }
        proof {
            assert(vs[i as int].file_data.path == archives@[i as int].file_data.path@);
        }
        i += 1;
    }
    proof {
        lemma_no_match_no_first(vs, archive_named(name@));
    }
    None
}

/// What converting one archive description yields: the archive bound to its
/// release asset's URL, with no members declared yet; nothing if the release
/// has no asset of that name.
pub open spec fn spec_archive_domain(dto: ArchiveDtoView, release: ReleaseView) -> Option<
    ArchiveView,
> {
    match first_match_index(release.assets, asset_named(dto.name)) {
        Some(i) => Some(
            ArchiveView {
                file_data: FileDataView { blake3: dto.blake3, size: dto.size, path: dto.name },
                url: release.assets[i].url,
                files: Seq::empty(),
            },
        ),
        None => None,
    }
}

impl UpdateArchiveDto {
    /// Bind an archive description to the release asset it is downloaded
    /// from. A description without a matching asset is a defect of the
    /// release and an error.
    pub fn into_domain(self, release: &GitHubRelease) -> (r: Result<UpdateArchive, String>)
        ensures
            match r {
                Ok(a) => spec_archive_domain(self@, release@) == Some(a@),
                Err(m) => spec_archive_domain(self@, release@) is None && m@ == "Archive "@
                    + self.name@ + " from definition is missing its asset in release "@
                    + release.release_name@,
            },
    {
        match find_asset(&release.assets, self.name.as_str()) {
            Some(i) => {
                let url = release.assets[i].url.clone();
                let r = UpdateArchive {
                    file_data: UpdateFileData {
                        blake3: self.blake3,
                        path: self.name,
                        size: self.size,
                    },
                    files: Vec::new(),
                    url,
                };
                proof {
                    assert(r@.files =~= Seq::<FileDataView>::empty());
                }
                Ok(r)
            }
            None => {
                let mut m = String::from_str("Archive ");
                m.append(self.name.as_str());
                m.append(" from definition is missing its asset in release ");
                m.append(release.release_name.as_str());
                proof {
                    assert(m@ =~= "Archive "@ + self.name@
                        + " from definition is missing its asset in release "@
                        + release.release_name@);
                }
                Err(m)
            }
        }
    }
}

/// What adding one file description does to the update model.
///
/// A member of a declared archive joins that archive's member list; a file
/// with its own asset joins the standalone list under that asset's URL; a
/// description naming neither is ignored. Naming an unknown archive or
/// asset is an error and leaves the model unchanged.
pub open spec fn spec_add_file(data: DataView, dto: FileDtoView, release: ReleaseView) -> Option<
    DataView,
> {
    match dto.archive {
        Some(archive_name) => match first_match_index(data.archives, archive_named(archive_name)) {
            Some(i) => Some(
                DataView {
                    archives: data.archives.update(
                        i,
                        with_member(data.archives[i], member_view(dto)),
                    ),
                    files: data.files,
                },
            ),
            None => None,
        },
        None => match dto.asset_name {
            Some(asset_name) => match first_match_index(release.assets, asset_named(asset_name)) {
                Some(i) => Some(
                    DataView {
                        archives: data.archives,
                        files: data.files.push(
                            FileView {
                                file_data: member_view(dto),
                                url: release.assets[i].url,
                            },
                        ),
                    },
                ),
                None => None,
            },
            None => Some(data),
        },
    }
}

impl UpdateFileDto {
    /// Add one file description to the update model, as `spec_add_file`
    /// says.
    pub fn add_to_update_data(
        self,
        update_data: &mut UpdateData,
        release: &GitHubRelease,
    ) -> (r: Result<(), String>)
        ensures
            match r {
                Ok(()) => spec_add_file(old(update_data)@, self@, release@) == Some(
                    final(update_data)@,
                ),
                Err(_) => spec_add_file(old(update_data)@, self@, release@) is None
                    && final(update_data)@ == old(update_data)@,
            },
    {
        match self.archive {
            Some(archive_name) => {
                match find_archive(&update_data.archives, archive_name.as_str()) {
                    Some(i) => {
                        let ghost old_archives = update_data.archives@;
                        let mut arch = update_data.archives.remove(i);
                        arch.files.push(
                            UpdateFileData { blake3: self.blake3, path: self.path, size: self.size },
                        );
                        update_data.archives.insert(i, arch);
                        proof {
                            let dv = spec_add_file(old(update_data)@, self@, release@).unwrap();
                            assert(update_data.archives@.len() == old_archives.len());
                            assert forall|j: int|
                                0 <= j < update_data.archives@.len() && j != i implies (
                            #[trigger] update_data.archives@[j]) == old_archives[j] by {}
                            assert(update_data@.archives[i as int].files =~= dv.archives[
                                i as int].files);
                            assert(update_data@.archives[i as int] == dv.archives[i as int]);
                            assert(update_data@.archives =~= dv.archives);
                            assert(update_data@.files =~= dv.files);
                            assert(update_data@ == dv);
                        }
                        Ok(())
                    }
                    None => {
                        let mut m = String::from_str("Archive ");
                        m.append(archive_name.as_str());
                        m.append(" of file ");
                        m.append(self.path.as_str());
                        m.append(" could not be found");
                        Err(m)
                    }
                }
            }
            None => match self.asset_name {
                Some(asset_name) => {
                    match find_asset(&release.assets, asset_name.as_str()) {
                        Some(i) => {
                            let url = release.assets[i].url.clone();
                            update_data.files.push(
                                UpdateFile {
                                    file_data: UpdateFileData {
                                        blake3: self.blake3,
                                        path: self.path,
                                        size: self.size,
                                    },
                                    url,
                                },
                            );
                            proof {
                                let dv = spec_add_file(old(update_data)@, self@, release@).unwrap();
                                assert(update_data@.files =~= dv.files);
                                assert(update_data@.archives =~= dv.archives);
                                assert(update_data@ == dv);
                            }
                            Ok(())
                        }
                        None => {
                            let mut m = String::from_str("Asset ");
                            m.append(asset_name.as_str());
                            m.append(" of file ");
                            m.append(self.path.as_str());
                            m.append(" could not be found");
                            Err(m)
                        }
                    }
                }
                None => Ok(()),
            },
        }
    }
}

/// Converting every archive description, in order; nothing if any of them
/// lacks its asset.
pub open spec fn spec_archives_domain(dtos: Seq<ArchiveDtoView>, release: ReleaseView) -> Option<
    Seq<ArchiveView>,
>
    decreases dtos.len(),
{
    if dtos.len() == 0 {
        Some(Seq::empty())
    } else {
        match spec_archives_domain(dtos.drop_last(), release) {
            Some(s) => match spec_archive_domain(dtos.last(), release) {
                Some(a) => Some(s.push(a)),
                None => None,
            },
            None => None,
        }
    }
}

/// Adding every file description, in order; nothing from the first one that
/// fails.
pub open spec fn spec_add_files(
    data: DataView,
    dtos: Seq<FileDtoView>,
    release: ReleaseView,
) -> Option<DataView>
    decreases dtos.len(),
{
    if dtos.len() == 0 {
        Some(data)
    } else {
        match spec_add_file(data, dtos[0], release) {
            Some(d) => spec_add_files(d, dtos.drop_first(), release),
            None => None,
        }
    }
}

/// The whole conversion: archives first, then the files that fill them.
pub open spec fn spec_into_domain(dto: DataDtoView, release: ReleaseView) -> Option<DataView> {
    match spec_archives_domain(dto.archives, release) {
        Some(archives) => spec_add_files(
            DataView { archives, files: Seq::empty() },
            dto.files,
            release,
        ),
        None => None,
    }
}

/// Convert every archive description of the list, in order.
fn convert_archives(dtos: &Vec<UpdateArchiveDto>, release: &GitHubRelease) -> (r: Result<
    Vec<UpdateArchive>,
    String,
>)
    ensures
        match r {
            Ok(v) => spec_archives_domain(
                dtos@.map_values(|a: UpdateArchiveDto| a@),
                release@,
            ) == Some(v@.map_values(|a: UpdateArchive| a@)),
            Err(_) => spec_archives_domain(
                dtos@.map_values(|a: UpdateArchiveDto| a@),
                release@,
            ) is None,
        },
{
    let ghost vdtos = dtos@.map_values(|a: UpdateArchiveDto| a@);
    let mut out: Vec<UpdateArchive> = Vec::new();
    let n = dtos.len();
    let mut i: usize = 0;
    while i < n
        invariant
            i <= n,
            n == dtos@.len(),
            vdtos == dtos@.map_values(|a: UpdateArchiveDto| a@),
            spec_archives_domain(vdtos.take(i as int), release@) == Some(
                out@.map_values(|a: UpdateArchive| a@),
            ),
        decreases n - i,
    {
        let ghost prefix = vdtos.take(i as int);
        let ghost prev_views = out@.map_values(|a2: UpdateArchive| a2@);
        let dto = dtos[i].clone();
        proof {
            assert(dto@ == vdtos[i as int]);
        }
        match dto.into_domain(release) {
            Ok(a) => {
                out.push(a);
                proof {
                    assert(vdtos.take(i + 1).drop_last() =~= prefix);
                    assert(vdtos.take(i + 1).last() == vdtos[i as int]);
                    assert(out@.map_values(|a2: UpdateArchive| a2@) =~= prev_views.push(a@));
                }
            }
            Err(m) => {
                proof {
                    lemma_archives_domain_extends_none(vdtos, release@, i as int);
                }
                return Err(m);
            }
        }
        i += 1;
    }
    proof {
        assert(vdtos.take(n as int) =~= vdtos);
    }
    Ok(out)
}

/// Add every file description of the list to the update model, in order.
fn add_files(
    update_data: &mut UpdateData,
    dtos: &Vec<UpdateFileDto>,
    release: &GitHubRelease,
) -> (r: Result<(), String>)
    ensures
        match r {
            Ok(()) => spec_add_files(
                old(update_data)@,
                dtos@.map_values(|f: UpdateFileDto| f@),
                release@,
            ) == Some(final(update_data)@),
            Err(_) => spec_add_files(
                old(update_data)@,
                dtos@.map_values(|f: UpdateFileDto| f@),
                release@,
            ) is None,
        },
{
    let ghost vdtos = dtos@.map_values(|f: UpdateFileDto| f@);
    proof {
        assert(vdtos.skip(0) =~= vdtos);
    }
    let n = dtos.len();
    let mut k: usize = 0;
    while k < n
        invariant
            k <= n,
            n == dtos@.len(),
            vdtos == dtos@.map_values(|f: UpdateFileDto| f@),
            spec_add_files(update_data@, vdtos.skip(k as int), release@) == spec_add_files(
                old(update_data)@,
                vdtos,
                release@,
            ),
        decreases n - k,
    {
        let ghost before = update_data@;
        let dto = dtos[k].clone();
        proof {
            assert(dto@ == vdtos[k as int]);
            assert(vdtos.skip(k as int)[0] == dto@);
        }
        match dto.add_to_update_data(update_data, release) {
            Ok(()) => {
                proof {
                    assert(vdtos.skip(k as int).drop_first() =~= vdtos.skip(k + 1));
                    assert(spec_add_files(before, vdtos.skip(k as int), release@) == spec_add_files(
                        update_data@,
                        vdtos.skip(k + 1),
                        release@,
                    ));
                }
            }
            Err(m) => {
                proof {
                    assert(spec_add_files(before, vdtos.skip(k as int), release@) is None);
                }
                return Err(m);
            }
        }
        k += 1;
    }
    proof {
        assert(vdtos.skip(n as int) =~= Seq::<FileDtoView>::empty());
    }
    Ok(())
}

impl UpdateDataDto {
    /// Link the published definition against the release: every archive gets
    /// its asset URL, every file joins its archive or stands alone with its
    /// own asset URL. Any dangling reference aborts the conversion.
    pub fn into_domain(self, release: &GitHubRelease) -> (r: Result<UpdateData, String>)
        ensures
            match r {
                Ok(ud) => spec_into_domain(self@, release@) == Some(ud@),
                Err(_) => spec_into_domain(self@, release@) is None,
            },
    {
        let archives = match convert_archives(&self.archives, release) {
            Ok(a) => a,
            Err(m) => {
                return Err(m);
            }
        };
        let mut update_data = UpdateData { archives, files: Vec::new() };
        proof {
            assert(update_data@.files =~= Seq::<FileView>::empty());
            assert(update_data@ == DataView {
                archives: update_data@.archives,
                files: Seq::empty(),
            });
        }
        match add_files(&mut update_data, &self.files, release) {
            Ok(()) => Ok(update_data),
            Err(m) => Err(m),
        }
    }
}

/// Once one archive description fails, the whole archive conversion fails,
/// however many descriptions follow.
pub proof fn lemma_archives_domain_extends_none(
    dtos: Seq<ArchiveDtoView>,
    release: ReleaseView,
    i: int,
)
    requires
        0 <= i < dtos.len(),
        spec_archive_domain(dtos[i], release) is None || spec_archives_domain(
            dtos.take(i),
            release,
        ) is None,
    ensures
        spec_archives_domain(dtos, release) is None,
    decreases dtos.len(),
{
    if dtos.len() - 1 == i {
        assert(dtos.take(i) =~= dtos.drop_last());
    } else {
        assert(dtos.drop_last().take(i) =~= dtos.take(i));
        assert(dtos.drop_last()[i] == dtos[i]);
        lemma_archives_domain_extends_none(dtos.drop_last(), release, i);
    }
}

/// The files without which the game cannot run at all.
///
/// `disk` is the observed contents of the install directory; the two names
/// are looked up among its keys.
pub fn required_files_exist(disk: &StrMap) -> (r: bool)
    ensures
        r == (disk@.contains_key("binkw32.dll"@) && disk@.contains_key("mss32.dll"@)),
{
    disk.contains("binkw32.dll") && disk.contains("mss32.dll")
}

} // verus!
