//! The raw update definition as it is published alongside a release: flat
//! lists of file and archive descriptions, before they are linked to the
//! release's assets.

use vstd::prelude::*;

verus! {

/// One file the installation should contain: content hash, size, relative
/// path, and either the asset it is downloaded from or the archive it is
/// packed in.
pub struct UpdateFileDto {
    pub blake3: String,
    pub size: u32,
    pub path: String,
    pub asset_name: Option<String>,
    pub archive: Option<String>,
}

/// The mathematical content of an `UpdateFileDto`.
pub struct FileDtoView {
    pub blake3: Seq<char>,
    pub size: u32,
    pub path: Seq<char>,
    pub asset_name: Option<Seq<char>>,
    pub archive: Option<Seq<char>>,
}

impl View for UpdateFileDto {
    type V = FileDtoView;

    open spec fn view(&self) -> FileDtoView {
        FileDtoView {
            blake3: self.blake3@,
            size: self.size,
            path: self.path@,
            asset_name: match self.asset_name {
                Some(s) => Some(s@),
                None => None,
            },
            archive: match self.archive {
                Some(s) => Some(s@),
                None => None,
            },
        }
    }
}

impl Clone for UpdateFileDto {
    fn clone(&self) -> (r: Self)
        ensures
            r@ == self@,
    {
        UpdateFileDto {
            blake3: self.blake3.clone(),
            size: self.size,
            path: self.path.clone(),
            asset_name: match &self.asset_name {
                Some(s) => Some(s.clone()),
                None => None,
            },
            archive: match &self.archive {
                Some(s) => Some(s.clone()),
                None => None,
            },
        }
    }
}

/// One archive-packaged asset: content hash, size, and asset name.
pub struct UpdateArchiveDto {
    pub blake3: String,
    pub size: u32,
    pub name: String,
}

/// The mathematical content of an `UpdateArchiveDto`.
pub struct ArchiveDtoView {
    pub blake3: Seq<char>,
    pub size: u32,
    pub name: Seq<char>,
}

impl View for UpdateArchiveDto {
    type V = ArchiveDtoView;

    open spec fn view(&self) -> ArchiveDtoView {
        ArchiveDtoView { blake3: self.blake3@, size: self.size, name: self.name@ }
    }
}

impl Clone for UpdateArchiveDto {
    fn clone(&self) -> (r: Self)
        ensures
            r@ == self@,
    {
        UpdateArchiveDto {
            blake3: self.blake3.clone(),
            size: self.size,
            name: self.name.clone(),
        }
    }
}

/// The whole published definition.
pub struct UpdateDataDto {
    pub archives: Vec<UpdateArchiveDto>,
    pub files: Vec<UpdateFileDto>,
}

/// The mathematical content of an `UpdateDataDto`.
pub struct DataDtoView {
    pub archives: Seq<ArchiveDtoView>,
    pub files: Seq<FileDtoView>,
}

impl View for UpdateDataDto {
    type V = DataDtoView;

    open spec fn view(&self) -> DataDtoView {
        DataDtoView {
            archives: self.archives@.map_values(|a: UpdateArchiveDto| a@),
            files: self.files@.map_values(|f: UpdateFileDto| f@),
        }
    }
}

} // verus!
