//! Release metadata: the assets a release offers and where to download them.
//!
//! The metadata itself comes from an external resolver; this module holds
//! the typed representation and the lookups the sync logic performs on it.

use vstd::prelude::*;
use vstd::string::StrSliceExecFns;
use vstd::string::StringExecFns;

use crate::hashing::str_eq;
use crate::search::first_match_index;
use crate::search::is_first_match;
use crate::search::lemma_first_match_index_of;
use crate::search::lemma_no_match_no_first;

verus! {

/// One downloadable asset of a release.
pub struct GitHubAsset {
    pub name: String,
    pub url: String,
}

/// The mathematical content of a `GitHubAsset`.
pub struct AssetView {
    pub name: Seq<char>,
    pub url: Seq<char>,
}

impl View for GitHubAsset {
    type V = AssetView;

    open spec fn view(&self) -> AssetView {
        AssetView { name: self.name@, url: self.url@ }
    }
}

/// A release: its name and the assets it carries.
pub struct GitHubRelease {
    pub _repo_owner: String,
    pub repo_name: String,
    pub release_name: String,
    pub assets: Vec<GitHubAsset>,
}

/// The mathematical content of a `GitHubRelease`.
pub struct ReleaseView {
    pub repo_owner: Seq<char>,
    pub repo_name: Seq<char>,
    pub release_name: Seq<char>,
    pub assets: Seq<AssetView>,
}

impl View for GitHubRelease {
    type V = ReleaseView;

    open spec fn view(&self) -> ReleaseView {
        ReleaseView {
            repo_owner: self._repo_owner@,
            repo_name: self.repo_name@,
            release_name: self.release_name@,
            assets: self.assets@.map_values(|a: GitHubAsset| a@),
        }
    }
}

/// The predicate picking an asset by name.
pub open spec fn asset_named(name: Seq<char>) -> spec_fn(AssetView) -> bool {
    |a: AssetView| a.name == name
}

/// The index of the first asset called `name`, if one exists.
pub fn find_asset(assets: &Vec<GitHubAsset>, name: &str) -> (r: Option<usize>)
    ensures
        match r {
            Some(i) => first_match_index(
                assets@.map_values(|a: GitHubAsset| a@),
                asset_named(name@),
            ) == Some(i as int),
            None => first_match_index(
                assets@.map_values(|a: GitHubAsset| a@),
                asset_named(name@),
            ) is None,
        },
{
    let ghost vs = assets@.map_values(|a: GitHubAsset| a@);
    let n = assets.len();
    let mut i: usize = 0;
    while i < n
        invariant
            i <= n,
            n == assets@.len(),
            vs == assets@.map_values(|a: GitHubAsset| a@),
            forall|j: int| 0 <= j < i ==> !(asset_named(name@)(#[trigger] vs[j])),
        decreases n - i,
    {
        if str_eq(assets[i].name.as_str(), name) {
            proof {
                assert(vs[i as int].name == name@);
                assert(is_first_match(vs, asset_named(name@), i as int));
                lemma_first_match_index_of(vs, asset_named(name@), i as int);
            }
            return Some(i);
        }
        proof {
            assert(vs[i as int].name == assets@[i as int].name@);
        }
        i += 1;
    }
    proof {
        lemma_no_match_no_first(vs, asset_named(name@));
    }
    None
}

/// An asset description as the external resolver hands it over.
pub struct GitHubAssetDto {
    pub name: String,
    pub browser_download_url: String,
}

impl From<GitHubAssetDto> for GitHubAsset {
    fn from(value: GitHubAssetDto) -> (r: GitHubAsset) {
        GitHubAsset { name: value.name, url: value.browser_download_url }
    }
}

impl vstd::std_specs::convert::FromSpecImpl<GitHubAssetDto> for GitHubAsset {
    open spec fn obeys_from_spec() -> bool {
        true
    }

    open spec fn from_spec(value: GitHubAssetDto) -> GitHubAsset {
        GitHubAsset { name: value.name, url: value.browser_download_url }
    }
}

/// A release description as the external resolver hands it over.
pub struct GitHubReleaseDto {
    pub name: String,
    pub assets: Vec<GitHubAssetDto>,
}

impl GitHubReleaseDto {
    /// Turn the raw description into the release model, keeping every asset
    /// under its name and download URL.
    pub fn into_release(self, repo_owner: String, repo_name: String) -> (r: GitHubRelease)
        ensures
            r@.repo_owner == repo_owner@,
            r@.repo_name == repo_name@,
            r@.release_name == self.name@,
            r@.assets.len() == self.assets@.len(),
            forall|i: int|
                0 <= i < self.assets@.len() ==> (#[trigger] r@.assets[i]).name
                    == self.assets@[i].name@ && r@.assets[i].url
                    == self.assets@[i].browser_download_url@,
    {
        let ghost dtos = self.assets@;
        let mut assets: Vec<GitHubAsset> = Vec::new();
        let mut rest = self.assets;
        let n = rest.len();
        let mut i: usize = 0;
        while i < n
            invariant
                i <= n,
                n == dtos.len(),
                rest@.len() + i == n,
                forall|j: int| 0 <= j < rest@.len() ==> rest@[j] == dtos[i + j],
                assets@.len() == i,
                forall|j: int|
                    0 <= j < i ==> (#[trigger] assets@[j]).name@ == dtos[j].name@
                        && assets@[j].url@ == dtos[j].browser_download_url@,
            decreases n - i,
        {
            let dto = rest.remove(0);
            assets.push(GitHubAsset::from(dto));
            i += 1;
        }
        GitHubRelease { _repo_owner: repo_owner, repo_name, release_name: self.name, assets }
    }
}

/// The page or direct location releases are downloaded from: a tagged
/// release's download directory, or the latest-release page.
pub fn download_url(owner: &str, repo: &str, tag: Option<&str>) -> (r: String)
    ensures
        match tag {
            Some(t) => r@ == "https://github.com/"@ + owner@ + "/"@ + repo@
                + "/releases/download/"@ + t@,
            None => r@ == "https://github.com/"@ + owner@ + "/"@ + repo@ + "/releases/latest"@,
        },
{
    let mut out = String::from_str("https://github.com/");
    out.append(owner);
    out.append("/");
    out.append(repo);
    match tag {
        Some(t) => {
            out.append("/releases/download/");
            out.append(t);
            proof {
                assert(out@ =~= "https://github.com/"@ + owner@ + "/"@ + repo@
                    + "/releases/download/"@ + t@);
            }
        }
        None => {
            out.append("/releases/latest");
            proof {
                assert(out@ =~= "https://github.com/"@ + owner@ + "/"@ + repo@
                    + "/releases/latest"@);
            }
        }
    }
    out
}

} // verus!
