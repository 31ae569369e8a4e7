//! DLC synchronization: the manifest of extra game files, where each file
//! is installed, and which ones are outdated.

use vstd::prelude::*;
use vstd::string::StrSliceExecFns;
use vstd::string::StringExecFns;

use crate::hashing::hash_eq;
use crate::hashing::str_eq;
use crate::strmap::StrMap;

verus! {

/// Everything that can go wrong during a DLC update, each error naming the
/// asset or path it concerns.
pub enum DlcError {
    Network { operation: String },
    FileSystem { path: String, operation: String },
    Integrity { file: String, expected: String, actual: String },
    Parse { context: String },
    DownloadFailed { file: String, attempts: usize },
}

impl DlcError {
    /// The error as a sentence naming what failed.
    pub fn message(&self) -> (r: String)
        ensures
            match self {
                DlcError::Network { operation } => r@ == "Network error during "@ + operation@,
                DlcError::FileSystem { path, operation } => r@ == "File system error during "@
                    + operation@ + " on path '"@ + path@ + "'"@,
                DlcError::Integrity { file, expected, actual } => r@
                    == "Integrity check failed for '"@ + file@ + "': expected "@ + expected@
                    + ", got "@ + actual@,
                DlcError::Parse { context } => r@ == "Parse error in "@ + context@,
                DlcError::DownloadFailed { file, attempts } => r@ == "Download failed for '"@
                    + file@ + "' after "@ + crate::misc::spec_decimal(*attempts as int)
                    + " attempts"@,
            },
    {
        match self {
            DlcError::Network { operation } => {
                let mut m = String::from_str("Network error during ");
                m.append(operation.as_str());
                proof {
                    assert(m@ =~= "Network error during "@ + operation@);
                }
                m
            }
            DlcError::FileSystem { path, operation } => {
                let mut m = String::from_str("File system error during ");
                m.append(operation.as_str());
                m.append(" on path '");
                m.append(path.as_str());
                m.append("'");
                proof {
                    assert(m@ =~= "File system error during "@ + operation@ + " on path '"@
                        + path@ + "'"@);
                }
                m
            }
            DlcError::Integrity { file, expected, actual } => {
                let mut m = String::from_str("Integrity check failed for '");
                m.append(file.as_str());
                m.append("': expected ");
                m.append(expected.as_str());
                m.append(", got ");
                m.append(actual.as_str());
                proof {
                    assert(m@ =~= "Integrity check failed for '"@ + file@ + "': expected "@
                        + expected@ + ", got "@ + actual@);
                }
                m
            }
            DlcError::Parse { context } => {
                let mut m = String::from_str("Parse error in ");
                m.append(context.as_str());
                proof {
                    assert(m@ =~= "Parse error in "@ + context@);
                }
                m
            }
            DlcError::DownloadFailed { file, attempts } => {
                let mut m = String::from_str("Download failed for '");
                m.append(file.as_str());
                m.append("' after ");
                let n = crate::misc::u64_to_string(*attempts as u64);
                m.append(n.as_str());
                m.append(" attempts");
                proof {
                    assert(m@ =~= "Download failed for '"@ + file@ + "' after "@
                        + crate::misc::spec_decimal(*attempts as int) + " attempts"@);
                }
                m
            }
        }
    }
}

/// The result of a DLC operation.
pub type DlcResult<T> = Result<T, DlcError>;

/// One DLC file: its content hash, size, CDN path and local asset name.
#[derive(Debug, PartialEq, Eq)]
pub struct DlcFile {
    pub blake3: String,
    pub size: u64,
    pub path: String,
    pub asset_name: String,
}

/// The mathematical content of a `DlcFile`.
pub struct DlcFileView {
    pub blake3: Seq<char>,
    pub size: u64,
    pub path: Seq<char>,
    pub asset_name: Seq<char>,
}

impl View for DlcFile {
    type V = DlcFileView;

    open spec fn view(&self) -> DlcFileView {
        DlcFileView {
            blake3: self.blake3@,
            size: self.size,
            path: self.path@,
            asset_name: self.asset_name@,
        }
    }
}

impl Clone for DlcFile {
    fn clone(&self) -> (r: Self)
        ensures
            r@ == self@,
    {
        DlcFile {
            blake3: self.blake3.clone(),
            size: self.size,
            path: self.path.clone(),
            asset_name: self.asset_name.clone(),
        }
    }
}

/// `k` is the position of the last `.` in `s`.
pub open spec fn is_last_dot(s: Seq<char>, k: int) -> bool {
    &&& 0 <= k < s.len()
    &&& s[k] == '.'
    &&& forall|j: int| k < j < s.len() ==> s[j] != '.'
}

/// The extension of a file name: what follows the last dot, or the whole
/// name when there is no dot.
pub open spec fn ext_of(s: Seq<char>) -> Seq<char> {
    if exists|k: int| is_last_dot(s, k) {
        let k = choose|k: int| is_last_dot(s, k);
        s.subrange(k + 1, s.len() as int)
    } else {
        s
    }
}

/// Two last dots are the same dot.
pub proof fn lemma_last_dot_unique(s: Seq<char>, i: int, j: int)
    requires
        is_last_dot(s, i),
        is_last_dot(s, j),
    ensures
        i == j,
{
    if i < j {
        assert(s[j] != '.');
    }
    if j < i {
        assert(s[i] != '.');
    }
}

/// The extension of a file name, as `ext_of` says.
pub fn extension_of(name: &str) -> (r: String)
    ensures
        r@ == ext_of(name@),
{
    let n = name.unicode_len();
    let mut dot: Option<usize> = None;
    let mut i: usize = 0;
    while i < n
        invariant
            i <= n,
            n == name@.len(),
            match dot {
                Some(d) => d < i && name@[d as int] == '.' && forall|j: int|
                    d < j < i ==> name@[j] != '.',
                None => forall|j: int| 0 <= j < i ==> name@[j] != '.',
            },
        decreases n - i,
    {
        if name.get_char(i) == '.' {
            dot = Some(i);
        }
        i += 1;
    }
    match dot {
        Some(d) => {
            proof {
                assert(is_last_dot(name@, d as int));
                let k = choose|k: int| is_last_dot(name@, k);
                lemma_last_dot_unique(name@, d as int, k);
            }
            String::from_str(name.substring_char(d + 1, n))
        }
        None => {
            proof {
                if exists|k: int| is_last_dot(name@, k) {
                    let k = choose|k: int| is_last_dot(name@, k);
                    assert(name@[k] != '.');
                }
            }
            String::from_str(name)
        }
    }
}

/// The kinds of DLC files, told apart by extension; an unknown extension
/// is carried along.
#[derive(Debug, PartialEq, Eq)]
pub enum DlcFileType {
    FF,
    IWD,
    Unknown(String),
}

impl DlcFileType {
    /// Classify a file name by its extension.
    pub fn from_filename(filename: &str) -> (r: Self)
        ensures
            match r {
                DlcFileType::FF => ext_of(filename@) == "ff"@,
                DlcFileType::IWD => ext_of(filename@) == "iwd"@,
                DlcFileType::Unknown(e) => e@ == ext_of(filename@) && ext_of(filename@) != "ff"@
                    && ext_of(filename@) != "iwd"@,
            },
    {
        let ext = extension_of(filename);
        if str_eq(ext.as_str(), "ff") {
            DlcFileType::FF
        } else if str_eq(ext.as_str(), "iwd") {
            DlcFileType::IWD
        } else {
            DlcFileType::Unknown(ext)
        }
    }

    /// The directory (relative to the install base) files of this kind are
    /// installed in; unknown kinds fall back to the zone DLC directory.
    pub open spec fn spec_subdir(&self) -> Seq<char> {
        match self {
            DlcFileType::IWD => "iw4x"@,
            _ => "zone/dlc"@,
        }
    }

    /// The installation directory for this kind of file, under the install
    /// base.
    pub fn get_installation_path(&self, install_base: &str) -> (r: String)
        ensures
            r@ == install_base@ + "/"@ + self.spec_subdir(),
    {
        let mut out = String::from_str(install_base);
        out.append("/");
        match self {
            DlcFileType::IWD => {
                out.append("iw4x");
            }
            _ => {
                out.append("zone/dlc");
            }
        }
        proof {
            assert(out@ =~= install_base@ + "/"@ + self.spec_subdir());
        }
        out
    }

    /// A short name for the kind.
    pub fn description(&self) -> (r: &'static str)
        ensures
            match self {
                DlcFileType::FF => r@ == "FF"@,
                DlcFileType::IWD => r@ == "IWD"@,
                DlcFileType::Unknown(_) => r@ == "Unknown"@,
            },
    {
        match self {
            DlcFileType::FF => "FF",
            DlcFileType::IWD => "IWD",
            DlcFileType::Unknown(_) => "Unknown",
        }
    }
}

impl DlcFile {
    /// The kind of this file, from its asset name.
    pub fn file_type(&self) -> (r: DlcFileType)
        ensures
            match r {
                DlcFileType::FF => ext_of(self.asset_name@) == "ff"@,
                DlcFileType::IWD => ext_of(self.asset_name@) == "iwd"@,
                DlcFileType::Unknown(e) => e@ == ext_of(self.asset_name@) && ext_of(
                    self.asset_name@,
                ) != "ff"@ && ext_of(self.asset_name@) != "iwd"@,
            },
    {
        DlcFileType::from_filename(self.asset_name.as_str())
    }

    /// The hash-cache key for this file.
    pub fn cache_key(&self) -> (r: String)
        ensures
            r@ == "dlc/"@ + self.asset_name@,
    {
        let mut out = String::from_str("dlc/");
        out.append(self.asset_name.as_str());
        out
    }

    /// Where this file is downloaded from.
    pub fn cdn_url(&self, base_url: &str) -> (r: String)
        ensures
            r@ == base_url@ + "/"@ + self.path@,
    {
        let mut out = String::from_str(base_url);
        out.append("/");
        out.append(self.path.as_str());
        proof {
            assert(out@ =~= base_url@ + "/"@ + self.path@);
        }
        out
    }
}

/// The install-relative subdirectory for an asset name.
pub open spec fn spec_install_subdir(asset_name: Seq<char>) -> Seq<char> {
    if ext_of(asset_name) == "iwd"@ {
        "iw4x"@
    } else {
        "zone/dlc"@
    }
}

/// The install-relative path of a DLC file.
pub open spec fn spec_install_rel_path(f: DlcFileView) -> Seq<char> {
    spec_install_subdir(f.asset_name) + "/"@ + f.asset_name
}

/// The install-relative path a DLC file is placed at.
pub fn install_rel_path(file: &DlcFile) -> (r: String)
    ensures
        r@ == spec_install_rel_path(file@),
{
    let ft = file.file_type();
    let mut out = match ft {
        DlcFileType::IWD => String::from_str("iw4x"),
        _ => String::from_str("zone/dlc"),
    };
    out.append("/");
    out.append(file.asset_name.as_str());
    proof {
        reveal_strlit("ff");
        reveal_strlit("iwd");
        assert("ff"@.len() == 2 && "iwd"@.len() == 3);
        assert(out@ =~= spec_install_rel_path(file@));
    }
    out
}

/// A DLC file is stale when it is missing from the installation, or the
/// locally known hash (the cached one under its cache key, else the
/// on-disk hash) does not match its manifest hash case-insensitively.
pub open spec fn dlc_file_stale(
    f: DlcFileView,
    disk: Map<Seq<char>, Seq<char>>,
    cache: Map<Seq<char>, Seq<char>>,
) -> bool {
    let path = spec_install_rel_path(f);
    let key = "dlc/"@ + f.asset_name;
    ||| !disk.contains_key(path)
    ||| !hash_eq(
        if cache.contains_key(key) {
            cache[key]
        } else {
            disk[path]
        },
        f.blake3,
    )
}

/// What checking one DLC file does to the cache: a present file whose
/// hash was not cached gets the freshly observed hash cached under its
/// cache key, in lower case; everything else leaves the cache alone.
pub open spec fn dlc_cache_after_check(
    f: DlcFileView,
    disk: Map<Seq<char>, Seq<char>>,
    cache: Map<Seq<char>, Seq<char>>,
) -> Map<Seq<char>, Seq<char>> {
    let path = spec_install_rel_path(f);
    let key = "dlc/"@ + f.asset_name;
    if disk.contains_key(path) && !cache.contains_key(key) {
        cache.insert(key, crate::hashing::fold(disk[path]))
    } else {
        cache
    }
}

/// The cache after checking a list of DLC files in order.
pub open spec fn dlc_cache_after_checks(
    files: Seq<DlcFileView>,
    disk: Map<Seq<char>, Seq<char>>,
    cache: Map<Seq<char>, Seq<char>>,
) -> Map<Seq<char>, Seq<char>>
    decreases files.len(),
{
    if files.len() == 0 {
        cache
    } else {
        dlc_cache_after_check(
            files.last(),
            disk,
            dlc_cache_after_checks(files.drop_last(), disk, cache),
        )
    }
}

/// Equal cache keys come from equal asset names.
proof fn lemma_cache_key_injective(a: Seq<char>, b: Seq<char>)
    requires
        "dlc/"@ + a == "dlc/"@ + b,
    ensures
        a == b,
{
    let p = "dlc/"@;
    assert(a =~= (p + a).subrange(p.len() as int, (p + a).len() as int));
    assert(b =~= (p + b).subrange(p.len() as int, (p + b).len() as int));
}

/// Caching a freshly observed disk hash never changes any DLC staleness
/// decision: the cached copy matches exactly what the disk hash matched.
pub proof fn lemma_dlc_check_preserves_staleness(
    c: DlcFileView,
    g: DlcFileView,
    disk: Map<Seq<char>, Seq<char>>,
    cache: Map<Seq<char>, Seq<char>>,
)
    ensures
        dlc_file_stale(g, disk, dlc_cache_after_check(c, disk, cache)) == dlc_file_stale(
            g,
            disk,
            cache,
        ),
{
    let c_path = spec_install_rel_path(c);
    let c_key = "dlc/"@ + c.asset_name;
    let g_key = "dlc/"@ + g.asset_name;
    if disk.contains_key(c_path) && !cache.contains_key(c_key) {
        if g_key == c_key {
            lemma_cache_key_injective(g.asset_name, c.asset_name);
            assert(spec_install_rel_path(g) == c_path);
            crate::game::lemma_fold_hash_eq(disk[c_path], g.blake3);
        }
    }
}

/// The same, for a whole list of checks.
pub proof fn lemma_dlc_checks_preserve_staleness(
    files: Seq<DlcFileView>,
    g: DlcFileView,
    disk: Map<Seq<char>, Seq<char>>,
    cache: Map<Seq<char>, Seq<char>>,
)
    ensures
        dlc_file_stale(g, disk, dlc_cache_after_checks(files, disk, cache)) == dlc_file_stale(
            g,
            disk,
            cache,
        ),
    decreases files.len(),
{
    if files.len() > 0 {
        lemma_dlc_checks_preserve_staleness(files.drop_last(), g, disk, cache);
        lemma_dlc_check_preserves_staleness(
            files.last(),
            g,
            disk,
            dlc_cache_after_checks(files.drop_last(), disk, cache),
        );
    }
}

/// The stale DLC files, in manifest order.
pub open spec fn spec_outdated_files(
    files: Seq<DlcFileView>,
    disk: Map<Seq<char>, Seq<char>>,
    cache: Map<Seq<char>, Seq<char>>,
) -> Seq<DlcFileView>
    decreases files.len(),
{
    if files.len() == 0 {
        Seq::empty()
    } else {
        let rest = spec_outdated_files(files.drop_last(), disk, cache);
        if dlc_file_stale(files.last(), disk, cache) {
            rest.push(files.last())
        } else {
            rest
        }
    }
}

/// The DLC manifest: the files the installation should contain.
pub struct DlcManifest {
    pub files: Vec<DlcFile>,
}

impl View for DlcManifest {
    type V = Seq<DlcFileView>;

    open spec fn view(&self) -> Seq<DlcFileView> {
        self.files@.map_values(|f: DlcFile| f@)
    }
}

impl DlcManifest {
    /// Whether one file of the manifest needs an update, caching a freshly
    /// observed hash as `dlc_cache_after_check` says.
    pub fn file_needs_update(file: &DlcFile, disk: &StrMap, cache: &mut StrMap) -> (r: bool)
        requires
            disk.wf(),
            old(cache).wf(),
        ensures
            final(cache).wf(),
            final(cache)@ == dlc_cache_after_check(file@, disk@, old(cache)@),
            r == dlc_file_stale(file@, disk@, old(cache)@),
    {
        let path = install_rel_path(file);
        let disk_hash: Option<String> = match disk.get(path.as_str()) {
            Some(h) => Some(h.clone()),
            None => None,
        };
        match disk_hash {
            None => true,
            Some(dh) => {
                let key = file.cache_key();
                let cached: Option<String> = match cache.get(key.as_str()) {
                    Some(h) => Some(h.clone()),
                    None => None,
                };
                match cached {
                    Some(h) => !crate::hashing::eq_ignore_case(h.as_str(), file.blake3.as_str()),
                    None => {
                        let lower = crate::hashing::to_lowercase(dh.as_str());
                        let stale = !crate::hashing::eq_ignore_case(
                            lower.as_str(),
                            file.blake3.as_str(),
                        );
                        proof {
                            crate::game::lemma_fold_hash_eq(dh@, file.blake3@);
                        }
                        cache.insert(key, lower);
                        stale
                    }
                }
            }
        }
    }

    /// The files of this manifest that are missing or stale, in manifest
    /// order; the cache ends as checking every file leaves it.
    pub fn get_outdated_files(&self, disk: &StrMap, cache: &mut StrMap) -> (r: Vec<DlcFile>)
        requires
            disk.wf(),
            old(cache).wf(),
        ensures
            final(cache).wf(),
            r@.map_values(|f: DlcFile| f@) == spec_outdated_files(self@, disk@, old(cache)@),
            final(cache)@ == dlc_cache_after_checks(self@, disk@, old(cache)@),
    {
        let ghost vs = self@;
        let mut out: Vec<DlcFile> = Vec::new();
        let n = self.files.len();
        let mut i: usize = 0;
        while i < n
            invariant
                i <= n,
                n == self.files@.len(),
                vs == self@,
                disk.wf(),
                cache.wf(),
                cache@ == dlc_cache_after_checks(vs.take(i as int), disk@, old(cache)@),
                out@.map_values(|f: DlcFile| f@) == spec_outdated_files(
                    vs.take(i as int),
                    disk@,
                    old(cache)@,
                ),
            decreases n - i,
        {
            let file = &self.files[i];
            proof {
                assert(file@ == vs[i as int]);
                assert(vs.take(i + 1).drop_last() =~= vs.take(i as int));
                assert(vs.take(i + 1).last() == vs[i as int]);
            }
            let ghost prefix = vs.take(i as int);
            let ghost prev = out@.map_values(|f: DlcFile| f@);
            let stale = Self::file_needs_update(file, disk, cache);
            proof {
                lemma_dlc_checks_preserve_staleness(prefix, file@, disk@, old(cache)@);
            }
            if stale {
                out.push(file.clone());
                proof {
                    assert(out@.map_values(|f: DlcFile| f@) =~= prev.push(vs[i as int]));
                }
            }
            i += 1;
        }
        proof {
            assert(vs.take(n as int) =~= vs);
        }
        out
    }
}

/// The endpoints and retry policy one DLC update runs with.
pub struct DlcContext {
    pub manifest_url: String,
    pub cdn_base_url: String,
    pub max_retry_attempts: usize,
    pub retry_delay_ms: u64,
}

impl Clone for DlcContext {
    fn clone(&self) -> (r: Self)
        ensures
            r.manifest_url@ == self.manifest_url@,
            r.cdn_base_url@ == self.cdn_base_url@,
            r.max_retry_attempts == self.max_retry_attempts,
            r.retry_delay_ms == self.retry_delay_ms,
    {
        DlcContext {
            manifest_url: self.manifest_url.clone(),
            cdn_base_url: self.cdn_base_url.clone(),
            max_retry_attempts: self.max_retry_attempts,
            retry_delay_ms: self.retry_delay_ms,
        }
    }
}

impl Default for DlcContext {
    /// The stock CDN endpoints: three attempts per file, two seconds
    /// between attempts.
    fn default() -> (r: Self)
        ensures
            r.manifest_url@ == "https://cdn.iw4x.io/update.json"@,
            r.cdn_base_url@ == "https://cdn.iw4x.io"@,
            r.max_retry_attempts == 3,
            r.retry_delay_ms == 2000,
    {
        DlcContext {
            manifest_url: String::from_str("https://cdn.iw4x.io/update.json"),
            cdn_base_url: String::from_str("https://cdn.iw4x.io"),
            max_retry_attempts: 3,
            retry_delay_ms: 2000,
        }
    }
}

/// The DLC updater: its configuration.
pub struct Dlc {
    ctx: DlcContext,
}

impl Dlc {
    /// The configuration this updater runs with.
    pub closed spec fn ctx_spec(&self) -> DlcContext {
        self.ctx
    }

    /// An updater with the stock configuration.
    pub fn new() -> (r: Self)
        ensures
            r.ctx_spec().manifest_url@ == "https://cdn.iw4x.io/update.json"@,
            r.ctx_spec().cdn_base_url@ == "https://cdn.iw4x.io"@,
            r.ctx_spec().max_retry_attempts == 3,
            r.ctx_spec().retry_delay_ms == 2000,
    {
        Dlc { ctx: DlcContext::default() }
    }

    /// The configuration, for the caller that runs the downloads.
    pub fn context(&self) -> (r: &DlcContext)
        ensures
            *r == self.ctx_spec(),
    {
        &self.ctx
    }
}

/// Every directory in the list is one that some file needs.
pub open spec fn dirs_sound(dirs: Seq<String>, files: Seq<DlcFile>) -> bool {
    forall|i: int|
        0 <= i < dirs.len() ==> exists|j: int|
            0 <= j < files.len() && (#[trigger] dirs[i])@ == spec_install_subdir(
                (#[trigger] files[j])@.asset_name,
            )
}

/// The directory of each of the first `upto` files is in the list.
pub open spec fn dirs_cover(dirs: Seq<String>, files: Seq<DlcFile>, upto: int) -> bool {
    forall|j: int|
        0 <= j < upto ==> exists|i: int|
            0 <= i < dirs.len() && (#[trigger] dirs[i])@ == spec_install_subdir(
                (#[trigger] files[j])@.asset_name,
            )
}

/// No directory is listed twice.
pub open spec fn dirs_distinct(dirs: Seq<String>) -> bool {
    forall|i: int, k: int| 0 <= i < k < dirs.len() ==> dirs[i]@ != dirs[k]@
}

/// The distinct installation directories the given files need, each
/// relative to the install base and listed once.
pub fn installation_dirs(files: &Vec<DlcFile>) -> (r: Vec<String>)
    ensures
        dirs_sound(r@, files@),
        dirs_cover(r@, files@, files@.len() as int),
        dirs_distinct(r@),
{
    let mut out: Vec<String> = Vec::new();
    let n = files.len();
    let mut j: usize = 0;
    while j < n
        invariant
            j <= n,
            n == files@.len(),
            dirs_sound(out@, files@),
            dirs_cover(out@, files@, j as int),
            dirs_distinct(out@),
        decreases n - j,
    {
        let file = &files[j];
        let dir = match file.file_type() {
            DlcFileType::IWD => String::from_str("iw4x"),
            _ => String::from_str("zone/dlc"),
        };
        proof {
            reveal_strlit("ff");
            reveal_strlit("iwd");
            assert("ff"@.len() == 2 && "iwd"@.len() == 3);
            assert(dir@ == spec_install_subdir(files@[j as int]@.asset_name));
        }
        let m = out.len();
        let mut i: usize = 0;
        let mut present = false;
        while i < m
            invariant
                i <= m,
                m == out@.len(),
                present ==> exists|k: int| 0 <= k < m && (#[trigger] out@[k])@ == dir@,
                !present ==> forall|k: int| 0 <= k < i ==> (#[trigger] out@[k])@ != dir@,
            decreases m - i,
        {
            if str_eq(out[i].as_str(), dir.as_str()) {
                present = true;
            }
            i += 1;
        }
        let ghost subdir = spec_install_subdir(files@[j as int]@.asset_name);
        let ghost prev = out@;
        if !present {
            out.push(dir);
        }
        proof {
            assert forall|j2: int|
                0 <= j2 < j + 1 implies exists|i2: int|
                    0 <= i2 < out@.len() && (#[trigger] out@[i2])@ == spec_install_subdir(
                        (#[trigger] files@[j2])@.asset_name,
                    ) by {
                if j2 < j {
                    let w = choose|i2: int|
                        0 <= i2 < prev.len() && (prev[i2])@ == spec_install_subdir(
                            files@[j2]@.asset_name,
                        );
                    assert(out@[w] == prev[w]);
                    assert((out@[w])@ == spec_install_subdir(files@[j2]@.asset_name));
                } else {
                    if present {
                        let w = choose|k: int| 0 <= k < m && (prev[k])@ == dir@;
                        assert((out@[w])@ == subdir);
                    } else {
                        assert((out@[out@.len() - 1])@ == subdir);
                    }
                }
            }
            assert(dirs_cover(out@, files@, j + 1));
            assert forall|i2: int, k2: int| 0 <= i2 < k2 < out@.len() implies out@[i2]@
                != out@[k2]@ by {
                if !present && k2 == out@.len() - 1 {
                    assert(out@[i2] == prev[i2]);
                }
            }
            assert(dirs_distinct(out@));
            assert forall|i2: int|
                0 <= i2 < out@.len() implies exists|j2: int|
                    0 <= j2 < files@.len() && (#[trigger] out@[i2])@ == spec_install_subdir(
                        (#[trigger] files@[j2])@.asset_name,
                    ) by {
                if i2 < prev.len() {
                    assert(out@[i2] == prev[i2]);
                    let w = choose|j2: int|
                        0 <= j2 < files@.len() && (prev[i2])@ == spec_install_subdir(
                            files@[j2]@.asset_name,
                        );
                    assert(out@[i2]@ == spec_install_subdir(files@[w]@.asset_name));
                } else {
                    assert(out@[i2]@ == spec_install_subdir(files@[j as int]@.asset_name));
                }
            }
            assert(dirs_sound(out@, files@));
        }
        j += 1;
    }
    out
}

} // verus!
