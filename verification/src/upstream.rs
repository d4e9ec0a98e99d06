//! Publishing and fetching packages: where a package is downloaded from
//! and unpacked to, what goes into the archive of a project, and the
//! compression of an archive.

use crate::compiling::{walk_views, WalkEntry, WalkEntryView};
use crate::project::{package_views, same_package, Package, PackageView};
use crate::text::{concat, contains_text, has_substring, push_text, texts};
use libflate::gzip::Encoder;
use libflate::non_blocking::gzip::Decoder;
use std::io::{Read, Write};
use vstd::prelude::*;
use vstd::string::*;

verus! {

/// How a package is built once it has been fetched.
#[derive(Debug, Clone, Copy, PartialEq, Eq, Structural)]
pub enum PackageType {
    CppBuild,
    Make,
    Shell,
    Raw,
    PkgConfig,
}

/// Why publishing or fetching was given up.
#[derive(Debug, Clone, Copy, PartialEq, Eq, Structural)]
pub enum UpstreamError {
    /// The architecture or the operating system of the machine is not known.
    ArchitectureUnknown,
    /// The bytes fetched are not a gzip stream.
    NotCompressed,
    /// The archive could not be compressed.
    CannotCompress,
}

/// An entry of the package repository.
#[derive(Debug)]
pub struct RepoEntry {
    name: String,
    version: String,
    build_type: PackageType,
}

/// The mathematical content of a [`RepoEntry`].
pub struct RepoEntryView {
    pub name: Seq<char>,
    pub version: Seq<char>,
    pub build_type: PackageType,
}

/// The packages that a repository offers.
#[derive(Debug)]
pub struct Index {
    packages: Vec<Package>,
}

/// A version of a package, as it is written.
#[derive(Debug, PartialEq, Eq)]
pub struct Version {
    raw: String,
}

/// One package to download: where from, and the directory to unpack it into.
#[derive(Debug)]
pub struct Download {
    pub url: String,
    pub directory: String,
}

/// The mathematical content of a [`Download`].
pub struct DownloadView {
    pub url: Seq<char>,
    pub directory: Seq<char>,
}

/// What publishing a package of some kind comes to.
#[derive(Debug)]
pub enum PackageAction {
    /// Archive the project rooted at `root`.
    Archive { root: String },
    /// Look the installed library up by its name.
    Probe { library: String },
    /// There is nothing to generate.
    Nothing,
}

/// The mathematical content of a [`PackageAction`].
pub enum PackageActionView {
    Archive { root: Seq<char> },
    Probe { library: Seq<char> },
    Nothing,
}

/// The archive of a project: the tar file to write, the files to put into
/// it, and the compressed file that is the result.
#[derive(Debug)]
pub struct ArchivePlan {
    pub tar_path: String,
    pub files: Vec<String>,
    pub archive_path: String,
}

/// The mathematical content of an [`ArchivePlan`].
pub struct ArchivePlanView {
    pub tar_path: Seq<char>,
    pub files: Seq<Seq<char>>,
    pub archive_path: Seq<char>,
}

impl View for RepoEntry {
    type V = RepoEntryView;

    closed spec fn view(&self) -> RepoEntryView {
        RepoEntryView { name: self.name@, version: self.version@, build_type: self.build_type }
    }
}

impl View for Version {
    type V = Seq<char>;

    closed spec fn view(&self) -> Seq<char> {
        self.raw@
    }
}

impl View for Download {
    type V = DownloadView;

    open spec fn view(&self) -> DownloadView {
        DownloadView { url: self.url@, directory: self.directory@ }
    }
}

impl View for PackageAction {
    type V = PackageActionView;

    open spec fn view(&self) -> PackageActionView {
        match self {
            PackageAction::Archive { root } => PackageActionView::Archive { root: root@ },
            PackageAction::Probe { library } => PackageActionView::Probe { library: library@ },
            PackageAction::Nothing => PackageActionView::Nothing,
        }
    }
}

impl View for ArchivePlan {
    type V = ArchivePlanView;

    open spec fn view(&self) -> ArchivePlanView {
        ArchivePlanView {
            tar_path: self.tar_path@,
            files: texts(self.files@),
            archive_path: self.archive_path@,
        }
    }
}

pub open spec fn download_views(downloads: Seq<Download>) -> Seq<DownloadView> {
    downloads.map_values(|d: Download| d@)
}

impl Index {
    /// The packages of the index, in their order.
    pub closed spec fn packages(&self) -> Seq<PackageView> {
        package_views(self.packages@)
    }

    /// An index of the given packages.
    pub fn new(packages: Vec<Package>) -> (index: Self)
        ensures
            index.packages() == package_views(packages@),
    {
        Self { packages }
    }

    /// Whether the index holds a package of the name and version of `package`.
    pub fn contains(&self, package: &Package) -> (held: bool)
        ensures
            held == exists|i: int|
                0 <= i < self.packages().len() && same_package(
                    #[trigger] self.packages()[i],
                    package@,
                ),
    {
        let mut i: usize = 0;
        while i < self.packages.len()
            invariant
                i <= self.packages.len(),
                forall|j: int|
                    0 <= j < i ==> !same_package(#[trigger] self.packages()[j], package@),
            decreases self.packages.len() - i,
        {
            if self.packages[i] == *package {
                assert(same_package(self.packages()[i as int], package@));
                return true;
            }
            i += 1;
        }
        false
    }
}

impl RepoEntry {
    pub fn new(name: String, version: String, build_type: PackageType) -> (entry: Self)
        ensures
            entry@ == (RepoEntryView { name: name@, version: version@, build_type }),
    {
        Self { name, version, build_type }
    }

    pub fn get_name(&self) -> (name: String)
        ensures
            name@ == self@.name,
    {
        self.name.clone()
    }

    pub fn get_version(&self) -> (version: String)
        ensures
            version@ == self@.version,
    {
        self.version.clone()
    }

    pub fn get_build_type(&self) -> (build_type: PackageType)
        ensures
            build_type == self@.build_type,
    {
        self.build_type
    }
}

impl Version {
    pub fn new(version: String) -> (made: Self)
        ensures
            made@ == version@,
    {
        Self { raw: version }
    }
}

/// The name of a platform: its architecture and its operating system.
pub open spec fn platform_name(target_arch: Seq<char>, target_os: Seq<char>) -> Seq<char> {
    target_arch + "-"@ + target_os
}

/// Where the package `name` at `version` is downloaded from.
pub open spec fn package_url(arch: Seq<char>, name: Seq<char>, version: Seq<char>) -> Seq<char> {
    "http://localhost/cppbuild/"@ + arch + "/"@ + name + "-"@ + version + ".tar.gz"@
}

/// The directory that the package `name` at `version` is unpacked into.
pub open spec fn unpack_directory(data_dir: Seq<char>, name: Seq<char>, version: Seq<char>)
    -> Seq<char> {
    data_dir + "/"@ + name + "-"@ + version + "/"@
}

/// The download of one package.
pub open spec fn download_of(arch: Seq<char>, data_dir: Seq<char>, package: (String, String))
    -> DownloadView {
    DownloadView {
        url: package_url(arch, package.0@, package.1@),
        directory: unpack_directory(data_dir, package.0@, package.1@),
    }
}

/// The downloads of a list of packages, in their order.
pub open spec fn downloads_of(
    arch: Seq<char>,
    data_dir: Seq<char>,
    packages: Seq<(String, String)>,
) -> Seq<DownloadView> {
    packages.map_values(|p: (String, String)| download_of(arch, data_dir, p))
}

proof fn lemma_downloads_push(
    arch: Seq<char>,
    data_dir: Seq<char>,
    packages: Seq<(String, String)>,
    package: (String, String),
)
    ensures
        downloads_of(arch, data_dir, packages.push(package)) == downloads_of(
            arch,
            data_dir,
            packages,
        ).push(download_of(arch, data_dir, package)),
{
    assert(downloads_of(arch, data_dir, packages.push(package)) =~= downloads_of(
        arch,
        data_dir,
        packages,
    ).push(download_of(arch, data_dir, package)));
}

proof fn lemma_download_views_push(downloads: Seq<Download>, download: Download)
    ensures
        download_views(downloads.push(download)) == download_views(downloads).push(download@),
{
    assert(download_views(downloads.push(download)) =~= download_views(downloads).push(
        download@,
    ));
}

/// The directory under the home directory in which fetched packages are kept.
pub open spec fn data_directory(home: Seq<char>) -> Seq<char> {
    home + "/.cppbuild"@
}

/// The tar file that the project `name` at `version` is archived into.
pub open spec fn tar_path_of(path: Seq<char>, name: Seq<char>, version: Seq<char>) -> Seq<char> {
    path + "/target/"@ + name + "-"@ + version + ".tar"@
}

/// Whether an entry goes into the archive: a regular file whose path does
/// not have `target` in it.
pub open spec fn is_archived(entry: WalkEntryView) -> bool {
    entry.is_file && !has_substring(entry.path, "target"@)
}

/// The paths of the entries that go into the archive, in the order walked.
pub open spec fn archived_files(entries: Seq<WalkEntryView>) -> Seq<Seq<char>>
    decreases entries.len(),
{
    if entries.len() == 0 {
        Seq::empty()
    } else if is_archived(entries.last()) {
        archived_files(entries.drop_last()).push(entries.last().path)
    } else {
        archived_files(entries.drop_last())
    }
}

/// The files in which a library may be found: each library name under
/// each link path, link path by link path.
pub open spec fn candidate_files(link_paths: Seq<Seq<char>>, libs: Seq<Seq<char>>) -> Seq<
    Seq<char>,
>
    decreases link_paths.len(),
{
    if link_paths.len() == 0 {
        Seq::empty()
    } else {
        candidate_files(link_paths.drop_last(), libs) + libs.map_values(
            |lib: Seq<char>| link_paths.last() + "/"@ + lib,
        )
    }
}

/// The name of the platform to fetch packages for, from what is known of
/// the architecture and of the operating system.
pub fn get_arch(target_arch: Option<String>, target_os: Option<String>) -> (platform: Result<
    String,
    UpstreamError,
>)
    ensures
        match (target_arch, target_os) {
            (Some(arch), Some(os)) => platform is Ok && platform->Ok_0@ == platform_name(
                arch@,
                os@,
            ),
            _ => platform == Err::<String, UpstreamError>(UpstreamError::ArchitectureUnknown),
        },
{
    match (target_arch, target_os) {
        (Some(arch), Some(os)) => Ok(arch.concat("-").concat(os.as_str())),
        _ => Err(UpstreamError::ArchitectureUnknown),
    }
}

/// The downloads that fetch `packages`, each a name and a version, for
/// the platform given and into the data directory given. Where nothing is
/// to be fetched the platform is not asked for.
pub fn download_packages(
    packages: &[(String, String)],
    target_arch: Option<String>,
    target_os: Option<String>,
    data_dir: &str,
) -> (plan: Result<Vec<Download>, UpstreamError>)
    ensures
        match (target_arch, target_os) {
            (Some(arch), Some(os)) => plan is Ok && download_views(plan->Ok_0@) == downloads_of(
                platform_name(arch@, os@),
                data_dir@,
                packages@,
            ),
            _ => if packages@.len() == 0 {
                plan is Ok && plan->Ok_0@.len() == 0
            } else {
                plan == Err::<Vec<Download>, UpstreamError>(UpstreamError::ArchitectureUnknown)
            },
        },
{
    let mut downloads: Vec<Download> = Vec::new();
    if packages.len() == 0 {
        proof {
            assert(download_views(downloads@) =~= Seq::<DownloadView>::empty());
            if target_arch is Some && target_os is Some {
                assert(download_views(downloads@) =~= downloads_of(
                    platform_name(target_arch->0@, target_os->0@),
                    data_dir@,
                    packages@,
                ));
            }
        }
        return Ok(downloads);
    }
    let ghost platform = platform_name(target_arch->0@, target_os->0@);
    let arch = match get_arch(target_arch, target_os) {
        Ok(arch) => arch,
        Err(error) => {
            return Err(error);
        },
    };
    let mut i: usize = 0;
    proof {
        assert(download_views(downloads@) =~= downloads_of(
            platform,
            data_dir@,
            packages@.take(0),
        ));
    }
    while i < packages.len()
        invariant
            i <= packages.len(),
            arch@ == platform,
            download_views(downloads@) == downloads_of(
                platform,
                data_dir@,
                packages@.take(i as int),
            ),
        decreases packages.len() - i,
    {
        let name = &packages[i].0;
        let version = &packages[i].1;
        let url = concat("http://localhost/cppbuild/", arch.as_str()).concat("/").concat(
            name.as_str(),
        ).concat("-").concat(version.as_str()).concat(".tar.gz");
        let directory = concat(data_dir, "/").concat(name.as_str()).concat("-").concat(
            version.as_str(),
        ).concat("/");
        let download = Download { url, directory };
        proof {
            assert(download@ == download_of(platform, data_dir@, packages@[i as int]));
            assert(packages@.take(i + 1) =~= packages@.take(i as int).push(packages@[i as int]));
            lemma_downloads_push(
                platform,
                data_dir@,
                packages@.take(i as int),
                packages@[i as int],
            );
            lemma_download_views_push(downloads@, download);
        }
        downloads.push(download);
        i += 1;
    }
    proof {
        assert(packages@.take(i as int) =~= packages@);
    }
    Ok(downloads)
}

/// What publishing a package of kind `kind` comes to: a project of this
/// tool is archived, an installed library is looked up by the name given
/// in `path`, and for the other kinds there is nothing to generate.
pub fn generate_package(kind: PackageType, path: &str) -> (action: PackageAction)
    ensures
        action@ == match kind {
            PackageType::CppBuild => PackageActionView::Archive { root: path@ },
            PackageType::PkgConfig => PackageActionView::Probe { library: path@ },
            _ => PackageActionView::Nothing,
        },
{
    match kind {
        PackageType::CppBuild => PackageAction::Archive { root: String::from_str(path) },
        PackageType::Make => PackageAction::Nothing,
        PackageType::Shell => PackageAction::Nothing,
        PackageType::Raw => PackageAction::Nothing,
        PackageType::PkgConfig => PackageAction::Probe { library: String::from_str(path) },
    }
}

/// The files in which an installed library may be found, from the link
/// paths and the library names that probing for it gave.
pub fn library_candidates(link_paths: &Vec<String>, libs: &Vec<String>) -> (files: Vec<String>)
    ensures
        texts(files@) == candidate_files(texts(link_paths@), texts(libs@)),
{
    let mut files: Vec<String> = Vec::new();
    let ghost paths = texts(link_paths@);
    let ghost names = texts(libs@);
    let mut i: usize = 0;
    proof {
        assert(texts(files@) =~= candidate_files(paths.take(0), names));
    }
    while i < link_paths.len()
        invariant
            i <= link_paths.len(),
            paths == texts(link_paths@),
            names == texts(libs@),
            texts(files@) == candidate_files(paths.take(i as int), names),
        decreases link_paths.len() - i,
    {
        let ghost before = texts(files@);
        let ghost link = link_paths@[i as int]@;
        proof {
            assert(paths.take(i + 1).drop_last() =~= paths.take(i as int));
            assert(paths.take(i + 1).last() == link);
        }
        let mut j: usize = 0;
        proof {
            assert(before + names.take(0).map_values(|lib: Seq<char>| link + "/"@ + lib)
                =~= before);
        }
        while j < libs.len()
            invariant
                j <= libs.len(),
                i < link_paths.len(),
                link == link_paths@[i as int]@,
                names == texts(libs@),
                texts(files@) == before + names.take(j as int).map_values(
                    |lib: Seq<char>| link + "/"@ + lib,
                ),
            decreases libs.len() - j,
        {
            let file = concat(link_paths[i].as_str(), "/").concat(libs[j].as_str());
            proof {
                assert(names[j as int] == libs@[j as int]@);
                assert(texts(files@).push(file@) =~= before + names.take(j + 1).map_values(
                    |lib: Seq<char>| link + "/"@ + lib,
                ));
            }
            push_text(&mut files, file);
            j += 1;
        }
        proof {
            assert(names.take(j as int) =~= names);
        }
        i += 1;
    }
    proof {
        assert(paths.take(i as int) =~= paths);
    }
    files
}

/// The archive of the project `name` at `version`, rooted at `path`, from
/// the entries found by walking the root: what is under the target
/// directory, and what is no regular file, stays out.
pub fn compress(path: &str, name: &str, version: &str, walked: &Vec<WalkEntry>) -> (plan:
    ArchivePlan)
    ensures
        plan@ == (ArchivePlanView {
            tar_path: tar_path_of(path@, name@, version@),
            files: archived_files(walk_views(walked@)),
            archive_path: tar_path_of(path@, name@, version@) + ".gz"@,
        }),
{
    let tar_path = concat(path, "/target/").concat(name).concat("-").concat(version).concat(
        ".tar",
    );
    let mut files: Vec<String> = Vec::new();
    let ghost entries = walk_views(walked@);
    let mut i: usize = 0;
    proof {
        assert(texts(files@) =~= archived_files(entries.take(0)));
    }
    while i < walked.len()
        invariant
            i <= walked.len(),
            entries == walk_views(walked@),
            texts(files@) == archived_files(entries.take(i as int)),
        decreases walked.len() - i,
    {
        proof {
            assert(entries.take(i + 1).drop_last() =~= entries.take(i as int));
            assert(entries.take(i + 1).last() == walked@[i as int]@);
        }
        if walked[i].is_file && !contains_text(walked[i].path.as_str(), "target") {
            push_text(&mut files, walked[i].path.clone());
        }
        i += 1;
    }
    proof {
        assert(entries.take(i as int) =~= entries);
    }
    let archive_path = concat(tar_path.as_str(), ".gz");
    ArchivePlan { tar_path, files, archive_path }
}

/// The directory in which fetched packages are kept, given the home directory.
pub fn data_dir_under(home: &str) -> (directory: String)
    ensures
        directory@ == data_directory(home@),
{
    concat(home, "/.cppbuild")
}

/// Calls `dirs::home_dir` and renders the path it finds as text. The
/// directory depends on the user and the environment of the process, and
/// there may be none: nothing is promised of the result.
#[verifier::external_body]
fn home_directory() -> Option<String> {
    dirs::home_dir().map(|dir| format!("{}", dir.as_path().display()))
}

/// The directory in which fetched packages are kept for the user the
/// process runs as, if the user has a home directory.
pub fn program_data() -> (directory: Option<String>)
    ensures
        directory is Some ==> exists|home: Seq<char>|
            directory->0@ == #[trigger] data_directory(home),
{
    data_dir_for(home_directory())
}

/// What a gzip stream decompresses to, if the bytes are a gzip stream.
pub uninterp spec fn gunzip(bytes: Seq<u8>) -> Option<Seq<u8>>;

/// Reads `bytes` to their end through the `Decoder` of libflate's
/// `non_blocking::gzip` module, which reads the header, inflates the body
/// block after block in a loop, and checks the trailer. The result is a
/// function of the bytes alone: the data, or nothing where the decoder
/// reports an error.
#[verifier::external_body]
fn gunzip_bytes(bytes: &[u8]) -> (data: Option<Vec<u8>>)
    ensures
        match data {
            Some(decoded) => gunzip(bytes@) == Some(decoded@),
            None => gunzip(bytes@) is None,
        },
{
    let mut decoder = Decoder::new(bytes);
    let mut decoded = Vec::new();
    decoder.read_to_end(&mut decoded).ok()?;
    Some(decoded)
}

/// Writes `data` through libflate's gzip `Encoder` into a vector and
/// finishes the stream. The header that the encoder writes carries the
/// time of the call, so the bytes themselves are not named. What is
/// claimed is what the documentation of libflate's `non_blocking::gzip`
/// module shows of a stream written in this way: its `Decoder`, the one
/// that `gunzip` names, reads the stream back as the data.
#[verifier::external_body]
fn gzip_bytes(data: &[u8]) -> (encoded: Option<Vec<u8>>)
    ensures
        encoded is Some ==> gunzip(encoded->0@) == Some(data@),
{
    let mut encoder = Encoder::new(Vec::new()).ok()?;
    encoder.write_all(data).ok()?;
    encoder.finish().into_result().ok()
}

/// Decompresses a fetched archive.
pub fn unpack(bytes: &[u8]) -> (data: Result<Vec<u8>, UpstreamError>)
    ensures
        match gunzip(bytes@) {
            Some(decoded) => data is Ok && data->Ok_0@ == decoded,
            None => data == Err::<Vec<u8>, UpstreamError>(UpstreamError::NotCompressed),
        },
{
    match gunzip_bytes(bytes) {
        Some(decoded) => Ok(decoded),
        None => Err(UpstreamError::NotCompressed),
    }
}

/// The outcome of compressing an archive, given what the encoder returned.
pub fn packed(encoded: Option<Vec<u8>>) -> (bytes: Result<Vec<u8>, UpstreamError>)
    ensures
        match encoded {
            Some(stream) => bytes == Ok::<Vec<u8>, UpstreamError>(stream),
            None => bytes == Err::<Vec<u8>, UpstreamError>(UpstreamError::CannotCompress),
        },
{
    match encoded {
        Some(stream) => Ok(stream),
        None => Err(UpstreamError::CannotCompress),
    }
}

/// Compresses an archive for publishing into a gzip stream, which
/// [`unpack`] turns back into the archive. The bytes differ from call to call.
pub fn pack(data: &[u8]) -> (bytes: Result<Vec<u8>, UpstreamError>)
    ensures
        match bytes {
            Ok(stream) => gunzip(stream@) == Some(data@),
            Err(error) => error == UpstreamError::CannotCompress,
        },
{
    packed(gzip_bytes(data))
}

/// The directory in which fetched packages are kept, given the home
/// directory that was found, if one was.
pub fn data_dir_for(home: Option<String>) -> (directory: Option<String>)
    ensures
        match home {
            Some(found) => directory is Some && directory->0@ == data_directory(found@),
            None => directory is None,
        },
{
    match home {
        Some(found) => Some(data_dir_under(found.as_str())),
        None => None,
    }
}

} // verus!
