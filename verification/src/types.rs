//! The data types of the cfwidget API, and their mathematical models.

use crate::link::{url_canonical, Url};
use crate::version::{version_canonical, Version, VersionModel};
use vstd::prelude::*;

verus! {

/// Counts for project downloads.
#[derive(Clone, Copy, Debug, PartialEq, Eq, PartialOrd, Ord, Default)]
pub struct DownloadsMetric {
    /// Total downloads over the past month.
    pub monthly: u64,
    /// Total downloads all time.
    pub total: u64,
}

/// Info about a member of a project.
#[derive(Clone, Debug, PartialEq, Eq, PartialOrd, Ord, Default)]
pub struct ProjectMember {
    /// Project title for the user (for example, Owner).
    pub title: String,
    /// Username on CurseForge.
    pub username: String,
}

/// Which stream a file is from.
#[derive(Clone, Copy, Debug, PartialEq, Eq, PartialOrd, Ord)]
pub enum ReleaseStream {
    /// Full release.
    Release,
    /// Beta release.
    Beta,
}

/// A file attached to a project.
#[derive(Clone, Debug, PartialEq, Eq)]
pub struct ProjectFile {
    /// File ID.
    pub id: u32,
    /// File download URL.
    pub url: Url,
    /// The "friendly name" of the file.
    pub friendly_name: String,
    /// The real file name.
    pub file_name: String,
    /// The file's release stream.
    pub stream: ReleaseStream,
    /// The version attached to this release.
    pub version: Version,
    /// The size of this file in bytes.
    pub file_size: u128,
    /// CurseForge version metadata.
    pub versions: Vec<String>,
    /// Total downloads for this file.
    pub downloads: u32,
    /// Upload timestamp.
    pub uploaded_at: String,
}

/// A URL of a project under the name that the project gives it.
#[derive(Clone, Debug, PartialEq, Eq)]
pub struct NamedUrl {
    pub name: String,
    pub url: Url,
}

/// The files that a project has for one version.
#[derive(Clone, Debug, PartialEq, Eq)]
pub struct VersionFiles {
    pub version: Version,
    pub files: Vec<ProjectFile>,
}

/// Describes a CurseForge project.
#[derive(Clone, Debug, PartialEq, Eq)]
pub struct Project {
    /// Project ID.
    pub id: u32,
    /// Project title.
    pub title: String,
    /// Project summary.
    pub summary: String,
    /// The name of the game this project is built for.
    pub game: String,
    /// The CurseForge category for this project (mod, modpack, ...).
    pub project_type: String,
    /// URLs for this project, each name once.
    pub urls: Vec<NamedUrl>,
    /// Thumbnail image URL.
    pub thumbnail: Url,
    /// Project creation timestamp.
    pub created_at: String,
    /// Number of downloads for this project.
    pub downloads: DownloadsMetric,
    /// Project license.
    pub license: String,
    /// Project donation info.
    pub donate: String,
    /// Project members.
    pub members: Vec<ProjectMember>,
    /// All files attached to the project.
    pub files: Vec<ProjectFile>,
    /// All files attached to the project by version, each version once.
    pub versions: Vec<VersionFiles>,
    /// Project description.
    pub description: String,
    /// The timestamp of the last data fetch for this project.
    pub last_fetch: String,
    /// The latest file for this project.
    pub latest_file: ProjectFile,
}

/// The mathematical value of a [`ProjectMember`].
pub struct ProjectMemberModel {
    pub title: Seq<char>,
    pub username: Seq<char>,
}

/// The mathematical value of a [`ProjectFile`].
pub struct ProjectFileModel {
    pub id: u32,
    pub url: Seq<char>,
    pub friendly_name: Seq<char>,
    pub file_name: Seq<char>,
    pub stream: ReleaseStream,
    pub version: VersionModel,
    pub file_size: u128,
    pub versions: Seq<Seq<char>>,
    pub downloads: u32,
    pub uploaded_at: Seq<char>,
}

/// The mathematical value of a [`Project`]. A mapping is the list of its
/// entries, key and value.
pub struct ProjectModel {
    pub id: u32,
    pub title: Seq<char>,
    pub summary: Seq<char>,
    pub game: Seq<char>,
    pub project_type: Seq<char>,
    pub urls: Seq<(Seq<char>, Seq<char>)>,
    pub thumbnail: Seq<char>,
    pub created_at: Seq<char>,
    pub downloads: DownloadsMetric,
    pub license: Seq<char>,
    pub donate: Seq<char>,
    pub members: Seq<ProjectMemberModel>,
    pub files: Seq<ProjectFileModel>,
    pub versions: Seq<(VersionModel, Seq<ProjectFileModel>)>,
    pub description: Seq<char>,
    pub last_fetch: Seq<char>,
    pub latest_file: ProjectFileModel,
}

/// The values of a list of strings.
pub open spec fn texts_model(v: Seq<String>) -> Seq<Seq<char>> {
    Seq::new(v.len(), |i: int| v[i]@)
}

/// The values of a list of members.
pub open spec fn members_model(v: Seq<ProjectMember>) -> Seq<ProjectMemberModel> {
    Seq::new(v.len(), |i: int| v[i]@)
}

/// The values of a list of files.
pub open spec fn files_model(v: Seq<ProjectFile>) -> Seq<ProjectFileModel> {
    Seq::new(v.len(), |i: int| v[i]@)
}

/// The entries of a list of named URLs.
pub open spec fn urls_model(v: Seq<NamedUrl>) -> Seq<(Seq<char>, Seq<char>)> {
    Seq::new(v.len(), |i: int| (v[i].name@, v[i].url@))
}

/// The entries of a list of files by version.
pub open spec fn versions_model(v: Seq<VersionFiles>) -> Seq<(VersionModel, Seq<ProjectFileModel>)> {
    Seq::new(v.len(), |i: int| (v[i].version@, files_model(v[i].files@)))
}

impl View for ProjectMember {
    type V = ProjectMemberModel;

    open spec fn view(&self) -> ProjectMemberModel {
        ProjectMemberModel { title: self.title@, username: self.username@ }
    }
}

impl View for ProjectFile {
    type V = ProjectFileModel;

    open spec fn view(&self) -> ProjectFileModel {
        ProjectFileModel {
            id: self.id,
            url: self.url@,
            friendly_name: self.friendly_name@,
            file_name: self.file_name@,
            stream: self.stream,
            version: self.version@,
            file_size: self.file_size,
            versions: texts_model(self.versions@),
            downloads: self.downloads,
            uploaded_at: self.uploaded_at@,
        }
    }
}

impl View for Project {
    type V = ProjectModel;

    open spec fn view(&self) -> ProjectModel {
        ProjectModel {
            id: self.id,
            title: self.title@,
            summary: self.summary@,
            game: self.game@,
            project_type: self.project_type@,
            urls: urls_model(self.urls@),
            thumbnail: self.thumbnail@,
            created_at: self.created_at@,
            downloads: self.downloads,
            license: self.license@,
            donate: self.donate@,
            members: members_model(self.members@),
            files: files_model(self.files@),
            versions: versions_model(self.versions@),
            description: self.description@,
            last_fetch: self.last_fetch@,
            latest_file: self.latest_file@,
        }
    }
}

/// Whether no key stands twice in a list of entries.
pub open spec fn distinct_keys<K, V>(entries: Seq<(K, V)>) -> bool {
    forall|i: int, j: int|
        0 <= i < j < entries.len() ==> (#[trigger] entries[i]).0 != (#[trigger] entries[j]).0
}

/// Whether `i` is the place of an entry with the key `k`.
pub open spec fn is_place<K, V>(entries: Seq<(K, V)>, k: K, i: int) -> bool {
    0 <= i < entries.len() && entries[i].0 == k
}

/// The entries after `k` is given the value `v`: where an entry has the key
/// `k`, the value takes the place of that entry's; where none has, the new
/// entry comes last.
pub open spec fn put<K, V>(entries: Seq<(K, V)>, k: K, v: V) -> Seq<(K, V)> {
    if exists|i: int| is_place(entries, k, i) {
        entries.update(choose|i: int| is_place(entries, k, i), (k, v))
    } else {
        entries.push((k, v))
    }
}

/// Giving a key a value keeps each key once.
pub proof fn lemma_put_distinct<K, V>(entries: Seq<(K, V)>, k: K, v: V)
    requires
        distinct_keys(entries),
    ensures
        distinct_keys(put(entries, k, v)),
{
    let after = put(entries, k, v);
    if exists|i: int| is_place(entries, k, i) {
        let at = choose|i: int| is_place(entries, k, i);
        assert forall|i: int, j: int| 0 <= i < j < after.len() implies (#[trigger] after[i]).0 != (
        #[trigger] after[j]).0 by {
            assert(after[i].0 == entries[i].0);
            assert(after[j].0 == entries[j].0);
        }
    } else {
        assert forall|i: int, j: int| 0 <= i < j < after.len() implies (#[trigger] after[i]).0 != (
        #[trigger] after[j]).0 by {
            if j == entries.len() {
                assert(!is_place(entries, k, i));
                assert(after[i] == entries[i]);
            } else {
                assert(after[i] == entries[i]);
                assert(after[j] == entries[j]);
            }
        }
    }
}

/// Whether the URL and the version of a file read back as themselves.
pub open spec fn file_canonical(f: ProjectFileModel) -> bool {
    url_canonical(f.url) && version_canonical(f.version)
}

/// Whether every file of a list reads back as itself.
pub open spec fn files_canonical(files: Seq<ProjectFileModel>) -> bool {
    forall|i: int| 0 <= i < files.len() ==> file_canonical(#[trigger] files[i])
}

impl ProjectModel {
    /// The invariant of a project: each mapping has each of its keys once.
    pub open spec fn wf(self) -> bool {
        distinct_keys(self.urls) && distinct_keys(self.versions)
    }

    /// Whether every URL and every version in the project reads back as
    /// itself.
    pub open spec fn canonical(self) -> bool {
        &&& forall|i: int| 0 <= i < self.urls.len() ==> url_canonical((#[trigger] self.urls[i]).1)
        &&& url_canonical(self.thumbnail)
        &&& files_canonical(self.files)
        &&& forall|i: int|
            0 <= i < self.versions.len() ==> version_canonical((#[trigger] self.versions[i]).0)
                && files_canonical(self.versions[i].1)
        &&& file_canonical(self.latest_file)
    }
}

} // verus!
