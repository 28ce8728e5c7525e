//! Writing the data types of the API as JSON documents.
//!
//! Each kind of value has a spec function that says which document it is
//! written as, and an executable function that builds it. A field is written
//! under the name it has on the wire; a mapping is written as an object, its
//! entries in their order.

use crate::decimal::{numeral, render_numeral};
use crate::json::{Json, JsonModel};
use crate::types::{
    DownloadsMetric, NamedUrl, Project, ProjectFile, ProjectFileModel, ProjectMember,
    ProjectMemberModel, ProjectModel, ReleaseStream, VersionFiles,
};
use crate::version::{version_text, VersionModel};
use vstd::prelude::*;

verus! {

/// The document that a number is written as.
pub open spec fn natural_json(n: nat) -> JsonModel {
    JsonModel::Number(numeral(n))
}

/// The name of a release stream on the wire.
pub open spec fn stream_name(s: ReleaseStream) -> Seq<char> {
    match s {
        ReleaseStream::Release => "release"@,
        ReleaseStream::Beta => "beta"@,
    }
}

/// The document that a list of texts is written as.
pub open spec fn texts_json(texts: Seq<Seq<char>>) -> JsonModel {
    JsonModel::Array(Seq::new(texts.len(), |i: int| JsonModel::Text(texts[i])))
}

/// The document that a member of a project is written as.
pub open spec fn member_json(m: ProjectMemberModel) -> JsonModel {
    JsonModel::Object(
        seq![("title"@, JsonModel::Text(m.title)), ("username"@, JsonModel::Text(m.username))],
    )
}

/// The document that a list of members is written as.
pub open spec fn members_json(members: Seq<ProjectMemberModel>) -> JsonModel {
    JsonModel::Array(Seq::new(members.len(), |i: int| member_json(members[i])))
}

/// The document that a file is written as.
pub open spec fn file_json(f: ProjectFileModel) -> JsonModel {
    JsonModel::Object(
        seq![
            ("id"@, natural_json(f.id as nat)),
            ("url"@, JsonModel::Text(f.url)),
            ("display"@, JsonModel::Text(f.friendly_name)),
            ("name"@, JsonModel::Text(f.file_name)),
            ("type"@, JsonModel::Text(stream_name(f.stream))),
            ("version"@, JsonModel::Text(version_text(f.version))),
            ("filesize"@, natural_json(f.file_size as nat)),
            ("versions"@, texts_json(f.versions)),
            ("downloads"@, natural_json(f.downloads as nat)),
            ("uploaded_at"@, JsonModel::Text(f.uploaded_at)),
        ],
    )
}

/// The document that a list of files is written as.
pub open spec fn files_json(files: Seq<ProjectFileModel>) -> JsonModel {
    JsonModel::Array(Seq::new(files.len(), |i: int| file_json(files[i])))
}

/// The document that download counts are written as.
pub open spec fn metric_json(d: DownloadsMetric) -> JsonModel {
    JsonModel::Object(
        seq![
            ("monthly"@, natural_json(d.monthly as nat)),
            ("total"@, natural_json(d.total as nat)),
        ],
    )
}

/// The document that a mapping from names to URLs is written as.
pub open spec fn urls_json(urls: Seq<(Seq<char>, Seq<char>)>) -> JsonModel {
    JsonModel::Object(Seq::new(urls.len(), |i: int| (urls[i].0, JsonModel::Text(urls[i].1))))
}

/// The document that a mapping from versions to lists of files is written as.
pub open spec fn versions_json(versions: Seq<(VersionModel, Seq<ProjectFileModel>)>) -> JsonModel {
    JsonModel::Object(
        Seq::new(
            versions.len(),
            |i: int| (version_text(versions[i].0), files_json(versions[i].1)),
        ),
    )
}

/// The document that a project is written as.
pub open spec fn project_json(p: ProjectModel) -> JsonModel {
    JsonModel::Object(
        seq![
            ("id"@, natural_json(p.id as nat)),
            ("title"@, JsonModel::Text(p.title)),
            ("summary"@, JsonModel::Text(p.summary)),
            ("game"@, JsonModel::Text(p.game)),
            ("type"@, JsonModel::Text(p.project_type)),
            ("urls"@, urls_json(p.urls)),
            ("thumbnail"@, JsonModel::Text(p.thumbnail)),
            ("created_at"@, JsonModel::Text(p.created_at)),
            ("downloads"@, metric_json(p.downloads)),
            ("license"@, JsonModel::Text(p.license)),
            ("donate"@, JsonModel::Text(p.donate)),
            ("members"@, members_json(p.members)),
            ("files"@, files_json(p.files)),
            ("versions"@, versions_json(p.versions)),
            ("description"@, JsonModel::Text(p.description)),
            ("last_fetch"@, JsonModel::Text(p.last_fetch)),
            ("download"@, file_json(p.latest_file)),
        ],
    )
}

/// A member of an object: the key `key` with the value `value`.
fn entry(key: &str, value: Json) -> (r: (String, Json))
    ensures
        r.0@ == key@,
        r.1 == value,
{
    (key.to_owned(), value)
}

/// A text as a document.
fn write_text(t: &String) -> (r: Json)
    ensures
        r@ == JsonModel::Text(t@),
{
    Json::Text(t.clone())
}

/// A number as a document.
fn write_natural(n: u128) -> (r: Json)
    ensures
        r@ == natural_json(n as nat),
{
    Json::Number(render_numeral(n))
}

impl ReleaseStream {
    /// The name of the stream on the wire.
    pub fn name(&self) -> (r: &'static str)
        ensures
            r@ == stream_name(*self),
    {
        match self {
            ReleaseStream::Release => "release",
            ReleaseStream::Beta => "beta",
        }
    }
}

/// Writes a list of texts as a document.
pub fn write_texts(texts: &Vec<String>) -> (r: Json)
    ensures
        r@ == texts_json(crate::types::texts_model(texts@)),
{
    let mut out: Vec<Json> = Vec::new();
    let mut i: usize = 0;
    while i < texts.len()
        invariant
            0 <= i <= texts@.len(),
            out@.len() == i,
            forall|k: int| 0 <= k < i ==> (#[trigger] out@[k])@ == JsonModel::Text(texts@[k]@),
        decreases texts@.len() - i,
    {
        out.push(write_text(&texts[i]));
        i = i + 1;
    }
    let r = Json::Array(out);
    proof {
        r.lemma_array_view();
        assert(r@->Array_0 =~= texts_json(crate::types::texts_model(texts@))->Array_0);
    }
    r
}

/// Writes a member of a project as a document.
pub fn write_member(m: &ProjectMember) -> (r: Json)
    ensures
        r@ == member_json(m@),
{
    let mut out: Vec<(String, Json)> = Vec::new();
    out.push(entry("title", write_text(&m.title)));
    out.push(entry("username", write_text(&m.username)));
    let r = Json::Object(out);
    proof {
        r.lemma_object_view();
        assert(r@->Object_0 =~= member_json(m@)->Object_0);
    }
    r
}

/// Writes a list of members as a document.
pub fn write_members(members: &Vec<ProjectMember>) -> (r: Json)
    ensures
        r@ == members_json(crate::types::members_model(members@)),
{
    let mut out: Vec<Json> = Vec::new();
    let mut i: usize = 0;
    while i < members.len()
        invariant
            0 <= i <= members@.len(),
            out@.len() == i,
            forall|k: int| 0 <= k < i ==> (#[trigger] out@[k])@ == member_json(members@[k]@),
        decreases members@.len() - i,
    {
        out.push(write_member(&members[i]));
        i = i + 1;
    }
    let r = Json::Array(out);
    proof {
        r.lemma_array_view();
        assert(r@->Array_0 =~= members_json(crate::types::members_model(members@))->Array_0);
    }
    r
}

/// Writes a file as a document.
pub fn write_file(f: &ProjectFile) -> (r: Json)
    ensures
        r@ == file_json(f@),
{
    let mut out: Vec<(String, Json)> = Vec::new();
    out.push(entry("id", write_natural(f.id as u128)));
    out.push(entry("url", Json::Text(f.url.as_str().to_owned())));
    out.push(entry("display", write_text(&f.friendly_name)));
    out.push(entry("name", write_text(&f.file_name)));
    out.push(entry("type", Json::Text(f.stream.name().to_owned())));
    out.push(entry("version", Json::Text(f.version.to_text())));
    out.push(entry("filesize", write_natural(f.file_size)));
    out.push(entry("versions", write_texts(&f.versions)));
    out.push(entry("downloads", write_natural(f.downloads as u128)));
    out.push(entry("uploaded_at", write_text(&f.uploaded_at)));
    let r = Json::Object(out);
    proof {
        r.lemma_object_view();
        assert(r@->Object_0 =~= file_json(f@)->Object_0);
    }
    r
}

/// Writes a list of files as a document.
pub fn write_files(files: &Vec<ProjectFile>) -> (r: Json)
    ensures
        r@ == files_json(crate::types::files_model(files@)),
{
    let mut out: Vec<Json> = Vec::new();
    let mut i: usize = 0;
    while i < files.len()
        invariant
            0 <= i <= files@.len(),
            out@.len() == i,
            forall|k: int| 0 <= k < i ==> (#[trigger] out@[k])@ == file_json(files@[k]@),
        decreases files@.len() - i,
    {
        out.push(write_file(&files[i]));
        i = i + 1;
    }
    let r = Json::Array(out);
    proof {
        r.lemma_array_view();
        assert(r@->Array_0 =~= files_json(crate::types::files_model(files@))->Array_0);
    }
    r
}

/// Writes download counts as a document.
pub fn write_metric(d: &DownloadsMetric) -> (r: Json)
    ensures
        r@ == metric_json(*d),
{
    let mut out: Vec<(String, Json)> = Vec::new();
    out.push(entry("monthly", write_natural(d.monthly as u128)));
    out.push(entry("total", write_natural(d.total as u128)));
    let r = Json::Object(out);
    proof {
        r.lemma_object_view();
        assert(r@->Object_0 =~= metric_json(*d)->Object_0);
    }
    r
}

/// Writes a mapping from names to URLs as a document.
pub fn write_urls(urls: &Vec<NamedUrl>) -> (r: Json)
    ensures
        r@ == urls_json(crate::types::urls_model(urls@)),
{
    let mut out: Vec<(String, Json)> = Vec::new();
    let mut i: usize = 0;
    while i < urls.len()
        invariant
            0 <= i <= urls@.len(),
            out@.len() == i,
            forall|k: int|
                0 <= k < i ==> (#[trigger] out@[k]).0@ == urls@[k].name@ && out@[k].1@
                    == JsonModel::Text(urls@[k].url@),
        decreases urls@.len() - i,
    {
        out.push((urls[i].name.clone(), Json::Text(urls[i].url.as_str().to_owned())));
        i = i + 1;
    }
    let r = Json::Object(out);
    proof {
        r.lemma_object_view();
        assert(r@->Object_0 =~= urls_json(crate::types::urls_model(urls@))->Object_0);
    }
    r
}

/// Writes a mapping from versions to lists of files as a document.
pub fn write_versions(versions: &Vec<VersionFiles>) -> (r: Json)
    ensures
        r@ == versions_json(crate::types::versions_model(versions@)),
{
    let mut out: Vec<(String, Json)> = Vec::new();
    let mut i: usize = 0;
    while i < versions.len()
        invariant
            0 <= i <= versions@.len(),
            out@.len() == i,
            forall|k: int|
                0 <= k < i ==> (#[trigger] out@[k]).0@ == version_text(versions@[k].version@)
                    && out@[k].1@ == files_json(crate::types::files_model(versions@[k].files@)),
        decreases versions@.len() - i,
    {
        out.push((versions[i].version.to_text(), write_files(&versions[i].files)));
        i = i + 1;
    }
    let r = Json::Object(out);
    proof {
        r.lemma_object_view();
        assert(r@->Object_0 =~= versions_json(crate::types::versions_model(versions@))->Object_0);
    }
    r
}

/// Writes a project as a document.
pub fn write_project(p: &Project) -> (r: Json)
    ensures
        r@ == project_json(p@),
{
    let mut out: Vec<(String, Json)> = Vec::new();
    out.push(entry("id", write_natural(p.id as u128)));
    out.push(entry("title", write_text(&p.title)));
    out.push(entry("summary", write_text(&p.summary)));
    out.push(entry("game", write_text(&p.game)));
    out.push(entry("type", write_text(&p.project_type)));
    out.push(entry("urls", write_urls(&p.urls)));
    out.push(entry("thumbnail", Json::Text(p.thumbnail.as_str().to_owned())));
    out.push(entry("created_at", write_text(&p.created_at)));
    out.push(entry("downloads", write_metric(&p.downloads)));
    out.push(entry("license", write_text(&p.license)));
    out.push(entry("donate", write_text(&p.donate)));
    out.push(entry("members", write_members(&p.members)));
    out.push(entry("files", write_files(&p.files)));
    out.push(entry("versions", write_versions(&p.versions)));
    out.push(entry("description", write_text(&p.description)));
    out.push(entry("last_fetch", write_text(&p.last_fetch)));
    out.push(entry("download", write_file(&p.latest_file)));
    let r = Json::Object(out);
    proof {
        r.lemma_object_view();
        assert(r@->Object_0 =~= project_json(p@)->Object_0);
    }
    r
}

} // verus!
