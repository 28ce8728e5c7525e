//! Reading a JSON document as the data types of the API.
//!
//! Each kind of value has a spec function that says what a document reads as,
//! and an executable function that computes it. A document reads either as a
//! value or as the first error met when the fields are taken in the order in
//! which the type declares them, and the items of a list from first to last.

use crate::decimal::{bounded_value, parse_numeral};
use crate::error::{error_under, fault_here, under, DecodeError, DecodeErrorModel, DecodeFault, Step, StepModel};
use crate::json::{Json, JsonModel};
use crate::link::{url_serialization, Url};
use crate::types::{
    distinct_keys, files_model, is_place, lemma_put_distinct, members_model, put, texts_model,
    urls_model, versions_model, DownloadsMetric, NamedUrl, Project, ProjectFile, ProjectFileModel,
    ProjectMember, ProjectMemberModel, ProjectModel, ReleaseStream, VersionFiles,
};
use crate::version::{semver_parsed, Version, VersionModel};
use vstd::prelude::*;

verus! {

/// Whether `i` is the place of the first member of `m` with the key `key`.
pub open spec fn is_first(m: Seq<(Seq<char>, JsonModel)>, key: Seq<char>, i: int) -> bool {
    &&& 0 <= i < m.len()
    &&& m[i].0 == key
    &&& forall|k: int| 0 <= k < i ==> (#[trigger] m[k]).0 != key
}

/// The value of the first member of `m` with the key `key`.
pub open spec fn lookup(m: Seq<(Seq<char>, JsonModel)>, key: Seq<char>) -> Option<JsonModel> {
    if exists|i: int| is_first(m, key, i) {
        Some(m[choose|i: int| is_first(m, key, i)].1)
    } else {
        None
    }
}

/// What the member `key` of an object reads as: `read` of its value, or the
/// error that the member is missing.
pub open spec fn at<T>(
    m: Seq<(Seq<char>, JsonModel)>,
    key: Seq<char>,
    read: spec_fn(JsonModel) -> Result<T, DecodeErrorModel>,
) -> Result<T, DecodeErrorModel> {
    match lookup(m, key) {
        Some(v) => under(StepModel::Key(key), read(v)),
        None => Err(error_under(StepModel::Key(key), fault_here(DecodeFault::Missing))),
    }
}

/// What a document reads as where a text is asked for.
pub open spec fn text_of(j: JsonModel) -> Result<Seq<char>, DecodeErrorModel> {
    match j {
        JsonModel::Text(t) => Ok(t),
        _ => Err(fault_here(DecodeFault::Mismatch)),
    }
}

/// What a document reads as where a number from 0 to `max` is asked for: the
/// number that its text writes, if the text is a numeral and the number is in
/// range.
pub open spec fn natural_of(j: JsonModel, max: nat) -> Result<nat, DecodeErrorModel> {
    match j {
        JsonModel::Number(t) => match bounded_value(t, max) {
            Some(n) => Ok(n),
            None => Err(fault_here(DecodeFault::Mismatch)),
        },
        _ => Err(fault_here(DecodeFault::Mismatch)),
    }
}

/// What a document reads as where a URL is asked for.
pub open spec fn url_of(j: JsonModel) -> Result<Seq<char>, DecodeErrorModel> {
    match j {
        JsonModel::Text(t) => match url_serialization(t) {
            Some(u) => Ok(u),
            None => Err(fault_here(DecodeFault::BadUrl)),
        },
        _ => Err(fault_here(DecodeFault::Mismatch)),
    }
}

/// What a document reads as where a version is asked for.
pub open spec fn version_of(j: JsonModel) -> Result<VersionModel, DecodeErrorModel> {
    match j {
        JsonModel::Text(t) => match semver_parsed(t) {
            Some(v) => Ok(v),
            None => Err(fault_here(DecodeFault::BadVersion)),
        },
        _ => Err(fault_here(DecodeFault::Mismatch)),
    }
}

/// The stream that a text names, if it names one.
pub open spec fn stream_named(t: Seq<char>) -> Option<ReleaseStream> {
    if t == "release"@ {
        Some(ReleaseStream::Release)
    } else if t == "beta"@ {
        Some(ReleaseStream::Beta)
    } else {
        None
    }
}

/// What a document reads as where a release stream is asked for.
pub open spec fn stream_of(j: JsonModel) -> Result<ReleaseStream, DecodeErrorModel> {
    match j {
        JsonModel::Text(t) => match stream_named(t) {
            Some(s) => Ok(s),
            None => Err(fault_here(DecodeFault::UnknownStream)),
        },
        _ => Err(fault_here(DecodeFault::Mismatch)),
    }
}

/// What the first `n` items of a list read as, each read by `read`.
pub open spec fn list_prefix<T>(
    items: Seq<JsonModel>,
    n: nat,
    read: spec_fn(JsonModel) -> Result<T, DecodeErrorModel>,
) -> Result<Seq<T>, DecodeErrorModel>
    decreases n,
{
    if n == 0 {
        Ok(Seq::empty())
    } else {
        match list_prefix(items, (n - 1) as nat, read) {
            Err(e) => Err(e),
            Ok(s) => match read(items[n - 1]) {
                Err(e) => Err(error_under(StepModel::Index((n - 1) as nat), e)),
                Ok(x) => Ok(s.push(x)),
            },
        }
    }
}

/// What a document reads as where a list is asked for, each item read by
/// `read`.
pub open spec fn list_of<T>(
    j: JsonModel,
    read: spec_fn(JsonModel) -> Result<T, DecodeErrorModel>,
) -> Result<Seq<T>, DecodeErrorModel> {
    match j {
        JsonModel::Array(items) => list_prefix(items, items.len(), read),
        _ => Err(fault_here(DecodeFault::Mismatch)),
    }
}

/// Once a prefix of a list reads as an error, every longer prefix reads as the
/// same error.
pub proof fn lemma_error_stays<T>(
    items: Seq<JsonModel>,
    n: nat,
    k: nat,
    read: spec_fn(JsonModel) -> Result<T, DecodeErrorModel>,
)
    requires
        n <= k,
        list_prefix(items, n, read) is Err,
    ensures
        list_prefix(items, k, read) == list_prefix(items, n, read),
    decreases k,
{
    if n < k {
        lemma_error_stays(items, n, (k - 1) as nat, read);
    }
}

/// Reading an item as a text.
pub open spec fn text_reader() -> spec_fn(JsonModel) -> Result<Seq<char>, DecodeErrorModel> {
    |j: JsonModel| text_of(j)
}

/// Reading an item as a member.
pub open spec fn member_reader() -> spec_fn(JsonModel) -> Result<
    ProjectMemberModel,
    DecodeErrorModel,
> {
    |j: JsonModel| member_of(j)
}

/// Reading an item as a file.
pub open spec fn file_reader() -> spec_fn(JsonModel) -> Result<ProjectFileModel, DecodeErrorModel> {
    |j: JsonModel| file_of(j)
}

/// What a document reads as where a member of a project is asked for.
pub open spec fn member_of(j: JsonModel) -> Result<ProjectMemberModel, DecodeErrorModel> {
    match j {
        JsonModel::Object(m) => {
            let title = at(m, "title"@, |v: JsonModel| text_of(v));
            let username = at(m, "username"@, |v: JsonModel| text_of(v));
            if title is Err {
                Err(title->Err_0)
            } else if username is Err {
                Err(username->Err_0)
            } else {
                Ok(ProjectMemberModel { title: title->Ok_0, username: username->Ok_0 })
            }
        },
        _ => Err(fault_here(DecodeFault::Mismatch)),
    }
}

/// What a document reads as where a file is asked for.
pub open spec fn file_of(j: JsonModel) -> Result<ProjectFileModel, DecodeErrorModel> {
    match j {
        JsonModel::Object(m) => {
            let id = at(m, "id"@, |v: JsonModel| natural_of(v, u32::MAX as nat));
            let url = at(m, "url"@, |v: JsonModel| url_of(v));
            let friendly_name = at(m, "display"@, |v: JsonModel| text_of(v));
            let file_name = at(m, "name"@, |v: JsonModel| text_of(v));
            let stream = at(m, "type"@, |v: JsonModel| stream_of(v));
            let version = at(m, "version"@, |v: JsonModel| version_of(v));
            let file_size = at(m, "filesize"@, |v: JsonModel| natural_of(v, u128::MAX as nat));
            let versions = at(m, "versions"@, |v: JsonModel| list_of(v, text_reader()));
            let downloads = at(m, "downloads"@, |v: JsonModel| natural_of(v, u32::MAX as nat));
            let uploaded_at = at(m, "uploaded_at"@, |v: JsonModel| text_of(v));
            if id is Err {
                Err(id->Err_0)
            } else if url is Err {
                Err(url->Err_0)
            } else if friendly_name is Err {
                Err(friendly_name->Err_0)
            } else if file_name is Err {
                Err(file_name->Err_0)
            } else if stream is Err {
                Err(stream->Err_0)
            } else if version is Err {
                Err(version->Err_0)
            } else if file_size is Err {
                Err(file_size->Err_0)
            } else if versions is Err {
                Err(versions->Err_0)
            } else if downloads is Err {
                Err(downloads->Err_0)
            } else if uploaded_at is Err {
                Err(uploaded_at->Err_0)
            } else {
                Ok(
                    ProjectFileModel {
                        id: id->Ok_0 as u32,
                        url: url->Ok_0,
                        friendly_name: friendly_name->Ok_0,
                        file_name: file_name->Ok_0,
                        stream: stream->Ok_0,
                        version: version->Ok_0,
                        file_size: file_size->Ok_0 as u128,
                        versions: versions->Ok_0,
                        downloads: downloads->Ok_0 as u32,
                        uploaded_at: uploaded_at->Ok_0,
                    },
                )
            }
        },
        _ => Err(fault_here(DecodeFault::Mismatch)),
    }
}

/// What a document reads as where download counts are asked for.
pub open spec fn metric_of(j: JsonModel) -> Result<DownloadsMetric, DecodeErrorModel> {
    match j {
        JsonModel::Object(m) => {
            let monthly = at(m, "monthly"@, |v: JsonModel| natural_of(v, u64::MAX as nat));
            let total = at(m, "total"@, |v: JsonModel| natural_of(v, u64::MAX as nat));
            if monthly is Err {
                Err(monthly->Err_0)
            } else if total is Err {
                Err(total->Err_0)
            } else {
                Ok(DownloadsMetric { monthly: monthly->Ok_0 as u64, total: total->Ok_0 as u64 })
            }
        },
        _ => Err(fault_here(DecodeFault::Mismatch)),
    }
}

/// What the first `n` members of an object read as where a mapping from names
/// to URLs is asked for. A name that comes again takes the place of the
/// earlier one.
pub open spec fn urls_prefix(m: Seq<(Seq<char>, JsonModel)>, n: nat) -> Result<
    Seq<(Seq<char>, Seq<char>)>,
    DecodeErrorModel,
>
    decreases n,
{
    if n == 0 {
        Ok(Seq::empty())
    } else {
        match urls_prefix(m, (n - 1) as nat) {
            Err(e) => Err(e),
            Ok(s) => match url_of(m[n - 1].1) {
                Err(e) => Err(error_under(StepModel::Key(m[n - 1].0), e)),
                Ok(u) => Ok(put(s, m[n - 1].0, u)),
            },
        }
    }
}

/// What a document reads as where a mapping from names to URLs is asked for.
pub open spec fn urls_of(j: JsonModel) -> Result<Seq<(Seq<char>, Seq<char>)>, DecodeErrorModel> {
    match j {
        JsonModel::Object(m) => urls_prefix(m, m.len()),
        _ => Err(fault_here(DecodeFault::Mismatch)),
    }
}

/// What one member of an object reads as where a mapping from versions to
/// lists of files is asked for: the key as a version, then the value as a list
/// of files.
pub open spec fn version_entry_of(key: Seq<char>, value: JsonModel) -> Result<
    (VersionModel, Seq<ProjectFileModel>),
    DecodeErrorModel,
> {
    match semver_parsed(key) {
        None => Err(error_under(StepModel::Key(key), fault_here(DecodeFault::BadVersion))),
        Some(version) => match list_of(value, file_reader()) {
            Err(e) => Err(error_under(StepModel::Key(key), e)),
            Ok(files) => Ok((version, files)),
        },
    }
}

/// What the first `n` members of an object read as where a mapping from
/// versions to lists of files is asked for. A version that comes again takes
/// the place of the earlier one.
pub open spec fn versions_prefix(m: Seq<(Seq<char>, JsonModel)>, n: nat) -> Result<
    Seq<(VersionModel, Seq<ProjectFileModel>)>,
    DecodeErrorModel,
>
    decreases n,
{
    if n == 0 {
        Ok(Seq::empty())
    } else {
        match versions_prefix(m, (n - 1) as nat) {
            Err(e) => Err(e),
            Ok(s) => match version_entry_of(m[n - 1].0, m[n - 1].1) {
                Err(e) => Err(e),
                Ok(entry) => Ok(put(s, entry.0, entry.1)),
            },
        }
    }
}

/// What a document reads as where a mapping from versions to lists of files is
/// asked for.
pub open spec fn versions_of(j: JsonModel) -> Result<
    Seq<(VersionModel, Seq<ProjectFileModel>)>,
    DecodeErrorModel,
> {
    match j {
        JsonModel::Object(m) => versions_prefix(m, m.len()),
        _ => Err(fault_here(DecodeFault::Mismatch)),
    }
}

/// Once a prefix of a mapping of URLs reads as an error, every longer prefix
/// reads as the same error.
pub proof fn lemma_urls_error_stays(m: Seq<(Seq<char>, JsonModel)>, n: nat, k: nat)
    requires
        n <= k,
        urls_prefix(m, n) is Err,
    ensures
        urls_prefix(m, k) == urls_prefix(m, n),
    decreases k,
{
    if n < k {
        lemma_urls_error_stays(m, n, (k - 1) as nat);
    }
}

/// Once a prefix of a mapping of versions reads as an error, every longer
/// prefix reads as the same error.
pub proof fn lemma_versions_error_stays(m: Seq<(Seq<char>, JsonModel)>, n: nat, k: nat)
    requires
        n <= k,
        versions_prefix(m, n) is Err,
    ensures
        versions_prefix(m, k) == versions_prefix(m, n),
    decreases k,
{
    if n < k {
        lemma_versions_error_stays(m, n, (k - 1) as nat);
    }
}

/// What a document reads as where a project is asked for.
pub open spec fn project_of(j: JsonModel) -> Result<ProjectModel, DecodeErrorModel> {
    match j {
        JsonModel::Object(m) => {
            let id = at(m, "id"@, |v: JsonModel| natural_of(v, u32::MAX as nat));
            let title = at(m, "title"@, |v: JsonModel| text_of(v));
            let summary = at(m, "summary"@, |v: JsonModel| text_of(v));
            let game = at(m, "game"@, |v: JsonModel| text_of(v));
            let project_type = at(m, "type"@, |v: JsonModel| text_of(v));
            let urls = at(m, "urls"@, |v: JsonModel| urls_of(v));
            let thumbnail = at(m, "thumbnail"@, |v: JsonModel| url_of(v));
            let created_at = at(m, "created_at"@, |v: JsonModel| text_of(v));
            let downloads = at(m, "downloads"@, |v: JsonModel| metric_of(v));
            let license = at(m, "license"@, |v: JsonModel| text_of(v));
            let donate = at(m, "donate"@, |v: JsonModel| text_of(v));
            let members = at(m, "members"@, |v: JsonModel| list_of(v, member_reader()));
            let files = at(m, "files"@, |v: JsonModel| list_of(v, file_reader()));
            let versions = at(m, "versions"@, |v: JsonModel| versions_of(v));
            let description = at(m, "description"@, |v: JsonModel| text_of(v));
            let last_fetch = at(m, "last_fetch"@, |v: JsonModel| text_of(v));
            let latest_file = at(m, "download"@, |v: JsonModel| file_of(v));
            if id is Err {
                Err(id->Err_0)
            } else if title is Err {
                Err(title->Err_0)
            } else if summary is Err {
                Err(summary->Err_0)
            } else if game is Err {
                Err(game->Err_0)
            } else if project_type is Err {
                Err(project_type->Err_0)
            } else if urls is Err {
                Err(urls->Err_0)
            } else if thumbnail is Err {
                Err(thumbnail->Err_0)
            } else if created_at is Err {
                Err(created_at->Err_0)
            } else if downloads is Err {
                Err(downloads->Err_0)
            } else if license is Err {
                Err(license->Err_0)
            } else if donate is Err {
                Err(donate->Err_0)
            } else if members is Err {
                Err(members->Err_0)
            } else if files is Err {
                Err(files->Err_0)
            } else if versions is Err {
                Err(versions->Err_0)
            } else if description is Err {
                Err(description->Err_0)
            } else if last_fetch is Err {
                Err(last_fetch->Err_0)
            } else if latest_file is Err {
                Err(latest_file->Err_0)
            } else {
                Ok(
                    ProjectModel {
                        id: id->Ok_0 as u32,
                        title: title->Ok_0,
                        summary: summary->Ok_0,
                        game: game->Ok_0,
                        project_type: project_type->Ok_0,
                        urls: urls->Ok_0,
                        thumbnail: thumbnail->Ok_0,
                        created_at: created_at->Ok_0,
                        downloads: downloads->Ok_0,
                        license: license->Ok_0,
                        donate: donate->Ok_0,
                        members: members->Ok_0,
                        files: files->Ok_0,
                        versions: versions->Ok_0,
                        description: description->Ok_0,
                        last_fetch: last_fetch->Ok_0,
                        latest_file: latest_file->Ok_0,
                    },
                )
            }
        },
        _ => Err(fault_here(DecodeFault::Mismatch)),
    }
}

/// What a body reads as: the project that its JSON document reads as, or the
/// error that it is not JSON.
pub open spec fn body_project(body: Seq<char>) -> Result<ProjectModel, DecodeErrorModel> {
    match crate::json::parsed_json(body) {
        Some(j) => project_of(j),
        None => Err(fault_here(DecodeFault::Syntax)),
    }
}

/// Finds the first member with the key `key` in an object. In a document that
/// is no object nothing is found.
pub fn find<'a>(j: &'a Json, key: &str) -> (r: Option<&'a Json>)
    ensures
        match r {
            Some(v) => j is Object && lookup(j@->Object_0, key@) == Some(v@),
            None => j is Object ==> lookup(j@->Object_0, key@) is None,
        },
{
    let ghost m = j@->Object_0;
    match j {
        Json::Object(members) => {
            proof {
                j.lemma_object_view();
            }
            let wanted = key.to_owned();
            let mut i: usize = 0;
            while i < members.len()
                invariant
                    0 <= i <= members@.len(),
                    wanted@ == key@,
                    j is Object,
                    m == j@->Object_0,
                    m.len() == members@.len(),
                    forall|k: int|
                        0 <= k < members@.len() ==> #[trigger] m[k] == (
                            members@[k].0@,
                            members@[k].1@,
                        ),
                    forall|k: int| 0 <= k < i ==> (#[trigger] m[k]).0 != key@,
                decreases members@.len() - i,
            {
                if members[i].0 == wanted {
                    assert(is_first(m, key@, i as int));
                    let ghost chosen = choose|c: int| is_first(m, key@, c);
                    assert(chosen == i) by {
                        if chosen < i {
                            assert(m[chosen].0 != key@);
                        } else if i < chosen {
                            assert(m[i as int].0 != key@);
                        }
                    }
                    return Some(&members[i].1);
                }
                i = i + 1;
            }
            assert forall|c: int| !is_first(m, key@, c) by {
                if 0 <= c < m.len() {
                    assert(m[c].0 != key@);
                }
            }
            None
        },
        _ => None,
    }
}

/// Reads a document as a text.
pub fn read_text(j: &Json) -> (r: Result<String, DecodeError>)
    ensures
        match r {
            Ok(v) => text_of(j@) == Ok::<Seq<char>, DecodeErrorModel>(v@),
            Err(e) => text_of(j@) == Err::<Seq<char>, DecodeErrorModel>(e@),
        },
{
    match j {
        Json::Text(t) => Ok(t.clone()),
        _ => Err(DecodeError::here(DecodeFault::Mismatch)),
    }
}

/// Reads a document as a number from 0 to `max`.
pub fn read_natural(j: &Json, max: u128) -> (r: Result<u128, DecodeError>)
    ensures
        match r {
            Ok(n) => n <= max && natural_of(j@, max as nat) == Ok::<nat, DecodeErrorModel>(n as nat),
            Err(e) => natural_of(j@, max as nat) == Err::<nat, DecodeErrorModel>(e@),
        },
{
    match j {
        Json::Number(t) => match parse_numeral(t.as_str()) {
            Some(n) => if n <= max {
                Ok(n)
            } else {
                Err(DecodeError::here(DecodeFault::Mismatch))
            },
            None => Err(DecodeError::here(DecodeFault::Mismatch)),
        },
        _ => Err(DecodeError::here(DecodeFault::Mismatch)),
    }
}

/// Reads a document as a URL.
pub fn read_url(j: &Json) -> (r: Result<Url, DecodeError>)
    ensures
        match r {
            Ok(v) => url_of(j@) == Ok::<Seq<char>, DecodeErrorModel>(v@),
            Err(e) => url_of(j@) == Err::<Seq<char>, DecodeErrorModel>(e@),
        },
{
    match j {
        Json::Text(t) => match Url::parse(t.as_str()) {
            Some(u) => Ok(u),
            None => Err(DecodeError::here(DecodeFault::BadUrl)),
        },
        _ => Err(DecodeError::here(DecodeFault::Mismatch)),
    }
}

/// Reads a document as a version.
pub fn read_version(j: &Json) -> (r: Result<Version, DecodeError>)
    ensures
        match r {
            Ok(v) => version_of(j@) == Ok::<VersionModel, DecodeErrorModel>(v@),
            Err(e) => version_of(j@) == Err::<VersionModel, DecodeErrorModel>(e@),
        },
{
    match j {
        Json::Text(t) => match Version::parse(t.as_str()) {
            Some(v) => Ok(v),
            None => Err(DecodeError::here(DecodeFault::BadVersion)),
        },
        _ => Err(DecodeError::here(DecodeFault::Mismatch)),
    }
}

/// Whether a string is the text `wanted`.
fn text_is(s: &String, wanted: &str) -> (r: bool)
    ensures
        r == (s@ == wanted@),
{
    let other = wanted.to_owned();
    *s == other
}

impl ReleaseStream {
    /// The stream that a text names: `release` names the full release, `beta`
    /// the beta release, and no other text names a stream.
    pub fn from_name(name: &str) -> (r: Option<ReleaseStream>)
        ensures
            r == stream_named(name@),
    {
        let name = name.to_owned();
        if text_is(&name, "release") {
            Some(ReleaseStream::Release)
        } else if text_is(&name, "beta") {
            Some(ReleaseStream::Beta)
        } else {
            None
        }
    }
}

/// Reads a document as a release stream.
pub fn read_stream(j: &Json) -> (r: Result<ReleaseStream, DecodeError>)
    ensures
        match r {
            Ok(v) => stream_of(j@) == Ok::<ReleaseStream, DecodeErrorModel>(v),
            Err(e) => stream_of(j@) == Err::<ReleaseStream, DecodeErrorModel>(e@),
        },
{
    match j {
        Json::Text(t) => match ReleaseStream::from_name(t.as_str()) {
            Some(s) => Ok(s),
            None => Err(DecodeError::here(DecodeFault::UnknownStream)),
        },
        _ => Err(DecodeError::here(DecodeFault::Mismatch)),
    }
}

/// Reads a document as a list of texts.
pub fn read_texts(j: &Json) -> (r: Result<Vec<String>, DecodeError>)
    ensures
        match r {
            Ok(v) => list_of(j@, text_reader()) == Ok::<Seq<Seq<char>>, DecodeErrorModel>(
                texts_model(v@),
            ),
            Err(e) => list_of(j@, text_reader()) == Err::<Seq<Seq<char>>, DecodeErrorModel>(e@),
        },
{
    let ghost models = j@->Array_0;
    match j {
        Json::Array(items) => {
            proof {
                j.lemma_array_view();
            }
            let mut out: Vec<String> = Vec::new();
            let mut i: usize = 0;
            assert(texts_model(out@) =~= Seq::<Seq<char>>::empty());
            while i < items.len()
                invariant
                    0 <= i <= items@.len(),
                    j@ == JsonModel::Array(models),
                    models.len() == items@.len(),
                    forall|k: int| 0 <= k < items@.len() ==> #[trigger] models[k] == items@[k]@,
                    list_prefix(models, i as nat, text_reader()) == Ok::<
                        Seq<Seq<char>>,
                        DecodeErrorModel,
                    >(texts_model(out@)),
                decreases items@.len() - i,
            {
                let ghost before = texts_model(out@);
                assert(models[i as int] == items@[i as int]@);
                match read_text(&items[i]) {
                    Ok(t) => {
                        out.push(t);
                        assert(texts_model(out@) =~= before.push(t@));
                    },
                    Err(e) => {
                        proof {
                            lemma_error_stays(models, (i + 1) as nat, models.len(), text_reader());
                        }
                        return Err(e.under(Step::Index(i)));
                    },
                }
                i = i + 1;
            }
            Ok(out)
        },
        _ => Err(DecodeError::here(DecodeFault::Mismatch)),
    }
}

/// Finds the member `key` of an object, which is missing where there is none.
fn member<'a>(j: &'a Json, key: &str) -> (r: Result<&'a Json, DecodeError>)
    requires
        j is Object,
    ensures
        match r {
            Ok(v) => lookup(j@->Object_0, key@) == Some(v@),
            Err(e) => lookup(j@->Object_0, key@) is None && e@ == error_under(
                StepModel::Key(key@),
                fault_here(DecodeFault::Missing),
            ),
        },
{
    match find(j, key) {
        Some(v) => Ok(v),
        None => Err(DecodeError::here(DecodeFault::Missing).under(Step::Key(key.to_owned()))),
    }
}

/// The result `r` of reading the member `key`, with its error, if it is one,
/// seen from the object.
fn keyed<T>(key: &str, r: Result<T, DecodeError>) -> (out: Result<T, DecodeError>)
    ensures
        match (r, out) {
            (Ok(a), Ok(b)) => a == b,
            (Err(e), Err(f)) => f@ == error_under(StepModel::Key(key@), e@),
            _ => false,
        },
{
    match r {
        Ok(v) => Ok(v),
        Err(e) => Err(e.under(Step::Key(key.to_owned()))),
    }
}

/// Reads a document as a member of a project.
pub fn read_member(j: &Json) -> (r: Result<ProjectMember, DecodeError>)
    ensures
        match r {
            Ok(v) => member_of(j@) == Ok::<ProjectMemberModel, DecodeErrorModel>(v@),
            Err(e) => member_of(j@) == Err::<ProjectMemberModel, DecodeErrorModel>(e@),
        },
{
    match j {
        Json::Object(_) => {},
        _ => {
            return Err(DecodeError::here(DecodeFault::Mismatch));
        },
    }
    let title = keyed("title", read_text(member(j, "title")?))?;
    let username = keyed("username", read_text(member(j, "username")?))?;
    Ok(ProjectMember { title, username })
}

/// Reads a document as a file.
pub fn read_file(j: &Json) -> (r: Result<ProjectFile, DecodeError>)
    ensures
        match r {
            Ok(v) => file_of(j@) == Ok::<ProjectFileModel, DecodeErrorModel>(v@),
            Err(e) => file_of(j@) == Err::<ProjectFileModel, DecodeErrorModel>(e@),
        },
{
    match j {
        Json::Object(_) => {},
        _ => {
            return Err(DecodeError::here(DecodeFault::Mismatch));
        },
    }
    let id = keyed("id", read_natural(member(j, "id")?, u32::MAX as u128))? as u32;
    let url = keyed("url", read_url(member(j, "url")?))?;
    let friendly_name = keyed("display", read_text(member(j, "display")?))?;
    let file_name = keyed("name", read_text(member(j, "name")?))?;
    let stream = keyed("type", read_stream(member(j, "type")?))?;
    let version = keyed("version", read_version(member(j, "version")?))?;
    let file_size = keyed("filesize", read_natural(member(j, "filesize")?, u128::MAX))?;
    let versions = keyed("versions", read_texts(member(j, "versions")?))?;
    let downloads = keyed("downloads", read_natural(member(j, "downloads")?, u32::MAX as u128))? as u32;
    let uploaded_at = keyed("uploaded_at", read_text(member(j, "uploaded_at")?))?;
    Ok(
        ProjectFile {
            id,
            url,
            friendly_name,
            file_name,
            stream,
            version,
            file_size,
            versions,
            downloads,
            uploaded_at,
        },
    )
}

/// Reads a document as a list of members.
pub fn read_members(j: &Json) -> (r: Result<Vec<ProjectMember>, DecodeError>)
    ensures
        match r {
            Ok(v) => list_of(j@, member_reader()) == Ok::<
                Seq<ProjectMemberModel>,
                DecodeErrorModel,
            >(members_model(v@)),
            Err(e) => list_of(j@, member_reader()) == Err::<
                Seq<ProjectMemberModel>,
                DecodeErrorModel,
            >(e@),
        },
{
    let ghost models = j@->Array_0;
    match j {
        Json::Array(items) => {
            proof {
                j.lemma_array_view();
            }
            let mut out: Vec<ProjectMember> = Vec::new();
            let mut i: usize = 0;
            assert(members_model(out@) =~= Seq::<ProjectMemberModel>::empty());
            while i < items.len()
                invariant
                    0 <= i <= items@.len(),
                    j@ == JsonModel::Array(models),
                    models.len() == items@.len(),
                    forall|k: int| 0 <= k < items@.len() ==> #[trigger] models[k] == items@[k]@,
                    list_prefix(models, i as nat, member_reader()) == Ok::<
                        Seq<ProjectMemberModel>,
                        DecodeErrorModel,
                    >(members_model(out@)),
                decreases items@.len() - i,
            {
                let ghost before = members_model(out@);
                assert(models[i as int] == items@[i as int]@);
                match read_member(&items[i]) {
                    Ok(t) => {
                        out.push(t);
                        assert(members_model(out@) =~= before.push(t@));
                    },
                    Err(e) => {
                        proof {
                            lemma_error_stays(
                                models,
                                (i + 1) as nat,
                                models.len(),
                                member_reader(),
                            );
                        }
                        return Err(e.under(Step::Index(i)));
                    },
                }
                i = i + 1;
            }
            Ok(out)
        },
        _ => Err(DecodeError::here(DecodeFault::Mismatch)),
    }
}

/// Reads a document as a list of files.
pub fn read_files(j: &Json) -> (r: Result<Vec<ProjectFile>, DecodeError>)
    ensures
        match r {
            Ok(v) => list_of(j@, file_reader()) == Ok::<Seq<ProjectFileModel>, DecodeErrorModel>(
                files_model(v@),
            ),
            Err(e) => list_of(j@, file_reader()) == Err::<Seq<ProjectFileModel>, DecodeErrorModel>(
                e@,
            ),
        },
{
    let ghost models = j@->Array_0;
    match j {
        Json::Array(items) => {
            proof {
                j.lemma_array_view();
            }
            let mut out: Vec<ProjectFile> = Vec::new();
            let mut i: usize = 0;
            assert(files_model(out@) =~= Seq::<ProjectFileModel>::empty());
            while i < items.len()
                invariant
                    0 <= i <= items@.len(),
                    j@ == JsonModel::Array(models),
                    models.len() == items@.len(),
                    forall|k: int| 0 <= k < items@.len() ==> #[trigger] models[k] == items@[k]@,
                    list_prefix(models, i as nat, file_reader()) == Ok::<
                        Seq<ProjectFileModel>,
                        DecodeErrorModel,
                    >(files_model(out@)),
                decreases items@.len() - i,
            {
                let ghost before = files_model(out@);
                assert(models[i as int] == items@[i as int]@);
                match read_file(&items[i]) {
                    Ok(t) => {
                        out.push(t);
                        assert(files_model(out@) =~= before.push(t@));
                    },
                    Err(e) => {
                        proof {
                            lemma_error_stays(models, (i + 1) as nat, models.len(), file_reader());
                        }
                        return Err(e.under(Step::Index(i)));
                    },
                }
                i = i + 1;
            }
            Ok(out)
        },
        _ => Err(DecodeError::here(DecodeFault::Mismatch)),
    }
}

/// Reads a document as download counts.
pub fn read_metric(j: &Json) -> (r: Result<DownloadsMetric, DecodeError>)
    ensures
        match r {
            Ok(v) => metric_of(j@) == Ok::<DownloadsMetric, DecodeErrorModel>(v),
            Err(e) => metric_of(j@) == Err::<DownloadsMetric, DecodeErrorModel>(e@),
        },
{
    match j {
        Json::Object(_) => {},
        _ => {
            return Err(DecodeError::here(DecodeFault::Mismatch));
        },
    }
    let monthly = keyed("monthly", read_natural(member(j, "monthly")?, u64::MAX as u128))? as u64;
    let total = keyed("total", read_natural(member(j, "total")?, u64::MAX as u128))? as u64;
    Ok(DownloadsMetric { monthly, total })
}

/// Gives the name `name` the URL `url` in a mapping.
pub fn put_url(list: &mut Vec<NamedUrl>, name: String, url: Url)
    requires
        distinct_keys(urls_model(old(list)@)),
    ensures
        urls_model(final(list)@) == put(urls_model(old(list)@), name@, url@),
        distinct_keys(urls_model(final(list)@)),
{
    let ghost before = urls_model(list@);
    proof {
        lemma_put_distinct(before, name@, url@);
    }
    let mut i: usize = 0;
    while i < list.len()
        invariant
            0 <= i <= list@.len(),
            urls_model(list@) == before,
            before == urls_model(old(list)@),
            distinct_keys(before),
            forall|k: int| 0 <= k < i ==> !is_place(before, name@, k),
        decreases list@.len() - i,
    {
        assert(before[i as int] == (list@[i as int].name@, list@[i as int].url@));
        if list[i].name == name {
            assert(is_place(before, name@, i as int));
            let ghost chosen = choose|c: int| is_place(before, name@, c);
            assert(chosen == i) by {
                if chosen < i {
                    assert(!is_place(before, name@, chosen));
                } else if i < chosen {
                    assert(before[i as int].0 != before[chosen].0);
                }
            }
            list.set(i, NamedUrl { name, url });
            assert(urls_model(list@) =~= before.update(i as int, (name@, url@)));
            return ;
        }
        i = i + 1;
    }
    assert forall|c: int| !is_place(before, name@, c) by {}
    list.push(NamedUrl { name, url });
    assert(urls_model(list@) =~= before.push((name@, url@)));
}

/// Gives the version `version` the files `files` in a mapping.
pub fn put_files(list: &mut Vec<VersionFiles>, version: Version, files: Vec<ProjectFile>)
    requires
        distinct_keys(versions_model(old(list)@)),
    ensures
        versions_model(final(list)@) == put(
            versions_model(old(list)@),
            version@,
            files_model(files@),
        ),
        distinct_keys(versions_model(final(list)@)),
{
    let ghost before = versions_model(list@);
    let ghost value = files_model(files@);
    proof {
        lemma_put_distinct(before, version@, value);
    }
    let mut i: usize = 0;
    while i < list.len()
        invariant
            0 <= i <= list@.len(),
            versions_model(list@) == before,
            before == versions_model(old(list)@),
            value == files_model(files@),
            distinct_keys(before),
            forall|k: int| 0 <= k < i ==> !is_place(before, version@, k),
        decreases list@.len() - i,
    {
        assert(before[i as int] == (list@[i as int].version@, files_model(list@[i as int].files@)));
        if list[i].version.same(&version) {
            assert(is_place(before, version@, i as int));
            let ghost chosen = choose|c: int| is_place(before, version@, c);
            assert(chosen == i) by {
                if chosen < i {
                    assert(!is_place(before, version@, chosen));
                } else if i < chosen {
                    assert(before[i as int].0 != before[chosen].0);
                }
            }
            let ghost key = version@;
            list.set(i, VersionFiles { version, files });
            assert(versions_model(list@) =~= before.update(i as int, (key, value)));
            return ;
        }
        i = i + 1;
    }
    assert forall|c: int| !is_place(before, version@, c) by {}
    let ghost key = version@;
    list.push(VersionFiles { version, files });
    assert(versions_model(list@) =~= before.push((key, value)));
}

/// Reads a document as a mapping from names to URLs.
pub fn read_urls(j: &Json) -> (r: Result<Vec<NamedUrl>, DecodeError>)
    ensures
        match r {
            Ok(v) => urls_of(j@) == Ok::<Seq<(Seq<char>, Seq<char>)>, DecodeErrorModel>(
                urls_model(v@),
            ) && distinct_keys(urls_model(v@)),
            Err(e) => urls_of(j@) == Err::<Seq<(Seq<char>, Seq<char>)>, DecodeErrorModel>(e@),
        },
{
    let ghost m = j@->Object_0;
    match j {
        Json::Object(members) => {
            proof {
                j.lemma_object_view();
            }
            let mut out: Vec<NamedUrl> = Vec::new();
            let mut i: usize = 0;
            assert(urls_model(out@) =~= Seq::<(Seq<char>, Seq<char>)>::empty());
            while i < members.len()
                invariant
                    0 <= i <= members@.len(),
                    j@ == JsonModel::Object(m),
                    m.len() == members@.len(),
                    forall|k: int|
                        0 <= k < members@.len() ==> #[trigger] m[k] == (
                            members@[k].0@,
                            members@[k].1@,
                        ),
                    urls_prefix(m, i as nat) == Ok::<Seq<(Seq<char>, Seq<char>)>, DecodeErrorModel>(
                        urls_model(out@),
                    ),
                    distinct_keys(urls_model(out@)),
                decreases members@.len() - i,
            {
                assert(m[i as int] == (members@[i as int].0@, members@[i as int].1@));
                let name = members[i].0.clone();
                match read_url(&members[i].1) {
                    Ok(u) => {
                        put_url(&mut out, name, u);
                    },
                    Err(e) => {
                        proof {
                            lemma_urls_error_stays(m, (i + 1) as nat, m.len());
                        }
                        return Err(e.under(Step::Key(name)));
                    },
                }
                i = i + 1;
            }
            Ok(out)
        },
        _ => Err(DecodeError::here(DecodeFault::Mismatch)),
    }
}

/// Reads a document as a mapping from versions to lists of files.
pub fn read_versions(j: &Json) -> (r: Result<Vec<VersionFiles>, DecodeError>)
    ensures
        match r {
            Ok(v) => versions_of(j@) == Ok::<
                Seq<(VersionModel, Seq<ProjectFileModel>)>,
                DecodeErrorModel,
            >(versions_model(v@)) && distinct_keys(versions_model(v@)),
            Err(e) => versions_of(j@) == Err::<
                Seq<(VersionModel, Seq<ProjectFileModel>)>,
                DecodeErrorModel,
            >(e@),
        },
{
    let ghost m = j@->Object_0;
    match j {
        Json::Object(members) => {
            proof {
                j.lemma_object_view();
            }
            let mut out: Vec<VersionFiles> = Vec::new();
            let mut i: usize = 0;
            assert(versions_model(out@) =~= Seq::<(VersionModel, Seq<ProjectFileModel>)>::empty());
            while i < members.len()
                invariant
                    0 <= i <= members@.len(),
                    j@ == JsonModel::Object(m),
                    m.len() == members@.len(),
                    forall|k: int|
                        0 <= k < members@.len() ==> #[trigger] m[k] == (
                            members@[k].0@,
                            members@[k].1@,
                        ),
                    versions_prefix(m, i as nat) == Ok::<
                        Seq<(VersionModel, Seq<ProjectFileModel>)>,
                        DecodeErrorModel,
                    >(versions_model(out@)),
                    distinct_keys(versions_model(out@)),
                decreases members@.len() - i,
            {
                assert(m[i as int] == (members@[i as int].0@, members@[i as int].1@));
                let version = match Version::parse(members[i].0.as_str()) {
                    Some(v) => v,
                    None => {
                        proof {
                            lemma_versions_error_stays(m, (i + 1) as nat, m.len());
                        }
                        return Err(
                            DecodeError::here(DecodeFault::BadVersion).under(
                                Step::Key(members[i].0.clone()),
                            ),
                        );
                    },
                };
                match read_files(&members[i].1) {
                    Ok(files) => {
                        put_files(&mut out, version, files);
                    },
                    Err(e) => {
                        proof {
                            lemma_versions_error_stays(m, (i + 1) as nat, m.len());
                        }
                        return Err(e.under(Step::Key(members[i].0.clone())));
                    },
                }
                i = i + 1;
            }
            Ok(out)
        },
        _ => Err(DecodeError::here(DecodeFault::Mismatch)),
    }
}

/// Reads a document as a project.
///
/// The fields are read in the order in which [`Project`] declares them, each
/// from the member with its name on the wire, and the first that is missing or
/// cannot be read is the error, with the way to it. Members that the schema
/// does not name are passed over. A project that is read has each name once
/// among its URLs and each version once among its versions.
pub fn read_project(j: &Json) -> (r: Result<Project, DecodeError>)
    ensures
        match r {
            Ok(v) => project_of(j@) == Ok::<ProjectModel, DecodeErrorModel>(v@) && v@.wf(),
            Err(e) => project_of(j@) == Err::<ProjectModel, DecodeErrorModel>(e@),
        },
{
    match j {
        Json::Object(_) => {},
        _ => {
            return Err(DecodeError::here(DecodeFault::Mismatch));
        },
    }
    let id = keyed("id", read_natural(member(j, "id")?, u32::MAX as u128))? as u32;
    let title = keyed("title", read_text(member(j, "title")?))?;
    let summary = keyed("summary", read_text(member(j, "summary")?))?;
    let game = keyed("game", read_text(member(j, "game")?))?;
    let project_type = keyed("type", read_text(member(j, "type")?))?;
    let urls = keyed("urls", read_urls(member(j, "urls")?))?;
    let thumbnail = keyed("thumbnail", read_url(member(j, "thumbnail")?))?;
    let created_at = keyed("created_at", read_text(member(j, "created_at")?))?;
    let downloads = keyed("downloads", read_metric(member(j, "downloads")?))?;
    let license = keyed("license", read_text(member(j, "license")?))?;
    let donate = keyed("donate", read_text(member(j, "donate")?))?;
    let members = keyed("members", read_members(member(j, "members")?))?;
    let files = keyed("files", read_files(member(j, "files")?))?;
    let versions = keyed("versions", read_versions(member(j, "versions")?))?;
    let description = keyed("description", read_text(member(j, "description")?))?;
    let last_fetch = keyed("last_fetch", read_text(member(j, "last_fetch")?))?;
    let latest_file = keyed("download", read_file(member(j, "download")?))?;
    Ok(
        Project {
            id,
            title,
            summary,
            game,
            project_type,
            urls,
            thumbnail,
            created_at,
            downloads,
            license,
            donate,
            members,
            files,
            versions,
            description,
            last_fetch,
            latest_file,
        },
    )
}

/// Reads a body as a project: the body as a JSON document, and the document as
/// a project.
pub fn read_body(body: &str) -> (r: Result<Project, DecodeError>)
    ensures
        match r {
            Ok(v) => body_project(body@) == Ok::<ProjectModel, DecodeErrorModel>(v@) && v@.wf(),
            Err(e) => body_project(body@) == Err::<ProjectModel, DecodeErrorModel>(e@),
        },
{
    match Json::parse(body) {
        Some(j) => read_project(&j),
        None => Err(DecodeError::here(DecodeFault::Syntax)),
    }
}

} // verus!
