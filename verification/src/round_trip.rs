//! Writing a value as a document and reading the document gives the value
//! back.

use crate::decimal::lemma_numeral_value;
use crate::decode::{
    file_of, file_reader, is_first, list_of, list_prefix, lookup, member_of, member_reader,
    metric_of, natural_of, project_of, stream_named, stream_of, text_reader, urls_of, urls_prefix,
    version_entry_of, versions_of, versions_prefix,
};
use crate::encode::{
    file_json, files_json, member_json, members_json, metric_json, natural_json, project_json,
    stream_name, texts_json, urls_json, versions_json,
};
use crate::error::DecodeErrorModel;
use crate::json::JsonModel;
use crate::link::url_canonical;
use crate::types::{
    distinct_keys, file_canonical, files_canonical, is_place, put, DownloadsMetric,
    ProjectFileModel, ProjectMemberModel, ProjectModel, ReleaseStream,
};
use crate::version::{version_canonical, version_text, VersionModel};
use vstd::prelude::*;

verus! {

/// The length and the first character of a key. Keys that differ in either are
/// different keys.
pub open spec fn key_tag(key: Seq<char>) -> (nat, char) {
    (key.len(), key[0])
}

/// The first member with a key is the one that a lookup finds.
pub proof fn lemma_lookup(m: Seq<(Seq<char>, JsonModel)>, key: Seq<char>, i: int)
    requires
        is_first(m, key, i),
    ensures
        lookup(m, key) == Some(m[i].1),
{
    let chosen = choose|c: int| is_first(m, key, c);
    if chosen < i {
        assert(m[chosen].0 != key);
    } else if i < chosen {
        assert(m[i].0 != key);
    }
}

/// A number that is written and read is the same number.
pub proof fn lemma_natural_round_trip(n: nat, max: nat)
    requires
        n <= max,
    ensures
        natural_of(natural_json(n), max) == Ok::<nat, DecodeErrorModel>(n),
{
    lemma_numeral_value(n);
}

/// A release stream that is written and read is the same stream.
pub proof fn lemma_stream_round_trip(s: ReleaseStream)
    ensures
        stream_named(stream_name(s)) == Some(s),
        stream_of(JsonModel::Text(stream_name(s))) == Ok::<ReleaseStream, DecodeErrorModel>(s),
{
    reveal_strlit("release");
    reveal_strlit("beta");
    assert("release"@.len() != "beta"@.len());
}

/// A list whose items each read as the value at their place reads as the list
/// of these values.
pub proof fn lemma_list_round_trip<T>(
    xs: Seq<T>,
    items: Seq<JsonModel>,
    read: spec_fn(JsonModel) -> Result<T, DecodeErrorModel>,
    n: nat,
)
    requires
        items.len() == xs.len(),
        n <= xs.len(),
        forall|i: int| 0 <= i < xs.len() ==> read(#[trigger] items[i]) == Ok::<T, DecodeErrorModel>(xs[i]),
    ensures
        list_prefix(items, n, read) == Ok::<Seq<T>, DecodeErrorModel>(xs.take(n as int)),
    decreases n,
{
    if n == 0 {
        assert(xs.take(0) =~= Seq::<T>::empty());
    } else {
        lemma_list_round_trip(xs, items, read, (n - 1) as nat);
        assert(read(items[n - 1]) == Ok::<T, DecodeErrorModel>(xs[n - 1]));
        assert(xs.take(n as int) =~= xs.take(n - 1).push(xs[n - 1]));
    }
}

/// A list of texts that is written and read is the same list.
pub proof fn lemma_texts_round_trip(texts: Seq<Seq<char>>)
    ensures
        list_of(texts_json(texts), text_reader()) == Ok::<Seq<Seq<char>>, DecodeErrorModel>(texts),
{
    let items = texts_json(texts)->Array_0;
    lemma_list_round_trip(texts, items, text_reader(), texts.len());
    assert(texts.take(texts.len() as int) =~= texts);
}

/// A member that is written and read is the same member.
pub proof fn lemma_member_round_trip(m: ProjectMemberModel)
    ensures
        member_of(member_json(m)) == Ok::<ProjectMemberModel, DecodeErrorModel>(m),
{
    reveal_strlit("title");
    assert(key_tag("title"@) == (5nat, 't'));
    reveal_strlit("username");
    assert(key_tag("username"@) == (8nat, 'u'));
    let o = member_json(m)->Object_0;
    assert(is_first(o, "title"@, 0));
    lemma_lookup(o, "title"@, 0);
    assert(is_first(o, "username"@, 1));
    lemma_lookup(o, "username"@, 1);
}

/// A list of members that is written and read is the same list.
pub proof fn lemma_members_round_trip(members: Seq<ProjectMemberModel>)
    ensures
        list_of(members_json(members), member_reader()) == Ok::<
            Seq<ProjectMemberModel>,
            DecodeErrorModel,
        >(members),
{
    let items = members_json(members)->Array_0;
    assert forall|i: int| 0 <= i < members.len() implies member_reader()(#[trigger] items[i])
        == Ok::<ProjectMemberModel, DecodeErrorModel>(members[i]) by {
        lemma_member_round_trip(members[i]);
    }
    lemma_list_round_trip(members, items, member_reader(), members.len());
    assert(members.take(members.len() as int) =~= members);
}

/// Download counts that are written and read are the same counts.
pub proof fn lemma_metric_round_trip(d: DownloadsMetric)
    ensures
        metric_of(metric_json(d)) == Ok::<DownloadsMetric, DecodeErrorModel>(d),
{
    reveal_strlit("monthly");
    assert(key_tag("monthly"@) == (7nat, 'm'));
    reveal_strlit("total");
    assert(key_tag("total"@) == (5nat, 't'));
    let o = metric_json(d)->Object_0;
    assert(is_first(o, "monthly"@, 0));
    lemma_lookup(o, "monthly"@, 0);
    assert(is_first(o, "total"@, 1));
    lemma_lookup(o, "total"@, 1);
    lemma_natural_round_trip(d.monthly as nat, u64::MAX as nat);
    lemma_natural_round_trip(d.total as nat, u64::MAX as nat);
}

/// A file whose URL and version read back as themselves is, written and read,
/// the same file.
pub proof fn lemma_file_round_trip(f: ProjectFileModel)
    requires
        file_canonical(f),
    ensures
        file_of(file_json(f)) == Ok::<ProjectFileModel, DecodeErrorModel>(f),
{
    reveal_strlit("id");
    assert(key_tag("id"@) == (2nat, 'i'));
    reveal_strlit("url");
    assert(key_tag("url"@) == (3nat, 'u'));
    reveal_strlit("display");
    assert(key_tag("display"@) == (7nat, 'd'));
    reveal_strlit("name");
    assert(key_tag("name"@) == (4nat, 'n'));
    reveal_strlit("type");
    assert(key_tag("type"@) == (4nat, 't'));
    reveal_strlit("version");
    assert(key_tag("version"@) == (7nat, 'v'));
    reveal_strlit("filesize");
    assert(key_tag("filesize"@) == (8nat, 'f'));
    reveal_strlit("versions");
    assert(key_tag("versions"@) == (8nat, 'v'));
    reveal_strlit("downloads");
    assert(key_tag("downloads"@) == (9nat, 'd'));
    reveal_strlit("uploaded_at");
    assert(key_tag("uploaded_at"@) == (11nat, 'u'));
    let o = file_json(f)->Object_0;
    assert(is_first(o, "id"@, 0));
    lemma_lookup(o, "id"@, 0);
    assert(is_first(o, "url"@, 1));
    lemma_lookup(o, "url"@, 1);
    assert(is_first(o, "display"@, 2));
    lemma_lookup(o, "display"@, 2);
    assert(is_first(o, "name"@, 3));
    lemma_lookup(o, "name"@, 3);
    assert(is_first(o, "type"@, 4));
    lemma_lookup(o, "type"@, 4);
    assert(is_first(o, "version"@, 5));
    lemma_lookup(o, "version"@, 5);
    assert(is_first(o, "filesize"@, 6));
    lemma_lookup(o, "filesize"@, 6);
    assert(is_first(o, "versions"@, 7));
    lemma_lookup(o, "versions"@, 7);
    assert(is_first(o, "downloads"@, 8));
    lemma_lookup(o, "downloads"@, 8);
    assert(is_first(o, "uploaded_at"@, 9));
    lemma_lookup(o, "uploaded_at"@, 9);
    lemma_natural_round_trip(f.id as nat, u32::MAX as nat);
    lemma_natural_round_trip(f.file_size as nat, u128::MAX as nat);
    lemma_natural_round_trip(f.downloads as nat, u32::MAX as nat);
    lemma_stream_round_trip(f.stream);
    lemma_texts_round_trip(f.versions);
}

/// A list of files that read back as themselves is, written and read, the same
/// list.
pub proof fn lemma_files_round_trip(files: Seq<ProjectFileModel>)
    requires
        files_canonical(files),
    ensures
        list_of(files_json(files), file_reader()) == Ok::<Seq<ProjectFileModel>, DecodeErrorModel>(
            files,
        ),
{
    let items = files_json(files)->Array_0;
    assert forall|i: int| 0 <= i < files.len() implies file_reader()(#[trigger] items[i]) == Ok::<
        ProjectFileModel,
        DecodeErrorModel,
    >(files[i]) by {
        lemma_file_round_trip(files[i]);
    }
    lemma_list_round_trip(files, items, file_reader(), files.len());
    assert(files.take(files.len() as int) =~= files);
}

/// Giving a key that no entry has a value adds the entry at the end.
pub proof fn lemma_put_new<K, V>(entries: Seq<(K, V)>, k: K, v: V)
    requires
        forall|i: int| 0 <= i < entries.len() ==> (#[trigger] entries[i]).0 != k,
    ensures
        put(entries, k, v) == entries.push((k, v)),
{
    assert forall|i: int| !is_place(entries, k, i) by {
        if 0 <= i < entries.len() {
            assert(entries[i].0 != k);
        }
    }
}

/// The first `n` entries of a mapping of URLs that is written are read as
/// themselves.
pub proof fn lemma_urls_prefix_round_trip(urls: Seq<(Seq<char>, Seq<char>)>, n: nat)
    requires
        n <= urls.len(),
        distinct_keys(urls),
        forall|i: int| 0 <= i < urls.len() ==> url_canonical((#[trigger] urls[i]).1),
    ensures
        urls_prefix(urls_json(urls)->Object_0, n) == Ok::<
            Seq<(Seq<char>, Seq<char>)>,
            DecodeErrorModel,
        >(urls.take(n as int)),
    decreases n,
{
    let m = urls_json(urls)->Object_0;
    if n == 0 {
        assert(urls.take(0) =~= Seq::<(Seq<char>, Seq<char>)>::empty());
    } else {
        lemma_urls_prefix_round_trip(urls, (n - 1) as nat);
        let last = urls[n - 1];
        assert(m[n - 1] == (last.0, JsonModel::Text(last.1)));
        assert(url_canonical(last.1));
        let before = urls.take(n - 1);
        assert forall|i: int| 0 <= i < before.len() implies (#[trigger] before[i]).0 != last.0 by {
            assert(before[i] == urls[i]);
        }
        lemma_put_new(before, last.0, last.1);
        assert(urls.take(n as int) =~= before.push(last));
    }
}

/// A mapping of URLs that has each name once, and whose URLs read back as
/// themselves, is, written and read, the same mapping.
pub proof fn lemma_urls_round_trip(urls: Seq<(Seq<char>, Seq<char>)>)
    requires
        distinct_keys(urls),
        forall|i: int| 0 <= i < urls.len() ==> url_canonical((#[trigger] urls[i]).1),
    ensures
        urls_of(urls_json(urls)) == Ok::<Seq<(Seq<char>, Seq<char>)>, DecodeErrorModel>(urls),
{
    lemma_urls_prefix_round_trip(urls, urls.len());
    assert(urls.take(urls.len() as int) =~= urls);
}

/// The first `n` entries of a mapping of versions that is written are read as
/// themselves.
pub proof fn lemma_versions_prefix_round_trip(
    versions: Seq<(VersionModel, Seq<ProjectFileModel>)>,
    n: nat,
)
    requires
        n <= versions.len(),
        distinct_keys(versions),
        forall|i: int|
            0 <= i < versions.len() ==> version_canonical((#[trigger] versions[i]).0)
                && files_canonical(versions[i].1),
    ensures
        versions_prefix(versions_json(versions)->Object_0, n) == Ok::<
            Seq<(VersionModel, Seq<ProjectFileModel>)>,
            DecodeErrorModel,
        >(versions.take(n as int)),
    decreases n,
{
    let m = versions_json(versions)->Object_0;
    if n == 0 {
        assert(versions.take(0) =~= Seq::<(VersionModel, Seq<ProjectFileModel>)>::empty());
    } else {
        lemma_versions_prefix_round_trip(versions, (n - 1) as nat);
        let last = versions[n - 1];
        assert(m[n - 1] == (version_text(last.0), files_json(last.1)));
        assert(version_canonical(last.0) && files_canonical(last.1));
        lemma_files_round_trip(last.1);
        assert(version_entry_of(m[n - 1].0, m[n - 1].1) == Ok::<
            (VersionModel, Seq<ProjectFileModel>),
            DecodeErrorModel,
        >(last));
        let before = versions.take(n - 1);
        assert forall|i: int| 0 <= i < before.len() implies (#[trigger] before[i]).0 != last.0 by {
            assert(before[i] == versions[i]);
        }
        lemma_put_new(before, last.0, last.1);
        assert(versions.take(n as int) =~= before.push(last));
    }
}

/// A mapping of versions that has each version once, and whose versions and
/// files read back as themselves, is, written and read, the same mapping.
pub proof fn lemma_versions_round_trip(versions: Seq<(VersionModel, Seq<ProjectFileModel>)>)
    requires
        distinct_keys(versions),
        forall|i: int|
            0 <= i < versions.len() ==> version_canonical((#[trigger] versions[i]).0)
                && files_canonical(versions[i].1),
    ensures
        versions_of(versions_json(versions)) == Ok::<
            Seq<(VersionModel, Seq<ProjectFileModel>)>,
            DecodeErrorModel,
        >(versions),
{
    lemma_versions_prefix_round_trip(versions, versions.len());
    assert(versions.take(versions.len() as int) =~= versions);
}

/// Each field of a project that is written is found under its name on the
/// wire.
pub proof fn lemma_project_fields(p: ProjectModel)
    ensures
        lookup(project_json(p)->Object_0, "id"@) == Some(natural_json(p.id as nat)),
        lookup(project_json(p)->Object_0, "title"@) == Some(JsonModel::Text(p.title)),
        lookup(project_json(p)->Object_0, "summary"@) == Some(JsonModel::Text(p.summary)),
        lookup(project_json(p)->Object_0, "game"@) == Some(JsonModel::Text(p.game)),
        lookup(project_json(p)->Object_0, "type"@) == Some(JsonModel::Text(p.project_type)),
        lookup(project_json(p)->Object_0, "urls"@) == Some(urls_json(p.urls)),
        lookup(project_json(p)->Object_0, "thumbnail"@) == Some(JsonModel::Text(p.thumbnail)),
        lookup(project_json(p)->Object_0, "created_at"@) == Some(JsonModel::Text(p.created_at)),
        lookup(project_json(p)->Object_0, "downloads"@) == Some(metric_json(p.downloads)),
        lookup(project_json(p)->Object_0, "license"@) == Some(JsonModel::Text(p.license)),
        lookup(project_json(p)->Object_0, "donate"@) == Some(JsonModel::Text(p.donate)),
        lookup(project_json(p)->Object_0, "members"@) == Some(members_json(p.members)),
        lookup(project_json(p)->Object_0, "files"@) == Some(files_json(p.files)),
        lookup(project_json(p)->Object_0, "versions"@) == Some(versions_json(p.versions)),
        lookup(project_json(p)->Object_0, "description"@) == Some(JsonModel::Text(p.description)),
        lookup(project_json(p)->Object_0, "last_fetch"@) == Some(JsonModel::Text(p.last_fetch)),
        lookup(project_json(p)->Object_0, "download"@) == Some(file_json(p.latest_file)),
{
    reveal_strlit("id");
    assert(key_tag("id"@) == (2nat, 'i'));
    reveal_strlit("title");
    assert(key_tag("title"@) == (5nat, 't'));
    reveal_strlit("summary");
    assert(key_tag("summary"@) == (7nat, 's'));
    reveal_strlit("game");
    assert(key_tag("game"@) == (4nat, 'g'));
    reveal_strlit("type");
    assert(key_tag("type"@) == (4nat, 't'));
    reveal_strlit("urls");
    assert(key_tag("urls"@) == (4nat, 'u'));
    reveal_strlit("thumbnail");
    assert(key_tag("thumbnail"@) == (9nat, 't'));
    reveal_strlit("created_at");
    assert(key_tag("created_at"@) == (10nat, 'c'));
    reveal_strlit("downloads");
    assert(key_tag("downloads"@) == (9nat, 'd'));
    reveal_strlit("license");
    assert(key_tag("license"@) == (7nat, 'l'));
    reveal_strlit("donate");
    assert(key_tag("donate"@) == (6nat, 'd'));
    reveal_strlit("members");
    assert(key_tag("members"@) == (7nat, 'm'));
    reveal_strlit("files");
    assert(key_tag("files"@) == (5nat, 'f'));
    reveal_strlit("versions");
    assert(key_tag("versions"@) == (8nat, 'v'));
    reveal_strlit("description");
    assert(key_tag("description"@) == (11nat, 'd'));
    reveal_strlit("last_fetch");
    assert(key_tag("last_fetch"@) == (10nat, 'l'));
    reveal_strlit("download");
    assert(key_tag("download"@) == (8nat, 'd'));
    let o = project_json(p)->Object_0;
    assert(o.len() == 17);
    assert(is_first(o, "id"@, 0));
    lemma_lookup(o, "id"@, 0);
    assert(is_first(o, "title"@, 1));
    lemma_lookup(o, "title"@, 1);
    assert(is_first(o, "summary"@, 2));
    lemma_lookup(o, "summary"@, 2);
    assert(is_first(o, "game"@, 3));
    lemma_lookup(o, "game"@, 3);
    assert(is_first(o, "type"@, 4));
    lemma_lookup(o, "type"@, 4);
    assert(is_first(o, "urls"@, 5));
    lemma_lookup(o, "urls"@, 5);
    assert(is_first(o, "thumbnail"@, 6));
    lemma_lookup(o, "thumbnail"@, 6);
    assert(is_first(o, "created_at"@, 7));
    lemma_lookup(o, "created_at"@, 7);
    assert(is_first(o, "downloads"@, 8));
    lemma_lookup(o, "downloads"@, 8);
    assert(is_first(o, "license"@, 9));
    lemma_lookup(o, "license"@, 9);
    assert(is_first(o, "donate"@, 10));
    lemma_lookup(o, "donate"@, 10);
    assert(is_first(o, "members"@, 11));
    lemma_lookup(o, "members"@, 11);
    assert(is_first(o, "files"@, 12));
    lemma_lookup(o, "files"@, 12);
    assert(is_first(o, "versions"@, 13));
    lemma_lookup(o, "versions"@, 13);
    assert(is_first(o, "description"@, 14));
    lemma_lookup(o, "description"@, 14);
    assert(is_first(o, "last_fetch"@, 15));
    lemma_lookup(o, "last_fetch"@, 15);
    assert(is_first(o, "download"@, 16));
    lemma_lookup(o, "download"@, 16);
}

/// The round trip of a project: a project that has each key of its mappings
/// once, and whose URLs and versions read back as themselves, is, written as a
/// document and read from it, the same project.
pub proof fn lemma_project_round_trip(p: ProjectModel)
    requires
        p.wf(),
        p.canonical(),
    ensures
        project_of(project_json(p)) == Ok::<ProjectModel, DecodeErrorModel>(p),
{
    lemma_project_fields(p);
    lemma_natural_round_trip(p.id as nat, u32::MAX as nat);
    lemma_urls_round_trip(p.urls);
    lemma_metric_round_trip(p.downloads);
    lemma_members_round_trip(p.members);
    lemma_files_round_trip(p.files);
    lemma_versions_round_trip(p.versions);
    lemma_file_round_trip(p.latest_file);
}

} // verus!
