use cfwidget::decode::{
    find, read_body, read_file, read_member, read_metric, read_natural, read_project, read_stream,
    read_text, read_texts, read_url, read_urls, read_version, read_versions,
};
use cfwidget::encode::{write_file, write_project};
use cfwidget::error::{DecodeError, DecodeFault, Step};
use cfwidget::json::Json;
use cfwidget::link::Url;
use cfwidget::types::{
    DownloadsMetric, NamedUrl, Project, ProjectFile, ProjectMember, ReleaseStream, VersionFiles,
};
use cfwidget::version::Version;

fn text(t: &str) -> Json {
    Json::Text(String::from(t))
}

fn number(t: &str) -> Json {
    Json::Number(String::from(t))
}

fn object(members: Vec<(&str, Json)>) -> Json {
    Json::Object(members.into_iter().map(|(k, v)| (String::from(k), v)).collect())
}

fn key(k: &str) -> Step {
    Step::Key(String::from(k))
}

fn file_document(id: &str, stream: &str, size: &str, url: &str) -> Json {
    object(vec![
        ("id", number(id)),
        ("url", text(url)),
        ("display", text("Xaero's Minimap v20.2.0 for Forge 1.15.2")),
        ("name", text("Xaeros_Minimap_20.2.0_Forge_1.15.2.jar")),
        ("type", text(stream)),
        ("version", text("1.15.2")),
        ("filesize", number(size)),
        ("versions", Json::Array(vec![text("1.15.2"), text("Forge")])),
        ("downloads", number("12")),
        ("uploaded_at", text("2020-02-01T10:00:00.000Z")),
    ])
}

fn sample_file(id: u32, stream: ReleaseStream, size: u128) -> ProjectFile {
    ProjectFile {
        id,
        url: Url::parse("https://www.curseforge.com/minecraft/mc-mods/xaeros-minimap/files/1")
            .unwrap(),
        friendly_name: String::from("Xaero's Minimap v20.2.0 for Forge 1.15.2"),
        file_name: String::from("Xaeros_Minimap_20.2.0_Forge_1.15.2.jar"),
        stream,
        version: Version::parse("1.15.2").unwrap(),
        file_size: size,
        versions: vec![String::from("1.15.2"), String::from("Forge")],
        downloads: 12,
        uploaded_at: String::from("2020-02-01T10:00:00.000Z"),
    }
}

const FILE_URL: &str = "https://www.curseforge.com/minecraft/mc-mods/xaeros-minimap/files/1";

fn project_document() -> Json {
    object(vec![
        ("id", number("263420")),
        ("title", text("Xaero's Minimap")),
        ("summary", text("Displays the world nearby")),
        ("game", text("minecraft")),
        ("type", text("mc-mods")),
        (
            "urls",
            object(vec![
                ("curseforge", text("https://www.curseforge.com/minecraft/mc-mods/xaeros-minimap")),
                ("project", text("https://minecraft.curseforge.com/projects/263420")),
            ]),
        ),
        ("thumbnail", text("https://media.forgecdn.net/avatars/92/854/636258666554688823.png")),
        ("created_at", text("2017-03-22T13:51:59.000Z")),
        ("downloads", object(vec![("monthly", number("100")), ("total", number("5000"))])),
        ("license", text("All Rights Reserved")),
        ("donate", text("")),
        (
            "members",
            Json::Array(vec![object(vec![("title", text("Owner")), ("username", text("xaero96"))])]),
        ),
        (
            "files",
            Json::Array(vec![
                file_document("1", "release", "543210", FILE_URL),
                file_document("2", "beta", "18446744073709551616", FILE_URL),
            ]),
        ),
        (
            "versions",
            object(vec![
                ("1.15.2", Json::Array(vec![file_document("1", "release", "543210", FILE_URL)])),
                ("1.16.0", Json::Array(vec![])),
            ]),
        ),
        ("description", text("<p>A minimap</p>")),
        ("last_fetch", text("2020-02-02T00:00:00.000Z")),
        ("download", file_document("1", "release", "543210", FILE_URL)),
    ])
}

fn sample_project() -> Project {
    Project {
        id: 263420,
        title: String::from("Xaero's Minimap"),
        summary: String::from("Displays the world nearby"),
        game: String::from("minecraft"),
        project_type: String::from("mc-mods"),
        urls: vec![
            NamedUrl {
                name: String::from("curseforge"),
                url: Url::parse("https://www.curseforge.com/minecraft/mc-mods/xaeros-minimap")
                    .unwrap(),
            },
            NamedUrl {
                name: String::from("project"),
                url: Url::parse("https://minecraft.curseforge.com/projects/263420").unwrap(),
            },
        ],
        thumbnail: Url::parse("https://media.forgecdn.net/avatars/92/854/636258666554688823.png")
            .unwrap(),
        created_at: String::from("2017-03-22T13:51:59.000Z"),
        downloads: DownloadsMetric { monthly: 100, total: 5000 },
        license: String::from("All Rights Reserved"),
        donate: String::from(""),
        members: vec![ProjectMember {
            title: String::from("Owner"),
            username: String::from("xaero96"),
        }],
        files: vec![
            sample_file(1, ReleaseStream::Release, 543210),
            sample_file(2, ReleaseStream::Beta, 18446744073709551616),
        ],
        versions: vec![
            VersionFiles {
                version: Version::parse("1.15.2").unwrap(),
                files: vec![sample_file(1, ReleaseStream::Release, 543210)],
            },
            VersionFiles { version: Version::parse("1.16.0").unwrap(), files: vec![] },
        ],
        description: String::from("<p>A minimap</p>"),
        last_fetch: String::from("2020-02-02T00:00:00.000Z"),
        latest_file: sample_file(1, ReleaseStream::Release, 543210),
    }
}

fn replace(j: Json, k: &str, v: Json) -> Json {
    match j {
        Json::Object(members) => Json::Object(
            members.into_iter().map(|(n, x)| if n == k { (n, v.duplicate()) } else { (n, x) }).collect(),
        ),
        other => other,
    }
}

fn without(j: Json, k: &str) -> Json {
    match j {
        Json::Object(members) => Json::Object(members.into_iter().filter(|(n, _)| n != k).collect()),
        other => other,
    }
}

fn failed(fault: DecodeFault, path: Vec<Step>) -> DecodeError {
    DecodeError { fault, path }
}

#[test]
fn find_takes_the_first_member_with_the_key() {
    let j = object(vec![("a", number("1")), ("b", number("2")), ("a", number("3"))]);
    assert_eq!(find(&j, "a"), Some(&number("1")));
    assert_eq!(find(&j, "b"), Some(&number("2")));
    assert_eq!(find(&j, "c"), None);
    assert_eq!(find(&object(vec![]), "a"), None);
}

#[test]
fn text_is_read_from_a_text_only() {
    assert_eq!(read_text(&text("hello")), Ok(String::from("hello")));
    assert_eq!(read_text(&number("1")), Err(failed(DecodeFault::Mismatch, vec![])));
    assert_eq!(read_text(&Json::Null), Err(failed(DecodeFault::Mismatch, vec![])));
}

#[test]
fn number_is_read_within_its_range() {
    assert_eq!(read_natural(&number("4294967295"), 4294967295), Ok(4294967295));
    assert_eq!(
        read_natural(&number("4294967296"), 4294967295),
        Err(failed(DecodeFault::Mismatch, vec![]))
    );
    assert_eq!(read_natural(&number("-1"), 4294967295), Err(failed(DecodeFault::Mismatch, vec![])));
    assert_eq!(read_natural(&number("1.0"), 4294967295), Err(failed(DecodeFault::Mismatch, vec![])));
    assert_eq!(read_natural(&text("1"), 4294967295), Err(failed(DecodeFault::Mismatch, vec![])));
}

#[test]
fn url_is_read_from_a_text_that_is_one() {
    assert_eq!(read_url(&text("https://example.com")).unwrap().as_str(), "https://example.com/");
    assert_eq!(read_url(&text("not a url")), Err(failed(DecodeFault::BadUrl, vec![])));
    assert_eq!(read_url(&text("")), Err(failed(DecodeFault::BadUrl, vec![])));
    assert_eq!(read_url(&number("1")), Err(failed(DecodeFault::Mismatch, vec![])));
}

#[test]
fn version_is_read_from_a_text_that_is_one() {
    assert_eq!(read_version(&text("1.2.3")), Ok(Version::parse("1.2.3").unwrap()));
    assert_eq!(read_version(&text("1.2")), Err(failed(DecodeFault::BadVersion, vec![])));
    assert_eq!(read_version(&Json::Bool(true)), Err(failed(DecodeFault::Mismatch, vec![])));
}

#[test]
fn stream_is_read_from_its_name() {
    assert_eq!(read_stream(&text("release")), Ok(ReleaseStream::Release));
    assert_eq!(read_stream(&text("beta")), Ok(ReleaseStream::Beta));
    assert_eq!(read_stream(&text("alpha")), Err(failed(DecodeFault::UnknownStream, vec![])));
    assert_eq!(read_stream(&Json::Null), Err(failed(DecodeFault::Mismatch, vec![])));
}

#[test]
fn texts_are_read_in_order() {
    let j = Json::Array(vec![text("a"), text("b")]);
    assert_eq!(read_texts(&j), Ok(vec![String::from("a"), String::from("b")]));
    assert_eq!(read_texts(&Json::Array(vec![])), Ok(vec![]));
    let bad = Json::Array(vec![text("a"), number("1"), Json::Null]);
    assert_eq!(read_texts(&bad), Err(failed(DecodeFault::Mismatch, vec![Step::Index(1)])));
    assert_eq!(read_texts(&text("a")), Err(failed(DecodeFault::Mismatch, vec![])));
}

#[test]
fn member_is_read_from_its_two_fields() {
    let j = object(vec![("username", text("xaero96")), ("title", text("Owner")), ("extra", Json::Null)]);
    assert_eq!(
        read_member(&j),
        Ok(ProjectMember { title: String::from("Owner"), username: String::from("xaero96") })
    );
    let missing = object(vec![("title", text("Owner"))]);
    assert_eq!(read_member(&missing), Err(failed(DecodeFault::Missing, vec![key("username")])));
    assert_eq!(read_member(&Json::Array(vec![])), Err(failed(DecodeFault::Mismatch, vec![])));
}

#[test]
fn metric_is_read_from_its_two_counts() {
    let j = object(vec![("monthly", number("18446744073709551615")), ("total", number("0"))]);
    assert_eq!(read_metric(&j), Ok(DownloadsMetric { monthly: 18446744073709551615, total: 0 }));
    let over = object(vec![("monthly", number("18446744073709551616")), ("total", number("0"))]);
    assert_eq!(read_metric(&over), Err(failed(DecodeFault::Mismatch, vec![key("monthly")])));
}

#[test]
fn file_is_read_under_its_wire_names() {
    let j = file_document("1", "release", "543210", FILE_URL);
    assert_eq!(read_file(&j), Ok(sample_file(1, ReleaseStream::Release, 543210)));
}

#[test]
fn file_stream_release_and_beta_are_read() {
    let release = read_file(&file_document("1", "release", "1", FILE_URL)).unwrap();
    assert_eq!(release.stream, ReleaseStream::Release);
    let beta = read_file(&file_document("1", "beta", "1", FILE_URL)).unwrap();
    assert_eq!(beta.stream, ReleaseStream::Beta);
}

#[test]
fn file_stream_alpha_is_refused() {
    let j = file_document("1", "alpha", "1", FILE_URL);
    assert_eq!(read_file(&j), Err(failed(DecodeFault::UnknownStream, vec![key("type")])));
}

#[test]
fn file_size_beyond_64_bits_is_kept() {
    let j = file_document("1", "release", "18446744073709551616", FILE_URL);
    assert_eq!(read_file(&j).unwrap().file_size, 18446744073709551616u128);
    let largest = file_document("1", "release", "340282366920938463463374607431768211455", FILE_URL);
    assert_eq!(read_file(&largest).unwrap().file_size, u128::MAX);
    let over = file_document("1", "release", "340282366920938463463374607431768211456", FILE_URL);
    assert_eq!(read_file(&over), Err(failed(DecodeFault::Mismatch, vec![key("filesize")])));
}

#[test]
fn file_with_a_malformed_url_is_refused() {
    let j = file_document("1", "release", "1", "not a url");
    assert_eq!(read_file(&j), Err(failed(DecodeFault::BadUrl, vec![key("url")])));
}

#[test]
fn file_reports_the_first_field_that_fails() {
    let j = file_document("-1", "alpha", "x", "not a url");
    assert_eq!(read_file(&j), Err(failed(DecodeFault::Mismatch, vec![key("id")])));
    let j = file_document("1", "alpha", "1", "not a url");
    assert_eq!(read_file(&j), Err(failed(DecodeFault::BadUrl, vec![key("url")])));
}

#[test]
fn urls_are_read_each_name_once() {
    let j = object(vec![
        ("a", text("https://a.example/1")),
        ("b", text("https://b.example/")),
        ("a", text("https://a.example/2")),
    ]);
    let urls = read_urls(&j).unwrap();
    assert_eq!(
        urls,
        vec![
            NamedUrl { name: String::from("a"), url: Url::parse("https://a.example/2").unwrap() },
            NamedUrl { name: String::from("b"), url: Url::parse("https://b.example/").unwrap() },
        ]
    );
    let bad = object(vec![("a", text("https://a.example/1")), ("b", text("nope"))]);
    assert_eq!(read_urls(&bad), Err(failed(DecodeFault::BadUrl, vec![key("b")])));
}

#[test]
fn versions_are_read_by_their_keys() {
    let j = object(vec![
        ("1.10.0", Json::Array(vec![])),
        ("1.2.0", Json::Array(vec![file_document("7", "beta", "1", FILE_URL)])),
    ]);
    let versions = read_versions(&j).unwrap();
    assert_eq!(versions.len(), 2);
    assert_eq!(versions[0].version, Version::parse("1.10.0").unwrap());
    assert_eq!(versions[0].files, vec![]);
    assert_eq!(versions[1].version, Version::parse("1.2.0").unwrap());
    assert_eq!(versions[1].files, vec![sample_file(7, ReleaseStream::Beta, 1)]);
    let bad_key = object(vec![("latest", Json::Array(vec![]))]);
    assert_eq!(read_versions(&bad_key), Err(failed(DecodeFault::BadVersion, vec![key("latest")])));
    let bad_file = object(vec![(
        "1.2.0",
        Json::Array(vec![file_document("7", "beta", "1", FILE_URL), file_document("8", "gamma", "1", FILE_URL)]),
    )]);
    assert_eq!(
        read_versions(&bad_file),
        Err(failed(DecodeFault::UnknownStream, vec![key("1.2.0"), Step::Index(1), key("type")]))
    );
}

#[test]
fn project_is_read_under_its_wire_names() {
    assert_eq!(read_project(&project_document()), Ok(sample_project()));
}

#[test]
fn project_passes_over_members_it_does_not_know() {
    let mut j = project_document();
    if let Json::Object(members) = &mut j {
        members.insert(0, (String::from("unknown"), Json::Null));
    }
    assert_eq!(read_project(&j), Ok(sample_project()));
}

#[test]
fn project_with_a_missing_field_is_refused() {
    for name in [
        "id", "title", "summary", "game", "type", "urls", "thumbnail", "created_at", "downloads",
        "license", "donate", "members", "files", "versions", "description", "last_fetch", "download",
    ] {
        let j = without(project_document(), name);
        assert_eq!(read_project(&j), Err(failed(DecodeFault::Missing, vec![key(name)])));
    }
}

#[test]
fn project_with_a_field_of_the_wrong_kind_is_refused() {
    let j = replace(project_document(), "title", number("1"));
    assert_eq!(read_project(&j), Err(failed(DecodeFault::Mismatch, vec![key("title")])));
    let j = replace(project_document(), "id", number("4294967296"));
    assert_eq!(read_project(&j), Err(failed(DecodeFault::Mismatch, vec![key("id")])));
    let j = replace(project_document(), "files", object(vec![]));
    assert_eq!(read_project(&j), Err(failed(DecodeFault::Mismatch, vec![key("files")])));
    assert_eq!(read_project(&Json::Array(vec![])), Err(failed(DecodeFault::Mismatch, vec![])));
}

#[test]
fn project_with_a_malformed_url_anywhere_is_refused() {
    let j = replace(project_document(), "thumbnail", text("not a url"));
    assert_eq!(read_project(&j), Err(failed(DecodeFault::BadUrl, vec![key("thumbnail")])));
    let j = replace(project_document(), "urls", object(vec![("project", text("not a url"))]));
    assert_eq!(read_project(&j), Err(failed(DecodeFault::BadUrl, vec![key("urls"), key("project")])));
    let bad = file_document("1", "release", "1", "not a url");
    let j = replace(project_document(), "download", bad.duplicate());
    assert_eq!(read_project(&j), Err(failed(DecodeFault::BadUrl, vec![key("download"), key("url")])));
    let list = Json::Array(vec![file_document("1", "release", "1", FILE_URL), bad.duplicate()]);
    let j = replace(project_document(), "files", list.duplicate());
    assert_eq!(
        read_project(&j),
        Err(failed(DecodeFault::BadUrl, vec![key("files"), Step::Index(1), key("url")]))
    );
    let j = replace(project_document(), "versions", object(vec![("1.0.0", list)]));
    assert_eq!(
        read_project(&j),
        Err(failed(
            DecodeFault::BadUrl,
            vec![key("versions"), key("1.0.0"), Step::Index(1), key("url")]
        ))
    );
}

#[test]
fn project_with_an_unknown_stream_in_a_file_is_refused() {
    let list = Json::Array(vec![file_document("1", "alpha", "1", FILE_URL)]);
    let j = replace(project_document(), "files", list);
    assert_eq!(
        read_project(&j),
        Err(failed(DecodeFault::UnknownStream, vec![key("files"), Step::Index(0), key("type")]))
    );
}

#[test]
fn project_does_not_ask_that_files_and_versions_agree() {
    let j = replace(project_document(), "versions", object(vec![]));
    let p = read_project(&j).unwrap();
    assert_eq!(p.files.len(), 2);
    assert_eq!(p.versions, vec![]);
}

#[test]
fn body_is_read_as_json_then_as_a_project() {
    let body = r#"{
        "id": 263420, "title": "Xaero's Minimap", "summary": "Displays the world nearby",
        "game": "minecraft", "type": "mc-mods",
        "urls": {"curseforge": "https://www.curseforge.com/minecraft/mc-mods/xaeros-minimap",
                 "project": "https://minecraft.curseforge.com/projects/263420"},
        "thumbnail": "https://media.forgecdn.net/avatars/92/854/636258666554688823.png",
        "created_at": "2017-03-22T13:51:59.000Z",
        "downloads": {"monthly": 100, "total": 5000},
        "license": "All Rights Reserved", "donate": "",
        "members": [{"title": "Owner", "username": "xaero96"}],
        "files": [], "versions": {}, "description": "<p>A minimap</p>",
        "last_fetch": "2020-02-02T00:00:00.000Z",
        "download": {"id": 1,
            "url": "https://www.curseforge.com/minecraft/mc-mods/xaeros-minimap/files/1",
            "display": "Xaero's Minimap v20.2.0 for Forge 1.15.2",
            "name": "Xaeros_Minimap_20.2.0_Forge_1.15.2.jar", "type": "release",
            "version": "1.15.2", "filesize": 543210, "versions": ["1.15.2", "Forge"],
            "downloads": 12, "uploaded_at": "2020-02-01T10:00:00.000Z"}
    }"#;
    let mut expected = sample_project();
    expected.files = vec![];
    expected.versions = vec![];
    assert_eq!(read_body(body), Ok(expected));
}

#[test]
fn body_that_is_no_json_is_refused() {
    assert_eq!(read_body("<html>"), Err(failed(DecodeFault::Syntax, vec![])));
    assert_eq!(read_body(""), Err(failed(DecodeFault::Syntax, vec![])));
    assert_eq!(read_body("[]"), Err(failed(DecodeFault::Mismatch, vec![])));
    assert_eq!(read_body("{}"), Err(failed(DecodeFault::Missing, vec![key("id")])));
}

#[test]
fn file_is_written_under_its_wire_names() {
    let j = write_file(&sample_file(1, ReleaseStream::Release, 543210));
    assert_eq!(j, file_document("1", "release", "543210", FILE_URL));
}

#[test]
fn project_is_written_under_its_wire_names() {
    assert_eq!(write_project(&sample_project()), project_document());
}

#[test]
fn project_written_then_read_is_the_project() {
    let p = sample_project();
    assert_eq!(read_project(&write_project(&p)), Ok(p));
}

#[test]
fn document_read_then_written_then_read_is_the_same_project() {
    let first = read_project(&project_document()).unwrap();
    let again = read_project(&write_project(&first)).unwrap();
    assert_eq!(first, again);
}
