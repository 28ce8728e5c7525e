use cfwidget::decode::{put_files, put_url, read_files, read_members};
use cfwidget::encode::{write_files, write_member, write_members, write_metric, write_texts, write_urls, write_versions};
use cfwidget::error::{DecodeError, DecodeFault, Step};
use cfwidget::json::Json;
use cfwidget::link::Url;
use cfwidget::types::{
    DownloadsMetric, NamedUrl, Project, ProjectFile, ProjectMember, ReleaseStream, VersionFiles,
};
use cfwidget::validity::{files_are_canonical, names_distinct, versions_distinct};
use cfwidget::version::Version;

fn text(t: &str) -> Json {
    Json::Text(String::from(t))
}

fn number(t: &str) -> Json {
    Json::Number(String::from(t))
}

fn object(members: Vec<(&str, Json)>) -> Json {
    Json::Object(members.into_iter().map(|(k, v)| (String::from(k), v)).collect())
}

fn named(name: &str, url: &str) -> NamedUrl {
    NamedUrl { name: String::from(name), url: Url::parse(url).unwrap() }
}

fn file(id: u32) -> ProjectFile {
    ProjectFile {
        id,
        url: Url::parse("https://example.com/file").unwrap(),
        friendly_name: String::from("File"),
        file_name: String::from("file.jar"),
        stream: ReleaseStream::Beta,
        version: Version::parse("1.0.0-rc.1").unwrap(),
        file_size: 7,
        versions: vec![],
        downloads: 0,
        uploaded_at: String::from("2020-01-01T00:00:00.000Z"),
    }
}

fn file_document(id: &str) -> Json {
    object(vec![
        ("id", number(id)),
        ("url", text("https://example.com/file")),
        ("display", text("File")),
        ("name", text("file.jar")),
        ("type", text("beta")),
        ("version", text("1.0.0-rc.1")),
        ("filesize", number("7")),
        ("versions", Json::Array(vec![])),
        ("downloads", number("0")),
        ("uploaded_at", text("2020-01-01T00:00:00.000Z")),
    ])
}

fn project() -> Project {
    Project {
        id: 1,
        title: String::from("T"),
        summary: String::from("S"),
        game: String::from("minecraft"),
        project_type: String::from("mc-mods"),
        urls: vec![named("a", "https://a.example/"), named("b", "https://b.example/")],
        thumbnail: Url::parse("https://example.com/t.png").unwrap(),
        created_at: String::from("2020-01-01T00:00:00.000Z"),
        downloads: DownloadsMetric::default(),
        license: String::from("MIT"),
        donate: String::from(""),
        members: vec![ProjectMember::default()],
        files: vec![file(1), file(2)],
        versions: vec![
            VersionFiles { version: Version::parse("1.2.0").unwrap(), files: vec![file(1)] },
            VersionFiles { version: Version::parse("1.10.0").unwrap(), files: vec![file(2)] },
        ],
        description: String::from("D"),
        last_fetch: String::from("2020-01-02T00:00:00.000Z"),
        latest_file: file(2),
    }
}

#[test]
fn defaults_are_empty() {
    assert_eq!(DownloadsMetric::default(), DownloadsMetric { monthly: 0, total: 0 });
    assert_eq!(
        ProjectMember::default(),
        ProjectMember { title: String::new(), username: String::new() }
    );
}

#[test]
fn release_comes_before_beta() {
    assert!(ReleaseStream::Release < ReleaseStream::Beta);
    assert!(DownloadsMetric { monthly: 1, total: 0 } > DownloadsMetric { monthly: 0, total: 9 });
}

#[test]
fn put_url_adds_a_new_name_at_the_end() {
    let mut list = vec![named("a", "https://a.example/")];
    put_url(&mut list, String::from("b"), Url::parse("https://b.example/").unwrap());
    assert_eq!(list, vec![named("a", "https://a.example/"), named("b", "https://b.example/")]);
}

#[test]
fn put_url_replaces_the_url_of_a_name_it_has() {
    let mut list = vec![named("a", "https://a.example/"), named("b", "https://b.example/")];
    put_url(&mut list, String::from("a"), Url::parse("https://c.example/").unwrap());
    assert_eq!(list, vec![named("a", "https://c.example/"), named("b", "https://b.example/")]);
    assert!(names_distinct(&list));
}

#[test]
fn put_files_adds_or_replaces_by_version() {
    let mut list: Vec<VersionFiles> = vec![];
    put_files(&mut list, Version::parse("1.0.0").unwrap(), vec![file(1)]);
    put_files(&mut list, Version::parse("1.0.1").unwrap(), vec![]);
    put_files(&mut list, Version::parse("1.0.0").unwrap(), vec![file(2), file(3)]);
    assert_eq!(
        list,
        vec![
            VersionFiles { version: Version::parse("1.0.0").unwrap(), files: vec![file(2), file(3)] },
            VersionFiles { version: Version::parse("1.0.1").unwrap(), files: vec![] },
        ]
    );
    assert!(versions_distinct(&list));
}

#[test]
fn put_files_tells_versions_apart_by_build_metadata() {
    let mut list: Vec<VersionFiles> = vec![];
    put_files(&mut list, Version::parse("1.0.0+a").unwrap(), vec![]);
    put_files(&mut list, Version::parse("1.0.0+b").unwrap(), vec![]);
    assert_eq!(list.len(), 2);
}

#[test]
fn names_that_come_twice_are_found() {
    assert!(names_distinct(&vec![]));
    assert!(names_distinct(&vec![named("a", "https://x.example/"), named("b", "https://x.example/")]));
    assert!(!names_distinct(&vec![
        named("a", "https://x.example/"),
        named("b", "https://y.example/"),
        named("a", "https://z.example/"),
    ]));
}

#[test]
fn versions_that_come_twice_are_found() {
    let entry = |v: &str| VersionFiles { version: Version::parse(v).unwrap(), files: vec![] };
    assert!(versions_distinct(&vec![entry("1.0.0"), entry("1.0.1")]));
    assert!(!versions_distinct(&vec![entry("1.0.0"), entry("1.0.1"), entry("1.0.0")]));
}

#[test]
fn project_that_was_built_well_passes_its_tests() {
    let p = project();
    assert!(p.is_wf());
    assert!(p.is_canonical());
    assert!(files_are_canonical(&p.files));
    assert!(p.latest_file.is_canonical());
}

#[test]
fn project_with_a_name_twice_is_not_well_formed() {
    let mut p = project();
    p.urls.push(named("a", "https://other.example/"));
    assert!(!p.is_wf());
    let mut p = project();
    p.versions.push(VersionFiles { version: Version::parse("1.2.0").unwrap(), files: vec![] });
    assert!(!p.is_wf());
}

#[test]
fn project_with_a_version_that_is_none_is_not_canonical() {
    let mut p = project();
    p.files[1].version.pre = String::from("..");
    assert!(!p.is_canonical());
    assert!(!files_are_canonical(&p.files));
    let mut p = project();
    p.versions[0].version.build = String::from("a b");
    assert!(!p.is_canonical());
    let mut p = project();
    p.versions[1].files[0].version.pre = String::from("01");
    assert!(!p.is_canonical());
    let mut p = project();
    p.latest_file.version.pre = String::from("?");
    assert!(!p.is_canonical());
}

#[test]
fn members_are_read_in_order() {
    let j = Json::Array(vec![
        object(vec![("title", text("Owner")), ("username", text("a"))]),
        object(vec![("title", text("Author")), ("username", text("b"))]),
    ]);
    assert_eq!(
        read_members(&j),
        Ok(vec![
            ProjectMember { title: String::from("Owner"), username: String::from("a") },
            ProjectMember { title: String::from("Author"), username: String::from("b") },
        ])
    );
    let bad = Json::Array(vec![
        object(vec![("title", text("Owner")), ("username", text("a"))]),
        object(vec![("title", Json::Null), ("username", text("b"))]),
    ]);
    assert_eq!(
        read_members(&bad),
        Err(DecodeError {
            fault: DecodeFault::Mismatch,
            path: vec![Step::Index(1), Step::Key(String::from("title"))],
        })
    );
}

#[test]
fn files_are_read_in_order() {
    let j = Json::Array(vec![file_document("1"), file_document("2")]);
    assert_eq!(read_files(&j), Ok(vec![file(1), file(2)]));
    let bad = Json::Array(vec![file_document("1"), Json::Null]);
    assert_eq!(
        read_files(&bad),
        Err(DecodeError { fault: DecodeFault::Mismatch, path: vec![Step::Index(1)] })
    );
    assert_eq!(
        read_files(&Json::Null),
        Err(DecodeError { fault: DecodeFault::Mismatch, path: vec![] })
    );
}

#[test]
fn values_are_written_as_documents() {
    assert_eq!(
        write_texts(&vec![String::from("a"), String::from("b")]),
        Json::Array(vec![text("a"), text("b")])
    );
    let owner = ProjectMember { title: String::from("Owner"), username: String::from("a") };
    let owner_document = object(vec![("title", text("Owner")), ("username", text("a"))]);
    assert_eq!(write_member(&owner), owner_document);
    assert_eq!(write_members(&vec![owner]), Json::Array(vec![owner_document]));
    assert_eq!(
        write_metric(&DownloadsMetric { monthly: 3, total: 18446744073709551615 }),
        object(vec![("monthly", number("3")), ("total", number("18446744073709551615"))])
    );
    assert_eq!(write_files(&vec![file(1), file(2)]), Json::Array(vec![file_document("1"), file_document("2")]));
    assert_eq!(
        write_urls(&vec![named("b", "https://b.example"), named("a", "https://a.example/x")]),
        object(vec![("b", text("https://b.example/")), ("a", text("https://a.example/x"))])
    );
    assert_eq!(
        write_versions(&vec![VersionFiles {
            version: Version::parse("1.10.0+meta").unwrap(),
            files: vec![file(1)],
        }]),
        object(vec![("1.10.0+meta", Json::Array(vec![file_document("1")]))])
    );
}

#[test]
fn error_is_seen_from_further_out_step_by_step() {
    let e = DecodeError::here(DecodeFault::BadUrl);
    assert_eq!(e, DecodeError { fault: DecodeFault::BadUrl, path: vec![] });
    let e = e.under(Step::Key(String::from("url"))).under(Step::Index(3));
    assert_eq!(
        e,
        DecodeError {
            fault: DecodeFault::BadUrl,
            path: vec![Step::Index(3), Step::Key(String::from("url"))],
        }
    );
}

#[test]
fn document_is_copied_whole() {
    let j = object(vec![
        ("a", Json::Array(vec![number("1"), Json::Null, Json::Bool(false)])),
        ("b", object(vec![("c", text("d"))])),
    ]);
    assert_eq!(j.duplicate(), j);
    assert_eq!(j.clone(), j);
}
