//! A document with a value that cannot be read does not read as a project:
//! nothing is put in the place of what cannot be read.

use crate::decimal::lemma_numeral_value;
use crate::decode::{
    at, file_of, file_reader, list_of, list_prefix, lookup, project_of, stream_named, url_of,
    urls_prefix, version_entry_of, versions_prefix,
};
use crate::encode::natural_json;
use crate::error::DecodeErrorModel;
use crate::json::JsonModel;
use crate::link::url_serialization;
use vstd::prelude::*;

verus! {

/// Whether a document is a text that is not a URL.
pub open spec fn bad_url(v: JsonModel) -> bool {
    v is Text && url_serialization(v->Text_0) is None
}

/// Whether a document is a text that names no release stream.
pub open spec fn unknown_stream(v: JsonModel) -> bool {
    v is Text && stream_named(v->Text_0) is None
}

/// Whether the object `j` has a member `key` whose value is `v`.
pub open spec fn holds(j: JsonModel, key: Seq<char>, v: JsonModel) -> bool {
    j is Object && lookup(j->Object_0, key) == Some(v)
}

/// Whether `f` is the item at place `i` of the array `list`.
pub open spec fn item_of(list: JsonModel, i: int, f: JsonModel) -> bool {
    list is Array && 0 <= i < list->Array_0.len() && list->Array_0[i] == f
}

/// Whether `v` is the value of the member at place `k` of the object `map`.
pub open spec fn value_of(map: JsonModel, k: int, v: JsonModel) -> bool {
    map is Object && 0 <= k < map->Object_0.len() && map->Object_0[k].1 == v
}

/// Whether `f` stands in the project document `j` where a file is read: among
/// the files, among the files of a version, or as the latest file.
pub open spec fn holds_file(j: JsonModel, f: JsonModel) -> bool {
    ||| holds(j, "download"@, f)
    ||| exists|list: JsonModel, i: int| holds(j, "files"@, list) && #[trigger] item_of(list, i, f)
    ||| exists|map: JsonModel, k: int, list: JsonModel, i: int|
        holds(j, "versions"@, map) && #[trigger] value_of(map, k, list) && #[trigger] item_of(
            list,
            i,
            f,
        )
}

/// Whether `v` stands in the project document `j` where a URL of the project
/// itself is read: as the thumbnail, or as the value of a named URL.
pub open spec fn holds_url(j: JsonModel, v: JsonModel) -> bool {
    ||| holds(j, "thumbnail"@, v)
    ||| exists|map: JsonModel, k: int| holds(j, "urls"@, map) && #[trigger] value_of(map, k, v)
}

/// Every item of a list that is read has been read.
pub proof fn lemma_list_items_read<T>(
    items: Seq<JsonModel>,
    n: nat,
    read: spec_fn(JsonModel) -> Result<T, DecodeErrorModel>,
    i: int,
)
    requires
        list_prefix(items, n, read) is Ok,
        0 <= i < n,
    ensures
        read(items[i]) is Ok,
    decreases n,
{
    if i < n - 1 {
        lemma_list_items_read(items, (n - 1) as nat, read, i);
    }
}

/// Every value of a mapping of URLs that is read has been read.
pub proof fn lemma_urls_items_read(m: Seq<(Seq<char>, JsonModel)>, n: nat, k: int)
    requires
        urls_prefix(m, n) is Ok,
        0 <= k < n,
    ensures
        url_of(m[k].1) is Ok,
    decreases n,
{
    if k < n - 1 {
        lemma_urls_items_read(m, (n - 1) as nat, k);
    }
}

/// Every entry of a mapping of versions that is read has been read.
pub proof fn lemma_versions_items_read(m: Seq<(Seq<char>, JsonModel)>, n: nat, k: int)
    requires
        versions_prefix(m, n) is Ok,
        0 <= k < n,
    ensures
        version_entry_of(m[k].0, m[k].1) is Ok,
    decreases n,
{
    if k < n - 1 {
        lemma_versions_items_read(m, (n - 1) as nat, k);
    }
}

/// A file document whose `url` is a text that is not a URL does not read as a
/// file.
pub proof fn lemma_bad_url_fails_file(f: JsonModel, v: JsonModel)
    requires
        holds(f, "url"@, v),
        bad_url(v),
    ensures
        file_of(f) is Err,
{
}

/// A file document whose `type` is a text other than `release` and `beta` does
/// not read as a file.
pub proof fn lemma_unknown_stream_fails_file(f: JsonModel, v: JsonModel)
    requires
        holds(f, "type"@, v),
        unknown_stream(v),
    ensures
        file_of(f) is Err,
{
}

/// A file document whose `filesize` is the numeral of a number of up to 128
/// bits reads, if it reads as a file, as a file of exactly that size.
pub proof fn lemma_file_size_kept(f: JsonModel, n: nat)
    requires
        holds(f, "filesize"@, natural_json(n)),
        n <= u128::MAX,
        file_of(f) is Ok,
    ensures
        file_of(f)->Ok_0.file_size == n,
{
    lemma_numeral_value(n);
}

/// A project document with a file that does not read as a file does not read
/// as a project.
pub proof fn lemma_file_error_fails_project(j: JsonModel, f: JsonModel)
    requires
        holds_file(j, f),
        file_of(f) is Err,
    ensures
        project_of(j) is Err,
{
    let m = j->Object_0;
    if holds(j, "download"@, f) {
    } else if exists|list: JsonModel, i: int|
        holds(j, "files"@, list) && #[trigger] item_of(list, i, f) {
        let (list, i) = choose|list: JsonModel, i: int|
            holds(j, "files"@, list) && #[trigger] item_of(list, i, f);
        let items = list->Array_0;
        if list_of(list, file_reader()) is Ok {
            lemma_list_items_read(items, items.len(), file_reader(), i);
        }
        assert(at(m, "files"@, |v: JsonModel| list_of(v, file_reader())) is Err);
    } else {
        let (map, k, list, i) = choose|map: JsonModel, k: int, list: JsonModel, i: int|
            holds(j, "versions"@, map) && #[trigger] value_of(map, k, list) && #[trigger] item_of(
                list,
                i,
                f,
            );
        let entries = map->Object_0;
        let items = list->Array_0;
        if versions_prefix(entries, entries.len()) is Ok {
            lemma_versions_items_read(entries, entries.len(), k);
            assert(list_of(list, file_reader()) is Ok);
            lemma_list_items_read(items, items.len(), file_reader(), i);
        }
        assert(at(m, "versions"@, |v: JsonModel| crate::decode::versions_of(v)) is Err);
    }
}

/// A project document whose thumbnail, or one of whose named URLs, is a text
/// that is not a URL does not read as a project.
pub proof fn lemma_bad_url_fails_project(j: JsonModel, v: JsonModel)
    requires
        holds_url(j, v),
        bad_url(v),
    ensures
        project_of(j) is Err,
{
    let m = j->Object_0;
    if holds(j, "thumbnail"@, v) {
    } else {
        let (map, k) = choose|map: JsonModel, k: int|
            holds(j, "urls"@, map) && #[trigger] value_of(map, k, v);
        let entries = map->Object_0;
        if urls_prefix(entries, entries.len()) is Ok {
            lemma_urls_items_read(entries, entries.len(), k);
        }
        assert(at(m, "urls"@, |v: JsonModel| crate::decode::urls_of(v)) is Err);
    }
}

} // verus!
