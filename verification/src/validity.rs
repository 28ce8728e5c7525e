//! Testing a project for what the contracts ask of it.

use crate::types::{
    distinct_keys, file_canonical, files_canonical, files_model, urls_model, versions_model,
    NamedUrl, Project, ProjectFile, VersionFiles,
};
use vstd::prelude::*;

verus! {

/// Tests whether each name stands once in a list of named URLs.
pub fn names_distinct(urls: &Vec<NamedUrl>) -> (r: bool)
    ensures
        r == distinct_keys(urls_model(urls@)),
{
    let ghost keys = urls_model(urls@);
    let mut j: usize = 0;
    while j < urls.len()
        invariant
            0 <= j <= urls@.len(),
            keys == urls_model(urls@),
            forall|a: int, b: int| 0 <= a < b < j ==> (#[trigger] keys[a]).0 != (#[trigger] keys[b]).0,
        decreases urls@.len() - j,
    {
        let mut i: usize = 0;
        while i < j
            invariant
                0 <= i <= j < urls@.len(),
                keys == urls_model(urls@),
                forall|a: int| 0 <= a < i ==> (#[trigger] keys[a]).0 != keys[j as int].0,
            decreases j - i,
        {
            if urls[i].name == urls[j].name {
                assert(keys[i as int].0 == keys[j as int].0);
                return false;
            }
            i = i + 1;
        }
        j = j + 1;
    }
    true
}

/// Tests whether each version stands once in a list of files by version.
pub fn versions_distinct(versions: &Vec<VersionFiles>) -> (r: bool)
    ensures
        r == distinct_keys(versions_model(versions@)),
{
    let ghost keys = versions_model(versions@);
    let mut j: usize = 0;
    while j < versions.len()
        invariant
            0 <= j <= versions@.len(),
            keys == versions_model(versions@),
            forall|a: int, b: int| 0 <= a < b < j ==> (#[trigger] keys[a]).0 != (#[trigger] keys[b]).0,
        decreases versions@.len() - j,
    {
        let mut i: usize = 0;
        while i < j
            invariant
                0 <= i <= j < versions@.len(),
                keys == versions_model(versions@),
                forall|a: int| 0 <= a < i ==> (#[trigger] keys[a]).0 != keys[j as int].0,
            decreases j - i,
        {
            if versions[i].version.same(&versions[j].version) {
                assert(keys[i as int].0 == keys[j as int].0);
                return false;
            }
            i = i + 1;
        }
        j = j + 1;
    }
    true
}

/// Tests whether every file of a list reads back as itself.
pub fn files_are_canonical(files: &Vec<ProjectFile>) -> (r: bool)
    ensures
        r == files_canonical(files_model(files@)),
{
    let ghost models = files_model(files@);
    let mut i: usize = 0;
    while i < files.len()
        invariant
            0 <= i <= files@.len(),
            models == files_model(files@),
            forall|k: int| 0 <= k < i ==> file_canonical(#[trigger] models[k]),
        decreases files@.len() - i,
    {
        if !files[i].is_canonical() {
            assert(!file_canonical(models[i as int]));
            return false;
        }
        i = i + 1;
    }
    true
}

impl ProjectFile {
    /// Tests whether the URL and the version of the file read back as
    /// themselves.
    pub fn is_canonical(&self) -> (r: bool)
        ensures
            r == file_canonical(self@),
    {
        self.url.is_canonical() && self.version.is_canonical()
    }
}

impl Project {
    /// Tests the invariant of a project: each mapping has each of its keys
    /// once.
    pub fn is_wf(&self) -> (r: bool)
        ensures
            r == self@.wf(),
    {
        names_distinct(&self.urls) && versions_distinct(&self.versions)
    }

    /// Tests whether every URL and every version in the project reads back as
    /// itself, which is what the round trip of a project asks for.
    pub fn is_canonical(&self) -> (r: bool)
        ensures
            r == self@.canonical(),
    {
        let ghost urls = urls_model(self.urls@);
        let mut i: usize = 0;
        while i < self.urls.len()
            invariant
                0 <= i <= self.urls@.len(),
                urls == urls_model(self.urls@),
                urls == self@.urls,
                forall|k: int| 0 <= k < i ==> crate::link::url_canonical((#[trigger] urls[k]).1),
            decreases self.urls@.len() - i,
        {
            if !self.urls[i].url.is_canonical() {
                assert(!crate::link::url_canonical(urls[i as int].1));
                return false;
            }
            i = i + 1;
        }
        if !self.thumbnail.is_canonical() {
            return false;
        }
        if !files_are_canonical(&self.files) {
            return false;
        }
        let ghost versions = versions_model(self.versions@);
        let mut k: usize = 0;
        while k < self.versions.len()
            invariant
                0 <= k <= self.versions@.len(),
                versions == versions_model(self.versions@),
                versions == self@.versions,
                forall|n: int|
                    0 <= n < k ==> crate::version::version_canonical((#[trigger] versions[n]).0)
                        && files_canonical(versions[n].1),
            decreases self.versions@.len() - k,
        {
            if !self.versions[k].version.is_canonical() {
                assert(!crate::version::version_canonical(versions[k as int].0));
                return false;
            }
            if !files_are_canonical(&self.versions[k].files) {
                assert(!files_canonical(versions[k as int].1));
                return false;
            }
            k = k + 1;
        }
        self.latest_file.is_canonical()
    }
}

} // verus!
