//! Scan results: the tree that a scan of a root yields, and how a scan is
//! picked and taken in.

use vstd::prelude::*;
use vstd::string::StringExecFns;
use crate::db::{Database, Link, LinkView, SaveResult};
use crate::elastic::{
    add_links_from_db, bulk_requests, extension, extension_of, index_actions, projections,
    BulkRequest, BulkRequestView, BULK_CHUNK_SIZE,
};
use crate::opt::Opt;
use crate::text::{ends_with, is_prefix, is_suffix, starts_with};

verus! {

/// A file as a scan lists it.
#[derive(Debug, PartialEq, Eq)]
pub struct OdScanFile {
    /// Address of the file.
    pub url: String,
}

impl View for OdScanFile {
    type V = Seq<char>;

    open spec fn view(&self) -> Seq<char> {
        self.url@
    }
}

impl DeepView for OdScanFile {
    type V = Seq<char>;

    open spec fn deep_view(&self) -> Seq<char> {
        self@
    }
}

impl Clone for OdScanFile {
    fn clone(&self) -> (copy: OdScanFile)
        ensures
            copy == *self,
    {
        OdScanFile { url: self.url.clone() }
    }
}

/// A directory as a scan lists it, with the directories below it.
#[derive(Debug, PartialEq, Eq)]
pub struct OdScanDirectory {
    /// Address of the directory.
    pub url: String,
    /// The directories directly below this one.
    pub subdirectories: Vec<OdScanDirectory>,
    /// The files directly in this directory, if the scan listed any.
    pub files: Option<Vec<OdScanFile>>,
}

/// The result of one scan.
#[derive(Debug, PartialEq, Eq)]
pub struct OdScanResult {
    /// The directory at which the scan began.
    pub root: OdScanDirectory,
}

/// The addresses of the files directly in `dir`.
pub open spec fn own_files(dir: OdScanDirectory) -> Seq<Seq<char>> {
    match dir.files {
        Some(files) => files.deep_view(),
        None => Seq::empty(),
    }
}

/// The addresses of all files at or below `dir`: the directory's own files
/// first, then those of each subdirectory in turn.
pub open spec fn files_below(dir: OdScanDirectory) -> Seq<Seq<char>>
    decreases dir,
{
    own_files(dir) + files_below_each(dir.subdirectories@, dir.subdirectories@.len() as int, dir)
}

/// The addresses of all files at or below the first `count` of `dirs`, which
/// are the subdirectories of `parent`.
pub open spec fn files_below_each(
    dirs: Seq<OdScanDirectory>,
    count: int,
    parent: OdScanDirectory,
) -> Seq<Seq<char>>
    decreases parent, count,
{
    if 0 < count <= dirs.len() && dirs == parent.subdirectories@ {
        files_below_each(dirs, count - 1, parent) + files_below(dirs[count - 1])
    } else {
        Seq::empty()
    }
}

/// Appends the files at or below `dir` to `files`.
fn collect_into(dir: &OdScanDirectory, files: &mut Vec<OdScanFile>)
    ensures
        final(files).deep_view() == old(files).deep_view() + files_below(*dir),
    decreases *dir,
{
    let ghost before = files.deep_view();
    match &dir.files {
        Some(own) => {
            let mut i: usize = 0;
            while i < own.len()
                invariant
                    i <= own@.len(),
                    files.deep_view() == before + own.deep_view().take(i as int),
                decreases own@.len() - i,
            {
                let ghost so_far = files.deep_view();
                let file = own[i].clone();
                files.push(file);
                assert(files.deep_view() =~= so_far.push(own.deep_view()[i as int]));
                i += 1;
                assert(own.deep_view().take(i as int) =~= own.deep_view().take(i - 1).push(
                    own.deep_view()[i - 1],
                ));
            }
            assert(own.deep_view().take(i as int) =~= own.deep_view());
        },
        None => {
            assert(files.deep_view() =~= before + own_files(*dir));
        },
    }
    let mut k: usize = 0;
    while k < dir.subdirectories.len()
        invariant
            k <= dir.subdirectories@.len(),
            files.deep_view() == before + (own_files(*dir) + files_below_each(
                dir.subdirectories@,
                k as int,
                *dir,
            )),
        decreases dir.subdirectories@.len() - k,
    {
        let ghost so_far = files.deep_view();
        collect_into(&dir.subdirectories[k], files);
        k += 1;
        assert(files.deep_view() =~= before + (own_files(*dir) + files_below_each(
            dir.subdirectories@,
            k as int,
            *dir,
        )));
    }
    assert(files.deep_view() =~= before + files_below(*dir));
}

/// All files at or below `dir`: the directory's own files first, then those
/// of each subdirectory in turn.
pub fn collect_files_recursive(dir: OdScanDirectory) -> (files: Vec<OdScanFile>)
    ensures
        files.deep_view() == files_below(dir),
{
    let mut files: Vec<OdScanFile> = Vec::new();
    assert(files.deep_view() =~= Seq::<Seq<char>>::empty());
    collect_into(&dir, &mut files);
    assert(files.deep_view() =~= files_below(dir));
    files
}

/// All files that a scan found, from the directory at which it began.
pub fn collect_files(dir: OdScanDirectory) -> (files: Vec<OdScanFile>)
    ensures
        files.deep_view() == files_below(dir),
{
    collect_files_recursive(dir)
}

/// Why a scan could not be taken in.
#[derive(Debug, PartialEq, Eq)]
pub enum ScanError {
    /// The file's name ends in an extension that no reader is known for.
    UnknownExtension(String),
}

impl ScanError {
    /// The error in words.
    pub fn message(&self) -> (text: String)
        ensures
            text@ == match *self {
                ScanError::UnknownExtension(extension) =>
                    "Got filename with unknown extension, but it was somehow collected: "@
                    + extension@,
            },
    {
        match self {
            ScanError::UnknownExtension(extension) => {
                let mut text = String::from_str(
                    "Got filename with unknown extension, but it was somehow collected: ",
                );
                text.append(extension.as_str());
                text
            },
        }
    }
}

/// Scans one open directory. The scanner is not part of the service yet:
/// nothing is scanned, and nothing fails.
pub fn scan_opendirectories() -> (done: Result<(), ScanError>)
    ensures
        done is Ok,
{
    Ok(())
}

/// An entry of a scan directory.
#[derive(Debug, PartialEq, Eq)]
pub struct ScanEntry {
    /// The entry's name, without the directory.
    pub name: String,
    /// Whether the entry is a regular file.
    pub is_file: bool,
}

/// An entry holds a scan if it is a file whose name ends in `.json` or
/// `.json.gz`. Scans of Google Drive are left alone.
pub open spec fn holds_scan(name: Seq<char>, is_file: bool) -> bool {
    is_file && (is_suffix(name, ".json"@) || is_suffix(name, ".json.gz"@)) && !is_prefix(
        name,
        "https___drive.google.com"@,
    )
}

/// Whether an entry of a scan directory holds a scan to take in.
pub fn is_scan_file(name: &str, is_file: bool) -> (is_scan: bool)
    ensures
        is_scan == holds_scan(name@, is_file),
{
    is_file && (ends_with(name, ".json") || ends_with(name, ".json.gz")) && !starts_with(
        name,
        "https___drive.google.com",
    )
}

/// One of `candidates`, picked at random.
///
/// Trusted: calls `rand::seq::SliceRandom::choose` on the slice, with the
/// generator of the thread. It returns `None` for an empty slice and else a
/// reference to one of the items; which one is left open.
#[verifier::external_body]
fn pick_one(candidates: &Vec<usize>) -> (chosen: Option<usize>)
    ensures
        candidates@.len() == 0 ==> chosen is None,
        candidates@.len() > 0 ==> chosen is Some && candidates@.contains(chosen->0),
{
    match rand::seq::SliceRandom::choose(candidates.as_slice(), &mut rand::thread_rng()) {
        Some(index) => Some(*index),
        None => None,
    }
}

/// Picks the scan to take in next: the index of one of the entries that hold
/// a scan, at random; `None` if and only if no entry holds one.
pub fn select_scan(entries: &Vec<ScanEntry>) -> (chosen: Option<usize>)
    ensures
        chosen is None <==> forall|i: int|
            0 <= i < entries@.len() ==> !holds_scan(
                (#[trigger] entries@[i]).name@,
                entries@[i].is_file,
            ),
        chosen matches Some(index) ==> index < entries@.len() && holds_scan(
            entries@[index as int].name@,
            entries@[index as int].is_file,
        ),
{
    let mut candidates: Vec<usize> = Vec::new();
    let mut i: usize = 0;
    while i < entries.len()
        invariant
            i <= entries@.len(),
            forall|k: int|
                0 <= k < candidates@.len() ==> (#[trigger] candidates@[k]) < i && holds_scan(
                    entries@[candidates@[k] as int].name@,
                    entries@[candidates@[k] as int].is_file,
                ),
            candidates@.len() == 0 ==> forall|k: int|
                0 <= k < i ==> !holds_scan((#[trigger] entries@[k]).name@, entries@[k].is_file),
        decreases entries@.len() - i,
    {
        if is_scan_file(entries[i].name.as_str(), entries[i].is_file) {
            candidates.push(i);
        }
        i += 1;
    }
    let chosen = pick_one(&candidates);
    proof {
        if candidates@.len() > 0 {
            let k = choose|k: int| 0 <= k < candidates@.len() && candidates@[k] == chosen->0;
            assert(candidates@[k] < i);
        }
    }
    chosen
}

/// How a scan file is stored.
#[derive(Debug, Clone, Copy, PartialEq, Eq, Structural)]
pub enum ScanFormat {
    /// JSON as it is.
    Json,
    /// JSON, compressed with gzip.
    Gzip,
}

/// The format that an extension stands for.
pub open spec fn format_of(extension: Option<Seq<char>>) -> Option<ScanFormat> {
    if extension == Some("json"@) {
        Some(ScanFormat::Json)
    } else if extension == Some("gz"@) {
        Some(ScanFormat::Gzip)
    } else {
        None
    }
}

/// The format of the scan file with this name, going by its extension. An
/// extension that is neither `json` nor `gz` is an error that names it; a
/// name without an extension is named as the empty extension.
pub fn scan_format(name: &str) -> (format: Result<ScanFormat, ScanError>)
    ensures
        match format_of(extension_of(name@)) {
            Some(known) => format == Ok::<ScanFormat, ScanError>(known),
            None => format matches Err(ScanError::UnknownExtension(unknown)) && unknown@
                == match extension_of(name@) {
                Some(extension) => extension,
                None => Seq::empty(),
            },
        },
{
    match extension(name) {
        Some(found) => {
            if found == String::from_str("json") {
                Ok(ScanFormat::Json)
            } else if found == String::from_str("gz") {
                Ok(ScanFormat::Gzip)
            } else {
                Err(ScanError::UnknownExtension(found))
            }
        },
        None => Err(ScanError::UnknownExtension(String::new())),
    }
}

/// The links that a scan of the root `root_url` found, as they go to the
/// store: one for each file, in order, not yet stored.
pub open spec fn scanned_links(root_url: Seq<char>, files: Seq<Seq<char>>) -> Seq<LinkView> {
    files.map_values(|url: Seq<char>| LinkView { id: None, opendirectory: root_url, url })
}

/// The links that a scan of the root `root_url` found, as they go to the
/// store.
pub fn links_of_scan(root_url: &str, files: Vec<OdScanFile>) -> (links: Vec<Link>)
    ensures
        links.deep_view() == scanned_links(root_url@, files.deep_view()),
{
    let mut links: Vec<Link> = Vec::new();
    let mut i: usize = 0;
    while i < files.len()
        invariant
            i <= files@.len(),
            links.deep_view() == scanned_links(root_url@, files.deep_view().take(i as int)),
        decreases files@.len() - i,
    {
        let ghost before = links.deep_view();
        let link = Link {
            id: None,
            opendirectory: String::from_str(root_url),
            url: files[i].url.clone(),
        };
        links.push(link);
        assert(links.deep_view() =~= before.push(
            LinkView { id: None, opendirectory: root_url@, url: files.deep_view()[i as int] },
        ));
        i += 1;
        assert(files.deep_view().take(i as int) =~= files.deep_view().take(i - 1).push(
            files.deep_view()[i - 1],
        ));
    }
    assert(files.deep_view().take(i as int) =~= files.deep_view());
    links
}

/// The links of a scan go into the index once the store has taken the scan:
/// only if it stored them, and only if the root was reachable.
pub open spec fn indexes(saved: SaveResult, is_reachable: bool) -> bool {
    saved == SaveResult::Success && is_reachable
}

/// Whether the links of a scan go into the index once the store has taken
/// the scan.
pub fn indexes_after_save(saved: SaveResult, is_reachable: bool) -> (indexes_now: bool)
    ensures
        indexes_now == indexes(saved, is_reachable),
{
    match saved {
        SaveResult::Success => is_reachable,
        _ => false,
    }
}

/// How taking a scan in ended.
#[derive(Debug, PartialEq, Eq)]
pub struct Ingested {
    /// What the store did with the scan.
    pub saved: SaveResult,
    /// The requests that put the links of the scan into the index.
    pub requests: Vec<BulkRequest>,
}

/// Takes one scan in: stores the root at which the scan began, with a link
/// for every file found at or below it, and, if the store took them and the
/// root was reachable, asks the index to take the links of the root as well.
/// The root is stored with a streak of zero either way.
pub fn process_scans(opt: &Opt, db: &mut Database, scan: OdScanResult, is_reachable: bool) -> (done:
    Ingested)
    requires
        old(db).wf(),
    ensures
        final(db).wf(),
        done.saved == old(db)@.save_outcome(scan.root.url@, files_below(scan.root)),
        final(db)@ == if done.saved == SaveResult::Success {
            old(db)@.after_save(scan.root.url@, files_below(scan.root))
        } else {
            old(db)@
        },
        done.requests.deep_view() == if indexes(done.saved, is_reachable) {
            bulk_requests(
                opt@,
                index_actions(projections(final(db)@.links_of(scan.root.url@))),
                BULK_CHUNK_SIZE as nat,
            )
        } else {
            Seq::empty()
        },
{
    let root_url = scan.root.url.clone();
    let files = collect_files(scan.root);
    let saved = db.save_scan_result(root_url.as_str(), files, is_reachable);
    let requests = if indexes_after_save(saved, is_reachable) {
        let links = db.get_links(root_url.as_str());
        add_links_from_db(opt, &links)
    } else {
        let none: Vec<BulkRequest> = Vec::new();
        assert(none.deep_view() =~= Seq::<BulkRequestView>::empty());
        none
    };
    Ingested { saved, requests }
}

} // verus!
