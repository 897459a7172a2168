//! A second search index, which takes plain documents in batches.

use vstd::prelude::*;
use crate::chunks::{chunk_count, chunk_of, split_chunks};
use crate::db::LinkView;
use crate::elastic::{path_file_name, ElasticLink};

verus! {

/// Number of documents that go to the index in one batch.
pub const ADD_BATCH_SIZE: usize = 5000;

/// Number of identifiers that one request for deletion carries.
pub const REMOVE_BATCH_SIZE: usize = 100;

/// What this index holds of a link.
#[derive(Debug, PartialEq, Eq)]
pub struct Link {
    /// Identifier of the link in the store.
    pub id: String,
    /// Name of the file, for display.
    pub filename: String,
    /// Address of the file.
    pub url: String,
}

/// A [`Link`] as contracts see it.
pub struct DocumentView {
    pub id: Seq<char>,
    pub filename: Seq<char>,
    pub url: Seq<char>,
}

impl View for Link {
    type V = DocumentView;

    open spec fn view(&self) -> DocumentView {
        DocumentView { id: self.id@, filename: self.filename@, url: self.url@ }
    }
}

impl DeepView for Link {
    type V = DocumentView;

    open spec fn deep_view(&self) -> DocumentView {
        self@
    }
}

impl Link {
    /// The document for a stored link whose address has a file name.
    pub open spec fn of(link: LinkView) -> DocumentView
        recommends
            ElasticLink::has_projection(link),
    {
        DocumentView { id: link.id->0, filename: path_file_name(link.url)->0, url: link.url }
    }

    /// The document for a stored link.
    pub fn from(link: crate::db::Link) -> (document: Link)
        requires
            ElasticLink::has_projection(link@),
        ensures
            document@ == Self::of(link@),
    {
        let entry = ElasticLink::from(link);
        Link { id: entry.id, filename: entry.filename, url: entry.url }
    }

    /// The document for a link, if the link was stored and its address has a
    /// file name.
    pub fn project(link: crate::db::Link) -> (document: Option<Link>)
        ensures
            document.deep_view() == if ElasticLink::has_projection(link@) {
                Some(Self::of(link@))
            } else {
                None
            },
    {
        if ElasticLink::projects(&link) {
            Some(Self::from(link))
        } else {
            None
        }
    }

    /// The identifier under which the index files the document.
    pub fn get_uid(&self) -> (uid: &String)
        ensures
            uid@ == self@.id,
    {
        &self.id
    }
}

/// The batches in which `links` go to the index: [`ADD_BATCH_SIZE`]
/// documents in each, in order.
pub fn add_links(links: Vec<Link>) -> (batches: Vec<Vec<Link>>)
    ensures
        batches@.len() == chunk_count(links@.len(), ADD_BATCH_SIZE as nat),
        forall|k: int|
            0 <= k < batches@.len() ==> (#[trigger] batches@[k])@ == chunk_of(
                links@,
                ADD_BATCH_SIZE as nat,
                k,
            ),
{
    split_chunks(links, ADD_BATCH_SIZE)
}

/// The batches in which the documents with the identifiers `ids` are taken
/// out of the index: [`REMOVE_BATCH_SIZE`] identifiers in each, in order.
pub fn remove_links(ids: Vec<String>) -> (batches: Vec<Vec<String>>)
    ensures
        batches@.len() == chunk_count(ids@.len(), REMOVE_BATCH_SIZE as nat),
        forall|k: int|
            0 <= k < batches@.len() ==> (#[trigger] batches@[k])@ == chunk_of(
                ids@,
                REMOVE_BATCH_SIZE as nat,
                k,
            ),
{
    split_chunks(ids, REMOVE_BATCH_SIZE)
}

/// What the index says of a batch that it took.
#[derive(Debug, PartialEq, Eq)]
pub enum UpdateStatus {
    /// The index could not be asked.
    Unknown,
    /// The batch waits to be worked on.
    Enqueued,
    /// The batch was worked on, with this error if one occurred.
    Processed(Option<String>),
}

/// Whether the wait for a batch is over: it is once the index has worked on
/// the batch, whether or not that ended in an error.
pub fn update_is_done(status: &UpdateStatus) -> (done: bool)
    ensures
        done == (*status is Processed),
{
    match status {
        UpdateStatus::Processed(_) => true,
        _ => false,
    }
}

} // verus!
