//! What goes to the search index: the projection of a link, bulk bodies and
//! the requests that carry them.

use vstd::prelude::*;
use crate::chunks::{
    chunk_count, chunk_of, chunks_of, lemma_chunk_len, lemma_chunk_start, lemma_chunks_flatten,
    split_chunks,
};
use crate::db::{Link, LinkView};
use crate::opt::{Opt, OptView};
use vstd::string::StringExecFns;
use crate::text::{chars_of, string_of};

verus! {

/// What the search index holds of a link.
#[derive(Debug, PartialEq, Eq)]
pub struct ElasticLink {
    /// Identifier of the link in the store; the index files the entry under it.
    pub id: String,
    /// Address of the file.
    pub url: String,
    /// Name of the file, for display.
    pub filename: String,
    /// Extension of the file's name, for display.
    pub extension: Option<String>,
}

/// An [`ElasticLink`] as contracts see it.
pub struct ElasticLinkView {
    pub id: Seq<char>,
    pub url: Seq<char>,
    pub filename: Seq<char>,
    pub extension: Option<Seq<char>>,
}

impl View for ElasticLink {
    type V = ElasticLinkView;

    open spec fn view(&self) -> ElasticLinkView {
        ElasticLinkView {
            id: self.id@,
            url: self.url@,
            filename: self.filename@,
            extension: self.extension.deep_view(),
        }
    }
}

impl DeepView for ElasticLink {
    type V = ElasticLinkView;

    open spec fn deep_view(&self) -> ElasticLinkView {
        self@
    }
}

impl Clone for ElasticLink {
    fn clone(&self) -> (copy: ElasticLink)
        ensures
            copy == *self,
    {
        ElasticLink {
            id: self.id.clone(),
            url: self.url.clone(),
            filename: self.filename.clone(),
            extension: match &self.extension {
                Some(extension) => Some(extension.clone()),
                None => None,
            },
        }
    }
}

/// The final component of `url` read as a path of the file system, as
/// `std::path::Path::file_name` gives it on the platform the library is built
/// for; `None` where the path has no such component.
pub uninterp spec fn path_file_name(url: Seq<char>) -> Option<Seq<char>>;

/// The final component of `url` read as a path.
///
/// Trusted: calls `std::path::Path::file_name` on `url`. The result is a pure
/// function of the text, which the contract names [`path_file_name`]. As the
/// path comes from a `str`, turning the component back into text loses
/// nothing.
#[verifier::external_body]
fn file_name(url: &str) -> (name: Option<String>)
    ensures
        name.deep_view() == path_file_name(url@),
{
    match std::path::Path::new(url).file_name() {
        Some(name) => Some(name.to_string_lossy().into_owned()),
        None => None,
    }
}

/// Index of the last `.` in `name`, or -1 where there is none.
pub open spec fn last_dot(name: Seq<char>) -> int
    decreases name.len(),
{
    if name.len() == 0 {
        -1
    } else if name.last() == '.' {
        name.len() - 1
    } else {
        last_dot(name.drop_last())
    }
}

/// The extension of a file name: what follows its last `.`, unless the name
/// has no `.` or only one at its very start.
pub open spec fn extension_of(name: Seq<char>) -> Option<Seq<char>> {
    if last_dot(name) <= 0 {
        None
    } else {
        Some(name.skip(last_dot(name) + 1))
    }
}

/// The extension of a file name.
pub fn extension(name: &str) -> (ext: Option<String>)
    ensures
        ext.deep_view() == extension_of(name@),
{
    let chars = chars_of(name);
    let mut end: usize = chars.len();
    assert(chars@.take(end as int) =~= chars@);
    while end > 0 && chars[end - 1] != '.'
        invariant
            end <= chars@.len(),
            last_dot(chars@) == last_dot(chars@.take(end as int)),
        decreases end,
    {
        assert(chars@.take(end as int).drop_last() =~= chars@.take(end - 1));
        end -= 1;
    }
    assert(end > 0 ==> chars@.take(end as int).last() == '.');
    if end <= 1 {
        return None;
    }
    let mut tail: Vec<char> = Vec::new();
    let mut i: usize = end;
    while i < chars.len()
        invariant
            end <= i <= chars@.len(),
            tail@ == chars@.subrange(end as int, i as int),
        decreases chars@.len() - i,
    {
        tail.push(chars[i]);
        i += 1;
        assert(chars@.subrange(end as int, i as int) =~= chars@.subrange(end as int, i - 1).push(
            chars@[i - 1],
        ));
    }
    assert(chars@.subrange(end as int, i as int) =~= chars@.skip(end as int));
    Some(string_of(&tail))
}

impl ElasticLink {
    /// The projection of a stored link whose address has a file name.
    pub open spec fn of(link: LinkView) -> ElasticLinkView
        recommends
            link.id is Some,
            path_file_name(link.url) is Some,
    {
        ElasticLinkView {
            id: link.id->0,
            url: link.url,
            filename: path_file_name(link.url)->0,
            extension: extension_of(path_file_name(link.url)->0),
        }
    }

    /// Whether a link has a projection: it must have been stored, and its
    /// address must have a file name.
    pub open spec fn has_projection(link: LinkView) -> bool {
        link.id is Some && path_file_name(link.url) is Some
    }

    /// The projection of a link, if it has one.
    pub open spec fn projection(link: LinkView) -> Option<ElasticLinkView> {
        if Self::has_projection(link) {
            Some(Self::of(link))
        } else {
            None
        }
    }

    /// The projection of a link, from its identifier and the file name of its
    /// address.
    pub fn with_file_name(id: String, url: String, filename: String) -> (entry: ElasticLink)
        ensures
            entry@ == (ElasticLinkView {
                id: id@,
                url: url@,
                filename: filename@,
                extension: extension_of(filename@),
            }),
    {
        let extension = extension(filename.as_str());
        ElasticLink { id, url, filename, extension }
    }

    /// The projection of a stored link.
    pub fn from(link: Link) -> (entry: ElasticLink)
        requires
            Self::has_projection(link@),
        ensures
            entry@ == Self::of(link@),
    {
        let name = file_name(link.url.as_str());
        Self::with_file_name(link.id.unwrap(), link.url, name.unwrap())
    }

    /// Whether a link has a projection.
    pub fn projects(link: &Link) -> (has: bool)
        ensures
            has == Self::has_projection(link@),
    {
        link.id.is_some() && file_name(link.url.as_str()).is_some()
    }

    /// The projection of a link, if it has one.
    pub fn project(link: Link) -> (entry: Option<ElasticLink>)
        ensures
            entry.deep_view() == Self::projection(link@),
    {
        if Self::projects(&link) {
            Some(Self::from(link))
        } else {
            None
        }
    }
}

/// One action of a bulk request.
#[derive(Debug, PartialEq, Eq)]
pub enum BulkAction {
    /// Takes the entry with this identifier out of the index.
    Delete(String),
    /// Puts the entry into the index, under its identifier.
    Index(ElasticLink),
}

/// A [`BulkAction`] as contracts see it.
pub enum BulkActionView {
    Delete(Seq<char>),
    Index(ElasticLinkView),
}

impl View for BulkAction {
    type V = BulkActionView;

    open spec fn view(&self) -> BulkActionView {
        match self {
            BulkAction::Delete(id) => BulkActionView::Delete(id@),
            BulkAction::Index(entry) => BulkActionView::Index(entry@),
        }
    }
}

impl DeepView for BulkAction {
    type V = BulkActionView;

    open spec fn deep_view(&self) -> BulkActionView {
        self@
    }
}

/// The actions of one bulk request, in order.
#[derive(Debug, PartialEq, Eq)]
pub struct BulkBody {
    pub items: Vec<BulkAction>,
}

impl View for BulkBody {
    type V = Seq<BulkActionView>;

    open spec fn view(&self) -> Seq<BulkActionView> {
        self.items.deep_view()
    }
}

impl DeepView for BulkBody {
    type V = Seq<BulkActionView>;

    open spec fn deep_view(&self) -> Seq<BulkActionView> {
        self@
    }
}

impl Default for BulkBody {
    fn default() -> (body: BulkBody)
        ensures
            body@ == Seq::<BulkActionView>::empty(),
    {
        let body = BulkBody { items: Vec::new() };
        assert(body@ =~= Seq::<BulkActionView>::empty());
        body
    }
}

/// `s` as a JSON string: quoted and escaped, as `serde_json` writes it.
pub uninterp spec fn json_string(s: Seq<char>) -> Seq<char>;

/// `s` as a JSON string.
///
/// Trusted: makes a `serde_json::Value::String` of `s` and calls its
/// `to_string`, which writes the value in compact form. For a string that is
/// the text between double quotes, escaped; it depends on `s` alone, and the
/// contract names it [`json_string`].
#[verifier::external_body]
fn quote(s: &str) -> (quoted: String)
    ensures
        quoted@ == json_string(s@),
{
    serde_json::Value::String(s.to_owned()).to_string()
}

/// The lines of a delete action whose identifier is already quoted.
pub open spec fn delete_lines(quoted_id: Seq<char>) -> Seq<char> {
    "{\"delete\":{\"_id\":"@ + quoted_id + "}}\n\n"@
}

/// The lines of an index action whose fields are already quoted: the action
/// with the identifier, then the document.
pub open spec fn index_lines(
    quoted_id: Seq<char>,
    quoted_url: Seq<char>,
    quoted_filename: Seq<char>,
    quoted_extension: Option<Seq<char>>,
) -> Seq<char> {
    "{\"index\":{\"_id\":"@ + quoted_id + "}}\n{\"url\":"@ + quoted_url + ",\"filename\":"@
        + quoted_filename + ",\"extension\":"@ + (match quoted_extension {
        Some(extension) => extension,
        None => "null"@,
    }) + "}\n"@
}

/// The lines of one action.
pub open spec fn action_lines(action: BulkActionView) -> Seq<char> {
    match action {
        BulkActionView::Delete(id) => delete_lines(json_string(id)),
        BulkActionView::Index(entry) => index_lines(
            json_string(entry.id),
            json_string(entry.url),
            json_string(entry.filename),
            match entry.extension {
                Some(extension) => Some(json_string(extension)),
                None => None,
            },
        ),
    }
}

/// The text of a bulk body: the lines of its actions, in order.
pub open spec fn body_lines(actions: Seq<BulkActionView>) -> Seq<char>
    decreases actions.len(),
{
    if actions.len() == 0 {
        Seq::empty()
    } else {
        body_lines(actions.drop_last()) + action_lines(actions.last())
    }
}

/// Appends the lines of a delete action to `buffer`.
pub fn push_delete_lines(buffer: &mut String, quoted_id: &str)
    ensures
        final(buffer)@ == old(buffer)@ + delete_lines(quoted_id@),
{
    buffer.append("{\"delete\":{\"_id\":");
    buffer.append(quoted_id);
    buffer.append("}}\n\n");
    assert(buffer@ =~= old(buffer)@ + delete_lines(quoted_id@));
}

/// Appends the lines of an index action to `buffer`.
pub fn push_index_lines(
    buffer: &mut String,
    quoted_id: &str,
    quoted_url: &str,
    quoted_filename: &str,
    quoted_extension: Option<&str>,
)
    ensures
        final(buffer)@ == old(buffer)@ + index_lines(
            quoted_id@,
            quoted_url@,
            quoted_filename@,
            match quoted_extension {
                Some(extension) => Some(extension@),
                None => None,
            },
        ),
{
    buffer.append("{\"index\":{\"_id\":");
    buffer.append(quoted_id);
    buffer.append("}}\n{\"url\":");
    buffer.append(quoted_url);
    buffer.append(",\"filename\":");
    buffer.append(quoted_filename);
    buffer.append(",\"extension\":");
    match quoted_extension {
        Some(extension) => buffer.append(extension),
        None => buffer.append("null"),
    }
    buffer.append("}\n");
    assert(buffer@ =~= old(buffer)@ + index_lines(
        quoted_id@,
        quoted_url@,
        quoted_filename@,
        match quoted_extension {
            Some(extension) => Some(extension@),
            None => None,
        },
    ));
}

impl BulkBody {
    /// The text of the body as the index takes it: for each action a line
    /// that names it, for an index action followed by the document, each
    /// action closed by a line break.
    pub fn to_string(&self) -> (text: String)
        ensures
            text@ == body_lines(self@),
    {
        let mut buffer = String::new();
        let mut i: usize = 0;
        while i < self.items.len()
            invariant
                i <= self.items@.len(),
                buffer@ == body_lines(self@.take(i as int)),
            decreases self.items@.len() - i,
        {
            assert(self@.take(i + 1).drop_last() =~= self@.take(i as int));
            match &self.items[i] {
                BulkAction::Delete(id) => {
                    let id = quote(id.as_str());
                    push_delete_lines(&mut buffer, id.as_str());
                },
                BulkAction::Index(entry) => {
                    let id = quote(entry.id.as_str());
                    let url = quote(entry.url.as_str());
                    let filename = quote(entry.filename.as_str());
                    match &entry.extension {
                        Some(extension) => {
                            let extension = quote(extension.as_str());
                            push_index_lines(
                                &mut buffer,
                                id.as_str(),
                                url.as_str(),
                                filename.as_str(),
                                Some(extension.as_str()),
                            );
                        },
                        None => {
                            push_index_lines(
                                &mut buffer,
                                id.as_str(),
                                url.as_str(),
                                filename.as_str(),
                                None,
                            );
                        },
                    }
                },
            }
            i += 1;
        }
        assert(self@.take(i as int) =~= self@);
        buffer
    }
}

/// Number of actions that one bulk request carries at most.
pub const BULK_CHUNK_SIZE: usize = 5000;

/// A request to the bulk interface of the search index. It is sent with the
/// HTTP method PUT, basic authentication and the text of `body` as payload.
#[derive(Debug, PartialEq, Eq)]
pub struct BulkRequest {
    /// Address of the bulk interface.
    pub url: String,
    /// Media type of the payload.
    pub content_type: String,
    /// User to authenticate as.
    pub username: String,
    /// Password to authenticate with.
    pub password: String,
    /// The actions to carry out.
    pub body: BulkBody,
}

/// A [`BulkRequest`] as contracts see it.
pub struct BulkRequestView {
    pub url: Seq<char>,
    pub content_type: Seq<char>,
    pub username: Seq<char>,
    pub password: Seq<char>,
    pub body: Seq<BulkActionView>,
}

impl View for BulkRequest {
    type V = BulkRequestView;

    open spec fn view(&self) -> BulkRequestView {
        BulkRequestView {
            url: self.url@,
            content_type: self.content_type@,
            username: self.username@,
            password: self.password@,
            body: self.body@,
        }
    }
}

impl DeepView for BulkRequest {
    type V = BulkRequestView;

    open spec fn deep_view(&self) -> BulkRequestView {
        self@
    }
}

/// The request that carries `body` to the index configured in `opt`.
pub open spec fn request_for(opt: OptView, body: Seq<BulkActionView>) -> BulkRequestView {
    BulkRequestView {
        url: opt.elastic_url + "/links/_bulk"@,
        content_type: "application/json"@,
        username: "elastic"@,
        password: opt.elastic_pass,
        body,
    }
}

/// The requests that carry `actions` to the index: one for each chunk of at
/// most `size` actions, in order.
pub open spec fn bulk_requests(opt: OptView, actions: Seq<BulkActionView>, size: nat) -> Seq<
    BulkRequestView,
> {
    chunks_of(actions, size).map_values(|chunk: Seq<BulkActionView>| request_for(opt, chunk))
}

/// The actions that put `entries` into the index.
pub open spec fn index_actions(entries: Seq<ElasticLinkView>) -> Seq<BulkActionView> {
    entries.map_values(|entry: ElasticLinkView| BulkActionView::Index(entry))
}

/// The actions that take the entries with the identifiers `ids` out of the
/// index.
pub open spec fn delete_actions(ids: Seq<Seq<char>>) -> Seq<BulkActionView> {
    ids.map_values(|id: Seq<char>| BulkActionView::Delete(id))
}

/// The request that carries `body` to the index configured in `opt`.
pub fn bulk_request(opt: &Opt, body: BulkBody) -> (request: BulkRequest)
    ensures
        request@ == request_for(opt@, body@),
{
    let mut url = opt.elastic_url.clone();
    url.append("/links/_bulk");
    BulkRequest {
        url,
        content_type: String::from_str("application/json"),
        username: String::from_str("elastic"),
        password: opt.elastic_pass.clone(),
        body,
    }
}

/// Whether the index accepted a bulk request, going by the status of its
/// answer: any status from 200 to 299.
pub fn bulk_accepted(status: u16) -> (accepted: bool)
    ensures
        accepted == (200 <= status < 300),
{
    200 <= status && status < 300
}

/// The requests that carry `actions` to the index, at most `size` actions in
/// each.
pub fn requests_of(opt: &Opt, actions: Vec<BulkAction>, size: usize) -> (requests: Vec<
    BulkRequest,
>)
    requires
        size > 0,
    ensures
        requests.deep_view() == bulk_requests(opt@, actions.deep_view(), size as nat),
{
    broadcast use vstd::std_specs::vec::axiom_spec_into_iter;

    let ghost all = actions.deep_view();
    let ghost plain = actions@;
    assert(all.len() == plain.len());
    let chunks = split_chunks(actions, size);
    let ghost parts = chunks@;
    let mut requests: Vec<BulkRequest> = Vec::new();
    for chunk in iter: chunks
        invariant
            iter.seq() == parts,
            requests@.len() == iter.history@.len(),
            forall|k: int|
                0 <= k < requests@.len() ==> (#[trigger] requests@[k])@ == request_for(
                    opt@,
                    iter.history@[k].deep_view(),
                ),
    {
        requests.push(bulk_request(opt, BulkBody { items: chunk }));
    }
    assert(requests.deep_view() =~= bulk_requests(opt@, all, size as nat)) by {
        assert forall|k: int| 0 <= k < parts.len() implies parts[k].deep_view() == chunk_of(
            all,
            size as nat,
            k,
        ) by {
            lemma_chunk_start(k, all.len(), size as nat);
            assert(parts[k]@ == chunk_of(plain, size as nat, k));
            assert(parts[k].deep_view() =~= chunk_of(all, size as nat, k));
        }
    }
    requests
}

/// The requests that put `links` into the index: one for each chunk of
/// [`BULK_CHUNK_SIZE`] entries, in order. Each request stands for itself:
/// whether one fails has no bearing on the others.
pub fn add_bulk(opt: &Opt, links: &[ElasticLink]) -> (requests: Vec<BulkRequest>)
    ensures
        requests.deep_view() == bulk_requests(
            opt@,
            index_actions(links.deep_view()),
            BULK_CHUNK_SIZE as nat,
        ),
{
    let mut actions: Vec<BulkAction> = Vec::new();
    let mut i: usize = 0;
    while i < links.len()
        invariant
            i <= links@.len(),
            actions.deep_view() == index_actions(links.deep_view().take(i as int)),
        decreases links@.len() - i,
    {
        let ghost before = actions.deep_view();
        let entry = links[i].clone();
        assert(entry@ == links.deep_view()[i as int]);
        actions.push(BulkAction::Index(entry));
        assert(actions.deep_view() =~= before.push(BulkActionView::Index(entry@)));
        i += 1;
        assert(links.deep_view().take(i as int) =~= links.deep_view().take(i - 1).push(entry@));
    }
    assert(links.deep_view().take(i as int) =~= links.deep_view());
    requests_of(opt, actions, BULK_CHUNK_SIZE)
}

/// The requests that take the entries with the identifiers `ids` out of the
/// index: one for each chunk of [`BULK_CHUNK_SIZE`] identifiers, in order.
pub fn remove_bulk(opt: &Opt, ids: &[String]) -> (requests: Vec<BulkRequest>)
    ensures
        requests.deep_view() == bulk_requests(
            opt@,
            delete_actions(ids.deep_view()),
            BULK_CHUNK_SIZE as nat,
        ),
{
    let mut actions: Vec<BulkAction> = Vec::new();
    let mut i: usize = 0;
    while i < ids.len()
        invariant
            i <= ids@.len(),
            actions.deep_view() == delete_actions(ids.deep_view().take(i as int)),
        decreases ids@.len() - i,
    {
        let ghost before = actions.deep_view();
        let id = ids[i].clone();
        assert(id@ == ids.deep_view()[i as int]);
        actions.push(BulkAction::Delete(id));
        assert(actions.deep_view() =~= before.push(BulkActionView::Delete(id@)));
        i += 1;
        assert(ids.deep_view().take(i as int) =~= ids.deep_view().take(i - 1).push(id@));
    }
    assert(ids.deep_view().take(i as int) =~= ids.deep_view());
    requests_of(opt, actions, BULK_CHUNK_SIZE)
}

/// The entries of the links that have a projection, in the order of the links.
pub open spec fn projections(links: Seq<LinkView>) -> Seq<ElasticLinkView> {
    links.filter_map(|link: LinkView| ElasticLink::projection(link))
}

/// The requests that put the links of a root, as the store holds them, into
/// the index. A link without a projection is passed over.
pub fn add_links_from_db(opt: &Opt, links: &Vec<Link>) -> (requests: Vec<BulkRequest>)
    ensures
        requests.deep_view() == bulk_requests(
            opt@,
            index_actions(projections(links.deep_view())),
            BULK_CHUNK_SIZE as nat,
        ),
{
    let mut entries: Vec<ElasticLink> = Vec::new();
    let mut i: usize = 0;
    while i < links.len()
        invariant
            i <= links@.len(),
            entries.deep_view() == projections(links.deep_view().take(i as int)),
        decreases links@.len() - i,
    {
        proof {
            links.deep_view().lemma_filter_map_take_succ(
                |link: LinkView| ElasticLink::projection(link),
                i as int,
            );
        }
        let ghost before = entries.deep_view();
        match ElasticLink::project(links[i].clone()) {
            Some(entry) => {
                entries.push(entry);
                assert(entries.deep_view() =~= before + seq![entry@]);
            },
            None => {},
        }
        i += 1;
    }
    assert(links.deep_view().take(i as int) =~= links.deep_view());
    add_bulk(opt, entries.as_slice())
}

/// What a full export does with one link: a link of a root that is alive is
/// put into the index, any other is taken out; a link without a projection is
/// passed over.
pub open spec fn export_action(alive: Seq<Seq<char>>, link: LinkView) -> Option<BulkActionView> {
    if !ElasticLink::has_projection(link) {
        None
    } else if alive.contains(link.opendirectory) {
        Some(BulkActionView::Index(ElasticLink::of(link)))
    } else {
        Some(BulkActionView::Delete(link.id->0))
    }
}

/// The actions of a full export, in the order of the links.
pub open spec fn export_actions(alive: Seq<Seq<char>>, links: Seq<LinkView>) -> Seq<
    BulkActionView,
> {
    links.filter_map(|link: LinkView| export_action(alive, link))
}

/// Whether `url` is among `urls`.
pub fn has_url(urls: &Vec<String>, url: &String) -> (found: bool)
    ensures
        found == urls.deep_view().contains(url@),
{
    let mut i: usize = 0;
    while i < urls.len()
        invariant
            i <= urls@.len(),
            forall|k: int| 0 <= k < i ==> urls.deep_view()[k] != url@,
        decreases urls@.len() - i,
    {
        if urls[i] == *url {
            assert(urls.deep_view()[i as int] == url@);
            return true;
        }
        i += 1;
    }
    false
}

/// The requests of a full export: every link of the store goes into the
/// index if its root is among `alive_ods`, and out of it otherwise.
pub fn export_all(opt: &Opt, alive_ods: &Vec<String>, links: &Vec<Link>) -> (requests: Vec<
    BulkRequest,
>)
    ensures
        requests.deep_view() == bulk_requests(
            opt@,
            export_actions(alive_ods.deep_view(), links.deep_view()),
            BULK_CHUNK_SIZE as nat,
        ),
{
    let mut actions: Vec<BulkAction> = Vec::new();
    let mut i: usize = 0;
    while i < links.len()
        invariant
            i <= links@.len(),
            actions.deep_view() == export_actions(
                alive_ods.deep_view(),
                links.deep_view().take(i as int),
            ),
        decreases links@.len() - i,
    {
        proof {
            links.deep_view().lemma_filter_map_take_succ(
                |link: LinkView| export_action(alive_ods.deep_view(), link),
                i as int,
            );
        }
        let ghost before = actions.deep_view();
        let is_alive = has_url(alive_ods, &links[i].opendirectory);
        match ElasticLink::project(links[i].clone()) {
            Some(entry) => {
                let action = if is_alive {
                    BulkAction::Index(entry)
                } else {
                    BulkAction::Delete(entry.id)
                };
                actions.push(action);
                assert(actions.deep_view() =~= before + seq![action@]);
            },
            None => {},
        }
        i += 1;
    }
    assert(links.deep_view().take(i as int) =~= links.deep_view());
    requests_of(opt, actions, BULK_CHUNK_SIZE)
}

/// The actions that a run of requests carries, in order.
pub open spec fn request_actions(requests: Seq<BulkRequestView>) -> Seq<BulkActionView> {
    requests.map_values(|request: BulkRequestView| request.body).flatten()
}

/// Chunking loses nothing: the requests number as many as the actions make
/// chunks, every request carries at least one action and at most `size`, and
/// the actions of all requests, one after the other, are the actions given,
/// each once and in order.
pub proof fn lemma_requests_cover(opt: OptView, actions: Seq<BulkActionView>, size: nat)
    requires
        size > 0,
    ensures
        bulk_requests(opt, actions, size).len() == chunk_count(actions.len(), size),
        forall|k: int|
            0 <= k < bulk_requests(opt, actions, size).len() ==> 0 < (#[trigger] bulk_requests(
                opt,
                actions,
                size,
            )[k]).body.len() <= size,
        request_actions(bulk_requests(opt, actions, size)) == actions,
{
    let requests = bulk_requests(opt, actions, size);
    assert forall|k: int| 0 <= k < requests.len() implies 0 < (#[trigger] requests[k]).body.len()
        <= size by {
        lemma_chunk_len(actions, size, k);
    }
    lemma_chunks_flatten(actions, size);
    assert(requests.map_values(|request: BulkRequestView| request.body) =~= chunks_of(
        actions,
        size,
    ));
}

/// The key under which an action files or finds its entry.
pub open spec fn action_key(action: BulkActionView) -> Seq<char> {
    match action {
        BulkActionView::Delete(id) => id,
        BulkActionView::Index(entry) => entry.id,
    }
}

/// What the index holds after an action: a delete takes the entry with the
/// identifier out, if there is one; an index action files the entry under its
/// identifier, in place of what was there.
pub open spec fn after_action(
    index: Map<Seq<char>, ElasticLinkView>,
    action: BulkActionView,
) -> Map<Seq<char>, ElasticLinkView> {
    match action {
        BulkActionView::Delete(id) => index.remove(id),
        BulkActionView::Index(entry) => index.insert(entry.id, entry),
    }
}

/// What the index holds after a run of actions, the first applied first.
pub open spec fn after_actions(
    index: Map<Seq<char>, ElasticLinkView>,
    actions: Seq<BulkActionView>,
) -> Map<Seq<char>, ElasticLinkView>
    decreases actions.len(),
{
    if actions.len() == 0 {
        index
    } else {
        after_action(after_actions(index, actions.drop_last()), actions.last())
    }
}

/// What the index holds after a run of requests that it all accepted.
pub open spec fn after_requests(
    index: Map<Seq<char>, ElasticLinkView>,
    requests: Seq<BulkRequestView>,
) -> Map<Seq<char>, ElasticLinkView> {
    after_actions(index, request_actions(requests))
}

/// Two states of the index hold the same under `key`.
pub open spec fn same_at(
    a: Map<Seq<char>, ElasticLinkView>,
    b: Map<Seq<char>, ElasticLinkView>,
    key: Seq<char>,
) -> bool {
    a.contains_key(key) == b.contains_key(key) && (a.contains_key(key) ==> a[key] == b[key])
}

/// Some action of the run has `key` as its key.
pub open spec fn touches(actions: Seq<BulkActionView>, key: Seq<char>) -> bool {
    exists|i: int| 0 <= i < actions.len() && action_key(#[trigger] actions[i]) == key
}

/// A run of actions leaves alone what it does not touch, and decides what it
/// touches whatever was there before.
proof fn lemma_after_actions_at(
    a: Map<Seq<char>, ElasticLinkView>,
    b: Map<Seq<char>, ElasticLinkView>,
    actions: Seq<BulkActionView>,
    key: Seq<char>,
)
    ensures
        !touches(actions, key) ==> same_at(after_actions(a, actions), a, key),
        touches(actions, key) || same_at(a, b, key) ==> same_at(
            after_actions(a, actions),
            after_actions(b, actions),
            key,
        ),
    decreases actions.len(),
{
    if actions.len() > 0 {
        let front = actions.drop_last();
        lemma_after_actions_at(a, b, front, key);
        if touches(front, key) {
            let i = choose|i: int| 0 <= i < front.len() && action_key(#[trigger] front[i]) == key;
            assert(action_key(actions[i]) == key);
        }
        if action_key(actions.last()) == key {
            assert(action_key(actions[actions.len() - 1]) == key);
        }
        if touches(actions, key) && action_key(actions.last()) != key {
            let i = choose|i: int| 0 <= i < actions.len() && action_key(#[trigger] actions[i]) == key;
            assert(action_key(front[i]) == key);
        }
    }
}

/// Applying a run of actions a second time changes nothing.
pub proof fn lemma_actions_idempotent(
    index: Map<Seq<char>, ElasticLinkView>,
    actions: Seq<BulkActionView>,
)
    ensures
        after_actions(after_actions(index, actions), actions) == after_actions(index, actions),
{
    let once = after_actions(index, actions);
    let twice = after_actions(once, actions);
    assert forall|key: Seq<char>| #[trigger]
        twice.dom().contains(key) == once.dom().contains(key) by {
        lemma_after_actions_at(index, once, actions, key);
        lemma_after_actions_at(once, index, actions, key);
    }
    assert forall|key: Seq<char>| twice.dom().contains(key) implies #[trigger] twice[key]
        == once[key] by {
        lemma_after_actions_at(index, once, actions, key);
        lemma_after_actions_at(once, index, actions, key);
    }
    assert(twice =~= once);
}

/// Removal is idempotent: sending the requests of [`remove_bulk`] for the
/// same identifiers a second time leaves the index as the first time left it.
pub proof fn lemma_remove_bulk_idempotent(
    index: Map<Seq<char>, ElasticLinkView>,
    opt: OptView,
    ids: Seq<Seq<char>>,
)
    ensures
        ({
            let requests = bulk_requests(opt, delete_actions(ids), BULK_CHUNK_SIZE as nat);
            after_requests(after_requests(index, requests), requests) == after_requests(
                index,
                requests,
            )
        }),
{
    let requests = bulk_requests(opt, delete_actions(ids), BULK_CHUNK_SIZE as nat);
    lemma_actions_idempotent(index, request_actions(requests));
}

/// Addition is idempotent: sending the requests of [`add_bulk`] for the same
/// entries a second time leaves the index as the first time left it.
pub proof fn lemma_add_bulk_idempotent(
    index: Map<Seq<char>, ElasticLinkView>,
    opt: OptView,
    entries: Seq<ElasticLinkView>,
)
    ensures
        ({
            let requests = bulk_requests(opt, index_actions(entries), BULK_CHUNK_SIZE as nat);
            after_requests(after_requests(index, requests), requests) == after_requests(
                index,
                requests,
            )
        }),
{
    let requests = bulk_requests(opt, index_actions(entries), BULK_CHUNK_SIZE as nat);
    lemma_actions_idempotent(index, request_actions(requests));
}

} // verus!
