//! The documents of the store: roots, links, and an in-memory store of both.

use vstd::prelude::*;
use vstd::string::StringExecFns;
use crate::scans::OdScanFile;
use crate::text::string_of;

verus! {

/// A tracked open-directory root.
#[derive(Debug, PartialEq, Eq)]
pub struct OpenDirectory {
    /// Identifier that the store assigned, if the root was stored.
    pub id: Option<String>,
    /// Address of the root.
    pub url: String,
    /// Number of probes in a row that found the root unreachable.
    pub unreachable: i32,
}

/// An [`OpenDirectory`] as contracts see it.
pub struct OpenDirectoryView {
    pub id: Option<Seq<char>>,
    pub url: Seq<char>,
    pub unreachable: int,
}

impl View for OpenDirectory {
    type V = OpenDirectoryView;

    open spec fn view(&self) -> OpenDirectoryView {
        OpenDirectoryView {
            id: self.id.deep_view(),
            url: self.url@,
            unreachable: self.unreachable as int,
        }
    }
}

impl DeepView for OpenDirectory {
    type V = OpenDirectoryView;

    open spec fn deep_view(&self) -> OpenDirectoryView {
        self@
    }
}

impl Clone for OpenDirectory {
    fn clone(&self) -> (copy: OpenDirectory)
        ensures
            copy == *self,
    {
        OpenDirectory {
            id: match &self.id {
                Some(id) => Some(id.clone()),
                None => None,
            },
            url: self.url.clone(),
            unreachable: self.unreachable,
        }
    }
}

/// A file found under a root.
#[derive(Debug, PartialEq, Eq)]
pub struct Link {
    /// Identifier that the store assigned, if the link was stored.
    pub id: Option<String>,
    /// Address of the root under which the file was found.
    pub opendirectory: String,
    /// Address of the file.
    pub url: String,
}

/// A [`Link`] as contracts see it.
pub struct LinkView {
    pub id: Option<Seq<char>>,
    pub opendirectory: Seq<char>,
    pub url: Seq<char>,
}

impl View for Link {
    type V = LinkView;

    open spec fn view(&self) -> LinkView {
        LinkView { id: self.id.deep_view(), opendirectory: self.opendirectory@, url: self.url@ }
    }
}

impl DeepView for Link {
    type V = LinkView;

    open spec fn deep_view(&self) -> LinkView {
        self@
    }
}

impl Clone for Link {
    fn clone(&self) -> (copy: Link)
        ensures
            copy == *self,
    {
        Link {
            id: match &self.id {
                Some(id) => Some(id.clone()),
                None => None,
            },
            opendirectory: self.opendirectory.clone(),
            url: self.url.clone(),
        }
    }
}

/// How an attempt to store a scan ended.
#[derive(Debug, Clone, Copy, PartialEq, Eq, Structural)]
pub enum SaveResult {
    /// The root was stored before; nothing was written.
    DuplicateOd,
    /// One of the links was stored before; nothing was written.
    DuplicateLinks,
    /// The root and its links were written.
    Success,
}

impl SaveResult {
    /// How an attempt to store a scan ends, given what the store holds
    /// already: a known root is reported before a known link.
    pub fn decide(root_exists: bool, link_exists: bool) -> (saved: SaveResult)
        ensures
            saved == if root_exists {
                SaveResult::DuplicateOd
            } else if link_exists {
                SaveResult::DuplicateLinks
            } else {
                SaveResult::Success
            },
    {
        if root_exists {
            SaveResult::DuplicateOd
        } else if link_exists {
            SaveResult::DuplicateLinks
        } else {
            SaveResult::Success
        }
    }
}

impl OpenDirectory {
    /// A root as it goes to the store when it is first seen: not yet stored,
    /// and with a streak of zero, whether or not it was reachable then.
    pub fn first_seen(url: &str) -> (od: OpenDirectory)
        ensures
            od@ == (OpenDirectoryView { id: None, url: url@, unreachable: 0 }),
    {
        OpenDirectory { id: None, url: String::from_str(url), unreachable: 0 }
    }
}

/// The hexadecimal digit for a number below 16.
pub open spec fn hex_digit(d: int) -> char {
    if d == 0 {
        '0'
    } else if d == 1 {
        '1'
    } else if d == 2 {
        '2'
    } else if d == 3 {
        '3'
    } else if d == 4 {
        '4'
    } else if d == 5 {
        '5'
    } else if d == 6 {
        '6'
    } else if d == 7 {
        '7'
    } else if d == 8 {
        '8'
    } else if d == 9 {
        '9'
    } else if d == 10 {
        'a'
    } else if d == 11 {
        'b'
    } else if d == 12 {
        'c'
    } else if d == 13 {
        'd'
    } else if d == 14 {
        'e'
    } else {
        'f'
    }
}

/// The last `width` hexadecimal digits of `n`, the most significant first.
pub open spec fn hex_text(n: nat, width: nat) -> Seq<char>
    decreases width,
{
    if width == 0 {
        Seq::empty()
    } else {
        hex_text(n / 16, (width - 1) as nat).push(hex_digit((n % 16) as int))
    }
}

/// The identifier of the document that a collection took in as its `n`-th,
/// counting from zero: `n` in 24 hexadecimal digits.
pub open spec fn id_text(n: nat) -> Seq<char> {
    hex_text(n, 24)
}

/// The number of numbers that `width` hexadecimal digits tell apart.
pub open spec fn hex_capacity(width: nat) -> nat
    decreases width,
{
    if width == 0 {
        1
    } else {
        16 * hex_capacity((width - 1) as nat)
    }
}

/// Two numbers that fit in `width` hexadecimal digits and read the same are
/// the same.
pub proof fn lemma_hex_text_injective(a: nat, b: nat, width: nat)
    requires
        a < hex_capacity(width),
        b < hex_capacity(width),
        hex_text(a, width) == hex_text(b, width),
    ensures
        a == b,
    decreases width,
{
    if width > 0 {
        let shorter = (width - 1) as nat;
        let front_a = hex_text(a / 16, shorter);
        let front_b = hex_text(b / 16, shorter);
        assert(front_a.push(hex_digit((a % 16) as int)).last() == front_b.push(
            hex_digit((b % 16) as int),
        ).last());
        assert(front_a.push(hex_digit((a % 16) as int)).drop_last() =~= front_a);
        assert(front_b.push(hex_digit((b % 16) as int)).drop_last() =~= front_b);
        lemma_hex_text_injective(a / 16, b / 16, shorter);
    }
}

/// Documents taken in at different places of a collection have different
/// identifiers.
pub proof fn lemma_id_text_injective(a: usize, b: usize)
    requires
        id_text(a as nat) == id_text(b as nat),
    ensures
        a == b,
{
    assert(hex_capacity(24) > usize::MAX) by {
        reveal_with_fuel(hex_capacity, 25);
    }
    lemma_hex_text_injective(a as nat, b as nat, 24);
}

fn hex_digit_of(d: usize) -> (digit: char)
    requires
        d < 16,
    ensures
        digit == hex_digit(d as int),
{
    if d == 0 {
        '0'
    } else if d == 1 {
        '1'
    } else if d == 2 {
        '2'
    } else if d == 3 {
        '3'
    } else if d == 4 {
        '4'
    } else if d == 5 {
        '5'
    } else if d == 6 {
        '6'
    } else if d == 7 {
        '7'
    } else if d == 8 {
        '8'
    } else if d == 9 {
        '9'
    } else if d == 10 {
        'a'
    } else if d == 11 {
        'b'
    } else if d == 12 {
        'c'
    } else if d == 13 {
        'd'
    } else if d == 14 {
        'e'
    } else {
        'f'
    }
}

fn hex_chars(n: usize, width: usize) -> (digits: Vec<char>)
    ensures
        digits@ == hex_text(n as nat, width as nat),
    decreases width,
{
    if width == 0 {
        Vec::new()
    } else {
        let mut digits = hex_chars(n / 16, width - 1);
        digits.push(hex_digit_of(n % 16));
        digits
    }
}

/// The identifier of the document that a collection took in as its `n`-th.
pub fn new_id(n: usize) -> (id: String)
    ensures
        id@ == id_text(n as nat),
{
    let digits = hex_chars(n, 24);
    string_of(&digits)
}

/// The store: the roots and the links, each collection in the order in which
/// it took its documents in. Nothing ever leaves the store.
#[derive(Debug)]
pub struct Database {
    opendirectories: Vec<OpenDirectory>,
    links: Vec<Link>,
    dead_threshold: i32,
}

/// A [`Database`] as contracts see it.
pub struct DatabaseView {
    pub opendirectories: Seq<OpenDirectoryView>,
    pub links: Seq<LinkView>,
    pub dead_threshold: int,
}

impl DatabaseView {
    /// What holds of every store: the threshold is at least 1, each document
    /// carries the identifier of its place in its collection, no two roots
    /// have the same address, and the streak of every root lies between zero
    /// and the threshold.
    pub open spec fn wf(self) -> bool {
        &&& self.dead_threshold >= 1
        &&& forall|i: int|
            0 <= i < self.opendirectories.len() ==> 0 <= (
            #[trigger] self.opendirectories[i]).unreachable <= self.dead_threshold
        &&& forall|i: int|
            0 <= i < self.opendirectories.len() ==> (#[trigger] self.opendirectories[i]).id
                == Some(id_text(i as nat))
        &&& forall|i: int|
            0 <= i < self.links.len() ==> (#[trigger] self.links[i]).id == Some(id_text(i as nat))
        &&& forall|i: int, j: int|
            0 <= i < j < self.opendirectories.len() ==> (#[trigger] self.opendirectories[i]).url
                != (#[trigger] self.opendirectories[j]).url
    }

    /// The store holds a root with this address.
    pub open spec fn has_root(self, url: Seq<char>) -> bool {
        exists|i: int|
            0 <= i < self.opendirectories.len() && (#[trigger] self.opendirectories[i]).url == url
    }

    /// The store holds a link with this address under this root.
    pub open spec fn has_link(self, opendirectory: Seq<char>, url: Seq<char>) -> bool {
        exists|i: int|
            0 <= i < self.links.len() && (#[trigger] self.links[i]).opendirectory == opendirectory
                && self.links[i].url == url
    }

    /// The store holds one of these files as a link under this root.
    pub open spec fn has_any_link(self, opendirectory: Seq<char>, files: Seq<Seq<char>>) -> bool {
        exists|k: int| 0 <= k < files.len() && self.has_link(opendirectory, #[trigger] files[k])
    }

    /// How an attempt to store a scan ends: a root is stored once only, and
    /// no link twice.
    pub open spec fn save_outcome(self, root_url: Seq<char>, files: Seq<Seq<char>>) -> SaveResult {
        if self.has_root(root_url) {
            SaveResult::DuplicateOd
        } else if self.has_any_link(root_url, files) {
            SaveResult::DuplicateLinks
        } else {
            SaveResult::Success
        }
    }

    /// The root as it is stored for a scan: with a streak of zero.
    pub open spec fn new_root(self, root_url: Seq<char>) -> OpenDirectoryView {
        OpenDirectoryView {
            id: Some(id_text(self.opendirectories.len())),
            url: root_url,
            unreachable: 0,
        }
    }

    /// The links as they are stored for a scan.
    pub open spec fn new_links(self, root_url: Seq<char>, files: Seq<Seq<char>>) -> Seq<LinkView> {
        Seq::new(
            files.len(),
            |k: int|
                LinkView {
                    id: Some(id_text((self.links.len() + k) as nat)),
                    opendirectory: root_url,
                    url: files[k],
                },
        )
    }

    /// The store after it has taken a scan in.
    pub open spec fn after_save(self, root_url: Seq<char>, files: Seq<Seq<char>>) -> DatabaseView {
        DatabaseView {
            opendirectories: self.opendirectories.push(self.new_root(root_url)),
            links: self.links + self.new_links(root_url, files),
            dead_threshold: self.dead_threshold,
        }
    }

    /// The roots that a listing gives: all of them, or those that are alive.
    pub open spec fn listed(self, dead_ods: bool) -> Seq<OpenDirectoryView> {
        if dead_ods {
            self.opendirectories
        } else {
            self.opendirectories.filter(
                |od: OpenDirectoryView| od.unreachable < self.dead_threshold,
            )
        }
    }

    /// Whether the store takes the streak of `od`: it holds a root with that
    /// address, and the streak lies between zero and the threshold.
    pub open spec fn accepts(self, od: OpenDirectoryView) -> bool {
        self.has_root(od.url) && 0 <= od.unreachable <= self.dead_threshold
    }

    /// The store after the root with the address `url` got the streak
    /// `unreachable`.
    pub open spec fn with_streak(self, url: Seq<char>, unreachable: int) -> DatabaseView {
        DatabaseView {
            opendirectories: self.opendirectories.map_values(
                |stored: OpenDirectoryView|
                    if stored.url == url {
                        OpenDirectoryView { unreachable, ..stored }
                    } else {
                        stored
                    },
            ),
            ..self
        }
    }

    /// The links under a root.
    pub open spec fn links_of(self, opendirectory: Seq<char>) -> Seq<LinkView> {
        self.links.filter(|link: LinkView| link.opendirectory == opendirectory)
    }
}

/// A root is created once: after a scan of a root has been stored, storing
/// another scan of the same root is refused as a duplicate, and the store
/// holds exactly one root with that address.
pub proof fn lemma_root_is_created_once(
    db: DatabaseView,
    root_url: Seq<char>,
    files: Seq<Seq<char>>,
    again: Seq<Seq<char>>,
)
    requires
        db.wf(),
        db.save_outcome(root_url, files) == SaveResult::Success,
    ensures
        db.after_save(root_url, files).wf(),
        db.after_save(root_url, files).save_outcome(root_url, again)
            == SaveResult::DuplicateOd,
        db.after_save(root_url, files).listed(true).filter(
            |od: OpenDirectoryView| od.url == root_url,
        ).len() == 1,
{
    let after = db.after_save(root_url, files);
    let same = |od: OpenDirectoryView| od.url == root_url;
    assert(after.opendirectories[db.opendirectories.len() as int].url == root_url);
    assert forall|i: int, j: int| 0 <= i < j < after.opendirectories.len() implies (
    #[trigger] after.opendirectories[i]).url != (#[trigger] after.opendirectories[j]).url by {
        if j == db.opendirectories.len() {
            assert(db.opendirectories[i].url != root_url);
        }
    }
    assert(after.opendirectories.drop_last() =~= db.opendirectories);
    db.opendirectories.lemma_all_neg_filter_empty(same);
    reveal(Seq::filter);
}

impl View for Database {
    type V = DatabaseView;

    closed spec fn view(&self) -> DatabaseView {
        DatabaseView {
            opendirectories: self.opendirectories.deep_view(),
            links: self.links.deep_view(),
            dead_threshold: self.dead_threshold as int,
        }
    }
}

impl Database {
    /// What holds of every store.
    pub open spec fn wf(&self) -> bool {
        self@.wf()
    }

    /// An empty store, in which a root counts as dead from the streak
    /// `dead_threshold` on. A threshold below 1 would have every root dead
    /// from the start and is refused.
    pub fn new(dead_threshold: i32) -> (db: Option<Database>)
        ensures
            db is Some <==> dead_threshold >= 1,
            db matches Some(empty) ==> empty.wf() && empty@ == (DatabaseView {
                opendirectories: Seq::empty(),
                links: Seq::empty(),
                dead_threshold: dead_threshold as int,
            }),
    {
        if dead_threshold < 1 {
            return None;
        }
        let db = Database { opendirectories: Vec::new(), links: Vec::new(), dead_threshold };
        assert(db@.opendirectories =~= Seq::empty());
        assert(db@.links =~= Seq::empty());
        Some(db)
    }

    /// No two roots of a store have the same identifier, and no two links.
    pub proof fn lemma_ids_are_unique(&self)
        requires
            self.wf(),
        ensures
            forall|i: int, j: int|
                0 <= i < j < self@.opendirectories.len() ==> (#[trigger] self@.opendirectories[i]).id
                    != (#[trigger] self@.opendirectories[j]).id,
            forall|i: int, j: int|
                0 <= i < j < self@.links.len() ==> (#[trigger] self@.links[i]).id != (
                #[trigger] self@.links[j]).id,
    {
        assert(self@.opendirectories.len() == self.opendirectories.len());
        assert(self@.links.len() == self.links.len());
        assert forall|i: int, j: int| 0 <= i < j < self@.opendirectories.len() implies (
        #[trigger] self@.opendirectories[i]).id != (#[trigger] self@.opendirectories[j]).id by {
            if id_text(i as nat) == id_text(j as nat) {
                lemma_id_text_injective(i as usize, j as usize);
            }
        }
        assert forall|i: int, j: int| 0 <= i < j < self@.links.len() implies (
        #[trigger] self@.links[i]).id != (#[trigger] self@.links[j]).id by {
            if id_text(i as nat) == id_text(j as nat) {
                lemma_id_text_injective(i as usize, j as usize);
            }
        }
    }

    /// The roots of the store, in the order in which it took them in: all of
    /// them if `dead_ods` is set, and else those that are alive.
    pub fn get_opendirectories(&self, dead_ods: bool) -> (ods: Vec<OpenDirectory>)
        ensures
            ods.deep_view() == self@.listed(dead_ods),
    {
        let ghost all = self@.opendirectories;
        let ghost alive = |od: OpenDirectoryView| od.unreachable < self@.dead_threshold;
        let mut ods: Vec<OpenDirectory> = Vec::new();
        let mut i: usize = 0;
        proof {
            reveal(Seq::filter);
            assert(all.take(0) =~= Seq::empty());
        }
        while i < self.opendirectories.len()
            invariant
                all == self@.opendirectories,
                alive == |od: OpenDirectoryView| od.unreachable < self@.dead_threshold,
                i <= all.len(),
                ods.deep_view() == if dead_ods {
                    all.take(i as int)
                } else {
                    all.take(i as int).filter(alive)
                },
            decreases all.len() - i,
        {
            let ghost before = ods.deep_view();
            proof {
                reveal(Seq::filter);
                assert(all.take(i + 1).drop_last() =~= all.take(i as int));
                assert(all.take(i + 1) =~= all.take(i as int).push(all[i as int]));
            }
            if dead_ods || self.opendirectories[i].unreachable < self.dead_threshold {
                ods.push(self.opendirectories[i].clone());
                assert(ods.deep_view() =~= before.push(all[i as int]));
            }
            i += 1;
        }
        assert(all.take(i as int) =~= all);
        ods
    }

    /// The links under the root with the address `opendirectory`, in the
    /// order in which the store took them in.
    pub fn get_links(&self, opendirectory: &str) -> (links: Vec<Link>)
        ensures
            links.deep_view() == self@.links_of(opendirectory@),
    {
        let ghost all = self@.links;
        let ghost under = |link: LinkView| link.opendirectory == opendirectory@;
        let root = String::from_str(opendirectory);
        let mut links: Vec<Link> = Vec::new();
        let mut i: usize = 0;
        proof {
            reveal(Seq::filter);
            assert(all.take(0) =~= Seq::empty());
        }
        while i < self.links.len()
            invariant
                all == self@.links,
                under == |link: LinkView| link.opendirectory == opendirectory@,
                root@ == opendirectory@,
                i <= all.len(),
                links.deep_view() == all.take(i as int).filter(under),
            decreases all.len() - i,
        {
            let ghost before = links.deep_view();
            proof {
                reveal(Seq::filter);
                assert(all.take(i + 1).drop_last() =~= all.take(i as int));
            }
            if self.links[i].opendirectory == root {
                links.push(self.links[i].clone());
                assert(links.deep_view() =~= before.push(all[i as int]));
            }
            i += 1;
        }
        assert(all.take(i as int) =~= all);
        links
    }

    /// Whether the store holds a root with this address.
    fn holds_root(&self, url: &String) -> (found: bool)
        ensures
            found == self@.has_root(url@),
    {
        let mut i: usize = 0;
        while i < self.opendirectories.len()
            invariant
                i <= self@.opendirectories.len(),
                forall|k: int| 0 <= k < i ==> (#[trigger] self@.opendirectories[k]).url != url@,
            decreases self@.opendirectories.len() - i,
        {
            if self.opendirectories[i].url == *url {
                assert(self@.opendirectories[i as int].url == url@);
                return true;
            }
            i += 1;
        }
        false
    }

    /// Whether the store holds a link with this address under this root.
    fn holds_link(&self, opendirectory: &String, url: &String) -> (found: bool)
        ensures
            found == self@.has_link(opendirectory@, url@),
    {
        let mut i: usize = 0;
        while i < self.links.len()
            invariant
                i <= self@.links.len(),
                forall|k: int|
                    0 <= k < i ==> !((#[trigger] self@.links[k]).opendirectory == opendirectory@
                        && self@.links[k].url == url@),
            decreases self@.links.len() - i,
        {
            if self.links[i].opendirectory == *opendirectory && self.links[i].url == *url {
                assert(self@.links[i as int].opendirectory == opendirectory@);
                return true;
            }
            i += 1;
        }
        false
    }

    /// Whether the store holds one of these files as a link under this root.
    fn holds_any_link(&self, opendirectory: &str, files: &Vec<OdScanFile>) -> (found: bool)
        ensures
            found == self@.has_any_link(opendirectory@, files.deep_view()),
    {
        let root = String::from_str(opendirectory);
        let mut k: usize = 0;
        while k < files.len()
            invariant
                k <= files@.len(),
                root@ == opendirectory@,
                forall|j: int|
                    0 <= j < k ==> !self@.has_link(opendirectory@, #[trigger] files.deep_view()[j]),
            decreases files@.len() - k,
        {
            if self.holds_link(&root, &files[k].url) {
                assert(self@.has_link(opendirectory@, files.deep_view()[k as int]));
                return true;
            }
            k += 1;
        }
        false
    }

    /// Stores a link under the root with the address `root_url` for each of
    /// `files`, in order, whether or not the store holds that root.
    pub fn insert_links(&mut self, root_url: &str, files: &Vec<OdScanFile>)
        requires
            old(self).wf(),
        ensures
            final(self).wf(),
            final(self)@ == (DatabaseView {
                links: old(self)@.links + old(self)@.new_links(root_url@, files.deep_view()),
                ..old(self)@
            }),
    {
        let ghost before = self@;
        let ghost added = before.new_links(root_url@, files.deep_view());
        let mut k: usize = 0;
        assert(before.links + added.take(0) =~= before.links);
        while k < files.len()
            invariant
                k <= files@.len(),
                self@.opendirectories == before.opendirectories,
                self@.dead_threshold == before.dead_threshold,
                added == before.new_links(root_url@, files.deep_view()),
                self@.links == before.links + added.take(k as int),
            decreases files@.len() - k,
        {
            let ghost so_far = self@.links;
            assert(added.take(k as int).len() == k);
            assert(self@.links.len() == self.links@.len());
            let link = Link {
                id: Some(new_id(self.links.len())),
                opendirectory: String::from_str(root_url),
                url: files[k].url.clone(),
            };
            assert(link@ == added[k as int]);
            self.links.push(link);
            assert(self@.links =~= so_far.push(added[k as int]));
            k += 1;
            assert(before.links + added.take(k as int) =~= (before.links + added.take(
                k - 1,
            )).push(added[k - 1]));
        }
        assert(added.take(k as int) =~= added);
    }

    /// Stores the scan of a root: the root, and a link for each file. A root
    /// is stored once only: if the store holds a root with this address, or
    /// one of the files as a link under it, nothing is written and the result
    /// says which of the two it was.
    ///
    /// Whether the root was reachable when it was scanned has no bearing on
    /// what is stored: every root starts with a streak of zero. It decides
    /// only whether the links go to the index.
    pub fn save_scan_result(
        &mut self,
        root_url: &str,
        files: Vec<OdScanFile>,
        _is_reachable: bool,
    ) -> (saved: SaveResult)
        requires
            old(self).wf(),
        ensures
            final(self).wf(),
            saved == old(self)@.save_outcome(root_url@, files.deep_view()),
            final(self)@ == if saved == SaveResult::Success {
                old(self)@.after_save(root_url@, files.deep_view())
            } else {
                old(self)@
            },
    {
        let root_exists = self.holds_root(&String::from_str(root_url));
        let link_exists = !root_exists && self.holds_any_link(root_url, &files);
        let saved = SaveResult::decide(root_exists, link_exists);
        if saved != SaveResult::Success {
            return saved;
        }
        let ghost before = self@;
        let mut od = OpenDirectory::first_seen(root_url);
        od.id = Some(new_id(self.opendirectories.len()));
        assert(od@ == before.new_root(root_url@));
        self.opendirectories.push(od);
        assert(self@.opendirectories =~= before.opendirectories.push(before.new_root(root_url@)));
        proof {
            let after = self@;
            assert forall|i: int, j: int| 0 <= i < j < after.opendirectories.len() implies (
            #[trigger] after.opendirectories[i]).url != (
            #[trigger] after.opendirectories[j]).url by {
                if j == before.opendirectories.len() {
                    assert(before.opendirectories[i].url != root_url@);
                }
            }
        }
        self.insert_links(root_url, &files);
        SaveResult::Success
    }

    /// Writes the streak of a root back: the stored root with the address of
    /// `od` gets the streak of `od`. Returns whether the streak was written:
    /// it is not if the store holds no such root, or if the streak does not
    /// lie between zero and the threshold.
    pub fn save_opendirectory(&mut self, od: &OpenDirectory) -> (saved: bool)
        requires
            old(self).wf(),
        ensures
            final(self).wf(),
            saved == old(self)@.accepts(od@),
            final(self)@ == if saved {
                old(self)@.with_streak(od.url@, od.unreachable as int)
            } else {
                old(self)@
            },
    {
        if od.unreachable < 0 || od.unreachable > self.dead_threshold {
            return false;
        }
        let mut i: usize = 0;
        while i < self.opendirectories.len()
            invariant
                self == old(self),
                self.wf(),
                0 <= od.unreachable <= self@.dead_threshold,
                i <= self@.opendirectories.len(),
                forall|k: int| 0 <= k < i ==> (#[trigger] self@.opendirectories[k]).url != od.url@,
            decreases self@.opendirectories.len() - i,
        {
            if self.opendirectories[i].url == od.url {
                let ghost before = self@;
                assert(before.opendirectories[i as int].url == od.url@);
                let mut stored = self.opendirectories[i].clone();
                stored.unreachable = od.unreachable;
                self.opendirectories.set(i, stored);
                assert(self@.opendirectories =~= before.with_streak(
                    od.url@,
                    od.unreachable as int,
                ).opendirectories) by {
                    assert forall|k: int| 0 <= k < before.opendirectories.len() && k != i implies (
                    #[trigger] before.opendirectories[k]).url != od.url@ by {
                        if k < i {
                            assert(before.opendirectories[k].url != before.opendirectories[i as int].url);
                        } else {
                            assert(before.opendirectories[i as int].url != before.opendirectories[k].url);
                        }
                    }
                }
                assert(self@.links =~= before.links);
                return true;
            }
            i += 1;
        }
        false
    }
}

} // verus!
