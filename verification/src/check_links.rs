//! The liveness state machine of a root, and what a probe's outcome means.

use vstd::prelude::*;
use crate::db::{Link, LinkView, OpenDirectory, OpenDirectoryView};
use crate::elastic::{
    add_links_from_db, bulk_requests, delete_actions, index_actions, lemma_requests_cover,
    projections, remove_bulk, request_actions, BulkRequest, BulkRequestView, BULK_CHUNK_SIZE,
};
use crate::opt::{Opt, OptView};
use vstd::string::StringExecFns;
use crate::text::{
    chars_of, contains, find, first_index, is_infix, lemma_replaced_without_occurrence, occurs_at,
    replace, replaced, text_between,
};

verus! {

/// What has to happen to the search index after an observation.
#[derive(Debug, Clone, Copy, PartialEq, Eq, Structural)]
pub enum IndexAction {
    /// The index stays as it is.
    Nothing,
    /// The links of the root go back into the index.
    AddLinks,
    /// The links of the root leave the index.
    RemoveLinks,
}

/// The outcome of one observation for one root.
#[derive(Debug, Clone, Copy, PartialEq, Eq, Structural)]
pub struct Transition {
    /// The streak after the observation.
    pub unreachable: i32,
    /// Whether the streak changed, so that the root has to be written back.
    pub persist: bool,
    /// What has to happen to the search index.
    pub action: IndexAction,
}

/// A root is dead once its streak has reached the threshold.
pub open spec fn is_dead(streak: int, threshold: int) -> bool {
    streak >= threshold
}

/// The streak after one observation: a reachable root starts over at zero, an
/// unreachable one counts one up until the threshold is reached.
pub open spec fn next_streak(streak: int, reachable: bool, threshold: int) -> int {
    if reachable {
        0
    } else if streak < threshold {
        streak + 1
    } else {
        streak
    }
}

/// The index changes only at an edge: links come back when a dead root is
/// seen again, and leave when the streak reaches the threshold.
pub open spec fn index_action(streak: int, reachable: bool, threshold: int) -> IndexAction {
    if reachable {
        if is_dead(streak, threshold) {
            IndexAction::AddLinks
        } else {
            IndexAction::Nothing
        }
    } else if streak + 1 == threshold {
        IndexAction::RemoveLinks
    } else {
        IndexAction::Nothing
    }
}

/// A link is alive while its root is, unless its own streak is kept and has
/// reached the threshold.
pub open spec fn link_alive(link_streak: Option<int>, root_streak: int, threshold: int) -> bool {
    !is_dead(root_streak, threshold) && match link_streak {
        Some(streak) => !is_dead(streak, threshold),
        None => true,
    }
}

/// Whether a link is alive, given the streak of its root and its own, if one
/// is kept for it. A link that is not alive has no place in the index.
pub fn link_is_alive(link_streak: Option<i32>, root_streak: i32, threshold: i32) -> (alive: bool)
    ensures
        alive == link_alive(
            match link_streak {
                Some(streak) => Some(streak as int),
                None => None,
            },
            root_streak as int,
            threshold as int,
        ),
{
    root_streak < threshold && match link_streak {
        Some(streak) => streak < threshold,
        None => true,
    }
}

/// The whole outcome of one observation.
pub open spec fn transition(streak: int, reachable: bool, threshold: int) -> Transition {
    Transition {
        unreachable: next_streak(streak, reachable, threshold) as i32,
        persist: next_streak(streak, reachable, threshold) != streak,
        action: index_action(streak, reachable, threshold),
    }
}

/// The streak after a run of observations, the first of them applied first.
pub open spec fn streak_after(streak: int, observations: Seq<bool>, threshold: int) -> int
    decreases observations.len(),
{
    if observations.len() == 0 {
        streak
    } else {
        next_streak(
            streak_after(streak, observations.drop_last(), threshold),
            observations.last(),
            threshold,
        )
    }
}

/// A streak that lies between zero and the threshold stays there, whatever
/// is observed.
pub proof fn lemma_streak_in_range(streak: int, observations: Seq<bool>, threshold: int)
    requires
        0 <= streak <= threshold,
    ensures
        0 <= streak_after(streak, observations, threshold) <= threshold,
    decreases observations.len(),
{
    if observations.len() > 0 {
        lemma_streak_in_range(streak, observations.drop_last(), threshold);
    }
}

/// One reachable observation brings any streak back to zero.
pub proof fn lemma_reachable_resets(streak: int, observations: Seq<bool>, threshold: int)
    requires
        observations.len() > 0,
        observations.last(),
    ensures
        next_streak(streak, true, threshold) == 0,
        streak_after(streak, observations, threshold) == 0,
{
}

/// The last strike: a root that is alive with a streak one below the
/// threshold is dead after one unreachable observation, and that observation
/// asks for one removal, whose requests delete the entry of every stored link
/// of the root, each once. A further unreachable observation asks for nothing.
pub proof fn lemma_last_strike_removes(opt: OptView, streak: int, links: Seq<LinkView>)
    requires
        streak == opt.dead_threshold - 1,
    ensures
        !is_dead(streak, opt.dead_threshold),
        is_dead(next_streak(streak, false, opt.dead_threshold), opt.dead_threshold),
        index_action(streak, false, opt.dead_threshold) == IndexAction::RemoveLinks,
        request_actions(
            requests_for_action(opt, index_action(streak, false, opt.dead_threshold), links),
        ) == delete_actions(stored_ids(links)),
        index_action(next_streak(streak, false, opt.dead_threshold), false, opt.dead_threshold)
            == IndexAction::Nothing,
{
    lemma_requests_cover(opt, delete_actions(stored_ids(links)), BULK_CHUNK_SIZE as nat);
}

/// Recovery: a dead root is alive after one reachable observation, and that
/// observation asks for one re-addition, whose requests index every link of
/// the root that has a projection, each once. A further reachable observation
/// asks for nothing.
pub proof fn lemma_recovery_adds(opt: OptView, streak: int, links: Seq<LinkView>)
    requires
        opt.dead_threshold > 0,
        is_dead(streak, opt.dead_threshold),
    ensures
        !is_dead(next_streak(streak, true, opt.dead_threshold), opt.dead_threshold),
        index_action(streak, true, opt.dead_threshold) == IndexAction::AddLinks,
        request_actions(
            requests_for_action(opt, index_action(streak, true, opt.dead_threshold), links),
        ) == index_actions(projections(links)),
        index_action(next_streak(streak, true, opt.dead_threshold), true, opt.dead_threshold)
            == IndexAction::Nothing,
{
    lemma_requests_cover(opt, index_actions(projections(links)), BULK_CHUNK_SIZE as nat);
}

/// Applies one observation to a streak.
pub fn reconcile(streak: i32, reachable: bool, threshold: i32) -> (t: Transition)
    ensures
        t == transition(streak as int, reachable, threshold as int),
        t.unreachable == next_streak(streak as int, reachable, threshold as int),
        0 <= streak <= threshold ==> 0 <= t.unreachable <= threshold,
{
    let action = if reachable {
        if streak >= threshold {
            IndexAction::AddLinks
        } else {
            IndexAction::Nothing
        }
    } else if streak < threshold && streak + 1 == threshold {
        IndexAction::RemoveLinks
    } else {
        IndexAction::Nothing
    };
    let next: i32 = if reachable {
        0
    } else if streak < threshold {
        streak + 1
    } else {
        streak
    };
    Transition { unreachable: next, persist: next != streak, action }
}

/// Applies one observation to a root: sets its streak and says whether the
/// root has to be written back and what has to happen to the index.
pub fn persists_checked_opendirectory(opt: &Opt, od: &mut OpenDirectory, reachable: bool) -> (t:
    Transition)
    ensures
        t == transition(old(od).unreachable as int, reachable, opt.dead_threshold as int),
        final(od)@ == (OpenDirectoryView {
            unreachable: next_streak(
                old(od).unreachable as int,
                reachable,
                opt.dead_threshold as int,
            ),
            ..old(od)@
        }),
        reachable ==> final(od).unreachable == 0,
        0 <= old(od).unreachable <= opt.dead_threshold ==> 0 <= final(od).unreachable
            <= opt.dead_threshold,
{
    let t = reconcile(od.unreachable, reachable, opt.dead_threshold);
    od.unreachable = t.unreachable;
    t
}

/// The identifiers of the links that the store has assigned one, in the
/// order of the links.
pub open spec fn stored_ids(links: Seq<LinkView>) -> Seq<Seq<char>> {
    links.filter_map(|link: LinkView| link.id)
}

/// The requests that take the links of a root out of the index. A link that
/// was never stored has no identifier and is passed over.
pub fn remove_od_links(opt: &Opt, links: &Vec<Link>) -> (requests: Vec<BulkRequest>)
    ensures
        requests.deep_view() == bulk_requests(
            opt@,
            delete_actions(stored_ids(links.deep_view())),
            BULK_CHUNK_SIZE as nat,
        ),
{
    let mut ids: Vec<String> = Vec::new();
    let mut i: usize = 0;
    while i < links.len()
        invariant
            i <= links@.len(),
            ids.deep_view() == stored_ids(links.deep_view().take(i as int)),
        decreases links@.len() - i,
    {
        proof {
            links.deep_view().lemma_filter_map_take_succ(|link: LinkView| link.id, i as int);
        }
        let ghost before = ids.deep_view();
        match &links[i].id {
            Some(id) => {
                ids.push(id.clone());
                assert(ids.deep_view() =~= before + seq![id@]);
            },
            None => {},
        }
        i += 1;
    }
    assert(links.deep_view().take(i as int) =~= links.deep_view());
    remove_bulk(opt, ids.as_slice())
}

/// The requests that an index action stands for, given the links of the root
/// as the store holds them.
pub open spec fn requests_for_action(opt: OptView, action: IndexAction, links: Seq<LinkView>) -> Seq<
    BulkRequestView,
> {
    match action {
        IndexAction::Nothing => Seq::empty(),
        IndexAction::AddLinks => bulk_requests(
            opt,
            index_actions(projections(links)),
            BULK_CHUNK_SIZE as nat,
        ),
        IndexAction::RemoveLinks => bulk_requests(
            opt,
            delete_actions(stored_ids(links)),
            BULK_CHUNK_SIZE as nat,
        ),
    }
}

/// The requests that carry out an index action for a root, given its links
/// as the store holds them.
pub fn index_requests(opt: &Opt, action: IndexAction, links: &Vec<Link>) -> (requests: Vec<
    BulkRequest,
>)
    ensures
        requests.deep_view() == requests_for_action(opt@, action, links.deep_view()),
{
    match action {
        IndexAction::Nothing => {
            let requests: Vec<BulkRequest> = Vec::new();
            assert(requests.deep_view() =~= Seq::<BulkRequestView>::empty());
            requests
        },
        IndexAction::AddLinks => add_links_from_db(opt, links),
        IndexAction::RemoveLinks => remove_od_links(opt, links),
    }
}

/// A root after an observation, with what the observation asks for.
#[derive(Debug, PartialEq, Eq)]
pub struct Checked {
    /// The root, with its new streak.
    pub od: OpenDirectory,
    /// Whether to write the root back, and what to do to the index.
    pub transition: Transition,
}

/// The outcome for one observed root.
pub open spec fn checked(od: OpenDirectoryView, reachable: bool, threshold: int) -> (
    OpenDirectoryView,
    Transition,
) {
    (
        OpenDirectoryView { unreachable: next_streak(od.unreachable, reachable, threshold), ..od },
        transition(od.unreachable, reachable, threshold),
    )
}

/// Applies a batch of observations, one for each root: every root is
/// reconciled on its own, in the order given.
pub fn check_opendirectories(opt: &Opt, observed: Vec<(OpenDirectory, bool)>) -> (results: Vec<
    Checked,
>)
    ensures
        results@.len() == observed@.len(),
        forall|i: int|
            0 <= i < results@.len() ==> ((#[trigger] results@[i]).od@, results@[i].transition)
                == checked(observed@[i].0@, observed@[i].1, opt.dead_threshold as int),
{
    let mut results: Vec<Checked> = Vec::new();
    let mut i: usize = 0;
    while i < observed.len()
        invariant
            i <= observed@.len(),
            results@.len() == i,
            forall|k: int|
                0 <= k < i ==> ((#[trigger] results@[k]).od@, results@[k].transition) == checked(
                    observed@[k].0@,
                    observed@[k].1,
                    opt.dead_threshold as int,
                ),
        decreases observed@.len() - i,
    {
        let mut od = observed[i].0.clone();
        let transition = persists_checked_opendirectory(opt, &mut od, observed[i].1);
        results.push(Checked { od, transition });
        i += 1;
    }
    results
}

/// How a probe is to be made: a request for the headers only, sent to `uri`.
#[derive(Debug, PartialEq, Eq)]
pub struct ProbeRequest {
    /// Where the request goes.
    pub uri: String,
    /// Value of the `Referer` header, if the request carries one.
    pub referer: Option<String>,
    /// Seconds allowed for connecting, and for the whole exchange.
    pub timeout: u64,
    /// Whether a certificate that does not validate is accepted. The hosts
    /// probed are public and uncurated, so it always is.
    pub accept_invalid_certs: bool,
}

/// A [`ProbeRequest`] as contracts see it.
pub struct ProbeRequestView {
    pub uri: Seq<char>,
    pub referer: Option<Seq<char>>,
    pub timeout: nat,
    pub accept_invalid_certs: bool,
}

impl View for ProbeRequest {
    type V = ProbeRequestView;

    open spec fn view(&self) -> ProbeRequestView {
        ProbeRequestView {
            uri: self.uri@,
            referer: self.referer.deep_view(),
            timeout: self.timeout as nat,
            accept_invalid_certs: self.accept_invalid_certs,
        }
    }
}

/// How a probe ended.
#[derive(Debug, Clone, Copy, PartialEq, Eq, Structural)]
pub enum ProbeOutcome {
    /// No request could be made of the address.
    Malformed,
    /// The request failed or ran out of time before an answer came.
    Failed,
    /// The server answered with this status.
    Status(u16),
}

/// An address with every space written as `%20`.
pub open spec fn patched(link: Seq<char>) -> Seq<char> {
    replaced(link, " "@, "%20"@)
}

/// The alias under which one provider serves its directories to get past
/// filters.
pub const ALIAS_DOMAIN: &'static str = "driveindex.ga";

/// The domain that the provider answers on when asked with the aliased
/// address as referer.
pub const CANONICAL_DOMAIN: &'static str = "hashhackers.com";

/// What stands between the scheme of an address and its host.
pub const SCHEME_END: &'static str = "://";

/// A character that ends the host of an address.
pub open spec fn ends_host(c: char) -> bool {
    c == '/' || c == '?' || c == '#'
}

/// Where a host that begins at index `from` ends: at the first `/`, `?` or
/// `#`, or at the end of the address.
pub open spec fn host_end(link: Seq<char>, from: int) -> int
    decreases link.len() - from,
{
    if from < 0 || from >= link.len() {
        link.len() as int
    } else if ends_host(link[from]) {
        from
    } else {
        host_end(link, from + 1)
    }
}

/// Where the host of an address begins: behind the first `://`. An address
/// without `://` has no host.
pub open spec fn host_start(link: Seq<char>) -> Option<int> {
    if first_index(link, SCHEME_END@, 0) < 0 {
        None
    } else {
        Some(first_index(link, SCHEME_END@, 0) + SCHEME_END@.len())
    }
}

/// The host of an address: what stands between the first `://` and the next
/// `/`, `?` or `#`, or the end. Empty for an address without `://`.
pub open spec fn host_of(link: Seq<char>) -> Seq<char> {
    match host_start(link) {
        Some(start) => link.subrange(start, host_end(link, start)),
        None => Seq::empty(),
    }
}

/// The host of the address holds the alias.
pub open spec fn on_alias(link: Seq<char>) -> bool {
    is_infix(host_of(link), ALIAS_DOMAIN@)
}

/// The address with the alias in its host replaced by the canonical domain.
/// What stands before and behind the host stays as it is.
pub open spec fn on_canonical(link: Seq<char>) -> Seq<char> {
    match host_start(link) {
        Some(start) => link.take(start) + replaced(
            host_of(link),
            ALIAS_DOMAIN@,
            CANONICAL_DOMAIN@,
        ) + link.skip(host_end(link, start)),
        None => link,
    }
}

/// The probe for `link`: spaces are encoded, and an address whose host holds
/// the alias is asked for on the canonical domain instead, with the address
/// itself as referer. The alias anywhere else in the address changes
/// nothing.
pub open spec fn probe_for(link: Seq<char>, timeout: nat) -> ProbeRequestView {
    if on_alias(patched(link)) {
        ProbeRequestView {
            uri: on_canonical(patched(link)),
            referer: Some(patched(link)),
            timeout,
            accept_invalid_certs: true,
        }
    } else {
        ProbeRequestView {
            uri: patched(link),
            referer: None,
            timeout,
            accept_invalid_certs: true,
        }
    }
}

/// The workaround is a narrow exception: an address without spaces whose
/// host does not hold the alias is probed as it is, without a referer,
/// wherever else in the address the alias may stand.
pub proof fn lemma_probe_leaves_other_hosts_alone(link: Seq<char>, timeout: nat)
    requires
        !is_infix(link, " "@),
        !on_alias(link),
    ensures
        probe_for(link, timeout) == (ProbeRequestView {
            uri: link,
            referer: None,
            timeout,
            accept_invalid_certs: true,
        }),
{
    lemma_replaced_without_occurrence(link, " "@, "%20"@);
}

/// The index at which a host that begins at index `from` ends.
fn host_end_of(link: &Vec<char>, from: usize) -> (end: usize)
    requires
        from <= link@.len(),
    ensures
        end == host_end(link@, from as int),
        from <= end <= link@.len(),
{
    let mut end: usize = from;
    while end < link.len() && !(link[end] == '/' || link[end] == '?' || link[end] == '#')
        invariant
            from <= end <= link@.len(),
            host_end(link@, from as int) == host_end(link@, end as int),
        decreases link@.len() - end,
    {
        end += 1;
    }
    end
}

/// How to probe `link`, with `timeout` seconds allowed.
pub fn probe_request(link: &str, timeout: u64) -> (request: ProbeRequest)
    ensures
        request@ == probe_for(link@, timeout as nat),
{
    let link = replace(link, " ", "%20");
    let chars = chars_of(link.as_str());
    let scheme_end = chars_of(SCHEME_END);
    match find(&chars, &scheme_end, 0) {
        Some(at) => {
            assert(occurs_at(chars@, scheme_end@, at as int));
            let start: usize = at + scheme_end.len();
            let end: usize = host_end_of(&chars, start);
            let host = text_between(&chars, start, end);
            assert(host@ == host_of(link@));
            if contains(host.as_str(), ALIAS_DOMAIN) {
                let mut uri = text_between(&chars, 0, start);
                uri.append(replace(host.as_str(), ALIAS_DOMAIN, CANONICAL_DOMAIN).as_str());
                uri.append(text_between(&chars, end, chars.len()).as_str());
                assert(uri@ =~= on_canonical(link@));
                return ProbeRequest {
                    uri,
                    referer: Some(link),
                    timeout,
                    accept_invalid_certs: true,
                };
            }
        },
        None => {
            proof {
                reveal_strlit("driveindex.ga");
                assert(host_of(link@) =~= Seq::<char>::empty());
                assert(forall|i: int| !occurs_at(host_of(link@), ALIAS_DOMAIN@, i));
            }
        },
    }
    ProbeRequest { uri: link, referer: None, timeout, accept_invalid_certs: true }
}

/// A probe found its target reachable if the server answered with a status
/// of success (200 to 299) or of redirection (300 to 399).
pub open spec fn counts_as_reachable(outcome: ProbeOutcome) -> bool {
    match outcome {
        ProbeOutcome::Status(status) => 200 <= status < 400,
        _ => false,
    }
}

/// Whether a probe found its target reachable. Whatever went wrong on the
/// way counts as unreachable.
pub fn link_is_reachable(outcome: ProbeOutcome) -> (is_reachable: bool)
    ensures
        is_reachable == counts_as_reachable(outcome),
{
    match outcome {
        ProbeOutcome::Status(status) => 200 <= status && status < 400,
        _ => false,
    }
}

} // verus!
