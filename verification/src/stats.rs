//! Dumps of the links: how a dump is named, what it holds, and which older
//! dumps give way to a new one.

use vstd::prelude::*;
use vstd::string::StringExecFns;
use crate::db::{Link, LinkView};
use crate::elastic::has_url;

verus! {

/// The pattern that the name of a dump matches.
pub const DUMP_PATTERN: &'static str = r"dump-[\d-]+.txt.7z";

/// Whether `text` holds a match of the regular expression `pattern`, as the
/// crate `regex` reads patterns; `None` where it does not accept `pattern`.
pub uninterp spec fn regex_match(pattern: Seq<char>, text: Seq<char>) -> Option<bool>;

/// Whether `text` holds a match of `pattern`.
///
/// Trusted: compiles `pattern` with `regex::Regex::new` and, if that
/// succeeds, calls `is_match` on `text`, which says whether there is a match
/// anywhere in it. Both depend on the two texts alone; the contract names the
/// outcome [`regex_match`].
#[verifier::external_body]
fn matches(pattern: &str, text: &str) -> (found: Option<bool>)
    ensures
        found == regex_match(pattern@, text@),
{
    match regex::Regex::new(pattern) {
        Ok(compiled) => Some(compiled.is_match(text)),
        Err(_) => None,
    }
}

/// The name of the dump made at the time that `stamp` spells out.
pub open spec fn dump_name(stamp: Seq<char>) -> Seq<char> {
    "dump-"@ + stamp + ".txt.7z"@
}

/// The name of the dump made at the time that `stamp` spells out.
pub fn dump_file_name(stamp: &str) -> (name: String)
    ensures
        name@ == dump_name(stamp@),
{
    let mut name = String::from_str("dump-");
    name.append(stamp);
    name.append(".txt.7z");
    name
}

/// The public address of the dump with this file name.
pub fn dump_url(filename: &str) -> (url: String)
    ensures
        url@ == "https://discovery.odcrawler.xyz/"@ + filename@,
{
    let mut url = String::from_str("https://discovery.odcrawler.xyz/");
    url.append(filename);
    url
}

/// The line that a link adds to a dump: its address, if its root is alive.
pub open spec fn dumped(alive: Seq<Seq<char>>, link: LinkView) -> Option<Seq<char>> {
    if alive.contains(link.opendirectory) {
        Some(link.url.push('\n'))
    } else {
        None
    }
}

/// The line that a link adds to a dump, if it adds one. `alive_ods` holds the
/// addresses of the roots that are alive.
pub fn dump_line(alive_ods: &Vec<String>, link: &Link) -> (line: Option<String>)
    ensures
        line.deep_view() == dumped(alive_ods.deep_view(), link@),
{
    if has_url(alive_ods, &link.opendirectory) {
        let mut line = link.url.clone();
        line.append("\n");
        proof {
            reveal_strlit("\n");
            assert(line@ =~= link.url@.push('\n'));
        }
        Some(line)
    } else {
        None
    }
}

/// The lines of a dump: one for each link of a root that is alive, in the
/// order of the links.
pub open spec fn dump_lines(alive: Seq<Seq<char>>, links: Seq<LinkView>) -> Seq<Seq<char>> {
    links.filter_map(|link: LinkView| dumped(alive, link))
}

/// What a dump holds and how it is published. The program around the
/// library compresses the text into the file and adds what only the file
/// system knows.
#[derive(Debug, PartialEq, Eq)]
pub struct Dump {
    /// Name of the file that takes the compressed text.
    pub file_name: String,
    /// Public address of that file.
    pub url: String,
    /// The text: the address of each link, each on a line of its own.
    pub text: String,
    /// Number of links in the text.
    pub links: u64,
    /// Number of bytes that the text takes, encoded as UTF-8.
    pub size_uncompressed: u64,
}

/// The dump made at the time that `stamp` spells out: the addresses of those
/// of `links` whose root is among `alive_ods`.
pub fn create_dump(alive_ods: &Vec<String>, links: &Vec<Link>, stamp: &str) -> (dump: Dump)
    ensures
        dump.file_name@ == dump_name(stamp@),
        dump.url@ == "https://discovery.odcrawler.xyz/"@ + dump_name(stamp@),
        dump.text@ == dump_lines(alive_ods.deep_view(), links.deep_view()).flatten(),
        dump.links == dump_lines(alive_ods.deep_view(), links.deep_view()).len(),
        dump.size_uncompressed == vstd::utf8::encode_utf8(dump.text@).len(),
{
    let ghost alive = alive_ods.deep_view();
    let ghost all = links.deep_view();
    let mut text = String::new();
    let mut count: u64 = 0;
    let mut i: usize = 0;
    assert(dump_lines(alive, all.take(0)) =~= Seq::<Seq<char>>::empty());
    while i < links.len()
        invariant
            alive == alive_ods.deep_view(),
            all == links.deep_view(),
            i <= links@.len(),
            text@ == dump_lines(alive, all.take(i as int)).flatten(),
            count == dump_lines(alive, all.take(i as int)).len(),
            count <= i,
        decreases links@.len() - i,
    {
        proof {
            all.lemma_filter_map_take_succ(|link: LinkView| dumped(alive, link), i as int);
        }
        match dump_line(alive_ods, &links[i]) {
            Some(line) => {
                proof {
                    dump_lines(alive, all.take(i as int)).lemma_flatten_push(line@);
                    assert(dump_lines(alive, all.take(i + 1)) =~= dump_lines(
                        alive,
                        all.take(i as int),
                    ).push(line@));
                }
                text.append(line.as_str());
                count += 1;
            },
            None => {
                assert(dump_lines(alive, all.take(i + 1)) =~= dump_lines(
                    alive,
                    all.take(i as int),
                ));
            },
        }
        i += 1;
    }
    assert(all.take(i as int) =~= all);
    let file_name = dump_file_name(stamp);
    let url = dump_url(file_name.as_str());
    let size_uncompressed = text.as_str().as_bytes().len() as u64;
    Dump { file_name, url, text, links: count, size_uncompressed }
}

/// Whether an entry of the public directory gives way to the dump `current`,
/// given whether its name matches the pattern of dumps: it does if it is a
/// file, a dump, and not the current one.
pub fn gives_way(name: &str, is_file: bool, current: &str, is_dump: bool) -> (stale: bool)
    ensures
        stale == (is_file && name@ != current@ && is_dump),
{
    is_file && !(String::from_str(name) == String::from_str(current)) && is_dump
}

/// Whether an entry of the public directory is an old dump that gives way to
/// the dump `current`. `None` where the pattern of dumps is not accepted.
pub fn is_stale_dump(name: &str, is_file: bool, current: &str) -> (stale: Option<bool>)
    ensures
        stale == match regex_match(DUMP_PATTERN@, name@) {
            Some(is_dump) => Some(is_file && name@ != current@ && is_dump),
            None => None,
        },
{
    match matches(DUMP_PATTERN, name) {
        Some(is_dump) => Some(gives_way(name, is_file, current, is_dump)),
        None => None,
    }
}

} // verus!
