//! Per-domain robots policy: the `Crawl-delay` parser, the per-domain
//! cache of fetched robots files, and the allow/deny matcher.

use vstd::prelude::*;
use vstd::slice::slice_subrange;

use crate::content::decode_utf8_bytes;
use crate::text::{
    contains_bytes, contains_seq, parse_u64_ascii, parsed_u64, tail_after_last,
    tail_after_last_byte, trim_ascii, trimmed,
};
use vstd::utf8::valid_utf8;

verus! {

/// The bytes of `Crawl-delay`, the directive this parser scans for.
pub open spec fn crawl_delay_token() -> Seq<u8> {
    seq![67u8, 114u8, 97u8, 119u8, 108u8, 45u8, 100u8, 101u8, 108u8, 97u8, 121u8]
}

/// The directive name as a byte vector, for the substring search.
fn crawl_delay_needle() -> (r: Vec<u8>)
    ensures
        r@ == crawl_delay_token(),
{
    let mut v: Vec<u8> = Vec::new();
    v.push(67);
    v.push(114);
    v.push(97);
    v.push(119);
    v.push(108);
    v.push(45);
    v.push(100);
    v.push(101);
    v.push(108);
    v.push(97);
    v.push(121);
    proof {
        assert(v@ =~= crawl_delay_token());
    }
    v
}

/// Index of the first line feed in `s`, or its length when none occurs.
pub open spec fn first_newline(s: Seq<u8>) -> nat
    decreases s.len(),
{
    if s.len() == 0 {
        0
    } else if s[0] == 10 {
        0
    } else {
        1 + first_newline(s.drop_first())
    }
}

proof fn lemma_first_newline_le(s: Seq<u8>)
    ensures
        first_newline(s) <= s.len(),
    decreases s.len(),
{
    if s.len() > 0 && s[0] != 10 {
        lemma_first_newline_le(s.drop_first());
    }
}

proof fn lemma_first_newline_at(s: Seq<u8>, k: int)
    requires
        0 <= k <= s.len(),
        forall|j: int| 0 <= j < k ==> s[j] != 10,
        k < s.len() ==> s[k] == 10,
    ensures
        first_newline(s) == k,
    decreases k,
{
    if k > 0 {
        lemma_first_newline_at(s.drop_first(), k - 1);
    }
}

/// A line with one trailing carriage return removed, as `str::lines`
/// hands lines out.
pub open spec fn strip_cr(line: Seq<u8>) -> Seq<u8> {
    if line.len() > 0 && line.last() == 13 {
        line.drop_last()
    } else {
        line
    }
}

/// The crawl delay a single robots line yields: the line must name the
/// directive, and the piece after its last colon, trimmed, must parse
/// as an unsigned number.
pub open spec fn line_delay(line: Seq<u8>) -> Option<u64> {
    if contains_seq(line, crawl_delay_token()) {
        parsed_u64(trimmed(tail_after_last(line, 58)))
    } else {
        None
    }
}

/// The crawl delay of a whole robots file: what the first line naming
/// `Crawl-delay` with a parsable value yields; `None` when no line does.
pub open spec fn crawl_delay_of(content: Seq<u8>) -> Option<u64>
    decreases content.len(),
    via crawl_delay_of_decreases
{
    let k = first_newline(content) as int;
    let line = strip_cr(content.subrange(0, k));
    if line_delay(line) is Some {
        line_delay(line)
    } else if k == content.len() {
        None
    } else {
        crawl_delay_of(content.subrange(k + 1, content.len() as int))
    }
}

#[via_fn]
proof fn crawl_delay_of_decreases(content: Seq<u8>) {
    lemma_first_newline_le(content);
}

/// Scan a robots file for its `Crawl-delay`, line by line; the first
/// line that names the directive and carries a parsable value after its
/// last colon wins.
pub fn parse_crawl_delay(content: &[u8]) -> (r: Option<u64>)
    ensures
        r == crawl_delay_of(content@),
{
    let needle = crawl_delay_needle();
    let total = content.len();
    proof {
        assert(content@.len() == total);
        assert(content@.subrange(0, content@.len() as int) =~= content@);
    }
    let mut p: usize = 0;
    loop
        invariant
            p <= content@.len(),
            content@.len() <= usize::MAX,
            needle@ == crawl_delay_token(),
            crawl_delay_of(content@) == crawl_delay_of(
                content@.subrange(p as int, content@.len() as int),
            ),
        decreases content@.len() - p,
    {
        let ghost suffix = content@.subrange(p as int, content@.len() as int);
        let mut k: usize = p;
        while k < content.len() && content[k] != 10
            invariant
                p <= k <= content@.len(),
                forall|j: int| p <= j < k ==> content@[j] != 10,
            decreases content.len() - k,
        {
            k = k + 1;
        }
        proof {
            assert forall|j: int| 0 <= j < k - p implies suffix[j] != 10 by {
                assert(suffix[j] == content@[j + p]);
            }
            if k < content@.len() {
                assert(suffix[k - p] == content@[k as int]);
            }
            lemma_first_newline_at(suffix, k - p);
        }
        let e: usize = if k > p && content[k - 1] == 13 {
            k - 1
        } else {
            k
        };
        proof {
            assert(content@.subrange(p as int, k as int) =~= suffix.subrange(0, k - p));
            assert(strip_cr(suffix.subrange(0, k - p)) =~= content@.subrange(p as int, e as int));
        }
        let line = slice_subrange(content, p, e);
        let found = contains_bytes(line, needle.as_slice());
        if found {
            let seg = tail_after_last_byte(line, 58);
            let t = trim_ascii(seg);
            match parse_u64_ascii(t) {
                Some(v) => {
                    proof {
                        assert(line_delay(line@) == Some(v));
                        assert(crawl_delay_of(suffix) == Some(v));
                    }
                    return Some(v);
                },
                None => {
                    proof {
                        assert(line_delay(line@) is None);
                    }
                },
            }
        } else {
            proof {
                assert(line_delay(line@) is None);
            }
        }
        if k == content.len() {
            proof {
                assert(crawl_delay_of(suffix) is None);
            }
            return None;
        }
        proof {
            assert(suffix.subrange(k - p + 1, suffix.len() as int) =~= content@.subrange(
                k + 1,
                content@.len() as int,
            ));
        }
        p = k + 1;
    }
}

/// A domain's cached robots state: the raw file when the fetch
/// succeeded (`None` means the fetch failed, so the domain has no
/// policy), and the parsed crawl delay (`None` when missing or
/// unparsable).
#[derive(Clone)]
pub struct RobotsEntry {
    pub content: Option<Vec<u8>>,
    pub crawl_delay: Option<u64>,
}

impl View for RobotsEntry {
    type V = (Option<Seq<u8>>, Option<u64>);

    open spec fn view(&self) -> (Option<Seq<u8>>, Option<u64>) {
        (self.content.deep_view(), self.crawl_delay)
    }
}

/// Build the cache entry for a fetch outcome.  A failed fetch caches an
/// explicit no-policy entry, so the domain is never fetched twice.
pub fn robots_entry_of_fetch(content: Option<Vec<u8>>) -> (e: RobotsEntry)
    ensures
        e@.0 == content.deep_view(),
        e@.1 == match content {
            Some(c) => crawl_delay_of(c@),
            None => None::<u64>,
        },
{
    match content {
        Some(c) => {
            let d = parse_crawl_delay(c.as_slice());
            RobotsEntry { content: Some(c), crawl_delay: d }
        },
        None => RobotsEntry { content: None, crawl_delay: None },
    }
}

#[verifier::external_type_specification]
#[verifier::external_body]
#[verifier::reject_recursive_types(K)]
#[verifier::reject_recursive_types(V)]
#[verifier::reject_recursive_types(S)]
pub struct ExIndexMap<K, V, S>(indexmap::IndexMap<K, V, S>);

/// What the robots cache holds: each cached domain, to its entry's view.
pub uninterp spec fn robots_cache_of(m: indexmap::IndexMap<String, RobotsEntry>) -> Map<
    Seq<char>,
    (Option<Seq<u8>>, Option<u64>),
>;

/// The view of a cache that holds nothing.
pub open spec fn empty_robots_cache() -> Map<Seq<char>, (Option<Seq<u8>>, Option<u64>)> {
    Map::empty()
}

/// Relies on `indexmap::IndexMap::new`: a fresh map is empty.
#[verifier::external_body]
pub(crate) fn robots_cache_new() -> (m: indexmap::IndexMap<String, RobotsEntry>)
    ensures
        robots_cache_of(m) == empty_robots_cache(),
{
    indexmap::IndexMap::new()
}

/// Relies on `indexmap::IndexMap::get`: yields the entry stored for the
/// key, and nothing for a key never inserted.
#[verifier::external_body]
pub(crate) fn robots_cache_lookup(m: &indexmap::IndexMap<String, RobotsEntry>, domain: &str) -> (r:
    Option<RobotsEntry>)
    ensures
        r matches Some(e) ==> robots_cache_of(*m).contains_key(domain@) && robots_cache_of(
            *m,
        )[domain@] == e@,
        r is None ==> !robots_cache_of(*m).contains_key(domain@),
{
    m.get(domain).cloned()
}

/// Relies on `indexmap::IndexMap::insert`: maps the key to the new
/// entry and keeps every other key.
#[verifier::external_body]
pub(crate) fn robots_cache_store(
    m: &mut indexmap::IndexMap<String, RobotsEntry>,
    domain: String,
    e: RobotsEntry,
)
    ensures
        robots_cache_of(*final(m)) == robots_cache_of(*old(m)).insert(domain@, e@),
{
    m.insert(domain, e);
}

/// A line-ending byte, as the matcher's parser counts lines: line feed
/// or carriage return.
pub open spec fn is_line_end(b: u8) -> bool {
    b == 10 || b == 13
}

/// The window of `n` bytes starting at `w` holds a line ending.
pub open spec fn window_has_line_end(c: Seq<u8>, w: int, n: int) -> bool {
    exists|k: int| w <= k < w + n && is_line_end(#[trigger] c[k])
}

/// Every window of `n` consecutive bytes holds a line ending, so no
/// line of `c` is `n` bytes long or longer.
pub open spec fn lines_within(c: Seq<u8>, n: int) -> bool {
    forall|w: int| 0 <= w && w + n <= c.len() ==> #[trigger] window_has_line_end(c, w, n)
}

/// A robots file the matcher is fed: valid UTF-8 (so the text the
/// matcher sees is exactly these bytes) with every line shorter than
/// 16384 bytes (safely below the matcher's 16664-byte line buffer, whose
/// overflow handling mixes byte and character offsets and can panic on
/// multibyte text).  Anything else is treated as no policy.
pub open spec fn robots_text_ok(c: Seq<u8>) -> bool {
    valid_utf8(c) && lines_within(c, 16384)
}

/// Decide `robots_text_ok`: decode, then scan for an over-long line.
pub fn robots_checkable(content: &[u8]) -> (r: bool)
    ensures
        r == robots_text_ok(content@),
{
    if decode_utf8_bytes(content).is_none() {
        return false;
    }
    let mut i: usize = 0;
    let mut run: usize = 0;
    while i < content.len()
        invariant
            i <= content@.len(),
            run <= i,
            run < 16384,
            forall|k: int| i - run <= k < i ==> !is_line_end(#[trigger] content@[k]),
            i - run > 0 ==> is_line_end(content@[i - run - 1]),
            forall|w: int|
                0 <= w && w + 16384 <= i ==> #[trigger] window_has_line_end(content@, w, 16384),
        decreases content.len() - i,
    {
        let b = content[i];
        if b == 10 || b == 13 {
            run = 0;
            proof {
                assert forall|w: int| 0 <= w && w + 16384 <= i + 1 implies #[trigger] window_has_line_end(
                    content@,
                    w,
                    16384,
                ) by {
                    if w + 16384 == i + 1 {
                        assert(is_line_end(content@[i as int]));
                        assert(window_has_line_end(content@, w, 16384));
                    }
                }
            }
        } else {
            run = run + 1;
            if run >= 16384 {
                proof {
                    let w = i + 1 - 16384;
                    assert forall|k: int| w <= k < w + 16384 implies !is_line_end(
                        content@[k],
                    ) by {
                        if k < i {
                            assert(!is_line_end(content@[k]));
                        } else {
                            assert(content@[k] == b);
                        }
                    }
                    assert(!window_has_line_end(content@, w, 16384));
                    assert(!lines_within(content@, 16384));
                }
                return false;
            }
            proof {
                assert forall|w: int| 0 <= w && w + 16384 <= i + 1 implies #[trigger] window_has_line_end(
                    content@,
                    w,
                    16384,
                ) by {
                    if w + 16384 == i + 1 {
                        let e = i - run;
                        assert(i + 1 - run > 0);
                        assert(is_line_end(content@[e]));
                        assert(w <= e < w + 16384);
                        assert(window_has_line_end(content@, w, 16384));
                    }
                }
            }
        }
        i = i + 1;
    }
    true
}

/// What `robotstxt`'s matcher answers for a robots file, a user agent
/// and a URL.
pub uninterp spec fn robots_allows(content: Seq<u8>, agent: Seq<char>, url: Seq<char>) -> bool;

/// Relies on `robotstxt::DefaultMatcher::one_agent_allowed_by_robots`:
/// a fresh matcher decides from its three arguments alone.  The
/// precondition keeps the matcher's line parser on character boundaries
/// (see `robots_text_ok`): for valid UTF-8 the lossy conversion below is
/// the identity, and with every line below its buffer the parser never
/// takes the overflow path whose offsets can desynchronise and panic.
#[verifier::external_body]
pub(crate) fn robots_allowed(content: &[u8], agent: &str, url: &str) -> (r: bool)
    requires
        robots_text_ok(content@),
    ensures
        r == robots_allows(content@, agent@, url@),
{
    let text = String::from_utf8_lossy(content);
    robotstxt::DefaultMatcher::default().one_agent_allowed_by_robots(&text, agent, url)
}

} // verus!
