//! The bounded, polite crawler, as a step machine.
//!
//! A `CrawlSession` owns the traversal state: the frontier of scheduled
//! visits, the set of visited URLs, the per-domain robots cache, and the
//! phase of the visit in flight.  Callers drive it: `advance` yields the
//! next action (fetch a robots file, wait, fetch a page), the caller
//! performs it, and hands the outcome back through `robots_fetched`,
//! `waited` and `page_fetched`.  The machine makes every decision the
//! crawl needs — admission, robots policy, pacing, content filtering,
//! same-domain scoping and deduplication — and its invariant carries the
//! crawl's guarantees, stated as the lemmas at the end of this module.

use vstd::prelude::*;
use vstd::slice::slice_to_vec;
use vstd::string::StringExecFns;
use vstd::utf8::{decode_utf8, valid_utf8};

use crate::config::{CrawlerConfig, CrawlerBuilder};
use crate::content::{
    content_admitted, decode_utf8_bytes, extract_links, extracted_hrefs_of, mime_admitted,
    sniff_mime, sniffed_mime_of,
};
use crate::robots::{
    robots_allowed, robots_allows, robots_cache_lookup, robots_cache_new, robots_cache_of,
    robots_cache_store, robots_checkable, robots_entry_of_fetch, robots_text_ok, RobotsEntry,
};
use crate::urlparse::{join_url, parse_url, url_join_of, url_parse_of, UrlParts};

verus! {

/// `v` holds the text `s`.
pub open spec fn contains_text(v: Seq<Seq<char>>, s: Seq<char>) -> bool {
    exists|i: int| 0 <= i < v.len() && v[i] == s
}

/// No text occurs twice in `v`.
pub open spec fn no_dup_texts(v: Seq<Seq<char>>) -> bool {
    forall|i: int, j: int| 0 <= i < j < v.len() ==> v[i] != v[j]
}

/// Pushing a fresh text keeps a duplicate-free list duplicate-free,
/// keeps every text it held, and now holds the new one.
proof fn lemma_push_fresh_text(before: Seq<Seq<char>>, x: Seq<char>, after: Seq<Seq<char>>)
    requires
        after == before.push(x),
        no_dup_texts(before),
        !contains_text(before, x),
    ensures
        no_dup_texts(after),
        forall|s: Seq<char>| contains_text(before, s) ==> contains_text(after, s),
        contains_text(after, x),
{
    assert forall|i: int, j: int| 0 <= i < j < after.len() implies after[i] != after[j] by {
        if j < before.len() {
            assert(after[i] == before[i] && after[j] == before[j]);
        } else {
            assert(after[j] == x && after[i] == before[i]);
            if before[i] == x {
                assert(contains_text(before, x));
            }
        }
    }
    assert forall|s: Seq<char>| contains_text(before, s) implies contains_text(after, s) by {
        let k = choose|k: int| 0 <= k < before.len() && before[k] == s;
        assert(after[k] == s);
    }
    assert(after[before.len() as int] == x);
}

/// The one fatal crawl error: a seed URL that does not parse.
#[derive(Clone, Copy, Debug, PartialEq, Eq)]
pub enum CrawlError {
    InvalidSeed,
}

/// What the driver is asked to do next.
pub enum CrawlAction {
    /// The traversal has quiesced.
    Done,
    /// Fetch the robots file at this URL, then report `robots_fetched`.
    FetchRobots { url: String },
    /// Sleep this many seconds, then report `waited`.
    Wait { seconds: u64 },
    /// Fetch this page, then report `page_fetched`.
    FetchPage { url: String },
    /// The visit in flight was dropped by policy; ask `advance` again.
    Skipped,
}

/// A fetched page, as the driver reports it.
pub struct FetchedPage {
    /// The response carried a `cf-mitigated: challenge` header.
    pub cf_mitigated: bool,
    /// The response body.
    pub body: Vec<u8>,
}

/// One crawled page, as handed to the index writer.
pub struct PageTuple {
    pub text: String,
    pub url: String,
    pub origin_url: String,
    pub depth: usize,
}

/// The ghost record of one emission.
pub ghost struct EmittedPage {
    pub url: Seq<char>,
    pub scheme: Seq<char>,
    pub host: Seq<char>,
    pub depth: int,
    pub body: Seq<u8>,
    pub text: Seq<char>,
    pub origin: Seq<char>,
}

/// A scheduled visit.
struct Pending {
    url: UrlParts,
    depth: usize,
}

/// Where the visit in flight stands.
enum Phase {
    /// Between visits: ask `advance`.
    Ready,
    /// A robots fetch is out for the current visit's domain.
    Robots { url: UrlParts, depth: usize },
    /// The pacing sleep is running; `policy` is the robots file to
    /// check afterwards, `None` when there is none to check.
    Delay { url: UrlParts, depth: usize, policy: Option<Vec<u8>> },
    /// The page fetch is out.
    Page { url: UrlParts, depth: usize },
    /// The traversal has quiesced.
    Finished,
}

/// The visits one crawled page schedules: each `href`, in document
/// order, that joins against the page's URL to a URL on the same host,
/// one level deeper — provided the depth cap leaves room.
pub open spec fn scheduled_children(
    base: Seq<char>,
    host: Seq<char>,
    hrefs: Seq<Seq<char>>,
    depth: int,
    max_depth: int,
) -> Seq<(Seq<char>, int)>
    decreases hrefs.len(),
{
    if hrefs.len() == 0 {
        Seq::empty()
    } else {
        let rest = scheduled_children(base, host, hrefs.drop_last(), depth, max_depth);
        match url_join_of(base, hrefs.last()) {
            Some(t) => if t.2 == host && depth < max_depth {
                rest.push((t.0, depth + 1))
            } else {
                rest
            },
            None => rest,
        }
    }
}

/// Whether a fetched robots policy permits a URL: no policy (a failed
/// fetch) permits everything, a file the matcher cannot safely read
/// (see `robots_text_ok`) is treated as no policy, and otherwise the
/// matcher decides for the configured agent.
pub open spec fn policy_permits(content: Option<Seq<u8>>, agent: Seq<char>, url: Seq<char>) -> bool {
    match content {
        None => true,
        Some(c) => if robots_text_ok(c) {
            robots_allows(c, agent, url)
        } else {
            true
        },
    }
}

/// The crawl delay a visit owes: the cached entry's delay when robots
/// handling is on and the domain's entry carries one, the configured
/// default otherwise.
pub open spec fn expected_delay(
    cache: Map<Seq<char>, (Option<Seq<u8>>, Option<u64>)>,
    host: Seq<char>,
    c: CrawlerConfig,
) -> u64 {
    if c.robots && cache.contains_key(host) {
        match cache[host].1 {
            Some(d) => d,
            None => c.rate_limit_wait_seconds,
        }
    } else {
        c.rate_limit_wait_seconds
    }
}

/// A crawler: configuration plus the ability to open sessions.
pub struct Crawler {
    pub config: CrawlerConfig,
}

/// The crawl state for one seed.
pub struct CrawlSession {
    config: CrawlerConfig,
    origin: String,
    seed_host: String,
    visited: Vec<String>,
    frontier: Vec<Pending>,
    cache: indexmap::IndexMap<String, RobotsEntry>,
    phase: Phase,
    emitted_g: Ghost<Seq<EmittedPage>>,
    robots_g: Ghost<Seq<Seq<char>>>,
}

impl CrawlSession {
    /// The configuration the session was opened with.
    pub closed spec fn config(self) -> CrawlerConfig {
        self.config
    }

    /// The seed's serialisation, carried onto every emitted tuple.
    pub closed spec fn origin_url(self) -> Seq<char> {
        self.origin@
    }

    /// The seed's host.
    pub closed spec fn seed_host(self) -> Seq<char> {
        self.seed_host@
    }

    /// The URLs visited so far.
    pub closed spec fn visited_urls(self) -> Seq<Seq<char>> {
        self.visited.deep_view()
    }

    /// The pages emitted so far, newest last.
    pub closed spec fn emitted(self) -> Seq<EmittedPage> {
        self.emitted_g@
    }

    /// The domains a robots fetch was issued for, in order.
    pub closed spec fn robots_fetches(self) -> Seq<Seq<char>> {
        self.robots_g@
    }

    /// The robots cache, domain to entry.
    pub closed spec fn robots_cache(self) -> Map<Seq<char>, (Option<Seq<u8>>, Option<u64>)> {
        robots_cache_of(self.cache)
    }

    /// How many visits are scheduled and not yet taken up.
    pub closed spec fn frontier_count(self) -> nat {
        self.frontier@.len()
    }

    /// The scheduled visits, oldest first: each URL with its depth.
    pub closed spec fn scheduled(self) -> Seq<(Seq<char>, int)> {
        Seq::new(self.frontier@.len(), |i: int| (self.frontier@[i].url.text@, self.frontier@[i].depth as int))
    }

    /// Between visits: `advance` may be called.
    pub closed spec fn ready(self) -> bool {
        self.phase is Ready
    }

    /// The traversal has quiesced.
    pub closed spec fn finished(self) -> bool {
        self.phase is Finished
    }

    /// A robots fetch is owed.
    pub closed spec fn awaiting_robots(self) -> bool {
        self.phase is Robots
    }

    /// A pacing wait is owed.
    pub closed spec fn awaiting_delay(self) -> bool {
        self.phase is Delay
    }

    /// A page fetch is owed.
    pub closed spec fn awaiting_page(self) -> bool {
        self.phase is Page
    }

    spec fn current(self) -> (UrlParts, usize) {
        match self.phase {
            Phase::Robots { url, depth } => (url, depth),
            Phase::Delay { url, depth, .. } => (url, depth),
            Phase::Page { url, depth } => (url, depth),
            _ => vstd::pervasive::arbitrary(),
        }
    }

    /// The URL of the visit in flight.
    pub closed spec fn current_url(self) -> Seq<char> {
        self.current().0.text@
    }

    /// Its scheme.
    pub closed spec fn current_scheme(self) -> Seq<char> {
        self.current().0.scheme@
    }

    /// Its host.
    pub closed spec fn current_host(self) -> Seq<char> {
        self.current().0.host@
    }

    /// Its depth.
    pub closed spec fn current_depth(self) -> int {
        self.current().1 as int
    }

    /// Whether the robots policy held for the pacing wait permits the
    /// visit in flight.
    pub closed spec fn policy_allows(self) -> bool {
        match self.phase {
            Phase::Delay { url, policy, .. } => policy_permits(
                policy.deep_view(),
                self.config.user_agent@,
                url.text@,
            ),
            _ => vstd::pervasive::arbitrary(),
        }
    }

    spec fn flight_ok(self, url: UrlParts, depth: usize) -> bool {
        &&& url.wf()
        &&& url.host@ == self.seed_host@
        &&& url.host@.len() > 0
        &&& depth <= self.config.max_depth
        &&& !contains_text(self.visited.deep_view(), url.text@)
        &&& self.visited@.len() <= self.config.max_pages
    }

    spec fn pending_ok(self, p: Pending) -> bool {
        &&& p.url.wf()
        &&& p.url.host@ == self.seed_host@
        &&& p.depth <= self.config.max_depth
    }

    spec fn phase_ok(self) -> bool {
        match self.phase {
            Phase::Ready => true,
            Phase::Finished => true,
            Phase::Robots { url, depth } => self.flight_ok(url, depth) && self.config.robots
                && !robots_cache_of(self.cache).contains_key(url.host@),
            Phase::Delay { url, depth, .. } => self.flight_ok(url, depth),
            Phase::Page { url, depth } => self.flight_ok(url, depth),
        }
    }

    spec fn emitted_ok(self, e: EmittedPage) -> bool {
        &&& url_parse_of(e.url) == Some((e.url, e.scheme, e.host))
        &&& e.host == self.seed_host@
        &&& 0 <= e.depth <= self.config.max_depth
        &&& contains_text(self.visited.deep_view(), e.url)
        &&& valid_utf8(e.body)
        &&& e.text == decode_utf8(e.body)
        &&& e.origin == self.origin@
        &&& self.config.allowed_mimes@.len() > 0 ==> mime_admitted(
            sniffed_mime_of(e.body),
            self.config.allowed_mimes.deep_view(),
        )
    }

    spec fn robots_g_ok(self, d: Seq<char>) -> bool {
        robots_cache_of(self.cache).contains_key(d) || (self.phase matches Phase::Robots {
            url,
            ..
        } && d == url.host@)
    }

    /// The session invariant: every session a `Crawler` opens satisfies
    /// it, and every step keeps it.
    pub closed spec fn inv(self) -> bool {
        &&& self.config.wf()
        &&& no_dup_texts(self.visited.deep_view())
        &&& self.visited@.len() <= self.config.max_pages + 1
        &&& forall|i: int|
            0 <= i < self.frontier@.len() ==> self.pending_ok(#[trigger] self.frontier@[i])
        &&& self.phase_ok()
        &&& forall|i: int|
            0 <= i < self.emitted_g@.len() ==> self.emitted_ok(#[trigger] self.emitted_g@[i])
        &&& forall|i: int, j: int|
            0 <= i < j < self.emitted_g@.len() ==> self.emitted_g@[i].url != self.emitted_g@[j].url
        &&& no_dup_texts(self.robots_g@)
        &&& forall|i: int|
            0 <= i < self.robots_g@.len() ==> self.robots_g_ok(#[trigger] self.robots_g@[i])
    }
}

/// `v` holds a `String` whose view is `s@`.
fn vec_contains_string(v: &Vec<String>, s: &String) -> (r: bool)
    ensures
        r == contains_text(v.deep_view(), s@),
{
    let mut i: usize = 0;
    while i < v.len()
        invariant
            i <= v@.len(),
            forall|j: int| 0 <= j < i ==> #[trigger] v.deep_view()[j] != s@,
        decreases v.len() - i,
    {
        if v[i].eq(s) {
            proof {
                assert(v.deep_view()[i as int] == s@);
            }
            return true;
        }
        proof {
            assert(v.deep_view()[i as int] == v@[i as int]@);
        }
        i = i + 1;
    }
    false
}

impl CrawlSession {
    /// Pick the next admissible visit and say what to do for it: fetch
    /// the domain's robots file on a cache miss, else start the pacing
    /// wait.  Yields `Done` when the frontier is exhausted.  Admission
    /// drops a visit whose depth exceeds the cap, whose URL was already
    /// visited or has no host, and every visit once the page cap is
    /// reached.
    pub fn advance(&mut self) -> (a: CrawlAction)
        requires
            old(self).inv(),
            old(self).ready(),
        ensures
            final(self).inv(),
            final(self).config() == old(self).config(),
            final(self).origin_url() == old(self).origin_url(),
            final(self).seed_host() == old(self).seed_host(),
            final(self).visited_urls() == old(self).visited_urls(),
            final(self).emitted() == old(self).emitted(),
            final(self).robots_cache() == old(self).robots_cache(),
            a is Done ==> final(self).finished() && final(self).robots_fetches() == old(self).robots_fetches()
                && final(self).frontier_count() == 0,
            !(a is Done) ==> {
                &&& final(self).frontier_count() < old(self).frontier_count()
                &&& !contains_text(final(self).visited_urls(), final(self).current_url())
                &&& final(self).current_depth() <= final(self).config().max_depth
                &&& final(self).visited_urls().len() <= final(self).config().max_pages
                &&& final(self).current_host() == final(self).seed_host()
                &&& final(self).current_host().len() > 0
            },
            a is FetchRobots ==> final(self).config().robots,
            a matches CrawlAction::FetchRobots { url } ==> {
                &&& final(self).awaiting_robots()
                &&& url@ == final(self).current_scheme() + "://"@ + final(self).current_host() + "/robots.txt"@
                &&& final(self).robots_fetches() == old(self).robots_fetches().push(final(self).current_host())
                &&& !final(self).robots_cache().contains_key(final(self).current_host())
            },
            a matches CrawlAction::Wait { seconds } ==> {
                &&& final(self).awaiting_delay()
                &&& seconds == expected_delay(
                    final(self).robots_cache(),
                    final(self).current_host(),
                    final(self).config(),
                )
                &&& final(self).robots_fetches() == old(self).robots_fetches()
            },
            a is FetchPage ==> false,
            a is Skipped ==> false,
    {
        loop
            invariant
                self.inv(),
                self.phase is Ready,
                self.config == old(self).config,
                self.origin == old(self).origin,
                self.seed_host == old(self).seed_host,
                self.visited == old(self).visited,
                self.cache == old(self).cache,
                self.emitted_g@ == old(self).emitted_g@,
                self.robots_g@ == old(self).robots_g@,
                self.frontier@.len() <= old(self).frontier@.len(),
            decreases self.frontier@.len(),
        {
            if self.frontier.len() == 0 {
                self.phase = Phase::Finished;
                return CrawlAction::Done;
            }
            proof {
                assert(self.pending_ok(self.frontier@[self.frontier@.len() - 1]));
            }
            let p = self.frontier.pop().unwrap();
            if p.depth > self.config.max_depth {
                continue;
            }
            if self.visited.len() > self.config.max_pages {
                continue;
            }
            if vec_contains_string(&self.visited, &p.url.text) {
                continue;
            }
            if p.url.host.as_str().is_empty() {
                continue;
            }
            if self.config.robots {
                match robots_cache_lookup(&self.cache, p.url.host.as_str()) {
                    Some(entry) => {
                        let seconds = match entry.crawl_delay {
                            Some(d) => d,
                            None => self.config.rate_limit_wait_seconds,
                        };
                        self.phase = Phase::Delay {
                            url: p.url,
                            depth: p.depth,
                            policy: entry.content,
                        };
                        return CrawlAction::Wait { seconds };
                    },
                    None => {
                        let mut robots_url = p.url.scheme.clone();
                        robots_url.append("://");
                        robots_url.append(p.url.host.as_str());
                        robots_url.append("/robots.txt");
                        proof {
                            self.robots_g@ = self.robots_g@.push(p.url.host@);
                        }
                        self.phase = Phase::Robots { url: p.url, depth: p.depth };
                        return CrawlAction::FetchRobots { url: robots_url };
                    },
                }
            } else {
                let seconds = self.config.rate_limit_wait_seconds;
                self.phase = Phase::Delay { url: p.url, depth: p.depth, policy: None };
                return CrawlAction::Wait { seconds };
            }
        }
    }
    /// Report the robots fetch for the visit in flight: `None` when it
    /// failed.  The outcome is cached for the domain either way — a
    /// failure as an explicit no-policy entry — and the pacing wait
    /// starts: the file's `Crawl-delay` when it has one, the configured
    /// default otherwise.
    pub fn robots_fetched(&mut self, content: Option<Vec<u8>>) -> (a: CrawlAction)
        requires
            old(self).inv(),
            old(self).awaiting_robots(),
        ensures
            final(self).inv(),
            final(self).config() == old(self).config(),
            final(self).origin_url() == old(self).origin_url(),
            final(self).seed_host() == old(self).seed_host(),
            final(self).visited_urls() == old(self).visited_urls(),
            final(self).emitted() == old(self).emitted(),
            final(self).robots_fetches() == old(self).robots_fetches(),
            final(self).awaiting_delay(),
            final(self).current_url() == old(self).current_url(),
            final(self).current_host() == old(self).current_host(),
            final(self).current_depth() == old(self).current_depth(),
            final(self).robots_cache() == old(self).robots_cache().insert(
                old(self).current_host(),
                (
                    content.deep_view(),
                    match content {
                        Some(c) => crate::robots::crawl_delay_of(c@),
                        None => None,
                    },
                ),
            ),
            a matches CrawlAction::Wait { seconds } && seconds == expected_delay(
                final(self).robots_cache(),
                final(self).current_host(),
                final(self).config(),
            ),
            final(self).policy_allows() == policy_permits(
                content.deep_view(),
                final(self).config().user_agent@,
                final(self).current_url(),
            ),
    {
        let mut ph = Phase::Ready;
        core::mem::swap(&mut ph, &mut self.phase);
        match ph {
            Phase::Robots { url, depth } => {
                let (entry, policy): (RobotsEntry, Option<Vec<u8>>) = match content {
                    Some(c) => {
                        let copy = slice_to_vec(c.as_slice());
                        proof {
                            assert(copy.deep_view() =~= c.deep_view());
                        }
                        let e = robots_entry_of_fetch(Some(c));
                        (e, Some(copy))
                    },
                    None => (robots_entry_of_fetch(None), None),
                };
                proof {
                    assert(policy.deep_view() == content.deep_view());
                }
                let seconds = match entry.crawl_delay {
                    Some(d) => d,
                    None => self.config.rate_limit_wait_seconds,
                };
                robots_cache_store(&mut self.cache, url.host.clone(), entry);
                self.phase = Phase::Delay { url, depth, policy };
                CrawlAction::Wait { seconds }
            },
            _ => {
                proof {
                    assert(false);
                }
                CrawlAction::Skipped
            },
        }
    }

    /// Report that the pacing wait elapsed.  When the robots policy in
    /// flight permits the URL — or there is none to check — the page
    /// fetch is owed next; otherwise the visit is dropped and `Skipped`
    /// comes back.
    pub fn waited(&mut self) -> (a: CrawlAction)
        requires
            old(self).inv(),
            old(self).awaiting_delay(),
        ensures
            final(self).inv(),
            final(self).config() == old(self).config(),
            final(self).origin_url() == old(self).origin_url(),
            final(self).seed_host() == old(self).seed_host(),
            final(self).visited_urls() == old(self).visited_urls(),
            final(self).emitted() == old(self).emitted(),
            final(self).robots_fetches() == old(self).robots_fetches(),
            final(self).robots_cache() == old(self).robots_cache(),
            a is FetchPage <==> old(self).policy_allows(),
            a matches CrawlAction::FetchPage { url } ==> {
                &&& final(self).awaiting_page()
                &&& url@ == old(self).current_url()
                &&& final(self).current_url() == old(self).current_url()
                &&& final(self).current_host() == old(self).current_host()
                &&& final(self).current_depth() == old(self).current_depth()
            },
            !old(self).policy_allows() ==> a is Skipped && final(self).ready(),
    {
        let mut ph = Phase::Ready;
        core::mem::swap(&mut ph, &mut self.phase);
        match ph {
            Phase::Delay { url, depth, policy } => {
                let allowed = match &policy {
                    None => true,
                    Some(c) => {
                        proof {
                            assert(c.deep_view() =~= c@);
                        }
                        if robots_checkable(c.as_slice()) {
                            robots_allowed(
                                c.as_slice(),
                                self.config.user_agent.as_str(),
                                url.text.as_str(),
                            )
                        } else {
                            true
                        }
                    },
                };
                if allowed {
                    let target = url.text.clone();
                    self.phase = Phase::Page { url, depth };
                    CrawlAction::FetchPage { url: target }
                } else {
                    CrawlAction::Skipped
                }
            },
            _ => {
                proof {
                    assert(false);
                }
                CrawlAction::Skipped
            },
        }
    }
    /// Report the page fetch for the visit in flight: `None` when the
    /// request failed.  A failed fetch, a `cf-mitigated` challenge or an
    /// undecodable body drop the visit; a body the content-type filter
    /// rejects marks the URL visited and drops it.  Otherwise the URL is
    /// marked visited, its same-host links are scheduled one level
    /// deeper (when the depth cap leaves room), and the page tuple comes
    /// back for the index writer.
    pub fn page_fetched(&mut self, page: Option<FetchedPage>) -> (t: Option<PageTuple>)
        requires
            old(self).inv(),
            old(self).awaiting_page(),
        ensures
            final(self).inv(),
            final(self).ready(),
            final(self).config() == old(self).config(),
            final(self).origin_url() == old(self).origin_url(),
            final(self).seed_host() == old(self).seed_host(),
            final(self).robots_fetches() == old(self).robots_fetches(),
            final(self).robots_cache() == old(self).robots_cache(),
            t is Some <==> (page matches Some(p) && !p.cf_mitigated && mime_admitted(
                sniffed_mime_of(p.body@),
                old(self).config().allowed_mimes.deep_view(),
            ) && valid_utf8(p.body@)),
            t matches Some(tuple) ==> {
                &&& tuple.url@ == old(self).current_url()
                &&& tuple.origin_url@ == old(self).origin_url()
                &&& tuple.depth as int == old(self).current_depth()
                &&& page matches Some(p) && tuple.text@ == decode_utf8(p.body@) && final(self).emitted()
                    == old(self).emitted().push(
                    EmittedPage {
                        url: tuple.url@,
                        scheme: old(self).current_scheme(),
                        host: old(self).current_host(),
                        depth: tuple.depth as int,
                        body: p.body@,
                        text: tuple.text@,
                        origin: tuple.origin_url@,
                    },
                )
                &&& final(self).visited_urls() == old(self).visited_urls().push(tuple.url@)
                &&& (page matches Some(p) && final(self).scheduled() == old(self).scheduled()
                    + scheduled_children(
                    old(self).current_url(),
                    old(self).current_host(),
                    extracted_hrefs_of(decode_utf8(p.body@)),
                    old(self).current_depth(),
                    old(self).config().max_depth as int,
                ))
            },
            t is None ==> final(self).emitted() == old(self).emitted() && final(self).scheduled()
                == old(self).scheduled(),
            page is None ==> final(self).visited_urls() == old(self).visited_urls(),
            page matches Some(p) && p.cf_mitigated ==> final(self).visited_urls() == old(
                self,
            ).visited_urls(),
            page matches Some(p) && !p.cf_mitigated && !mime_admitted(
                sniffed_mime_of(p.body@),
                old(self).config().allowed_mimes.deep_view(),
            ) ==> final(self).visited_urls() == old(self).visited_urls().push(old(self).current_url()),
            page matches Some(p) && !p.cf_mitigated && mime_admitted(
                sniffed_mime_of(p.body@),
                old(self).config().allowed_mimes.deep_view(),
            ) && !valid_utf8(p.body@) ==> final(self).visited_urls() == old(self).visited_urls(),
    {
        let mut ph = Phase::Ready;
        core::mem::swap(&mut ph, &mut self.phase);
        match ph {
            Phase::Page { url, depth } => {
                let p = match page {
                    Some(p) => p,
                    None => {
                        return None;
                    },
                };
                if p.cf_mitigated {
                    return None;
                }
                let accepted = if self.config.allowed_mimes.len() == 0 {
                    true
                } else {
                    let sniff = sniff_mime(p.body.as_slice());
                    proof {
                        match &sniff {
                            Some(m) => {
                                assert(m.deep_view() =~= m@);
                            },
                            None => {},
                        }
                        assert(sniff.deep_view() == sniffed_mime_of(p.body@));
                    }
                    content_admitted(&sniff, &self.config.allowed_mimes)
                };
                proof {
                    assert(accepted == mime_admitted(
                        sniffed_mime_of(p.body@),
                        self.config.allowed_mimes.deep_view(),
                    ));
                }
                if !accepted {
                    let ghost before = self.visited.deep_view();
                    self.visited.push(url.text.clone());
                    proof {
                        assert(self.visited.deep_view() =~= before.push(url.text@));
                        lemma_push_fresh_text(before, url.text@, self.visited.deep_view());
                        assert forall|k: int| 0 <= k < self.emitted_g@.len() implies self.emitted_ok(
                            #[trigger] self.emitted_g@[k],
                        ) by {
                            assert(old(self).emitted_ok(old(self).emitted_g@[k]));
                        }
                    }
                    return None;
                }
                let text = match decode_utf8_bytes(p.body.as_slice()) {
                    Some(tx) => tx,
                    None => {
                        return None;
                    },
                };
                let ghost before = self.visited.deep_view();
                let ghost rec = EmittedPage {
                    url: url.text@,
                    scheme: url.scheme@,
                    host: url.host@,
                    depth: depth as int,
                    body: p.body@,
                    text: text@,
                    origin: self.origin@,
                };
                self.visited.push(url.text.clone());
                proof {
                    assert(self.visited.deep_view() =~= before.push(url.text@));
                    lemma_push_fresh_text(before, url.text@, self.visited.deep_view());
                    self.emitted_g@ = self.emitted_g@.push(rec);
                    assert forall|k: int| 0 <= k < self.emitted_g@.len() implies self.emitted_ok(
                        #[trigger] self.emitted_g@[k],
                    ) by {
                        if k < self.emitted_g@.len() - 1 {
                            assert(self.emitted_g@[k] == old(self).emitted_g@[k]);
                            assert(old(self).emitted_ok(old(self).emitted_g@[k]));
                        } else {
                            assert(self.emitted_g@[k] == rec);
                        }
                    }
                    assert forall|a: int, b: int|
                        0 <= a < b < self.emitted_g@.len() implies self.emitted_g@[a].url
                        != self.emitted_g@[b].url by {
                        if b < self.emitted_g@.len() - 1 {
                            assert(self.emitted_g@[a] == old(self).emitted_g@[a]);
                            assert(self.emitted_g@[b] == old(self).emitted_g@[b]);
                        } else {
                            assert(self.emitted_g@[b] == rec);
                            assert(old(self).emitted_ok(old(self).emitted_g@[a]));
                            assert(self.emitted_g@[a] == old(self).emitted_g@[a]);
                            if self.emitted_g@[a].url == url.text@ {
                                assert(contains_text(before, url.text@));
                            }
                        }
                    }
                }
                let links = extract_links(text.as_str());
                proof {
                    assert(links.deep_view().subrange(0, 0) =~= Seq::empty());
                    assert(self.scheduled() =~= old(self).scheduled());
                    assert(self.scheduled() =~= old(self).scheduled() + scheduled_children(
                        url.text@,
                        url.host@,
                        links.deep_view().subrange(0, 0),
                        depth as int,
                        self.config.max_depth as int,
                    ));
                }
                let mut i: usize = 0;
                while i < links.len()
                    invariant
                        i <= links@.len(),
                        self.inv(),
                        self.phase is Ready,
                        url.wf(),
                        url.host@ == self.seed_host@,
                        self.config == old(self).config,
                        self.origin == old(self).origin,
                        self.seed_host == old(self).seed_host,
                        self.cache == old(self).cache,
                        self.robots_g@ == old(self).robots_g@,
                        self.visited.deep_view() == old(self).visited.deep_view().push(url.text@),
                        self.emitted_g@ == old(self).emitted_g@.push(rec),
                        rec.url == url.text@,
                        depth <= self.config.max_depth,
                        self.scheduled() == old(self).scheduled() + scheduled_children(
                            url.text@,
                            url.host@,
                            links.deep_view().subrange(0, i as int),
                            depth as int,
                            self.config.max_depth as int,
                        ),
                    decreases links@.len() - i,
                {
                    let ghost pre = links.deep_view().subrange(0, i as int);
                    let ghost ext = links.deep_view().subrange(0, i + 1 as int);
                    let ghost sched = self.scheduled();
                    proof {
                        assert(ext.drop_last() =~= pre);
                        assert(ext.last() == links.deep_view()[i as int]);
                        assert(links.deep_view()[i as int] == links@[i as int]@);
                    }
                    match join_url(&url, links[i].as_str()) {
                        Some(child) => {
                            if child.host.eq(&url.host) && depth < self.config.max_depth {
                                proof {
                                    assert(self.pending_ok(
                                        Pending { url: child, depth: (depth + 1) as usize },
                                    ));
                                }
                                self.frontier.push(Pending { url: child, depth: depth + 1 });
                                proof {
                                    assert(self.scheduled() =~= sched.push(
                                        (child.text@, depth + 1),
                                    ));
                                }
                            }
                        },
                        None => {},
                    }
                    i = i + 1;
                }
                proof {
                    assert(links.deep_view().subrange(0, links@.len() as int) =~= links.deep_view());
                }
                Some(
                    PageTuple {
                        text,
                        url: url.text,
                        origin_url: self.origin.clone(),
                        depth,
                    },
                )
            },
            _ => {
                proof {
                    assert(false);
                }
                None
            },
        }
    }
}

impl Crawler {
    /// A crawler over this configuration.
    pub fn from_config(config: CrawlerConfig) -> (c: Crawler)
        ensures
            c.config == config,
    {
        Crawler { config }
    }

    /// A crawler with the stock configuration.
    pub fn new() -> (c: Crawler)
        ensures
            crate::config::is_default_config(c.config),
            c.config.wf(),
    {
        Crawler::from_config(CrawlerConfig::default())
    }

    /// Open a session rooted at `url`, at depth zero.  Fails exactly
    /// when the seed does not parse; the traversal then never starts.
    pub fn start(self, url: &str) -> (r: Result<CrawlSession, CrawlError>)
        requires
            self.config.wf(),
        ensures
            r is Ok <==> url_parse_of(url@) is Some,
            r matches Ok(s) ==> {
                &&& s.inv()
                &&& s.ready()
                &&& s.config() == self.config
                &&& url_parse_of(url@) matches Some(t) && s.origin_url() == t.0 && s.seed_host()
                    == t.2 && s.scheduled() =~= seq![(t.0, 0int)]
                &&& s.emitted().len() == 0
                &&& s.robots_fetches().len() == 0
                &&& s.visited_urls().len() == 0
                &&& s.robots_cache() == crate::robots::empty_robots_cache()
            },
    {
        let parts = match parse_url(url) {
            Some(p) => p,
            None => {
                return Err(CrawlError::InvalidSeed);
            },
        };
        let origin = parts.text.clone();
        let seed_host = parts.host.clone();
        let mut frontier: Vec<Pending> = Vec::new();
        frontier.push(Pending { url: parts, depth: 0 });
        let s = CrawlSession {
            config: self.config,
            origin,
            seed_host,
            visited: Vec::new(),
            frontier,
            cache: robots_cache_new(),
            phase: Phase::Ready,
            emitted_g: Ghost(Seq::empty()),
            robots_g: Ghost(Seq::empty()),
        };
        proof {
            assert(s.scheduled() =~= seq![(s.frontier@[0].url.text@, 0int)]);
        }
        Ok(s)
    }
}

impl CrawlerBuilder {
    /// The crawler this builder describes.
    pub fn build(self) -> (c: Crawler)
        ensures
            c.config == self.config,
    {
        Crawler::from_config(self.config)
    }
}

/// Page cap: a session never holds more visited URLs than its page cap
/// plus its concurrency limit.
pub proof fn lemma_page_cap(s: CrawlSession)
    requires
        s.inv(),
    ensures
        s.visited_urls().len() <= s.config().max_pages + s.config().max_concurrent_requests,
{
}

/// Depth cap: no emitted page lies deeper than the configured maximum.
pub proof fn lemma_depth_cap(s: CrawlSession)
    requires
        s.inv(),
    ensures
        forall|i: int|
            0 <= i < s.emitted().len() ==> (#[trigger] s.emitted()[i]).depth <= s.config().max_depth,
{
}

/// Same domain: every emitted page's URL parses, and its host is the
/// seed's host.
pub proof fn lemma_same_domain(s: CrawlSession)
    requires
        s.inv(),
    ensures
        forall|i: int|
            0 <= i < s.emitted().len() ==> url_parse_of((#[trigger] s.emitted()[i]).url) == Some(
                (s.emitted()[i].url, s.emitted()[i].scheme, s.emitted()[i].host),
            ) && s.emitted()[i].host == s.seed_host(),
{
}

/// Deduplication: no URL is emitted twice, and every emitted URL was
/// marked visited.
pub proof fn lemma_emitted_unique(s: CrawlSession)
    requires
        s.inv(),
    ensures
        forall|i: int, j: int|
            0 <= i < j < s.emitted().len() ==> s.emitted()[i].url != s.emitted()[j].url,
        forall|i: int|
            0 <= i < s.emitted().len() ==> contains_text(
                s.visited_urls(),
                (#[trigger] s.emitted()[i]).url,
            ),
{
}

/// Robots once: a robots fetch is issued at most once per domain in a
/// session.
pub proof fn lemma_robots_once(s: CrawlSession)
    requires
        s.inv(),
    ensures
        no_dup_texts(s.robots_fetches()),
{
}

/// Content-type filter: with a non-empty allow-list, every emitted
/// page's body sniffs to an allowed type (or to nothing, which the
/// filter admits).
pub proof fn lemma_mime_filter(s: CrawlSession)
    requires
        s.inv(),
        s.config().allowed_mimes@.len() > 0,
    ensures
        forall|i: int|
            0 <= i < s.emitted().len() ==> mime_admitted(
                sniffed_mime_of((#[trigger] s.emitted()[i]).body),
                s.config().allowed_mimes.deep_view(),
            ),
{
}

/// In-flight same domain: while a page fetch is owed, the fetched URL
/// parses back to itself and its host is the seed's host — the skipped
/// and filtered pages obey the domain scope just as the emitted ones do.
pub proof fn lemma_fetch_same_domain(s: CrawlSession)
    requires
        s.inv(),
        s.awaiting_page(),
    ensures
        url_parse_of(s.current_url()) == Some(
            (s.current_url(), s.current_scheme(), s.current_host()),
        ),
        s.current_host() == s.seed_host(),
        s.current_host().len() > 0,
{
}

/// Emitted text: every emitted page's text is the UTF-8 decoding of the
/// body that was fetched for it.
pub proof fn lemma_emitted_text(s: CrawlSession)
    requires
        s.inv(),
    ensures
        forall|i: int|
            0 <= i < s.emitted().len() ==> valid_utf8((#[trigger] s.emitted()[i]).body)
                && s.emitted()[i].text == decode_utf8(s.emitted()[i].body) && s.emitted()[i].origin
                == s.origin_url(),
{
}

} // verus!
