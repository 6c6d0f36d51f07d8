//! One-shot glue between the crawler and the search engine: each
//! indexing request opens a bounded crawl whose pages flow into the
//! engine.

use vstd::prelude::*;
use vstd::string::StringExecFns;

use crate::config::CrawlerBuilder;
use crate::crawly::{CrawlSession, PageTuple};
use crate::search_engine::{
    answers_results, hits_from, query_parses, results_view, to_results, Reader, SearchEngine,
    SearchResult,
};
use crate::urlparse::url_parse_of;

verus! {

/// The indexing side of the service.
pub trait Indexer {
    /// Begin serving an indexing request rooted at `origin_url`: a
    /// session configured with the service's bounds — depth as asked,
    /// three pages, two concurrent requests, robots handling on — and
    /// ready to drive.  Fails exactly when the seed does not parse.
    fn visit(&mut self, origin_url: &str, max_depth: u32) -> (r: Result<CrawlSession, String>)
        ensures
            r is Ok <==> url_parse_of(origin_url@) is Some,
            r matches Ok(s) ==> {
                &&& s.inv()
                &&& s.ready()
                &&& s.config().max_depth == max_depth as usize
                &&& s.config().max_pages == 3
                &&& s.config().max_concurrent_requests == 2
                &&& s.config().robots
                &&& s.emitted().len() == 0
                &&& s.robots_fetches().len() == 0
                &&& url_parse_of(origin_url@) matches Some(t) && s.origin_url() == t.0
                    && s.seed_host() == t.2 && s.scheduled() =~= seq![(t.0, 0int)]
            },
            r matches Err(m) ==> m@.len() > 0,
    ;
}

/// The indexer service: owns the search engine for the process.
pub struct IndexerService {
    pub search_engine: SearchEngine,
}

impl IndexerService {
    /// The documents indexed so far, in write order.
    pub open spec fn docs(self) -> Seq<(Seq<char>, Seq<char>, u64, Seq<char>)> {
        self.search_engine.docs()
    }

    /// A service over a fresh, empty engine; `None` when the engine's
    /// storage cannot be set up.
    pub fn new() -> (r: Option<IndexerService>)
        ensures
            r matches Some(s) ==> s.docs().len() == 0,
    {
        match SearchEngine::new() {
            Some(e) => Some(IndexerService { search_engine: e }),
            None => None,
        }
    }

    /// Absorb one emitted page into the index.  Reports whether the
    /// document was committed; on failure the index is unchanged and the
    /// page is skipped, as per-page errors never stop a crawl.
    pub fn absorb(&mut self, t: &PageTuple) -> (ok: bool)
        ensures
            ok ==> final(self).docs() == old(self).docs().push(
                (t.url@, t.origin_url@, t.depth as u64, t.text@),
            ),
            !ok ==> final(self).docs() == old(self).docs(),
    {
        self.search_engine.write_doc(
            t.text.as_str(),
            t.url.as_str(),
            t.origin_url.as_str(),
            t.depth as u64,
        )
    }

    /// Answer a query: at most ten hits, each the stored fields of an
    /// indexed document; when ten or fewer documents match, all of them
    /// come back; the hits are exactly what the engine's read yields; an
    /// unparsable query is an error.
    pub fn read_hits(&self, query: &str) -> (r: Result<Vec<SearchResult>, String>)
        ensures
            !query_parses(query@) ==> r is Err,
            r matches Ok(hits) ==> hits@.len() <= 10 && hits_from(self.docs(), hits@)
                && results_view(hits@) == to_results(self.search_engine.query_success(query@))
                && answers_results(self.docs(), query@, hits@),
    {
        self.search_engine.run_query(query)
    }
}

impl Indexer for IndexerService {
    fn visit(&mut self, origin_url: &str, max_depth: u32) -> (r: Result<CrawlSession, String>) {
        let crawler = CrawlerBuilder::new().with_max_depth(
            max_depth as usize,
        ).with_max_pages(3).with_max_concurrent_requests(2).with_robots(true).build();
        match crawler.start(origin_url) {
            Ok(s) => Ok(s),
            Err(_) => {
                proof {
                    reveal_strlit("invalid seed URL");
                }
                Err(String::from_str("invalid seed URL"))
            },
        }
    }
}

impl Reader for IndexerService {
    open spec fn readable_docs(&self) -> Seq<(Seq<char>, Seq<char>, u64, Seq<char>)> {
        self.docs()
    }

    fn read(&self, query: &str) -> (r: Result<Vec<SearchResult>, String>) {
        self.read_hits(query)
    }
}

} // verus!
