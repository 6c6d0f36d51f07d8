//! The request/response facade over the two operations: indexing a
//! seed and searching the corpus, with errors surfaced as a status and
//! a message rather than a transport failure.

use vstd::prelude::*;
use vstd::string::StringExecFns;

use crate::crawly::CrawlSession;
use crate::indexer::{Indexer, IndexerService};
use crate::search_engine::{
    answers_results, hits_from, query_parses, results_view, to_results, SearchResult,
};
use crate::urlparse::url_parse_of;

verus! {

/// The outcome of an operation, as the wire reports it.
#[derive(Clone, Copy, Debug, PartialEq, Eq, Structural)]
pub enum ResponseStatus {
    Success,
    Error,
}

/// The reply to an indexing request.
#[derive(Debug)]
pub struct IndexResponse {
    pub status: ResponseStatus,
    pub message: Option<String>,
}

/// The reply to a search request.
#[derive(Debug)]
pub struct SearchResponse {
    pub status: ResponseStatus,
    pub message: Option<String>,
    pub results: Vec<SearchResult>,
}

/// The service behind the two operations.
pub struct SearchService {
    pub indexer: IndexerService,
}

impl SearchService {
    /// The documents indexed so far, in write order.
    pub open spec fn docs(self) -> Seq<(Seq<char>, Seq<char>, u64, Seq<char>)> {
        self.indexer.docs()
    }

    /// A service over a fresh, empty engine; `None` when the engine's
    /// storage cannot be set up.
    pub fn new() -> (r: Option<SearchService>)
        ensures
            r matches Some(s) ==> s.docs().len() == 0,
    {
        match IndexerService::new() {
            Some(indexer) => Some(SearchService { indexer }),
            None => None,
        }
    }

    /// Begin serving `Index(origin, k)`: a crawl session bounded as the
    /// service configures it, or the error reply when the seed does not
    /// parse.
    pub fn index_begin(&mut self, origin: &str, k: u32) -> (r: Result<CrawlSession, IndexResponse>)
        ensures
            r is Ok <==> url_parse_of(origin@) is Some,
            r matches Ok(s) ==> {
                &&& s.inv()
                &&& s.ready()
                &&& s.config().max_depth == k as usize
                &&& s.config().max_pages == 3
                &&& s.config().max_concurrent_requests == 2
                &&& s.config().robots
                &&& s.emitted().len() == 0
                &&& url_parse_of(origin@) matches Some(t) && s.origin_url() == t.0
                    && s.seed_host() == t.2 && s.scheduled() =~= seq![(t.0, 0int)]
            },
            r matches Err(resp) ==> resp.status is Error && (resp.message matches Some(m)
                && m@.len() > 0),
    {
        match self.indexer.visit(origin, k) {
            Ok(s) => Ok(s),
            Err(m) => {
                proof {
                    reveal_strlit("failed to index: ");
                }
                let mut msg = String::from_str("failed to index: ");
                msg.append(m.as_str());
                Err(IndexResponse { status: ResponseStatus::Error, message: Some(msg) })
            },
        }
    }

    /// The reply when a crawl ran to completion: per-page errors are
    /// absorbed along the way, so completion is success.
    pub fn index_complete(&self) -> (resp: IndexResponse)
        ensures
            resp.status is Success,
            resp.message is None,
    {
        IndexResponse { status: ResponseStatus::Success, message: None }
    }

    /// Serve `Search(query)`: the engine's hits, relayed verbatim, on
    /// success — each an indexed document's stored fields, and all
    /// matching documents when ten or fewer match; the error status with
    /// a non-empty message when the engine rejects the query (an
    /// unparsable query always does), and no results in that case.
    pub fn search(&self, query: &str) -> (resp: SearchResponse)
        ensures
            !query_parses(query@) ==> resp.status is Error,
            resp.status is Success ==> resp.message is None && resp.results@.len() <= 10
                && hits_from(self.docs(), resp.results@) && results_view(resp.results@)
                == to_results(self.indexer.search_engine.query_success(query@)) && answers_results(
                self.docs(),
                query@,
                resp.results@,
            ),
            resp.status is Error ==> (resp.message matches Some(m) && m@.len() > 0)
                && resp.results@.len() == 0,
    {
        match self.indexer.read_hits(query) {
            Ok(results) => SearchResponse {
                status: ResponseStatus::Success,
                message: None,
                results,
            },
            Err(m) => {
                proof {
                    reveal_strlit("search failed: ");
                }
                let mut msg = String::from_str("search failed: ");
                msg.append(m.as_str());
                SearchResponse {
                    status: ResponseStatus::Error,
                    message: Some(msg),
                    results: Vec::new(),
                }
            },
        }
    }
}

/// Read an indexing reply on the client side: success passes, an error
/// reply becomes a message for the caller that carries the reply's own
/// message verbatim.
pub fn index_outcome(resp: &IndexResponse) -> (r: Result<(), String>)
    ensures
        r is Ok <==> resp.status is Success,
        r matches Err(m) ==> m@.len() > 0,
        (resp.status is Error && resp.message is Some) ==> (r matches Err(m)
            && (resp.message matches Some(mm) && m@ == "indexing failed"@ + ": "@ + mm@)),
{
    match resp.status {
        ResponseStatus::Success => Ok(()),
        ResponseStatus::Error => {
            proof {
                reveal_strlit("indexing failed");
                reveal_strlit(": ");
            }
            let mut msg = String::from_str("indexing failed");
            match &resp.message {
                Some(m) => {
                    msg.append(": ");
                    msg.append(m.as_str());
                },
                None => {},
            }
            Err(msg)
        },
    }
}

/// Read a search reply on the client side: success passes, an error
/// reply becomes a message for the caller that carries the reply's own
/// message verbatim.
pub fn query_outcome(resp: &SearchResponse) -> (r: Result<(), String>)
    ensures
        r is Ok <==> resp.status is Success,
        r matches Err(m) ==> m@.len() > 0,
        (resp.status is Error && resp.message is Some) ==> (r matches Err(m)
            && (resp.message matches Some(mm) && m@ == "query failed"@ + ": "@ + mm@)),
{
    match resp.status {
        ResponseStatus::Success => Ok(()),
        ResponseStatus::Error => {
            proof {
                reveal_strlit("query failed");
                reveal_strlit(": ");
            }
            let mut msg = String::from_str("query failed");
            match &resp.message {
                Some(m) => {
                    msg.append(": ");
                    msg.append(m.as_str());
                },
                None => {},
            }
            Err(msg)
        },
    }
}

} // verus!
