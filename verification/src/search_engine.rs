//! The full-text index facade: a write-and-commit path and a ranked
//! query path over an inverted index with the schema
//! `{url, origin_url, depth, body}`.

use vstd::prelude::*;
use vstd::string::StringExecFns;

use tantivy::collector::TopDocs;
use tantivy::query::QueryParser;
use tantivy::schema::{Schema, Value, STORED, STRING, TEXT};
use tantivy::{Index, ReloadPolicy, TantivyDocument};
use tempfile::TempDir;

verus! {

/// One ranked hit: the stored fields of a matching document.
#[derive(Debug)]
pub struct SearchResult {
    pub relevant_url: String,
    pub origin_url: String,
    pub depth: u32,
}

/// The backing inverted index: its temporary directory, the index, one
/// writer, one reader, and the four field handles.  Opaque here; the
/// named contents and the trusted calls below are all that is assumed
/// of it.
#[verifier::external_body]
pub struct SearchIndex {
    dir: TempDir,
    index: Index,
    writer: tantivy::IndexWriter,
    reader: tantivy::IndexReader,
    f_url: tantivy::schema::Field,
    f_origin: tantivy::schema::Field,
    f_depth: tantivy::schema::Field,
    f_body: tantivy::schema::Field,
}

/// What the index holds: one `(url, origin_url, depth, body)` record
/// per committed document, in write order.
pub uninterp spec fn index_docs(e: SearchIndex) -> Seq<(Seq<char>, Seq<char>, u64, Seq<char>)>;

/// Whether the index library's default query parser accepts a query
/// over the `body` field — a function of the query text, as the schema
/// is fixed.
pub uninterp spec fn query_parses(q: Seq<char>) -> bool;

/// Whether a parsed query matches a tokenised body — a function of the
/// two texts, as the schema and tokeniser are fixed.
pub uninterp spec fn query_match(q: Seq<char>, body: Seq<char>) -> bool;

/// The ranked document addresses (segment, document) a read of this
/// engine yields for a query: the manual-reload reader pins one
/// snapshot between commits, so the ranking is a function of the
/// engine value and the query.
pub uninterp spec fn ranked_of(e: SearchIndex, q: Seq<char>) -> Seq<(u32, u32)>;

/// The stored `(url, origin_url, depth)` fields retrieval yields at a
/// document address of this engine snapshot; `None` where no document
/// with the three fields lives.
pub uninterp spec fn doc_fields_at(e: SearchIndex, a: (u32, u32)) -> Option<
    (Seq<char>, Seq<char>, u64),
>;

/// What a fully successful read yields: the stored fields at each
/// ranked address, in rank order.
pub open spec fn success_hits(e: SearchIndex, q: Seq<char>) -> Seq<(Seq<char>, Seq<char>, u64)> {
    ranked_of(e, q).map_values(
        |a: (u32, u32)|
            match doc_fields_at(e, a) {
                Some(t) => t,
                None => vstd::pervasive::arbitrary(),
            },
    )
}

/// The stored fields `t` are some document's in `docs`.
pub open spec fn fields_in(
    docs: Seq<(Seq<char>, Seq<char>, u64, Seq<char>)>,
    t: (Seq<char>, Seq<char>, u64),
) -> bool {
    exists|j: int|
        0 <= j < docs.len() && (#[trigger] docs[j]).0 == t.0 && docs[j].1 == t.1 && docs[j].2
            == t.2
}

/// The view of result hits, with the depth in its 32-bit wire form.
pub open spec fn results_view(hits: Seq<SearchResult>) -> Seq<(Seq<char>, Seq<char>, u32)> {
    hits.map_values(|h: SearchResult| (h.relevant_url@, h.origin_url@, h.depth))
}

/// Raw triples reduced to the 32-bit wire form.
pub open spec fn to_results(raw: Seq<(Seq<char>, Seq<char>, u64)>) -> Seq<
    (Seq<char>, Seq<char>, u32),
> {
    raw.map_values(|h: (Seq<char>, Seq<char>, u64)| (h.0, h.1, h.2 as u32))
}

/// The documents of `docs` whose body matches the query.
pub open spec fn matching_docs(
    docs: Seq<(Seq<char>, Seq<char>, u64, Seq<char>)>,
    q: Seq<char>,
) -> Seq<(Seq<char>, Seq<char>, u64, Seq<char>)> {
    docs.filter(|d: (Seq<char>, Seq<char>, u64, Seq<char>)| query_match(q, d.3))
}

/// A returned hit carries the stored fields of some document in `docs`,
/// its depth read back in 32-bit form.
pub open spec fn hit_from(
    docs: Seq<(Seq<char>, Seq<char>, u64, Seq<char>)>,
    h: SearchResult,
) -> bool {
    exists|j: int|
        0 <= j < docs.len() && (#[trigger] docs[j]).0 == h.relevant_url@ && docs[j].1
            == h.origin_url@ && h.depth == docs[j].2 as u32
}

/// Every returned hit carries the stored fields of some document in
/// `docs`, its depth read back in 32-bit form.
pub open spec fn hits_from(
    docs: Seq<(Seq<char>, Seq<char>, u64, Seq<char>)>,
    hits: Seq<SearchResult>,
) -> bool {
    forall|i: int| 0 <= i < hits.len() ==> hit_from(docs, #[trigger] hits[i])
}

/// Completeness at the result level, the depth in 32-bit form.
pub open spec fn answers_results(
    docs: Seq<(Seq<char>, Seq<char>, u64, Seq<char>)>,
    q: Seq<char>,
    hits: Seq<SearchResult>,
) -> bool {
    matching_docs(docs, q).len() <= 10 ==> forall|j: int|
        0 <= j < docs.len() && query_match(q, (#[trigger] docs[j]).3) ==> exists|i: int|
            0 <= i < hits.len() && (#[trigger] hits[i]).relevant_url@ == docs[j].0
                && hits[i].origin_url@ == docs[j].1 && hits[i].depth == docs[j].2 as u32
}

/// Anything pages can be written into.
pub trait Writer {
    /// The documents behind this writer.
    spec fn written_docs(&self) -> Seq<(Seq<char>, Seq<char>, u64, Seq<char>)>;

    /// Write one page and commit it; a failed write skips the page and
    /// leaves the contents as they were.
    fn write(&mut self, text: &str, url: &str, origin_url: &str, depth: u32)
        ensures
            final(self).written_docs() == old(self).written_docs().push(
                (url@, origin_url@, depth as u64, text@),
            ) || final(self).written_docs() == old(self).written_docs(),
    ;
}

/// Anything queries can be read from.
pub trait Reader {
    /// The documents this reader answers from.
    spec fn readable_docs(&self) -> Seq<(Seq<char>, Seq<char>, u64, Seq<char>)>;

    /// Answer a ranked query: at most ten hits, each the stored fields
    /// of an indexed document; when ten or fewer documents match, all of
    /// them are among the hits; an unparsable query is an error.
    fn read(&self, query: &str) -> (r: Result<Vec<SearchResult>, String>)
        ensures
            !query_parses(query@) ==> r is Err,
            r matches Ok(hits) ==> hits@.len() <= 10 && hits_from(self.readable_docs(), hits@)
                && answers_results(self.readable_docs(), query@, hits@),
    ;
}

/// Relies on `tempfile::TempDir::new`, `tantivy::Index::create_in_dir`,
/// `Index::writer` and `Index::reader_builder`: a freshly created index
/// holds no documents.  `None` when the storage cannot be set up.
#[verifier::external_body]
fn index_new() -> (r: Option<SearchIndex>)
    ensures
        r matches Some(e) ==> index_docs(e).len() == 0,
{
    let dir = TempDir::new().ok()?;
    let mut b = Schema::builder();
    let f_url = b.add_text_field("url", STRING | STORED);
    let f_origin = b.add_text_field("origin_url", STRING | STORED);
    let f_depth = b.add_u64_field("depth", STORED);
    let f_body = b.add_text_field("body", TEXT);
    let index = Index::create_in_dir(dir.path(), b.build()).ok()?;
    let writer = index.writer::<TantivyDocument>(50_000_000).ok()?;
    let reader = index.reader_builder().reload_policy(ReloadPolicy::Manual).try_into().ok()?;
    Some(SearchIndex { dir, index, writer, reader, f_url, f_origin, f_depth, f_body })
}

/// Relies on `tantivy::IndexWriter::add_document` and `commit`: a
/// successful commit appends exactly the one document; on any failure
/// the pending write is rolled back and the committed contents stay as
/// they were.  The reader is reloaded after the commit, so later reads
/// see the document.
#[verifier::external_body]
fn index_add(e: &mut SearchIndex, text: &str, url: &str, origin_url: &str, depth: u64) -> (ok:
    bool)
    ensures
        ok ==> index_docs(*final(e)) == index_docs(*old(e)).push(
            (url@, origin_url@, depth, text@),
        ),
        !ok ==> index_docs(*final(e)) == index_docs(*old(e)),
{
    let mut d = TantivyDocument::default();
    d.add_text(e.f_url, url);
    d.add_text(e.f_origin, origin_url);
    d.add_u64(e.f_depth, depth);
    d.add_text(e.f_body, text);
    if e.writer.add_document(d).is_err() {
        return false;
    }
    if e.writer.commit().is_err() {
        let _ = e.writer.rollback();
        return false;
    }
    let _ = e.reader.reload();
    true
}

/// Relies on `tantivy::query::QueryParser::parse_query` (a function
/// of the query for the fixed schema; rejection reported as the
/// library's message) and `Searcher::search` with a top-ten-by-score
/// collector: with ten or fewer matching documents, all of them are
/// collected; each collected address holds a committed document with
/// the three stored fields; the manual-reload reader pins one snapshot
/// between commits, so the ranking is a function of the engine value
/// and the query.
#[verifier::external_body]
fn index_top(e: &SearchIndex, query: &str) -> (r: Result<Vec<(u32, u32)>, String>)
    ensures
        !query_parses(query@) ==> r is Err,
        r matches Ok(addrs) ==> addrs@.len() <= 10 && addrs@ == ranked_of(*e, query@) && (forall|
            i: int,
        |
            0 <= i < addrs@.len() ==> (doc_fields_at(*e, #[trigger] addrs@[i]) matches Some(t)
                && fields_in(index_docs(*e), t))) && (matching_docs(index_docs(*e), query@).len()
            <= 10 ==> forall|j: int|
            0 <= j < index_docs(*e).len() && query_match(query@, (#[trigger] index_docs(*e)[j]).3)
                ==> exists|i: int|
                0 <= i < addrs@.len() && doc_fields_at(*e, #[trigger] addrs@[i]) == Some(
                    (index_docs(*e)[j].0, index_docs(*e)[j].1, index_docs(*e)[j].2),
                )),
{
    let p = QueryParser::for_index(&e.index, vec![e.f_body]);
    let q = p.parse_query(query).map_err(|x| x.to_string())?;
    let top = e.reader.searcher().search(&q, &TopDocs::with_limit(10).order_by_score()).map_err(
        |x| x.to_string(),
    )?;
    Ok(top.iter().map(|(_s, a)| (a.segment_ord, a.doc_id)).collect())
}

/// Relies on `Searcher::doc` and stored-field access: what retrieval
/// yields at an address of the pinned snapshot; a failed retrieval or a
/// missing stored field is an error, never a fabricated hit.
#[verifier::external_body]
fn index_fields(e: &SearchIndex, a: (u32, u32)) -> (r: Result<(String, String, u64), String>)
    ensures
        r matches Ok(h) ==> doc_fields_at(*e, a) == Some((h.0@, h.1@, h.2)),
{
    let addr = tantivy::DocAddress::new(a.0, a.1);
    let d: TantivyDocument = e.reader.searcher().doc(addr).map_err(|x| x.to_string())?;
    let u = d.get_first(e.f_url).and_then(|v| v.as_str()).ok_or("missing stored field")?;
    let o = d.get_first(e.f_origin).and_then(|v| v.as_str()).ok_or("missing stored field")?;
    let n = d.get_first(e.f_depth).and_then(|v| v.as_u64()).ok_or("missing stored field")?;
    Ok((u.to_string(), o.to_string(), n))
}

/// The search engine: a fresh temporary index per instance, written one
/// committed document at a time and read through ranked queries.
pub struct SearchEngine {
    index: SearchIndex,
}

impl SearchEngine {
    /// The documents the engine holds, in write order.
    pub closed spec fn docs(self) -> Seq<(Seq<char>, Seq<char>, u64, Seq<char>)> {
        index_docs(self.index)
    }

    /// What a successful read of this engine yields for a query.
    pub closed spec fn query_success(self, q: Seq<char>) -> Seq<(Seq<char>, Seq<char>, u64)> {
        success_hits(self.index, q)
    }

    /// A fresh, empty engine; `None` when its storage cannot be set up.
    pub fn new() -> (r: Option<SearchEngine>)
        ensures
            r matches Some(e) ==> e.docs().len() == 0,
    {
        match index_new() {
            Some(index) => Some(SearchEngine { index }),
            None => None,
        }
    }

    /// Write one page as a document and commit it.  Reports whether the
    /// document was committed; on failure the contents are unchanged.
    pub fn write_doc(&mut self, text: &str, url: &str, origin_url: &str, depth: u64) -> (ok: bool)
        ensures
            ok ==> final(self).docs() == old(self).docs().push((url@, origin_url@, depth, text@)),
            !ok ==> final(self).docs() == old(self).docs(),
    {
        index_add(&mut self.index, text, url, origin_url, depth)
    }

    /// Run a ranked query over the `body` field: at most ten hits, each
    /// the stored fields of a held document, with the depth truncated to
    /// its 32-bit wire form; when ten or fewer documents match, all of
    /// them are among the hits; two successful reads of an unchanged
    /// engine agree; an unparsable query is an error.
    pub fn run_query(&self, query: &str) -> (r: Result<Vec<SearchResult>, String>)
        ensures
            !query_parses(query@) ==> r is Err,
            r matches Ok(hits) ==> hits@.len() <= 10 && hits_from(self.docs(), hits@)
                && results_view(hits@) == to_results(self.query_success(query@)) && answers_results(
                self.docs(),
                query@,
                hits@,
            ),
    {
        let addrs = match index_top(&self.index, query) {
            Ok(addrs) => addrs,
            Err(m) => {
                return Err(m);
            },
        };
        let mut hits: Vec<SearchResult> = Vec::new();
        let mut i: usize = 0;
        while i < addrs.len()
            invariant
                i <= addrs@.len(),
                addrs@.len() <= 10,
                hits@.len() == i,
                addrs@ == ranked_of(self.index, query@),
                forall|k: int|
                    0 <= k < addrs@.len() ==> (doc_fields_at(self.index, #[trigger] addrs@[k])
                        matches Some(t) && fields_in(self.docs(), t)),
                matching_docs(self.docs(), query@).len() <= 10 ==> forall|j: int|
                    0 <= j < self.docs().len() && query_match(
                        query@,
                        (#[trigger] self.docs()[j]).3,
                    ) ==> exists|k: int|
                        0 <= k < addrs@.len() && doc_fields_at(self.index, #[trigger] addrs@[k])
                            == Some((self.docs()[j].0, self.docs()[j].1, self.docs()[j].2)),
                forall|k: int|
                    0 <= k < i ==> (doc_fields_at(self.index, addrs@[k]) matches Some(t) && (
                    #[trigger] hits@[k]).relevant_url@ == t.0 && hits@[k].origin_url@ == t.1
                        && hits@[k].depth == t.2 as u32),
            decreases addrs.len() - i,
        {
            let a = addrs[i];
            let h = match index_fields(&self.index, a) {
                Ok(h) => h,
                Err(m) => {
                    return Err(m);
                },
            };
            let depth32: u32 = #[verifier::truncate] (h.2 as u32);
            hits.push(SearchResult { relevant_url: h.0, origin_url: h.1, depth: depth32 });
            i = i + 1;
        }
        proof {
            assert forall|m: int| 0 <= m < hits@.len() implies hit_from(
                self.docs(),
                #[trigger] hits@[m],
            ) by {
                assert(doc_fields_at(self.index, addrs@[m]) matches Some(t) && fields_in(
                    self.docs(),
                    t,
                ));
                let t = doc_fields_at(self.index, addrs@[m])->Some_0;
                let j = choose|j: int|
                    0 <= j < self.docs().len() && (#[trigger] self.docs()[j]).0 == t.0
                        && self.docs()[j].1 == t.1 && self.docs()[j].2 == t.2;
                assert(0 <= j < self.docs().len() && self.docs()[j].0 == hits@[m].relevant_url@
                    && self.docs()[j].1 == hits@[m].origin_url@ && hits@[m].depth == self.docs()[j].2
                    as u32);
            }
            assert(hits_from(self.docs(), hits@));
            assert(results_view(hits@) =~= to_results(self.query_success(query@)));
            if matching_docs(self.docs(), query@).len() <= 10 {
                assert forall|j: int|
                    0 <= j < self.docs().len() && query_match(
                        query@,
                        (#[trigger] self.docs()[j]).3,
                    ) implies exists|i2: int|
                    0 <= i2 < hits@.len() && (#[trigger] hits@[i2]).relevant_url@
                        == self.docs()[j].0 && hits@[i2].origin_url@ == self.docs()[j].1
                        && hits@[i2].depth == self.docs()[j].2 as u32 by {
                    let i2 = choose|k: int|
                        0 <= k < addrs@.len() && doc_fields_at(self.index, #[trigger] addrs@[k])
                            == Some((self.docs()[j].0, self.docs()[j].1, self.docs()[j].2));
                    assert(hits@[i2].relevant_url@ == self.docs()[j].0);
                }
            }
        }
        Ok(hits)
    }
}

impl Writer for SearchEngine {
    open spec fn written_docs(&self) -> Seq<(Seq<char>, Seq<char>, u64, Seq<char>)> {
        self.docs()
    }

    fn write(&mut self, text: &str, url: &str, origin_url: &str, depth: u32) {
        let _ = self.write_doc(text, url, origin_url, depth as u64);
    }
}

impl Reader for SearchEngine {
    open spec fn readable_docs(&self) -> Seq<(Seq<char>, Seq<char>, u64, Seq<char>)> {
        self.docs()
    }

    fn read(&self, query: &str) -> (r: Result<Vec<SearchResult>, String>) {
        self.run_query(query)
    }
}

/// Round trip: a written page whose body matches a query is among the
/// hits of any successful read of that query, as long as ten or fewer
/// indexed documents match it.
pub proof fn lemma_search_round_trip(
    docs: Seq<(Seq<char>, Seq<char>, u64, Seq<char>)>,
    q: Seq<char>,
    hits: Seq<SearchResult>,
    j: int,
)
    requires
        answers_results(docs, q, hits),
        matching_docs(docs, q).len() <= 10,
        0 <= j < docs.len(),
        query_match(q, docs[j].3),
    ensures
        exists|i: int|
            0 <= i < hits.len() && (#[trigger] hits[i]).relevant_url@ == docs[j].0
                && hits[i].origin_url@ == docs[j].1 && hits[i].depth == docs[j].2 as u32,
{
}

/// Idempotence of successful reads: two reads of the same query on an
/// unchanged engine that both succeed return identical ordered results.
/// (No such promise holds of two failures: their messages are the
/// library's own text.)
pub proof fn lemma_search_idempotent(
    e: SearchEngine,
    q: Seq<char>,
    h1: Seq<SearchResult>,
    h2: Seq<SearchResult>,
)
    requires
        results_view(h1) == to_results(e.query_success(q)),
        results_view(h2) == to_results(e.query_success(q)),
    ensures
        results_view(h1) == results_view(h2),
{
}

} // verus!
