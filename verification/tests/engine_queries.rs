use crawly_search::config::CrawlerBuilder;
use crawly_search::rpc::{index_outcome, query_outcome, IndexResponse, ResponseStatus,
    SearchResponse, SearchService};
use crawly_search::search_engine::SearchEngine;

#[test]
fn a_written_word_is_retrievable_by_search() {
    let mut e = SearchEngine::new().expect("engine storage");
    assert!(e.write_doc("the quick brown fox", "http://stub/a", "http://stub/", 1));
    let hits = e.run_query("quick").expect("query parses");
    assert_eq!(hits.len(), 1);
    assert_eq!(hits[0].relevant_url, "http://stub/a");
    assert_eq!(hits[0].origin_url, "http://stub/");
    assert_eq!(hits[0].depth, 1);
}

#[test]
fn identical_queries_on_an_unchanged_index_return_identical_results() {
    let mut e = SearchEngine::new().expect("engine storage");
    assert!(e.write_doc("alpha beta gamma", "http://stub/a", "http://stub/", 0));
    assert!(e.write_doc("beta gamma delta", "http://stub/b", "http://stub/", 1));
    assert!(e.write_doc("gamma delta epsilon", "http://stub/c", "http://stub/", 2));
    let first = e.run_query("gamma beta").expect("query parses");
    let second = e.run_query("gamma beta").expect("query parses");
    assert_eq!(first.len(), second.len());
    for (a, b) in first.iter().zip(second.iter()) {
        assert_eq!(a.relevant_url, b.relevant_url);
        assert_eq!(a.origin_url, b.origin_url);
        assert_eq!(a.depth, b.depth);
    }
}

#[test]
fn at_most_ten_hits_come_back() {
    let mut e = SearchEngine::new().expect("engine storage");
    for i in 0..12 {
        let url = format!("http://stub/p{}", i);
        assert!(e.write_doc("common words here", &url, "http://stub/", 0));
    }
    let hits = e.run_query("common").expect("query parses");
    assert_eq!(hits.len(), 10);
}

#[test]
fn an_unparseable_query_yields_an_error_with_a_message() {
    let service = SearchService::new().expect("engine storage");
    let resp = service.search("::::");
    assert!(matches!(resp.status, ResponseStatus::Error));
    let message = resp.message.expect("message populated");
    assert!(!message.is_empty());
    assert!(resp.results.is_empty());
}

#[test]
fn an_invalid_seed_is_reported_as_an_error_reply() {
    let mut service = SearchService::new().expect("engine storage");
    let err = match service.index_begin("not a url", 2) {
        Ok(_) => panic!("an unparsable seed must be refused"),
        Err(resp) => resp,
    };
    assert!(matches!(err.status, ResponseStatus::Error));
    assert!(!err.message.expect("message populated").is_empty());
}

#[test]
fn client_outcomes_follow_the_status() {
    let ok = IndexResponse { status: ResponseStatus::Success, message: None };
    assert!(index_outcome(&ok).is_ok());
    let bad = IndexResponse {
        status: ResponseStatus::Error,
        message: Some("boom".to_string()),
    };
    let msg = index_outcome(&bad).unwrap_err();
    assert!(msg.contains("boom"));
    let qok = SearchResponse {
        status: ResponseStatus::Success,
        message: None,
        results: Vec::new(),
    };
    assert!(query_outcome(&qok).is_ok());
    let qbad = SearchResponse {
        status: ResponseStatus::Error,
        message: Some("bad query".to_string()),
        results: Vec::new(),
    };
    assert!(query_outcome(&qbad).unwrap_err().contains("bad query"));
}

#[test]
fn builders_set_exactly_their_field() {
    let b = CrawlerBuilder::new();
    assert_eq!(b.config.max_depth, 5);
    assert_eq!(b.config.max_pages, 15);
    assert_eq!(b.config.max_concurrent_requests, 1000);
    assert_eq!(b.config.rate_limit_wait_seconds, 1);
    assert!(b.config.robots);
    assert!(b.config.allowed_mimes.is_empty());
    assert_eq!(b.config.user_agent, "CrawlyRustCrawler");
    let b = CrawlerBuilder::new()
        .with_max_depth(2)
        .with_max_pages(3)
        .with_max_concurrent_requests(4)
        .with_rate_limit_wait_seconds(5)
        .with_robots(false)
        .with_user_agent("TestAgent");
    assert_eq!(b.config.max_depth, 2);
    assert_eq!(b.config.max_pages, 3);
    assert_eq!(b.config.max_concurrent_requests, 4);
    assert_eq!(b.config.rate_limit_wait_seconds, 5);
    assert!(!b.config.robots);
    assert_eq!(b.config.user_agent, "TestAgent");
    let crawler = b.build();
    assert_eq!(crawler.config.max_depth, 2);
}
