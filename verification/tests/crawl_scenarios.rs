use crawly_search::config::CrawlerBuilder;
use crawly_search::content::MimeType;
use crawly_search::crawly::{CrawlAction, CrawlError, CrawlSession, PageTuple};
use crawly_search::rpc::{ResponseStatus, SearchService};

/// A stub site: URL to (cf-mitigated flag, body), plus one robots file
/// shared by every domain the stub serves.
struct StubSite {
    pages: Vec<(String, bool, Vec<u8>)>,
    robots: Option<Vec<u8>>,
}

/// What a drive observed: the emitted tuples, the robots URLs fetched,
/// the page URLs fetched, and each wait's length in seconds.
struct DriveLog {
    emitted: Vec<PageTuple>,
    robots_urls: Vec<String>,
    fetched_urls: Vec<String>,
    waits: Vec<u64>,
}

fn drive(session: &mut CrawlSession, site: &StubSite) -> DriveLog {
    let mut log = DriveLog {
        emitted: Vec::new(),
        robots_urls: Vec::new(),
        fetched_urls: Vec::new(),
        waits: Vec::new(),
    };
    let mut action = session.advance();
    let mut steps = 0usize;
    loop {
        steps += 1;
        assert!(steps < 10_000, "driver did not quiesce");
        match action {
            CrawlAction::Done => break,
            CrawlAction::FetchRobots { url } => {
                log.robots_urls.push(url);
                action = session.robots_fetched(site.robots.clone());
            },
            CrawlAction::Wait { seconds } => {
                log.waits.push(seconds);
                action = session.waited();
            },
            CrawlAction::Skipped => {
                action = session.advance();
            },
            CrawlAction::FetchPage { url } => {
                log.fetched_urls.push(url.clone());
                let page = site.pages.iter().find(|(u, _, _)| *u == url).map(
                    |(_, cf, body)| crawly_search::crawly::FetchedPage {
                        cf_mitigated: *cf,
                        body: body.clone(),
                    },
                );
                if let Some(t) = session.page_fetched(page) {
                    log.emitted.push(t);
                }
                action = session.advance();
            },
        }
    }
    log
}

fn page(url: &str, body: &str) -> (String, bool, Vec<u8>) {
    (url.to_string(), false, body.as_bytes().to_vec())
}

#[test]
fn seed_with_two_children_indexes_and_answers_hello() {
    let site = StubSite {
        pages: vec![
            page("http://stub/", "<a href=\"/a\">a</a> <a href=\"/b\">b</a>"),
            page("http://stub/a", "<p>hello world</p>"),
            page("http://stub/b", "<p>hello world</p>"),
        ],
        robots: None,
    };
    let mut service = SearchService::new().expect("engine storage");
    let mut session = service.index_begin("http://stub/", 2).expect("seed parses");
    let log = drive(&mut session, &site);
    for t in &log.emitted {
        assert!(service.indexer.absorb(t));
    }
    assert_eq!(log.emitted.len(), 3);
    let a = log.emitted.iter().find(|t| t.url == "http://stub/a").expect("child emitted");
    assert_eq!(a.text, "<p>hello world</p>");
    assert_eq!(a.origin_url, "http://stub/");
    assert_eq!(a.depth, 1);
    let done = service.index_complete();
    assert!(matches!(done.status, ResponseStatus::Success));
    let resp = service.search("hello");
    assert!(matches!(resp.status, ResponseStatus::Success));
    assert!(!resp.results.is_empty());
    assert!(resp.results.iter().any(|h| h.origin_url == "http://stub/"));
}

#[test]
fn robots_disallow_and_crawl_delay_are_obeyed() {
    let site = StubSite {
        pages: vec![
            page("http://stub/", "<a href=\"/private/page\">p</a> <a href=\"/open\">o</a>"),
            page("http://stub/private/page", "secret"),
            page("http://stub/open", "public text"),
        ],
        robots: Some(b"User-agent: *\nDisallow: /private\nCrawl-delay: 2".to_vec()),
    };
    let crawler = CrawlerBuilder::new().with_max_depth(3).build();
    let mut session = crawler.start("http://stub/").expect("seed parses");
    let log = drive(&mut session, &site);
    assert!(log.fetched_urls.iter().any(|u| u == "http://stub/"));
    assert!(log.fetched_urls.iter().all(|u| u != "http://stub/private/page"));
    assert!(log.emitted.iter().all(|t| t.url != "http://stub/private/page"));
    assert!(log.emitted.iter().any(|t| t.url == "http://stub/open"));
    // One robots fetch for the whole domain, and every pace is the
    // robots file's two seconds.
    assert_eq!(log.robots_urls, vec!["http://stub/robots.txt".to_string()]);
    assert!(!log.waits.is_empty());
    assert!(log.waits.iter().all(|w| *w == 2));
}

#[test]
fn foreign_hosts_are_not_followed() {
    let site = StubSite {
        pages: vec![
            page(
                "http://stub/",
                "<a href=\"http://other/\">x</a> <a href=\"http://stub/about\">a</a>",
            ),
            page("http://stub/about", "about us"),
            page("http://other/", "elsewhere"),
        ],
        robots: None,
    };
    let crawler = CrawlerBuilder::new().build();
    let mut session = crawler.start("http://stub/").expect("seed parses");
    let log = drive(&mut session, &site);
    assert!(log.fetched_urls.iter().all(|u| !u.starts_with("http://other/")));
    assert!(log.fetched_urls.iter().any(|u| u == "http://stub/about"));
    assert!(log.emitted.iter().any(|t| t.url == "http://stub/about"));
    assert!(log.emitted.iter().all(|t| !t.url.starts_with("http://other/")));
}

#[test]
fn challenged_seed_indexes_nothing_but_search_still_answers() {
    let site = StubSite {
        pages: vec![("http://stub/".to_string(), true, b"blocked".to_vec())],
        robots: None,
    };
    let mut service = SearchService::new().expect("engine storage");
    let mut session = service.index_begin("http://stub/", 1).expect("seed parses");
    let log = drive(&mut session, &site);
    for t in &log.emitted {
        assert!(service.indexer.absorb(t));
    }
    assert!(log.emitted.is_empty());
    let done = service.index_complete();
    assert!(matches!(done.status, ResponseStatus::Success));
    let resp = service.search("blocked");
    assert!(matches!(resp.status, ResponseStatus::Success));
    assert!(resp.results.is_empty());
}

#[test]
fn page_cap_of_one_overshoots_by_at_most_the_concurrency() {
    let mut body = String::new();
    for i in 0..10 {
        body.push_str(&format!("<a href=\"/p{}\">l</a> ", i));
    }
    let mut pages = vec![page("http://stub/", &body)];
    for i in 0..10 {
        pages.push(page(&format!("http://stub/p{}", i), "filler text"));
    }
    let site = StubSite { pages, robots: None };
    let crawler = CrawlerBuilder::new()
        .with_max_pages(1)
        .with_max_concurrent_requests(2)
        .with_max_depth(4)
        .build();
    let mut session = crawler.start("http://stub/").expect("seed parses");
    let log = drive(&mut session, &site);
    assert!(log.fetched_urls.len() <= 1 + 2);
    assert!(log.emitted.len() <= 1 + 2);
}

#[test]
fn mime_filter_keeps_non_html_out_of_the_emissions() {
    // A tiny PNG header: sniffed image/png, rejected by a text/html
    // allow-list; an HTML page passes it.
    let png: Vec<u8> = vec![0x89, 0x50, 0x4E, 0x47, 0x0D, 0x0A, 0x1A, 0x0A, 0, 0, 0, 0];
    let html = b"<html><body>hello image <a href=\"/pic\">pic</a></body></html>".to_vec();
    let site = StubSite {
        pages: vec![
            ("http://stub/".to_string(), false, html),
            ("http://stub/pic".to_string(), false, png),
        ],
        robots: None,
    };
    let crawler = CrawlerBuilder::new()
        .with_allowed_mimes(vec![MimeType::new("text/html")])
        .with_max_depth(2)
        .build();
    let mut session = crawler.start("http://stub/").expect("seed parses");
    let log = drive(&mut session, &site);
    assert!(log.emitted.iter().any(|t| t.url == "http://stub/"));
    assert!(log.emitted.iter().all(|t| t.url != "http://stub/pic"));
    assert!(log.fetched_urls.iter().any(|u| u == "http://stub/pic"));
}

#[test]
fn robots_disabled_paces_with_the_configured_default() {
    let site = StubSite {
        pages: vec![page("http://stub/", "plain page")],
        robots: Some(b"User-agent: *\nCrawl-delay: 9".to_vec()),
    };
    let crawler = CrawlerBuilder::new()
        .with_robots(false)
        .with_rate_limit_wait_seconds(7)
        .build();
    let mut session = crawler.start("http://stub/").expect("seed parses");
    let log = drive(&mut session, &site);
    assert!(log.robots_urls.is_empty());
    assert!(!log.waits.is_empty());
    assert!(log.waits.iter().all(|w| *w == 7));
    assert_eq!(log.emitted.len(), 1);
}

#[test]
fn a_robots_file_without_a_delay_paces_with_the_default() {
    let site = StubSite {
        pages: vec![page("http://stub/", "plain page")],
        robots: Some(b"User-agent: *\nDisallow: /private".to_vec()),
    };
    let crawler = CrawlerBuilder::new().with_rate_limit_wait_seconds(4).build();
    let mut session = crawler.start("http://stub/").expect("seed parses");
    let log = drive(&mut session, &site);
    assert_eq!(log.robots_urls.len(), 1);
    assert!(log.waits.iter().all(|w| *w == 4));
    assert_eq!(log.emitted.len(), 1);
}

#[test]
fn depth_cap_limits_how_deep_tuples_go() {
    let site = StubSite {
        pages: vec![
            page("http://stub/", "<a href=\"/one\">1</a>"),
            page("http://stub/one", "<a href=\"/two\">2</a>"),
            page("http://stub/two", "<a href=\"/three\">3</a>"),
            page("http://stub/three", "too deep"),
        ],
        robots: None,
    };
    let crawler = CrawlerBuilder::new().with_max_depth(2).with_max_pages(10).build();
    let mut session = crawler.start("http://stub/").expect("seed parses");
    let log = drive(&mut session, &site);
    assert!(log.emitted.iter().all(|t| t.depth <= 2));
    assert!(log.emitted.iter().all(|t| t.url != "http://stub/three"));
    assert!(log.emitted.iter().any(|t| t.url == "http://stub/two"));
}

#[test]
fn an_unreadable_robots_file_is_treated_as_no_policy() {
    // One 20000-byte line: past the matcher's safe line bound, so the
    // file counts as no policy and the disallow rule below it is moot.
    let mut long_line = vec![b'a'; 20000];
    long_line.extend_from_slice(b"\nUser-agent: *\nDisallow: /");
    let site = StubSite {
        pages: vec![page("http://stub/", "open text")],
        robots: Some(long_line),
    };
    let crawler = CrawlerBuilder::new().build();
    let mut session = crawler.start("http://stub/").expect("seed parses");
    let log = drive(&mut session, &site);
    assert_eq!(log.emitted.len(), 1);

    // The same for bytes that are not UTF-8.
    let site = StubSite {
        pages: vec![page("http://stub/", "open text")],
        robots: Some(vec![0xff, 0xfe, b'\n', b'D']),
    };
    let crawler = CrawlerBuilder::new().build();
    let mut session = crawler.start("http://stub/").expect("seed parses");
    let log = drive(&mut session, &site);
    assert_eq!(log.emitted.len(), 1);

    // A readable deny-all file still blocks everything.
    let site = StubSite {
        pages: vec![page("http://stub/", "open text")],
        robots: Some(b"User-agent: *
Disallow: /".to_vec()),
    };
    let crawler = CrawlerBuilder::new().build();
    let mut session = crawler.start("http://stub/").expect("seed parses");
    let log = drive(&mut session, &site);
    assert!(log.emitted.is_empty());
    assert!(log.fetched_urls.is_empty());
}

#[test]
fn an_unparsable_seed_is_the_only_fatal_error() {
    let crawler = CrawlerBuilder::new().build();
    assert!(matches!(crawler.start("::"), Err(CrawlError::InvalidSeed)));
    let crawler = CrawlerBuilder::new().build();
    assert!(crawler.start("http://stub/").is_ok());
}

#[test]
fn an_undecodable_body_is_skipped_without_being_emitted() {
    let site = StubSite {
        pages: vec![("http://stub/".to_string(), false, vec![0xff, 0xfe, 0x80])],
        robots: None,
    };
    let crawler = CrawlerBuilder::new().build();
    let mut session = crawler.start("http://stub/").expect("seed parses");
    let log = drive(&mut session, &site);
    assert!(log.fetched_urls.iter().any(|u| u == "http://stub/"));
    assert!(log.emitted.is_empty());
}

#[test]
fn revisited_urls_are_emitted_once() {
    let site = StubSite {
        pages: vec![
            page("http://stub/", "<a href=\"/a\">a</a> <a href=\"/a\">again</a>"),
            page("http://stub/a", "<a href=\"/\">home</a>"),
        ],
        robots: None,
    };
    let crawler = CrawlerBuilder::new().with_max_depth(5).build();
    let mut session = crawler.start("http://stub/").expect("seed parses");
    let log = drive(&mut session, &site);
    let mut urls: Vec<&str> = log.emitted.iter().map(|t| t.url.as_str()).collect();
    urls.sort();
    let before = urls.len();
    urls.dedup();
    assert_eq!(before, urls.len());
    assert_eq!(log.emitted.len(), 2);
}
