//! Crawler configuration and its builder.

use vstd::prelude::*;
use vstd::string::StringExecFns;

use crate::content::MimeType;

verus! {

/// Immutable settings for one crawl.
pub struct CrawlerConfig {
    pub user_agent: String,
    pub max_depth: usize,
    pub max_pages: usize,
    pub max_concurrent_requests: usize,
    pub rate_limit_wait_seconds: u64,
    pub robots: bool,
    pub allowed_mimes: Vec<MimeType>,
}

impl CrawlerConfig {
    /// The bounds a configuration must respect: a named agent, at least
    /// one page, at least one concurrent request.
    pub open spec fn wf(self) -> bool {
        self.user_agent@.len() > 0 && self.max_pages >= 1 && self.max_concurrent_requests >= 1
    }
}

/// The stock settings: depth 5, 15 pages, 1000 concurrent requests, a
/// one-second pace, robots handling on, every content type accepted.
pub open spec fn is_default_config(c: CrawlerConfig) -> bool {
    &&& c.user_agent@ == "CrawlyRustCrawler"@
    &&& c.max_depth == 5
    &&& c.max_pages == 15
    &&& c.max_concurrent_requests == 1000
    &&& c.rate_limit_wait_seconds == 1
    &&& c.robots == true
    &&& c.allowed_mimes@.len() == 0
}

impl Default for CrawlerConfig {
    /// The stock configuration.
    fn default() -> (c: CrawlerConfig)
        ensures
            is_default_config(c),
            c.wf(),
    {
        proof {
            reveal_strlit("CrawlyRustCrawler");
        }
        CrawlerConfig {
            user_agent: String::from_str("CrawlyRustCrawler"),
            max_depth: 5,
            max_pages: 15,
            max_concurrent_requests: 1000,
            rate_limit_wait_seconds: 1,
            robots: true,
            allowed_mimes: Vec::new(),
        }
    }
}

/// Builder for a crawler with custom settings.
pub struct CrawlerBuilder {
    pub config: CrawlerConfig,
}

impl Default for CrawlerBuilder {
    fn default() -> (b: CrawlerBuilder)
        ensures
            is_default_config(b.config),
            b.config.wf(),
    {
        CrawlerBuilder::new()
    }
}

impl CrawlerBuilder {
    /// A builder holding the stock configuration.
    pub fn new() -> (b: CrawlerBuilder)
        ensures
            is_default_config(b.config),
            b.config.wf(),
    {
        CrawlerBuilder { config: CrawlerConfig::default() }
    }

    /// Set the maximum crawl depth.
    pub fn with_max_depth(self, depth: usize) -> (b: Self)
        ensures
            (b.config == CrawlerConfig { max_depth: depth, ..self.config }),
    {
        CrawlerBuilder { config: CrawlerConfig { max_depth: depth, ..self.config } }
    }

    /// Set the page cap.
    pub fn with_max_pages(self, pages: usize) -> (b: Self)
        requires
            pages >= 1,
        ensures
            (b.config == CrawlerConfig { max_pages: pages, ..self.config }),
    {
        CrawlerBuilder { config: CrawlerConfig { max_pages: pages, ..self.config } }
    }

    /// Set the concurrency limit.
    pub fn with_max_concurrent_requests(self, requests: usize) -> (b: Self)
        requires
            requests >= 1,
        ensures
            (b.config == CrawlerConfig { max_concurrent_requests: requests, ..self.config }),
    {
        CrawlerBuilder { config: CrawlerConfig { max_concurrent_requests: requests, ..self.config } }
    }

    /// Set the default pacing delay, in seconds.
    pub fn with_rate_limit_wait_seconds(self, seconds: u64) -> (b: Self)
        ensures
            (b.config == CrawlerConfig { rate_limit_wait_seconds: seconds, ..self.config }),
    {
        CrawlerBuilder { config: CrawlerConfig { rate_limit_wait_seconds: seconds, ..self.config } }
    }

    /// Enable or disable robots handling.
    pub fn with_robots(self, robots: bool) -> (b: Self)
        ensures
            (b.config == CrawlerConfig { robots: robots, ..self.config }),
    {
        CrawlerBuilder { config: CrawlerConfig { robots: robots, ..self.config } }
    }

    /// Set the user agent.
    pub fn with_user_agent(self, user_agent: &str) -> (b: Self)
        requires
            user_agent@.len() > 0,
        ensures
            b.config.user_agent@ == user_agent@,
            (b.config == CrawlerConfig { user_agent: b.config.user_agent, ..self.config }),
    {
        CrawlerBuilder { config: CrawlerConfig { user_agent: String::from_str(user_agent), ..self.config } }
    }

    /// Restrict the crawl to a set of MIME types; an empty set accepts
    /// everything.
    pub fn with_allowed_mimes(self, mime_types: Vec<MimeType>) -> (b: Self)
        ensures
            (b.config == CrawlerConfig { allowed_mimes: mime_types, ..self.config }),
    {
        CrawlerBuilder { config: CrawlerConfig { allowed_mimes: mime_types, ..self.config } }
    }
}

} // verus!
