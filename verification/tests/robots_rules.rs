use crawly_search::content::{content_admitted, mime_eq_bytes, MimeType};
use crawly_search::robots::{parse_crawl_delay, robots_entry_of_fetch};
use crawly_search::text::{contains_bytes, parse_u64_ascii, tail_after_last_byte, trim_ascii};

#[test]
fn crawl_delay_takes_the_first_parsable_directive() {
    let content = b"User-agent: *\nCrawl-delay: 10\nCrawl-delay: 2\n";
    assert_eq!(parse_crawl_delay(content), Some(10));
}

#[test]
fn crawl_delay_skips_unparsable_lines() {
    assert_eq!(parse_crawl_delay(b"Crawl-delay: soon\nCrawl-delay: 7"), Some(7));
    assert_eq!(parse_crawl_delay(b"Crawl-delay: soon"), None);
    assert_eq!(parse_crawl_delay(b"Disallow: /x"), None);
    assert_eq!(parse_crawl_delay(b""), None);
}

#[test]
fn crawl_delay_is_case_sensitive_and_takes_the_last_colon() {
    assert_eq!(parse_crawl_delay(b"crawl-delay: 4"), None);
    // The piece after the last colon is what parses.
    assert_eq!(parse_crawl_delay(b"x: Crawl-delay: 9"), Some(9));
    // No colon at all: the whole line fails to parse.
    assert_eq!(parse_crawl_delay(b"Crawl-delay 9"), None);
}

#[test]
fn crawl_delay_handles_carriage_returns_signs_and_overflow() {
    assert_eq!(parse_crawl_delay(b"Crawl-delay: 5\r\nDisallow: /\r\n"), Some(5));
    assert_eq!(parse_crawl_delay(b"Crawl-delay: +6"), Some(6));
    assert_eq!(parse_crawl_delay(b"Crawl-delay: 99999999999999999999999"), None);
    assert_eq!(parse_crawl_delay(b"Crawl-delay: 18446744073709551615"), Some(u64::MAX));
}

#[test]
fn unsigned_parsing_matches_the_standard_parser() {
    for s in ["0", "42", "+7", "18446744073709551615", "", "x", "1 2", "-3",
        "18446744073709551616", "++1"] {
        assert_eq!(parse_u64_ascii(s.as_bytes()), s.parse::<u64>().ok(), "case {s:?}");
    }
}

#[test]
fn byte_helpers_behave_like_their_std_counterparts() {
    assert!(contains_bytes(b"User-agent: Crawl-delay x", b"Crawl-delay"));
    assert!(!contains_bytes(b"crawl-delay", b"Crawl-delay"));
    assert_eq!(tail_after_last_byte(b"a:b:c", b':'), b"c");
    assert_eq!(tail_after_last_byte(b"abc", b':'), b"abc");
    assert_eq!(tail_after_last_byte(b"ab:", b':'), b"");
    assert_eq!(trim_ascii(b"  7 \t"), b"7");
    assert_eq!(trim_ascii(b"\r\n"), b"");
}

#[test]
fn fetched_entries_cache_their_delay_and_failures_cache_no_policy() {
    let e = robots_entry_of_fetch(Some(b"Crawl-delay: 3".to_vec()));
    assert_eq!(e.crawl_delay, Some(3));
    assert!(e.content.is_some());
    let none = robots_entry_of_fetch(None);
    assert_eq!(none.crawl_delay, None);
    assert!(none.content.is_none());
}

#[test]
fn mime_types_compare_case_insensitively() {
    assert!(mime_eq_bytes(b"text/html", b"TEXT/HTML"));
    assert!(!mime_eq_bytes(b"text/html", b"text/plain"));
    let allowed = vec![MimeType::new("text/html")];
    assert!(content_admitted(&Some(b"TEXT/HTML".to_vec()), &allowed));
    assert!(!content_admitted(&Some(b"image/png".to_vec()), &allowed));
    // A failed sniff admits, and an empty allow-list admits everything.
    assert!(content_admitted(&None, &allowed));
    assert!(content_admitted(&Some(b"image/png".to_vec()), &Vec::new()));
}

